use crate::error::{Error, Result};
use vstd::prelude::*;

verus! {

/// How a value is admitted into a full [`crate::pdeque::Deque`].
#[derive(Debug, Copy, Clone, PartialEq, Eq, Structural)]
pub enum DeliveryPolicy {
    /// Always deliver; the producer blocks while there is no room (the default).
    Always,
    /// Always deliver; on a full queue the oldest value of the same kind is dropped.
    Latest,
    /// Skip delivery if there is no room.
    Optional,
    /// Always deliver, but keep a single (the latest) copy of each kind.
    Single,
    /// Keep a single (the latest) copy of each kind, skip if there is no room.
    SingleOptional,
}

impl DeliveryPolicy {
    /// `Single` or `SingleOptional`: a new value replaces the queued ones of its kind.
    pub open spec fn spec_is_single(self) -> bool {
        self == DeliveryPolicy::Single || self == DeliveryPolicy::SingleOptional
    }

    /// `Optional` or `SingleOptional`: a value that may be dropped when there is no room.
    pub open spec fn spec_is_optional(self) -> bool {
        self == DeliveryPolicy::Optional || self == DeliveryPolicy::SingleOptional
    }

    /// Whether the policy is `Single` or `SingleOptional`.
    pub fn is_single(&self) -> (r: bool)
        ensures
            r == self.spec_is_single(),
    {
        matches!(self, DeliveryPolicy::Single | DeliveryPolicy::SingleOptional)
    }

    /// Whether the policy is `Optional` or `SingleOptional`.
    pub fn is_optional(&self) -> (r: bool)
        ensures
            r == self.spec_is_optional(),
    {
        matches!(self, DeliveryPolicy::Optional | DeliveryPolicy::SingleOptional)
    }

    /// The lowercase name of the policy.
    pub open spec fn spec_name(self) -> Seq<char> {
        match self {
            DeliveryPolicy::Always => "always"@,
            DeliveryPolicy::Latest => "latest"@,
            DeliveryPolicy::Optional => "optional"@,
            DeliveryPolicy::Single => "single"@,
            DeliveryPolicy::SingleOptional => "single-optional"@,
        }
    }

    /// The lowercase name of the policy, as it is printed.
    pub fn as_str(&self) -> (r: &'static str)
        ensures
            r@ == self.spec_name(),
    {
        match self {
            DeliveryPolicy::Always => "always",
            DeliveryPolicy::Latest => "latest",
            DeliveryPolicy::Optional => "optional",
            DeliveryPolicy::Single => "single",
            DeliveryPolicy::SingleOptional => "single-optional",
        }
    }

    /// The policy that a lowercase name stands for: the inverse of [`DeliveryPolicy::as_str`].
    pub open spec fn spec_from_name(name: Seq<char>) -> Option<DeliveryPolicy> {
        if name == "always"@ {
            Some(DeliveryPolicy::Always)
        } else if name == "latest"@ {
            Some(DeliveryPolicy::Latest)
        } else if name == "optional"@ {
            Some(DeliveryPolicy::Optional)
        } else if name == "single"@ {
            Some(DeliveryPolicy::Single)
        } else if name == "single-optional"@ {
            Some(DeliveryPolicy::SingleOptional)
        } else {
            None
        }
    }

    /// Looks up a policy by its lowercase name.
    pub fn from_name(name: &str) -> (r: Option<DeliveryPolicy>)
        ensures
            r == DeliveryPolicy::spec_from_name(name@),
    {
        if str_eq(name, "always") {
            Some(DeliveryPolicy::Always)
        } else if str_eq(name, "latest") {
            Some(DeliveryPolicy::Latest)
        } else if str_eq(name, "optional") {
            Some(DeliveryPolicy::Optional)
        } else if str_eq(name, "single") {
            Some(DeliveryPolicy::Single)
        } else if str_eq(name, "single-optional") {
            Some(DeliveryPolicy::SingleOptional)
        } else {
            None
        }
    }

    /// Parses a policy name in any letter case; an unknown name is `InvalidData` holding it.
    pub fn parse(s: &str) -> (r: Result<DeliveryPolicy>)
        ensures
            match DeliveryPolicy::spec_from_name(lower_of(s@)) {
                Some(p) => r == Ok::<DeliveryPolicy, Error>(p),
                None => r matches Err(Error::InvalidData(t)) && t@ == s@,
            },
    {
        let lower = lowercase(s);
        match DeliveryPolicy::from_name(lower.as_str()) {
            Some(p) => Ok(p),
            None => Err(Error::InvalidData(s.to_owned())),
        }
    }
}

/// Every policy reads back from the name it prints as.
pub proof fn lemma_name_round_trip(p: DeliveryPolicy)
    ensures
        DeliveryPolicy::spec_from_name(p.spec_name()) == Some(p),
{
    reveal_strlit("always");
    reveal_strlit("latest");
    reveal_strlit("optional");
    reveal_strlit("single");
    reveal_strlit("single-optional");
    assert("latest"@[0] != "always"@[0]);
    assert("optional"@.len() != "always"@.len() && "optional"@.len() != "latest"@.len());
    assert("single"@[0] != "always"@[0] && "single"@[0] != "latest"@[0]);
    assert("single"@.len() != "optional"@.len());
    assert("single-optional"@.len() != "always"@.len() && "single-optional"@.len()
        != "latest"@.len() && "single-optional"@.len() != "optional"@.len()
        && "single-optional"@.len() != "single"@.len());
}

impl Default for DeliveryPolicy {
    fn default() -> (r: Self)
        ensures
            r == DeliveryPolicy::Always,
    {
        DeliveryPolicy::Always
    }
}

impl core::str::FromStr for DeliveryPolicy {
    type Err = Error;

    fn from_str(s: &str) -> Result<DeliveryPolicy> {
        DeliveryPolicy::parse(s)
    }
}

/// The lowercase form of a string, as `str::to_lowercase` maps it.
pub uninterp spec fn lower_of(s: Seq<char>) -> Seq<char>;

/// Relies on `str::to_lowercase`: its result depends on the characters of `s` alone.
#[verifier::external_body]
fn lowercase(s: &str) -> (r: String)
    ensures
        r@ == lower_of(s@),
{
    s.to_lowercase()
}

/// Character-wise equality of two strings.
fn str_eq(a: &str, b: &str) -> (r: bool)
    ensures
        r == (a@ == b@),
{
    let n = a.unicode_len();
    if n != b.unicode_len() {
        return false;
    }
    let mut i: usize = 0;
    while i < n
        invariant
            n == a@.len(),
            n == b@.len(),
            i <= n,
            forall|j: int| 0 <= j < i ==> a@[j] == b@[j],
        decreases n - i,
    {
        if a.get_char(i) != b.get_char(i) {
            return false;
        }
        i += 1;
    }
    assert(a@ =~= b@);
    true
}

/// The capability a value gives a policy-governed queue: its delivery policy, its priority, its
/// kind and whether it has expired. All four are pure functions of the value. A verified
/// implementation that overrides a method states its meaning by overriding the matching spec
/// function.
pub trait DataDeliveryPolicy: Sized {
    /// The delivery policy of the value (`Always` for plain data).
    open spec fn spec_delivery_policy(&self) -> DeliveryPolicy {
        DeliveryPolicy::Always
    }

    /// The priority of the value; lower is better (100 for plain data).
    open spec fn spec_priority(&self) -> usize {
        100
    }

    /// Whether the value is of the same kind as `other` (plain data is all of one kind).
    open spec fn spec_eq_kind(&self, other: &Self) -> bool {
        true
    }

    /// Whether the value has expired and must not be delivered (never, for plain data).
    open spec fn spec_is_expired(&self) -> bool {
        false
    }

    /// Delivery policy (`Always` for plain data).
    fn delivery_policy(&self) -> (r: DeliveryPolicy)
        ensures
            r == self.spec_delivery_policy(),
    ;

    /// Priority, used by ordered queues; lower is better (100 for plain data).
    fn priority(&self) -> (r: usize)
        ensures
            r == self.spec_priority(),
    ;

    /// Whether the value is of the same kind as `other` (for enums: the same variant).
    fn eq_kind(&self, other: &Self) -> (r: bool)
        ensures
            r == self.spec_eq_kind(other),
    ;

    /// Whether the value has expired; an expired value is never delivered.
    fn is_expired(&self) -> (r: bool)
        ensures
            r == self.spec_is_expired(),
    ;
}

/// What an attempt to store a value into a bounded queue gave.
pub enum StorageTryPushOutput<T: Sized> {
    /// The value is stored (or, being expired, dropped).
    Pushed,
    /// The value is skipped by its policy.
    Skipped,
    /// There is no room: the value is handed back.
    Full(T),
}

} // verus!
