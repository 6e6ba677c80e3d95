use rtsc::data_policy::{DataDeliveryPolicy, DeliveryPolicy, StorageTryPushOutput};
use rtsc::pdeque::Deque;

struct Data {
    id: u32,
    value: f64,
}

impl DataDeliveryPolicy for Data {
    fn delivery_policy(&self) -> DeliveryPolicy {
        DeliveryPolicy::Single
    }

    fn priority(&self) -> usize {
        100
    }

    fn eq_kind(&self, other: &Self) -> bool {
        self.id == other.id
    }

    fn is_expired(&self) -> bool {
        false
    }
}

#[test]
fn test_dp_single() {
    let mut d: Deque<Data> = Deque::bounded(2);
    assert!(matches!(
        d.try_push(Data { id: 1, value: 1.0 }),
        StorageTryPushOutput::Pushed
    ));
    assert!(matches!(
        d.try_push(Data { id: 2, value: 2.0 }),
        StorageTryPushOutput::Pushed
    ));
    assert!(matches!(
        d.try_push(Data { id: 1, value: 3.0 }),
        StorageTryPushOutput::Pushed
    ));
    assert_eq!(d.len(), 2);
    let v1 = d.get().unwrap();
    assert_eq!(v1.id, 2);
    assert_eq!(v1.value, 2.0);
    let v2 = d.get().unwrap();
    assert_eq!(v2.id, 1);
    assert_eq!(v2.value, 3.0);
    assert!(d.get().is_none());
}

/// A message with every policy attribute set per value.
#[derive(Debug, Clone, Copy, PartialEq)]
struct Msg {
    kind: u8,
    seq: u32,
    policy: DeliveryPolicy,
    prio: usize,
    expired: bool,
}

fn msg(kind: u8, seq: u32, policy: DeliveryPolicy) -> Msg {
    Msg { kind, seq, policy, prio: 100, expired: false }
}

impl DataDeliveryPolicy for Msg {
    fn delivery_policy(&self) -> DeliveryPolicy {
        self.policy
    }
    fn priority(&self) -> usize {
        self.prio
    }
    fn eq_kind(&self, other: &Self) -> bool {
        self.kind == other.kind
    }
    fn is_expired(&self) -> bool {
        self.expired
    }
}

fn drain(d: &mut Deque<Msg>) -> Vec<u32> {
    let mut out = Vec::new();
    while let Some(m) = d.get() {
        out.push(m.seq);
    }
    out
}

#[test]
fn deque_push_then_pop_returns_value() {
    let mut d: Deque<Msg> = Deque::bounded(1);
    assert!(matches!(d.try_push(msg(0, 7, DeliveryPolicy::Always)), StorageTryPushOutput::Pushed));
    assert_eq!(d.get().map(|m| m.seq), Some(7));
    assert!(d.get().is_none());
}

#[test]
fn deque_always_full_returns_value() {
    let mut d: Deque<Msg> = Deque::bounded(1);
    assert!(matches!(d.try_push(msg(0, 1, DeliveryPolicy::Always)), StorageTryPushOutput::Pushed));
    assert!(d.is_full());
    match d.try_push(msg(0, 2, DeliveryPolicy::Always)) {
        StorageTryPushOutput::Full(m) => assert_eq!(m.seq, 2),
        _ => panic!("expected full"),
    }
    assert_eq!(drain(&mut d), vec![1]);
}

#[test]
fn deque_optional_skipped_when_full() {
    let mut d: Deque<Msg> = Deque::bounded(1);
    d.try_push(msg(0, 1, DeliveryPolicy::Always));
    assert!(matches!(d.try_push(msg(1, 2, DeliveryPolicy::Optional)), StorageTryPushOutput::Skipped));
    assert!(matches!(
        d.try_push(msg(1, 3, DeliveryPolicy::SingleOptional)),
        StorageTryPushOutput::Skipped
    ));
    assert_eq!(d.len(), 1);
}

#[test]
fn deque_always_evicts_first_optional() {
    let mut d: Deque<Msg> = Deque::bounded(3);
    d.try_push(msg(0, 1, DeliveryPolicy::Always));
    d.try_push(msg(1, 2, DeliveryPolicy::Optional));
    d.try_push(msg(1, 3, DeliveryPolicy::Optional));
    assert!(matches!(d.try_push(msg(0, 4, DeliveryPolicy::Always)), StorageTryPushOutput::Pushed));
    assert_eq!(drain(&mut d), vec![1, 3, 4]);
}

#[test]
fn deque_latest_evicts_oldest_same_kind() {
    let mut d: Deque<Msg> = Deque::bounded(3);
    d.try_push(msg(0, 1, DeliveryPolicy::Always));
    d.try_push(msg(5, 2, DeliveryPolicy::Latest));
    d.try_push(msg(5, 3, DeliveryPolicy::Latest));
    assert!(matches!(d.try_push(msg(5, 4, DeliveryPolicy::Latest)), StorageTryPushOutput::Pushed));
    assert_eq!(drain(&mut d), vec![1, 3, 4]);
    let mut e: Deque<Msg> = Deque::bounded(1);
    e.try_push(msg(0, 1, DeliveryPolicy::Always));
    assert!(matches!(e.try_push(msg(5, 2, DeliveryPolicy::Latest)), StorageTryPushOutput::Full(_)));
}

#[test]
fn deque_expired_values_are_dropped() {
    let mut d: Deque<Msg> = Deque::bounded(2);
    let mut dead = msg(0, 1, DeliveryPolicy::Always);
    dead.expired = true;
    assert!(matches!(d.try_push(dead), StorageTryPushOutput::Pushed));
    assert!(d.is_empty());
    d.try_push(msg(0, 2, DeliveryPolicy::Always));
    assert_eq!(drain(&mut d), vec![2]);
}

#[test]
fn deque_single_collapses_same_kind() {
    let mut d: Deque<Msg> = Deque::bounded(512);
    for i in 0..10u32 {
        d.try_push(msg(0, i, DeliveryPolicy::Always));
        d.try_push(msg(1, 100 + i, DeliveryPolicy::Single));
        d.try_push(msg(2, 200 + i, DeliveryPolicy::Optional));
    }
    let mut tests = 0;
    let mut temps = Vec::new();
    while let Some(m) = d.get() {
        match m.kind {
            0 => tests += 1,
            1 => temps.push(m.seq),
            _ => {}
        }
    }
    assert_eq!(tests, 10);
    assert_eq!(temps, vec![109]);
}

#[test]
fn deque_ordered_by_priority_stably() {
    let mut d: Deque<Msg> = Deque::bounded(8).set_ordering(true);
    let prios = [5usize, 1, 5, 0, 1];
    for (i, p) in prios.iter().enumerate() {
        let mut m = msg(i as u8, i as u32, DeliveryPolicy::Always);
        m.prio = *p;
        d.try_push(m);
    }
    assert_eq!(drain(&mut d), vec![3, 1, 4, 0, 2]);
}

#[test]
fn deque_set_ordering_sorts_existing() {
    let mut d: Deque<Msg> = Deque::bounded(4);
    for (i, p) in [3usize, 2, 3, 1].iter().enumerate() {
        let mut m = msg(i as u8, i as u32, DeliveryPolicy::Always);
        m.prio = *p;
        d.try_push(m);
    }
    let mut d = d.set_ordering(true);
    assert_eq!(drain(&mut d), vec![3, 1, 0, 2]);
}

#[test]
fn deque_clear_empties() {
    let mut d: Deque<Msg> = Deque::bounded(2);
    d.try_push(msg(0, 1, DeliveryPolicy::Always));
    d.clear();
    assert!(d.is_empty());
    assert_eq!(d.capacity(), 2);
}

#[test]
fn delivery_policy_parse_and_name() {
    assert_eq!(DeliveryPolicy::parse("Single-Optional"), Ok(DeliveryPolicy::SingleOptional));
    assert_eq!("ALWAYS".parse::<DeliveryPolicy>(), Ok(DeliveryPolicy::Always));
    assert_eq!(DeliveryPolicy::parse("Latest"), Ok(DeliveryPolicy::Latest));
    assert_eq!(
        DeliveryPolicy::parse("newest"),
        Err(rtsc::Error::InvalidData("newest".to_owned()))
    );
    for p in [
        DeliveryPolicy::Always,
        DeliveryPolicy::Latest,
        DeliveryPolicy::Optional,
        DeliveryPolicy::Single,
        DeliveryPolicy::SingleOptional,
    ] {
        assert_eq!(DeliveryPolicy::parse(p.as_str()), Ok(p));
        assert_eq!(DeliveryPolicy::parse(&p.as_str().to_uppercase()), Ok(p));
    }
    assert_eq!(DeliveryPolicy::Latest.as_str(), "latest");
    assert_eq!(DeliveryPolicy::default(), DeliveryPolicy::Always);
}

#[test]
fn deque_latest_on_ordered_evicts_higher_priority_then_sorts() {
    let mut d: Deque<Msg> = Deque::bounded(2).set_ordering(true);
    let mut a = msg(7, 1, DeliveryPolicy::Latest);
    a.prio = 10;
    let mut b = msg(8, 2, DeliveryPolicy::Always);
    b.prio = 50;
    let mut c = msg(7, 3, DeliveryPolicy::Latest);
    c.prio = 90;
    d.try_push(a);
    d.try_push(b);
    assert!(matches!(d.try_push(c), StorageTryPushOutput::Pushed));
    assert_eq!(drain(&mut d), vec![2, 3]);
}
