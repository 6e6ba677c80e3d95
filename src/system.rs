use vstd::prelude::*;

verus! {

/// System parameters (the keys under `/proc/sys`) to set while the process runs; the previous
/// values are restored when the guard of the applied configuration goes away.
#[derive(Debug, Clone, Default)]
pub struct SystemConfig {
    values: Vec<(&'static str, String)>,
}

/// The map that a list of key/value pairs stands for, the later pair of a key winning.
pub open spec fn pairs_map(s: Seq<(&'static str, String)>) -> Map<Seq<char>, Seq<char>>
    decreases s.len(),
{
    if s.len() == 0 {
        Map::empty()
    } else {
        pairs_map(s.drop_last()).insert(s.last().0@, s.last().1@)
    }
}

impl SystemConfig {
    /// The parameters to set, by key.
    pub closed spec fn spec_values(&self) -> Map<Seq<char>, Seq<char>> {
        pairs_map(self.values@)
    }

    /// The pairs set, in the order of the calls to [`SystemConfig::set`].
    pub closed spec fn spec_pairs(&self) -> Seq<(&'static str, String)> {
        self.values@
    }

    /// Creates an empty configuration.
    pub fn new() -> (r: Self)
        ensures
            r.spec_values() == Map::<Seq<char>, Seq<char>>::empty(),
    {
        SystemConfig { values: Vec::new() }
    }

    /// Sets a parameter to configure, replacing an earlier value of the same key.
    pub fn set(self, key: &'static str, value: String) -> (r: Self)
        ensures
            r.spec_values() == self.spec_values().insert(key@, value@),
            r.spec_pairs() == self.spec_pairs().push((key, value)),
    {
        let mut values = self.values;
        let ghost before = values@;
        values.push((key, value));
        proof {
            assert(values@.drop_last() =~= before);
        }
        SystemConfig { values }
    }

    /// The number of pairs held, the later of two pairs with one key included.
    pub fn len(&self) -> (r: usize)
        ensures
            r == self.spec_pairs().len(),
    {
        self.values.len()
    }

    /// The `i`-th pair set, in the order of the calls to [`SystemConfig::set`].
    pub fn entry(&self, i: usize) -> (r: (&'static str, &str))
        requires
            i < self.spec_pairs().len(),
        ensures
            r.0@ == self.spec_pairs()[i as int].0@,
            r.1@ == self.spec_pairs()[i as int].1@,
    {
        let e = &self.values[i];
        (e.0, e.1.as_str())
    }
}


/// Whether `c` is white space (the Unicode `White_Space` property, as `char::is_whitespace`
/// and `str::trim_end` read it).
pub open spec fn is_white_space(c: char) -> bool {
    ('\u{9}' <= c <= '\u{d}') || c == ' ' || c == '\u{85}' || c == '\u{a0}' || c == '\u{1680}'
        || ('\u{2000}' <= c <= '\u{200a}') || c == '\u{2028}' || c == '\u{2029}' || c
        == '\u{202f}' || c == '\u{205f}' || c == '\u{3000}'
}

/// The position of the first ':' of a line, or its length.
pub open spec fn first_colon(l: Seq<char>) -> int
    decreases l.len(),
{
    if l.len() == 0 {
        0
    } else if l[0] == ':' {
        0
    } else {
        1 + first_colon(l.skip(1))
    }
}

/// A line without its trailing white space.
pub open spec fn trim_end(l: Seq<char>) -> Seq<char>
    decreases l.len(),
{
    if l.len() > 0 && is_white_space(l.last()) {
        trim_end(l.drop_last())
    } else {
        l
    }
}

/// Whether a line of `/proc/cpuinfo` opens the record of a processor: its field name, before
/// the first ':' and without trailing white space, is `processor`.
pub open spec fn is_processor_line(l: Seq<char>) -> bool {
    trim_end(l.take(first_colon(l))) == "processor"@
}

/// The lines of a text, split at each '\n' (the last one possibly empty).
pub open spec fn split_lines(s: Seq<char>) -> Seq<Seq<char>>
    decreases s.len(),
{
    if s.len() == 0 {
        seq![Seq::empty()]
    } else if s.last() == '\n' {
        split_lines(s.drop_last()).push(Seq::empty())
    } else {
        let ls = split_lines(s.drop_last());
        ls.update(ls.len() - 1, ls.last().push(s.last()))
    }
}

/// The number of lines that open a processor record.
pub open spec fn count_processor_lines(ls: Seq<Seq<char>>) -> nat
    decreases ls.len(),
{
    if ls.len() == 0 {
        0
    } else {
        count_processor_lines(ls.drop_last()) + if is_processor_line(ls.last()) {
            1nat
        } else {
            0
        }
    }
}

proof fn lemma_split_lines_nonempty(s: Seq<char>)
    ensures
        split_lines(s).len() >= 1,
    decreases s.len(),
{
    if s.len() > 0 {
        lemma_split_lines_nonempty(s.drop_last());
    }
}

proof fn lemma_first_colon(l: Seq<char>, i: int)
    requires
        0 <= i <= l.len(),
        forall|j: int| 0 <= j < i ==> l[j] != ':',
        i < l.len() ==> l[i] == ':',
    ensures
        first_colon(l) == i,
    decreases l.len(),
{
    if l.len() > 0 && i > 0 {
        let t = l.skip(1);
        assert forall|j: int| 0 <= j < i - 1 implies t[j] != ':' by {
            assert(t[j] == l[j + 1]);
        }
        if i < l.len() {
            assert(t[i - 1] == l[i]);
        }
        lemma_first_colon(t, i - 1);
    }
}

/// Whether a line opens a processor record.
fn processor_line(line: &Vec<char>) -> (r: bool)
    ensures
        r == is_processor_line(line@),
{
    let l = line.len();
    let mut p: usize = 0;
    while p < l && line[p] != ':'
        invariant
            l == line@.len(),
            p <= l,
            forall|j: int| 0 <= j < p ==> line@[j] != ':',
        decreases l - p,
    {
        p += 1;
    }
    proof {
        lemma_first_colon(line@, p as int);
    }
    let ghost head = line@.take(p as int);
    let mut e: usize = p;
    while e > 0 && is_space(line[e - 1])
        invariant
            e <= p <= l,
            l == line@.len(),
            head == line@.take(p as int),
            trim_end(head) == trim_end(line@.take(e as int)),
        decreases e,
    {
        proof {
            assert(line@.take(e as int).drop_last() =~= line@.take(e - 1));
        }
        e -= 1;
    }
    proof {
        if e > 0 {
            assert(line@.take(e as int).last() == line@[e - 1]);
        }
        assert(trim_end(line@.take(e as int)) == line@.take(e as int));
    }
    let word = "processor";
    if e != 9 {
        proof {
            reveal_strlit("processor");
        }
        return false;
    }
    let mut k: usize = 0;
    proof {
        reveal_strlit("processor");
    }
    while k < 9
        invariant
            is_processor_line(line@) == (line@.take(9) == "processor"@),
            k <= 9,
            e == 9,
            9 <= l == line@.len(),
            word@ == "processor"@,
            word@.len() == 9,
            forall|j: int| 0 <= j < k ==> line@[j] == word@[j],
        decreases 9 - k,
    {
        if line[k] != word.get_char(k) {
            proof {
                assert(line@.take(9)[k as int] != "processor"@[k as int]);
            }
            return false;
        }
        k += 1;
    }
    proof {
        assert(line@.take(9) =~= "processor"@);
    }
    true
}

/// Whether `c` is white space.
fn is_space(c: char) -> (r: bool)
    ensures
        r == is_white_space(c),
{
    ('\u{9}' <= c && c <= '\u{d}') || c == ' ' || c == '\u{85}' || c == '\u{a0}' || c
        == '\u{1680}' || ('\u{2000}' <= c && c <= '\u{200a}') || c == '\u{2028}' || c
        == '\u{2029}' || c == '\u{202f}' || c == '\u{205f}' || c == '\u{3000}'
}

/// Counts the processors that the text of `/proc/cpuinfo` lists, isolated ones included: the
/// lines whose field name is `processor`.
pub fn count_processors(cpuinfo: &str) -> (r: usize)
    ensures
        r == count_processor_lines(split_lines(cpuinfo@)),
{
    let n = cpuinfo.unicode_len();
    let mut count: usize = 0;
    let mut line: Vec<char> = Vec::new();
    let mut i: usize = 0;
    proof {
        assert(cpuinfo@.take(0) =~= Seq::<char>::empty());
    }
    while i < n
        invariant
            n == cpuinfo@.len(),
            i <= n,
            count + line@.len() <= i,
            split_lines(cpuinfo@.take(i as int)).len() >= 1,
            line@ == split_lines(cpuinfo@.take(i as int)).last(),
            count == count_processor_lines(split_lines(cpuinfo@.take(i as int)).drop_last()),
        decreases n - i,
    {
        let c = cpuinfo.get_char(i);
        let ghost before = cpuinfo@.take(i as int);
        proof {
            assert(cpuinfo@.take(i + 1).drop_last() =~= before);
            assert(cpuinfo@.take(i + 1).last() == c);
            lemma_split_lines_nonempty(before);
        }
        if c == '\n' {
            let hit = processor_line(&line);
            if hit {
                count += 1;
            }
            line = Vec::new();
            proof {
                let ls = split_lines(before);
                assert(split_lines(cpuinfo@.take(i + 1)).drop_last() =~= ls);
                assert(ls.drop_last().push(ls.last()) =~= ls);
            }
        } else {
            line.push(c);
            proof {
                let ls = split_lines(before);
                assert(split_lines(cpuinfo@.take(i + 1)).drop_last() =~= ls.drop_last());
            }
        }
        i += 1;
    }
    proof {
        assert(cpuinfo@.take(n as int) =~= cpuinfo@);
    }
    let hit = processor_line(&line);
    proof {
        let ls = split_lines(cpuinfo@);
        assert(ls.drop_last().push(ls.last()) =~= ls);
        if line@.len() == 0 {
            reveal_strlit("processor");
            assert(line@.take(first_colon(line@)) =~= Seq::<char>::empty());
            assert(!is_processor_line(line@));
        }
    }
    if hit {
        count + 1
    } else {
        count
    }
}

} // verus!
