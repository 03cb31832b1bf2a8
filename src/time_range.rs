use vstd::prelude::*;

use crate::errors::Error;
use crate::text::str_eq;

verus! {

/// The three listening windows for which the remote service ranks top tracks.
#[derive(Debug, Clone, Copy, PartialEq, Eq, Structural)]
pub enum TimeRange {
    ShortTerm,
    MediumTerm,
    LongTerm,
}

/// The time range that a name denotes, if it is one of the three accepted names.
pub open spec fn time_range_of(name: Seq<char>) -> Option<TimeRange> {
    if name == "short"@ {
        Some(TimeRange::ShortTerm)
    } else if name == "medium"@ {
        Some(TimeRange::MediumTerm)
    } else if name == "long"@ {
        Some(TimeRange::LongTerm)
    } else {
        None
    }
}

/// Reads a time-range name: `short`, `medium` or `long`; any other name is
/// rejected with `InvalidTimeRange`.
pub fn time_range_from_str(v: &str) -> (r: Result<TimeRange, Error>)
    ensures
        match time_range_of(v@) {
            Some(t) => r == Ok::<TimeRange, Error>(t),
            None => r == Err::<TimeRange, Error>(Error::InvalidTimeRange),
        },
{
    proof {
        reveal_strlit("short");
        reveal_strlit("medium");
        reveal_strlit("long");
        assert("long"@.len() == 4 && "short"@.len() == 5 && "medium"@.len() == 6);
    }
    if str_eq(v, "long") {
        Ok(TimeRange::LongTerm)
    } else if str_eq(v, "medium") {
        Ok(TimeRange::MediumTerm)
    } else if str_eq(v, "short") {
        Ok(TimeRange::ShortTerm)
    } else {
        Err(Error::InvalidTimeRange)
    }
}

/// The pieces of `s` between the separators `sep`, in order; `s` without a
/// separator is one piece, and the empty string one empty piece.
pub open spec fn split_on(s: Seq<char>, sep: char) -> Seq<Seq<char>>
    decreases s.len(),
{
    if s.len() == 0 {
        seq![Seq::empty()]
    } else {
        let r = split_on(s.drop_last(), sep);
        if s.last() == sep {
            r.push(Seq::empty())
        } else {
            r.update(r.len() - 1, r.last().push(s.last()))
        }
    }
}

/// What `str::trim` returns for `s`.
pub uninterp spec fn trimmed_of(s: Seq<char>) -> Seq<char>;

/// Relies on `str::trim`: `s` without leading and trailing white space,
/// which depends on its characters alone.
#[verifier::external_body]
fn trim(s: &str) -> (r: String)
    ensures
        r@ == trimmed_of(s@),
{
    s.trim().to_string()
}

proof fn lemma_split_nonempty(s: Seq<char>, sep: char)
    ensures
        split_on(s, sep).len() > 0,
    decreases s.len(),
{
    if s.len() > 0 {
        lemma_split_nonempty(s.drop_last(), sep);
    }
}

/// The names in a comma-separated list of time ranges, each trimmed of
/// surrounding white space, in order.
pub fn split_time_ranges(list: &str) -> (r: Vec<String>)
    ensures
        r.deep_view() == split_on(list@, ',').map_values(|p: Seq<char>| trimmed_of(p)),
{
    let n = list.unicode_len();
    let mut parts: Vec<String> = Vec::new();
    let mut start: usize = 0;
    let mut i: usize = 0;
    assert(list@.take(0) =~= Seq::<char>::empty());
    assert(list@.subrange(0, 0) =~= Seq::<char>::empty());
    while i < n
        invariant
            n == list@.len(),
            start <= i <= n,
            split_on(list@.take(i as int), ',') =~= split_on(list@.take(start as int), ',').take(
                split_on(list@.take(start as int), ',').len() - 1,
            ).push(list@.subrange(start as int, i as int)),
            parts.deep_view() =~= split_on(list@.take(start as int), ',').take(
                split_on(list@.take(start as int), ',').len() - 1,
            ).map_values(|p: Seq<char>| trimmed_of(p)),
            split_on(list@.take(start as int), ',').len() > 0,
        decreases n - i,
    {
        let ghost t = list@.take(i + 1);
        assert(t.drop_last() =~= list@.take(i as int));
        let c = list.get_char(i);
        assert(t.last() == c);
        proof {
            lemma_split_nonempty(list@.take(i as int), ',');
        }
        if c == ',' {
            let piece = trim(list.substring_char(start, i));
            let ghost before = parts.deep_view();
            parts.push(piece);
            assert(parts.deep_view() =~= before.push(trimmed_of(list@.subrange(start as int, i as int))));
            start = i + 1;
            assert(list@.subrange(start as int, i + 1) =~= Seq::<char>::empty());
        } else {
            assert(list@.subrange(start as int, i + 1) =~= list@.subrange(start as int, i as int).push(c));
        }
        i = i + 1;
    }
    let last = trim(list.substring_char(start, n));
    let ghost before = parts.deep_view();
    parts.push(last);
    assert(list@.take(n as int) =~= list@);
    let ghost sp = split_on(list@.take(start as int), ',');
    let ghost head = sp.take(sp.len() - 1);
    assert(split_on(list@, ',') == head.push(list@.subrange(start as int, n as int)));
    assert(before =~= head.map_values(|p: Seq<char>| trimmed_of(p)));
    assert(parts.deep_view() =~= before.push(trimmed_of(list@.subrange(start as int, n as int))));
    assert(head.push(list@.subrange(start as int, n as int)).map_values(|p: Seq<char>| trimmed_of(p)) =~= head.map_values(
        |p: Seq<char>| trimmed_of(p),
    ).push(trimmed_of(list@.subrange(start as int, n as int))));
    assert(parts.deep_view() =~= split_on(list@, ',').map_values(|p: Seq<char>| trimmed_of(p)));
    parts
}

} // verus!
