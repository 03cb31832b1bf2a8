use vstd::prelude::*;

verus! {

/// The most items that one add or remove call to the remote service may carry.
pub const BATCH_LIMIT: usize = 100;

/// `s` cut into consecutive slices of `n` items, the last one possibly shorter.
pub open spec fn chunked<A>(s: Seq<A>, n: nat) -> Seq<Seq<A>>
    decreases s.len(),
{
    if s.len() == 0 || n == 0 {
        Seq::empty()
    } else if s.len() <= n {
        seq![s]
    } else {
        seq![s.take(n as int)] + chunked(s.skip(n as int), n)
    }
}

/// Joining the slices gives the sequence back.
pub proof fn lemma_chunked_flatten<A>(s: Seq<A>, n: nat)
    requires
        n > 0,
    ensures
        chunked(s, n).flatten() == s,
    decreases s.len(),
{
    if s.len() == 0 {
        assert(s =~= Seq::<A>::empty());
    } else if s.len() <= n {
        assert(seq![s].drop_first() =~= Seq::<Seq<A>>::empty());
        assert(s + Seq::<A>::empty() =~= s);
        let e = Seq::<Seq<A>>::empty();
        assert(e.flatten() == Seq::<A>::empty());
        assert(seq![s].flatten() == seq![s].first() + seq![s].drop_first().flatten());
    } else {
        let c = chunked(s, n);
        lemma_chunked_flatten(s.skip(n as int), n);
        assert(c.first() == s.take(n as int));
        assert(c.drop_first() =~= chunked(s.skip(n as int), n));
        assert(s.take(n as int) + s.skip(n as int) =~= s);
        assert(c.flatten() == c.first() + c.drop_first().flatten());
    }
}

/// Every slice holds at least one and at most `n` items.
pub proof fn lemma_chunked_bounded<A>(s: Seq<A>, n: nat)
    ensures
        forall|i: int| 0 <= i < chunked(s, n).len() ==> 0 < #[trigger] chunked(s, n)[i].len() <= n,
    decreases s.len(),
{
    if s.len() == 0 || n == 0 {
    } else if s.len() <= n {
    } else {
        lemma_chunked_bounded(s.skip(n as int), n);
        let c = chunked(s, n);
        assert forall|i: int| 0 <= i < c.len() implies 0 < #[trigger] c[i].len() <= n by {
            if i > 0 {
                assert(c[i] == chunked(s.skip(n as int), n)[i - 1]);
            }
        }
    }
}

/// Cuts `ids` into consecutive batches of at most `limit` identifiers, in order.
pub fn batches(ids: &Vec<String>, limit: usize) -> (r: Vec<Vec<String>>)
    requires
        limit > 0,
    ensures
        r.deep_view() == chunked(ids.deep_view(), limit as nat),
        forall|i: int| 0 <= i < r.len() ==> 0 < #[trigger] r[i]@.len() <= limit,
        r.deep_view().flatten() == ids.deep_view(),
{
    let ghost s = ids.deep_view();
    let n = ids.len();
    let mut r: Vec<Vec<String>> = Vec::new();
    let mut i: usize = 0;
    assert(r.deep_view() =~= Seq::<Seq<Seq<char>>>::empty());
    assert(s.skip(0) =~= s);
    while i < n
        invariant
            s == ids.deep_view(),
            n == s.len(),
            limit > 0,
            i <= n,
            chunked(s, limit as nat) == r.deep_view() + chunked(s.skip(i as int), limit as nat),
        decreases n - i,
    {
        let end: usize = if n - i <= limit { n } else { i + limit };
        let mut b: Vec<String> = Vec::new();
        let mut j: usize = i;
        assert(b.deep_view() =~= s.subrange(i as int, j as int));
        while j < end
            invariant
                s == ids.deep_view(),
                n == s.len(),
                i <= j <= end <= n,
                b.deep_view() == s.subrange(i as int, j as int),
            decreases end - j,
        {
            let x = ids[j].clone();
            let ghost old_b = b.deep_view();
            assert(s[j as int] == ids@[j as int]@);
            b.push(x);
            assert(b.deep_view() =~= old_b.push(x@));
            assert(b.deep_view() =~= s.subrange(i as int, j + 1));
            j = j + 1;
        }
        let ghost rest = s.skip(i as int);
        assert(b.deep_view() == chunked(rest, limit as nat)[0]) by {
            if n - i <= limit {
                assert(s.subrange(i as int, n as int) =~= rest);
            } else {
                assert(s.subrange(i as int, end as int) =~= rest.take(limit as int));
            }
        }
        assert(chunked(rest, limit as nat) =~= seq![b.deep_view()] + chunked(s.skip(end as int), limit as nat)) by {
            if n - i > limit {
                assert(rest.skip(limit as int) =~= s.skip(end as int));
            } else {
                assert(s.skip(end as int).len() == 0);
            }
        }
        let ghost old_r = r.deep_view();
        r.push(b);
        assert(r.deep_view() =~= old_r.push(b.deep_view()));
        assert(chunked(s, limit as nat) =~= r.deep_view() + chunked(s.skip(end as int), limit as nat));
        i = end;
    }
    assert(s.skip(n as int).len() == 0);
    assert(r.deep_view() =~= chunked(s, limit as nat));
    proof {
        lemma_chunked_bounded(s, limit as nat);
        lemma_chunked_flatten(s, limit as nat);
        assert forall|i: int| 0 <= i < r.len() implies 0 < #[trigger] r[i]@.len() <= limit by {
            assert(r.deep_view()[i] == r[i].deep_view());
            assert(r[i].deep_view().len() == r[i]@.len());
        }
    }
    r
}

} // verus!
