use vstd::prelude::*;

use crate::batch::{batches, chunked, lemma_chunked_bounded, lemma_chunked_flatten, BATCH_LIMIT};

verus! {

/// What a batch asks of the remote playlist.
#[derive(Debug, Clone, Copy, PartialEq, Eq, Structural)]
pub enum BatchKind {
    /// Remove every occurrence of each listed track.
    Remove,
    /// Append the listed tracks, in order.
    Add,
}

/// How a playlist is brought to its desired contents.
#[derive(Debug, Clone, Copy, PartialEq, Eq, Structural)]
pub enum Mode {
    /// Empty the playlist of its tracks, then add the desired tracks.
    Replace,
    /// Only add the desired tracks.
    Append,
}

/// One call to the remote service: a kind and at most `BATCH_LIMIT` track ids.
pub struct Batch {
    pub kind: BatchKind,
    pub ids: Vec<String>,
}

/// A playlist entry: the track's remote id, or `None` for an entry that has
/// none (a local file).
pub type EntryModel = Option<Seq<char>>;

/// A batch as a kind and its track ids.
pub type BatchModel = (BatchKind, Seq<Seq<char>>);

pub open spec fn batch_models(bs: Seq<Batch>) -> Seq<BatchModel> {
    bs.map_values(|b: Batch| (b.kind, b.ids.deep_view()))
}

/// The remote ids of the entries that have one, in playlist order.
pub open spec fn known_ids(items: Seq<EntryModel>) -> Seq<Seq<char>>
    decreases items.len(),
{
    if items.len() == 0 {
        Seq::empty()
    } else {
        let rest = known_ids(items.drop_last());
        match items.last() {
            Some(id) => rest.push(id),
            None => rest,
        }
    }
}

/// Whether an entry survives the removal of the ids in `removed`.
pub open spec fn survives(x: EntryModel, removed: Set<Seq<char>>) -> bool {
    match x {
        Some(id) => !removed.contains(id),
        None => true,
    }
}

/// The playlist after every occurrence of the ids in `removed` is taken out.
pub open spec fn remove_all(pl: Seq<EntryModel>, removed: Set<Seq<char>>) -> Seq<EntryModel>
    decreases pl.len(),
{
    if pl.len() == 0 {
        Seq::empty()
    } else {
        let rest = remove_all(pl.drop_last(), removed);
        if survives(pl.last(), removed) {
            rest.push(pl.last())
        } else {
            rest
        }
    }
}

/// The entries of a playlist that have no remote id.
pub open spec fn local_entries(pl: Seq<EntryModel>) -> Seq<EntryModel> {
    remove_all(pl, Set::full())
}

/// Entries for the tracks `ids`, in order.
pub open spec fn entries(ids: Seq<Seq<char>>) -> Seq<EntryModel> {
    ids.map_values(|id: Seq<char>| Some(id))
}

/// The playlist after the remote service carries out one batch.
pub open spec fn apply_batch(pl: Seq<EntryModel>, b: BatchModel) -> Seq<EntryModel> {
    match b.0 {
        BatchKind::Remove => remove_all(pl, b.1.to_set()),
        BatchKind::Add => pl + entries(b.1),
    }
}

/// The playlist after the remote service carries out the batches in order.
pub open spec fn apply_batches(pl: Seq<EntryModel>, bs: Seq<BatchModel>) -> Seq<EntryModel>
    decreases bs.len(),
{
    if bs.len() == 0 {
        pl
    } else {
        apply_batches(apply_batch(pl, bs[0]), bs.drop_first())
    }
}

pub open spec fn tagged(kind: BatchKind, bs: Seq<Seq<Seq<char>>>) -> Seq<BatchModel> {
    bs.map_values(|b: Seq<Seq<char>>| (kind, b))
}

/// The batches that bring a playlist whose entries are `current` to `desired`:
/// in `Replace` mode, removal of every known id of `current` followed by the
/// addition of `desired`; in `Append` mode, the addition alone.
pub open spec fn plan_of(current: Seq<EntryModel>, desired: Seq<Seq<char>>, mode: Mode) -> Seq<BatchModel> {
    let adds = tagged(BatchKind::Add, chunked(desired, BATCH_LIMIT as nat));
    match mode {
        Mode::Replace => tagged(BatchKind::Remove, chunked(known_ids(current), BATCH_LIMIT as nat)) + adds,
        Mode::Append => adds,
    }
}

proof fn lemma_remove_concat(a: Seq<EntryModel>, b: Seq<EntryModel>, s: Set<Seq<char>>)
    ensures
        remove_all(a + b, s) == remove_all(a, s) + remove_all(b, s),
    decreases b.len(),
{
    if b.len() == 0 {
        assert(a + b =~= a);
        assert(remove_all(a, s) + remove_all(b, s) =~= remove_all(a, s));
    } else {
        lemma_remove_concat(a, b.drop_last(), s);
        assert((a + b).drop_last() =~= a + b.drop_last());
        assert((a + b).last() == b.last());
        let x = remove_all(a, s);
        let y = remove_all(b.drop_last(), s);
        assert((x + y).push(b.last()) =~= x + y.push(b.last()));
    }
}

proof fn lemma_known_concat(a: Seq<EntryModel>, b: Seq<EntryModel>)
    ensures
        known_ids(a + b) == known_ids(a) + known_ids(b),
    decreases b.len(),
{
    if b.len() == 0 {
        assert(a + b =~= a);
        assert(known_ids(a) + known_ids(b) =~= known_ids(a));
    } else {
        lemma_known_concat(a, b.drop_last());
        assert((a + b).drop_last() =~= a + b.drop_last());
        assert((a + b).last() == b.last());
        let x = known_ids(a);
        let y = known_ids(b.drop_last());
        if let Some(id) = b.last() {
            assert((x + y).push(id) =~= x + y.push(id));
        }
    }
}

proof fn lemma_remove_nothing(pl: Seq<EntryModel>)
    ensures
        remove_all(pl, Set::empty()) == pl,
    decreases pl.len(),
{
    if pl.len() > 0 {
        lemma_remove_nothing(pl.drop_last());
        assert(pl.drop_last().push(pl.last()) =~= pl);
    }
}

proof fn lemma_remove_twice(pl: Seq<EntryModel>, a: Set<Seq<char>>, b: Set<Seq<char>>)
    ensures
        remove_all(remove_all(pl, a), b) == remove_all(pl, a.union(b)),
    decreases pl.len(),
{
    if pl.len() > 0 {
        lemma_remove_twice(pl.drop_last(), a, b);
        let r1 = remove_all(pl.drop_last(), a);
        let x = pl.last();
        if survives(x, a) {
            assert(r1.push(x).drop_last() =~= r1);
        }
    }
}

proof fn lemma_remove_covering(pl: Seq<EntryModel>, s: Set<Seq<char>>)
    requires
        forall|i: int| 0 <= i < pl.len() && (#[trigger] pl[i]) is Some ==> s.contains(pl[i]->0),
    ensures
        remove_all(pl, s) == local_entries(pl),
    decreases pl.len(),
{
    if pl.len() > 0 {
        let p = pl.drop_last();
        assert forall|i: int| 0 <= i < p.len() && (#[trigger] p[i]) is Some implies s.contains(p[i]->0) by {
            assert(p[i] == pl[i]);
        }
        lemma_remove_covering(p, s);
        assert(pl.last() == pl[pl.len() - 1]);
    }
}

proof fn lemma_known_ids_cover(pl: Seq<EntryModel>)
    ensures
        forall|i: int| 0 <= i < pl.len() && (#[trigger] pl[i]) is Some ==> known_ids(pl).contains(pl[i]->0),
    decreases pl.len(),
{
    if pl.len() > 0 {
        let p = pl.drop_last();
        lemma_known_ids_cover(p);
        let k = known_ids(p);
        assert forall|i: int| 0 <= i < pl.len() && (#[trigger] pl[i]) is Some implies known_ids(pl).contains(pl[i]->0) by {
            if i < pl.len() - 1 {
                assert(pl[i] == p[i]);
                let j = choose|j: int| 0 <= j < k.len() && k[j] == p[i]->0;
                if let Some(id) = pl.last() {
                    assert(k.push(id)[j] == k[j]);
                }
            } else {
                if let Some(id) = pl.last() {
                    assert(k.push(id)[k.len() as int] == id);
                }
            }
        }
    }
}

proof fn lemma_known_of_locals(pl: Seq<EntryModel>)
    ensures
        known_ids(local_entries(pl)) == Seq::<Seq<char>>::empty(),
    decreases pl.len(),
{
    if pl.len() > 0 {
        lemma_known_of_locals(pl.drop_last());
        let r = local_entries(pl.drop_last());
        if pl.last() is None {
            assert(r.push(pl.last()).drop_last() =~= r);
        }
    }
}

proof fn lemma_entries(d: Seq<Seq<char>>)
    ensures
        known_ids(entries(d)) == d,
        local_entries(entries(d)) == Seq::<EntryModel>::empty(),
    decreases d.len(),
{
    if d.len() > 0 {
        lemma_entries(d.drop_last());
        assert(entries(d).drop_last() =~= entries(d.drop_last()));
        assert(d.drop_last().push(d.last()) =~= d);
    } else {
        assert(entries(d) =~= Seq::<EntryModel>::empty());
    }
}

proof fn lemma_to_set_concat(a: Seq<Seq<char>>, b: Seq<Seq<char>>)
    ensures
        (a + b).to_set() == a.to_set().union(b.to_set()),
{
    assert forall|x: Seq<char>| (a + b).contains(x) == (a.contains(x) || b.contains(x)) by {
        if (a + b).contains(x) {
            let i = choose|i: int| 0 <= i < (a + b).len() && (a + b)[i] == x;
            if i >= a.len() {
                assert(b[i - a.len()] == x);
            }
        }
        if a.contains(x) {
            let i = choose|i: int| 0 <= i < a.len() && a[i] == x;
            assert((a + b)[i] == x);
        }
        if b.contains(x) {
            let i = choose|i: int| 0 <= i < b.len() && b[i] == x;
            assert((a + b)[i + a.len()] == x);
        }
    }
    assert((a + b).to_set() =~= a.to_set().union(b.to_set()));
}

proof fn lemma_apply_concat(pl: Seq<EntryModel>, x: Seq<BatchModel>, y: Seq<BatchModel>)
    ensures
        apply_batches(pl, x + y) == apply_batches(apply_batches(pl, x), y),
    decreases x.len(),
{
    if x.len() == 0 {
        assert(x + y =~= y);
    } else {
        assert((x + y).drop_first() =~= x.drop_first() + y);
        assert((x + y)[0] == x[0]);
        lemma_apply_concat(apply_batch(pl, x[0]), x.drop_first(), y);
    }
}

proof fn lemma_apply_removes(pl: Seq<EntryModel>, bs: Seq<Seq<Seq<char>>>)
    ensures
        apply_batches(pl, tagged(BatchKind::Remove, bs)) == remove_all(pl, bs.flatten().to_set()),
    decreases bs.len(),
{
    let t = tagged(BatchKind::Remove, bs);
    if bs.len() == 0 {
        assert(bs.flatten().to_set() =~= Set::<Seq<char>>::empty());
        lemma_remove_nothing(pl);
    } else {
        assert(t.drop_first() =~= tagged(BatchKind::Remove, bs.drop_first()));
        lemma_apply_removes(remove_all(pl, bs[0].to_set()), bs.drop_first());
        lemma_remove_twice(pl, bs[0].to_set(), bs.drop_first().flatten().to_set());
        lemma_to_set_concat(bs[0], bs.drop_first().flatten());
        assert(bs.flatten() == bs.first() + bs.drop_first().flatten());
    }
}

proof fn lemma_apply_adds(pl: Seq<EntryModel>, bs: Seq<Seq<Seq<char>>>)
    ensures
        apply_batches(pl, tagged(BatchKind::Add, bs)) == pl + entries(bs.flatten()),
    decreases bs.len(),
{
    let t = tagged(BatchKind::Add, bs);
    if bs.len() == 0 {
        assert(pl + entries(bs.flatten()) =~= pl);
    } else {
        assert(t.drop_first() =~= tagged(BatchKind::Add, bs.drop_first()));
        lemma_apply_adds(pl + entries(bs[0]), bs.drop_first());
        assert(bs.flatten() == bs.first() + bs.drop_first().flatten());
        assert(entries(bs.flatten()) =~= entries(bs[0]) + entries(bs.drop_first().flatten()));
        assert(pl + entries(bs[0]) + entries(bs.drop_first().flatten()) =~= pl + entries(bs.flatten()));
    }
}

/// Replace mode leaves the entries without a remote id where they were, and
/// after them exactly the desired tracks, in the desired order.
pub proof fn lemma_replace_result(current: Seq<EntryModel>, desired: Seq<Seq<char>>)
    ensures
        apply_batches(current, plan_of(current, desired, Mode::Replace)) == local_entries(current) + entries(desired),
        known_ids(apply_batches(current, plan_of(current, desired, Mode::Replace))) == desired,
{
    let k = known_ids(current);
    let removes = tagged(BatchKind::Remove, chunked(k, BATCH_LIMIT as nat));
    let adds = tagged(BatchKind::Add, chunked(desired, BATCH_LIMIT as nat));
    lemma_apply_concat(current, removes, adds);
    lemma_apply_removes(current, chunked(k, BATCH_LIMIT as nat));
    lemma_chunked_flatten(k, BATCH_LIMIT as nat);
    lemma_known_ids_cover(current);
    lemma_remove_covering(current, k.to_set());
    lemma_apply_adds(local_entries(current), chunked(desired, BATCH_LIMIT as nat));
    lemma_chunked_flatten(desired, BATCH_LIMIT as nat);
    lemma_known_concat(local_entries(current), entries(desired));
    lemma_known_of_locals(current);
    lemma_entries(desired);
    assert(Seq::<Seq<char>>::empty() + desired =~= desired);
}

/// Append mode leaves every entry where it was and adds the desired tracks
/// after them, in order, duplicates included.
pub proof fn lemma_append_result(current: Seq<EntryModel>, desired: Seq<Seq<char>>)
    ensures
        apply_batches(current, plan_of(current, desired, Mode::Append)) == current + entries(desired),
{
    lemma_apply_adds(current, chunked(desired, BATCH_LIMIT as nat));
    lemma_chunked_flatten(desired, BATCH_LIMIT as nat);
}

/// Reconciling in Replace mode twice in a row with the same desired tracks
/// leaves the playlist holding exactly the desired tracks after each run, and
/// the second run changes nothing.
pub proof fn lemma_replace_idempotent(current: Seq<EntryModel>, desired: Seq<Seq<char>>)
    ensures
        ({
            let first = apply_batches(current, plan_of(current, desired, Mode::Replace));
            let second = apply_batches(first, plan_of(first, desired, Mode::Replace));
            &&& known_ids(first) == desired
            &&& known_ids(second) == desired
            &&& second == first
        }),
{
    let first = apply_batches(current, plan_of(current, desired, Mode::Replace));
    lemma_replace_result(current, desired);
    lemma_replace_result(first, desired);
    lemma_remove_concat(local_entries(current), entries(desired), Set::full());
    lemma_remove_twice(current, Set::full(), Set::full());
    assert(Set::<Seq<char>>::full().union(Set::full()) =~= Set::full());
    lemma_entries(desired);
    assert(local_entries(current) + Seq::<EntryModel>::empty() =~= local_entries(current));
}

/// No batch of a plan is empty or carries more than `BATCH_LIMIT` ids.
pub proof fn lemma_plan_batches_bounded(current: Seq<EntryModel>, desired: Seq<Seq<char>>, mode: Mode)
    ensures
        forall|i: int|
            0 <= i < plan_of(current, desired, mode).len() ==> 0 < (#[trigger] plan_of(current, desired, mode)[i]).1.len()
                <= BATCH_LIMIT,
{
    let k = known_ids(current);
    lemma_chunked_bounded(k, BATCH_LIMIT as nat);
    lemma_chunked_bounded(desired, BATCH_LIMIT as nat);
    let removes = tagged(BatchKind::Remove, chunked(k, BATCH_LIMIT as nat));
    let adds = tagged(BatchKind::Add, chunked(desired, BATCH_LIMIT as nat));
    let p = plan_of(current, desired, mode);
    assert forall|i: int| 0 <= i < p.len() implies 0 < (#[trigger] p[i]).1.len() <= BATCH_LIMIT by {
        match mode {
            Mode::Replace => {
                if i < removes.len() {
                    assert(p[i] == removes[i]);
                } else {
                    assert(p[i] == adds[i - removes.len()]);
                }
            },
            Mode::Append => {},
        }
    }
}

/// The remote ids of the entries that have one, in playlist order; entries
/// without one (local files) are left out.
pub fn known_track_ids(items: &Vec<Option<String>>) -> (r: Vec<String>)
    ensures
        r.deep_view() == known_ids(items.deep_view()),
{
    let mut r: Vec<String> = Vec::new();
    let mut i: usize = 0;
    while i < items.len()
        invariant
            i <= items.len(),
            r.deep_view() == known_ids(items.deep_view().take(i as int)),
        decreases items.len() - i,
    {
        let ghost before = r.deep_view();
        assert(items.deep_view().take(i + 1).drop_last() =~= items.deep_view().take(i as int));
        assert(items.deep_view().take(i + 1).last() == items[i as int].deep_view());
        match &items[i] {
            Some(id) => {
                r.push(id.clone());
                assert(r.deep_view() =~= before.push(id@));
            },
            None => {},
        }
        i = i + 1;
    }
    assert(items.deep_view().take(items.len() as int) =~= items.deep_view());
    r
}

fn push_tagged(r: &mut Vec<Batch>, kind: BatchKind, bs: Vec<Vec<String>>)
    ensures
        batch_models(final(r)@) == batch_models(old(r)@) + tagged(kind, bs.deep_view()),
{
    let ghost start = batch_models(r@);
    let ghost src = bs.deep_view();
    let mut rest = bs;
    let ghost n = src.len();
    let ghost mut i: int = 0;
    assert(rest.deep_view() =~= src.subrange(0, n as int));
    while rest.len() > 0
        invariant
            0 <= i,
            i + rest.len() == n,
            n == src.len(),
            rest.deep_view() == src.subrange(i as int, n as int),
            batch_models(r@) == start + tagged(kind, src.take(i as int)),
        decreases rest.len(),
    {
        let ghost before = batch_models(r@);
        let ghost rv = rest.deep_view();
        let ids = rest.remove(0);
        assert(ids.deep_view() == rv[0]);
        assert(rv[0] == src[i as int]);
        assert(rest.deep_view() =~= rv.drop_first());
        assert(rv.drop_first() =~= src.subrange(i + 1, n as int));
        r.push(Batch { kind, ids });
        assert(batch_models(r@) =~= before.push((kind, src[i as int])));
        assert(tagged(kind, src.take(i + 1)) =~= tagged(kind, src.take(i as int)).push((kind, src[i as int])));
        proof {
            i = i + 1;
        }
    }
    assert(src.take(n as int) =~= src);
}

/// The batches that reconcile a playlist whose entries are `current` with the
/// track ids `desired`: in `Replace` mode, removal of every track id present in
/// `current`, then addition of `desired`; in `Append` mode, the addition alone.
/// Each batch holds between one and `BATCH_LIMIT` ids, and the order of
/// `desired` is kept.
pub fn plan(current: &Vec<Option<String>>, desired: &Vec<String>, mode: Mode) -> (r: Vec<Batch>)
    ensures
        batch_models(r@) == plan_of(current.deep_view(), desired.deep_view(), mode),
        forall|i: int| 0 <= i < r.len() ==> 0 < (#[trigger] r[i]).ids@.len() <= BATCH_LIMIT,
{
    let mut r: Vec<Batch> = Vec::new();
    if let Mode::Replace = mode {
        let present = known_track_ids(current);
        let removes = batches(&present, BATCH_LIMIT);
        push_tagged(&mut r, BatchKind::Remove, removes);
    }
    let adds = batches(desired, BATCH_LIMIT);
    push_tagged(&mut r, BatchKind::Add, adds);
    proof {
        assert(batch_models(Seq::<Batch>::empty()) =~= Seq::<BatchModel>::empty());
        let p = plan_of(current.deep_view(), desired.deep_view(), mode);
        match mode {
            Mode::Replace => {},
            Mode::Append => {
                assert(Seq::<BatchModel>::empty() + p =~= p);
            },
        }
        lemma_plan_batches_bounded(current.deep_view(), desired.deep_view(), mode);
        assert forall|i: int| 0 <= i < r.len() implies 0 < (#[trigger] r[i]).ids@.len() <= BATCH_LIMIT by {
            assert(batch_models(r@)[i] == p[i]);
            assert(r[i].ids.deep_view().len() == r[i].ids@.len());
        }
    }
    r
}

} // verus!
