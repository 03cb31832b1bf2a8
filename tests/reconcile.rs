use spotify_automation::batch::{batches, BATCH_LIMIT};
use spotify_automation::reconcile::{known_track_ids, plan, Batch, BatchKind, Mode};

fn ids(xs: &[&str]) -> Vec<String> {
    xs.iter().map(|s| s.to_string()).collect()
}

fn entries(xs: &[Option<&str>]) -> Vec<Option<String>> {
    xs.iter().map(|s| s.map(|v| v.to_string())).collect()
}

/// Carries out batches on a playlist the way the remote service does.
fn apply(mut playlist: Vec<Option<String>>, plan: &[Batch]) -> Vec<Option<String>> {
    for b in plan {
        match b.kind {
            BatchKind::Remove => playlist.retain(|e| match e {
                Some(id) => !b.ids.contains(id),
                None => true,
            }),
            BatchKind::Add => playlist.extend(b.ids.iter().cloned().map(Some)),
        }
    }
    playlist
}

#[test]
fn replace_removes_then_adds_in_order() {
    let current = entries(&[Some("B"), Some("D")]);
    let desired = ids(&["A", "B", "C"]);
    let p = plan(&current, &desired, Mode::Replace);
    assert_eq!(p.len(), 2);
    assert_eq!(p[0].kind, BatchKind::Remove);
    assert_eq!(p[0].ids, ids(&["B", "D"]));
    assert_eq!(p[1].kind, BatchKind::Add);
    assert_eq!(p[1].ids, ids(&["A", "B", "C"]));
    let after = apply(current, &p);
    assert_eq!(after, entries(&[Some("A"), Some("B"), Some("C")]));
}

#[test]
fn replace_twice_gives_the_same_playlist() {
    let current = entries(&[Some("X"), None, Some("Y"), Some("X")]);
    let desired = ids(&["Y", "Z"]);
    let first = apply(current.clone(), &plan(&current, &desired, Mode::Replace));
    assert_eq!(first, entries(&[None, Some("Y"), Some("Z")]));
    let second = apply(first.clone(), &plan(&first, &desired, Mode::Replace));
    assert_eq!(second, first);
}

#[test]
fn append_only_adds() {
    let current = entries(&[Some("A")]);
    let desired = ids(&["A", "B"]);
    let p = plan(&current, &desired, Mode::Append);
    assert_eq!(p.len(), 1);
    assert_eq!(p[0].kind, BatchKind::Add);
    assert_eq!(apply(current, &p), entries(&[Some("A"), Some("A"), Some("B")]));
}

#[test]
fn empty_playlist_and_empty_desired_set_need_no_batch() {
    let p = plan(&Vec::new(), &Vec::new(), Mode::Replace);
    assert!(p.is_empty());
}

#[test]
fn local_entries_are_not_removed() {
    let current = entries(&[None, Some("A"), None]);
    let p = plan(&current, &Vec::new(), Mode::Replace);
    assert_eq!(p.len(), 1);
    assert_eq!(p[0].ids, ids(&["A"]));
    assert_eq!(known_track_ids(&current), ids(&["A"]));
}

#[test]
fn batches_never_exceed_the_limit() {
    for n in [0usize, 1, 99, 100, 101, 250, 3001] {
        let desired: Vec<String> = (0..n).map(|i| format!("t{i}")).collect();
        let current: Vec<Option<String>> = (0..n).map(|i| Some(format!("c{i}"))).collect();
        let p = plan(&current, &desired, Mode::Replace);
        assert!(p.iter().all(|b| !b.ids.is_empty() && b.ids.len() <= BATCH_LIMIT));
        let added: Vec<String> = p.iter().filter(|b| b.kind == BatchKind::Add).flat_map(|b| b.ids.clone()).collect();
        assert_eq!(added, desired);
        assert_eq!(p.len(), 2 * ((n + 99) / 100));
    }
}

#[test]
fn batches_of_250() {
    let v: Vec<String> = (0..250).map(|i| i.to_string()).collect();
    let b = batches(&v, 100);
    assert_eq!(b.iter().map(|x| x.len()).collect::<Vec<_>>(), vec![100, 100, 50]);
    assert_eq!(b[2][0], "200");
}
