use commitstore::{Error, Oid, Signature, Store, Time};

fn sig() -> Signature {
    Signature::new("name", "email", Time::new(0, 0))
}

fn store_with_tree() -> (Store, Oid) {
    let mut store = Store::new();
    let tree_id = store.write_tree();
    (store, tree_id)
}

#[test]
fn smoke() {
    let mut store = Store::new();
    let tree_id = store.write_tree();
    let sig = Signature::new("name", "email", Time::new(0, 0));
    let no_parents: Vec<Oid> = Vec::new();
    let target = store
        .write_commit(tree_id, &no_parents, &sig, &sig, None, "initial")
        .unwrap();
    store.update_ref("HEAD", target).unwrap();
    let head_target = store.find_ref("HEAD").unwrap();
    let commit = store.lookup_commit(head_target).unwrap();
    assert_eq!(commit.message().as_deref(), Some("initial"));
    assert_eq!(commit.id(), target);
    commit.message_raw().unwrap();
    commit.raw_header().unwrap();
    commit.message_encoding();
    commit.summary().unwrap();
    commit.tree_id();
    commit.tree(&store).unwrap();
    assert_eq!(commit.parents().len(), 0);

    assert_eq!(commit.author().name().as_deref(), Some("name"));
    assert_eq!(commit.author().email().as_deref(), Some("email"));
    assert_eq!(commit.committer().name().as_deref(), Some("name"));
    assert_eq!(commit.committer().email().as_deref(), Some("email"));

    let tree = store.lookup_tree(commit.tree_id()).unwrap();
    let parents = vec![commit.id()];
    let id = store
        .write_commit(tree.id(), &parents, &sig, &sig, None, "bar")
        .unwrap();
    store.update_ref("HEAD", id).unwrap();
    let head = store.lookup_commit(id).unwrap();

    let new_head = head
        .amend(&mut store, Some("HEAD"), None, None, None, Some("new message"), None)
        .unwrap();
    let new_head = store.lookup_commit(new_head).unwrap();
    assert_eq!(new_head.message().as_deref(), Some("new message"));

    store.lookup_commit(target).unwrap();
}

#[test]
fn id_round_trips_through_store() {
    let (mut store, tree_id) = store_with_tree();
    let s = sig();
    let no_parents: Vec<Oid> = Vec::new();
    let id = store
        .write_commit(tree_id, &no_parents, &s, &s, None, "one")
        .unwrap();
    let c1 = store.lookup_commit(id).unwrap();
    let c2 = store.lookup_commit(c1.id()).unwrap();
    assert_eq!(c2.id(), c1.id());
    assert_eq!(c2.message_raw_bytes(), c1.message_raw_bytes());
}

fn merge_of_three(store: &mut Store, tree_id: Oid) -> (Oid, Vec<Oid>) {
    let s = sig();
    let no_parents: Vec<Oid> = Vec::new();
    let a = store
        .write_commit(tree_id, &no_parents, &s, &s, None, "a")
        .unwrap();
    let b = store
        .write_commit(tree_id, &no_parents, &s, &s, None, "b")
        .unwrap();
    let c = store
        .write_commit(tree_id, &no_parents, &s, &s, None, "c")
        .unwrap();
    let parents = vec![a, b, c];
    let m = store
        .write_commit(tree_id, &parents, &s, &s, None, "merge")
        .unwrap();
    (m, parents)
}

#[test]
fn parent_sequences_agree_in_count_and_order() {
    let (mut store, tree_id) = store_with_tree();
    let (m, parents) = merge_of_three(&mut store, tree_id);
    let merge = store.lookup_commit(m).unwrap();

    let mut ids_iter = merge.parent_ids();
    let mut commits_iter = merge.parents();
    assert_eq!(ids_iter.len(), 3);
    assert_eq!(commits_iter.len(), 3);
    assert_eq!(merge.parent_count(), 3);

    let mut from_ids: Vec<Oid> = Vec::new();
    while let Some(oid) = ids_iter.next() {
        from_ids.push(oid);
    }
    let mut from_commits: Vec<Oid> = Vec::new();
    while let Some(parent) = commits_iter.next(&store) {
        from_commits.push(parent.id());
    }
    assert_eq!(from_ids.len(), 3);
    assert_eq!(from_ids, from_commits);
    assert_eq!(from_ids, parents);
}

#[test]
fn forward_then_reverse_visits_each_index_once() {
    let (mut store, tree_id) = store_with_tree();
    let (m, parents) = merge_of_three(&mut store, tree_id);
    let merge = store.lookup_commit(m).unwrap();

    let mut iter = merge.parent_ids();
    let mut visited: Vec<Oid> = Vec::new();
    visited.push(iter.next().unwrap());
    visited.push(iter.next_back().unwrap());
    visited.push(iter.next_back().unwrap());
    assert!(iter.next().is_none());
    assert!(iter.next_back().is_none());
    assert_eq!(visited.len(), 3);
    // forward yielded index 0, backward yielded indices 2 then 1
    assert_eq!(visited[0], parents[0]);
    assert_eq!(visited[1], parents[2]);
    assert_eq!(visited[2], parents[1]);
    for expected in &parents {
        assert_eq!(visited.iter().filter(|o| *o == expected).count(), 1);
    }
}

#[test]
fn amend_with_all_arguments_absent_gives_new_id_same_content() {
    let (mut store, tree_id) = store_with_tree();
    let s = sig();
    let no_parents: Vec<Oid> = Vec::new();
    let base = store
        .write_commit(tree_id, &no_parents, &s, &s, None, "base")
        .unwrap();
    let parents = vec![base];
    let id = store
        .write_commit(tree_id, &parents, &s, &s, None, "content")
        .unwrap();
    let original = store.lookup_commit(id).unwrap();

    let new_id = original
        .amend(&mut store, None, None, None, None, None, None)
        .unwrap();
    assert_ne!(new_id, original.id());
    let amended = store.lookup_commit(new_id).unwrap();
    assert_eq!(amended.message_raw_bytes(), original.message_raw_bytes());
    assert_eq!(amended.tree_id(), original.tree_id());
    assert_eq!(amended.raw_header_bytes(), original.raw_header_bytes());
    assert_eq!(amended.author().name(), original.author().name());
    assert_eq!(amended.author().email(), original.author().email());
    assert_eq!(amended.committer().name(), original.committer().name());
    assert_eq!(amended.committer().email(), original.committer().email());
    assert_eq!(amended.parent_count(), original.parent_count());
    assert_eq!(amended.parent_id(0).unwrap(), original.parent_id(0).unwrap());
}

#[test]
fn amend_with_message_only_changes_exactly_the_message() {
    let (mut store, tree_id) = store_with_tree();
    let s = sig();
    let no_parents: Vec<Oid> = Vec::new();
    let base = store
        .write_commit(tree_id, &no_parents, &s, &s, None, "base")
        .unwrap();
    let parents = vec![base];
    let id = store
        .write_commit(tree_id, &parents, &s, &s, None, "old message")
        .unwrap();
    let original = store.lookup_commit(id).unwrap();

    let new_id = original
        .amend(&mut store, None, None, None, None, Some("new message"), None)
        .unwrap();
    let amended = store.lookup_commit(new_id).unwrap();
    assert_eq!(amended.message().as_deref(), Some("new message"));
    assert_eq!(amended.tree_id(), original.tree_id());
    assert_eq!(amended.parent_count(), 1);
    assert_eq!(amended.parent_id(0).unwrap(), base);
    assert_eq!(amended.author().name(), original.author().name());
    assert_eq!(amended.author().email(), original.author().email());
    assert_eq!(amended.committer().name(), original.committer().name());
    assert_eq!(amended.committer().email(), original.committer().email());
    assert_eq!(amended.message_encoding(), original.message_encoding());
    assert_eq!(amended.raw_header_bytes(), original.raw_header_bytes());
}

#[test]
fn parent_id_bounds_are_checked() {
    let (mut store, tree_id) = store_with_tree();
    let (m, parents) = merge_of_three(&mut store, tree_id);
    let merge = store.lookup_commit(m).unwrap();

    assert_eq!(merge.parent_id(3), Err(Error::OutOfBounds));
    assert_eq!(merge.parent_id(100), Err(Error::OutOfBounds));
    assert_eq!(merge.parent(&store, 3).unwrap_err(), Error::OutOfBounds);
    let mut iter = merge.parent_ids();
    for i in 0..3 {
        let from_indexed = merge.parent_id(i).unwrap();
        assert_eq!(from_indexed, parents[i]);
        assert_eq!(iter.next(), Some(from_indexed));
    }
}

#[test]
fn initial_commit_scenario() {
    let (mut store, tree_id) = store_with_tree();
    let s = sig();
    let no_parents: Vec<Oid> = Vec::new();
    let id = store
        .write_commit(tree_id, &no_parents, &s, &s, None, "initial")
        .unwrap();
    let commit = store.lookup_commit(id).unwrap();
    assert_eq!(commit.summary().as_deref(), Some("initial"));
    let mut count = 0;
    let mut iter = commit.parents();
    while iter.next(&store).is_some() {
        count += 1;
    }
    assert_eq!(count, 0);
    assert!(commit.tree(&store).is_ok());
}

#[test]
fn amended_commit_keeps_sole_parent() {
    let (mut store, tree_id) = store_with_tree();
    let s = sig();
    let no_parents: Vec<Oid> = Vec::new();
    let first = store
        .write_commit(tree_id, &no_parents, &s, &s, None, "first")
        .unwrap();
    let parents = vec![first];
    let second = store
        .write_commit(tree_id, &parents, &s, &s, None, "second")
        .unwrap();
    let handle = store.lookup_commit(second).unwrap();
    let amended_id = handle
        .amend(&mut store, None, None, None, None, Some("second, reworded"), None)
        .unwrap();
    let amended = store.lookup_commit(amended_id).unwrap();
    assert_eq!(amended.parent_count(), 1);
    assert_eq!(amended.parent_id(0).unwrap(), first);
    let sole_parent = amended.parent(&store, 0).unwrap();
    assert_eq!(sole_parent.id(), first);
}
