use commitstore::{Error, Oid, Signature, Store, Time};

fn setup() -> (Store, Oid, Signature) {
    let mut store = Store::new();
    let tree_id = store.write_tree();
    let sig = Signature::new("name", "email", Time::new(0, 0));
    (store, tree_id, sig)
}

#[test]
fn message_is_prettified_and_raw_is_verbatim() {
    let (mut store, tree_id, s) = setup();
    let no_parents: Vec<Oid> = Vec::new();
    let id = store
        .write_commit(tree_id, &no_parents, &s, &s, None, "\n\nTitle line\n\nbody text\n")
        .unwrap();
    let commit = store.lookup_commit(id).unwrap();
    assert_eq!(commit.message_raw_bytes(), b"\n\nTitle line\n\nbody text\n");
    assert_eq!(commit.message_bytes(), b"Title line\n\nbody text\n");
    assert_eq!(commit.message().as_deref(), Some("Title line\n\nbody text\n"));
    assert_eq!(commit.message_raw().as_deref(), Some("\n\nTitle line\n\nbody text\n"));
}

#[test]
fn summary_is_first_paragraph_squashed_and_trimmed() {
    let (mut store, tree_id, s) = setup();
    let no_parents: Vec<Oid> = Vec::new();
    let id = store
        .write_commit(
            tree_id,
            &no_parents,
            &s,
            &s,
            None,
            "\n  Title   line\twith\nwrapping  \n\nbody paragraph",
        )
        .unwrap();
    let commit = store.lookup_commit(id).unwrap();
    assert_eq!(commit.summary().as_deref(), Some("Title line with wrapping"));
    assert_eq!(
        commit.summary_bytes().unwrap(),
        b"Title line with wrapping".to_vec()
    );
}

#[test]
fn declared_encoding_is_reported() {
    let (mut store, tree_id, s) = setup();
    let no_parents: Vec<Oid> = Vec::new();
    let id = store
        .write_commit(tree_id, &no_parents, &s, &s, Some("ISO-8859-1"), "msg")
        .unwrap();
    let commit = store.lookup_commit(id).unwrap();
    assert_eq!(commit.message_encoding().as_deref(), Some("ISO-8859-1"));

    let plain = store
        .write_commit(tree_id, &no_parents, &s, &s, None, "msg")
        .unwrap();
    let plain = store.lookup_commit(plain).unwrap();
    assert_eq!(plain.message_encoding(), None);
}

#[test]
fn raw_header_lists_tree_parents_and_signatures() {
    let (mut store, tree_id, s) = setup();
    let no_parents: Vec<Oid> = Vec::new();
    let first = store
        .write_commit(tree_id, &no_parents, &s, &s, None, "first")
        .unwrap();
    let commit = store.lookup_commit(first).unwrap();
    // the tree sits in slot 0, so its identifier's 40 hex digits are zeros
    let zeros = "0".repeat(40);
    let expected = format!("tree {}\nauthor name <email>\ncommitter name <email>\n", zeros);
    assert_eq!(commit.raw_header().as_deref(), Some(expected.as_str()));

    let parents = vec![first];
    let second = store
        .write_commit(tree_id, &parents, &s, &s, None, "second")
        .unwrap();
    let second = store.lookup_commit(second).unwrap();
    // the first commit sits in slot 1: one in the leading 16-digit word
    let parent_hex = format!("{}{}", "0000000000000001", "0".repeat(24));
    let expected = format!(
        "tree {}\nparent {}\nauthor name <email>\ncommitter name <email>\n",
        zeros, parent_hex
    );
    assert_eq!(second.raw_header().as_deref(), Some(expected.as_str()));
}

#[test]
fn header_hex_uses_letter_digits_past_nine() {
    let mut store = Store::new();
    // fill slots 0 through 9, then take the tree written in slot 10
    let mut tree_id = store.write_tree();
    for _ in 0..10 {
        tree_id = store.write_tree();
    }
    let s = Signature::new("n", "e", Time::new(0, 0));
    let no_parents: Vec<Oid> = Vec::new();
    let id = store
        .write_commit(tree_id, &no_parents, &s, &s, None, "msg")
        .unwrap();
    let commit = store.lookup_commit(id).unwrap();
    let expected = format!(
        "tree 000000000000000a{}\nauthor n <e>\ncommitter n <e>\n",
        "0".repeat(24)
    );
    assert_eq!(commit.raw_header().as_deref(), Some(expected.as_str()));
}

#[test]
fn commit_time_is_the_committer_time() {
    let (mut store, tree_id, _) = setup();
    let author = Signature::new("author", "a@x", Time::new(111, 60));
    let committer = Signature::new("committer", "c@x", Time::new(222, -120));
    let no_parents: Vec<Oid> = Vec::new();
    let id = store
        .write_commit(tree_id, &no_parents, &author, &committer, None, "msg")
        .unwrap();
    let commit = store.lookup_commit(id).unwrap();
    let t = commit.time();
    assert_eq!(t.seconds(), 222);
    assert_eq!(t.offset_minutes(), -120);
    assert_eq!(commit.author().when().seconds(), 111);
}

#[test]
fn absent_and_non_utf8_signature_parts_decode_to_none() {
    let when = Time::new(0, 0);
    let anonymous = Signature::from_bytes(None, None, when);
    assert_eq!(anonymous.name(), None);
    assert_eq!(anonymous.email(), None);
    assert!(anonymous.name_bytes().is_none());

    let raw = Signature::from_bytes(Some(vec![0xff, 0xfe]), Some(b"ok@x".to_vec()), when);
    assert_eq!(raw.name(), None);
    assert_eq!(raw.name_bytes().unwrap(), &[0xff, 0xfe]);
    assert_eq!(raw.email().as_deref(), Some("ok@x"));
}

#[test]
fn multibyte_text_survives_the_byte_round_trip() {
    let (mut store, tree_id, _) = setup();
    let s = Signature::new("nâme", "émail", Time::new(0, 0));
    let no_parents: Vec<Oid> = Vec::new();
    let id = store
        .write_commit(tree_id, &no_parents, &s, &s, None, "héllo wörld")
        .unwrap();
    let commit = store.lookup_commit(id).unwrap();
    assert_eq!(commit.message().as_deref(), Some("héllo wörld"));
    assert_eq!(commit.author().name().as_deref(), Some("nâme"));
    assert_eq!(commit.author().email().as_deref(), Some("émail"));
    assert!(commit.message_raw_bytes().len() > "héllo wörld".chars().count());
}

#[test]
fn embedded_nul_is_rejected_before_any_store_change() {
    let (mut store, tree_id, s) = setup();
    let no_parents: Vec<Oid> = Vec::new();
    assert_eq!(
        store.write_commit(tree_id, &no_parents, &s, &s, None, "bad\0msg"),
        Err(Error::EmbeddedNul)
    );
    assert_eq!(
        store.write_commit(tree_id, &no_parents, &s, &s, Some("enc\0oding"), "msg"),
        Err(Error::EmbeddedNul)
    );
    let id = store
        .write_commit(tree_id, &no_parents, &s, &s, None, "ok")
        .unwrap();
    assert_eq!(store.update_ref("HE\0AD", id), Err(Error::EmbeddedNul));
    let commit = store.lookup_commit(id).unwrap();
    assert_eq!(
        commit.amend(&mut store, Some("HE\0AD"), None, None, None, None, None),
        Err(Error::EmbeddedNul)
    );
    assert_eq!(
        commit.amend(&mut store, None, None, None, None, Some("x\0y"), None),
        Err(Error::EmbeddedNul)
    );
    assert_eq!(
        commit.amend(&mut store, None, None, None, Some("e\0nc"), None, None),
        Err(Error::EmbeddedNul)
    );
}

#[test]
fn store_misses_are_not_found() {
    let (mut store, tree_id, s) = setup();
    let no_parents: Vec<Oid> = Vec::new();
    let id = store
        .write_commit(tree_id, &no_parents, &s, &s, None, "ok")
        .unwrap();

    // a tree identifier is no commit, and a commit identifier is no tree
    assert_eq!(store.lookup_commit(tree_id).unwrap_err(), Error::NotFound);
    assert_eq!(store.lookup_tree(id).unwrap_err(), Error::NotFound);
    // a commit identifier is no valid tree reference for a new commit
    assert_eq!(
        store.write_commit(id, &no_parents, &s, &s, None, "msg"),
        Err(Error::NotFound)
    );
    // a tree identifier is no valid parent
    let bad_parents = vec![tree_id];
    assert_eq!(
        store.write_commit(tree_id, &bad_parents, &s, &s, None, "msg"),
        Err(Error::NotFound)
    );
    // a reference that was never set has no target
    assert_eq!(store.find_ref("nowhere"), Err(Error::NotFound));
    // amend onto a tree handle from nowhere: the kinds are stable
    assert_eq!(Error::NotFound.describe(), "object not found");
    assert_eq!(Error::OutOfBounds.describe(), "parent index out of bounds");
    assert_eq!(
        Error::EmbeddedNul.describe(),
        "text argument holds an interior nul byte"
    );
}

#[test]
fn update_ref_points_at_latest_target() {
    let (mut store, tree_id, s) = setup();
    let no_parents: Vec<Oid> = Vec::new();
    let one = store
        .write_commit(tree_id, &no_parents, &s, &s, None, "one")
        .unwrap();
    let two = store
        .write_commit(tree_id, &no_parents, &s, &s, None, "two")
        .unwrap();
    store.update_ref("HEAD", one).unwrap();
    store.update_ref("other", tree_id).unwrap();
    store.update_ref("HEAD", two).unwrap();
    assert_eq!(store.find_ref("HEAD").unwrap(), two);
    assert_eq!(store.find_ref("other").unwrap(), tree_id);
}
