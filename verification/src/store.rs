//! The content-addressed object store: an append-only collection of commit
//! and tree objects, addressed by [`Oid`], plus a log of named references.
//!
//! Objects are immutable once written; "changing" one means writing a new
//! object, which gets a fresh identifier. A reference update appends to the
//! reference log; the latest entry for a name is its current target.

use crate::bytes::{clone_bytes, clone_opt_bytes, bytes_eq, has_nul, opt_bytes_view};
use crate::error::Error;
use crate::header::{render_header, spec_header_of};
use crate::oid::{spec_oid_of_slot, Oid};
use crate::signature::{Signature, SignatureView};
use vstd::prelude::*;
use vstd::string::StrSliceExecFns;
use vstd::utf8::encode_utf8;

verus! {

/// The stored fields of one commit object, as an owned record.
#[derive(Debug)]
pub struct CommitData {
    /// The tree the commit snapshots.
    pub tree_id: Oid,
    /// The parent commits, in order; the first is the mainline parent.
    pub parent_ids: Vec<Oid>,
    /// Who wrote the change.
    pub author: Signature,
    /// Who recorded the commit.
    pub committer: Signature,
    /// The declared message encoding name, if any; UTF-8 when absent.
    pub message_encoding: Option<Vec<u8>>,
    /// The verbatim message bytes.
    pub message: Vec<u8>,
    /// The structured header bytes the commit was stored with.
    pub raw_header: Vec<u8>,
}

/// What one stored commit holds: the tree it snapshots, its parents in
/// order, both signatures, the declared message encoding if any, the verbatim
/// message bytes, and the header bytes it was stored with.
#[verifier::ext_equal]
pub struct CommitDataView {
    pub tree_id: Oid,
    pub parent_ids: Seq<Oid>,
    pub author: SignatureView,
    pub committer: SignatureView,
    pub message_encoding: Option<Seq<u8>>,
    pub message: Seq<u8>,
    pub raw_header: Seq<u8>,
}

impl View for CommitData {
    type V = CommitDataView;

    open spec fn view(&self) -> CommitDataView {
        CommitDataView {
            tree_id: self.tree_id,
            parent_ids: self.parent_ids@,
            author: self.author@,
            committer: self.committer@,
            message_encoding: opt_bytes_view(self.message_encoding),
            message: self.message@,
            raw_header: self.raw_header@,
        }
    }
}

impl CommitData {
    /// An owned copy with the same contents.
    pub(crate) fn duplicate(&self) -> (r: CommitData)
        ensures
            r@ == self@,
    {
        let r = CommitData {
            tree_id: self.tree_id,
            parent_ids: clone_oids(&self.parent_ids),
            author: self.author.duplicate(),
            committer: self.committer.duplicate(),
            message_encoding: clone_opt_bytes(&self.message_encoding),
            message: clone_bytes(&self.message),
            raw_header: clone_bytes(&self.raw_header),
        };
        assert(r@ =~= self@);
        r
    }
}

/// One object in the store: a commit, or a tree snapshot (whose content is
/// outside this core's scope).
pub enum Object {
    Commit(CommitData),
    Tree,
}

/// What one stored object is.
#[verifier::ext_equal]
pub enum ObjectView {
    Commit(CommitDataView),
    Tree,
}

impl View for Object {
    type V = ObjectView;

    closed spec fn view(&self) -> ObjectView {
        match self {
            Object::Commit(d) => ObjectView::Commit(d@),
            Object::Tree => ObjectView::Tree,
        }
    }
}

/// A handle to a tree object resolved from the store. Its view is the
/// identifier it was resolved by.
#[derive(Debug)]
pub struct Tree {
    id: Oid,
}

impl View for Tree {
    type V = Oid;

    closed spec fn view(&self) -> Oid {
        self.id
    }
}

impl Tree {
    /// The identifier of this tree.
    pub fn id(&self) -> (r: Oid)
        ensures
            r == self@,
    {
        self.id
    }
}

/// One recorded reference update.
pub(crate) struct RefEntry {
    pub(crate) name: Vec<u8>,
    pub(crate) target: Oid,
}

/// One entry of the reference log: a name and the identifier it was set to.
#[verifier::ext_equal]
pub struct RefView {
    pub name: Seq<u8>,
    pub target: Oid,
}

impl View for RefEntry {
    type V = RefView;

    closed spec fn view(&self) -> RefView {
        RefView { name: self.name@, target: self.target }
    }
}

/// What a store holds: the objects in write order (the object written in
/// slot `i` has identifier `spec_oid_of_slot(i)`), and the reference log in
/// update order.
#[verifier::ext_equal]
pub struct StoreView {
    pub objects: Seq<ObjectView>,
    pub refs: Seq<RefView>,
}

/// The current target of a reference name: the latest entry for it, if any.
pub open spec fn spec_ref_target(refs: Seq<RefView>, name: Seq<u8>) -> Option<Oid>
    decreases refs.len(),
{
    if refs.len() == 0 {
        None
    } else if refs.last().name == name {
        Some(refs.last().target)
    } else {
        spec_ref_target(refs.drop_last(), name)
    }
}

/// What a stored commit must satisfy: its tree resolves to a tree object,
/// every parent resolves to a commit object, and its header is the rendering
/// of its own fields.
pub open spec fn wf_commit_in(s: StoreView, d: CommitDataView) -> bool {
    &&& s.is_tree(d.tree_id)
    &&& forall|j: int|
        0 <= j < d.parent_ids.len() ==> s.is_commit(#[trigger] d.parent_ids[j])
    &&& d.raw_header == spec_header_of(d.tree_id, d.parent_ids, d.author, d.committer)
}

impl StoreView {
    /// The object an identifier addresses, if any.
    pub open spec fn spec_find(self, oid: Oid) -> Option<ObjectView> {
        match oid.spec_slot() {
            Some(i) => if 0 <= i < self.objects.len() {
                Some(self.objects[i])
            } else {
                None
            },
            None => None,
        }
    }

    /// Whether the identifier addresses a commit object.
    pub open spec fn is_commit(self, oid: Oid) -> bool {
        self.spec_find(oid) matches Some(ObjectView::Commit(_))
    }

    /// Whether the identifier addresses a tree object.
    pub open spec fn is_tree(self, oid: Oid) -> bool {
        self.spec_find(oid) matches Some(ObjectView::Tree)
    }

    /// The contents of the commit an identifier addresses.
    pub open spec fn commit_data(self, oid: Oid) -> CommitDataView
        recommends
            self.is_commit(oid),
    {
        match self.spec_find(oid) {
            Some(ObjectView::Commit(d)) => d,
            _ => arbitrary(),
        }
    }

    /// Every stored commit is internally consistent: its tree and parents
    /// resolve, and its header matches its fields.
    pub open spec fn wf(self) -> bool {
        forall|i: int|
            0 <= i < self.objects.len() ==> ((#[trigger] self.objects[i]) matches
            ObjectView::Commit(d) ==> wf_commit_in(self, d))
    }
}

/// After appending one object, every identifier resolves as before, and the
/// fresh slot's identifier resolves to the new object.
pub proof fn lemma_find_push(s: StoreView, s2: StoreView, o: ObjectView)
    requires
        s2.objects == s.objects.push(o),
        s.objects.len() <= u64::MAX,
    ensures
        forall|oid: Oid|
            #[trigger] s2.spec_find(oid) == (if oid.spec_slot() == Some(s.objects.len() as int) {
                Some(o)
            } else {
                s.spec_find(oid)
            }),
        spec_oid_of_slot(s.objects.len() as int).spec_slot() == Some(s.objects.len() as int),
        s.spec_find(spec_oid_of_slot(s.objects.len() as int)) is None,
{
    crate::oid::lemma_oid_of_slot_slot(s.objects.len() as int);
}

/// Appending an object that is consistent with the store keeps the store
/// consistent, whatever happens to the reference log.
pub proof fn lemma_wf_push(s: StoreView, s2: StoreView, o: ObjectView)
    requires
        s.wf(),
        s2.objects == s.objects.push(o),
        s.objects.len() <= u64::MAX,
        o matches ObjectView::Commit(d) ==> wf_commit_in(s, d),
    ensures
        s2.wf(),
{
    lemma_find_push(s, s2, o);
    assert forall|i: int|
        0 <= i < s2.objects.len() implies ((#[trigger] s2.objects[i]) matches ObjectView::Commit(d)
        ==> wf_commit_in(s2, d)) by {
        match s2.objects[i] {
            ObjectView::Commit(d) => {
                if i < s.objects.len() {
                    assert(s.objects[i] == s2.objects[i]);
                    assert(wf_commit_in(s, d));
                } else {
                    assert(s2.objects[i] == o);
                    assert(wf_commit_in(s, d));
                }
                assert(s2.is_tree(d.tree_id));
                assert forall|j: int|
                    0 <= j < d.parent_ids.len() implies s2.is_commit(
                    #[trigger] d.parent_ids[j],
                ) by {
                    assert(s.is_commit(d.parent_ids[j]));
                }
            },
            _ => {},
        }
    }
}

/// A store with the same objects is consistent whenever the other is: the
/// reference log plays no part in object consistency.
pub proof fn lemma_wf_same_objects(s: StoreView, s2: StoreView)
    requires
        s.wf(),
        s2.objects == s.objects,
    ensures
        s2.wf(),
{
    assert forall|i: int|
        0 <= i < s2.objects.len() implies ((#[trigger] s2.objects[i]) matches ObjectView::Commit(d)
        ==> wf_commit_in(s2, d)) by {
        match s2.objects[i] {
            ObjectView::Commit(d) => {
                assert(wf_commit_in(s, d));
                assert forall|j: int|
                    0 <= j < d.parent_ids.len() implies s2.is_commit(
                    #[trigger] d.parent_ids[j],
                ) by {
                    assert(s.is_commit(d.parent_ids[j]));
                }
            },
            _ => {},
        }
    }
}

/// The view of an optional text argument.
pub open spec fn opt_str_view(o: Option<&str>) -> Option<Seq<char>> {
    match o {
        Some(s) => Some(s@),
        None => None,
    }
}

/// The stored byte form of an optional text argument.
pub open spec fn spec_encoded_opt(o: Option<Seq<char>>) -> Option<Seq<u8>> {
    match o {
        Some(s) => Some(encode_utf8(s)),
        None => None,
    }
}

/// Whether a text argument's byte form holds an interior nul, which the
/// store's internal string encoding cannot represent.
pub open spec fn has_embedded_nul(o: Option<Seq<char>>) -> bool {
    o matches Some(s) && encode_utf8(s).contains(0u8)
}

/// What writing a commit does: reject interior nuls first, then a tree or
/// parent identifier that does not resolve to the right kind of object;
/// otherwise append the new commit and hand back the fresh slot's identifier.
pub open spec fn spec_write_commit(
    s: StoreView,
    tree: Oid,
    parents: Seq<Oid>,
    author: SignatureView,
    committer: SignatureView,
    encoding: Option<Seq<char>>,
    message: Seq<char>,
) -> Result<(StoreView, Oid), Error> {
    if has_embedded_nul(encoding) || encode_utf8(message).contains(0u8) {
        Err(Error::EmbeddedNul)
    } else if !s.is_tree(tree) {
        Err(Error::NotFound)
    } else if exists|j: int| 0 <= j < parents.len() && !(#[trigger] s.is_commit(parents[j])) {
        Err(Error::NotFound)
    } else {
        let data = CommitDataView {
            tree_id: tree,
            parent_ids: parents,
            author,
            committer,
            message_encoding: spec_encoded_opt(encoding),
            message: encode_utf8(message),
            raw_header: spec_header_of(tree, parents, author, committer),
        };
        let s2 = StoreView {
            objects: s.objects.push(ObjectView::Commit(data)),
            refs: s.refs,
        };
        Ok((s2, spec_oid_of_slot(s.objects.len() as int)))
    }
}

/// An owned copy of an identifier list.
pub(crate) fn clone_oids(v: &Vec<Oid>) -> (r: Vec<Oid>)
    ensures
        r@ == v@,
{
    let mut r: Vec<Oid> = Vec::new();
    let mut i: usize = 0;
    while i < v.len()
        invariant
            i <= v@.len(),
            r@ == v@.subrange(0, i as int),
        decreases v@.len() - i,
    {
        r.push(v[i]);
        i += 1;
        assert(r@ =~= v@.subrange(0, i as int));
    }
    assert(r@ =~= v@);
    r
}

/// The object store.
pub struct Store {
    objects: Vec<Object>,
    refs: Vec<RefEntry>,
}

impl View for Store {
    type V = StoreView;

    closed spec fn view(&self) -> StoreView {
        StoreView {
            objects: self.objects@.map_values(|o: Object| o@),
            refs: self.refs@.map_values(|e: RefEntry| e@),
        }
    }
}

impl Store {
    /// An empty store: no objects, no references.
    pub fn new() -> (r: Store)
        ensures
            r@.objects == Seq::<ObjectView>::empty(),
            r@.refs == Seq::<RefView>::empty(),
            r@.wf(),
    {
        let r = Store { objects: Vec::new(), refs: Vec::new() };
        proof {
            assert(r@.objects =~= Seq::<ObjectView>::empty());
            assert(r@.refs =~= Seq::<RefView>::empty());
        }
        r
    }

    /// The object an identifier addresses, if any.
    fn find(&self, oid: Oid) -> (r: Option<&Object>)
        ensures
            match r {
                Some(o) => self@.spec_find(oid) == Some(o@),
                None => self@.spec_find(oid) is None,
            },
    {
        let len = self.objects.len();
        proof {
            assert(self@.objects.len() == self.objects@.len());
        }
        match oid.slot() {
            Some(n) => if n < len {
                let o = &self.objects[n];
                proof {
                    assert(self@.objects[n as int] == self.objects@[n as int]@);
                }
                Some(o)
            } else {
                None
            },
            None => None,
        }
    }

    /// Whether the identifier addresses a commit object.
    pub(crate) fn is_commit_at(&self, oid: Oid) -> (r: bool)
        ensures
            r == self@.is_commit(oid),
    {
        match self.find(oid) {
            Some(o) => match o {
                Object::Commit(_) => true,
                _ => false,
            },
            None => false,
        }
    }

    /// Whether the identifier addresses a tree object.
    pub(crate) fn is_tree_at(&self, oid: Oid) -> (r: bool)
        ensures
            r == self@.is_tree(oid),
    {
        match self.find(oid) {
            Some(o) => match o {
                Object::Tree => true,
                _ => false,
            },
            None => false,
        }
    }

    /// The contents of the commit an identifier addresses, if it is one.
    pub(crate) fn find_commit_data(&self, oid: Oid) -> (r: Option<&CommitData>)
        ensures
            match r {
                Some(d) => self@.is_commit(oid) && d@ == self@.commit_data(oid),
                None => !self@.is_commit(oid),
            },
    {
        match self.find(oid) {
            Some(o) => match o {
                Object::Commit(d) => Some(d),
                _ => None,
            },
            None => None,
        }
    }

    /// Resolve a tree identifier into a tree handle. Fails with the
    /// not-found kind exactly when the identifier addresses no tree object.
    pub fn lookup_tree(&self, oid: Oid) -> (r: Result<Tree, Error>)
        ensures
            match r {
                Ok(t) => self@.is_tree(oid) && t@ == oid,
                Err(e) => e == Error::NotFound && !self@.is_tree(oid),
            },
    {
        if self.is_tree_at(oid) {
            Ok(Tree { id: oid })
        } else {
            Err(Error::NotFound)
        }
    }

    /// Write a new (empty) tree snapshot object and hand back its identifier.
    pub fn write_tree(&mut self) -> (r: Oid)
        ensures
            final(self)@.objects == old(self)@.objects.push(ObjectView::Tree),
            final(self)@.refs == old(self)@.refs,
            r == spec_oid_of_slot(old(self)@.objects.len() as int),
            old(self)@.spec_find(r) is None,
            final(self)@.spec_find(r) == Some(ObjectView::Tree),
            old(self)@.wf() ==> final(self)@.wf(),
    {
        let oid = Oid::of_slot(self.objects.len());
        self.objects.push(Object::Tree);
        proof {
            assert(final(self)@.objects =~= old(self)@.objects.push(ObjectView::Tree));
            assert(final(self)@.refs =~= old(self)@.refs);
            lemma_find_push(old(self)@, final(self)@, ObjectView::Tree);
            if old(self)@.wf() {
                lemma_wf_push(old(self)@, final(self)@, ObjectView::Tree);
            }
        }
        oid
    }

    /// Write a new commit object from its parts and hand back its
    /// identifier. The caller must separately resolve the identifier to get
    /// a live handle. Behaves exactly as [`spec_write_commit`] says.
    pub fn write_commit(
        &mut self,
        tree: Oid,
        parents: &Vec<Oid>,
        author: &Signature,
        committer: &Signature,
        message_encoding: Option<&str>,
        message: &str,
    ) -> (r: Result<Oid, Error>)
        ensures
            match r {
                Ok(oid) => {
                    &&& spec_write_commit(
                        old(self)@,
                        tree,
                        parents@,
                        author@,
                        committer@,
                        opt_str_view(message_encoding),
                        message@,
                    ) matches Ok(p)
                    &&& p == ((final(self)@, oid))
                    &&& old(self)@.spec_find(oid) is None
                },
                Err(e) => {
                    &&& spec_write_commit(
                        old(self)@,
                        tree,
                        parents@,
                        author@,
                        committer@,
                        opt_str_view(message_encoding),
                        message@,
                    ) == Err::<(StoreView, Oid), Error>(e)
                    &&& final(self)@ == old(self)@
                },
            },
            old(self)@.wf() ==> final(self)@.wf(),
    {
        let encoding_bytes: Option<Vec<u8>> = match message_encoding {
            Some(e) => {
                let b = e.as_bytes_vec();
                proof {
                    assert(b@ == encode_utf8(e@));
                }
                if has_nul(&b) {
                    return Err(Error::EmbeddedNul);
                }
                Some(b)
            },
            None => None,
        };
        let message_bytes = message.as_bytes_vec();
        proof {
            assert(message_bytes@ == encode_utf8(message@));
        }
        if has_nul(&message_bytes) {
            return Err(Error::EmbeddedNul);
        }
        if !self.is_tree_at(tree) {
            proof {
                assert(spec_write_commit(
                    old(self)@,
                    tree,
                    parents@,
                    author@,
                    committer@,
                    opt_str_view(message_encoding),
                    message@,
                ) == Err::<(StoreView, Oid), Error>(Error::NotFound));
            }
            return Err(Error::NotFound);
        }
        let mut j: usize = 0;
        while j < parents.len()
            invariant
                j <= parents@.len(),
                self@ == old(self)@,
                !has_embedded_nul(opt_str_view(message_encoding)),
                !encode_utf8(message@).contains(0u8),
                old(self)@.is_tree(tree),
                forall|k: int| 0 <= k < j ==> old(self)@.is_commit(#[trigger] parents@[k]),
            decreases parents@.len() - j,
        {
            if !self.is_commit_at(parents[j]) {
                proof {
                    assert(!old(self)@.is_commit(parents@[j as int]));
                    assert(exists|k: int|
                        0 <= k < parents@.len() && !(#[trigger] old(self)@.is_commit(
                            parents@[k],
                        )));
                    assert(spec_write_commit(
                        old(self)@,
                        tree,
                        parents@,
                        author@,
                        committer@,
                        opt_str_view(message_encoding),
                        message@,
                    ) == Err::<(StoreView, Oid), Error>(Error::NotFound));
                }
                return Err(Error::NotFound);
            }
            j += 1;
        }
        let header = render_header(tree, parents, author, committer);
        let data = CommitData {
            tree_id: tree,
            parent_ids: clone_oids(parents),
            author: author.duplicate(),
            committer: committer.duplicate(),
            message_encoding: encoding_bytes,
            message: message_bytes,
            raw_header: header,
        };
        let ghost data_view = data@;
        let oid = self.append_commit(data);
        proof {
            assert(data_view =~= (CommitDataView {
                tree_id: tree,
                parent_ids: parents@,
                author: author@,
                committer: committer@,
                message_encoding: spec_encoded_opt(opt_str_view(message_encoding)),
                message: encode_utf8(message@),
                raw_header: spec_header_of(tree, parents@, author@, committer@),
            }));
            assert(spec_write_commit(
                old(self)@,
                tree,
                parents@,
                author@,
                committer@,
                opt_str_view(message_encoding),
                message@,
            ) matches Ok(p) && p == ((final(self)@, spec_oid_of_slot(
                old(self)@.objects.len() as int,
            ))));
            if old(self)@.wf() {
                lemma_wf_push(old(self)@, final(self)@, ObjectView::Commit(data_view));
            }
        }
        Ok(oid)
    }

    /// Append a commit object built elsewhere in the crate; the caller has
    /// already validated it.
    pub(crate) fn append_commit(&mut self, data: CommitData) -> (r: Oid)
        ensures
            final(self)@.objects == old(self)@.objects.push(ObjectView::Commit(data@)),
            final(self)@.refs == old(self)@.refs,
            r == spec_oid_of_slot(old(self)@.objects.len() as int),
            old(self)@.objects.len() <= u64::MAX,
            old(self)@.spec_find(r) is None,
            final(self)@.spec_find(r) == Some(ObjectView::Commit(data@)),
    {
        let oid = Oid::of_slot(self.objects.len());
        let ghost data_view = data@;
        self.objects.push(Object::Commit(data));
        proof {
            assert(final(self)@.objects =~= old(self)@.objects.push(ObjectView::Commit(data_view)));
            assert(final(self)@.refs =~= old(self)@.refs);
            lemma_find_push(old(self)@, final(self)@, ObjectView::Commit(data_view));
        }
        oid
    }

    /// Append one entry to the reference log; the caller has already
    /// validated the name and the target.
    pub(crate) fn append_ref(&mut self, name: Vec<u8>, target: Oid)
        ensures
            final(self)@.objects == old(self)@.objects,
            final(self)@.refs == old(self)@.refs.push((RefView { name: name@, target })),
    {
        let entry = RefEntry { name, target };
        let ghost entry_view = entry@;
        self.refs.push(entry);
        proof {
            assert(final(self)@.objects =~= old(self)@.objects);
            assert(final(self)@.refs =~= old(self)@.refs.push(entry_view));
        }
    }

    /// Point a named reference at an object, recording the update in the
    /// reference log. Fails with the nul kind when the name holds an
    /// interior nul, and with the not-found kind when the target identifier
    /// addresses no object.
    pub fn update_ref(&mut self, name: &str, target: Oid) -> (r: Result<(), Error>)
        ensures
            match r {
                Ok(()) => {
                    &&& !encode_utf8(name@).contains(0u8)
                    &&& old(self)@.spec_find(target) is Some
                    &&& final(self)@.objects == old(self)@.objects
                    &&& final(self)@.refs == old(self)@.refs.push(
                        (RefView { name: encode_utf8(name@), target }),
                    )
                },
                Err(e) => {
                    &&& final(self)@ == old(self)@
                    &&& (encode_utf8(name@).contains(0u8) || old(self)@.spec_find(target) is None)
                    &&& (e == Error::EmbeddedNul <==> encode_utf8(name@).contains(0u8))
                    &&& (e == Error::NotFound <==> !encode_utf8(name@).contains(0u8))
                },
            },
            !encode_utf8(name@).contains(0u8) && old(self)@.spec_find(target) is Some ==> r is Ok,
            old(self)@.wf() ==> final(self)@.wf(),
    {
        let name_bytes = name.as_bytes_vec();
        if has_nul(&name_bytes) {
            return Err(Error::EmbeddedNul);
        }
        match self.find(target) {
            Some(_) => {},
            None => {
                return Err(Error::NotFound);
            },
        }
        let entry = RefEntry { name: name_bytes, target };
        let ghost entry_view = entry@;
        self.refs.push(entry);
        proof {
            assert(final(self)@.objects =~= old(self)@.objects);
            assert(final(self)@.refs =~= old(self)@.refs.push(entry_view));
            assert(entry_view =~= (RefView { name: encode_utf8(name@), target }));
            if old(self)@.wf() {
                lemma_wf_same_objects(old(self)@, final(self)@);
            }
        }
        Ok(())
    }

    /// The current target of a named reference: the latest update recorded
    /// for it. Fails with the not-found kind when the name was never set.
    pub fn find_ref(&self, name: &str) -> (r: Result<Oid, Error>)
        ensures
            match r {
                Ok(oid) => spec_ref_target(self@.refs, encode_utf8(name@)) == Some(oid),
                Err(e) => e == Error::NotFound && spec_ref_target(
                    self@.refs,
                    encode_utf8(name@),
                ) is None,
            },
    {
        let name_bytes = name.as_bytes_vec();
        let ghost nb = encode_utf8(name@);
        let mut i: usize = self.refs.len();
        assert(self@.refs.take(i as int) =~= self@.refs);
        while i > 0
            invariant
                i <= self@.refs.len(),
                nb == encode_utf8(name@),
                name_bytes@ == nb,
                spec_ref_target(self@.refs, nb) == spec_ref_target(self@.refs.take(i as int), nb),
            decreases i,
        {
            i -= 1;
            let hit = bytes_eq(&self.refs[i].name, name_bytes.as_slice());
            proof {
                assert(self@.refs.take(i + 1).last() == self@.refs[i as int]);
                assert(self@.refs.take(i + 1).drop_last() =~= self@.refs.take(i as int));
            }
            if hit {
                return Ok(self.refs[i].target);
            }
        }
        assert(self@.refs.take(0) =~= Seq::<RefView>::empty());
        Err(Error::NotFound)
    }
}

} // verus!
