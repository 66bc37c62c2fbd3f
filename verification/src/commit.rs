//! Commit handles: independent, owned resolutions of stored commit objects,
//! their accessors, indexed parent access, and the amend operation that
//! derives a brand-new commit from an existing one.

use crate::bytes::{clone_bytes, clone_opt_bytes, decode_bytes, has_nul, spec_decoded_opt};
use crate::error::Error;
use crate::header::spec_header_of;
use crate::oid::{spec_oid_of_slot, Oid};
use crate::signature::{Signature, SignatureView, Time};
use crate::store::{
    clone_oids, has_embedded_nul, lemma_wf_push, lemma_wf_same_objects, opt_str_view,
    wf_commit_in, CommitData, CommitDataView, ObjectView, RefView, Store, StoreView, Tree,
};
use crate::text::{prettify, spec_pretty, spec_summary, summary_of};
use vstd::prelude::*;
use vstd::string::StrSliceExecFns;
use vstd::utf8::{decode_utf8, encode_utf8, valid_utf8};

verus! {

/// A live handle to one commit object: the identifier it was resolved by
/// and an owned copy of the stored contents. Immutable once constructed;
/// two handles with equal identifiers hold equal contents.
#[derive(Debug)]
pub struct Commit {
    id: Oid,
    data: CommitData,
}

/// What a commit handle holds.
#[verifier::ext_equal]
pub struct CommitView {
    pub id: Oid,
    pub data: CommitDataView,
}

impl View for Commit {
    type V = CommitView;

    closed spec fn view(&self) -> CommitView {
        CommitView { id: self.id, data: self.data@ }
    }
}

impl CommitView {
    /// Resolving this commit's identifier in the store yields exactly this
    /// commit.
    pub open spec fn valid_view_in(self, s: StoreView) -> bool {
        spec_lookup_commit(s, self.id) == Some(self)
    }
}

/// The commit handle an identifier resolves to in a store, if it addresses
/// a commit object.
pub open spec fn spec_lookup_commit(s: StoreView, oid: Oid) -> Option<CommitView> {
    if s.is_commit(oid) {
        Some(CommitView { id: oid, data: s.commit_data(oid) })
    } else {
        None
    }
}

/// The view of an optional signature argument.
pub open spec fn opt_sig_view(o: Option<&Signature>) -> Option<SignatureView> {
    match o {
        Some(s) => Some(s@),
        None => None,
    }
}

/// The view of an optional tree argument: the identifier it carries.
pub open spec fn opt_tree_view(o: Option<&Tree>) -> Option<Oid> {
    match o {
        Some(t) => Some(t@),
        None => None,
    }
}

/// The contents an amended commit gets: each present override replaces the
/// corresponding field, absent overrides keep the original's value, the
/// parent list is always carried over unchanged, and the header is rendered
/// afresh from the resulting fields.
pub open spec fn spec_amended_data(
    d: CommitDataView,
    author: Option<SignatureView>,
    committer: Option<SignatureView>,
    encoding: Option<Seq<char>>,
    message: Option<Seq<char>>,
    tree: Option<Oid>,
) -> CommitDataView {
    let tree_id = match tree {
        Some(t) => t,
        None => d.tree_id,
    };
    let author2 = match author {
        Some(a) => a,
        None => d.author,
    };
    let committer2 = match committer {
        Some(c) => c,
        None => d.committer,
    };
    let encoding2 = match encoding {
        Some(e) => Some(encode_utf8(e)),
        None => d.message_encoding,
    };
    let message2 = match message {
        Some(m) => encode_utf8(m),
        None => d.message,
    };
    CommitDataView {
        tree_id,
        parent_ids: d.parent_ids,
        author: author2,
        committer: committer2,
        message_encoding: encoding2,
        message: message2,
        raw_header: spec_header_of(tree_id, d.parent_ids, author2, committer2),
    }
}

/// What amending a commit with contents `d` does to a store: reject interior
/// nuls first, then a tree or parent that does not resolve; otherwise append
/// the amended commit, point the named reference (if one is given) at it,
/// and hand back the fresh identifier.
pub open spec fn spec_amend(
    s: StoreView,
    d: CommitDataView,
    update_ref: Option<Seq<char>>,
    author: Option<SignatureView>,
    committer: Option<SignatureView>,
    encoding: Option<Seq<char>>,
    message: Option<Seq<char>>,
    tree: Option<Oid>,
) -> Result<(StoreView, Oid), Error> {
    if has_embedded_nul(update_ref) || has_embedded_nul(encoding) || has_embedded_nul(message) {
        Err(Error::EmbeddedNul)
    } else {
        let nd = spec_amended_data(d, author, committer, encoding, message, tree);
        if !s.is_tree(nd.tree_id) {
            Err(Error::NotFound)
        } else if exists|j: int|
            0 <= j < nd.parent_ids.len() && !(#[trigger] s.is_commit(nd.parent_ids[j])) {
            Err(Error::NotFound)
        } else {
            let oid = spec_oid_of_slot(s.objects.len() as int);
            let refs2 = match update_ref {
                Some(n) => s.refs.push((RefView { name: encode_utf8(n), target: oid })),
                None => s.refs,
            };
            Ok((StoreView { objects: s.objects.push(ObjectView::Commit(nd)), refs: refs2 }, oid))
        }
    }
}

/// An iterator over the parent commits of a commit: a borrowed handle and a
/// half-open index range, shared by forward and backward consumption. Each
/// step resolves one parent through the store; nothing is cached.
pub struct Parents<'a> {
    commit: &'a Commit,
    start: usize,
    end: usize,
}

/// An iterator over the parent commits' identifiers of a commit: the same
/// shared index range, but no store access — strictly cheaper.
pub struct ParentIds<'a> {
    commit: &'a Commit,
    start: usize,
    end: usize,
}

impl<'a> Parents<'a> {
    /// The commit whose parents are being traversed.
    pub closed spec fn spec_commit(self) -> CommitView {
        self.commit@
    }

    /// The next index a forward step yields.
    pub closed spec fn spec_start(self) -> int {
        self.start as int
    }

    /// One past the next index a backward step yields.
    pub closed spec fn spec_end(self) -> int {
        self.end as int
    }

    /// The shared range still sits inside the parent list.
    pub open spec fn wf_iter(self) -> bool {
        0 <= self.spec_start() <= self.spec_end() <= self.spec_commit().data.parent_ids.len()
    }

    /// Exactly how many parents are left to yield.
    pub fn len(&self) -> (r: usize)
        requires
            self.wf_iter(),
        ensures
            r == self.spec_end() - self.spec_start(),
    {
        self.end - self.start
    }

    /// Resolve and yield the parent at the front of the range, if any is
    /// left. One store lookup per element.
    pub fn next(&mut self, store: &Store) -> (r: Option<Commit>)
        requires
            old(self).wf_iter(),
            old(self).spec_commit().valid_view_in(store@),
            store@.wf(),
        ensures
            final(self).spec_commit() == old(self).spec_commit(),
            final(self).spec_end() == old(self).spec_end(),
            final(self).wf_iter(),
            old(self).spec_start() < old(self).spec_end() ==> {
                &&& final(self).spec_start() == old(self).spec_start() + 1
                &&& r matches Some(c) && Some(c@) == spec_lookup_commit(
                    store@,
                    old(self).spec_commit().data.parent_ids[old(self).spec_start()],
                )
            },
            old(self).spec_start() >= old(self).spec_end() ==> r is None && final(self).spec_start() == old(self).spec_start(),
    {
        if self.start < self.end {
            let i = self.start;
            self.start += 1;
            match self.commit.parent(store, i) {
                Ok(c) => Some(c),
                Err(_) => None,
            }
        } else {
            None
        }
    }

    /// Resolve and yield the parent at the back of the range, if any is
    /// left. One store lookup per element.
    pub fn next_back(&mut self, store: &Store) -> (r: Option<Commit>)
        requires
            old(self).wf_iter(),
            old(self).spec_commit().valid_view_in(store@),
            store@.wf(),
        ensures
            final(self).spec_commit() == old(self).spec_commit(),
            final(self).spec_start() == old(self).spec_start(),
            final(self).wf_iter(),
            old(self).spec_start() < old(self).spec_end() ==> {
                &&& final(self).spec_end() == old(self).spec_end() - 1
                &&& r matches Some(c) && Some(c@) == spec_lookup_commit(
                    store@,
                    old(self).spec_commit().data.parent_ids[old(self).spec_end() - 1],
                )
            },
            old(self).spec_start() >= old(self).spec_end() ==> r is None && final(self).spec_end() == old(self).spec_end(),
    {
        if self.start < self.end {
            self.end -= 1;
            match self.commit.parent(store, self.end) {
                Ok(c) => Some(c),
                Err(_) => None,
            }
        } else {
            None
        }
    }
}

impl<'a> ParentIds<'a> {
    /// The commit whose parent identifiers are being traversed.
    pub closed spec fn spec_commit(self) -> CommitView {
        self.commit@
    }

    /// The next index a forward step yields.
    pub closed spec fn spec_start(self) -> int {
        self.start as int
    }

    /// One past the next index a backward step yields.
    pub closed spec fn spec_end(self) -> int {
        self.end as int
    }

    /// The shared range still sits inside the parent list.
    pub open spec fn wf_iter(self) -> bool {
        0 <= self.spec_start() <= self.spec_end() <= self.spec_commit().data.parent_ids.len()
    }

    /// Exactly how many identifiers are left to yield.
    pub fn len(&self) -> (r: usize)
        requires
            self.wf_iter(),
        ensures
            r == self.spec_end() - self.spec_start(),
    {
        self.end - self.start
    }

    /// Yield the identifier at the front of the range, if any is left.
    /// No store access.
    pub fn next(&mut self) -> (r: Option<Oid>)
        requires
            old(self).wf_iter(),
        ensures
            final(self).spec_commit() == old(self).spec_commit(),
            final(self).spec_end() == old(self).spec_end(),
            final(self).wf_iter(),
            old(self).spec_start() < old(self).spec_end() ==> {
                &&& final(self).spec_start() == old(self).spec_start() + 1
                &&& r == Some(
                    old(self).spec_commit().data.parent_ids[old(self).spec_start()],
                )
            },
            old(self).spec_start() >= old(self).spec_end() ==> r is None && final(self).spec_start() == old(self).spec_start(),
    {
        if self.start < self.end {
            let i = self.start;
            self.start += 1;
            Some(self.commit.data.parent_ids[i])
        } else {
            None
        }
    }

    /// Yield the identifier at the back of the range, if any is left.
    /// No store access.
    pub fn next_back(&mut self) -> (r: Option<Oid>)
        requires
            old(self).wf_iter(),
        ensures
            final(self).spec_commit() == old(self).spec_commit(),
            final(self).spec_start() == old(self).spec_start(),
            final(self).wf_iter(),
            old(self).spec_start() < old(self).spec_end() ==> {
                &&& final(self).spec_end() == old(self).spec_end() - 1
                &&& r == Some(
                    old(self).spec_commit().data.parent_ids[old(self).spec_end() - 1],
                )
            },
            old(self).spec_start() >= old(self).spec_end() ==> r is None && final(self).spec_end() == old(self).spec_end(),
    {
        if self.start < self.end {
            self.end -= 1;
            Some(self.commit.data.parent_ids[self.end])
        } else {
            None
        }
    }
}

/// A commit handle that was resolved from a consistent store has, by the
/// store's consistency, a resolvable tree and resolvable parents.
pub proof fn lemma_valid_commit_wf(s: StoreView, c: CommitView)
    requires
        s.wf(),
        spec_lookup_commit(s, c.id) == Some(c),
    ensures
        wf_commit_in(s, c.data),
{
    let i: int = match c.id.spec_slot() {
        Some(i) => i,
        None => 0,
    };
    assert(0 <= i < s.objects.len());
    assert(s.objects[i] matches ObjectView::Commit(d) && d == c.data);
}

impl Store {
    /// Resolve a commit identifier into an independent, owned handle.
    /// Fails with the not-found kind exactly when the identifier addresses
    /// no commit object.
    pub fn lookup_commit(&self, oid: Oid) -> (r: Result<Commit, Error>)
        ensures
            match r {
                Ok(c) => spec_lookup_commit(self@, oid) == Some(c@) && c.valid_in(self@),
                Err(e) => e == Error::NotFound && spec_lookup_commit(self@, oid) is None,
            },
    {
        match self.find_commit_data(oid) {
            Some(d) => {
                let c = Commit { id: oid, data: d.duplicate() };
                proof {
                    assert(c@ =~= (CommitView { id: oid, data: self@.commit_data(oid) }));
                }
                Ok(c)
            },
            None => Err(Error::NotFound),
        }
    }
}

impl Commit {
    /// The handle was resolved from this store: looking its identifier up
    /// again yields exactly its contents.
    pub open spec fn valid_in(self, s: StoreView) -> bool {
        self@.valid_view_in(s)
    }

    /// A fresh iterator over this commit's parents, built from the parent
    /// count captured now; the parent set is immutable for the handle's
    /// lifetime.
    pub fn parents<'a>(&'a self) -> (r: Parents<'a>)
        ensures
            r.spec_commit() == self@,
            r.spec_start() == 0,
            r.spec_end() == self@.data.parent_ids.len(),
            r.wf_iter(),
    {
        Parents { commit: self, start: 0, end: self.data.parent_ids.len() }
    }

    /// A fresh iterator over this commit's parent identifiers; the same
    /// range contract as [`Commit::parents`], with no store lookups.
    pub fn parent_ids<'a>(&'a self) -> (r: ParentIds<'a>)
        ensures
            r.spec_commit() == self@,
            r.spec_start() == 0,
            r.spec_end() == self@.data.parent_ids.len(),
            r.wf_iter(),
    {
        ParentIds { commit: self, start: 0, end: self.data.parent_ids.len() }
    }

    /// The identifier of this commit.
    pub fn id(&self) -> (r: Oid)
        ensures
            r == self@.id,
    {
        self.id
    }

    /// The identifier of the tree this commit snapshots. No store access.
    pub fn tree_id(&self) -> (r: Oid)
        ensures
            r == self@.data.tree_id,
    {
        self.data.tree_id
    }

    /// Resolve this commit's tree through the store. Fails with the
    /// not-found kind exactly when the store cannot resolve it, which cannot
    /// happen in a consistent store this handle is valid in.
    pub fn tree(&self, store: &Store) -> (r: Result<Tree, Error>)
        ensures
            match r {
                Ok(t) => store@.is_tree(self@.data.tree_id) && t@ == self@.data.tree_id,
                Err(e) => e == Error::NotFound && !store@.is_tree(self@.data.tree_id),
            },
            self.valid_in(store@) && store@.wf() ==> r is Ok,
    {
        proof {
            if self.valid_in(store@) && store@.wf() {
                lemma_valid_commit_wf(store@, self@);
            }
        }
        store.lookup_tree(self.data.tree_id)
    }

    /// How many parents this commit has.
    pub fn parent_count(&self) -> (r: usize)
        ensures
            r == self@.data.parent_ids.len(),
    {
        self.data.parent_ids.len()
    }

    /// The identifier of parent `i`. No store access. Fails with the
    /// bounds-violation kind exactly when `i` is at or past the parent count.
    pub fn parent_id(&self, i: usize) -> (r: Result<Oid, Error>)
        ensures
            match r {
                Ok(oid) => i < self@.data.parent_ids.len() && oid == self@.data.parent_ids[i as int],
                Err(e) => e == Error::OutOfBounds && i >= self@.data.parent_ids.len(),
            },
    {
        if i < self.data.parent_ids.len() {
            Ok(self.data.parent_ids[i])
        } else {
            Err(Error::OutOfBounds)
        }
    }

    /// Resolve parent `i` through the store. Fails with the bounds-violation
    /// kind exactly when `i` is at or past the parent count, and with the
    /// not-found kind when the store cannot resolve the parent, which cannot
    /// happen in a consistent store this handle is valid in.
    pub fn parent(&self, store: &Store, i: usize) -> (r: Result<Commit, Error>)
        ensures
            match r {
                Ok(c) => i < self@.data.parent_ids.len() && Some(c@) == spec_lookup_commit(
                    store@,
                    self@.data.parent_ids[i as int],
                ) && c.valid_in(store@),
                Err(e) => (e == Error::OutOfBounds && i >= self@.data.parent_ids.len()) || (e
                    == Error::NotFound && i < self@.data.parent_ids.len() && spec_lookup_commit(
                    store@,
                    self@.data.parent_ids[i as int],
                ) is None),
            },
            i < self@.data.parent_ids.len() && self.valid_in(store@) && store@.wf() ==> r is Ok,
    {
        if i >= self.data.parent_ids.len() {
            return Err(Error::OutOfBounds);
        }
        proof {
            if self.valid_in(store@) && store@.wf() {
                lemma_valid_commit_wf(store@, self@);
            }
        }
        store.lookup_commit(self.data.parent_ids[i])
    }

    /// The verbatim message bytes, exactly as stored.
    pub fn message_raw_bytes(&self) -> (r: &[u8])
        ensures
            r@ == self@.data.message,
    {
        self.data.message.as_slice()
    }

    /// The verbatim message as text; absent when it is not valid UTF-8.
    pub fn message_raw(&self) -> (r: Option<String>)
        ensures
            r is Some <==> valid_utf8(self@.data.message),
            r matches Some(s) ==> s@ == decode_utf8(self@.data.message),
    {
        decode_bytes(self.data.message.as_slice())
    }

    /// The message bytes, slightly prettified: leading newlines removed.
    pub fn message_bytes(&self) -> (r: &[u8])
        ensures
            r@ == spec_pretty(self@.data.message),
    {
        prettify(self.data.message.as_slice())
    }

    /// The prettified message as text; absent when it is not valid UTF-8.
    pub fn message(&self) -> (r: Option<String>)
        ensures
            r is Some <==> valid_utf8(spec_pretty(self@.data.message)),
            r matches Some(s) ==> s@ == decode_utf8(spec_pretty(self@.data.message)),
    {
        decode_bytes(prettify(self.data.message.as_slice()))
    }

    /// The declared message encoding name as text; absent when none was
    /// declared (the message is then taken as UTF-8) or when the declared
    /// name's bytes are not valid UTF-8.
    pub fn message_encoding(&self) -> (r: Option<String>)
        ensures
            r is Some <==> spec_decoded_opt(self@.data.message_encoding) is Some,
            r matches Some(s) ==> Some(s@) == spec_decoded_opt(self@.data.message_encoding),
    {
        match &self.data.message_encoding {
            Some(v) => decode_bytes(v.as_slice()),
            None => None,
        }
    }

    /// The full structured header bytes, exactly as stored.
    pub fn raw_header_bytes(&self) -> (r: &[u8])
        ensures
            r@ == self@.data.raw_header,
    {
        self.data.raw_header.as_slice()
    }

    /// The header as text; absent when it is not valid UTF-8.
    pub fn raw_header(&self) -> (r: Option<String>)
        ensures
            r is Some <==> valid_utf8(self@.data.raw_header),
            r matches Some(s) ==> s@ == decode_utf8(self@.data.raw_header),
    {
        decode_bytes(self.data.raw_header.as_slice())
    }

    /// The summary bytes: first paragraph of the prettified message,
    /// whitespace trimmed and squashed. Derived, not stored; never absent
    /// for a live handle.
    pub fn summary_bytes(&self) -> (r: Option<Vec<u8>>)
        ensures
            r matches Some(v) && v@ == spec_summary(self@.data.message),
    {
        Some(summary_of(self.data.message.as_slice()))
    }

    /// The summary as text; absent when its bytes are not valid UTF-8.
    pub fn summary(&self) -> (r: Option<String>)
        ensures
            r is Some <==> valid_utf8(spec_summary(self@.data.message)),
            r matches Some(s) ==> s@ == decode_utf8(spec_summary(self@.data.message)),
    {
        let v = summary_of(self.data.message.as_slice());
        decode_bytes(v.as_slice())
    }

    /// The commit time: the committer's, not the author's.
    pub fn time(&self) -> (r: Time)
        ensures
            r == self@.data.committer.when,
    {
        self.data.committer.when()
    }

    /// An owned copy of the author signature.
    pub fn author(&self) -> (r: Signature)
        ensures
            r@ == self@.data.author,
    {
        self.data.author.duplicate()
    }

    /// An owned copy of the committer signature.
    pub fn committer(&self) -> (r: Signature)
        ensures
            r@ == self@.data.committer,
    {
        self.data.committer.duplicate()
    }

    /// Derive a brand-new commit from this one: every present argument
    /// replaces the corresponding field, absent arguments keep this commit's
    /// values, and the parent list is always carried over unchanged — amend
    /// never alters ancestry. This commit is not touched. If `update_ref`
    /// names a reference, it is pointed at the new commit. Hands back the
    /// new identifier only; resolving it is a separate store operation.
    /// Behaves exactly as [`spec_amend`] says.
    pub fn amend(
        &self,
        store: &mut Store,
        update_ref: Option<&str>,
        author: Option<&Signature>,
        committer: Option<&Signature>,
        message_encoding: Option<&str>,
        message: Option<&str>,
        tree: Option<&Tree>,
    ) -> (r: Result<Oid, Error>)
        ensures
            match r {
                Ok(oid) => {
                    &&& spec_amend(
                        old(store)@,
                        self@.data,
                        opt_str_view(update_ref),
                        opt_sig_view(author),
                        opt_sig_view(committer),
                        opt_str_view(message_encoding),
                        opt_str_view(message),
                        opt_tree_view(tree),
                    ) matches Ok(p)
                    &&& p == ((final(store)@, oid))
                    &&& old(store)@.spec_find(oid) is None
                },
                Err(e) => {
                    &&& spec_amend(
                        old(store)@,
                        self@.data,
                        opt_str_view(update_ref),
                        opt_sig_view(author),
                        opt_sig_view(committer),
                        opt_str_view(message_encoding),
                        opt_str_view(message),
                        opt_tree_view(tree),
                    ) == Err::<(StoreView, Oid), Error>(e)
                    &&& final(store)@ == old(store)@
                },
            },
            old(store)@.wf() ==> final(store)@.wf(),
    {
        let ref_bytes: Option<Vec<u8>> = match update_ref {
            Some(n) => {
                let b = n.as_bytes_vec();
                proof {
                    assert(b@ == encode_utf8(n@));
                }
                if has_nul(&b) {
                    return Err(Error::EmbeddedNul);
                }
                Some(b)
            },
            None => None,
        };
        let encoding_override: Option<Vec<u8>> = match message_encoding {
            Some(e) => {
                let b = e.as_bytes_vec();
                proof {
                    assert(b@ == encode_utf8(e@));
                }
                if has_nul(&b) {
                    return Err(Error::EmbeddedNul);
                }
                Some(b)
            },
            None => None,
        };
        let message_override: Option<Vec<u8>> = match message {
            Some(m) => {
                let b = m.as_bytes_vec();
                proof {
                    assert(b@ == encode_utf8(m@));
                }
                if has_nul(&b) {
                    return Err(Error::EmbeddedNul);
                }
                Some(b)
            },
            None => None,
        };
        let tree_id = match tree {
            Some(t) => t.id(),
            None => self.data.tree_id,
        };
        let new_author: Signature = match author {
            Some(a) => a.duplicate(),
            None => self.data.author.duplicate(),
        };
        let new_committer: Signature = match committer {
            Some(c) => c.duplicate(),
            None => self.data.committer.duplicate(),
        };
        let new_encoding: Option<Vec<u8>> = match encoding_override {
            Some(b) => Some(b),
            None => clone_opt_bytes(&self.data.message_encoding),
        };
        let new_message: Vec<u8> = match message_override {
            Some(b) => b,
            None => clone_bytes(&self.data.message),
        };
        let parents = clone_oids(&self.data.parent_ids);
        let ghost nd = spec_amended_data(
            self@.data,
            opt_sig_view(author),
            opt_sig_view(committer),
            opt_str_view(message_encoding),
            opt_str_view(message),
            opt_tree_view(tree),
        );
        proof {
            assert(!has_embedded_nul(opt_str_view(update_ref)));
            assert(!has_embedded_nul(opt_str_view(message_encoding)));
            assert(!has_embedded_nul(opt_str_view(message)));
            assert(nd.tree_id == tree_id);
            assert(nd.parent_ids == parents@);
        }
        if !store.is_tree_at(tree_id) {
            proof {
                assert(spec_amend(
                    old(store)@,
                    self@.data,
                    opt_str_view(update_ref),
                    opt_sig_view(author),
                    opt_sig_view(committer),
                    opt_str_view(message_encoding),
                    opt_str_view(message),
                    opt_tree_view(tree),
                ) == Err::<(StoreView, Oid), Error>(Error::NotFound));
            }
            return Err(Error::NotFound);
        }
        let mut j: usize = 0;
        while j < parents.len()
            invariant
                j <= parents@.len(),
                store@ == old(store)@,
                nd == spec_amended_data(
                    self@.data,
                    opt_sig_view(author),
                    opt_sig_view(committer),
                    opt_str_view(message_encoding),
                    opt_str_view(message),
                    opt_tree_view(tree),
                ),
                nd.parent_ids == parents@,
                !has_embedded_nul(opt_str_view(update_ref)),
                !has_embedded_nul(opt_str_view(message_encoding)),
                !has_embedded_nul(opt_str_view(message)),
                old(store)@.is_tree(nd.tree_id),
                forall|k: int| 0 <= k < j ==> old(store)@.is_commit(#[trigger] parents@[k]),
            decreases parents@.len() - j,
        {
            if !store.is_commit_at(parents[j]) {
                proof {
                    assert(!old(store)@.is_commit(nd.parent_ids[j as int]));
                    assert(exists|k: int|
                        0 <= k < nd.parent_ids.len() && !(#[trigger] old(store)@.is_commit(
                            nd.parent_ids[k],
                        )));
                    assert(spec_amend(
                        old(store)@,
                        self@.data,
                        opt_str_view(update_ref),
                        opt_sig_view(author),
                        opt_sig_view(committer),
                        opt_str_view(message_encoding),
                        opt_str_view(message),
                        opt_tree_view(tree),
                    ) == Err::<(StoreView, Oid), Error>(Error::NotFound));
                }
                return Err(Error::NotFound);
            }
            j += 1;
        }
        let header = crate::header::render_header(tree_id, &parents, &new_author, &new_committer);
        let data = CommitData {
            tree_id,
            parent_ids: parents,
            author: new_author,
            committer: new_committer,
            message_encoding: new_encoding,
            message: new_message,
            raw_header: header,
        };
        proof {
            assert(data@ =~= nd);
        }
        let oid = store.append_commit(data);
        proof {
            if old(store)@.wf() {
                lemma_wf_push(old(store)@, store@, ObjectView::Commit(nd));
            }
        }
        match ref_bytes {
            Some(b) => {
                let ghost before_ref = store@;
                store.append_ref(b, oid);
                proof {
                    if old(store)@.wf() {
                        lemma_wf_same_objects(before_ref, store@);
                    }
                }
            },
            None => {},
        }
        proof {
            assert(spec_amend(
                old(store)@,
                self@.data,
                opt_str_view(update_ref),
                opt_sig_view(author),
                opt_sig_view(committer),
                opt_str_view(message_encoding),
                opt_str_view(message),
                opt_tree_view(tree),
            ) matches Ok(p) && p == ((final(store)@, oid)));
        }
        Ok(oid)
    }
}

} // verus!
