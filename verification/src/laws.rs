//! The general laws the library obeys, stated and proved over the spec-level
//! models that the executable functions' contracts use.

use crate::commit::{lemma_valid_commit_wf, spec_amended_data, spec_lookup_commit, CommitView};
use crate::oid::Oid;
use crate::store::StoreView;
use vstd::prelude::*;
use vstd::utf8::encode_utf8;

verus! {

/// Law: identifiers round-trip through the store. Resolving a valid commit
/// handle's identifier yields a commit with that same identifier and the
/// same contents.
pub proof fn lemma_lookup_id_roundtrip(s: StoreView, c: CommitView)
    requires
        c.valid_view_in(s),
    ensures
        spec_lookup_commit(s, c.id) matches Some(c2) && c2.id == c.id && c2 == c,
{
}

/// Law: the two parent traversals agree. Both enumerate the same identifier
/// sequence in the same order, and in a consistent store each identifier
/// resolves to a commit carrying exactly that identifier — so the commits
/// yielded by parent traversal and the identifiers yielded by identifier
/// traversal match position by position.
pub proof fn lemma_parent_traversals_agree(s: StoreView, c: CommitView)
    requires
        s.wf(),
        c.valid_view_in(s),
    ensures
        forall|i: int|
            0 <= i < c.data.parent_ids.len() ==> ((#[trigger] spec_lookup_commit(
                s,
                c.data.parent_ids[i],
            )) matches Some(p) && p.id == c.data.parent_ids[i]),
{
    lemma_valid_commit_wf(s, c);
    assert forall|i: int|
        0 <= i < c.data.parent_ids.len() implies ((#[trigger] spec_lookup_commit(
        s,
        c.data.parent_ids[i],
    )) matches Some(p) && p.id == c.data.parent_ids[i]) by {
        assert(s.is_commit(c.data.parent_ids[i]));
    }
}

/// The indices a forward traversal visits before a split point: `lo`,
/// `lo + 1`, … up to but not including `mid`. A forward step yields the
/// range's start and advances it, so a run of forward calls visits exactly
/// these.
pub open spec fn forward_indices(lo: int, mid: int) -> Seq<int> {
    Seq::new((mid - lo) as nat, |k: int| lo + k)
}

/// The indices a backward traversal visits after the split point: `hi - 1`,
/// `hi - 2`, … down to and including `mid`. A backward step yields one less
/// than the range's end and shrinks it, so a run of backward calls visits
/// exactly these.
pub open spec fn backward_indices(mid: int, hi: int) -> Seq<int> {
    Seq::new((hi - mid) as nat, |k: int| hi - 1 - k)
}

/// Law: a forward traversal up to any split point, followed by a full
/// backward traversal of what is left of the shared range, visits each index
/// of the range exactly once — no duplicates, no gaps.
pub proof fn lemma_bidirectional_traversal_covers(lo: int, mid: int, hi: int)
    requires
        lo <= mid <= hi,
    ensures
        ({
            let visited = forward_indices(lo, mid) + backward_indices(mid, hi);
            &&& visited.len() == hi - lo
            &&& forall|x: int| lo <= x < hi ==> visited.contains(x)
            &&& forall|p: int, q: int| 0 <= p < q < visited.len() ==> visited[p] != visited[q]
        }),
{
    let visited = forward_indices(lo, mid) + backward_indices(mid, hi);
    assert forall|x: int| lo <= x < hi implies visited.contains(x) by {
        if x < mid {
            assert(visited[x - lo] == x);
        } else {
            assert(visited[(mid - lo) + (hi - 1 - x)] == x);
        }
    }
    assert forall|p: int, q: int|
        0 <= p < q < visited.len() implies visited[p] != visited[q] by {
        if p < mid - lo {
            if q < mid - lo {
                assert(visited[p] == lo + p && visited[q] == lo + q);
            } else {
                assert(visited[p] == lo + p < mid);
                assert(visited[q] == hi - 1 - (q - (mid - lo)) >= mid);
            }
        } else {
            assert(visited[p] == hi - 1 - (p - (mid - lo)));
            assert(visited[q] == hi - 1 - (q - (mid - lo)));
        }
    }
}

/// Law: amending with every argument absent preserves the contents exactly —
/// message, tree, author, committer, encoding, parents, and even the stored
/// header, since a consistent store's header is the rendering of the fields
/// it carries. The new identifier still differs: see
/// [`lemma_fresh_id_differs`] and amend's own contract.
pub proof fn lemma_amend_all_absent_preserves_content(s: StoreView, c: CommitView)
    requires
        s.wf(),
        c.valid_view_in(s),
    ensures
        spec_amended_data(c.data, None, None, None, None, None) == c.data,
{
    lemma_valid_commit_wf(s, c);
    assert(spec_amended_data(c.data, None, None, None, None, None) =~= c.data);
}

/// Law: an identifier the store does not know yet — such as the one amend
/// hands back — differs from the identifier of every commit already in it.
pub proof fn lemma_fresh_id_differs(s: StoreView, c: CommitView, oid: Oid)
    requires
        c.valid_view_in(s),
        s.spec_find(oid) is None,
    ensures
        oid != c.id,
{
}

/// Law: amending with only the message set changes exactly the message
/// field; the tree, the parent list, both signatures, the encoding, and the
/// stored header are carried over unchanged.
pub proof fn lemma_amend_message_only(s: StoreView, c: CommitView, m: Seq<char>)
    requires
        s.wf(),
        c.valid_view_in(s),
    ensures
        ({
            let nd = spec_amended_data(c.data, None, None, None, Some(m), None);
            &&& nd.message == encode_utf8(m)
            &&& nd.tree_id == c.data.tree_id
            &&& nd.parent_ids == c.data.parent_ids
            &&& nd.author == c.data.author
            &&& nd.committer == c.data.committer
            &&& nd.message_encoding == c.data.message_encoding
            &&& nd.raw_header == c.data.raw_header
        }),
{
    lemma_valid_commit_wf(s, c);
}

} // verus!
