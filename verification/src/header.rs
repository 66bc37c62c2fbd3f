//! The structured commit header, as stored: one `tree` line, one `parent`
//! line per parent in order, then `author` and `committer` lines. The header
//! is rendered once, when the commit is written, and read back verbatim.

use crate::oid::Oid;
use crate::signature::{Signature, SignatureView};
use vstd::prelude::*;

verus! {

/// The bytes of an optional field, or nothing when it is absent.
pub open spec fn opt_or_empty(o: Option<Seq<u8>>) -> Seq<u8> {
    match o {
        Some(b) => b,
        None => Seq::empty(),
    }
}

/// The ASCII bytes of `"tree "`.
pub open spec fn tree_tag() -> Seq<u8> {
    seq![116u8, 114u8, 101u8, 101u8, 32u8]
}

/// The ASCII bytes of `"parent "`.
pub open spec fn parent_tag() -> Seq<u8> {
    seq![112u8, 97u8, 114u8, 101u8, 110u8, 116u8, 32u8]
}

/// The ASCII bytes of `"author "`.
pub open spec fn author_tag() -> Seq<u8> {
    seq![97u8, 117u8, 116u8, 104u8, 111u8, 114u8, 32u8]
}

/// The ASCII bytes of `"committer "`.
pub open spec fn committer_tag() -> Seq<u8> {
    seq![99u8, 111u8, 109u8, 109u8, 105u8, 116u8, 116u8, 101u8, 114u8, 32u8]
}

/// One identifier line: a tag, forty hex digits, a newline.
pub open spec fn spec_oid_line(tag: Seq<u8>, oid: Oid) -> Seq<u8> {
    tag + oid.spec_hex() + seq![10u8]
}

/// One authorship line: a tag, the name, the email in angle brackets,
/// a newline. Absent parts render as nothing.
pub open spec fn spec_sig_line(tag: Seq<u8>, s: SignatureView) -> Seq<u8> {
    tag + opt_or_empty(s.name) + seq![32u8, 60u8] + opt_or_empty(s.email) + seq![62u8, 10u8]
}

/// The `parent` lines, one per parent, in parent order.
pub open spec fn spec_parent_lines(parents: Seq<Oid>) -> Seq<u8>
    decreases parents.len(),
{
    if parents.len() == 0 {
        Seq::empty()
    } else {
        spec_oid_line(parent_tag(), parents[0]) + spec_parent_lines(parents.skip(1))
    }
}

/// The whole header a commit with these fields is stored with.
pub open spec fn spec_header_of(
    tree: Oid,
    parents: Seq<Oid>,
    author: SignatureView,
    committer: SignatureView,
) -> Seq<u8> {
    spec_oid_line(tree_tag(), tree) + spec_parent_lines(parents) + spec_sig_line(
        author_tag(),
        author,
    ) + spec_sig_line(committer_tag(), committer)
}

/// Adding a parent at the end of the list appends exactly its line.
proof fn lemma_parent_lines_push(parents: Seq<Oid>, x: Oid)
    ensures
        spec_parent_lines(parents.push(x)) == spec_parent_lines(parents) + spec_oid_line(
            parent_tag(),
            x,
        ),
    decreases parents.len(),
{
    if parents.len() == 0 {
        assert(parents.push(x)[0] == x);
        assert(parents.push(x).skip(1) =~= Seq::<Oid>::empty());
        assert(spec_parent_lines(parents.push(x)) == spec_oid_line(parent_tag(), x)
            + spec_parent_lines(Seq::<Oid>::empty()));
        assert(spec_parent_lines(Seq::<Oid>::empty()) == Seq::<u8>::empty());
        assert(spec_parent_lines(parents) == Seq::<u8>::empty());
        assert(spec_oid_line(parent_tag(), x) + Seq::<u8>::empty() =~= Seq::<u8>::empty()
            + spec_oid_line(parent_tag(), x));
    } else {
        assert(parents.push(x).skip(1) =~= parents.skip(1).push(x));
        lemma_parent_lines_push(parents.skip(1), x);
        assert(spec_parent_lines(parents.push(x)) =~= spec_parent_lines(parents) + spec_oid_line(
            parent_tag(),
            x,
        ));
    }
}

/// Append a byte slice to `out`.
fn push_bytes(out: &mut Vec<u8>, s: &[u8])
    ensures
        final(out)@ == old(out)@ + s@,
{
    let mut i: usize = 0;
    while i < s.len()
        invariant
            i <= s@.len(),
            out@ == old(out)@ + s@.subrange(0, i as int),
        decreases s@.len() - i,
    {
        out.push(s[i]);
        i += 1;
        assert(out@ =~= old(out)@ + s@.subrange(0, i as int));
    }
    assert(old(out)@ + s@.subrange(0, s@.len() as int) =~= old(out)@ + s@);
}

/// Append the optional bytes of a signature part to `out`.
fn push_opt_bytes(out: &mut Vec<u8>, o: Option<&[u8]>)
    ensures
        final(out)@ == old(out)@ + opt_or_empty(
            match o {
                Some(b) => Some(b@),
                None => None,
            },
        ),
{
    match o {
        Some(b) => push_bytes(out, b),
        None => {
            assert(out@ =~= out@ + Seq::<u8>::empty());
        },
    }
}

/// Append one identifier line to `out`.
fn push_oid_line(out: &mut Vec<u8>, tag: &[u8], oid: Oid)
    ensures
        final(out)@ == old(out)@ + spec_oid_line(tag@, oid),
{
    push_bytes(out, tag);
    oid.write_hex(out);
    out.push(10);
    assert(final(out)@ =~= old(out)@ + spec_oid_line(tag@, oid));
}

/// Append one authorship line to `out`.
fn push_sig_line(out: &mut Vec<u8>, tag: &[u8], s: &Signature)
    ensures
        final(out)@ == old(out)@ + spec_sig_line(tag@, s@),
{
    push_bytes(out, tag);
    push_opt_bytes(out, s.name_bytes());
    out.push(32);
    out.push(60);
    push_opt_bytes(out, s.email_bytes());
    out.push(62);
    out.push(10);
    assert(final(out)@ =~= old(out)@ + spec_sig_line(tag@, s@));
}

/// The tag bytes of one header line kind.
fn tag_bytes(kind: u8) -> (r: Vec<u8>)
    requires
        kind < 4,
    ensures
        kind == 0 ==> r@ == tree_tag(),
        kind == 1 ==> r@ == parent_tag(),
        kind == 2 ==> r@ == author_tag(),
        kind == 3 ==> r@ == committer_tag(),
{
    let mut v: Vec<u8> = Vec::new();
    if kind == 0 {
        v.push(116);
        v.push(114);
        v.push(101);
        v.push(101);
        v.push(32);
        assert(v@ =~= tree_tag());
    } else if kind == 1 {
        v.push(112);
        v.push(97);
        v.push(114);
        v.push(101);
        v.push(110);
        v.push(116);
        v.push(32);
        assert(v@ =~= parent_tag());
    } else if kind == 2 {
        v.push(97);
        v.push(117);
        v.push(116);
        v.push(104);
        v.push(111);
        v.push(114);
        v.push(32);
        assert(v@ =~= author_tag());
    } else {
        v.push(99);
        v.push(111);
        v.push(109);
        v.push(109);
        v.push(105);
        v.push(116);
        v.push(116);
        v.push(101);
        v.push(114);
        v.push(32);
        assert(v@ =~= committer_tag());
    }
    v
}

/// Render the header a commit with these fields is stored with.
pub(crate) fn render_header(
    tree: Oid,
    parents: &Vec<Oid>,
    author: &Signature,
    committer: &Signature,
) -> (r: Vec<u8>)
    ensures
        r@ == spec_header_of(tree, parents@, author@, committer@),
{
    let mut out: Vec<u8> = Vec::new();
    let tree_t = tag_bytes(0);
    push_oid_line(&mut out, tree_t.as_slice(), tree);
    let parent_t = tag_bytes(1);
    let mut i: usize = 0;
    assert(parents@.take(0) =~= Seq::<Oid>::empty());
    assert(out@ =~= spec_oid_line(tree_tag(), tree) + spec_parent_lines(parents@.take(0)));
    while i < parents.len()
        invariant
            i <= parents@.len(),
            parent_t@ == parent_tag(),
            out@ == spec_oid_line(tree_tag(), tree) + spec_parent_lines(parents@.take(i as int)),
        decreases parents@.len() - i,
    {
        push_oid_line(&mut out, parent_t.as_slice(), parents[i]);
        proof {
            lemma_parent_lines_push(parents@.take(i as int), parents@[i as int]);
            assert(parents@.take(i + 1) =~= parents@.take(i as int).push(parents@[i as int]));
        }
        i += 1;
        assert(out@ =~= spec_oid_line(tree_tag(), tree) + spec_parent_lines(
            parents@.take(i as int),
        ));
    }
    assert(parents@.take(parents@.len() as int) =~= parents@);
    let author_t = tag_bytes(2);
    push_sig_line(&mut out, author_t.as_slice(), author);
    let committer_t = tag_bytes(3);
    push_sig_line(&mut out, committer_t.as_slice(), committer);
    assert(out@ =~= spec_header_of(tree, parents@, author@, committer@));
    out
}

} // verus!
