//! The byte-level text rules a commit message obeys: prettification (leading
//! blank lines stripped) and the derived summary (first paragraph, whitespace
//! trimmed and squashed). Everything else about message content is opaque
//! pass-through.

use vstd::prelude::*;
use vstd::slice::slice_subrange;

verus! {

/// Whether a byte is ASCII whitespace.
pub open spec fn is_space(b: u8) -> bool {
    b == 32 || b == 9 || b == 10 || b == 11 || b == 12 || b == 13
}

/// The prettified form of a message: the bytes with every leading newline
/// removed.
pub open spec fn spec_pretty(s: Seq<u8>) -> Seq<u8>
    decreases s.len(),
{
    if s.len() > 0 && s[0] == 10 {
        spec_pretty(s.skip(1))
    } else {
        s
    }
}

/// How many bytes of `s` belong to its first paragraph: everything before
/// the first empty line (two consecutive newlines).
pub open spec fn spec_paragraph_len(s: Seq<u8>) -> int
    decreases s.len(),
{
    if s.len() < 2 {
        s.len() as int
    } else if s[0] == 10 && s[1] == 10 {
        0
    } else {
        1 + spec_paragraph_len(s.skip(1))
    }
}

/// `s` with every run of whitespace squashed to a single space and leading
/// and trailing whitespace trimmed. `started` records whether a word byte
/// was already emitted; `pending` records whether whitespace was seen since.
pub open spec fn spec_squash(s: Seq<u8>, started: bool, pending: bool) -> Seq<u8>
    decreases s.len(),
{
    if s.len() == 0 {
        Seq::empty()
    } else if is_space(s[0]) {
        spec_squash(s.skip(1), started, true)
    } else if started && pending {
        seq![32u8, s[0]] + spec_squash(s.skip(1), true, false)
    } else {
        seq![s[0]] + spec_squash(s.skip(1), true, false)
    }
}

/// The summary of a message: the first paragraph of its prettified form,
/// whitespace trimmed and squashed.
pub open spec fn spec_summary(msg: Seq<u8>) -> Seq<u8> {
    let p = spec_pretty(msg);
    spec_squash(p.take(spec_paragraph_len(p)), false, false)
}

/// Strip the leading newlines off a message.
pub(crate) fn prettify(msg: &[u8]) -> (r: &[u8])
    ensures
        r@ == spec_pretty(msg@),
{
    let mut i: usize = 0;
    assert(msg@.skip(0) =~= msg@);
    while i < msg.len() && msg[i] == 10
        invariant
            i <= msg@.len(),
            spec_pretty(msg@) == spec_pretty(msg@.skip(i as int)),
        decreases msg@.len() - i,
    {
        assert(msg@.skip(i as int)[0] == msg@[i as int]);
        assert(msg@.skip(i as int).skip(1) =~= msg@.skip(i + 1));
        i += 1;
    }
    assert(spec_pretty(msg@.skip(i as int)) == msg@.skip(i as int));
    slice_subrange(msg, i, msg.len())
}

/// Where the first paragraph of `s` ends.
fn paragraph_end(s: &[u8]) -> (r: usize)
    ensures
        r as int == spec_paragraph_len(s@),
        r <= s@.len(),
{
    let n = s.len();
    let mut i: usize = 0;
    assert(s@.skip(0) =~= s@);
    loop
        invariant
            i <= n,
            n == s@.len(),
            spec_paragraph_len(s@) == i + spec_paragraph_len(s@.skip(i as int)),
        decreases n - i,
    {
        if n - i < 2 {
            assert(spec_paragraph_len(s@.skip(i as int)) == s@.len() - i);
            return n;
        }
        assert(s@.skip(i as int)[0] == s@[i as int]);
        assert(s@.skip(i as int)[1] == s@[i + 1]);
        if s[i] == 10 && s[i + 1] == 10 {
            assert(spec_paragraph_len(s@.skip(i as int)) == 0);
            return i;
        }
        assert(s@.skip(i as int).skip(1) =~= s@.skip(i + 1));
        i += 1;
    }
}

/// Squash every whitespace run in `s` to one space and trim both ends.
fn squash(s: &[u8]) -> (r: Vec<u8>)
    ensures
        r@ == spec_squash(s@, false, false),
{
    let mut out: Vec<u8> = Vec::new();
    let mut started = false;
    let mut pending = false;
    let mut i: usize = 0;
    assert(s@.skip(0) =~= s@);
    while i < s.len()
        invariant
            i <= s@.len(),
            spec_squash(s@, false, false) == out@ + spec_squash(
                s@.skip(i as int),
                started,
                pending,
            ),
        decreases s@.len() - i,
    {
        assert(s@.skip(i as int)[0] == s@[i as int]);
        assert(s@.skip(i as int).skip(1) =~= s@.skip(i + 1));
        let b = s[i];
        if b == 32 || b == 9 || (10 <= b && b <= 13) {
            pending = true;
        } else {
            if started && pending {
                out.push(32);
            }
            out.push(b);
            started = true;
            pending = false;
        }
        i += 1;
        assert(spec_squash(s@, false, false) =~= out@ + spec_squash(
            s@.skip(i as int),
            started,
            pending,
        ));
    }
    assert(out@ =~= spec_squash(s@, false, false));
    out
}

/// The summary of a raw message: prettify, cut at the first empty line,
/// then squash the whitespace.
pub(crate) fn summary_of(msg: &[u8]) -> (r: Vec<u8>)
    ensures
        r@ == spec_summary(msg@),
{
    let p = prettify(msg);
    let e = paragraph_end(p);
    let first = slice_subrange(p, 0, e);
    assert(first@ =~= spec_pretty(msg@).take(spec_paragraph_len(spec_pretty(msg@))));
    squash(first)
}

} // verus!
