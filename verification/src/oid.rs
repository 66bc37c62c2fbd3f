//! Fixed-width object identifiers.
//!
//! An [`Oid`] is the address of one object in the store: a 160-bit value,
//! compared byte-wise, immutable, never recomputed — only compared or used
//! as a store key. Identifiers are assigned by the store when an object is
//! written; they cannot be forged, so two equal identifiers always name the
//! same stored object.

use vstd::prelude::*;

verus! {

/// A 160-bit object identifier, held as three machine words from the most
/// significant to the least. Equality and ordering are those of the words,
/// which agree with byte-wise comparison of the big-endian byte form.
#[derive(Clone, Copy, Debug, Hash, PartialEq, Eq, Structural)]
pub struct Oid {
    word0: u64,
    word1: u64,
    word2: u32,
}

/// The identifier the store assigns to the object written in slot `i`:
/// the slot number in the first word, the rest zero.
pub closed spec fn spec_oid_of_slot(i: int) -> Oid {
    Oid { word0: i as u64, word1: 0, word2: 0 }
}

impl Oid {
    /// The store slot this identifier addresses, if it is one the store's
    /// assignment scheme could have produced.
    pub closed spec fn spec_slot(self) -> Option<int> {
        if self.word1 == 0 && self.word2 == 0 {
            Some(self.word0 as int)
        } else {
            None
        }
    }

    /// Build the identifier of slot `n`.
    pub(crate) fn of_slot(n: usize) -> (r: Oid)
        ensures
            r == spec_oid_of_slot(n as int),
            r.spec_slot() == Some(n as int),
    {
        Oid { word0: n as u64, word1: 0, word2: 0 }
    }

    /// Recover the store slot this identifier addresses, if any fits `usize`.
    pub(crate) fn slot(&self) -> (r: Option<usize>)
        ensures
            match r {
                Some(n) => self.spec_slot() == Some(n as int),
                None => self.spec_slot() matches Some(i) ==> i > usize::MAX,
            },
    {
        if self.word1 == 0 && self.word2 == 0 && self.word0 <= usize::MAX as u64 {
            Some(self.word0 as usize)
        } else {
            None
        }
    }

    /// The 40 lower-case hexadecimal digits of the identifier's 160 bits,
    /// most significant first, as ASCII bytes.
    pub closed spec fn spec_hex(self) -> Seq<u8> {
        hex_digits_le(self.word0 as nat, 16).reverse() + hex_digits_le(
            self.word1 as nat,
            16,
        ).reverse() + hex_digits_le(self.word2 as nat, 8).reverse()
    }

    /// Append the 40 hexadecimal digits of this identifier to `out`.
    pub(crate) fn write_hex(&self, out: &mut Vec<u8>)
        ensures
            final(out)@ == old(out)@ + self.spec_hex(),
    {
        push_hex(self.word0, 16, out);
        push_hex(self.word1, 16, out);
        push_hex(self.word2 as u64, 8, out);
        assert(final(out)@ =~= old(out)@ + self.spec_hex());
    }
}

/// The ASCII byte of one hexadecimal digit, lower case.
pub open spec fn spec_hex_digit(v: u8) -> u8 {
    if v < 10 {
        (48 + v) as u8
    } else {
        (87 + v) as u8
    }
}

/// The low `k` hexadecimal digits of `v`, least significant first.
pub open spec fn hex_digits_le(v: nat, k: nat) -> Seq<u8>
    decreases k,
{
    if k == 0 {
        Seq::empty()
    } else {
        seq![spec_hex_digit((v % 16) as u8)] + hex_digits_le(v / 16, (k - 1) as nat)
    }
}

/// Append the low `k` hexadecimal digits of `v` to `out`, most significant
/// of the `k` first.
fn push_hex(v: u64, k: usize, out: &mut Vec<u8>)
    ensures
        final(out)@ == old(out)@ + hex_digits_le(v as nat, k as nat).reverse(),
{
    let mut tmp: Vec<u8> = Vec::new();
    let mut rest: u64 = v;
    let mut j: usize = 0;
    while j < k
        invariant
            j <= k,
            tmp@.len() == j as int,
            hex_digits_le(v as nat, k as nat) == tmp@ + hex_digits_le(
                rest as nat,
                (k - j) as nat,
            ),
        decreases k - j,
    {
        let d: u8 = (rest % 16) as u8;
        let b: u8 = if d < 10 {
            48 + d
        } else {
            87 + d
        };
        assert(hex_digits_le(rest as nat, (k - j) as nat) == seq![spec_hex_digit(d)]
            + hex_digits_le(rest as nat / 16, (k - j - 1) as nat));
        tmp.push(b);
        rest = rest / 16;
        j += 1;
        assert(hex_digits_le(v as nat, k as nat) =~= tmp@ + hex_digits_le(
            rest as nat,
            (k - j) as nat,
        ));
    }
    assert(tmp@ =~= hex_digits_le(v as nat, k as nat));
    let mut i: usize = tmp.len();
    while i > 0
        invariant
            i <= tmp@.len(),
            out@ == old(out)@ + tmp@.subrange(i as int, tmp@.len() as int).reverse(),
        decreases i,
    {
        i -= 1;
        let b = tmp[i];
        out.push(b);
        assert(tmp@.subrange(i as int, tmp@.len() as int).reverse() =~= tmp@.subrange(
            i + 1,
            tmp@.len() as int,
        ).reverse() + seq![tmp@[i as int]]);
    }
    assert(tmp@.subrange(0, tmp@.len() as int) =~= tmp@);
}

/// A slot's identifier addresses that slot.
pub proof fn lemma_oid_of_slot_slot(i: int)
    requires
        0 <= i <= u64::MAX,
    ensures
        spec_oid_of_slot(i).spec_slot() == Some(i),
{
}

} // verus!
