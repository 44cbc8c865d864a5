//! Little-endian integers on the wire.
//!
//! A value of `width` bytes is written least significant byte first. The
//! model is arithmetic: byte `i` of `v` is `(v / 256^i) % 256`.

use vstd::prelude::*;

verus! {

/// The `width` low bytes of `v`, least significant first.
pub open spec fn le_bytes(v: nat, width: nat) -> Seq<u8>
    decreases width,
{
    if width == 0 {
        Seq::empty()
    } else {
        seq![(v % 256) as u8] + le_bytes(v / 256, (width - 1) as nat)
    }
}

/// The number that `bytes` spell, least significant byte first.
pub open spec fn le_value(bytes: Seq<u8>) -> nat
    decreases bytes.len(),
{
    if bytes.len() == 0 {
        0
    } else {
        bytes[0] as nat + 256 * le_value(bytes.skip(1))
    }
}

/// `256^width`: one more than the largest value that `width` bytes hold.
pub open spec fn le_bound(width: nat) -> nat
    decreases width,
{
    if width == 0 {
        1
    } else {
        256 * le_bound((width - 1) as nat)
    }
}

pub proof fn lemma_le_bytes_len(v: nat, width: nat)
    ensures
        le_bytes(v, width).len() == width,
    decreases width,
{
    if width > 0 {
        lemma_le_bytes_len(v / 256, (width - 1) as nat);
    }
}

/// Reading back what was written gives the value, when it fits the width.
pub proof fn lemma_le_value_of_bytes(v: nat, width: nat)
    requires
        v < le_bound(width),
    ensures
        le_value(le_bytes(v, width)) == v,
    decreases width,
{
    if width > 0 {
        let rest = le_bytes(v / 256, (width - 1) as nat);
        let all = le_bytes(v, width);
        lemma_le_bytes_len(v / 256, (width - 1) as nat);
        assert(all.skip(1) =~= rest);
        assert(v / 256 < le_bound((width - 1) as nat)) by (nonlinear_arith)
            requires
                v < 256 * le_bound((width - 1) as nat),
        ;
        lemma_le_value_of_bytes(v / 256, (width - 1) as nat);
        assert(v == v % 256 + 256 * (v / 256)) by (nonlinear_arith);
    }
}

/// What a sequence of bytes spells fits its width.
pub proof fn lemma_le_value_bound(bytes: Seq<u8>)
    ensures
        le_value(bytes) < le_bound(bytes.len()),
    decreases bytes.len(),
{
    if bytes.len() > 0 {
        lemma_le_value_bound(bytes.skip(1));
    }
}

/// Writing what was read gives the bytes back.
pub proof fn lemma_le_bytes_of_value(bytes: Seq<u8>)
    ensures
        le_bytes(le_value(bytes), bytes.len()) == bytes,
    decreases bytes.len(),
{
    if bytes.len() > 0 {
        let tail = bytes.skip(1);
        let v = le_value(bytes);
        lemma_le_bytes_of_value(tail);
        assert(v % 256 == bytes[0] as nat && v / 256 == le_value(tail)) by (nonlinear_arith)
            requires
                v == bytes[0] as nat + 256 * le_value(tail),
                (bytes[0] as nat) < 256,
        ;
        assert(le_bytes(v, bytes.len()) =~= bytes);
    } else {
        assert(le_bytes(le_value(bytes), bytes.len()) =~= bytes);
    }
}

/// Appends the four bytes of `v` to `buf`.
pub fn put_u32(buf: &mut Vec<u8>, v: u32)
    ensures
        final(buf)@ == old(buf)@ + le_bytes(v as nat, 4),
{
    let b0: u8 = (v % 256) as u8;
    let b1: u8 = ((v / 0x100) % 256) as u8;
    let b2: u8 = ((v / 0x1_0000) % 256) as u8;
    let b3: u8 = ((v / 0x100_0000) % 256) as u8;
    buf.push(b0);
    buf.push(b1);
    buf.push(b2);
    buf.push(b3);
    proof {
        reveal_with_fuel(le_bytes, 5);
        assert(le_bytes(v as nat, 4) =~= seq![b0, b1, b2, b3]);
        assert(buf@ =~= old(buf)@ + seq![b0, b1, b2, b3]);
    }
}

/// Appends the eight bytes of `v` to `buf`.
pub fn put_u64(buf: &mut Vec<u8>, v: u64)
    ensures
        final(buf)@ == old(buf)@ + le_bytes(v as nat, 8),
{
    let low: u32 = (v % 0x1_0000_0000) as u32;
    let high: u32 = (v / 0x1_0000_0000) as u32;
    put_u32(buf, low);
    put_u32(buf, high);
    proof {
        reveal_with_fuel(le_bound, 5);
        assert(le_bound(4) == 0x1_0000_0000);
        lemma_le_bytes_split(v as nat, 4, 4);
        assert(le_bytes(low as nat, 4) == le_bytes(v as nat, 4)) by {
            lemma_le_bytes_low(v as nat, 4);
        }
        assert(buf@ =~= old(buf)@ + (le_bytes(low as nat, 4) + le_bytes(high as nat, 4)));
    }
}

/// The four bytes of `bytes` from `at` on, read as a number.
pub fn get_u32(bytes: &[u8], at: usize) -> (v: u32)
    requires
        at + 4 <= bytes@.len(),
    ensures
        v as nat == le_value(bytes@.subrange(at as int, at + 4)),
{
    let b0: u32 = bytes[at] as u32;
    let b1: u32 = bytes[at + 1] as u32;
    let b2: u32 = bytes[at + 2] as u32;
    let b3: u32 = bytes[at + 3] as u32;
    proof {
        let field = bytes@.subrange(at as int, at + 4);
        reveal_with_fuel(le_value, 5);
        assert(field.skip(1).skip(1) =~= field.skip(2));
        assert(field.skip(1).skip(1).skip(1) =~= field.skip(3));
        assert(field.skip(1).skip(1).skip(1).skip(1) =~= field.skip(4));
        assert(le_value(field) == b0 + 256 * (b1 + 256 * (b2 + 256 * b3)));
    }
    b0 + b1 * 0x100 + b2 * 0x1_0000 + b3 * 0x100_0000
}

/// The eight bytes of `bytes` from `at` on, read as a number.
pub fn get_u64(bytes: &[u8], at: usize) -> (v: u64)
    requires
        at + 8 <= bytes@.len(),
    ensures
        v as nat == le_value(bytes@.subrange(at as int, at + 8)),
{
    assert(bytes@.len() == vstd::slice::spec_slice_len(bytes));
    let low: u64 = get_u32(bytes, at) as u64;
    let high: u64 = get_u32(bytes, at + 4) as u64;
    proof {
        let field = bytes@.subrange(at as int, at + 8);
        lemma_le_value_split(field, 4);
        assert(field.take(4) =~= bytes@.subrange(at as int, at + 4));
        assert(field.skip(4) =~= bytes@.subrange(at + 4, at + 8));
        reveal_with_fuel(le_bound, 5);
        assert(le_bound(4) == 0x1_0000_0000);
    }
    low + high * 0x1_0000_0000
}

/// The low `width` bytes of `v` are those of `v % 256^width`.
pub proof fn lemma_le_bytes_low(v: nat, width: nat)
    ensures
        le_bytes(v % le_bound(width), width) == le_bytes(v, width),
    decreases width,
{
    if width > 0 {
        let b = le_bound((width - 1) as nat);
        lemma_le_bound_positive((width - 1) as nat);
        lemma_le_bytes_low(v / 256, (width - 1) as nat);
        assert((v % (256 * b)) % 256 == v % 256 && (v % (256 * b)) / 256 == (v / 256) % b) by {
            vstd::arithmetic::div_mod::lemma_breakdown(v as int, 256, b as int);
            vstd::arithmetic::div_mod::lemma_fundamental_div_mod_converse(
                (v % (256 * b)) as int,
                256,
                ((v / 256) % b) as int,
                (v % 256) as int,
            );
        }
    }
}

pub proof fn lemma_le_bound_positive(width: nat)
    ensures
        le_bound(width) > 0,
    decreases width,
{
    if width > 0 {
        lemma_le_bound_positive((width - 1) as nat);
    }
}

/// Writing `low + high` bytes is writing the low part, then the high part.
pub proof fn lemma_le_bytes_split(v: nat, low: nat, high: nat)
    ensures
        le_bytes(v, low + high) == le_bytes(v, low) + le_bytes(v / le_bound(low), high),
    decreases low,
{
    if low == 0 {
        assert(le_bound(0) == 1);
        assert(v / 1 == v);
        assert(low + high == high);
        assert(le_bytes(v, low) =~= Seq::empty());
        assert(le_bytes(v, high) =~= Seq::empty() + le_bytes(v, high));
    } else {
        let b = le_bound((low - 1) as nat);
        lemma_le_bound_positive((low - 1) as nat);
        lemma_le_bytes_split(v / 256, (low - 1) as nat, high);
        assert((v / 256) / b == v / (256 * b)) by {
            vstd::arithmetic::div_mod::lemma_div_denominator(v as int, 256, b as int);
        }
        assert(((low + high) - 1) as nat == (low - 1) as nat + high);
        assert(le_bytes(v, low + high) == seq![(v % 256) as u8] + le_bytes(
            v / 256,
            (low - 1) as nat + high,
        ));
        assert(le_bytes(v, low + high) =~= le_bytes(v, low) + le_bytes(v / le_bound(low), high));
    }
}

/// Reading a sequence is reading its first `n` bytes, then the rest above them.
pub proof fn lemma_le_value_split(bytes: Seq<u8>, n: nat)
    requires
        n <= bytes.len(),
    ensures
        le_value(bytes) == le_value(bytes.take(n as int)) + le_bound(n) * le_value(
            bytes.skip(n as int),
        ),
    decreases n,
{
    if n == 0 {
        assert(bytes.skip(0) =~= bytes);
        assert(bytes.take(0).len() == 0);
        assert(le_value(bytes.take(0)) == 0);
        assert(le_bound(0) == 1);
        assert(1 * le_value(bytes) == le_value(bytes));
    } else {
        let tail = bytes.skip(1);
        lemma_le_value_split(tail, (n - 1) as nat);
        assert(tail.take(n - 1) =~= bytes.take(n as int).skip(1));
        assert(tail.skip(n - 1) =~= bytes.skip(n as int));
        assert(bytes.take(n as int)[0] == bytes[0]);
        let a = le_value(tail.take(n - 1));
        let b = le_bound((n - 1) as nat);
        let c = le_value(bytes.skip(n as int));
        assert(256 * (a + b * c) == 256 * a + (256 * b) * c) by (nonlinear_arith);
        assert(le_value(tail) == a + b * c);
        assert(le_value(bytes) == bytes[0] as nat + 256 * le_value(tail));
        assert(bytes.take(n as int).len() == n);
        assert(le_value(bytes.take(n as int)) == bytes[0] as nat + 256 * a);
        assert(le_bound(n) == 256 * b);
    }
}

} // verus!
