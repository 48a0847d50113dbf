//! The byte encodings of keys and values.
//!
//! Keys are written with a fixed width and the most significant byte first,
//! so that comparing two encodings byte by byte gives the same answer as
//! comparing the keys. Values are written least significant byte first, with
//! an eight-byte length in front of anything of variable size.
use vstd::prelude::*;

verus! {

/// The `width` low-order base-256 digits of `n`, most significant first.
pub open spec fn be_bytes(n: nat, width: nat) -> Seq<u8>
    decreases width,
{
    if width == 0 {
        Seq::empty()
    } else {
        be_bytes(n / 256, (width - 1) as nat).push((n % 256) as u8)
    }
}

/// The `width` low-order base-256 digits of `n`, least significant first.
pub open spec fn le_bytes(n: nat, width: nat) -> Seq<u8>
    decreases width,
{
    if width == 0 {
        Seq::empty()
    } else {
        seq![(n % 256) as u8] + le_bytes(n / 256, (width - 1) as nat)
    }
}

/// The number that `bytes` spell when read least significant byte first.
pub open spec fn le_value(bytes: Seq<u8>) -> nat
    decreases bytes.len(),
{
    if bytes.len() == 0 {
        0
    } else {
        bytes[0] as nat + 256 * le_value(bytes.skip(1))
    }
}

/// The number that `bytes` spell when read most significant byte first.
pub open spec fn be_value(bytes: Seq<u8>) -> nat
    decreases bytes.len(),
{
    if bytes.len() == 0 {
        0
    } else {
        256 * be_value(bytes.drop_last()) + bytes.last() as nat
    }
}

/// 256 to the power `width`: the number of values that fit in `width` bytes.
pub open spec fn capacity(width: nat) -> nat
    decreases width,
{
    if width == 0 {
        1
    } else {
        256 * capacity((width - 1) as nat)
    }
}

/// Byte-wise lexicographic order, the order in which the engine keeps keys:
/// the first differing byte decides, and a proper prefix comes first.
pub open spec fn lex_lt(a: Seq<u8>, b: Seq<u8>) -> bool
    decreases a.len(),
{
    if b.len() == 0 {
        false
    } else if a.len() == 0 {
        true
    } else if a[0] != b[0] {
        a[0] < b[0]
    } else {
        lex_lt(a.skip(1), b.skip(1))
    }
}

/// `a` comes before `b` or equals it.
pub open spec fn lex_le(a: Seq<u8>, b: Seq<u8>) -> bool {
    a == b || lex_lt(a, b)
}

pub proof fn lemma_be_bytes_len(n: nat, width: nat)
    ensures
        be_bytes(n, width).len() == width,
    decreases width,
{
    if width > 0 {
        lemma_be_bytes_len(n / 256, (width - 1) as nat);
    }
}

pub proof fn lemma_le_bytes_len(n: nat, width: nat)
    ensures
        le_bytes(n, width).len() == width,
    decreases width,
{
    if width > 0 {
        lemma_le_bytes_len(n / 256, (width - 1) as nat);
    }
}

/// Appending one byte to two strings of equal length: the longer strings
/// compare as the shorter ones do, and the new bytes break a tie.
pub proof fn lemma_lex_lt_push(a: Seq<u8>, x: u8, b: Seq<u8>, y: u8)
    requires
        a.len() == b.len(),
    ensures
        lex_lt(a.push(x), b.push(y)) <==> (lex_lt(a, b) || (a == b && x < y)),
    decreases a.len(),
{
    let ax = a.push(x);
    let by = b.push(y);
    if a.len() == 0 {
        assert(a =~= b);
        assert(ax.skip(1).len() == 0);
        assert(by.skip(1).len() == 0);
        assert(ax[0] == x && by[0] == y);
        if x == y {
            assert(!lex_lt(ax.skip(1), by.skip(1)));
        }
    } else {
        assert(ax[0] == a[0] && by[0] == b[0]);
        assert(ax.skip(1) =~= a.skip(1).push(x));
        assert(by.skip(1) =~= b.skip(1).push(y));
        lemma_lex_lt_push(a.skip(1), x, b.skip(1), y);
        if a[0] == b[0] {
            if a.skip(1) == b.skip(1) {
                assert(a =~= seq![a[0]] + a.skip(1));
                assert(b =~= seq![b[0]] + b.skip(1));
            }
            if a == b {
                assert(a.skip(1) == b.skip(1));
            }
        } else {
            assert(a != b);
        }
    }
}

/// Big-endian encodings of one width compare as the numbers do.
pub proof fn lemma_be_bytes_order(n: nat, m: nat, width: nat)
    requires
        n < capacity(width),
        m < capacity(width),
    ensures
        lex_lt(be_bytes(n, width), be_bytes(m, width)) <==> n < m,
        be_bytes(n, width) == be_bytes(m, width) <==> n == m,
    decreases width,
{
    if width == 0 {
    } else {
        let w = (width - 1) as nat;
        lemma_be_bytes_len(n / 256, w);
        lemma_be_bytes_len(m / 256, w);
        assert(n / 256 < capacity(w) && m / 256 < capacity(w)) by {
            assert(capacity(width) == 256 * capacity(w));
        }
        lemma_be_bytes_order(n / 256, m / 256, w);
        let a = be_bytes(n / 256, w);
        let b = be_bytes(m / 256, w);
        let x = (n % 256) as u8;
        let y = (m % 256) as u8;
        lemma_lex_lt_push(a, x, b, y);
        assert(n == 256 * (n / 256) + n % 256);
        assert(m == 256 * (m / 256) + m % 256);
        if a.push(x) == b.push(y) {
            assert(a.push(x).drop_last() =~= a);
            assert(b.push(y).drop_last() =~= b);
            assert(a.push(x).last() == x);
            assert(b.push(y).last() == y);
        }
    }
}

/// A string of `n` bytes spells a number below 256 to the power `n`.
pub proof fn lemma_be_value_bound(bytes: Seq<u8>)
    ensures
        be_value(bytes) < capacity(bytes.len()),
    decreases bytes.len(),
{
    if bytes.len() > 0 {
        lemma_be_value_bound(bytes.drop_last());
    }
}

/// Reading back the big-endian encoding of a number gives the number.
pub proof fn lemma_be_value_of_be_bytes(n: nat, width: nat)
    requires
        n < capacity(width),
    ensures
        be_value(be_bytes(n, width)) == n,
    decreases width,
{
    if width > 0 {
        let w = (width - 1) as nat;
        let hi = be_bytes(n / 256, w);
        let x = (n % 256) as u8;
        lemma_be_value_of_be_bytes(n / 256, w);
        assert(hi.push(x).drop_last() =~= hi);
        assert(hi.push(x).last() == x);
    }
}

/// Encoding the number that a byte string spells gives the string back.
pub proof fn lemma_be_bytes_of_be_value(bytes: Seq<u8>)
    ensures
        be_bytes(be_value(bytes), bytes.len()) == bytes,
    decreases bytes.len(),
{
    if bytes.len() > 0 {
        let hi = bytes.drop_last();
        let n = be_value(bytes);
        lemma_be_bytes_of_be_value(hi);
        assert(n / 256 == be_value(hi));
        assert(n % 256 == bytes.last() as nat);
        assert(hi.push(bytes.last()) =~= bytes);
    } else {
        assert(bytes =~= Seq::empty());
    }
}

/// Four bytes hold the numbers below 2 to the power 32, eight bytes those
/// below 2 to the power 64.
pub proof fn lemma_capacity_of_words()
    ensures
        capacity(4) == 0x1_0000_0000,
        capacity(8) == 0x1_0000_0000_0000_0000,
{
    reveal_with_fuel(capacity, 9);
}

/// A string of `n` bytes spells a number below 256 to the power `n`.
pub proof fn lemma_le_value_bound(bytes: Seq<u8>)
    ensures
        le_value(bytes) < capacity(bytes.len()),
    decreases bytes.len(),
{
    if bytes.len() > 0 {
        lemma_le_value_bound(bytes.skip(1));
    }
}

/// Reading back the little-endian encoding of a number gives the number.
pub proof fn lemma_le_value_of_le_bytes(n: nat, width: nat)
    requires
        n < capacity(width),
    ensures
        le_value(le_bytes(n, width)) == n,
    decreases width,
{
    if width > 0 {
        let w = (width - 1) as nat;
        let x = (n % 256) as u8;
        let rest = le_bytes(n / 256, w);
        lemma_le_value_of_le_bytes(n / 256, w);
        assert((seq![x] + rest).skip(1) =~= rest);
        assert((seq![x] + rest)[0] == x);
    }
}

/// A payload of variable size as it is stored: its length in eight bytes,
/// least significant first, and then the payload.
pub open spec fn framed(payload: Seq<u8>) -> Seq<u8> {
    le_bytes(payload.len(), 8) + payload
}

/// The payload at the front of `bytes`, if `bytes` starts with a length and
/// holds at least that many bytes after it. What follows the payload is
/// ignored.
pub open spec fn unframed(bytes: Seq<u8>) -> Option<Seq<u8>> {
    if bytes.len() >= 8 && 8 + le_value(bytes.subrange(0, 8)) <= bytes.len() {
        Some(bytes.subrange(8, 8 + le_value(bytes.subrange(0, 8)) as int))
    } else {
        None
    }
}

/// The stored form is eight bytes longer than the payload.
pub proof fn lemma_framed_len(payload: Seq<u8>)
    ensures
        framed(payload).len() == 8 + payload.len(),
{
    lemma_le_bytes_len(payload.len(), 8);
}

/// Taking the payload out of its stored form gives it back.
pub proof fn lemma_unframed_of_framed(payload: Seq<u8>)
    requires
        payload.len() < 0x1_0000_0000_0000_0000,
    ensures
        unframed(framed(payload)) == Some(payload),
{
    let n = payload.len();
    let head = le_bytes(n, 8);
    lemma_capacity_of_words();
    lemma_le_bytes_len(n, 8);
    lemma_le_value_of_le_bytes(n, 8);
    assert(framed(payload).subrange(0, 8) =~= head);
    assert(framed(payload).subrange(8, 8 + n as int) =~= payload);
}

} // verus!
