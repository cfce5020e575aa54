//! Numbers as bytes, the least significant byte first.

use vstd::prelude::*;

verus! {

/// How many numbers fit in `width` bytes.
pub open spec fn span(width: nat) -> nat
    decreases width,
{
    if width == 0 {
        1
    } else {
        256 * span((width - 1) as nat)
    }
}

/// The lowest `width` bytes of a number, the least significant first.
pub open spec fn le_bytes(n: nat, width: nat) -> Seq<u8>
    decreases width,
{
    if width == 0 {
        seq![]
    } else {
        seq![(n % 256) as u8] + le_bytes(n / 256, (width - 1) as nat)
    }
}

/// The number that bytes stand for, the least significant first.
pub open spec fn le_value(bytes: Seq<u8>) -> nat
    decreases bytes.len(),
{
    if bytes.len() == 0 {
        0
    } else {
        bytes[0] as nat + 256 * le_value(bytes.skip(1))
    }
}

/// The spans of the widths that the wire formats use.
pub proof fn lemma_spans()
    ensures
        span(2) == 0x1_0000,
        span(4) == 0x1_0000_0000,
        span(8) == 0x1_0000_0000_0000_0000,
{
    reveal_with_fuel(span, 9);
}

/// `le_bytes` has the width that was asked for.
pub proof fn lemma_le_len(n: nat, width: nat)
    ensures
        le_bytes(n, width).len() == width,
    decreases width,
{
    if width > 0 {
        lemma_le_len(n / 256, (width - 1) as nat);
    }
}

/// Bytes stand for a number within their span.
pub proof fn lemma_le_bound(bytes: Seq<u8>)
    ensures
        le_value(bytes) < span(bytes.len()),
    decreases bytes.len(),
{
    if bytes.len() > 0 {
        lemma_le_bound(bytes.skip(1));
    }
}

/// A number that fits is read back from its bytes as it was.
pub proof fn law_le_round_trip(n: nat, width: nat)
    requires
        n < span(width),
    ensures
        le_value(le_bytes(n, width)) == n,
    decreases width,
{
    if width > 0 {
        let w = (width - 1) as nat;
        assert(n / 256 < span(w)) by (nonlinear_arith)
            requires
                n < 256 * span(w),
        ;
        law_le_round_trip(n / 256, w);
        assert(le_bytes(n, width).skip(1) == le_bytes(n / 256, w));
    }
}

/// Bytes are written back as they were read.
pub proof fn law_le_bytes_back(bytes: Seq<u8>)
    ensures
        le_bytes(le_value(bytes), bytes.len()) == bytes,
    decreases bytes.len(),
{
    if bytes.len() > 0 {
        law_le_bytes_back(bytes.skip(1));
        let v = le_value(bytes);
        let rest = le_value(bytes.skip(1));
        assert(v % 256 == bytes[0] as nat && v / 256 == rest) by (nonlinear_arith)
            requires
                v == bytes[0] as nat + 256 * rest,
        ;
        assert(seq![bytes[0]] + bytes.skip(1) == bytes);
    }
}

/// Writes the lowest `width` bytes of a number at the end of a buffer.
pub fn push_le(out: &mut Vec<u8>, n: u64, width: usize)
    ensures
        final(out)@ == old(out)@ + le_bytes(n as nat, width as nat),
    decreases width,
{
    if width > 0 {
        out.push((n % 256) as u8);
        push_le(out, n / 256, width - 1);
    }
    assert(out@ == old(out)@ + le_bytes(n as nat, width as nat));
}

/// The number that at most eight bytes stand for.
pub fn read_le(bytes: &[u8]) -> (n: u64)
    requires
        bytes@.len() <= 8,
    ensures
        n == le_value(bytes@),
{
    let mut n: u64 = 0;
    let mut i: usize = bytes.len();
    assert(bytes@.skip(i as int) == Seq::<u8>::empty());
    while i > 0
        invariant
            i <= bytes@.len() <= 8,
            n == le_value(bytes@.skip(i as int)),
        decreases i,
    {
        i -= 1;
        proof {
            let rest = bytes@.skip(i as int);
            assert(rest.skip(1) == bytes@.skip(i + 1));
            lemma_le_bound(rest);
            lemma_spans();
            lemma_span_grows(rest.len(), 8);
            assert(le_value(rest) == bytes@[i as int] + 256 * n);
        }
        n = bytes[i] as u64 + 256 * n;
    }
    assert(bytes@.skip(0) == bytes@);
    n
}

/// A larger width has a larger span.
proof fn lemma_span_grows(a: nat, b: nat)
    requires
        a <= b,
    ensures
        span(a) <= span(b),
    decreases b,
{
    if a < b {
        lemma_span_grows(a, (b - 1) as nat);
    }
}

/// Each byte of a number is its digit at that place, in base 256, the lowest place first.
pub proof fn law_le_digit(n: nat, width: nat, i: nat)
    requires
        i < width,
    ensures
        le_bytes(n, width).len() == width,
        le_bytes(n, width)[i as int] == (n / span(i)) % 256,
    decreases width,
{
    lemma_le_len(n, width);
    let rest = le_bytes(n / 256, (width - 1) as nat);
    if i > 0 {
        let j = (i - 1) as nat;
        law_le_digit(n / 256, (width - 1) as nat, j);
        assert(le_bytes(n, width)[i as int] == rest[j as int]);
        lemma_span_grows(0, j);
        vstd::arithmetic::div_mod::lemma_div_denominator(n as int, 256, span(j) as int);
    } else {
        assert(span(0) == 1);
        assert(n / 1 == n);
        assert(le_bytes(n, width)[0] == (n % 256) as u8);
    }
}

/// The places of the first bytes.
pub proof fn law_spans()
    ensures
        span(0) == 1,
        span(1) == 0x100,
        span(2) == 0x1_0000,
        span(3) == 0x100_0000,
        span(4) == 0x1_0000_0000,
        forall|i: nat| #[trigger] span(i + 1) == 256 * span(i),
{
    reveal_with_fuel(span, 6);
}

/// Four bytes stand for the number that has them as its digits.
pub proof fn law_four_bytes(bytes: Seq<u8>)
    requires
        bytes.len() == 4,
    ensures
        le_value(bytes) == bytes[0] + 256 * bytes[1] + 65536 * bytes[2] + 16777216 * bytes[3],
{
    reveal_with_fuel(le_value, 6);
    assert(bytes.skip(1).skip(1) == bytes.skip(2));
    assert(bytes.skip(2).skip(1) == bytes.skip(3));
    assert(bytes.skip(3).skip(1).len() == 0);
    assert(le_value(bytes.skip(3)) == bytes[3]);
    assert(le_value(bytes.skip(2)) == bytes[2] + 256 * le_value(bytes.skip(3)));
    assert(le_value(bytes.skip(1)) == bytes[1] + 256 * le_value(bytes.skip(2)));
}

/// Two bytes stand for the number that has them as its digits.
pub proof fn law_two_bytes(bytes: Seq<u8>)
    requires
        bytes.len() == 2,
    ensures
        le_value(bytes) == bytes[0] + 256 * bytes[1],
{
    reveal_with_fuel(le_value, 4);
    assert(bytes.skip(1).skip(1).len() == 0);
    assert(le_value(bytes.skip(1)) == bytes[1]);
}

} // verus!
