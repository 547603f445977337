//! Big-endian bytes and the order of byte strings.

use vstd::prelude::*;

verus! {

/// Big-endian bytes of the low `width` bytes of a number.
pub open spec fn be_bytes(n: nat, width: nat) -> Seq<u8>
    decreases width,
{
    if width == 0 {
        Seq::empty()
    } else {
        be_bytes(n / 256, (width - 1) as nat).push((n % 256) as u8)
    }
}

/// Number that a big-endian byte string stands for.
pub open spec fn be_value(bytes: Seq<u8>) -> nat
    decreases bytes.len(),
{
    if bytes.len() == 0 {
        0
    } else {
        be_value(bytes.drop_last()) * 256 + bytes.last() as nat
    }
}

/// Two hundred fifty-six to the given power.
pub open spec fn byte_range(width: nat) -> nat
    decreases width,
{
    if width == 0 { 1 } else { byte_range((width - 1) as nat) * 256 }
}

/// One byte string stands before another when compared byte by byte; a string
/// stands before its extensions.
pub open spec fn bytes_less(a: Seq<u8>, b: Seq<u8>) -> bool
    decreases a.len(),
{
    if b.len() == 0 {
        false
    } else if a.len() == 0 {
        true
    } else if a[0] != b[0] {
        a[0] < b[0]
    } else {
        bytes_less(a.drop_first(), b.drop_first())
    }
}

/// The number of big-endian bytes is the asked width.
pub proof fn lemma_be_len(n: nat, width: nat)
    ensures
        be_bytes(n, width).len() == width,
    decreases width,
{
    if width > 0 {
        lemma_be_len(n / 256, (width - 1) as nat);
    }
}

/// Reading big-endian bytes gives back the number that they were written from.
pub proof fn law_be_round_trip(n: nat, width: nat)
    requires
        n < byte_range(width),
    ensures
        be_value(be_bytes(n, width)) == n,
        be_bytes(n, width).len() == width,
    decreases width,
{
    if width > 0 {
        assert(n / 256 < byte_range((width - 1) as nat));
        law_be_round_trip(n / 256, (width - 1) as nat);
        assert(be_bytes(n, width).drop_last() =~= be_bytes(n / 256, (width - 1) as nat));
    }
}

/// Writing the number that some bytes stand for gives back the bytes.
pub proof fn law_be_bytes_of_value(bytes: Seq<u8>)
    ensures
        be_bytes(be_value(bytes), bytes.len()) == bytes,
        be_value(bytes) < byte_range(bytes.len()),
    decreases bytes.len(),
{
    if bytes.len() > 0 {
        let rest = bytes.drop_last();
        law_be_bytes_of_value(rest);
        let n = be_value(bytes);
        assert(n / 256 == be_value(rest) && n % 256 == bytes.last() as nat);
        assert(be_bytes(n, bytes.len()) =~= bytes);
    } else {
        assert(be_bytes(0, 0) =~= bytes);
    }
}

/// Eight bytes hold every 64-bit number and sixteen every 128-bit one.
pub proof fn lemma_byte_ranges()
    ensures
        byte_range(8) == 0x1_0000_0000_0000_0000,
        byte_range(16) == 0x1_0000_0000_0000_0000_0000_0000_0000_0000,
{
    reveal_with_fuel(byte_range, 17);
}

/// Byte strings of one length compare as the numbers that they stand for.
pub proof fn law_be_order(a: Seq<u8>, b: Seq<u8>)
    requires
        a.len() == b.len(),
    ensures
        bytes_less(a, b) <==> be_value(a) < be_value(b),
    decreases a.len(),
{
    if a.len() > 0 {
        lemma_be_split(a);
        lemma_be_split(b);
        let (x, y) = (a.drop_first(), b.drop_first());
        law_be_order(x, y);
        law_be_bytes_of_value(x);
        law_be_bytes_of_value(y);
        let r = byte_range(x.len());
        assert(a[0] < b[0] ==> a[0] as nat * r + r <= b[0] as nat * r) by (nonlinear_arith)
            requires
                r >= 0,
        ;
        assert(b[0] < a[0] ==> b[0] as nat * r + r <= a[0] as nat * r) by (nonlinear_arith)
            requires
                r >= 0,
        ;
    }
}

/// The first byte counts the widest steps.
proof fn lemma_be_split(s: Seq<u8>)
    requires
        s.len() > 0,
    ensures
        be_value(s) == s[0] as nat * byte_range((s.len() - 1) as nat) + be_value(s.drop_first()),
    decreases s.len(),
{
    if s.len() > 1 {
        let front = s.drop_last();
        lemma_be_split(front);
        assert(front.drop_first() =~= s.drop_first().drop_last());
        assert(s.drop_first().last() == s.last());
        let r = byte_range((s.len() - 2) as nat);
        assert(byte_range((s.len() - 1) as nat) == r * 256);
        assert((s[0] as nat * r) * 256 == s[0] as nat * (r * 256)) by (nonlinear_arith);
        assert(front[0] == s[0]);
        assert(be_value(front) == s[0] as nat * r + be_value(front.drop_first()));
        assert(be_value(s.drop_first()) == be_value(front.drop_first()) * 256 + s.last() as nat);
    } else {
        assert(s.drop_last() =~= Seq::<u8>::empty());
        assert(s.drop_first() =~= Seq::<u8>::empty());
        assert(be_value(s.drop_last()) == 0);
        assert(be_value(s.drop_first()) == 0);
        let r = byte_range(0);
        assert(s[0] as nat * r == s[0] as nat) by (nonlinear_arith)
            requires
                r == 1,
        ;
    }
}

/// Comparing bytes after a common prefix ignores the prefix.
pub proof fn lemma_bytes_less_prefix(p: Seq<u8>, a: Seq<u8>, b: Seq<u8>)
    ensures
        bytes_less(p + a, p + b) == bytes_less(a, b),
    decreases p.len(),
{
    if p.len() == 0 {
        assert(p + a =~= a);
        assert(p + b =~= b);
    } else {
        let rest = p.drop_first();
        lemma_bytes_less_prefix(rest, a, b);
        assert((p + a).drop_first() =~= rest + a);
        assert((p + b).drop_first() =~= rest + b);
    }
}

/// Prefixes of one length that differ decide the comparison.
pub proof fn lemma_bytes_less_decided(p: Seq<u8>, q: Seq<u8>, a: Seq<u8>, b: Seq<u8>)
    requires
        p.len() == q.len(),
        p != q,
    ensures
        bytes_less(p + a, q + b) == bytes_less(p, q),
    decreases p.len(),
{
    if p.len() == 0 {
        assert(p =~= q);
    } else if p[0] == q[0] {
        let (x, y) = (p.drop_first(), q.drop_first());
        if x == y {
            assert(p =~= q) by {
                assert forall|i: int| 0 <= i < p.len() implies p[i] == q[i] by {
                    if i > 0 {
                        assert(x[i - 1] == y[i - 1]);
                    }
                }
            }
        }
        lemma_bytes_less_decided(x, y, a, b);
        assert((p + a).drop_first() =~= x + a);
        assert((q + b).drop_first() =~= y + b);
    }
}

/// Byte strings are totally ordered.
pub proof fn lemma_bytes_order(a: Seq<u8>, b: Seq<u8>)
    ensures
        a == b ==> !bytes_less(a, b),
        a != b ==> bytes_less(a, b) || bytes_less(b, a),
        !(bytes_less(a, b) && bytes_less(b, a)),
    decreases a.len(),
{
    if a.len() > 0 && b.len() > 0 {
        let (x, y) = (a.drop_first(), b.drop_first());
        lemma_bytes_order(x, y);
        if a[0] == b[0] && x == y {
            assert(a =~= b) by {
                assert(a.len() == x.len() + 1 && b.len() == y.len() + 1);
                assert forall|i: int| 0 <= i < a.len() implies a[i] == b[i] by {
                    if i > 0 {
                        assert(x[i - 1] == y[i - 1]);
                    }
                }
            }
        }
    } else if a.len() == 0 && b.len() == 0 {
        assert(a =~= b);
    }
}

/// The order of byte strings is transitive.
pub proof fn lemma_bytes_transitive(a: Seq<u8>, b: Seq<u8>, c: Seq<u8>)
    requires
        bytes_less(a, b),
        bytes_less(b, c),
    ensures
        bytes_less(a, c),
    decreases a.len(),
{
    if a.len() > 0 && b.len() > 0 && c.len() > 0 && a[0] == b[0] && b[0] == c[0] {
        lemma_bytes_transitive(a.drop_first(), b.drop_first(), c.drop_first());
    }
}

/// Returns whether one byte string stands before another.
pub fn is_bytes_less(a: &[u8], b: &[u8]) -> (out: bool)
    ensures
        out == bytes_less(a@, b@),
{
    let mut i: usize = 0;
    proof {
        assert(a@.skip(0) =~= a@);
        assert(b@.skip(0) =~= b@);
    }
    while i < a.len() && i < b.len()
        invariant
            i <= a.len(),
            i <= b.len(),
            bytes_less(a@.skip(i as int), b@.skip(i as int)) == bytes_less(a@, b@),
        decreases a.len() - i,
    {
        proof {
            assert(a@.skip(i as int).drop_first() =~= a@.skip(i + 1));
            assert(b@.skip(i as int).drop_first() =~= b@.skip(i + 1));
        }
        if a[i] != b[i] {
            return a[i] < b[i];
        }
        i += 1;
    }
    i < b.len()
}

/// Returns whether two byte strings are the same.
pub fn same_bytes(a: &[u8], b: &[u8]) -> (out: bool)
    ensures
        out == (a@ == b@),
{
    if a.len() != b.len() {
        return false;
    }
    let mut i: usize = 0;
    while i < a.len()
        invariant
            i <= a.len(),
            a@.len() == b@.len(),
            forall|k: int| 0 <= k < i ==> a@[k] == b@[k],
        decreases a.len() - i,
    {
        if a[i] != b[i] {
            return false;
        }
        i += 1;
    }
    proof { assert(a@ =~= b@); }
    true
}

/// Copies a byte string.
pub fn copy_bytes(bytes: &[u8]) -> (out: Vec<u8>)
    ensures
        out@ == bytes@,
{
    let mut out: Vec<u8> = Vec::new();
    append_bytes(&mut out, bytes);
    proof { assert(out@ =~= bytes@); }
    out
}

/// Appends a byte string to another.
pub fn append_bytes(out: &mut Vec<u8>, bytes: &[u8])
    ensures
        final(out)@ == old(out)@ + bytes@,
{
    let ghost start = out@;
    let mut i: usize = 0;
    while i < bytes.len()
        invariant
            i <= bytes.len(),
            out@ == start + bytes@.take(i as int),
        decreases bytes.len() - i,
    {
        out.push(bytes[i]);
        proof { assert(out@ =~= start + bytes@.take(i + 1)); }
        i += 1;
    }
    proof { assert(bytes@.take(bytes@.len() as int) =~= bytes@); }
}

/// Appends the low `width` big-endian bytes of a number.
pub fn push_be(out: &mut Vec<u8>, n: u128, width: usize)
    ensures
        final(out)@ == old(out)@ + be_bytes(n as nat, width as nat),
    decreases width,
{
    if width > 0 {
        push_be(out, n / 256, width - 1);
        out.push((n % 256) as u8);
    }
    proof { assert(out@ =~= old(out)@ + be_bytes(n as nat, width as nat)); }
}

/// Reads a big-endian number of at most sixteen bytes.
pub fn read_be(bytes: &[u8]) -> (out: u128)
    requires
        bytes@.len() <= 16,
    ensures
        out == be_value(bytes@),
{
    let mut out: u128 = 0;
    let mut i: usize = 0;
    proof { assert(be_value(bytes@.take(0)) == 0); }
    while i < bytes.len()
        invariant
            i <= bytes.len() <= 16,
            out == be_value(bytes@.take(i as int)),
        decreases bytes.len() - i,
    {
        proof {
            let next = bytes@.take(i + 1);
            assert(next.drop_last() =~= bytes@.take(i as int));
            assert(next.last() == bytes@[i as int]);
            law_be_bytes_of_value(next);
            lemma_byte_range_monotone(next.len(), 16);
            lemma_byte_ranges();
        }
        out = out * 256 + bytes[i] as u128;
        i += 1;
    }
    proof { assert(bytes@.take(bytes@.len() as int) =~= bytes@); }
    out
}

/// Wider byte strings hold larger numbers.
pub proof fn lemma_byte_range_monotone(low: nat, high: nat)
    requires
        low <= high,
    ensures
        byte_range(low) <= byte_range(high),
    decreases high,
{
    if low < high {
        lemma_byte_range_monotone(low, (high - 1) as nat);
    }
}

} // verus!
