//! Byte-level helpers shared by the other modules.

use vstd::prelude::*;

verus! {

/// The big-endian encoding of a 32-bit number.
pub open spec fn be32(x: u32) -> Seq<u8> {
    seq![
        (x / 0x100_0000) as u8,
        (x / 0x1_0000 % 256) as u8,
        (x / 0x100 % 256) as u8,
        (x % 256) as u8,
    ]
}

/// The big-endian encoding of a 64-bit number.
pub open spec fn be64(x: u64) -> Seq<u8> {
    be32((x / 0x1_0000_0000) as u32) + be32((x % 0x1_0000_0000) as u32)
}

/// Two 32-bit numbers with the same encoding are the same number.
pub proof fn lemma_be32_injective(a: u32, b: u32)
    requires
        be32(a) == be32(b),
    ensures
        a == b,
{
    assert(be32(a)[0] == be32(b)[0]);
    assert(be32(a)[1] == be32(b)[1]);
    assert(be32(a)[2] == be32(b)[2]);
    assert(be32(a)[3] == be32(b)[3]);
}

/// Two 64-bit numbers with the same encoding are the same number.
pub proof fn lemma_be64_injective(a: u64, b: u64)
    requires
        be64(a) == be64(b),
    ensures
        a == b,
{
    let all = be64(a);
    assert(all.subrange(0, 4) =~= be32((a / 0x1_0000_0000) as u32));
    assert(all.subrange(0, 4) =~= be32((b / 0x1_0000_0000) as u32));
    assert(all.subrange(4, 8) =~= be32((a % 0x1_0000_0000) as u32));
    assert(all.subrange(4, 8) =~= be32((b % 0x1_0000_0000) as u32));
    lemma_be32_injective((a / 0x1_0000_0000) as u32, (b / 0x1_0000_0000) as u32);
    lemma_be32_injective((a % 0x1_0000_0000) as u32, (b % 0x1_0000_0000) as u32);
}

/// Appends the big-endian encoding of `x` to `out`.
pub fn push_be32(out: &mut Vec<u8>, x: u32)
    ensures
        final(out)@ == old(out)@ + be32(x),
{
    out.push((x / 0x100_0000) as u8);
    out.push((x / 0x1_0000 % 256) as u8);
    out.push((x / 0x100 % 256) as u8);
    out.push((x % 256) as u8);
}

/// Appends the big-endian encoding of `x` to `out`.
pub fn push_be64(out: &mut Vec<u8>, x: u64)
    ensures
        final(out)@ == old(out)@ + be64(x),
{
    push_be32(out, (x / 0x1_0000_0000) as u32);
    push_be32(out, (x % 0x1_0000_0000) as u32);
}

/// Appends `bytes` to `out`.
pub fn push_all(out: &mut Vec<u8>, bytes: &[u8])
    ensures
        final(out)@ == old(out)@ + bytes@,
{
    out.extend_from_slice(bytes);
}

/// Whether two byte strings are equal.
pub fn same_bytes(a: &[u8], b: &[u8]) -> (same: bool)
    ensures
        same == (a@ == b@),
{
    if a.len() != b.len() {
        return false;
    }
    let mut i: usize = 0;
    while i < a.len()
        invariant
            i <= a.len(),
            a.len() == b.len(),
            forall|j: int| 0 <= j < i ==> a@[j] == b@[j],
        decreases a.len() - i,
    {
        if a[i] != b[i] {
            return false;
        }
        i += 1;
    }
    assert(a@ =~= b@);
    true
}

/// Lexicographic order of byte strings: a proper prefix comes first.
pub open spec fn lex_le(a: Seq<u8>, b: Seq<u8>) -> bool
    decreases a.len(),
{
    if a.len() == 0 {
        true
    } else if b.len() == 0 {
        false
    } else if a[0] != b[0] {
        a[0] < b[0]
    } else {
        lex_le(a.drop_first(), b.drop_first())
    }
}

/// Of two byte strings one comes first, and if each comes first they are equal.
pub proof fn lemma_lex_total(a: Seq<u8>, b: Seq<u8>)
    ensures
        lex_le(a, b) || lex_le(b, a),
        lex_le(a, b) && lex_le(b, a) ==> a == b,
    decreases a.len(),
{
    if a.len() > 0 && b.len() > 0 && a[0] == b[0] {
        lemma_lex_total(a.drop_first(), b.drop_first());
        if a.drop_first() == b.drop_first() {
            assert(a =~= seq![a[0]] + a.drop_first());
            assert(b =~= seq![b[0]] + b.drop_first());
        }
    } else if a.len() == 0 && b.len() == 0 {
        assert(a =~= b);
    }
}

proof fn lemma_lex_skip(a: Seq<u8>, b: Seq<u8>, n: int)
    requires
        0 <= n <= a.len(),
        n <= b.len(),
        forall|j: int| 0 <= j < n ==> a[j] == b[j],
    ensures
        lex_le(a, b) == lex_le(a.skip(n), b.skip(n)),
    decreases n,
{
    if n == 0 {
        assert(a.skip(0) =~= a);
        assert(b.skip(0) =~= b);
    } else {
        assert(a[0] == b[0]);
        lemma_lex_skip(a.drop_first(), b.drop_first(), n - 1);
        assert(a.drop_first().skip(n - 1) =~= a.skip(n));
        assert(b.drop_first().skip(n - 1) =~= b.skip(n));
    }
}

/// Lexicographic order is transitive.
pub proof fn lemma_lex_transitive(a: Seq<u8>, b: Seq<u8>, c: Seq<u8>)
    requires
        lex_le(a, b),
        lex_le(b, c),
    ensures
        lex_le(a, c),
    decreases a.len(),
{
    if a.len() > 0 && a[0] == b[0] && b[0] == c[0] {
        lemma_lex_transitive(a.drop_first(), b.drop_first(), c.drop_first());
    }
}

/// Whether `a` comes before `b` in lexicographic order, or is equal to it.
pub fn comes_first(a: &[u8], b: &[u8]) -> (first: bool)
    ensures
        first == lex_le(a@, b@),
{
    let mut i: usize = 0;
    while i < a.len() && i < b.len()
        invariant
            i <= a@.len(),
            i <= b@.len(),
            forall|j: int| 0 <= j < i ==> a@[j] == b@[j],
        decreases a@.len() - i,
    {
        if a[i] != b[i] {
            proof {
                lemma_lex_skip(a@, b@, i as int);
            }
            return a[i] < b[i];
        }
        i += 1;
    }
    proof {
        lemma_lex_skip(a@, b@, i as int);
    }
    i == a.len()
}

/// The 32 bytes of `bytes` that start at `from`.
pub fn array32_at(bytes: &[u8], from: usize) -> (out: [u8; 32])
    requires
        from + 32 <= bytes@.len(),
    ensures
        out@ == bytes@.subrange(from as int, from + 32),
{
    let mut out: [u8; 32] = [0u8; 32];
    let mut i: usize = 0;
    while i < 32
        invariant
            i <= 32,
            from + 32 <= bytes.len(),
            forall|j: int| 0 <= j < i ==> out@[j] == bytes@[from + j],
        decreases 32 - i,
    {
        out[i] = bytes[from + i];
        i += 1;
    }
    assert(out@ =~= bytes@.subrange(from as int, from + 32));
    out
}

/// `bytes` as an array, if it holds exactly 32 bytes.
pub fn exact32(bytes: &[u8]) -> (out: Option<[u8; 32]>)
    ensures
        out is Some <==> bytes@.len() == 32,
        out matches Some(array) ==> array@ == bytes@,
{
    if bytes.len() == 32 {
        let array = array32_at(bytes, 0);
        assert(bytes@.subrange(0, 32) =~= bytes@);
        Some(array)
    } else {
        None
    }
}

/// `bytes` as an array, if it holds exactly 64 bytes.
pub fn exact64(bytes: &[u8]) -> (out: Option<[u8; 64]>)
    ensures
        out is Some <==> bytes@.len() == 64,
        out matches Some(array) ==> array@ == bytes@,
{
    if bytes.len() != 64 {
        return None;
    }
    let mut out: [u8; 64] = [0u8; 64];
    let mut i: usize = 0;
    while i < 64
        invariant
            i <= 64,
            bytes@.len() == 64,
            forall|j: int| 0 <= j < i ==> out@[j] == bytes@[j],
        decreases 64 - i,
    {
        out[i] = bytes[i];
        i += 1;
    }
    assert(out@ =~= bytes@);
    Some(out)
}

/// The four bytes of a number, the highest first, add up to it.
pub proof fn law_be32_adds_up(x: u32)
    ensures
        be32(x).len() == 4,
        be32(x)[0] * 0x100_0000 + be32(x)[1] * 0x1_0000 + be32(x)[2] * 0x100 + be32(x)[3] == x,
{
}

/// The eight bytes of a number, the highest first, add up to it.
pub proof fn law_be64_adds_up(x: u64)
    ensures
        be64(x).len() == 8,
        be64(x)[0] * 0x100_0000_0000_0000 + be64(x)[1] * 0x1_0000_0000_0000 + be64(x)[2]
            * 0x100_0000_0000 + be64(x)[3] * 0x1_0000_0000 + be64(x)[4] * 0x100_0000 + be64(x)[5]
            * 0x1_0000 + be64(x)[6] * 0x100 + be64(x)[7] == x,
{
    law_be32_adds_up((x / 0x1_0000_0000) as u32);
    law_be32_adds_up((x % 0x1_0000_0000) as u32);
}

/// Of two byte strings the one with the smaller byte where they first differ
/// comes first.
pub proof fn law_first_difference_decides(a: Seq<u8>, b: Seq<u8>, at: int)
    requires
        0 <= at < a.len(),
        at < b.len(),
        forall|j: int| 0 <= j < at ==> a[j] == b[j],
        a[at] != b[at],
    ensures
        lex_le(a, b) <==> a[at] < b[at],
{
    lemma_lex_skip(a, b, at);
}

/// A byte string that another begins with comes before it.
pub proof fn law_prefix_comes_first(a: Seq<u8>, rest: Seq<u8>)
    ensures
        lex_le(a, a + rest),
        rest.len() > 0 ==> !lex_le(a + rest, a),
{
    lemma_lex_skip(a, a + rest, a.len() as int);
    lemma_lex_skip(a + rest, a, a.len() as int);
    assert((a + rest).skip(a.len() as int) =~= rest);
}

} // verus!
