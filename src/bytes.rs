use vstd::prelude::*;

verus! {

/// `256` raised to the power `n`.
pub open spec fn pow256(n: nat) -> nat
    decreases n,
{
    if n == 0 {
        1
    } else {
        256 * pow256((n - 1) as nat)
    }
}

/// The unsigned integer whose little-endian bytes are `s`.
pub open spec fn le_nat(s: Seq<u8>) -> nat
    decreases s.len(),
{
    if s.len() == 0 {
        0
    } else {
        s[0] as nat + 256 * le_nat(s.drop_first())
    }
}

/// The `n` little-endian bytes of `v` (the low `n` bytes where `v` is larger).
pub open spec fn le_bytes(v: nat, n: nat) -> Seq<u8>
    decreases n,
{
    if n == 0 {
        Seq::empty()
    } else {
        seq![(v % 256) as u8] + le_bytes(v / 256, (n - 1) as nat)
    }
}

pub proof fn lemma_le_bytes_len(v: nat, n: nat)
    ensures
        le_bytes(v, n).len() == n,
    decreases n,
{
    if n > 0 {
        lemma_le_bytes_len(v / 256, (n - 1) as nat);
    }
}

/// Decoding the little-endian bytes of a value that fits gives the value back.
pub proof fn lemma_le_nat_of_bytes(v: nat, n: nat)
    requires
        v < pow256(n),
    ensures
        le_nat(le_bytes(v, n)) == v,
    decreases n,
{
    if n > 0 {
        let q = v / 256;
        assert(q < pow256((n - 1) as nat)) by (nonlinear_arith)
            requires
                v < 256 * pow256((n - 1) as nat),
                q == v / 256,
        ;
        lemma_le_nat_of_bytes(q, (n - 1) as nat);
        let s = le_bytes(v, n);
        assert(s.drop_first() =~= le_bytes(q, (n - 1) as nat));
        assert(v == (v % 256) + 256 * q) by (nonlinear_arith)
            requires
                q == v / 256,
        ;
    }
}

/// Encoding a decoded byte sequence gives the same bytes back.
pub proof fn lemma_le_bytes_of_nat(s: Seq<u8>)
    ensures
        le_bytes(le_nat(s), s.len()) == s,
    decreases s.len(),
{
    if s.len() > 0 {
        let t = s.drop_first();
        lemma_le_bytes_of_nat(t);
        let v = le_nat(s);
        let a = s[0] as nat;
        let b = le_nat(t);
        assert(v % 256 == a && v / 256 == b) by (nonlinear_arith)
            requires
                v == a + 256 * b,
                a < 256,
        ;
        assert(le_bytes(v, s.len()) =~= s);
    }
}

/// Two values that fit in `n` bytes with the same encoding are equal.
pub proof fn lemma_le_bytes_injective(a: nat, b: nat, n: nat)
    requires
        a < pow256(n),
        b < pow256(n),
        le_bytes(a, n) == le_bytes(b, n),
    ensures
        a == b,
{
    lemma_le_nat_of_bytes(a, n);
    lemma_le_nat_of_bytes(b, n);
}

pub proof fn lemma_pow256_facts()
    ensures
        pow256(1) == 0x100,
        pow256(8) == 0x1_0000_0000_0000_0000,
        pow256(16) == 0x1_0000_0000_0000_0000_0000_0000_0000_0000,
{
    reveal_with_fuel(pow256, 17);
}

/// Reads the little-endian `u64` stored at `s[off..off + 8]`.
pub fn read_u64_le(s: &[u8], off: usize) -> (r: u64)
    requires
        off + 8 <= s@.len(),
    ensures
        r as nat == le_nat(s@.subrange(off as int, off + 8)),
        le_bytes(r as nat, 8) == s@.subrange(off as int, off + 8),
{
    proof {
        lemma_pow256_facts();
    }
    let n: usize = s.len();
    let mut acc: u64 = 0;
    let mut i: usize = 8;
    while i > 0
        invariant
            n == s@.len(),
            off + 8 <= s@.len(),
            i <= 8,
            acc as nat == le_nat(s@.subrange(off + i, off + 8)),
            acc < pow256((8 - i) as nat),
            pow256(8) == 0x1_0000_0000_0000_0000,
        decreases i,
    {
        let b = s[off + i - 1];
        proof {
            let t = s@.subrange(off + i - 1, off + 8);
            assert(t.drop_first() =~= s@.subrange(off + i, off + 8));
            let k = (8 - i) as nat;
            assert(pow256(k + 1) == 256 * pow256(k));
            assert(pow256(k + 1) <= pow256(8)) by {
                lemma_pow256_mono(k + 1, 8);
            }
            let a = acc as nat;
            assert(b as nat + 256 * a < 256 * pow256(k)) by (nonlinear_arith)
                requires
                    a < pow256(k),
                    b < 256,
            ;
        }
        acc = (b as u64) + 256 * acc;
        i = i - 1;
    }
    proof {
        lemma_le_bytes_of_nat(s@.subrange(off as int, off + 8));
    }
    acc
}

pub proof fn lemma_pow256_mono(a: nat, b: nat)
    requires
        a <= b,
    ensures
        pow256(a) <= pow256(b),
    decreases b,
{
    if a < b {
        lemma_pow256_mono(a, (b - 1) as nat);
    }
}

/// Appends the eight little-endian bytes of `v` to `out`.
pub fn push_u64_le(out: &mut Vec<u8>, v: u64)
    ensures
        final(out)@ == old(out)@ + le_bytes(v as nat, 8),
{
    let ghost start = old(out)@;
    let mut x: u64 = v;
    let mut i: usize = 0;
    while i < 8
        invariant
            i <= 8,
            start + le_bytes(v as nat, 8) == out@ + le_bytes(x as nat, (8 - i) as nat),
        decreases 8 - i,
    {
        let ghost before = out@;
        out.push((x % 256) as u8);
        proof {
            let k = (8 - i) as nat;
            assert(le_bytes(x as nat, k) =~= seq![(x % 256) as u8] + le_bytes((x / 256) as nat, (k - 1) as nat));
            assert(out@ + le_bytes((x / 256) as nat, (k - 1) as nat) =~= before + le_bytes(x as nat, k));
        }
        x = x / 256;
        i = i + 1;
    }
    assert(out@ + le_bytes(x as nat, 0) =~= out@);
}

/// `n` zero bytes.
pub open spec fn zeros(n: nat) -> Seq<u8> {
    Seq::new(n, |i: int| 0u8)
}

/// Appends `n` zero bytes to `out`.
pub fn push_zeros(out: &mut Vec<u8>, n: usize)
    ensures
        final(out)@ == old(out)@ + zeros(n as nat),
{
    let ghost start = old(out)@;
    let mut i: usize = 0;
    while i < n
        invariant
            i <= n,
            out@ =~= start + zeros(i as nat),
        decreases n - i,
    {
        out.push(0);
        i = i + 1;
        assert(out@ =~= start + zeros(i as nat));
    }
}

/// Overwrites the front of `dst` with `src`, leaving the bytes after it as
/// they were.
pub fn copy_to_front(dst: &mut [u8], src: &Vec<u8>)
    requires
        src@.len() <= old(dst)@.len(),
    ensures
        final(dst)@ == src@ + old(dst)@.subrange(src@.len() as int, old(dst)@.len() as int),
{
    let ghost start = old(dst)@;
    let n: usize = src.len();
    let mut i: usize = 0;
    while i < n
        invariant
            n == src@.len(),
            n <= start.len(),
            i <= n,
            dst@.len() == start.len(),
            forall|j: int| 0 <= j < i ==> dst@[j] == src@[j],
            forall|j: int| i <= j < start.len() ==> dst@[j] == start[j],
        decreases n - i,
    {
        dst[i] = src[i];
        i = i + 1;
    }
    assert(dst@ =~= src@ + start.subrange(n as int, start.len() as int));
}

} // verus!
