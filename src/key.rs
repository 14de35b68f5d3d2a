use vstd::prelude::*;

verus! {

/// Number of bytes in an account address.
pub const PUBKEY_BYTES: usize = 32;

/// An account address: 32 raw bytes.
#[derive(Clone, Copy, Debug, Default, PartialEq, Eq)]
pub struct Pubkey(pub [u8; 32]);

impl Pubkey {
    /// The address's bytes.
    pub open spec fn bytes(self) -> Seq<u8> {
        self.0@
    }

    /// Reads the address stored at `s[off..off + 32]`.
    pub fn read_from(s: &[u8], off: usize) -> (r: Pubkey)
        requires
            off + 32 <= s@.len(),
        ensures
            r.bytes() == s@.subrange(off as int, off + 32),
    {
        let n: usize = s.len();
        let mut a = [0u8; 32];
        let mut i: usize = 0;
        while i < 32
            invariant
                n == s@.len(),
                off + 32 <= n,
                i <= 32,
                a@.len() == 32,
                forall|j: int| 0 <= j < i ==> a@[j] == s@[off + j],
            decreases 32 - i,
        {
            a[i] = s[off + i];
            i = i + 1;
        }
        assert(a@ =~= s@.subrange(off as int, off + 32));
        Pubkey(a)
    }

    /// Appends the address's bytes to `out`.
    pub fn push_to(&self, out: &mut Vec<u8>)
        ensures
            final(out)@ == old(out)@ + self.bytes(),
    {
        let ghost start = old(out)@;
        let mut i: usize = 0;
        while i < 32
            invariant
                i <= 32,
                out@ =~= start + self.bytes().subrange(0, i as int),
            decreases 32 - i,
        {
            out.push(self.0[i]);
            i = i + 1;
            assert(out@ =~= start + self.bytes().subrange(0, i as int));
        }
        assert(self.bytes().subrange(0, 32) =~= self.bytes());
    }
}

/// Two addresses with the same bytes are the same address.
pub proof fn lemma_pubkey_bytes_injective(a: Pubkey, b: Pubkey)
    requires
        a.bytes() == b.bytes(),
    ensures
        a == b,
{
    assert(a.0 =~= b.0);
}

} // verus!
