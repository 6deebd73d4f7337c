use vstd::prelude::*;

verus! {

/// Values with a byte encoding in the executable format.
pub trait LMEByteEncoder {
    /// The bytes that encode the value.
    spec fn encoding(&self) -> Seq<u8>;

    /// Appends the encoding of the value to `out`.
    fn encode(&self, out: &mut Vec<u8>)
        ensures
            final(out)@ == old(out)@ + self.encoding();
}

/// The `n` low bytes of `v`, least significant first.
pub open spec fn le_bytes(v: nat, n: nat) -> Seq<u8>
    decreases n,
{
    if n == 0 {
        Seq::empty()
    } else {
        seq![(v % 256) as u8] + le_bytes(v / 256, (n - 1) as nat)
    }
}

pub proof fn lemma_le_bytes_len(v: nat, n: nat)
    ensures
        le_bytes(v, n).len() == n,
    decreases n,
{
    if n > 0 {
        lemma_le_bytes_len(v / 256, (n - 1) as nat);
    }
}

/// Appends the eight bytes of `v`, least significant first.
pub fn push_u64_le(out: &mut Vec<u8>, v: u64)
    ensures
        final(out)@ == old(out)@ + le_bytes(v as nat, 8),
        le_bytes(v as nat, 8).len() == 8,
{
    let mut x: u64 = v;
    let mut k: u64 = 0;
    while k < 8
        invariant
            k <= 8,
            out@ + le_bytes(x as nat, (8 - k) as nat) == old(out)@ + le_bytes(v as nat, 8),
        decreases 8 - k,
    {
        let b = (x % 256) as u8;
        let ghost before = out@;
        out.push(b);
        assert(le_bytes(x as nat, (8 - k) as nat) == seq![b] + le_bytes((x / 256) as nat, (8 - k - 1) as nat));
        assert(before + le_bytes(x as nat, (8 - k) as nat) =~= out@ + le_bytes((x / 256) as nat, (8 - k - 1) as nat));
        x = x / 256;
        k = k + 1;
    }
    assert(out@ =~= out@ + le_bytes(x as nat, 0));
    proof {
        lemma_le_bytes_len(v as nat, 8);
    }
}

} // verus!
