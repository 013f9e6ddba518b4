use vstd::prelude::*;

verus! {

/// Starting value of the 64-bit FNV-1a digest.
pub const FNV_OFFSET_BASIS: u64 = 0xcbf2_9ce4_8422_2325;

/// Multiplier of the 64-bit FNV-1a digest.
pub const FNV_PRIME: u64 = 0x0000_0100_0000_01b3;

/// One FNV-1a round: xor in the byte, then multiply modulo 2^64.
pub open spec fn fnv1a_step(h: u64, b: u8) -> u64 {
    (((h ^ (b as u64)) as nat * FNV_PRIME as nat) % 0x1_0000_0000_0000_0000) as u64
}

/// FNV-1a state after feeding `bytes`, in order, into state `h`.
pub open spec fn fnv1a(h: u64, bytes: Seq<u8>) -> u64
    decreases bytes.len(),
{
    if bytes.len() == 0 {
        h
    } else {
        fnv1a(fnv1a_step(h, bytes[0]), bytes.drop_first())
    }
}

/// Feeds `bytes` into the FNV-1a state `h`.
pub fn fnv1a_extend(h: u64, bytes: &[u8]) -> (r: u64)
    ensures
        r == fnv1a(h, bytes@),
{
    let mut acc = h;
    let mut i: usize = 0;
    let n = bytes.len();
    assert(bytes@.subrange(0, n as int) =~= bytes@);
    while i < n
        invariant
            n == bytes@.len(),
            i <= n,
            fnv1a(acc, bytes@.subrange(i as int, n as int)) == fnv1a(h, bytes@),
        decreases n - i,
    {
        assert(bytes@.subrange(i as int, n as int).drop_first() =~= bytes@.subrange(
            i + 1,
            n as int,
        ));
        acc = (acc ^ (bytes[i] as u64)).wrapping_mul(FNV_PRIME);
        i += 1;
    }
    assert(bytes@.subrange(n as int, n as int) =~= Seq::<u8>::empty());
    acc
}

/// The 64-bit FNV-1a digest of `bytes`: a fixed, portable function of the
/// bytes alone.
pub fn calculate_hash(bytes: &[u8]) -> (r: u64)
    ensures
        r == fnv1a(FNV_OFFSET_BASIS, bytes@),
{
    fnv1a_extend(FNV_OFFSET_BASIS, bytes)
}

/// `path` with `extension` appended.
pub fn create_path(path: &str, extension: &str) -> (r: String)
    ensures
        r@ == path@ + extension@,
{
    let mut r = path.to_owned();
    r.append(extension);
    r
}

} // verus!
