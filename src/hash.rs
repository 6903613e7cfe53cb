use vstd::prelude::*;

verus! {

/// The 64-bit XXH3 digest of a byte sequence.
pub uninterp spec fn xxh3_of(data: Seq<u8>) -> u64;

/// Relies on `xxhash_rust::xxh3::xxh3_64`: a deterministic, unseeded digest
/// that depends on the bytes alone.
#[verifier::external_body]
fn xxh3(data: &[u8]) -> (r: u64)
    ensures
        r == xxh3_of(data@),
{
    xxhash_rust::xxh3::xxh3_64(data)
}

/// Fingerprint of arbitrary bytes (file contents, a serialized configuration).
pub fn hash_data(data: &[u8]) -> (r: u64)
    ensures
        r == xxh3_of(data@),
{
    xxh3(data)
}

/// The pieces laid end to end.
pub open spec fn concat_all(parts: Seq<Vec<u8>>) -> Seq<u8>
    decreases parts.len(),
{
    if parts.len() == 0 {
        Seq::empty()
    } else {
        concat_all(parts.drop_last()) + parts.last()@
    }
}

/// Fingerprint of several inputs taken together: the digest of their
/// concatenation.
pub fn hash_inputs(inputs: &[Vec<u8>]) -> (r: u64)
    ensures
        r == xxh3_of(concat_all(inputs@)),
{
    let mut combined: Vec<u8> = Vec::new();
    let mut i: usize = 0;
    while i < inputs.len()
        invariant
            i <= inputs@.len(),
            combined@ == concat_all(inputs@.subrange(0, i as int)),
        decreases inputs@.len() - i,
    {
        let part = &inputs[i];
        let ghost before = combined@;
        let mut j: usize = 0;
        while j < part.len()
            invariant
                j <= part@.len(),
                combined@ == before + part@.subrange(0, j as int),
            decreases part@.len() - j,
        {
            combined.push(part[j]);
            j += 1;
            assert(combined@ =~= before + part@.subrange(0, j as int));
        }
        assert(part@.subrange(0, j as int) =~= part@);
        assert(inputs@.subrange(0, i + 1).drop_last() =~= inputs@.subrange(0, i as int));
        i += 1;
    }
    assert(inputs@.subrange(0, i as int) =~= inputs@);
    xxh3(combined.as_slice())
}

} // verus!
