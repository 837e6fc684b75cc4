use soroban_sdk::{Bytes, Env};
use vstd::prelude::*;

verus! {

#[verifier::external_type_specification]
#[verifier::external_body]
pub struct ExEnv(Env);

/// The SHA-256 digest of `data`.
pub uninterp spec fn sha256_of(data: Seq<u8>) -> Seq<u8>;

/// Relies on soroban_sdk's `Crypto::sha256` (with `Bytes::from_slice` and
/// `Hash::to_array`): the digest of the bytes, which depends on them alone.
/// The host meters the work against the environment's budget and aborts
/// once that is spent.
#[verifier::external_body]
fn sha256(env: &Env, data: &Vec<u8>) -> (r: [u8; 32])
    ensures
        r@ == sha256_of(data@),
{
    env.crypto().sha256(&Bytes::from_slice(env, data.as_slice())).to_array()
}

/// The four big-endian bytes of `x`.
pub open spec fn be32(x: u32) -> Seq<u8> {
    seq![
        (x / 0x100_0000) as u8,
        ((x / 0x1_0000) % 0x100) as u8,
        ((x / 0x100) % 0x100) as u8,
        (x % 0x100) as u8,
    ]
}

/// The bytes that a commitment hashes: session id, island and tile as
/// big-endian 32-bit words, then the salt.
pub open spec fn preimage(room_id: u32, island_id: u32, tile_id: u32, salt: Seq<u8>) -> Seq<u8> {
    be32(room_id) + be32(island_id) + be32(tile_id) + salt
}

/// The commitment that binds a buried coordinate to its session.
pub open spec fn commitment_of(room_id: u32, island_id: u32, tile_id: u32, salt: Seq<u8>) -> Seq<u8> {
    sha256_of(preimage(room_id, island_id, tile_id, salt))
}

fn push_be32(buf: &mut Vec<u8>, x: u32)
    ensures
        final(buf)@ == old(buf)@ + be32(x),
{
    buf.push((x / 0x100_0000) as u8);
    buf.push(((x / 0x1_0000) % 0x100) as u8);
    buf.push(((x / 0x100) % 0x100) as u8);
    buf.push((x % 0x100) as u8);
    assert(final(buf)@ =~= old(buf)@ + be32(x));
}

/// The serialized pre-image of a commitment.
pub fn commitment_preimage(room_id: u32, island_id: u32, tile_id: u32, salt: &[u8; 32]) -> (r: Vec<u8>)
    ensures
        r@ == preimage(room_id, island_id, tile_id, salt@),
{
    let mut buf: Vec<u8> = Vec::new();
    push_be32(&mut buf, room_id);
    push_be32(&mut buf, island_id);
    push_be32(&mut buf, tile_id);
    let ghost head = buf@;
    let mut i: usize = 0;
    while i < 32
        invariant
            i <= 32,
            head == be32(room_id) + be32(island_id) + be32(tile_id),
            buf@ == head + salt@.subrange(0, i as int),
        decreases 32 - i,
    {
        buf.push(salt[i]);
        assert(salt@.subrange(0, i + 1) =~= salt@.subrange(0, i as int).push(salt@[i as int]));
        i = i + 1;
    }
    assert(salt@.subrange(0, 32) =~= salt@);
    buf
}

/// SHA-256 of the session id, island, tile and salt.
pub fn compute_commitment(env: &Env, room_id: u32, island_id: u32, tile_id: u32, salt: &[u8; 32]) -> (r: [u8; 32])
    ensures
        r@ == commitment_of(room_id, island_id, tile_id, salt@),
{
    let buf = commitment_preimage(room_id, island_id, tile_id, salt);
    sha256(env, &buf)
}

/// Whether two digests are byte for byte equal.
pub fn digests_equal(a: &[u8; 32], b: &[u8; 32]) -> (r: bool)
    ensures
        r == (a@ == b@),
{
    let mut i: usize = 0;
    while i < 32
        invariant
            i <= 32,
            forall|j: int| 0 <= j < i ==> a@[j] == b@[j],
        decreases 32 - i,
    {
        if a[i] != b[i] {
            return false;
        }
        i = i + 1;
    }
    assert(a@ =~= b@);
    true
}

/// Whether `digest` commits to the given coordinate and salt in this session.
pub fn verify_commitment(
    env: &Env,
    digest: &[u8; 32],
    room_id: u32,
    island_id: u32,
    tile_id: u32,
    salt: &[u8; 32],
) -> (r: bool)
    ensures
        r == (digest@ == commitment_of(room_id, island_id, tile_id, salt@)),
{
    let computed = compute_commitment(env, room_id, island_id, tile_id, salt);
    digests_equal(digest, &computed)
}

} // verus!
