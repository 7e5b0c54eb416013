use vstd::prelude::*;
use crate::params::threshold;
use reed_solomon_novelpoly::{CodeParams, WrappedShard};

verus! {

#[verifier::external_type_specification]
pub struct ExNovelpolyError(reed_solomon_novelpoly::Error);

/// The largest power of two not above `k` (for `k >= 1`).
pub open spec fn lower_power_of_two(k: nat) -> nat
    decreases k,
{
    if k <= 1 {
        1
    } else {
        2 * lower_power_of_two(k / 2)
    }
}

/// Relies on `CodeParams::derive_parameters`: it rejects `n < 2` and `k < 1`,
/// and accepts every other `n` up to the field size.
#[verifier::external_body]
pub(crate) fn check_code_params(n: usize, k: usize) -> (r: Result<(), reed_solomon_novelpoly::Error>)
    requires
        k <= n <= 65536,
    ensures
        n < 2 ==> r is Err && r->Err_0 == reed_solomon_novelpoly::Error::WantedShardCountTooLow(n),
        n >= 2 && k < 1 ==> r is Err && r->Err_0 == reed_solomon_novelpoly::Error::WantedPayloadShardCountTooLow(k),
        n >= 2 && k >= 1 ==> r is Ok,
{
    CodeParams::derive_parameters(n, k).map(|_| ())
}

/// What the codec makes of a payload for `n` validators with threshold `k`:
/// one shard per validator.
pub uninterp spec fn encoded_shards(n: nat, k: nat, payload: Seq<u8>) -> Seq<Seq<u8>>;

/// The bytes the codec recovers for `n` validators with threshold `k` from
/// the shards present in their slots. They may be padded with zeros.
pub uninterp spec fn reconstructed_payload(n: nat, k: nat, shards: Seq<Option<Seq<u8>>>) -> Seq<u8>;

/// The length in bytes of each shard of a payload of `payload_len` bytes:
/// the payload's 2-byte symbols spread over the power-of-two part of `k`.
pub open spec fn shard_len(k: nat, payload_len: nat) -> nat {
    let kp = lower_power_of_two(k);
    ((((payload_len + 1) / 2 + kp - 1) as nat) / kp) * 2
}

/// The shard slots as byte sequences.
pub open spec fn shards_view(v: Seq<Option<Vec<u8>>>) -> Seq<Option<Seq<u8>>> {
    v.map_values(|o: Option<Vec<u8>>| match o {
        Some(s) => Some(s@),
        None => None,
    })
}

/// The number of slots that hold a shard.
pub open spec fn present_count(s: Seq<Option<Seq<u8>>>) -> nat
    decreases s.len(),
{
    if s.len() == 0 {
        0
    } else {
        present_count(s.drop_last()) + if s.last() is Some { 1nat } else { 0nat }
    }
}

/// Every shard present has `len` bytes.
pub open spec fn uniform_shards(s: Seq<Option<Seq<u8>>>, len: nat) -> bool {
    forall|i: int| 0 <= i < s.len() && #[trigger] s[i] is Some ==> s[i]->0.len() == len
}

/// Relies on `ReedSolomon::encode` (and `WrappedShard::into_inner`) for the
/// encoder that `make_encoder` builds from the parameters that
/// `CodeParams::derive_parameters` gives (which accepts these `n` and `k`):
/// an empty payload is refused; any other payload gives one shard per
/// validator, each of `shard_len` bytes.
#[verifier::external_body]
pub(crate) fn encode_shards(n: usize, k: usize, payload: &[u8]) -> (r: Result<Vec<Vec<u8>>, reed_solomon_novelpoly::Error>)
    requires
        2 <= n <= 65536,
        k == threshold(n as nat),
    ensures
        payload@.len() == 0 ==> r is Err && r->Err_0 == reed_solomon_novelpoly::Error::PayloadSizeIsZero,
        payload@.len() > 0 ==> r is Ok && r->Ok_0@.len() == n,
        payload@.len() > 0 ==> forall|i: int| 0 <= i < n ==>
            (#[trigger] r->Ok_0@[i])@ == encoded_shards(n as nat, k as nat, payload@)[i]
            && r->Ok_0@[i]@.len() == shard_len(k as nat, payload@.len()),
{
    let shards = CodeParams::derive_parameters(n, k)?.make_encoder().encode::<WrappedShard>(payload)?;
    Ok(shards.into_iter().map(|s| s.into_inner()).collect())
}

/// Relies on `ReedSolomon::reconstruct` (shards wrapped by `WrappedShard::new`)
/// for the encoder that `make_encoder` builds from the parameters that
/// `CodeParams::derive_parameters` gives (which accepts these `n` and `k`):
/// with shards of one even, nonzero length, it fails exactly when fewer than
/// the power-of-two part of `k` slots hold a shard; otherwise the payload has
/// one symbol run per shard symbol, so it is not empty.
#[verifier::external_body]
pub(crate) fn reconstruct_shards(n: usize, k: usize, shards: Vec<Option<Vec<u8>>>) -> (r: Result<Vec<u8>, reed_solomon_novelpoly::Error>)
    requires
        2 <= n <= 65536,
        k == threshold(n as nat),
        shards@.len() == n,
        exists|len: nat| len > 0 && len % 2 == 0 && uniform_shards(shards_view(shards@), len),
    ensures
        present_count(shards_view(shards@)) < lower_power_of_two(k as nat)
            ==> r matches Err(reed_solomon_novelpoly::Error::NeedMoreShards { .. }),
        present_count(shards_view(shards@)) >= lower_power_of_two(k as nat)
            ==> r is Ok && r->Ok_0@ == reconstructed_payload(n as nat, k as nat, shards_view(shards@))
                && r->Ok_0@.len() > 0,
{
    let shards = shards.into_iter().map(|s| s.map(WrappedShard::new)).collect();
    CodeParams::derive_parameters(n, k)?.make_encoder().reconstruct::<WrappedShard>(shards)
}

} // verus!
