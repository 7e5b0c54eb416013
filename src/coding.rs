use vstd::prelude::*;
use crate::types::{Chunk, ChunksList, DataBlock, NPRSResult};
use crate::params::{
    code_params, recovery_threshold, threshold, valid_validator_count, validator_count_error,
    MAX_VALIDATORS,
};
use crate::codec::{
    encode_shards, encoded_shards, lower_power_of_two, present_count, reconstruct_shards,
    reconstructed_payload, shard_len, shards_view, uniform_shards,
};

verus! {

/// The outcome of a call that only needs a valid validator count.
pub open spec fn count_status(n: nat) -> NPRSResult {
    if valid_validator_count(n) {
        NPRSResult::Success
    } else {
        validator_count_error(n)
    }
}

/// The chunks that reconstruction looks at: the first `n`, the rest ignored.
pub open spec fn considered(cs: Seq<Chunk>, n: nat) -> Seq<Chunk> {
    if cs.len() <= n {
        cs
    } else {
        cs.take(n as int)
    }
}

/// Checks the chunks in order for `n` validators. `expected` is the shard
/// length fixed by the first chunk present so far. Gives the first error, or
/// the shard length fixed at the end.
pub open spec fn check_chunks(cs: Seq<Chunk>, n: nat, expected: Option<nat>) -> Result<Option<nat>, NPRSResult>
    decreases cs.len(),
{
    if cs.len() == 0 {
        Ok(expected)
    } else {
        let c = cs[0];
        if c.index >= n {
            Err(NPRSResult::ChunkIndexOutOfBounds { chunk_index: c.index, n_validators: n as u64 })
        } else if c.is_absent() {
            check_chunks(cs.drop_first(), n, expected)
        } else {
            let l = match expected {
                Some(l) => l,
                None => c.bytes().len(),
            };
            if l % 2 != 0 {
                Err(NPRSResult::UnevenLength)
            } else if l != c.bytes().len() {
                Err(NPRSResult::NonUniformChunks)
            } else {
                check_chunks(cs.drop_first(), n, Some(l))
            }
        }
    }
}

/// All slots empty.
pub open spec fn empty_slots(n: nat) -> Seq<Option<Seq<u8>>> {
    Seq::new(n, |i: int| None)
}

/// Puts the bytes of each chunk present into the slot of its index, in order,
/// so that a later chunk with the same index replaces an earlier one.
pub open spec fn fill_slots(cs: Seq<Chunk>, slots: Seq<Option<Seq<u8>>>) -> Seq<Option<Seq<u8>>>
    decreases cs.len(),
{
    if cs.len() == 0 {
        slots
    } else {
        let c = cs[0];
        let next = if c.is_absent() || c.index >= slots.len() {
            slots
        } else {
            slots.update(c.index as int, Some(c.bytes()))
        };
        fill_slots(cs.drop_first(), next)
    }
}

/// The slots that reconstruction hands to the codec.
pub open spec fn received_slots(n: nat, cs: Seq<Chunk>) -> Seq<Option<Seq<u8>>> {
    fill_slots(considered(cs, n), empty_slots(n))
}

/// The outcome of reconstructing from `cs` for `n` validators.
pub open spec fn reconstruct_status(n: nat, cs: Seq<Chunk>) -> NPRSResult {
    if !valid_validator_count(n) {
        validator_count_error(n)
    } else {
        match check_chunks(considered(cs, n), n, None) {
            Err(e) => e,
            Ok(_) => if present_count(received_slots(n, cs)) < threshold(n) {
                NPRSResult::NotEnoughChunks
            } else {
                NPRSResult::Success
            },
        }
    }
}

proof fn lemma_lower_power_of_two_le(k: nat)
    requires
        k >= 1,
    ensures
        lower_power_of_two(k) <= k,
    decreases k,
{
    if k > 1 {
        lemma_lower_power_of_two_le(k / 2);
    }
}

spec fn len_of(o: Option<usize>) -> Option<nat> {
    match o {
        Some(l) => Some(l as nat),
        None => None,
    }
}

/// Obtain a threshold of chunks that should be enough to recover the data.
/// On success the threshold is written to `threshold_out`.
pub fn ECCR_get_recovery_threshold(validators_number: u64, threshold_out: &mut u64) -> (r: NPRSResult)
    ensures
        r == count_status(validators_number as nat),
        r == NPRSResult::Success ==> *final(threshold_out) == threshold(validators_number as nat),
        r != NPRSResult::Success ==> *final(threshold_out) == *old(threshold_out),
{
    if validators_number > MAX_VALIDATORS as u64 {
        return NPRSResult::TooManyValidators;
    }
    match recovery_threshold(validators_number as usize) {
        Ok(needed) => {
            *threshold_out = needed as u64;
            NPRSResult::Success
        },
        Err(e) => e,
    }
}

/// Obtain erasure-coded chunks, one for each validator: chunk `i` holds
/// shard `i` of the payload. On success the chunks are written to `output`.
pub fn ECCR_obtain_chunks(validators_number: u64, message: &DataBlock, output: &mut ChunksList) -> (r: NPRSResult)
    requires
        message@.len() > 0,
    ensures
        r == count_status(validators_number as nat),
        r == NPRSResult::Success ==> final(output)@.len() == validators_number,
        r == NPRSResult::Success ==> forall|i: int| 0 <= i < validators_number ==> {
            let c = #[trigger] final(output)@[i];
            &&& c.index == i
            &&& c.bytes() == encoded_shards(validators_number as nat, threshold(validators_number as nat), message@)[i]
            &&& c.bytes().len() == shard_len(threshold(validators_number as nat), message@.len())
        },
        r != NPRSResult::Success ==> *final(output) == *old(output),
{
    if validators_number > MAX_VALIDATORS as u64 {
        return NPRSResult::TooManyValidators;
    }
    let params = match code_params(validators_number as usize) {
        Ok(p) => p,
        Err(e) => return e,
    };
    let shards = match encode_shards(params.n, params.k, message.array.as_slice()) {
        Ok(s) => s,
        Err(_) => return NPRSResult::UnknownCodeParam,
    };
    let mut chunks: Vec<Chunk> = Vec::new();
    let mut i: usize = 0;
    while i < shards.len()
        invariant
            shards@.len() == params.n,
            params.n == validators_number,
            params.wf(),
            message@.len() > 0,
            i <= shards@.len(),
            chunks@.len() == i,
            forall|j: int| 0 <= j < params.n ==>
                (#[trigger] shards@[j])@ == encoded_shards(params.n as nat, params.k as nat, message@)[j]
                && shards@[j]@.len() == shard_len(params.k as nat, message@.len()),
            forall|j: int| 0 <= j < i ==> {
                let c = #[trigger] chunks@[j];
                &&& c.index == j
                &&& c.bytes() == shards@[j]@
            },
        decreases shards@.len() - i,
    {
        let bytes = shards[i].clone();
        assert(bytes@ =~= shards@[i as int]@);
        chunks.push(Chunk { data: DataBlock { array: bytes }, index: i as u64 });
        i += 1;
    }
    output.data = chunks;
    NPRSResult::Success
}

/// Reconstruct data from a set of chunks for `validators_number` validators.
///
/// Only the first `validators_number` chunks are looked at; an empty chunk
/// counts as missing. On success the payload is written to `outdata`.
pub fn ECCR_reconstruct(validators_number: u64, input_chunks: &ChunksList, outdata: &mut DataBlock) -> (r: NPRSResult)
    ensures
        r == reconstruct_status(validators_number as nat, input_chunks@),
        r == NPRSResult::Success ==> final(outdata)@ == reconstructed_payload(
            validators_number as nat,
            threshold(validators_number as nat),
            received_slots(validators_number as nat, input_chunks@),
        ),
        r == NPRSResult::Success ==> final(outdata)@.len() > 0,
        r != NPRSResult::Success ==> *final(outdata) == *old(outdata),
{
    if validators_number > MAX_VALIDATORS as u64 {
        return NPRSResult::TooManyValidators;
    }
    let params = match code_params(validators_number as usize) {
        Ok(p) => p,
        Err(e) => return e,
    };
    let n = params.n;
    let mut slots: Vec<Option<Vec<u8>>> = Vec::new();
    let mut j: usize = 0;
    while j < n
        invariant
            j <= n,
            slots@.len() == j,
            forall|m: int| 0 <= m < j ==> (#[trigger] slots@[m]) is None,
        decreases n - j,
    {
        slots.push(None);
        j += 1;
    }
    assert(shards_view(slots@) =~= empty_slots(n as nat));

    let count = if input_chunks.data.len() < n { input_chunks.data.len() } else { n };
    let ghost cs = considered(input_chunks@, n as nat);
    assert(cs.len() == count);
    assert(cs.skip(0) =~= cs);
    let mut expected: Option<usize> = None;
    let mut i: usize = 0;
    while i < count
        invariant
            params.wf(),
            n == params.n,
            n == validators_number,
            cs == considered(input_chunks@, n as nat),
            cs.len() == count,
            count <= input_chunks@.len(),
            i <= count,
            slots@.len() == n,
            check_chunks(cs, n as nat, None) == check_chunks(cs.skip(i as int), n as nat, len_of(expected)),
            fill_slots(cs, empty_slots(n as nat)) == fill_slots(cs.skip(i as int), shards_view(slots@)),
            expected is Some ==> expected->0 > 0 && expected->0 % 2 == 0,
            forall|m: int| 0 <= m < n && (#[trigger] slots@[m]) is Some
                ==> expected is Some && slots@[m]->0@.len() == expected->0,
        decreases count - i,
    {
        let chunk = &input_chunks.data[i];
        assert(cs[i as int] == input_chunks@[i as int]);
        assert(cs.skip(i as int).drop_first() =~= cs.skip(i + 1));
        assert(cs.skip(i as int)[0] == cs[i as int]);
        if chunk.index >= validators_number {
            return NPRSResult::ChunkIndexOutOfBounds {
                chunk_index: chunk.index,
                n_validators: validators_number,
            };
        }
        let len = chunk.data.array.len();
        if len != 0 {
            let shard_length = match expected {
                Some(l) => l,
                None => len,
            };
            if shard_length % 2 != 0 {
                return NPRSResult::UnevenLength;
            }
            if shard_length != len {
                return NPRSResult::NonUniformChunks;
            }
            expected = Some(shard_length);
            let bytes = chunk.data.array.clone();
            assert(bytes@ =~= chunk.data.array@);
            let ghost before = slots@;
            slots.set(chunk.index as usize, Some(bytes));
            assert(shards_view(slots@) =~= shards_view(before).update(chunk.index as int, Some(chunk.bytes())));
        }
        i += 1;
    }
    assert(cs.skip(count as int) =~= Seq::<Chunk>::empty());
    assert(received_slots(n as nat, input_chunks@) == shards_view(slots@));
    assert(uniform_shards(shards_view(slots@), match expected { Some(l) => l as nat, None => 2 }));
    let ghost received = shards_view(slots@);
    let mut present: usize = 0;
    let mut m: usize = 0;
    while m < n
        invariant
            m <= n,
            slots@.len() == n,
            received == shards_view(slots@),
            present <= m,
            present == present_count(received.take(m as int)),
        decreases n - m,
    {
        assert(received.take(m + 1).drop_last() =~= received.take(m as int));
        if slots[m].is_some() {
            present += 1;
        }
        m += 1;
    }
    assert(received.take(n as int) =~= received);
    if present < params.k {
        return NPRSResult::NotEnoughChunks;
    }
    proof {
        lemma_lower_power_of_two_le(params.k as nat);
    }
    match reconstruct_shards(n, params.k, slots) {
        Ok(payload) => {
            if payload.len() == 0 {
                return NPRSResult::BadPayload;
            }
            outdata.array = payload;
            NPRSResult::Success
        },
        Err(novelpoly_error) => match novelpoly_error {
            reed_solomon_novelpoly::Error::NeedMoreShards { .. } => NPRSResult::NotEnoughChunks,
            reed_solomon_novelpoly::Error::ParamterMustBePowerOf2 { .. } => NPRSResult::UnevenLength,
            reed_solomon_novelpoly::Error::WantedShardCountTooHigh(_) => NPRSResult::TooManyValidators,
            reed_solomon_novelpoly::Error::WantedShardCountTooLow(_) => NPRSResult::NotEnoughValidators,
            reed_solomon_novelpoly::Error::PayloadSizeIsZero => NPRSResult::BadPayload,
            reed_solomon_novelpoly::Error::InconsistentShardLengths { .. } => NPRSResult::NonUniformChunks,
            _ => NPRSResult::UnknownReconstruction,
        },
    }
}

} // verus!
