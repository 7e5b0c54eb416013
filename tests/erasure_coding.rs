use erasure_coding::{
    code_params, recovery_threshold, Chunk, ChunksList, CodeParams, DataBlock, NPRSResult,
    ECCR_get_recovery_threshold, ECCR_obtain_chunks, ECCR_reconstruct,
};

fn encode(n: u64, payload: &[u8]) -> ChunksList {
    let message = DataBlock { array: payload.to_vec() };
    let mut out = ChunksList { data: Vec::new() };
    assert_eq!(ECCR_obtain_chunks(n, &message, &mut out), NPRSResult::Success);
    out
}

fn pick(list: &ChunksList, indices: &[usize]) -> ChunksList {
    let mut data = Vec::new();
    for &i in indices {
        let c = &list.data[i];
        data.push(Chunk { data: DataBlock { array: c.data.array.clone() }, index: c.index });
    }
    ChunksList { data }
}

fn chunk(bytes: &[u8], index: u64) -> Chunk {
    Chunk { data: DataBlock { array: bytes.to_vec() }, index }
}

fn reconstruct(n: u64, list: &ChunksList) -> (NPRSResult, Vec<u8>) {
    let mut out = DataBlock { array: Vec::new() };
    let r = ECCR_reconstruct(n, list, &mut out);
    (r, out.array)
}

#[test]
fn threshold_formula_over_range() {
    for n in 2usize..=65536 {
        assert_eq!(recovery_threshold(n), Ok((n - 1) / 3 + 1));
    }
}

#[test]
fn threshold_rejects_small_and_large_counts() {
    assert_eq!(recovery_threshold(0), Err(NPRSResult::NotEnoughValidators));
    assert_eq!(recovery_threshold(1), Err(NPRSResult::NotEnoughValidators));
    assert_eq!(recovery_threshold(65537), Err(NPRSResult::TooManyValidators));
    assert_eq!(recovery_threshold(usize::MAX), Err(NPRSResult::TooManyValidators));
}

#[test]
fn threshold_edges() {
    assert_eq!(recovery_threshold(2), Ok(1));
    assert_eq!(recovery_threshold(4), Ok(2));
    assert_eq!(recovery_threshold(65536), Ok(21846));
}

#[test]
fn threshold_for_four() {
    assert_eq!(recovery_threshold(4), Ok(2));
    let mut t = 0u64;
    assert_eq!(ECCR_get_recovery_threshold(4, &mut t), NPRSResult::Success);
    assert_eq!(t, 2);
}

#[test]
fn deadbeef_round_trip_from_two_of_four() {
    let payload = b"deadbeef";
    let chunks = encode(4, payload);
    assert_eq!(chunks.data.len(), 4);
    let (r, out) = reconstruct(4, &pick(&chunks, &[0, 2]));
    assert_eq!(r, NPRSResult::Success);
    assert_eq!(out, payload.to_vec());
}

#[test]
fn threshold_for_hundred() {
    assert_eq!(recovery_threshold(100), Ok(34));
    let mut t = 0u64;
    assert_eq!(ECCR_get_recovery_threshold(100, &mut t), NPRSResult::Success);
    assert_eq!(t, 34);
}

#[test]
fn one_validator_is_not_enough() {
    let mut t = 7u64;
    assert_eq!(ECCR_get_recovery_threshold(1, &mut t), NPRSResult::NotEnoughValidators);
    assert_eq!(t, 7);
}

#[test]
fn seventy_thousand_validators_are_too_many() {
    let mut t = 7u64;
    assert_eq!(ECCR_get_recovery_threshold(70000, &mut t), NPRSResult::TooManyValidators);
    assert_eq!(t, 7);
}

#[test]
fn chunk_index_out_of_bounds_reports_values() {
    let chunks = encode(5, b"deadbeef");
    let mut list = pick(&chunks, &[0]);
    list.data.push(chunk(&chunks.data[1].data.array, 5));
    let (r, out) = reconstruct(5, &list);
    assert_eq!(r, NPRSResult::ChunkIndexOutOfBounds { chunk_index: 5, n_validators: 5 });
    assert!(out.is_empty());
}

#[test]
fn one_chunk_of_five_is_not_enough() {
    let chunks = encode(5, b"deadbeef");
    assert_eq!(recovery_threshold(5), Ok(2));
    let (r, _) = reconstruct(5, &pick(&chunks, &[3]));
    assert_eq!(r, NPRSResult::NotEnoughChunks);
}

#[test]
fn absent_chunks_do_not_count() {
    let chunks = encode(5, b"deadbeef");
    let mut list = pick(&chunks, &[3]);
    list.data.push(chunk(&[], 1));
    list.data.push(chunk(&[], 4));
    let (r, _) = reconstruct(5, &list);
    assert_eq!(r, NPRSResult::NotEnoughChunks);
}

#[test]
fn obtain_chunks_indices_cover_all_slots() {
    for n in [2u64, 3, 4, 5, 7, 10, 100] {
        let chunks = encode(n, b"some payload bytes");
        assert_eq!(chunks.data.len() as u64, n);
        let len = chunks.data[0].data.array.len();
        assert!(len > 0 && len % 2 == 0);
        for (i, c) in chunks.data.iter().enumerate() {
            assert_eq!(c.index, i as u64);
            assert_eq!(c.data.array.len(), len);
        }
    }
}

#[test]
fn obtain_chunks_is_deterministic() {
    let a = encode(7, b"the same payload");
    let b = encode(7, b"the same payload");
    for i in 0..7 {
        assert_eq!(a.data[i].data.array, b.data[i].data.array);
        assert_eq!(a.data[i].index, b.data[i].index);
    }
}

#[test]
fn obtain_chunks_rejects_bad_counts_and_leaves_output() {
    let message = DataBlock { array: b"payload".to_vec() };
    let mut out = ChunksList { data: vec![chunk(b"xy", 0)] };
    assert_eq!(ECCR_obtain_chunks(1, &message, &mut out), NPRSResult::NotEnoughValidators);
    assert_eq!(ECCR_obtain_chunks(0, &message, &mut out), NPRSResult::NotEnoughValidators);
    assert_eq!(ECCR_obtain_chunks(65537, &message, &mut out), NPRSResult::TooManyValidators);
    assert_eq!(out.data.len(), 1);
    assert_eq!(out.data[0].data.array, b"xy".to_vec());
}

#[test]
fn shards_differ_from_payload() {
    let payload = b"0123456789abcdef";
    let chunks = encode(4, payload);
    // four validators, threshold two: each shard holds half the symbols
    assert_eq!(chunks.data[0].data.array.len(), 8);
    let parity: Vec<u8> = chunks.data[3].data.array.clone();
    assert_ne!(parity, payload[..8].to_vec());
    assert_ne!(parity, payload[8..].to_vec());
}

#[test]
fn round_trip_from_any_two_of_four() {
    let payload = b"deadbeef";
    let chunks = encode(4, payload);
    for a in 0..4 {
        for b in (a + 1)..4 {
            let (r, out) = reconstruct(4, &pick(&chunks, &[a, b]));
            assert_eq!(r, NPRSResult::Success);
            assert_eq!(out, payload.to_vec());
        }
    }
}

#[test]
fn round_trip_with_many_validators() {
    let payload: Vec<u8> = (0..200u32).map(|i| (i * 7 % 251) as u8).collect();
    let chunks = encode(10, &payload);
    let (r, out) = reconstruct(10, &pick(&chunks, &[9, 1, 5, 7]));
    assert_eq!(r, NPRSResult::Success);
    assert_eq!(&out[..payload.len()], &payload[..]);
    assert!(out[payload.len()..].iter().all(|&b| b == 0));
}

#[test]
fn round_trip_pads_short_payload_with_zeros() {
    let payload = b"abc";
    let chunks = encode(4, payload);
    let (r, out) = reconstruct(4, &pick(&chunks, &[1, 3]));
    assert_eq!(r, NPRSResult::Success);
    assert_eq!(out, b"abc\0".to_vec());
}

#[test]
fn unequal_lengths_are_non_uniform() {
    let list = ChunksList { data: vec![chunk(&[1, 2], 0), chunk(&[1, 2, 3, 4], 1)] };
    let (r, _) = reconstruct(4, &list);
    assert_eq!(r, NPRSResult::NonUniformChunks);
}

#[test]
fn odd_length_is_uneven() {
    let list = ChunksList { data: vec![chunk(&[], 2), chunk(&[1, 2, 3], 0), chunk(&[1, 2], 1)] };
    let (r, _) = reconstruct(4, &list);
    assert_eq!(r, NPRSResult::UnevenLength);
}

#[test]
fn later_odd_length_is_non_uniform() {
    let list = ChunksList { data: vec![chunk(&[1, 2], 0), chunk(&[1, 2, 3], 1)] };
    let (r, _) = reconstruct(4, &list);
    assert_eq!(r, NPRSResult::NonUniformChunks);
}

#[test]
fn reconstruct_rejects_bad_counts() {
    let list = ChunksList { data: vec![chunk(&[1, 2], 0)] };
    let mut out = DataBlock { array: vec![9] };
    assert_eq!(ECCR_reconstruct(1, &list, &mut out), NPRSResult::NotEnoughValidators);
    assert_eq!(ECCR_reconstruct(70000, &list, &mut out), NPRSResult::TooManyValidators);
    assert_eq!(out.array, vec![9]);
}

#[test]
fn chunks_beyond_n_are_ignored() {
    let chunks = encode(4, b"deadbeef");
    // four good chunks first, then an out-of-bounds one that is never looked at
    let mut list = pick(&chunks, &[0, 1, 2, 3]);
    list.data.push(chunk(&[1, 2, 3], 99));
    let (r, out) = reconstruct(4, &list);
    assert_eq!(r, NPRSResult::Success);
    assert_eq!(out, b"deadbeef".to_vec());
}

#[test]
fn truncation_can_hide_the_needed_chunks() {
    let chunks = encode(4, b"deadbeef");
    let mut list = ChunksList { data: vec![chunk(&[], 0), chunk(&[], 1), chunk(&[], 2), chunk(&[], 3)] };
    list.data.extend(pick(&chunks, &[0, 1]).data);
    let (r, _) = reconstruct(4, &list);
    assert_eq!(r, NPRSResult::NotEnoughChunks);
}

#[test]
fn code_params_follow_threshold() {
    assert_eq!(code_params(4), Ok(CodeParams { n: 4, k: 2 }));
    assert_eq!(code_params(65536), Ok(CodeParams { n: 65536, k: 21846 }));
    assert_eq!(code_params(1), Err(NPRSResult::NotEnoughValidators));
    assert_eq!(code_params(65537), Err(NPRSResult::TooManyValidators));
}

#[test]
fn fewer_than_threshold_of_seven_is_not_enough() {
    // seven validators: threshold three, so two chunks do not suffice
    assert_eq!(recovery_threshold(7), Ok(3));
    let payload = b"deadbeefcafe";
    let chunks = encode(7, payload);
    let mut out = DataBlock { array: vec![9] };
    let r = ECCR_reconstruct(7, &pick(&chunks, &[2, 6]), &mut out);
    assert_eq!(r, NPRSResult::NotEnoughChunks);
    assert_eq!(out.array, vec![9]);
    let (r, out) = reconstruct(7, &pick(&chunks, &[2, 6, 4]));
    assert_eq!(r, NPRSResult::Success);
    assert_eq!(&out[..payload.len()], &payload[..]);
}

#[test]
fn duplicate_index_keeps_later_chunk() {
    let chunks = encode(4, b"deadbeef");
    let mut list = pick(&chunks, &[0]);
    list.data.push(chunk(&chunks.data[2].data.array, 0));
    let (r, _) = reconstruct(4, &list);
    assert_eq!(r, NPRSResult::NotEnoughChunks);
}
