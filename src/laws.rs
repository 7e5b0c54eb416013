use vstd::prelude::*;
use crate::types::{Chunk, NPRSResult};
use crate::params::{threshold, valid_validator_count};
use crate::codec::{encoded_shards, lower_power_of_two, present_count, shard_len};
use crate::coding::{
    check_chunks, considered, empty_slots, fill_slots, received_slots, reconstruct_status,
};

verus! {

/// The number of chunks in `cs` that are not absent.
pub open spec fn nonabsent_count(cs: Seq<Chunk>) -> nat
    decreases cs.len(),
{
    if cs.len() == 0 {
        0
    } else {
        nonabsent_count(cs.drop_first()) + if cs[0].is_absent() { 0nat } else { 1nat }
    }
}

/// Every chunk of `cs` before position `j` names a slot below `n`, and is
/// absent or has `len` bytes.
pub open spec fn well_formed_prefix(cs: Seq<Chunk>, n: nat, len: nat, j: int) -> bool {
    forall|i: int| 0 <= i < j ==> {
        let c = #[trigger] cs[i];
        c.index < n && (c.is_absent() || c.bytes().len() == len)
    }
}

/// Some chunk before position `j` is present.
pub open spec fn present_before(cs: Seq<Chunk>, j: int) -> bool {
    exists|i: int| 0 <= i < j && !(#[trigger] cs[i]).is_absent()
}

/// Checking a well-formed prefix of chunks gives no error, and fixes the
/// shard length at `len` once a chunk is present.
proof fn lemma_check_prefix(cs: Seq<Chunk>, n: nat, e: Option<nat>, len: nat, j: int)
    requires
        0 <= j <= cs.len(),
        len > 0,
        len % 2 == 0,
        e is None || e == Some(len),
        well_formed_prefix(cs, n, len, j),
    ensures
        check_chunks(cs, n, e) == check_chunks(
            cs.skip(j),
            n,
            if present_before(cs, j) { Some(len) } else { e },
        ),
    decreases j,
{
    if j == 0 {
        assert(cs.skip(0) =~= cs);
    } else {
        let rest = cs.drop_first();
        assert(rest.skip(j - 1) =~= cs.skip(j));
        assert(well_formed_prefix(rest, n, len, j - 1)) by {
            assert forall|i: int| 0 <= i < j - 1 implies {
                let c = #[trigger] rest[i];
                c.index < n && (c.is_absent() || c.bytes().len() == len)
            } by {
                assert(rest[i] == cs[i + 1]);
            }
        }
        let c = cs[0];
        assert(c == cs[0]);
        if c.is_absent() {
            lemma_check_prefix(rest, n, e, len, j - 1);
            if present_before(cs, j) {
                let i = choose|i: int| 0 <= i < j && !(#[trigger] cs[i]).is_absent();
                assert(rest[i - 1] == cs[i]);
                assert(present_before(rest, j - 1));
            }
            if present_before(rest, j - 1) {
                let i = choose|i: int| 0 <= i < j - 1 && !(#[trigger] rest[i]).is_absent();
                assert(cs[i + 1] == rest[i]);
            }
        } else {
            lemma_check_prefix(rest, n, Some(len), len, j - 1);
            assert(present_before(cs, j));
        }
    }
}

/// A chunk whose index is not below `n`, seen before any other fault, fails
/// reconstruction with that index and `n`.
pub proof fn lemma_index_out_of_bounds(n: nat, cs: Seq<Chunk>, len: nat, j: int)
    requires
        valid_validator_count(n),
        0 <= j < n,
        j < cs.len(),
        cs[j].index >= n,
        len > 0,
        len % 2 == 0,
        well_formed_prefix(cs, n, len, j),
    ensures
        reconstruct_status(n, cs) == (NPRSResult::ChunkIndexOutOfBounds {
            chunk_index: cs[j].index,
            n_validators: n as u64,
        }),
{
    let c = considered(cs, n);
    assert(c[j] == cs[j]);
    assert(well_formed_prefix(c, n, len, j)) by {
        assert forall|i: int| 0 <= i < j implies (#[trigger] c[i]) == cs[i] by {}
    }
    lemma_check_prefix(c, n, None, len, j);
    assert(c.skip(j)[0] == cs[j]);
}

/// When the first chunk present has an odd length, reconstruction fails with
/// `UnevenLength`, provided no earlier chunk names a slot out of bounds.
pub proof fn lemma_odd_length(n: nat, cs: Seq<Chunk>, j: int)
    requires
        valid_validator_count(n),
        0 <= j < n,
        j < cs.len(),
        cs[j].index < n,
        cs[j].bytes().len() % 2 == 1,
        forall|i: int| 0 <= i < j ==> (#[trigger] cs[i]).index < n && cs[i].is_absent(),
    ensures
        reconstruct_status(n, cs) == NPRSResult::UnevenLength,
{
    let c = considered(cs, n);
    assert(c[j] == cs[j]);
    assert(well_formed_prefix(c, n, 2, j)) by {
        assert forall|i: int| 0 <= i < j implies (#[trigger] c[i]) == cs[i] by {}
    }
    lemma_check_prefix(c, n, None, 2, j);
    if present_before(c, j) {
        let i = choose|i: int| 0 <= i < j && !(#[trigger] c[i]).is_absent();
        assert(c[i] == cs[i]);
    }
    assert(c.skip(j)[0] == cs[j]);
}

/// Two present chunks of different lengths fail reconstruction with
/// `NonUniformChunks`: the first present chunk `a` has an even length `len`,
/// chunk `b` has another nonzero length, and nothing before `b` is at fault.
pub proof fn lemma_non_uniform(n: nat, cs: Seq<Chunk>, len: nat, a: int, b: int)
    requires
        valid_validator_count(n),
        0 <= a < b < n,
        b < cs.len(),
        len > 0,
        len % 2 == 0,
        !cs[a].is_absent(),
        cs[b].index < n,
        !cs[b].is_absent(),
        cs[b].bytes().len() != len,
        well_formed_prefix(cs, n, len, b),
    ensures
        reconstruct_status(n, cs) == NPRSResult::NonUniformChunks,
{
    let c = considered(cs, n);
    assert(c[b] == cs[b]);
    assert(c[a] == cs[a]);
    assert(well_formed_prefix(c, n, len, b)) by {
        assert forall|i: int| 0 <= i < b implies (#[trigger] c[i]) == cs[i] by {}
    }
    lemma_check_prefix(c, n, None, len, b);
    assert(present_before(c, b));
    assert(c.skip(b)[0] == cs[b]);
}

proof fn lemma_empty_slots_count(n: nat)
    ensures
        present_count(empty_slots(n)) == 0,
    decreases n,
{
    if n > 0 {
        assert(empty_slots(n).drop_last() =~= empty_slots((n - 1) as nat));
        lemma_empty_slots_count((n - 1) as nat);
    }
}

proof fn lemma_update_count(s: Seq<Option<Seq<u8>>>, i: int, x: Seq<u8>)
    requires
        0 <= i < s.len(),
    ensures
        present_count(s.update(i, Some(x))) <= present_count(s) + 1,
    decreases s.len(),
{
    let t = s.update(i, Some(x));
    if i == s.len() - 1 {
        assert(t.drop_last() =~= s.drop_last());
    } else {
        assert(t.drop_last() =~= s.drop_last().update(i, Some(x)));
        lemma_update_count(s.drop_last(), i, x);
    }
}

proof fn lemma_fill_count(cs: Seq<Chunk>, slots: Seq<Option<Seq<u8>>>)
    ensures
        present_count(fill_slots(cs, slots)) <= present_count(slots) + nonabsent_count(cs),
    decreases cs.len(),
{
    if cs.len() > 0 {
        let c = cs[0];
        if c.is_absent() || c.index >= slots.len() {
            lemma_fill_count(cs.drop_first(), slots);
        } else {
            let next = slots.update(c.index as int, Some(c.bytes()));
            lemma_update_count(slots, c.index as int, c.bytes());
            lemma_fill_count(cs.drop_first(), next);
        }
    }
}

/// Reconstruction from well-formed chunks of which fewer than the recovery
/// threshold are present fails with `NotEnoughChunks`.
pub proof fn lemma_not_enough_chunks(n: nat, cs: Seq<Chunk>, len: nat)
    requires
        valid_validator_count(n),
        len > 0,
        len % 2 == 0,
        well_formed_prefix(considered(cs, n), n, len, considered(cs, n).len() as int),
        nonabsent_count(considered(cs, n)) < threshold(n),
    ensures
        reconstruct_status(n, cs) == NPRSResult::NotEnoughChunks,
{
    let c = considered(cs, n);
    lemma_check_prefix(c, n, None, len, c.len() as int);
    assert(c.skip(c.len() as int) =~= Seq::<Chunk>::empty());
    lemma_empty_slots_count(n);
    lemma_fill_count(c, empty_slots(n));
    assert(received_slots(n, cs) == fill_slots(c, empty_slots(n)));
}

proof fn lemma_lower_power_of_two_positive(k: nat)
    ensures
        lower_power_of_two(k) >= 1,
    decreases k,
{
    if k > 1 {
        lemma_lower_power_of_two_positive(k / 2);
    }
}

proof fn lemma_update_none_count(s: Seq<Option<Seq<u8>>>, i: int, x: Seq<u8>)
    requires
        0 <= i < s.len(),
        s[i] is None,
    ensures
        present_count(s.update(i, Some(x))) == present_count(s) + 1,
    decreases s.len(),
{
    let t = s.update(i, Some(x));
    if i == s.len() - 1 {
        assert(t.drop_last() =~= s.drop_last());
    } else {
        assert(t.drop_last() =~= s.drop_last().update(i, Some(x)));
        lemma_update_none_count(s.drop_last(), i, x);
    }
}

/// The chunks at positions `picked` of `all`.
pub open spec fn picked_chunks(all: Seq<Chunk>, picked: Seq<int>) -> Seq<Chunk> {
    picked.map_values(|p: int| all[p])
}

/// The slots that hold the shards of `shards` at the indices in `picked`.
pub open spec fn picked_slots(n: nat, shards: Seq<Seq<u8>>, picked: Seq<int>) -> Seq<Option<Seq<u8>>> {
    Seq::new(n, |i: int| if picked.contains(i) { Some(shards[i]) } else { None })
}

/// Chunk `i` of `all` holds shard `i` of `shards`, which has `len` bytes.
pub open spec fn chunks_of_shards(all: Seq<Chunk>, shards: Seq<Seq<u8>>, len: nat) -> bool {
    forall|i: int| 0 <= i < all.len() ==> {
        let c = #[trigger] all[i];
        &&& c.index == i
        &&& c.bytes() == shards[i]
        &&& c.bytes().len() == len
    }
}

proof fn lemma_fill_picked(
    n: nat,
    shards: Seq<Seq<u8>>,
    len: nat,
    all: Seq<Chunk>,
    picked: Seq<int>,
    s: Seq<Option<Seq<u8>>>,
)
    requires
        all.len() == n,
        s.len() == n,
        len > 0,
        chunks_of_shards(all, shards, len),
        forall|j: int| 0 <= j < picked.len() ==> 0 <= #[trigger] picked[j] < n,
        picked.no_duplicates(),
        forall|j: int| 0 <= j < picked.len() ==> (#[trigger] s[picked[j]]) is None,
    ensures
        fill_slots(picked_chunks(all, picked), s) =~= Seq::new(
            n,
            |i: int| if picked.contains(i) { Some(shards[i]) } else { s[i] },
        ),
        present_count(fill_slots(picked_chunks(all, picked), s)) == present_count(s) + picked.len(),
    decreases picked.len(),
{
    let cs = picked_chunks(all, picked);
    if picked.len() > 0 {
        let p = picked[0];
        let rest = picked.drop_first();
        let c = all[p];
        assert(cs[0] == c);
        assert(cs.drop_first() =~= picked_chunks(all, rest));
        let next = s.update(p, Some(c.bytes()));
        lemma_update_none_count(s, p, c.bytes());
        assert forall|j: int| 0 <= j < rest.len() implies (#[trigger] next[rest[j]]) is None by {
            assert(rest[j] == picked[j + 1]);
            assert(picked[j + 1] != picked[0]);
            assert(s[picked[j + 1]] is None);
        }
        assert forall|j: int| 0 <= j < rest.len() implies 0 <= #[trigger] rest[j] < n by {
            assert(rest[j] == picked[j + 1]);
        }
        lemma_fill_picked(n, shards, len, all, rest, next);
        assert forall|i: int| #![auto] 0 <= i < n implies picked.contains(i) == (i == p || rest.contains(i)) by {
            if picked.contains(i) && i != p {
                let j = choose|j: int| 0 <= j < picked.len() && picked[j] == i;
                assert(rest[j - 1] == i);
            }
            if rest.contains(i) {
                let j = choose|j: int| 0 <= j < rest.len() && rest[j] == i;
                assert(picked[j + 1] == i);
            }
        }
    }
}

/// Chunks made by `ECCR_obtain_chunks` for `n` validators, picked at any
/// distinct positions, at least as many as the recovery threshold, are
/// accepted by reconstruction, and the codec is
/// handed exactly the encoded shards of the picked indices, each in its own
/// slot. (That the codec then recovers the payload is the codec's own
/// property.)
pub proof fn lemma_encoded_subset_reconstructs(
    n: nat,
    payload: Seq<u8>,
    all: Seq<Chunk>,
    picked: Seq<int>,
)
    requires
        valid_validator_count(n),
        payload.len() > 0,
        all.len() == n,
        chunks_of_shards(
            all,
            encoded_shards(n, threshold(n), payload),
            shard_len(threshold(n), payload.len()),
        ),
        forall|j: int| 0 <= j < picked.len() ==> 0 <= #[trigger] picked[j] < n,
        picked.no_duplicates(),
        picked.len() <= n,
        picked.len() >= threshold(n),
    ensures
        received_slots(n, picked_chunks(all, picked))
            == picked_slots(n, encoded_shards(n, threshold(n), payload), picked),
        reconstruct_status(n, picked_chunks(all, picked)) == NPRSResult::Success,
{
    let k = threshold(n);
    let shards = encoded_shards(n, k, payload);
    let len = shard_len(k, payload.len());
    let kp = lower_power_of_two(k);
    lemma_lower_power_of_two_positive(k);
    let x = (((payload.len() + 1) / 2 + kp - 1) as nat);
    assert(x / kp >= 1) by (nonlinear_arith)
        requires
            x >= kp,
            kp >= 1,
    ;
    assert(len > 0 && len % 2 == 0);
    let cs = picked_chunks(all, picked);
    assert(considered(cs, n) == cs);
    assert(well_formed_prefix(cs, n, len, cs.len() as int)) by {
        assert forall|i: int| 0 <= i < cs.len() implies {
            let c = #[trigger] cs[i];
            c.index < n && (c.is_absent() || c.bytes().len() == len)
        } by {
            assert(cs[i] == all[picked[i]]);
        }
    }
    lemma_check_prefix(cs, n, None, len, cs.len() as int);
    assert(cs.skip(cs.len() as int) =~= Seq::<Chunk>::empty());
    lemma_empty_slots_count(n);
    lemma_fill_picked(n, shards, len, all, picked, empty_slots(n));
    assert(received_slots(n, cs) =~= picked_slots(n, shards, picked));
}

} // verus!
