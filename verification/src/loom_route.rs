//! The integer core of the route request a loom task is routed by: the
//! seeds drawn from the task's lineage and summary, and for each slot of
//! the request vector the tick, out of ten thousand, that the slot's value is.
use vstd::prelude::*;
use vstd::string::*;
use vstd::utf8::encode_utf8;
use vstd::wrapping::u64_specs;
use crate::loom_model::{LoomModelError, TaskEnvelope};

verus! {

/// The offset basis of the summary hash.
pub const TEXT_HASH_OFFSET: u64 = 0xcbf2_9ce4_8422_2325;

/// The prime of the summary hash.
pub const TEXT_HASH_PRIME: u64 = 0x100_0000_01b3;

/// The multiplier that mixes a slot's seed.
pub const SLOT_MIX: u64 = 0xff51_afd7_ed55_8ccd;

/// The ticks a slot's unit interval is cut into.
pub const SLOT_TICKS: u64 = 10_000;

/// The hash of a text's bytes: from the offset basis, each byte multiplies
/// the hash by the prime (wrapping) and is then xored into it.
pub open spec fn text_hash_of(bytes: Seq<u8>) -> u64
    decreases bytes.len(),
{
    if bytes.len() == 0 {
        TEXT_HASH_OFFSET
    } else {
        u64_specs::wrapping_mul(text_hash_of(bytes.drop_last()), TEXT_HASH_PRIME) ^ (bytes.last() as u64)
    }
}

/// The stable hash of a text, over its UTF-8 bytes.
pub fn stable_text_hash(text: &str) -> (r: u64)
    ensures
        r == text_hash_of(text.spec_bytes()),
{
    let bytes = text.as_bytes();
    let mut hash: u64 = TEXT_HASH_OFFSET;
    let mut i: usize = 0;
    while i < bytes.len()
        invariant
            i <= bytes@.len(),
            hash == text_hash_of(bytes@.take(i as int)),
        decreases bytes@.len() - i,
    {
        assert(bytes@.take(i + 1).drop_last() =~= bytes@.take(i as int));
        hash = hash.wrapping_mul(TEXT_HASH_PRIME) ^ (bytes[i] as u64);
        i = i + 1;
    }
    assert(bytes@.take(bytes@.len() as int) =~= bytes@);
    hash
}

/// The seeds of a task's route request: its id, root, parent (0 for a root
/// task), prompt, plan, integration group, and the hash of its summary.
pub open spec fn route_seeds(task: TaskEnvelope) -> Seq<u64> {
    seq![
        task.task_id,
        task.root_task_id,
        match task.parent_task_id {
            Some(p) => p,
            None => 0,
        },
        task.prompt_id,
        task.plan_id,
        task.integration_group_id,
        text_hash_of(encode_utf8(task.summary@)),
    ]
}

/// The seed of slot `index`: the seeds taken in turn, each plus 31 times the
/// slot's index (wrapping).
pub open spec fn slot_seed(seeds: Seq<u64>, index: nat) -> u64 {
    u64_specs::wrapping_add(seeds[(index % 7) as int], u64_specs::wrapping_mul(index as u64, 31))
}

/// The tick of a seed: the seed mixed with its high bits, modulo the tick count.
pub open spec fn slot_tick(seed: u64) -> u64 {
    (seed ^ u64_specs::wrapping_mul(seed >> 33u32, SLOT_MIX)) % SLOT_TICKS
}

/// The tick, out of `SLOT_TICKS`, of the unit-interval value a seed maps to.
pub fn unit_interval_tick(seed: u64) -> (r: u64)
    ensures
        r == slot_tick(seed),
        r < SLOT_TICKS,
{
    let mixed = seed ^ (seed >> 33u32).wrapping_mul(SLOT_MIX);
    mixed % SLOT_TICKS
}

/// The ticks of the `dimensions` slots of a task's route request vector;
/// a request needs at least one dimension.
pub fn route_vector_ticks(task: &TaskEnvelope, dimensions: usize) -> (r: Result<Vec<u64>, LoomModelError>)
    ensures
        dimensions == 0 ==> r == Err::<Vec<u64>, LoomModelError>(
            LoomModelError::InvalidNumericField { field: "dimensions", reason: "must be greater than zero" },
        ),
        dimensions > 0 ==> (r matches Ok(v) && v@.len() == dimensions && forall|i: int|
            0 <= i < dimensions ==> #[trigger] v@[i] == slot_tick(slot_seed(route_seeds(*task), i as nat))),
{
    if dimensions == 0 {
        return Err(
            LoomModelError::InvalidNumericField { field: "dimensions", reason: "must be greater than zero" },
        );
    }
    let parent = match task.parent_task_id {
        Some(p) => p,
        None => 0,
    };
    let summary_hash = stable_text_hash(task.summary.as_str());
    let seeds: Vec<u64> = vec![
        task.task_id,
        task.root_task_id,
        parent,
        task.prompt_id,
        task.plan_id,
        task.integration_group_id,
        summary_hash,
    ];
    assert(seeds@ =~= route_seeds(*task));
    let mut ticks: Vec<u64> = Vec::new();
    let mut index: usize = 0;
    while index < dimensions
        invariant
            index <= dimensions,
            seeds@ == route_seeds(*task),
            ticks@.len() == index,
            forall|i: int| 0 <= i < index ==> #[trigger] ticks@[i] == slot_tick(
                slot_seed(route_seeds(*task), i as nat),
            ),
        decreases dimensions - index,
    {
        let seed = seeds[index % 7].wrapping_add((index as u64).wrapping_mul(31));
        ticks.push(unit_interval_tick(seed));
        index = index + 1;
    }
    Ok(ticks)
}

} // verus!
