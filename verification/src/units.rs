//! The four kinds of processing unit that cycle through the pipeline,
//! and the verified buffer work done on them when a task executes.
//!
//! A unit is a reusable, fixed-capacity buffer object.  The scheduler
//! treats a unit as opaque beyond its identity and whether it holds
//! pending data; the worker-side execution of the two data-movement
//! stages (depositing samples into a binning buffer, folding binning
//! buffers into the running sum) is plain buffer arithmetic and is
//! verified here.  Light amounts are carried as fixed-point `u64`
//! values; additions clamp at the largest representable value.

use vstd::prelude::*;

verus! {

/// One simulated light-transport sample, already mapped into device
/// space: the buffer cell it lands in and the amount of light it
/// deposits there.
pub struct Sample {
    pub cell: usize,
    pub amount: u64,
}

/// Holds one batch of simulated samples.
pub struct SimulationUnit {
    pub id: usize,
    pub samples: Vec<Sample>,
}

/// Holds a histogram-like buffer that samples are deposited into.
pub struct BinningUnit {
    pub id: usize,
    pub buffer: Vec<u64>,
}

/// Holds the running sum of every binning buffer folded in so far.
pub struct AccumulationUnit {
    pub id: usize,
    pub buffer: Vec<u64>,
}

/// Produces the display-ready image from the running sum.
pub struct ConversionUnit {
    pub id: usize,
}

/// True when every cell of the buffer is zero.
pub open spec fn all_zero(s: Seq<u64>) -> bool {
    forall|i: int| 0 <= i < s.len() ==> s[i] == 0
}

/// Addition of light amounts, clamped at the largest representable
/// value.
pub open spec fn sat_add_spec(a: u64, b: u64) -> u64 {
    if a + b <= u64::MAX {
        (a + b) as u64
    } else {
        u64::MAX
    }
}

/// Clamped addition of two light amounts.
pub fn sat_add(a: u64, b: u64) -> (r: u64)
    ensures
        r == sat_add_spec(a, b),
{
    if a <= u64::MAX - b {
        a + b
    } else {
        u64::MAX
    }
}

/// The buffer after one sample has been deposited into its cell.
pub open spec fn deposit_one(buf: Seq<u64>, s: Sample) -> Seq<u64> {
    buf.update(s.cell as int, sat_add_spec(buf[s.cell as int], s.amount))
}

/// The buffer after a whole batch of samples has been deposited, in
/// order.
pub open spec fn deposit_batch(buf: Seq<u64>, samples: Seq<Sample>) -> Seq<u64>
    decreases samples.len(),
{
    if samples.len() == 0 {
        buf
    } else {
        deposit_one(deposit_batch(buf, samples.drop_last()), samples.last())
    }
}

/// The buffer after the batches of a whole sequence of simulation
/// units have been deposited, in order.
pub open spec fn deposit_units(buf: Seq<u64>, units: Seq<SimulationUnit>) -> Seq<u64>
    decreases units.len(),
{
    if units.len() == 0 {
        buf
    } else {
        deposit_one_unit(deposit_units(buf, units.drop_last()), units.last())
    }
}

/// The buffer after one simulation unit's batch has been deposited.
pub open spec fn deposit_one_unit(buf: Seq<u64>, unit: SimulationUnit) -> Seq<u64> {
    deposit_batch(buf, unit.samples@)
}

/// Cell-wise clamped sum of two buffers of equal length.
pub open spec fn add_buffers(a: Seq<u64>, b: Seq<u64>) -> Seq<u64> {
    Seq::new(a.len(), |i: int| sat_add_spec(a[i], b[i]))
}

/// The running sum after the buffers of a whole sequence of binning
/// units have been folded in, in order.
pub open spec fn accumulate_units(buf: Seq<u64>, units: Seq<BinningUnit>) -> Seq<u64>
    decreases units.len(),
{
    if units.len() == 0 {
        buf
    } else {
        add_buffers(accumulate_units(buf, units.drop_last()), units.last().buffer@)
    }
}

/// Depositing a batch of in-range samples never changes the buffer's
/// length.
pub proof fn lemma_deposit_batch_len(buf: Seq<u64>, samples: Seq<Sample>)
    requires
        forall|i: int| 0 <= i < samples.len() ==> (#[trigger] samples[i]).cell < buf.len(),
    ensures
        deposit_batch(buf, samples).len() == buf.len(),
    decreases samples.len(),
{
    if samples.len() > 0 {
        lemma_deposit_batch_len(buf, samples.drop_last());
    }
}

/// Depositing unit batches of in-range samples never changes the
/// buffer's length.
pub proof fn lemma_deposit_units_len(buf: Seq<u64>, units: Seq<SimulationUnit>)
    requires
        forall|j: int, i: int|
            0 <= j < units.len() && 0 <= i < units[j].samples@.len()
                ==> (#[trigger] units[j].samples@[i]).cell < buf.len(),
    ensures
        deposit_units(buf, units).len() == buf.len(),
    decreases units.len(),
{
    if units.len() > 0 {
        lemma_deposit_units_len(buf, units.drop_last());
        lemma_deposit_batch_len(deposit_units(buf, units.drop_last()), units.last().samples@);
    }
}

/// Folding in binning buffers never changes the running sum's length.
pub proof fn lemma_accumulate_units_len(buf: Seq<u64>, units: Seq<BinningUnit>)
    ensures
        accumulate_units(buf, units).len() == buf.len(),
    decreases units.len(),
{
    if units.len() > 0 {
        lemma_accumulate_units_len(buf, units.drop_last());
    }
}

/// Deposit every sample of one simulation unit into the binning
/// buffer, then clear the unit's batch so it can be recycled.
pub fn bin_samples(target: &mut BinningUnit, source: &mut SimulationUnit)
    requires
        forall|i: int|
            0 <= i < old(source).samples@.len() ==> (#[trigger] old(source).samples@[i]).cell
                < old(target).buffer@.len(),
    ensures
        final(target).id == old(target).id,
        final(target).buffer@ == deposit_batch(old(target).buffer@, old(source).samples@),
        final(target).buffer@.len() == old(target).buffer@.len(),
        final(source).id == old(source).id,
        final(source).samples@.len() == 0,
{
    let n = source.samples.len();
    let mut i: usize = 0;
    while i < n
        invariant
            n == source.samples@.len(),
            0 <= i <= n,
            source.samples@ == old(source).samples@,
            source.id == old(source).id,
            target.id == old(target).id,
            target.buffer@.len() == old(target).buffer@.len(),
            forall|k: int|
                0 <= k < n ==> (#[trigger] source.samples@[k]).cell < old(target).buffer@.len(),
            target.buffer@ == deposit_batch(old(target).buffer@, source.samples@.take(i as int)),
        decreases n - i,
    {
        let c = source.samples[i].cell;
        let a = source.samples[i].amount;
        let v = sat_add(target.buffer[c], a);
        target.buffer[c] = v;
        proof {
            let taken = source.samples@.take(i + 1);
            assert(taken.drop_last() =~= source.samples@.take(i as int));
            assert(taken.last() == source.samples@[i as int]);
        }
        i = i + 1;
    }
    proof {
        assert(source.samples@.take(n as int) =~= source.samples@);
    }
    source.samples.clear();
}

/// Execute a `Bin` task's data movement: deposit every sample of every
/// source unit into the target's buffer, clearing each source batch.
pub fn execute_bin_task(target: &mut BinningUnit, sources: &mut Vec<SimulationUnit>)
    requires
        forall|j: int, i: int|
            0 <= j < old(sources)@.len() && 0 <= i < old(sources)@[j].samples@.len()
                ==> (#[trigger] old(sources)@[j].samples@[i]).cell < old(target).buffer@.len(),
    ensures
        final(target).id == old(target).id,
        final(target).buffer@ == deposit_units(old(target).buffer@, old(sources)@),
        final(target).buffer@.len() == old(target).buffer@.len(),
        final(sources)@.len() == old(sources)@.len(),
        forall|j: int|
            0 <= j < final(sources)@.len() ==> (#[trigger] final(sources)@[j]).id
                == old(sources)@[j].id && final(sources)@[j].samples@.len() == 0,
{
    let n = sources.len();
    let mut j: usize = 0;
    while j < n
        invariant
            n == sources@.len(),
            n == old(sources)@.len(),
            0 <= j <= n,
            target.id == old(target).id,
            target.buffer@.len() == old(target).buffer@.len(),
            forall|k: int| j <= k < n ==> #[trigger] sources@[k] == old(sources)@[k],
            forall|k: int|
                0 <= k < j ==> (#[trigger] sources@[k]).id == old(sources)@[k].id
                    && sources@[k].samples@.len() == 0,
            forall|jj: int, i: int|
                0 <= jj < n && 0 <= i < old(sources)@[jj].samples@.len()
                    ==> (#[trigger] old(sources)@[jj].samples@[i]).cell
                    < old(target).buffer@.len(),
            target.buffer@ == deposit_units(old(target).buffer@, old(sources)@.take(j as int)),
        decreases n - j,
    {
        proof {
            lemma_deposit_units_len(old(target).buffer@, old(sources)@.take(j as int));
        }
        bin_samples(target, &mut sources[j]);
        proof {
            let taken = old(sources)@.take(j + 1);
            assert(taken.drop_last() =~= old(sources)@.take(j as int));
            assert(taken.last() == old(sources)@[j as int]);
        }
        j = j + 1;
    }
    proof {
        assert(old(sources)@.take(n as int) =~= old(sources)@);
    }
}

/// Fold one binning buffer into the running sum, cell by cell, with
/// clamped addition.
fn accumulate_buffer(target: &mut Vec<u64>, source: &Vec<u64>)
    requires
        source@.len() == old(target)@.len(),
    ensures
        final(target)@ == add_buffers(old(target)@, source@),
{
    let n = target.len();
    let mut i: usize = 0;
    while i < n
        invariant
            n == target@.len(),
            n == source@.len(),
            0 <= i <= n,
            forall|k: int| 0 <= k < i ==> target@[k] == sat_add_spec(old(target)@[k], source@[k]),
            forall|k: int| i <= k < n ==> target@[k] == old(target)@[k],
        decreases n - i,
    {
        let v = sat_add(target[i], source[i]);
        target[i] = v;
        i = i + 1;
    }
    proof {
        assert(target@ =~= add_buffers(old(target)@, source@));
    }
}

/// A fresh all-zero buffer of the given length.
pub fn new_buffer(n: usize) -> (v: Vec<u64>)
    ensures
        v@.len() == n,
        all_zero(v@),
{
    let mut v: Vec<u64> = Vec::new();
    let mut i: usize = 0;
    while i < n
        invariant
            0 <= i <= n,
            v@.len() == i,
            all_zero(v@),
        decreases n - i,
    {
        v.push(0);
        i = i + 1;
    }
    v
}

/// Reset a buffer to all-zero, keeping its length.
fn zero_buffer(buf: &mut Vec<u64>)
    ensures
        final(buf)@.len() == old(buf)@.len(),
        all_zero(final(buf)@),
{
    let n = buf.len();
    let mut i: usize = 0;
    while i < n
        invariant
            n == buf@.len(),
            0 <= i <= n,
            forall|k: int| 0 <= k < i ==> buf@[k] == 0,
        decreases n - i,
    {
        buf[i] = 0;
        i = i + 1;
    }
}

/// Execute an `Accumulate` task's data movement: add each source
/// binning buffer into the target's running sum, then reset every
/// source buffer to all-zero for reuse.  The clearing of the sources
/// is an observable side effect: the whole accumulated amount now
/// lives in the target alone.
pub fn execute_accumulate_task(target: &mut AccumulationUnit, sources: &mut Vec<BinningUnit>)
    requires
        forall|j: int|
            0 <= j < old(sources)@.len() ==> (#[trigger] old(sources)@[j]).buffer@.len()
                == old(target).buffer@.len(),
    ensures
        final(target).id == old(target).id,
        final(target).buffer@ == accumulate_units(old(target).buffer@, old(sources)@),
        final(target).buffer@.len() == old(target).buffer@.len(),
        final(sources)@.len() == old(sources)@.len(),
        forall|j: int|
            0 <= j < final(sources)@.len() ==> (#[trigger] final(sources)@[j]).id
                == old(sources)@[j].id && final(sources)@[j].buffer@.len()
                == old(sources)@[j].buffer@.len() && all_zero(final(sources)@[j].buffer@),
{
    let n = sources.len();
    let mut j: usize = 0;
    while j < n
        invariant
            n == sources@.len(),
            n == old(sources)@.len(),
            0 <= j <= n,
            target.id == old(target).id,
            target.buffer@.len() == old(target).buffer@.len(),
            forall|k: int| j <= k < n ==> #[trigger] sources@[k] == old(sources)@[k],
            forall|k: int|
                0 <= k < j ==> (#[trigger] sources@[k]).id == old(sources)@[k].id
                    && sources@[k].buffer@.len() == old(sources)@[k].buffer@.len()
                    && all_zero(sources@[k].buffer@),
            forall|k: int|
                0 <= k < n ==> (#[trigger] old(sources)@[k]).buffer@.len()
                    == old(target).buffer@.len(),
            target.buffer@ == accumulate_units(old(target).buffer@, old(sources)@.take(j as int)),
        decreases n - j,
    {
        proof {
            lemma_accumulate_units_len(old(target).buffer@, old(sources)@.take(j as int));
        }
        accumulate_buffer(&mut target.buffer, &sources[j].buffer);
        proof {
            let taken = old(sources)@.take(j + 1);
            assert(taken.drop_last() =~= old(sources)@.take(j as int));
            assert(taken.last() == old(sources)@[j as int]);
        }
        zero_buffer(&mut sources[j].buffer);
        j = j + 1;
    }
    proof {
        assert(old(sources)@.take(n as int) =~= old(sources)@);
    }
}

} // verus!
