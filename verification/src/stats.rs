use vstd::prelude::*;

verus! {

/// One timed sample, in integers: how many iterations ran on each thread, how
/// many floating-point operations that was in all, and how long it took. Its
/// throughput is the ratio of the last two.
#[derive(Clone, Copy, Debug, PartialEq, Eq, Structural)]
pub struct Measurement {
    pub sample_iters: usize,
    pub flops: usize,
    pub elapsed_nanos: u128,
}

/// The samples that stay when those flagged in `outliers` are taken out, in
/// their order. A sample without a flag stays.
pub open spec fn kept_samples(samples: Seq<Measurement>, outliers: Seq<bool>) -> Seq<Measurement>
    decreases samples.len(),
{
    if samples.len() == 0 {
        Seq::empty()
    } else {
        let last = samples.len() - 1;
        let before = kept_samples(samples.drop_last(), outliers);
        if last < outliers.len() && outliers[last] {
            before
        } else {
            before.push(samples[last])
        }
    }
}

/// The outcome of a phase: its samples in the order taken, the iterations it
/// ran on each thread, and the time from its start to its end.
#[derive(Debug)]
pub struct BenchmarkStats {
    pub samples: Vec<Measurement>,
    pub total_iters: usize,
    pub total_time_nanos: u128,
}

impl BenchmarkStats {
    /// The outcome of a phase with these samples and totals.
    pub fn new(samples: Vec<Measurement>, total_iters: usize, total_time_nanos: u128) -> (stats:
        BenchmarkStats)
        ensures
            stats.samples == samples,
            stats.total_iters == total_iters,
            stats.total_time_nanos == total_time_nanos,
    {
        BenchmarkStats { samples, total_iters, total_time_nanos }
    }

    /// The number of samples.
    pub fn len(&self) -> (count: usize)
        ensures
            count == self.samples@.len(),
    {
        self.samples.len()
    }

    /// The time that the phase took, in nanoseconds.
    pub fn total_time(&self) -> (nanos: u128)
        ensures
            nanos == self.total_time_nanos,
    {
        self.total_time_nanos
    }

    /// The iterations that the phase ran on each thread.
    pub fn total_iters(&self) -> (count: usize)
        ensures
            count == self.total_iters,
    {
        self.total_iters
    }

    /// The same outcome without the samples flagged in `outliers`: sample `i`
    /// leaves where `outliers[i]` is set. The totals still describe the whole
    /// phase, so they stay as they are.
    pub fn without_outliers(&self, outliers: &Vec<bool>) -> (pruned: BenchmarkStats)
        ensures
            pruned.samples@ == kept_samples(self.samples@, outliers@),
            pruned.total_iters == self.total_iters,
            pruned.total_time_nanos == self.total_time_nanos,
    {
        let mut kept: Vec<Measurement> = Vec::new();
        let mut i: usize = 0;
        while i < self.samples.len()
            invariant
                i <= self.samples@.len(),
                kept@ == kept_samples(self.samples@.take(i as int), outliers@),
            decreases self.samples@.len() - i,
        {
            proof {
                assert(self.samples@.take(i + 1).drop_last() =~= self.samples@.take(i as int));
            }
            let flagged = i < outliers.len() && outliers[i];
            if !flagged {
                kept.push(self.samples[i]);
            }
            i += 1;
        }
        proof {
            assert(self.samples@.take(i as int) =~= self.samples@);
        }
        BenchmarkStats {
            samples: kept,
            total_iters: self.total_iters,
            total_time_nanos: self.total_time_nanos,
        }
    }
}

/// Taking out flagged samples never adds one: what stays is no longer than
/// what there was.
pub proof fn lemma_kept_samples_len(samples: Seq<Measurement>, outliers: Seq<bool>)
    ensures
        kept_samples(samples, outliers).len() <= samples.len(),
    decreases samples.len(),
{
    if samples.len() > 0 {
        lemma_kept_samples_len(samples.drop_last(), outliers);
    }
}

/// Where no sample is flagged, every sample stays, in its place.
pub proof fn lemma_kept_samples_without_flags(samples: Seq<Measurement>, outliers: Seq<bool>)
    requires
        forall|i: int| 0 <= i < samples.len() && i < outliers.len() ==> !outliers[i],
    ensures
        kept_samples(samples, outliers) == samples,
    decreases samples.len(),
{
    if samples.len() > 0 {
        lemma_kept_samples_without_flags(samples.drop_last(), outliers);
        assert(samples.drop_last().push(samples.last()) =~= samples);
    } else {
        assert(samples =~= Seq::empty());
    }
}

/// A sample that is not flagged stays, and every sample that stays was there
/// and was not flagged.
pub proof fn lemma_kept_samples_members(
    samples: Seq<Measurement>,
    outliers: Seq<bool>,
    sample: Measurement,
)
    ensures
        kept_samples(samples, outliers).contains(sample) <==> exists|i: int|
            0 <= i < samples.len() && samples[i] == sample && !(i < outliers.len()
                && outliers[i]),
    decreases samples.len(),
{
    let kept = kept_samples(samples, outliers);
    if samples.len() > 0 {
        let last = samples.len() - 1;
        let front = samples.drop_last();
        let before = kept_samples(front, outliers);
        lemma_kept_samples_members(front, outliers, sample);
        let stays = !(last < outliers.len() && outliers[last]);
        if kept.contains(sample) {
            let j = choose|j: int| 0 <= j < kept.len() && kept[j] == sample;
            if stays && j == before.len() {
                assert(samples[last] == sample);
            } else {
                assert(before[j] == sample);
                assert(before.contains(sample));
                let i = choose|i: int|
                    0 <= i < front.len() && front[i] == sample && !(i < outliers.len()
                        && outliers[i]);
                assert(samples[i] == sample);
            }
        }
        if exists|i: int|
            0 <= i < samples.len() && samples[i] == sample && !(i < outliers.len()
                && outliers[i]) {
            let i = choose|i: int|
                0 <= i < samples.len() && samples[i] == sample && !(i < outliers.len()
                    && outliers[i]);
            if i == last {
                assert(kept[before.len() as int] == sample);
            } else {
                assert(front[i] == sample);
                assert(before.contains(sample));
                let j = choose|j: int| 0 <= j < before.len() && before[j] == sample;
                assert(kept[j] == sample);
            }
        }
    }
}

} // verus!
