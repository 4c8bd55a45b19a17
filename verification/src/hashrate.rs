use vstd::prelude::*;

verus! {

/// The unit in which a hash rate is shown.
#[derive(Debug, Clone, Copy, PartialEq, Eq, Structural)]
pub enum HashRateUnit {
    /// Below 1 000: hashes per second, "H/S".
    Hashes,
    /// Below 1 000 000: thousands, shown as "TH/S".
    Thousands,
    /// Below 1 000 000 000: millions, "MH/S".
    Millions,
    /// Above 1 000 000 000: billions, "GH/S".
    Billions,
}

/// The sum of the positive values among the hash-rate samples.
pub open spec fn positive_sum(samples: Seq<usize>) -> nat
    decreases samples.len(),
{
    if samples.len() == 0 {
        0
    } else {
        positive_sum(samples.drop_last()) + (if samples.last() > 0 { samples.last() as nat } else { 0 })
    }
}

/// The total hash rate of the samples of one interval: the sum of the positive samples.
pub fn hashrate_sum(samples: &Vec<usize>) -> (sum: usize)
    requires
        positive_sum(samples@) <= usize::MAX,
    ensures
        sum == positive_sum(samples@),
{
    let mut sum: usize = 0;
    let mut k: usize = 0;
    while k < samples.len()
        invariant
            k <= samples@.len(),
            positive_sum(samples@) <= usize::MAX,
            sum == positive_sum(samples@.take(k as int)),
        decreases samples@.len() - k,
    {
        proof {
            assert(samples@.take(k + 1).drop_last() =~= samples@.take(k as int));
            lemma_positive_sum_prefix(samples@, k as int + 1);
        }
        if samples[k] > 0 {
            sum = sum + samples[k];
        }
        k = k + 1;
    }
    assert(samples@.take(k as int) =~= samples@);
    sum
}

/// The sum counts every positive sample once: the empty list sums to 0, a one-sample
/// list sums to that sample, and the sum of two lists put together is the sum of their
/// sums.
pub proof fn lemma_positive_sum_adds(s: Seq<usize>, t: Seq<usize>)
    ensures
        positive_sum(Seq::<usize>::empty()) == 0,
        forall|x: usize| #[trigger] positive_sum(seq![x]) == x as nat,
        positive_sum(s + t) == positive_sum(s) + positive_sum(t),
    decreases t.len(),
{
    assert forall|x: usize| #[trigger] positive_sum(seq![x]) == x as nat by {
        let one = seq![x];
        assert(one.len() == 1);
        assert(one.drop_last() =~= Seq::<usize>::empty());
        assert(one.last() == x);
        assert(positive_sum(Seq::<usize>::empty()) == 0);
    }
    if t.len() == 0 {
        assert(s + t =~= s);
    } else {
        lemma_positive_sum_adds(s, t.drop_last());
        assert((s + t).drop_last() =~= s + t.drop_last());
    }
}

/// The sum over a prefix is at most the sum over the whole.
pub proof fn lemma_positive_sum_prefix(samples: Seq<usize>, n: int)
    requires
        0 <= n <= samples.len(),
    ensures
        positive_sum(samples.take(n)) <= positive_sum(samples),
    decreases samples.len() - n,
{
    if n < samples.len() {
        lemma_positive_sum_prefix(samples, n + 1);
        assert(samples.take(n + 1).drop_last() =~= samples.take(n));
    } else {
        assert(samples.take(n) =~= samples);
    }
}

/// The unit of a summed hash rate. A sum of exactly 1 000 000 000 has none: it is
/// neither below nor above the last bound (the display panics there).
pub fn hashrate_unit(sum: usize) -> (unit: HashRateUnit)
    requires
        sum != 1_000_000_000,
    ensures
        sum < 1_000 ==> unit == HashRateUnit::Hashes,
        1_000 <= sum < 1_000_000 ==> unit == HashRateUnit::Thousands,
        1_000_000 <= sum < 1_000_000_000 ==> unit == HashRateUnit::Millions,
        sum > 1_000_000_000 ==> unit == HashRateUnit::Billions,
{
    if sum < 1_000 {
        HashRateUnit::Hashes
    } else if sum < 1_000_000 {
        HashRateUnit::Thousands
    } else if sum < 1_000_000_000 {
        HashRateUnit::Millions
    } else {
        HashRateUnit::Billions
    }
}

impl HashRateUnit {
    /// The value that a sum is divided by for display in this unit.
    pub fn divisor(&self) -> (d: usize)
        ensures
            d == match *self {
                HashRateUnit::Hashes => 1usize,
                HashRateUnit::Thousands => 1_000usize,
                HashRateUnit::Millions => 1_000_000usize,
                HashRateUnit::Billions => 1_000_000_000usize,
            },
    {
        match self {
            HashRateUnit::Hashes => 1,
            HashRateUnit::Thousands => 1_000,
            HashRateUnit::Millions => 1_000_000,
            HashRateUnit::Billions => 1_000_000_000,
        }
    }

    /// The label shown after the value.
    pub fn label(&self) -> (s: &'static str)
        ensures
            s@ == match *self {
                HashRateUnit::Hashes => seq!['H', '/', 'S'],
                HashRateUnit::Thousands => seq!['T', 'H', '/', 'S'],
                HashRateUnit::Millions => seq!['M', 'H', '/', 'S'],
                HashRateUnit::Billions => seq!['G', 'H', '/', 'S'],
            },
    {
        proof {
            reveal_strlit("H/S");
            reveal_strlit("TH/S");
            reveal_strlit("MH/S");
            reveal_strlit("GH/S");
        }
        match self {
            HashRateUnit::Hashes => "H/S",
            HashRateUnit::Thousands => "TH/S",
            HashRateUnit::Millions => "MH/S",
            HashRateUnit::Billions => "GH/S",
        }
    }
}

} // verus!
