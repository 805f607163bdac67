//! The exit cache: how many validators exit at each epoch.
use vstd::prelude::*;
use crate::chain_spec::{ChainSpec, FAR_FUTURE_EPOCH};
use crate::error::Error;
use crate::validator::Validator;

verus! {

/// The number of entries of `vals[..k]` whose exit epoch is `epoch`
/// (never counting unscheduled exits).
pub open spec fn exit_count_upto(vals: Seq<Validator>, epoch: u64, k: nat) -> nat
    decreases k,
{
    if k == 0 {
        0
    } else {
        exit_count_upto(vals, epoch, (k - 1) as nat) + if vals[k - 1].exit_epoch == epoch
            && epoch != FAR_FUTURE_EPOCH {
            1nat
        } else {
            0nat
        }
    }
}

/// A lazily built tally of scheduled validator exits, keyed by exit
/// epoch. Unbuilt until [`ExitCache::new`] fills it from the registry.
#[derive(Debug, Clone, PartialEq, Eq)]
pub struct ExitCache {
    pub initialized: bool,
    /// One entry per exit epoch seen, each with its exit count.
    pub exit_epoch_counts: Vec<(u64, u64)>,
}

impl Default for ExitCache {
    /// The unbuilt cache.
    fn default() -> (r: ExitCache)
        ensures
            !r.initialized,
            r.exit_epoch_counts@.len() == 0,
    {
        ExitCache { initialized: false, exit_epoch_counts: Vec::new() }
    }
}

impl ExitCache {
    /// The tally of `epoch` held by the entry list.
    pub open spec fn count_of(&self, epoch: u64) -> nat {
        if exists|i: int| 0 <= i < self.exit_epoch_counts@.len()
            && (#[trigger] self.exit_epoch_counts@[i]).0 == epoch {
            let i = choose|i: int|
                0 <= i < self.exit_epoch_counts@.len() && (#[trigger] self.exit_epoch_counts@[i]).0
                    == epoch;
            self.exit_epoch_counts@[i].1 as nat
        } else {
            0
        }
    }

    /// Entry epochs are pairwise distinct.
    pub open spec fn keys_unique(&self) -> bool {
        forall|i: int, j: int|
            0 <= i < j < self.exit_epoch_counts@.len() ==> (#[trigger] self.exit_epoch_counts@[i]).0
                != (#[trigger] self.exit_epoch_counts@[j]).0
    }

    /// Succeeds iff the cache has been built.
    pub fn check_initialized(&self) -> (r: Result<(), Error>)
        ensures
            self.initialized ==> r == Ok::<(), Error>(()),
            !self.initialized ==> r == Err::<(), Error>(Error::ExitCacheUninitialized),
    {
        if self.initialized {
            Ok(())
        } else {
            Err(Error::ExitCacheUninitialized)
        }
    }

    /// Builds the cache from the registry: tallies every scheduled exit
    /// epoch. The chain parameters take no part in the tally; they are
    /// accepted for interface parity with the other cache builders.
    pub fn new(validators: &Vec<Validator>, _spec: &ChainSpec) -> (r: Result<ExitCache, Error>)
        ensures
            r matches Ok(c) ==> {
                &&& c.initialized
                &&& c.keys_unique()
                &&& forall|e: u64| #[trigger] c.count_of(e) == exit_count_upto(
                    validators@,
                    e,
                    validators@.len(),
                )
            },
            r is Ok,
    {
        let mut cache = ExitCache { initialized: true, exit_epoch_counts: Vec::new() };
        let mut i: usize = 0;
        while i < validators.len()
            invariant
                i <= validators@.len(),
                cache.initialized,
                cache.keys_unique(),
                forall|e: u64| #[trigger] cache.count_of(e) == exit_count_upto(
                    validators@,
                    e,
                    i as nat,
                ),
                forall|j: int| 0 <= j < cache.exit_epoch_counts@.len()
                    ==> (#[trigger] cache.exit_epoch_counts@[j]).1 <= i,
            decreases validators@.len() - i,
        {
            let v = validators.get(i).unwrap();
            if v.exit_epoch != FAR_FUTURE_EPOCH {
                record_exit(&mut cache, v.exit_epoch, i);
            }
            proof {
                assert forall|e: u64| #[trigger] cache.count_of(e) == exit_count_upto(
                    validators@,
                    e,
                    (i + 1) as nat,
                ) by {
                }
            }
            i = i + 1;
        }
        Ok(cache)
    }
}

/// Adds one exit at `epoch` to the tally.
fn record_exit(cache: &mut ExitCache, epoch: u64, seen: usize)
    requires
        old(cache).keys_unique(),
        epoch != FAR_FUTURE_EPOCH,
        forall|j: int| 0 <= j < old(cache).exit_epoch_counts@.len()
            ==> (#[trigger] old(cache).exit_epoch_counts@[j]).1 <= seen,
        seen < usize::MAX,
    ensures
        final(cache).initialized == old(cache).initialized,
        final(cache).keys_unique(),
        final(cache).count_of(epoch) == old(cache).count_of(epoch) + 1,
        forall|e: u64| e != epoch ==> #[trigger] final(cache).count_of(e) == old(
            cache,
        ).count_of(e),
        forall|j: int| 0 <= j < final(cache).exit_epoch_counts@.len()
            ==> (#[trigger] final(cache).exit_epoch_counts@[j]).1 <= seen + 1,
{
    let n = cache.exit_epoch_counts.len();
    let mut i: usize = 0;
    while i < n
        invariant
            n == cache.exit_epoch_counts@.len(),
            i <= n,
            cache == old(cache),
            old(cache).keys_unique(),
            seen < usize::MAX,
            forall|j: int| 0 <= j < old(cache).exit_epoch_counts@.len()
                ==> (#[trigger] old(cache).exit_epoch_counts@[j]).1 <= seen,
            forall|j: int| 0 <= j < i ==> (#[trigger] cache.exit_epoch_counts@[j]).0 != epoch,
        decreases n - i,
    {
        let entry = *cache.exit_epoch_counts.get(i).unwrap();
        if entry.0 == epoch {
            proof {
                assert(entry.1 <= seen);
            }
            let bumped = (entry.0, entry.1 + 1);
            cache.exit_epoch_counts.set(i, bumped);
            proof {
                let ghost idx = i as int;
                assert(cache.keys_unique());
                assert forall|e: u64| e != epoch implies #[trigger] cache.count_of(e) == old(
                    cache,
                ).count_of(e) by {
                    lemma_count_entry_change(old(cache), cache, idx, e);
                }
                lemma_count_at_entry(cache, idx);
                lemma_count_at_entry(old(cache), idx);
            }
            return ;
        }
        i = i + 1;
    }
    let fresh = (epoch, 1u64);
    cache.exit_epoch_counts.push(fresh);
    proof {
        let ghost idx = old(cache).exit_epoch_counts@.len() as int;
        assert(cache.exit_epoch_counts@[idx].0 == epoch);
        assert(cache.keys_unique());
        assert forall|e: u64| e != epoch implies #[trigger] cache.count_of(e) == old(
            cache,
        ).count_of(e) by {
            lemma_count_entry_change(old(cache), cache, idx, e);
        }
        lemma_count_at_entry(cache, idx);
        assert(old(cache).count_of(epoch) == 0);
    }
}

/// When an entry list holds `epoch` at `idx` and epochs are unique, the
/// tally of `epoch` is that entry's count.
proof fn lemma_count_at_entry(cache: &ExitCache, idx: int)
    requires
        cache.keys_unique(),
        0 <= idx < cache.exit_epoch_counts@.len(),
    ensures
        cache.count_of(cache.exit_epoch_counts@[idx].0) == cache.exit_epoch_counts@[idx].1,
{
    let epoch = cache.exit_epoch_counts@[idx].0;
    assert(exists|i: int| 0 <= i < cache.exit_epoch_counts@.len()
        && (#[trigger] cache.exit_epoch_counts@[i]).0 == epoch);
    let i = choose|i: int|
        0 <= i < cache.exit_epoch_counts@.len() && (#[trigger] cache.exit_epoch_counts@[i]).0
            == epoch;
    assert(i == idx);
}

/// Tallies of other epochs are unchanged when only entry `idx` changes
/// and keeps its epoch, or a new epoch's entry is appended.
proof fn lemma_count_entry_change(a: &ExitCache, b: &ExitCache, idx: int, e: u64)
    requires
        a.keys_unique(),
        b.keys_unique(),
        0 <= idx < b.exit_epoch_counts@.len(),
        a.exit_epoch_counts@.len() == idx || a.exit_epoch_counts@.len() == b.exit_epoch_counts@.len(),
        a.exit_epoch_counts@.len() == idx ==> b.exit_epoch_counts@.len() == idx + 1,
        forall|j: int| 0 <= j < b.exit_epoch_counts@.len() && j != idx
            ==> #[trigger] b.exit_epoch_counts@[j] == a.exit_epoch_counts@[j],
        e != b.exit_epoch_counts@[idx].0,
        a.exit_epoch_counts@.len() == b.exit_epoch_counts@.len() ==> a.exit_epoch_counts@[idx].0
            == b.exit_epoch_counts@[idx].0,
    ensures
        a.count_of(e) == b.count_of(e),
{
    if exists|i: int| 0 <= i < a.exit_epoch_counts@.len()
        && (#[trigger] a.exit_epoch_counts@[i]).0 == e {
        let ia = choose|i: int|
            0 <= i < a.exit_epoch_counts@.len() && (#[trigger] a.exit_epoch_counts@[i]).0 == e;
        assert(ia != idx);
        assert(b.exit_epoch_counts@[ia].0 == e);
        let ca = choose|i: int|
            0 <= i < a.exit_epoch_counts@.len() && (#[trigger] a.exit_epoch_counts@[i]).0 == e;
        let cb = choose|i: int|
            0 <= i < b.exit_epoch_counts@.len() && (#[trigger] b.exit_epoch_counts@[i]).0 == e;
        assert(ca == ia);
        assert(cb == ia);
        assert(a.count_of(e) == a.exit_epoch_counts@[ia].1);
        assert(b.count_of(e) == b.exit_epoch_counts@[ia].1);
    } else {
        if exists|i: int| 0 <= i < b.exit_epoch_counts@.len()
            && (#[trigger] b.exit_epoch_counts@[i]).0 == e {
            let ib = choose|i: int|
                0 <= i < b.exit_epoch_counts@.len() && (#[trigger] b.exit_epoch_counts@[i]).0 == e;
            assert(ib != idx);
            assert(0 <= ib < a.exit_epoch_counts@.len());
            assert(a.exit_epoch_counts@[ib].0 == e);
            assert(false);
        }
        assert(a.count_of(e) == 0);
        assert(b.count_of(e) == 0);
    }
}

} // verus!
