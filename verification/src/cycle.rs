//! The cycle-scheduling decisions of the training orchestrator.
//!
//! One cycle walks a fixed order of phases: collect topics, crawl the
//! selected sites, research the topics, then backfill with extra crawls
//! until the duration floor is reached. The decision of what to do next is
//! a pure function of the cycle's progress and the elapsed time; the
//! caller performs the fetches and sleeps and reports the outcomes back.
//! The duration ceiling is checked before every new site or topic, the
//! floor only once the planned work is done.

use vstd::prelude::*;

use rand::seq::SliceRandom;
use rand::RngExt;

verus! {

/// Duration floor of one cycle, in seconds.
pub const MIN_CYCLE_SECS: u64 = 60;

/// Duration ceiling of one cycle, in seconds.
pub const MAX_CYCLE_SECS: u64 = 300;

/// Default seconds between cycles.
pub const DEFAULT_TRAINING_INTERVAL_SECS: u64 = 5;

/// Most mined topics per cycle.
pub const MAX_MINED_TOPICS: usize = 4;

/// Most topics studied per cycle, mined and curiosity together.
pub const MAX_TOPICS: usize = 7;

/// The work the orchestrator performs next within one cycle.
pub enum CycleAction {
    /// Crawl the next selected site at the cycle's depth.
    CrawlSite { url: String, depth: u8 },
    /// Research the next topic.
    ResearchTopic { topic: String },
    /// Crawl one more randomly chosen site at depth 1 to fill the
    /// duration floor.
    BackfillCrawl,
    /// Close the cycle: build the snapshot and persist.
    Finalize,
}

/// The progress of one cycle through its planned work.
pub struct CycleProgress {
    /// The selected sites, crawled front to back.
    pub sites: Vec<String>,
    /// Index of the next site to crawl.
    pub next_site: usize,
    /// The selected topics, researched front to back.
    pub topics: Vec<String>,
    /// Index of the next topic to research.
    pub next_topic: usize,
    /// Errors recorded so far this cycle.
    pub error_count: u64,
    /// Whether the backfill site pool is non-empty.
    pub backfill_available: bool,
    /// The crawl depth of this cycle's planned sites.
    pub depth: u8,
}

impl CycleProgress {
    /// Decides the next unit of work. The ceiling is absolute: once the
    /// elapsed time reaches `MAX_CYCLE_SECS`, no new site or topic phase
    /// begins, whatever work remains. Under the ceiling, remaining sites
    /// come first, then remaining topics. Once the planned work is done,
    /// the cycle keeps crawling one extra site at a time while the elapsed
    /// time is under `MIN_CYCLE_SECS`, no error has occurred and a
    /// candidate site exists; otherwise it finalizes.
    pub fn next_action(&self, elapsed_secs: u64) -> (r: CycleAction)
        requires
            self.next_site <= self.sites@.len(),
            self.next_topic <= self.topics@.len(),
        ensures
            elapsed_secs >= MAX_CYCLE_SECS ==> r is Finalize,
            elapsed_secs < MAX_CYCLE_SECS && self.next_site < self.sites@.len() ==> (r matches
                CycleAction::CrawlSite { url, depth } && url@ == self.sites@[
                self.next_site as int]@ && depth == self.depth),
            elapsed_secs < MAX_CYCLE_SECS && self.next_site == self.sites@.len()
                && self.next_topic < self.topics@.len() ==> (r matches CycleAction::ResearchTopic {
                topic,
            } && topic@ == self.topics@[self.next_topic as int]@),
            elapsed_secs < MAX_CYCLE_SECS && self.next_site == self.sites@.len()
                && self.next_topic == self.topics@.len() ==> (r is BackfillCrawl <==> (elapsed_secs
                < MIN_CYCLE_SECS && self.error_count == 0 && self.backfill_available)),
            elapsed_secs < MAX_CYCLE_SECS && self.next_site == self.sites@.len()
                && self.next_topic == self.topics@.len() && !(elapsed_secs < MIN_CYCLE_SECS
                && self.error_count == 0 && self.backfill_available) ==> r is Finalize,
    {
        if elapsed_secs >= MAX_CYCLE_SECS {
            return CycleAction::Finalize;
        }
        if self.next_site < self.sites.len() {
            return CycleAction::CrawlSite {
                url: self.sites[self.next_site].clone(),
                depth: self.depth,
            };
        }
        if self.next_topic < self.topics.len() {
            return CycleAction::ResearchTopic { topic: self.topics[self.next_topic].clone() };
        }
        if elapsed_secs < MIN_CYCLE_SECS && self.error_count == 0 && self.backfill_available {
            return CycleAction::BackfillCrawl;
        }
        CycleAction::Finalize
    }
}

/// Clamps the inter-cycle interval to 5 through 3600 seconds; absent, the
/// default applies.
pub fn clamp_interval_secs(raw: Option<u64>) -> (r: u64)
    ensures
        r == match raw {
            Option::Some(v) => if v < 5 {
                5int
            } else if v > 3600 {
                3600int
            } else {
                v as int
            },
            Option::None => DEFAULT_TRAINING_INTERVAL_SECS as int,
        },
        5 <= r <= 3600,
{
    match raw {
        Option::Some(v) => {
            if v < 5 {
                5
            } else if v > 3600 {
                3600
            } else {
                v
            }
        },
        Option::None => DEFAULT_TRAINING_INTERVAL_SECS,
    }
}

/// Clamps the crawl depth override to 1 through 3; absent, depth 1.
pub fn clamp_crawl_depth(raw: Option<u8>) -> (r: u8)
    ensures
        r == match raw {
            Option::Some(v) => if v < 1 {
                1int
            } else if v > 3 {
                3int
            } else {
                v as int
            },
            Option::None => 1int,
        },
        1 <= r <= 3,
{
    match raw {
        Option::Some(v) => {
            if v < 1 {
                1
            } else if v > 3 {
                3
            } else {
                v
            }
        },
        Option::None => 1,
    }
}

/// Clamps the random-site count override to 1 through 5; absent, 2 sites.
pub fn clamp_site_count(raw: Option<usize>) -> (r: usize)
    ensures
        r == match raw {
            Option::Some(v) => if v < 1 {
                1int
            } else if v > 5 {
                5int
            } else {
                v as int
            },
            Option::None => 2int,
        },
        1 <= r <= 5,
{
    match raw {
        Option::Some(v) => {
            if v < 1 {
                1
            } else if v > 5 {
                5
            } else {
                v
            }
        },
        Option::None => 2,
    }
}

/// The fixed pool of candidate sites for random crawling.
pub open spec fn spec_site_pool() -> Seq<Seq<char>> {
    seq![
        "https://en.wikipedia.org/wiki/Main_Page"@,
        "https://www.rust-lang.org"@,
        "https://docs.python.org/3/"@,
        "https://developer.mozilla.org/en-US/"@,
        "https://go.dev/doc/"@,
        "https://www.typescriptlang.org/docs/"@,
        "https://news.ycombinator.com"@,
        "https://arxiv.org/list/cs.AI/recent"@,
    ]
}

/// The candidate domain pool the orchestrator shuffles each cycle.
pub fn random_crawl_candidates() -> (r: Vec<String>)
    ensures
        r.deep_view() == spec_site_pool(),
{
    let mut v: Vec<String> = Vec::new();
    v.push("https://en.wikipedia.org/wiki/Main_Page".to_owned());
    v.push("https://www.rust-lang.org".to_owned());
    v.push("https://docs.python.org/3/".to_owned());
    v.push("https://developer.mozilla.org/en-US/".to_owned());
    v.push("https://go.dev/doc/".to_owned());
    v.push("https://www.typescriptlang.org/docs/".to_owned());
    v.push("https://news.ycombinator.com".to_owned());
    v.push("https://arxiv.org/list/cs.AI/recent".to_owned());
    proof {
        assert(v.deep_view() =~~= spec_site_pool());
    }
    v
}

/// The fixed curiosity topics studied alongside mined ones.
pub open spec fn spec_curiosity_topics() -> Seq<Seq<char>> {
    seq![
        "scientific method"@,
        "knowledge representation"@,
        "reasoning under uncertainty"@,
        "systems design"@,
        "human communication patterns"@,
    ]
}

/// The standing curiosity topics.
pub fn jeebs_curiosity_topics() -> (r: Vec<String>)
    ensures
        r.deep_view() == spec_curiosity_topics(),
{
    let mut v: Vec<String> = Vec::new();
    v.push("scientific method".to_owned());
    v.push("knowledge representation".to_owned());
    v.push("reasoning under uncertainty".to_owned());
    v.push("systems design".to_owned());
    v.push("human communication patterns".to_owned());
    proof {
        assert(v.deep_view() =~~= spec_curiosity_topics());
    }
    v
}

/// The mined topics extended with curiosity topics not already present,
/// capped at `MAX_TOPICS`, considering the first `k` curiosity entries.
pub open spec fn merged_topics(mined: Seq<Seq<char>>, curios: Seq<Seq<char>>, k: int) -> Seq<
    Seq<char>,
>
    decreases k,
{
    if k <= 0 {
        mined
    } else {
        let acc = merged_topics(mined, curios, k - 1);
        if acc.len() >= MAX_TOPICS {
            acc
        } else if acc.contains(curios[k - 1]) {
            acc
        } else {
            acc.push(curios[k - 1])
        }
    }
}

/// Unions the curiosity topics into the mined ones, preserving order,
/// skipping duplicates and stopping at `MAX_TOPICS` topics in all.
pub fn merge_topics(mined: Vec<String>, curios: &Vec<String>) -> (r: Vec<String>)
    ensures
        r.deep_view() == merged_topics(mined.deep_view(), curios.deep_view(), curios.deep_view().len() as int),
{
    let ghost m0 = mined.deep_view();
    let mut out = mined;
    let mut k: usize = 0;
    while k < curios.len()
        invariant
            k <= curios@.len(),
            out.deep_view() == merged_topics(m0, curios.deep_view(), k as int),
        decreases curios@.len() - k,
    {
        if out.len() < MAX_TOPICS && !crate::crawl::contains_string(&out, curios[k].as_str()) {
            out.push(curios[k].clone());
        }
        k = k + 1;
    }
    out
}

/// The uniform index the backfill picks a site with.
///
/// Relies on rand::rng and rand::RngExt::random_range: the result is below
/// the bound; nothing else is assumed of it, and two calls may differ.
#[verifier::external_body]
pub(crate) fn pick_index(n: usize) -> (r: usize)
    requires
        n > 0,
    ensures
        r < n,
{
    rand::rng().random_range(0..n)
}

/// The character sequences of a string sequence, position for position.
pub open spec fn views_of(v: Seq<String>) -> Seq<Seq<char>> {
    Seq::new(v.len(), |i: int| v[i]@)
}

/// Relies on rand::seq::SliceRandom::shuffle: an in-place permutation of
/// the slots, so the strings — and therefore their texts — are exactly
/// those that went in, in some order; nothing is assumed about the order,
/// and two calls may differ.
#[verifier::external_body]
pub(crate) fn shuffle_strings(v: &mut Vec<String>)
    ensures
        final(v)@.to_multiset() == old(v)@.to_multiset(),
        views_of(final(v)@).to_multiset() == views_of(old(v)@).to_multiset(),
        final(v)@.len() == old(v)@.len(),
{
    v.shuffle(&mut rand::rng());
}

/// The eight pool entries are pairwise distinct texts.
proof fn lemma_site_pool_distinct()
    ensures
        spec_site_pool().no_duplicates(),
{
    reveal_strlit("https://en.wikipedia.org/wiki/Main_Page");
    reveal_strlit("https://www.rust-lang.org");
    reveal_strlit("https://docs.python.org/3/");
    reveal_strlit("https://developer.mozilla.org/en-US/");
    reveal_strlit("https://go.dev/doc/");
    reveal_strlit("https://www.typescriptlang.org/docs/");
    reveal_strlit("https://news.ycombinator.com");
    reveal_strlit("https://arxiv.org/list/cs.AI/recent");
    assert("https://en.wikipedia.org/wiki/Main_Page"@.len() == 39);
    assert("https://www.rust-lang.org"@.len() == 25);
    assert("https://docs.python.org/3/"@.len() == 26);
    assert("https://developer.mozilla.org/en-US/"@.len() == 36);
    assert("https://go.dev/doc/"@.len() == 19);
    assert("https://www.typescriptlang.org/docs/"@.len() == 36);
    assert("https://news.ycombinator.com"@.len() == 28);
    assert("https://arxiv.org/list/cs.AI/recent"@.len() == 35);
    assert("https://developer.mozilla.org/en-US/"@[8]
        != "https://www.typescriptlang.org/docs/"@[8]);
    assert(spec_site_pool().no_duplicates());
}

/// Selects the sites of one cycle: the fixed pool, shuffled, first
/// `count` entries. Every selected site is one of the pool's, and no site
/// is selected twice — every outcome of shuffling the duplicate-free pool
/// keeps its entries distinct.
pub fn select_random_sites(count: usize) -> (r: Vec<String>)
    ensures
        r@.len() == if count <= spec_site_pool().len() {
            count as int
        } else {
            spec_site_pool().len() as int
        },
        forall|i: int| 0 <= i < r@.len() ==> spec_site_pool().contains((#[trigger] r@[i])@),
        forall|i: int, j: int| 0 <= i < j < r@.len() ==> (#[trigger] r@[i])@ != (#[trigger] r@[j])@,
{
    let mut pool = random_crawl_candidates();
    let ghost pool0 = pool@;
    let ghost pool0_dv = pool.deep_view();
    proof {
        assert(forall|j: int| 0 <= j < pool0.len() ==> pool0_dv[j] == (#[trigger] pool0[j])@);
        assert(views_of(pool0) =~~= spec_site_pool());
    }
    shuffle_strings(&mut pool);
    proof {
        pool@.to_multiset_ensures();
        pool0.to_multiset_ensures();
        assert forall|j: int| 0 <= j < pool@.len() implies spec_site_pool().contains(
            (#[trigger] pool@[j])@,
        ) by {
            assert(pool@.contains(pool@[j]));
            assert(pool@.to_multiset().count(pool@[j]) > 0);
            assert(pool0.contains(pool@[j]));
            let k = choose|k: int| 0 <= k < pool0.len() && pool0[k] == pool@[j];
            assert(pool0_dv[k] == pool0[k]@);
            assert(spec_site_pool()[k] == (pool@[j])@);
        };
        lemma_site_pool_distinct();
        views_of(pool0).lemma_multiset_has_no_duplicates();
        views_of(pool@).lemma_multiset_has_no_duplicates_conv();
        assert(views_of(pool@).no_duplicates());
        assert forall|i: int, j: int| 0 <= i < j < pool@.len() implies (#[trigger] pool@[i])@ != (
        #[trigger] pool@[j])@ by {
            assert(views_of(pool@)[i] == pool@[i]@);
            assert(views_of(pool@)[j] == pool@[j]@);
        };
    }
    let mut out: Vec<String> = Vec::new();
    let mut i: usize = 0;
    while i < pool.len() && out.len() < count
        invariant
            i <= pool@.len(),
            out@.len() == if i <= count {
                i as int
            } else {
                count as int
            },
            out@.len() <= i,
            forall|j: int| 0 <= j < pool@.len() ==> spec_site_pool().contains((#[trigger] pool@[j])@),
            forall|j: int, k: int|
                0 <= j < k < pool@.len() ==> (#[trigger] pool@[j])@ != (#[trigger] pool@[k])@,
            forall|j: int| 0 <= j < out@.len() ==> #[trigger] out@[j] == pool@[j],
            forall|j: int| 0 <= j < out@.len() ==> spec_site_pool().contains((#[trigger] out@[j])@),
        decreases pool@.len() - i,
    {
        out.push(pool[i].clone());
        i = i + 1;
    }
    proof {
        assert forall|i2: int, j2: int| 0 <= i2 < j2 < out@.len() implies (#[trigger] out@[i2])@
            != (#[trigger] out@[j2])@ by {
            assert(out@[i2] == pool@[i2]);
            assert(out@[j2] == pool@[j2]);
        };
    }
    out
}

/// One backfill site: a uniformly chosen member of the pool.
pub fn pick_backfill_site() -> (r: String)
    ensures
        spec_site_pool().contains(r@),
{
    let pool = random_crawl_candidates();
    proof {
        assert(pool@.len() == pool.deep_view().len());
        assert(pool.deep_view().len() == 8);
    }
    let i = pick_index(pool.len());
    proof {
        assert(pool.deep_view()[i as int] == pool@[i as int]@);
    }
    pool[i].clone()
}

} // verus!
