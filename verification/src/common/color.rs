//! A generator of numbers spread around a circle, used to give each project a
//! hue far from the hues already in use.
//!
//! The generator works in layers: it only ever picks among the numbers picked
//! the fewest times, so that every number is picked once before any is picked
//! twice. Among those candidates it favours the ones far from the numbers
//! picked so far; the weighting by distance is done by the caller in floating
//! point (see `next_number`).
use dashmap::DashSet;
use rand::Rng;
use vstd::prelude::*;

verus! {

/// `dashmap::DashSet`, a set that many threads can share.
#[verifier::external_type_specification]
#[verifier::external_body]
#[verifier::reject_recursive_types(K)]
#[verifier::reject_recursive_types(S)]
pub struct ExDashSet<K, S>(DashSet<K, S>);

/// The numbers a `DashSet` holds.
pub uninterp spec fn dashset_numbers(set: DashSet<u32>) -> Set<u32>;

/// `DashSet::new`: a set that holds nothing.
#[verifier::external_body]
fn new_number_set() -> (r: DashSet<u32>)
    ensures
        dashset_numbers(r) == Set::<u32>::empty(),
{
    DashSet::new()
}

/// `DashSet::insert`: `n` joins the set; nothing else changes. Called with
/// the set borrowed exclusively, so no other thread changes it meanwhile.
#[verifier::external_body]
fn insert_number(set: &mut DashSet<u32>, n: u32)
    ensures
        dashset_numbers(*final(set)) == dashset_numbers(*old(set)).insert(n),
{
    set.insert(n);
}

/// `DashSet::contains`: whether the set holds `n`.
#[verifier::external_body]
fn holds_number(set: &DashSet<u32>, n: u32) -> (r: bool)
    ensures
        r == dashset_numbers(*set).contains(n),
{
    set.contains(&n)
}

/// `DashSet::is_empty`: whether the set holds nothing.
#[verifier::external_body]
fn holds_no_number(set: &DashSet<u32>) -> (r: bool)
    ensures
        r == dashset_numbers(*set).is_empty(),
{
    set.is_empty()
}

/// The shortest distance between `a` and `b` on a circle of `max_val + 1` points.
pub open spec fn spec_circular_distance(a: int, b: int, max_val: int) -> int {
    let diff = if a >= b { a - b } else { b - a };
    let wrap = max_val + 1 - diff;
    if diff <= wrap { diff } else { wrap }
}

/// The shortest distance between two numbers on a circle whose
/// circumference is `max_val + 1`.
pub fn circular_distance(a: u32, b: u32, max_val: u32) -> (r: u32)
    requires
        max_val < u32::MAX,
        a <= max_val,
        b <= max_val,
    ensures
        r == spec_circular_distance(a as int, b as int, max_val as int),
{
    let circumference = max_val + 1;
    let diff = if a >= b { a - b } else { b - a };
    let wrap_around_diff = circumference - diff;
    if diff <= wrap_around_diff { diff } else { wrap_around_diff }
}

/// A uniformly random index below `len`, drawn with `rand`'s thread-local
/// generator (`rand::rng().random_range(0..len)`), which panics on an empty
/// range and otherwise returns a value inside it.
#[verifier::external_body]
fn random_index(len: usize) -> (r: usize)
    requires
        len > 0,
    ensures
        r < len,
{
    rand::rng().random_range(0..len)
}

/// `score` is the distance from `c` to the nearest of the `picked` numbers.
pub open spec fn nearest_distance(picked: Set<u32>, max_val: u32, c: u32, score: u32) -> bool {
    &&& exists|x: u32| picked.contains(x) && score == spec_circular_distance(c as int, x as int, max_val as int)
    &&& forall|x: u32| #[trigger] picked.contains(x) ==> score <= spec_circular_distance(
        c as int,
        x as int,
        max_val as int,
    )
}

/// The smallest count of a non-empty list.
pub open spec fn is_min_count(counts: Seq<usize>, m: usize) -> bool {
    &&& exists|i: int| 0 <= i < counts.len() && counts[i] == m
    &&& forall|i: int| 0 <= i < counts.len() ==> m <= #[trigger] counts[i]
}

/// The numbers, in increasing order, whose count is `m`.
pub open spec fn layer(counts: Seq<usize>, m: usize) -> Seq<u32> {
    all_numbers(counts.len()).filter(count_is(counts, m))
}

/// The numbers `0..len`, in increasing order.
pub open spec fn all_numbers(len: nat) -> Seq<u32> {
    Seq::new(len, |i: int| i as u32)
}

/// Whether a number's count is `m`.
pub open spec fn count_is(counts: Seq<usize>, m: usize) -> spec_fn(u32) -> bool {
    |n: u32| counts[n as int] == m
}

/// No number has been picked more than once more than any other.
pub open spec fn balanced(counts: Seq<usize>) -> bool {
    forall|i: int, j: int|
        0 <= i < counts.len() && 0 <= j < counts.len() ==> #[trigger] counts[i] <= #[trigger] counts[j]
            + 1
}

/// What `next_number` leaves to the caller, or the number it chose.
pub enum NextNumber {
    /// Nothing was picked before: the number was drawn uniformly from the
    /// candidates and recorded.
    Picked(u32),
    /// The caller weighs each candidate by its score (its distance to the
    /// nearest picked number), draws one, and records it with `update_pick_count`.
    Weighted { candidates: Vec<u32>, scores: Vec<u32> },
}

/// Picks numbers from `0..=max_val`, spreading them out.
pub struct SpacedRandomGenerator {
    max_val: u32,
    /// How many times each number was picked.
    pick_counts: Vec<usize>,
    /// The numbers picked at least once.
    picked_set: DashSet<u32>,
}

impl SpacedRandomGenerator {
    /// The greatest number the generator picks.
    pub closed spec fn max_value(&self) -> u32 {
        self.max_val
    }

    /// How many times each number was picked.
    pub closed spec fn counts(&self) -> Seq<usize> {
        self.pick_counts@
    }

    /// The numbers picked at least once.
    pub closed spec fn picked_set(&self) -> Set<u32> {
        dashset_numbers(self.picked_set)
    }

    /// The generator's invariant.
    pub closed spec fn wf(&self) -> bool {
        &&& self.max_val < u32::MAX
        &&& self.pick_counts@.len() == self.max_val + 1
        &&& forall|n: u32| #[trigger] dashset_numbers(self.picked_set).contains(n) ==> n <= self.max_val
        &&& forall|n: u32| n <= self.max_val && #[trigger] self.pick_counts@[n as int] > 0 ==> dashset_numbers(
            self.picked_set,
        ).contains(n)
    }

    /// The shape of a well-formed generator: one count for each number of
    /// `0..=max_value()`, and only such numbers among the picked ones.
    pub proof fn lemma_wf_shape(&self)
        requires
            self.wf(),
        ensures
            self.max_value() < u32::MAX,
            self.counts().len() == self.max_value() + 1,
            forall|n: u32| #[trigger] self.picked_set().contains(n) ==> n <= self.max_value(),
    {
    }

    /// The greatest number the generator picks.
    pub fn max_number(&self) -> (r: u32)
        ensures
            r == self.max_value(),
    {
        self.max_val
    }

    /// A generator over `0..=max_val` with nothing picked yet.
    pub fn new(max_val: u32) -> (r: SpacedRandomGenerator)
        requires
            max_val < u32::MAX,
        ensures
            r.wf(),
            r.max_value() == max_val,
            r.counts() == Seq::new((max_val + 1) as nat, |i: int| 0usize),
            r.picked_set().is_empty(),
    {
        let mut pick_counts: Vec<usize> = Vec::new();
        let mut i: u32 = 0;
        while i <= max_val
            invariant
                max_val < u32::MAX,
                i <= max_val + 1,
                pick_counts@ == Seq::new(i as nat, |k: int| 0usize),
            decreases max_val + 1 - i,
        {
            pick_counts.push(0);
            i = i + 1;
            proof {
                assert(pick_counts@ =~= Seq::new(i as nat, |k: int| 0usize));
            }
        }
        SpacedRandomGenerator { max_val, pick_counts, picked_set: new_number_set() }
    }

    /// Counts one more pick of `number`.
    pub fn update_pick_count(&mut self, number: u32)
        requires
            old(self).wf(),
            number <= old(self).max_value(),
        ensures
            final(self).wf(),
            final(self).max_value() == old(self).max_value(),
            final(self).counts() == old(self).counts().update(
                number as int,
                old(self).counts()[number as int].wrapping_add(1),
            ),
            final(self).picked_set() == old(self).picked_set().insert(number),
    {
        let idx = number as usize;
        let old_count = self.pick_counts[idx];
        let new_count = old_count.wrapping_add(1);
        self.pick_counts.set(idx, new_count);
        if old_count == 0 {
            insert_number(&mut self.picked_set, number);
        } else {
            assert(self.picked_set().insert(number) =~= self.picked_set());
        }
    }

    /// Adds `number` to the picked numbers by hand, counting it once more;
    /// returns `false`, changing nothing, when it lies above the range.
    pub fn push(&mut self, number: u32) -> (r: bool)
        requires
            old(self).wf(),
        ensures
            final(self).wf(),
            final(self).max_value() == old(self).max_value(),
            r == (number <= old(self).max_value()),
            r ==> final(self).counts() == old(self).counts().update(
                number as int,
                old(self).counts()[number as int].wrapping_add(1),
            ),
            !r ==> final(self).counts() == old(self).counts(),
            r ==> final(self).picked_set() == old(self).picked_set().insert(number),
            !r ==> final(self).picked_set() == old(self).picked_set(),
    {
        if number > self.max_val {
            return false;
        }
        self.update_pick_count(number);
        true
    }

    /// The smallest pick count.
    fn find_min_picks(&self) -> (m: usize)
        requires
            self.wf(),
        ensures
            is_min_count(self.counts(), m),
    {
        let mut m = self.pick_counts[0];
        let mut i: usize = 1;
        while i < self.pick_counts.len()
            invariant
                1 <= i <= self.pick_counts@.len(),
                exists|k: int| 0 <= k < i && self.pick_counts@[k] == m,
                forall|k: int| 0 <= k < i ==> m <= #[trigger] self.pick_counts@[k],
            decreases self.pick_counts@.len() - i,
        {
            if self.pick_counts[i] < m {
                m = self.pick_counts[i];
            }
            i = i + 1;
        }
        m
    }

    /// The numbers picked the fewest times, in increasing order.
    pub fn lowest_layer(&self) -> (r: Vec<u32>)
        requires
            self.wf(),
        ensures
            exists|m: usize| is_min_count(self.counts(), m) && r@ == layer(self.counts(), m),
            r@.len() > 0,
    {
        let m = self.find_min_picks();
        let ghost all = all_numbers(self.pick_counts@.len());
        let ghost pred = count_is(self.counts(), m);
        let mut r: Vec<u32> = Vec::new();
        let mut n: u32 = 0;
        while n <= self.max_val
            invariant
                self.wf(),
                n <= self.max_val + 1,
                all == all_numbers(self.pick_counts@.len()),
                pred == count_is(self.counts(), m),
                r@ == all.take(n as int).filter(pred),
            decreases self.max_val + 1 - n,
        {
            proof {
                reveal_with_fuel(Seq::<_>::filter, 1);
                assert(all.take(n + 1).drop_last() =~= all.take(n as int));
                assert(all.take(n + 1).last() == n);
            }
            if self.pick_counts[n as usize] == m {
                r.push(n);
            }
            n = n + 1;
        }
        proof {
            assert(all.take(all.len() as int) =~= all);
            let k = choose|k: int| 0 <= k < self.pick_counts@.len() && self.pick_counts@[k] == m;
            assert(pred(all[k]));
            all.lemma_filter_contains(pred, k);
            assert(all.filter(pred).contains(all[k]));
        }
        r
    }

    /// The distance of each candidate to the nearest picked number (0 when
    /// nothing was picked).
    pub fn farness_scores(&self, candidates: &Vec<u32>) -> (r: Vec<u32>)
        requires
            self.wf(),
            forall|i: int| 0 <= i < candidates@.len() ==> #[trigger] candidates@[i] <= self.max_value(),
        ensures
            r@.len() == candidates@.len(),
            forall|i: int| 0 <= i < r@.len() ==> {
                &&& (self.picked_set().is_empty() ==> #[trigger] r@[i] == 0)
                &&& (!self.picked_set().is_empty() ==> nearest_distance(
                    self.picked_set(),
                    self.max_value(),
                    candidates@[i],
                    r@[i],
                ))
            },
    {
        let mut r: Vec<u32> = Vec::new();
        let mut c: usize = 0;
        while c < candidates.len()
            invariant
                self.wf(),
                forall|i: int| 0 <= i < candidates@.len() ==> #[trigger] candidates@[i] <= self.max_value(),
                c <= candidates@.len(),
                r@.len() == c,
                forall|i: int| 0 <= i < r@.len() ==> {
                    &&& (self.picked_set().is_empty() ==> #[trigger] r@[i] == 0)
                    &&& (!self.picked_set().is_empty() ==> {
                        &&& exists|x: u32| self.picked_set().contains(x) && r@[i] == spec_circular_distance(
                            candidates@[i] as int,
                            x as int,
                            self.max_value() as int,
                        )
                        &&& forall|x: u32| #[trigger] self.picked_set().contains(x) ==> r@[i] <= spec_circular_distance(
                            candidates@[i] as int,
                            x as int,
                            self.max_value() as int,
                        )
                    })
                },
            decreases candidates@.len() - c,
        {
            let cand = candidates[c];
            let mut best: Option<u32> = None;
            let mut x: u32 = 0;
            while x <= self.max_val
                invariant
                    self.wf(),
                    cand <= self.max_value(),
                    x <= self.max_val + 1,
                    best is None <==> forall|y: u32| y < x ==> !#[trigger] self.picked_set().contains(y),
                    best matches Some(b) ==> {
                        &&& exists|y: u32| y < x && self.picked_set().contains(y) && b == spec_circular_distance(
                            cand as int,
                            y as int,
                            self.max_value() as int,
                        )
                        &&& forall|y: u32| y < x && #[trigger] self.picked_set().contains(y) ==> b <= spec_circular_distance(
                            cand as int,
                            y as int,
                            self.max_value() as int,
                        )
                    },
                decreases self.max_val + 1 - x,
            {
                if holds_number(&self.picked_set, x) {
                    assert(self.picked_set().contains(x));
                    let d = circular_distance(cand, x, self.max_val);
                    match best {
                        Some(b) => {
                            if d < b {
                                best = Some(d);
                            }
                        },
                        None => {
                            best = Some(d);
                        },
                    }
                } else {
                    assert(!self.picked_set().contains(x));
                }
                x = x + 1;
            }
            let score = match best {
                Some(b) => b,
                None => 0,
            };
            proof {
                if best is None {
                    assert forall|y: u32| !self.picked_set().contains(y) by {
                        if y > self.max_val {
                        }
                    }
                    assert(self.picked_set() =~= Set::<u32>::empty());
                } else {
                    assert forall|y: u32| #[trigger] self.picked_set().contains(y) implies score
                        <= spec_circular_distance(cand as int, y as int, self.max_value() as int) by {
                        assert(y <= self.max_val);
                    }
                    let y = choose|y: u32| y < x && self.picked_set().contains(y) && score == spec_circular_distance(
                        cand as int,
                        y as int,
                        self.max_value() as int,
                    );
                    assert(self.picked_set().contains(y));
                }
            }
            r.push(score);
            c = c + 1;
        }
        r
    }

    /// Starts picking the next number among the least-picked ones. When no
    /// number was picked yet, one of them is drawn uniformly, recorded and
    /// returned. Otherwise the candidates and their distances to the picked
    /// numbers are returned; nothing is recorded.
    pub fn next_number(&mut self) -> (r: NextNumber)
        requires
            old(self).wf(),
        ensures
            final(self).wf(),
            final(self).max_value() == old(self).max_value(),
            exists|m: usize| is_min_count(old(self).counts(), m) && match r {
                NextNumber::Picked(n) => {
                    &&& old(self).picked_set().is_empty()
                    &&& layer(old(self).counts(), m).contains(n)
                    &&& final(self).counts() == old(self).counts().update(n as int, old(self).counts()[n as int].wrapping_add(1))
                },
                NextNumber::Weighted { candidates, scores } => {
                    &&& !old(self).picked_set().is_empty()
                    &&& candidates@ == layer(old(self).counts(), m)
                    &&& scores@.len() == candidates@.len()
                    &&& forall|i: int| 0 <= i < scores@.len() ==> nearest_distance(
                        old(self).picked_set(),
                        old(self).max_value(),
                        candidates@[i],
                        #[trigger] scores@[i],
                    )
                    &&& final(self).counts() == old(self).counts()
                },
            },
    {
        let candidates = self.lowest_layer();
        let ghost m = choose|m: usize| is_min_count(self.counts(), m) && candidates@ == layer(self.counts(), m);
        proof {
            let all = all_numbers(self.pick_counts@.len());
            let pred = count_is(self.counts(), m);
            assert forall|i: int| 0 <= i < candidates@.len() implies #[trigger] candidates@[i] <= self.max_value() by {
                assert(candidates@.contains(candidates@[i]));
                all.lemma_filter_contains_rev(pred, candidates@[i]);
                let j = choose|j: int| 0 <= j < all.len() && all[j] == candidates@[i];
            }
        }
        if holds_no_number(&self.picked_set) {
            let choice = candidates[random_index(candidates.len())];
            self.update_pick_count(choice);
            NextNumber::Picked(choice)
        } else {
            let scores = self.farness_scores(&candidates);
            NextNumber::Weighted { candidates, scores }
        }
    }
}

/// Picking from the least-picked numbers keeps the picks balanced: when no
/// count exceeds another by more than one, adding a pick to a number of
/// smallest count keeps it so. Hence every number is picked once before any is
/// picked twice, and so on.
pub proof fn law_lowest_layer_keeps_balance(counts: Seq<usize>, m: usize, n: int)
    requires
        balanced(counts),
        is_min_count(counts, m),
        0 <= n < counts.len(),
        counts[n] == m,
        m < usize::MAX,
    ensures
        balanced(counts.update(n, (m + 1) as usize)),
{
}

/// The greatest hue a project color takes.
pub const MAX_HUE: u32 = 360;

/// The pick counts after pushing `colors` in order onto `counts` (numbers
/// above `max_val` change nothing).
pub open spec fn counts_after_pushes(counts: Seq<usize>, max_val: u32, colors: Seq<u32>) -> Seq<usize>
    decreases colors.len(),
{
    if colors.len() == 0 {
        counts
    } else {
        let c = counts_after_pushes(counts, max_val, colors.drop_last());
        let n = colors.last();
        if n <= max_val {
            c.update(n as int, c[n as int].wrapping_add(1))
        } else {
            c
        }
    }
}

/// The generator of project hues, shared by the color lookups of a store.
pub struct SharedColorGenerator(pub SpacedRandomGenerator);

impl SharedColorGenerator {
    /// A hue generator over `0..=360` that starts from the hues the store
    /// already gave, each pushed once in order.
    pub fn new(existing_colors: &Vec<u32>) -> (r: SharedColorGenerator)
        ensures
            r.0.wf(),
            r.0.max_value() == MAX_HUE,
            r.0.counts() == counts_after_pushes(
                Seq::new((MAX_HUE + 1) as nat, |i: int| 0usize),
                MAX_HUE,
                existing_colors@,
            ),
    {
        let mut generator = SpacedRandomGenerator::new(MAX_HUE);
        let ghost zero = Seq::new((MAX_HUE + 1) as nat, |i: int| 0usize);
        let mut i: usize = 0;
        while i < existing_colors.len()
            invariant
                i <= existing_colors@.len(),
                generator.wf(),
                generator.max_value() == MAX_HUE,
                generator.counts() == counts_after_pushes(zero, MAX_HUE, existing_colors@.take(i as int)),
            decreases existing_colors@.len() - i,
        {
            proof {
                assert(existing_colors@.take(i + 1int).drop_last() =~= existing_colors@.take(i as int));
            }
            generator.push(existing_colors[i]);
            i = i + 1;
        }
        proof {
            assert(existing_colors@.take(existing_colors@.len() as int) =~= existing_colors@);
        }
        SharedColorGenerator(generator)
    }
}

/// One completed pick: `number` had the smallest count in `before`, and
/// `after` counts it once more. This is what a call of `next_number` does,
/// by itself or with the `update_pick_count` that records the number the
/// caller drew from the candidates it returned.
pub open spec fn is_layered_pick(before: Seq<usize>, number: u32, after: Seq<usize>) -> bool {
    &&& (number as int) < before.len()
    &&& is_min_count(before, before[number as int])
    &&& after == before.update(number as int, before[number as int].wrapping_add(1))
}

/// A run of picks from counts that start at zero: `counts[k]` are the counts
/// before pick `k`, and each pick is a layered pick.
pub open spec fn is_pick_run(counts: Seq<Seq<usize>>, picks: Seq<u32>) -> bool {
    &&& counts.len() == picks.len() + 1
    &&& counts[0].len() > 0
    &&& forall|i: int| 0 <= i < counts[0].len() ==> #[trigger] counts[0][i] == 0
    &&& picks.len() < usize::MAX
    &&& forall|k: int| #![trigger picks[k]] 0 <= k < picks.len() ==> is_layered_pick(counts[k], picks[k], counts[k + 1])
}

/// How many counts exceed `q`.
pub open spec fn num_raised(c: Seq<usize>, q: int) -> nat
    decreases c.len(),
{
    if c.len() == 0 {
        0
    } else {
        num_raised(c.drop_last(), q) + if c.last() > q { 1nat } else { 0nat }
    }
}

proof fn lemma_num_raised_update(c: Seq<usize>, q: int, i: int, v: usize)
    requires
        0 <= i < c.len(),
        c[i] <= q,
        v > q,
    ensures
        num_raised(c.update(i, v), q) == num_raised(c, q) + 1,
    decreases c.len(),
{
    let u = c.update(i, v);
    if i == c.len() - 1 {
        assert(u.drop_last() =~= c.drop_last());
    } else {
        assert(u.drop_last() =~= c.drop_last().update(i, v));
        lemma_num_raised_update(c.drop_last(), q, i, v);
    }
}

proof fn lemma_num_raised_all(c: Seq<usize>, q: int)
    ensures
        num_raised(c, q) <= c.len(),
        num_raised(c, q) == c.len() ==> forall|i: int| 0 <= i < c.len() ==> #[trigger] c[i] > q,
        num_raised(c, q) < c.len() ==> exists|i: int| 0 <= i < c.len() && #[trigger] c[i] <= q,
        (forall|i: int| 0 <= i < c.len() ==> #[trigger] c[i] <= q) ==> num_raised(c, q) == 0,
    decreases c.len(),
{
    if c.len() > 0 {
        let d = c.drop_last();
        lemma_num_raised_all(d, q);
        assert forall|i: int| 0 <= i < d.len() implies #[trigger] d[i] == c[i] by {}
        if num_raised(c, q) == c.len() {
            assert forall|i: int| 0 <= i < c.len() implies #[trigger] c[i] > q by {
                if i < d.len() {
                    assert(d[i] == c[i]);
                }
            }
        }
        if num_raised(c, q) < c.len() && c.last() > q {
            let i = choose|i: int| 0 <= i < d.len() && #[trigger] d[i] <= q;
            assert(c[i] <= q);
        }
        if num_raised(c, q) < c.len() && c.last() <= q {
            assert(c[c.len() - 1] <= q);
        }
    }
}

/// The state of a run after `k` picks, with `k == q * N + r`: every count is
/// `q` or `q + 1`, exactly `r` of them are `q + 1`, and (before the last pick)
/// the number picked next has count `q`.
proof fn lemma_pick_run_state(counts: Seq<Seq<usize>>, picks: Seq<u32>, k: int)
    requires
        is_pick_run(counts, picks),
        0 <= k <= picks.len(),
    ensures
        counts[k].len() == counts[0].len(),
        ({
            let n = counts[0].len() as int;
            let q = k / n;
            &&& forall|i: int| 0 <= i < n ==> #[trigger] counts[k][i] == q || counts[k][i] == q + 1
            &&& num_raised(counts[k], q) == k % n
            &&& k < picks.len() ==> counts[k][picks[k] as int] == q
        }),
    decreases k,
{
    let n = counts[0].len() as int;
    if k == 0 {
        vstd::arithmetic::div_mod::lemma_fundamental_div_mod_converse(0, n, 0, 0);
        lemma_num_raised_all(counts[0], 0);
    } else {
        lemma_pick_run_state(counts, picks, k - 1);
        assert(counts[k - 1][picks[k - 1] as int] == (k - 1) / n);
        let q = (k - 1) / n;
        let r = (k - 1) % n;
        vstd::arithmetic::div_mod::lemma_fundamental_div_mod(k - 1, n);
        let c = counts[k - 1];
        let p = picks[k - 1] as int;
        assert(is_layered_pick(c, picks[k - 1], counts[k]));
        assert(c[p] == q);
        assert(q <= k - 1) by {
            vstd::arithmetic::div_mod::lemma_div_is_ordered_by_denominator(k - 1, 1, n);
        }
        assert(c[p].wrapping_add(1) == c[p] + 1);
        let c2 = counts[k];
        assert(c2 == c.update(p, (q + 1) as usize));
        lemma_num_raised_update(c, q, p, (q + 1) as usize);
        if r + 1 < n {
            vstd::arithmetic::div_mod::lemma_fundamental_div_mod_converse(k, n, q, r + 1);
            assert forall|i: int| 0 <= i < n implies #[trigger] c2[i] == q || c2[i] == q + 1 by {
                if i != p {
                    assert(c2[i] == c[i]);
                }
            }
            if k < picks.len() {
                lemma_num_raised_all(c2, q);
                let i0 = choose|i: int| 0 <= i < c2.len() && #[trigger] c2[i] <= q;
                assert(is_layered_pick(c2, picks[k], counts[k + 1]));
                let m = c2[picks[k] as int];
                assert(m <= c2[i0]);
                assert(c2[i0] == q);
            }
        } else {
            assert(k == (q + 1) * n + 0) by (nonlinear_arith)
                requires
                    k - 1 == n * q + r,
                    r + 1 == n,
            ;
            vstd::arithmetic::div_mod::lemma_fundamental_div_mod_converse(k, n, q + 1, 0);
            lemma_num_raised_all(c2, q);
            assert forall|i: int| 0 <= i < n implies #[trigger] c2[i] == q + 1 by {
                assert(c2[i] > q);
                if i != p {
                    assert(c2[i] == c[i]);
                }
            }
            lemma_num_raised_all(c2, q + 1);
            if k < picks.len() {
                assert(is_layered_pick(c2, picks[k], counts[k + 1]));
                let m = c2[picks[k] as int];
                assert(c2[picks[k] as int] == q + 1);
            }
        }
    }
}

/// Counts never go down along a run.
proof fn lemma_pick_run_grows(counts: Seq<Seq<usize>>, picks: Seq<u32>, a: int, b: int, i: int)
    requires
        is_pick_run(counts, picks),
        0 <= a <= b <= picks.len(),
        0 <= i < counts[0].len(),
    ensures
        counts[a][i] <= counts[b][i],
        a < b && i == picks[a] as int ==> counts[a][i] < counts[b][i],
    decreases b - a,
{
    if a < b {
        lemma_pick_run_grows(counts, picks, a + 1, b, i);
        lemma_pick_run_state(counts, picks, a);
        let n = counts[0].len() as int;
        assert(a / n <= a) by {
            vstd::arithmetic::div_mod::lemma_div_is_ordered_by_denominator(a, 1, n);
        }
        assert(is_layered_pick(counts[a], picks[a], counts[a + 1]));
        if i != picks[a] as int {
            assert(counts[a + 1][i] == counts[a][i]);
        }
    }
}

/// The generator goes round: picking always among the least-picked numbers,
/// from a generator with nothing picked, after `j` full rounds of `N` picks
/// (`N` the count of numbers) every number has been picked exactly `j` times,
/// and within a round no number is picked twice, so each round picks every
/// number once.
pub proof fn law_picks_go_round(counts: Seq<Seq<usize>>, picks: Seq<u32>)
    requires
        is_pick_run(counts, picks),
    ensures
        forall|k: int, i: int|
            0 <= k < counts.len() && k % (counts[0].len() as int) == 0 && 0 <= i < counts[0].len()
                ==> #[trigger] counts[k][i] == k / (counts[0].len() as int),
        forall|a: int, b: int|
            0 <= a < b < picks.len() && a / (counts[0].len() as int) == b / (counts[0].len() as int)
                ==> #[trigger] picks[a] != #[trigger] picks[b],
{
    let n = counts[0].len() as int;
    assert forall|k: int, i: int|
        0 <= k < counts.len() && k % n == 0 && 0 <= i < counts[0].len() implies #[trigger] counts[k][i]
        == k / n by {
        lemma_pick_run_state(counts, picks, k);
        lemma_num_raised_all(counts[k], k / n);
        if counts[k][i] != k / n {
            assert(counts[k][i] > k / n);
            lemma_num_raised_update(counts[k].update(i, 0), k / n, i, counts[k][i]);
            assert(counts[k].update(i, 0).update(i, counts[k][i]) =~= counts[k]);
        }
    }
    assert forall|a: int, b: int|
        0 <= a < b < picks.len() && a / n == b / n implies #[trigger] picks[a] != #[trigger] picks[b] by {
        lemma_pick_run_state(counts, picks, a);
        lemma_pick_run_state(counts, picks, b);
        if picks[a] == picks[b] {
            assert(is_layered_pick(counts[a], picks[a], counts[a + 1]));
            lemma_pick_run_grows(counts, picks, a, b, picks[a] as int);
        }
    }
}

/// With two numbers, two picks from a generator with nothing picked give
/// both numbers: the second call never repeats the first.
pub proof fn law_two_picks_differ(counts: Seq<Seq<usize>>, picks: Seq<u32>)
    requires
        is_pick_run(counts, picks),
        counts[0].len() == 2,
        picks.len() == 2,
    ensures
        picks[0] != picks[1],
        picks[0] <= 1 && picks[1] <= 1,
{
    law_picks_go_round(counts, picks);
    assert(0int / 2 == 0 && 1int / 2 == 0);
    assert(picks[0] != picks[1]);
    assert(is_layered_pick(counts[0], picks[0], counts[1]));
    assert(is_layered_pick(counts[1], picks[1], counts[2]));
    lemma_pick_run_state(counts, picks, 1);
}

/// A call of `next_number` makes a layered pick: the number it picks, or the
/// one the caller draws from the candidates it returns and records with
/// `update_pick_count`, lies in the lowest layer, so it has the smallest count.
pub proof fn law_next_number_is_layered_pick(counts: Seq<usize>, m: usize, n: u32, after: Seq<usize>)
    requires
        is_min_count(counts, m),
        layer(counts, m).contains(n),
        after == counts.update(n as int, counts[n as int].wrapping_add(1)),
    ensures
        is_layered_pick(counts, n, after),
{
    let all = all_numbers(counts.len());
    all.lemma_filter_contains_rev(count_is(counts, m), n);
    let j = choose|j: int| 0 <= j < all.len() && all[j] == n;
    assert(all[j] == j as u32);
}

} // verus!
