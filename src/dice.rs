use vstd::prelude::*;
use vstd::relations::{sorted_by, total_ordering};

use core::ops::{Range, RangeInclusive};
use rand::rngs::StdRng;

verus! {

broadcast use vstd::seq_lib::group_to_multiset_ensures;

// ---------------------------------------------------------------------------
// Ranges and the uniform distributions they describe
// ---------------------------------------------------------------------------

/// The resolved bounds of a uniform distribution over `i64`: every value
/// from `low` up to `high` is drawn with equal chance, `high` itself only
/// when `high_inclusive` holds.
#[derive(Debug, Clone, Copy, PartialEq, Eq, Structural)]
pub struct UniformRange {
    pub low: i64,
    pub high: i64,
    pub high_inclusive: bool,
}

impl UniformRange {
    pub open spec fn contains(self, v: int) -> bool {
        self.low <= v && if self.high_inclusive {
            v <= self.high
        } else {
            v < self.high
        }
    }

    pub open spec fn empty(self) -> bool {
        if self.high_inclusive {
            self.high < self.low
        } else {
            self.high <= self.low
        }
    }

    /// Whether no value can be drawn.
    pub fn is_empty(&self) -> (r: bool)
        ensures
            r == self.empty(),
    {
        if self.high_inclusive {
            self.high < self.low
        } else {
            self.high <= self.low
        }
    }
}

/// The largest value that can be drawn from `u`.
pub open spec fn top(u: UniformRange) -> int {
    if u.high_inclusive {
        u.high as int
    } else {
        u.high - 1
    }
}

pub open spec fn fits(x: int) -> bool {
    i64::MIN <= x <= i64::MAX
}

/// A description of a die's faces that can be turned into a uniform
/// distribution.
pub trait ToUniform {
    spec fn uniform_spec(&self) -> UniformRange;

    fn to_uniform(&self) -> (r: UniformRange)
        ensures
            r == self.uniform_spec(),
    ;
}

/// Relies on `RangeInclusive::start`: the lower bound the range was built with.
pub assume_specification<Idx>[ RangeInclusive::<Idx>::start ](r: &RangeInclusive<Idx>) -> (res:
    &Idx)
    ensures
        *res == r@.start,
;

/// Relies on `RangeInclusive::end`: the upper bound the range was built with.
pub assume_specification<Idx>[ RangeInclusive::<Idx>::end ](r: &RangeInclusive<Idx>) -> (res:
    &Idx)
    ensures
        *res == r@.end,
;

/// `a..=b`: both bounds are kept, and the end is inclusive, as `end_bound`
/// gives it. Once iteration has used the range up (and its start is not
/// above its end) the end is exclusive, as `contains` treats it. A range whose
/// start is above its end is empty either way, and is reported inclusive.
impl ToUniform for RangeInclusive<i64> {
    open spec fn uniform_spec(&self) -> UniformRange {
        UniformRange {
            low: self@.start,
            high: self@.end,
            high_inclusive: !(self@.exhausted && self@.start <= self@.end),
        }
    }

    fn to_uniform(&self) -> (r: UniformRange) {
        let low = *self.start();
        let high = *self.end();
        let high_inclusive = if low <= high {
            self.contains(&high)
        } else {
            true
        };
        UniformRange { low, high, high_inclusive }
    }
}

/// `a..b`: the end is exclusive.
impl ToUniform for Range<i64> {
    open spec fn uniform_spec(&self) -> UniformRange {
        UniformRange { low: self.start, high: self.end, high_inclusive: false }
    }

    fn to_uniform(&self) -> (r: UniformRange) {
        UniformRange { low: self.start, high: self.end, high_inclusive: false }
    }
}

/// One end of an `Interval`.
#[derive(Debug, Clone, Copy, PartialEq, Eq, Structural)]
pub enum Endpoint {
    Included(i64),
    Excluded(i64),
    Unbounded,
}

/// A range whose ends may each be inclusive, exclusive or missing.
///
/// Policy for the uniform distribution: the start is always included, an
/// exclusive start included as well; a missing end of either side stands for
/// zero, and a missing end is inclusive.
#[derive(Debug, Clone, Copy, PartialEq, Eq, Structural)]
pub struct Interval {
    pub start: Endpoint,
    pub end: Endpoint,
}

impl ToUniform for Interval {
    open spec fn uniform_spec(&self) -> UniformRange {
        let low = match self.start {
            Endpoint::Included(x) => x,
            Endpoint::Excluded(x) => x,
            Endpoint::Unbounded => 0,
        };
        match self.end {
            Endpoint::Included(x) => UniformRange { low, high: x, high_inclusive: true },
            Endpoint::Excluded(x) => UniformRange { low, high: x, high_inclusive: false },
            Endpoint::Unbounded => UniformRange { low, high: 0, high_inclusive: true },
        }
    }

    fn to_uniform(&self) -> (r: UniformRange) {
        let low = match self.start {
            Endpoint::Included(x) => x,
            Endpoint::Excluded(x) => x,
            Endpoint::Unbounded => 0,
        };
        match self.end {
            Endpoint::Included(x) => UniformRange { low, high: x, high_inclusive: true },
            Endpoint::Excluded(x) => UniformRange { low, high: x, high_inclusive: false },
            Endpoint::Unbounded => UniformRange { low, high: 0, high_inclusive: true },
        }
    }
}

// ---------------------------------------------------------------------------
// Sums of sorted samples
// ---------------------------------------------------------------------------

pub open spec fn ascending_order() -> spec_fn(i64, i64) -> bool {
    |a: i64, b: i64| a <= b
}

/// The samples sorted from lowest to highest.
pub open spec fn ascending(s: Seq<i64>) -> Seq<i64> {
    s.sort_by(ascending_order())
}

pub open spec fn total(s: Seq<i64>) -> int
    decreases s.len(),
{
    if s.len() == 0 {
        0
    } else {
        total(s.drop_last()) + s.last()
    }
}

/// The sum of the samples that remain once the `drop` lowest are discarded.
pub open spec fn kept_total(s: Seq<i64>, drop: int) -> int {
    total(ascending(s).subrange(drop, s.len() as int))
}

proof fn lemma_ascending_total_order()
    ensures
        total_ordering(ascending_order()),
{
}

/// Sorting keeps the samples, and so their bounds.
proof fn lemma_ascending_within(s: Seq<i64>, u: UniformRange)
    requires
        forall|i: int| 0 <= i < s.len() ==> u.contains(#[trigger] s[i] as int),
    ensures
        ascending(s).len() == s.len(),
        forall|i: int| 0 <= i < s.len() ==> u.contains(#[trigger] ascending(s)[i] as int),
{
    lemma_ascending_total_order();
    s.lemma_sort_by_ensures(ascending_order());
    let t = ascending(s);
    assert(t.len() == s.len()) by {
        assert(t.to_multiset().len() == s.to_multiset().len());
    }
    assert forall|i: int| 0 <= i < s.len() implies u.contains(#[trigger] t[i] as int) by {
        assert(t.contains(t[i]));
        assert(t.to_multiset().count(t[i]) > 0);
        assert(s.to_multiset().count(t[i]) > 0);
        assert(s.contains(t[i]));
        let j = choose|j: int| 0 <= j < s.len() && s[j] == t[i];
        assert(u.contains(s[j] as int));
    }
}

proof fn lemma_total_bounds(s: Seq<i64>, lo: int, hi: int)
    requires
        forall|i: int| 0 <= i < s.len() ==> lo <= #[trigger] s[i] <= hi,
    ensures
        s.len() * lo <= total(s) <= s.len() * hi,
    decreases s.len(),
{
    if s.len() > 0 {
        let t = s.drop_last();
        assert forall|i: int| 0 <= i < t.len() implies lo <= #[trigger] t[i] <= hi by {
            assert(t[i] == s[i]);
        }
        lemma_total_bounds(t, lo, hi);
        let n = t.len() as int;
        assert(n * lo + lo == (n + 1) * lo) by (nonlinear_arith);
        assert(n * hi + hi == (n + 1) * hi) by (nonlinear_arith);
    }
}

/// Sorts `v` from lowest to highest.
pub fn sort_ascending(v: &Vec<i64>) -> (r: Vec<i64>)
    ensures
        r@ == ascending(v@),
{
    let mut out: Vec<i64> = Vec::new();
    let mut i: usize = 0;
    while i < v.len()
        invariant
            i <= v.len(),
            sorted_by(out@, ascending_order()),
            out@.to_multiset() == v@.subrange(0, i as int).to_multiset(),
        decreases v.len() - i,
    {
        let x = v[i];
        let mut pos: usize = 0;
        while pos < out.len() && out[pos] <= x
            invariant
                pos <= out.len(),
                forall|j: int| 0 <= j < pos ==> out@[j] <= x,
            decreases out.len() - pos,
        {
            pos = pos + 1;
        }
        let ghost before = out@;
        out.insert(pos, x);
        proof {
            assert forall|a: int, b: int| 0 <= a < b < out@.len() implies #[trigger] (
            ascending_order())(out@[a], out@[b]) by {
                if b < pos {
                } else if b == pos {
                } else if a < pos {
                    assert((ascending_order())(before[a], before[b - 1]));
                } else if a == pos {
                    assert(before[pos as int] > x);
                    if pos < b - 1 {
                        assert((ascending_order())(before[pos as int], before[b - 1]));
                    }
                } else {
                    assert((ascending_order())(before[a - 1], before[b - 1]));
                }
            }
            assert(v@.subrange(0, i + 1) =~= v@.subrange(0, i as int).push(x));
        }
        i = i + 1;
    }
    proof {
        assert(v@.subrange(0, v@.len() as int) =~= v@);
        lemma_ascending_total_order();
        v@.lemma_sort_by_ensures(ascending_order());
        vstd::seq_lib::lemma_sorted_unique(out@, ascending(v@), ascending_order());
    }
    out
}


// ---------------------------------------------------------------------------
// Dice
// ---------------------------------------------------------------------------

/// A compound roll: `count` dice over `range`; the `drop` lowest are
/// discarded, the rest summed, multiplied by `multiplier`, and `modifier`
/// added.
#[derive(Debug, Clone)]
pub struct Dice<R> {
    pub count: i64,
    pub range: R,
    pub multiplier: i64,
    pub modifier: i64,
    pub drop: i64,
}

/// Dice over the faces `1..=sides`, as notation describes them.
pub type StdDice = Dice<RangeInclusive<i64>>;

impl<R: ToUniform> Dice<R> {
    /// The dice can be rolled, and no value formed on the way leaves `i64`:
    /// `drop` lies between zero and `count`, the faces are not empty when a
    /// die is rolled, and the sum of the `count - drop` kept dice, that sum
    /// times the multiplier, and that product plus the modifier fit in
    /// `i64` at both ends of their range.
    pub open spec fn rollable(&self) -> bool {
        let u = self.range.uniform_spec();
        let k = self.count - self.drop;
        let lo = k * u.low;
        let hi = k * top(u);
        let m = self.multiplier as int;
        &&& 0 <= self.drop <= self.count
        &&& (self.count > 0 ==> !u.empty())
        &&& fits(lo) && fits(hi)
        &&& fits(m * lo) && fits(m * hi)
        &&& fits(m * lo + self.modifier) && fits(m * hi + self.modifier)
    }

    /// `s` could be the faces shown by one roll of these dice.
    pub open spec fn valid_samples(&self, s: Seq<i64>) -> bool {
        &&& s.len() == self.count
        &&& forall|i: int| 0 <= i < s.len() ==> self.range.uniform_spec().contains(#[trigger] s[i] as int)
    }

    /// The result of a roll whose dice showed `s`.
    pub open spec fn outcome(&self, s: Seq<i64>) -> int {
        self.multiplier * kept_total(s, self.drop as int) + self.modifier
    }

    /// `v` is the result of some roll of these dice.
    pub open spec fn possible(&self, v: int) -> bool {
        exists|s: Seq<i64>| self.valid_samples(s) && v == #[trigger] self.outcome(s)
    }

    /// The dice that `new` builds: a `drop` above `count` is lowered to `count`.
    pub open spec fn new_spec(count: i64, range: R, multiplier: i64, modifier: i64, drop: i64) -> Self {
        Dice { count, range, multiplier, modifier, drop: if drop > count { count } else { drop } }
    }

    /// Builds dice; a `drop` above `count` is lowered to `count`.
    pub fn new(count: i64, range: R, multiplier: i64, modifier: i64, drop: i64) -> (r: Self)
        ensures
            r == Self::new_spec(count, range, multiplier, modifier, drop),
    {
        let drop = if drop > count { count } else { drop };
        Dice { count, range, multiplier, modifier, drop }
    }

    /// Whether `rollable` holds.
    pub fn can_roll(&self) -> (r: bool)
        ensures
            r == self.rollable(),
    {
        let u = self.range.to_uniform();
        if !(0 <= self.drop && self.drop <= self.count) {
            return false;
        }
        if self.count > 0 && u.is_empty() {
            return false;
        }
        let k: i128 = self.count as i128 - self.drop as i128;
        let low: i128 = u.low as i128;
        let high: i128 = if u.high_inclusive { u.high as i128 } else { u.high as i128 - 1 };
        assert(-0x8000_0000_0000_0000 * 0x8000_0000_0000_0001 <= k * low <= 0x8000_0000_0000_0000 * 0x8000_0000_0000_0001) by (nonlinear_arith)
            requires 0 <= k <= 0x8000_0000_0000_0000, -0x8000_0000_0000_0001 <= low <= 0x8000_0000_0000_0001;
        assert(-0x8000_0000_0000_0000 * 0x8000_0000_0000_0001 <= k * high <= 0x8000_0000_0000_0000 * 0x8000_0000_0000_0001) by (nonlinear_arith)
            requires 0 <= k <= 0x8000_0000_0000_0000, -0x8000_0000_0000_0001 <= high <= 0x8000_0000_0000_0001;
        let lo = k * low;
        let hi = k * high;
        if lo < i64::MIN as i128 || lo > i64::MAX as i128 || hi < i64::MIN as i128 || hi > i64::MAX as i128 {
            return false;
        }
        let m: i128 = self.multiplier as i128;
        assert(-0x8000_0000_0000_0000 * 0x8000_0000_0000_0000 <= m * lo <= 0x8000_0000_0000_0000 * 0x8000_0000_0000_0000) by (nonlinear_arith)
            requires -0x8000_0000_0000_0000 <= m <= 0x8000_0000_0000_0000, -0x8000_0000_0000_0000 <= lo <= 0x8000_0000_0000_0000;
        assert(-0x8000_0000_0000_0000 * 0x8000_0000_0000_0000 <= m * hi <= 0x8000_0000_0000_0000 * 0x8000_0000_0000_0000) by (nonlinear_arith)
            requires -0x8000_0000_0000_0000 <= m <= 0x8000_0000_0000_0000, -0x8000_0000_0000_0000 <= hi <= 0x8000_0000_0000_0000;
        let a = m * lo;
        let b = m * hi;
        let add = self.modifier as i128;
        let min = i64::MIN as i128;
        let max = i64::MAX as i128;
        min <= a && a <= max && min <= b && b <= max && min <= a + add && a + add <= max && min
            <= b + add && b + add <= max
    }

    /// The result of a roll whose dice showed `samples`: they are sorted, the
    /// lowest `drop` discarded, the rest summed, multiplied and modified.
    pub fn roll_samples(&self, samples: &Vec<i64>) -> (r: i64)
        requires
            self.rollable(),
            self.valid_samples(samples@),
        ensures
            r == self.outcome(samples@),
    {
        let ghost u = self.range.uniform_spec();
        let ghost k = self.count - self.drop;
        let sorted = sort_ascending(samples);
        proof {
            lemma_ascending_within(samples@, u);
        }
        let n = sorted.len();
        let mut i: usize = self.drop as usize;
        let mut sum: i64 = 0;
        proof {
            assert(sorted@.subrange(self.drop as int, i as int) =~= Seq::<i64>::empty());
        }
        while i < n
            invariant
                n == sorted@.len() == self.count,
                self.rollable(),
                u == self.range.uniform_spec(),
                k == self.count - self.drop,
                sorted@ == ascending(samples@),
                forall|j: int| 0 <= j < n ==> u.contains(#[trigger] sorted@[j] as int),
                self.drop <= i <= n,
                sum == total(sorted@.subrange(self.drop as int, i as int)),
                (i - self.drop) * u.low <= sum <= (i - self.drop) * top(u),
            decreases n - i,
        {
            let x = sorted[i];
            let ghost j = i - self.drop;
            assert(u.low <= x <= top(u));
            assert((j + 1) * u.low == j * u.low + u.low) by (nonlinear_arith);
            assert((j + 1) * top(u) == j * top(u) + top(u)) by (nonlinear_arith);
            assert(i64::MIN <= (j + 1) * u.low) by (nonlinear_arith)
                requires 0 <= j + 1 <= k, i64::MIN <= k * u.low;
            assert((j + 1) * top(u) <= i64::MAX) by (nonlinear_arith)
                requires 0 <= j + 1 <= k, k * top(u) <= i64::MAX;
            sum = sum + x;
            i = i + 1;
            proof {
                let t = sorted@.subrange(self.drop as int, i as int);
                assert(t.drop_last() =~= sorted@.subrange(self.drop as int, i - 1));
            }
        }
        let ghost lo = k * u.low;
        let ghost hi = k * top(u);
        let ghost m = self.multiplier as int;
        assert((m * lo <= m * sum <= m * hi) || (m * hi <= m * sum <= m * lo)) by (nonlinear_arith)
            requires lo <= sum <= hi;
        self.multiplier * sum + self.modifier
    }

    /// Rolls the dice with `rng`. The result is that of some faces the dice
    /// can show.
    pub fn roll_with_rng(&self, rng: &mut StdRng) -> (r: i64)
        requires
            self.rollable(),
        ensures
            self.possible(r as int),
    {
        let u = self.range.to_uniform();
        let mut samples: Vec<i64> = Vec::new();
        let mut i: i64 = 0;
        while i < self.count
            invariant
                self.rollable(),
                u == self.range.uniform_spec(),
                0 <= i <= self.count,
                samples@.len() == i,
                forall|j: int| 0 <= j < i ==> u.contains(#[trigger] samples@[j] as int),
            decreases self.count - i,
        {
            let x = if u.high_inclusive {
                sample_between(rng, u.low, u.high)
            } else {
                sample_between(rng, u.low, u.high - 1)
            };
            samples.push(x);
            i = i + 1;
        }
        let r = self.roll_samples(&samples);
        assert(self.valid_samples(samples@) && r == self.outcome(samples@));
        r
    }
}

impl Default for Dice<RangeInclusive<i64>> {
    /// One six-sided die.
    fn default() -> (r: Self)
        ensures
            r.count == 1,
            r.range@.start == 1,
            r.range@.end == 6,
            !r.range@.exhausted,
            r.multiplier == 1,
            r.modifier == 0,
            r.drop == 0,
    {
        Dice { count: 1, range: 1..=6, multiplier: 1, modifier: 0, drop: 0 }
    }
}

/// With no die dropped and faces `1..=sides`, a roll of `count` dice with
/// multiplier `m` and modifier `k` lies in `[count * m + k, count * sides * m + k]`
/// when `m >= 0`, and in the reversed interval when `m < 0`.
pub proof fn lemma_roll_bounds<R: ToUniform>(dice: Dice<R>, sides: i64, v: int)
    requires
        dice.drop == 0,
        dice.range.uniform_spec() == (UniformRange { low: 1, high: sides, high_inclusive: true }),
        dice.possible(v),
    ensures
        dice.multiplier >= 0 ==> dice.count * dice.multiplier + dice.modifier <= v <= dice.count
            * sides * dice.multiplier + dice.modifier,
        dice.multiplier < 0 ==> dice.count * sides * dice.multiplier + dice.modifier <= v
            <= dice.count * dice.multiplier + dice.modifier,
{
    let u = dice.range.uniform_spec();
    let s = choose|s: Seq<i64>| dice.valid_samples(s) && v == #[trigger] dice.outcome(s);
    lemma_ascending_within(s, u);
    let t = ascending(s).subrange(0, s.len() as int);
    assert(t =~= ascending(s));
    lemma_total_bounds(t, 1, sides as int);
    let n = dice.count as int;
    let m = dice.multiplier as int;
    let sum = total(t);
    assert(n * 1 <= sum <= n * sides);
    assert(v == m * sum + dice.modifier);
    if m >= 0 {
        assert(n * m <= m * sum <= n * sides * m) by (nonlinear_arith)
            requires n <= sum <= n * sides, m >= 0;
    } else {
        assert(n * sides * m <= m * sum <= n * m) by (nonlinear_arith)
            requires n <= sum <= n * sides, m < 0;
    }
}

/// Dice built with a `drop` above their `count` drop exactly `count` dice,
/// and every roll of them gives exactly the modifier.
pub proof fn lemma_excess_drop<R: ToUniform>(
    count: i64,
    range: R,
    multiplier: i64,
    modifier: i64,
    drop: i64,
    v: int,
)
    requires
        drop > count,
        Dice::new_spec(count, range, multiplier, modifier, drop).possible(v),
    ensures
        Dice::new_spec(count, range, multiplier, modifier, drop).drop == count,
        v == modifier,
{
    let dice = Dice::new_spec(count, range, multiplier, modifier, drop);
    let s = choose|s: Seq<i64>| dice.valid_samples(s) && v == #[trigger] dice.outcome(s);
    lemma_ascending_within(s, dice.range.uniform_spec());
    assert(ascending(s).subrange(count as int, s.len() as int) =~= Seq::<i64>::empty());
    assert(kept_total(s, count as int) == 0);
}

// ---------------------------------------------------------------------------
// The source of randomness
// ---------------------------------------------------------------------------

#[verifier::external_type_specification]
#[verifier::external_body]
pub struct ExStdRng(StdRng);

/// Relies on rand's `Rng::gen_range` over `low..=high`: it returns a value
/// within the bounds, drawn uniformly (it panics on an empty range).
#[verifier::external_body]
fn sample_between(rng: &mut StdRng, low: i64, high: i64) -> (r: i64)
    requires
        low <= high,
    ensures
        low <= r <= high,
{
    rand::Rng::gen_range(rng, low..=high)
}

/// Relies on rand's `SeedableRng::from_rng` over `OsRng`: a generator seeded
/// by the operating system, or `None` where the system supplies no entropy.
#[verifier::external_body]
fn entropy_rng() -> Option<StdRng> {
    <StdRng as rand::SeedableRng>::from_rng(rand::rngs::OsRng).ok()
}

/// Relies on rand's `SeedableRng::seed_from_u64`: a generator whose sequence
/// depends on `seed` alone.
#[verifier::external_body]
fn seeded_rng(seed: u64) -> StdRng {
    <StdRng as rand::SeedableRng>::seed_from_u64(seed)
}

/// Rolls dice with a generator of its own.
#[derive(Debug)]
pub struct DiceRoller {
    rng: StdRng,
}

impl DiceRoller {
    /// A roller whose generator the operating system seeds, or `None`
    /// where the system supplies no entropy.
    pub fn new() -> (r: Option<DiceRoller>) {
        match entropy_rng() {
            Some(rng) => Some(DiceRoller { rng }),
            None => None,
        }
    }

    /// A roller whose rolls are fixed by `seed`.
    pub fn from_seed(seed: u64) -> (r: DiceRoller) {
        DiceRoller { rng: seeded_rng(seed) }
    }

    /// A roller that draws from `rng`.
    pub fn from_rng(rng: StdRng) -> (r: DiceRoller) {
        DiceRoller { rng }
    }

    pub fn roll_dice<R: ToUniform>(&mut self, dice: &Dice<R>) -> (r: i64)
        requires
            dice.rollable(),
        ensures
            dice.possible(r as int),
    {
        dice.roll_with_rng(&mut self.rng)
    }

    /// Builds dice as `Dice::new` does and rolls them once.
    pub fn roll<R: ToUniform>(
        &mut self,
        count: i64,
        range: R,
        multiplier: i64,
        modifier: i64,
        drop: i64,
    ) -> (r: i64)
        requires
            Dice::new_spec(count, range, multiplier, modifier, drop).rollable(),
        ensures
            Dice::new_spec(count, range, multiplier, modifier, drop).possible(r as int),
    {
        let dice = Dice::new(count, range, multiplier, modifier, drop);
        self.roll_dice(&dice)
    }

    /// Rolls `dice` `times` times; no roll when `times` is not positive.
    pub fn roll_dice_times<R: ToUniform>(&mut self, dice: &Dice<R>, times: i64) -> (r: Vec<i64>)
        requires
            dice.rollable(),
        ensures
            r@.len() == if times > 0 { times as int } else { 0 },
            forall|i: int| 0 <= i < r@.len() ==> dice.possible(#[trigger] r@[i] as int),
    {
        let mut rolls: Vec<i64> = Vec::new();
        let mut i: i64 = 0;
        while i < times
            invariant
                dice.rollable(),
                0 <= i,
                times > 0 ==> i <= times,
                times <= 0 ==> i == 0,
                rolls@.len() == i,
                forall|j: int| 0 <= j < rolls@.len() ==> dice.possible(#[trigger] rolls@[j] as int),
            decreases times - i,
        {
            let v = self.roll_dice(dice);
            rolls.push(v);
            i = i + 1;
        }
        rolls
    }

    /// Builds dice as `Dice::new` does and rolls them `times` times.
    pub fn roll_times<R: ToUniform>(
        &mut self,
        count: i64,
        range: R,
        multiplier: i64,
        modifier: i64,
        drop: i64,
        times: i64,
    ) -> (r: Vec<i64>)
        requires
            Dice::new_spec(count, range, multiplier, modifier, drop).rollable(),
        ensures
            r@.len() == if times > 0 { times as int } else { 0 },
            forall|i: int|
                0 <= i < r@.len() ==> Dice::new_spec(count, range, multiplier, modifier, drop).possible(
                    #[trigger] r@[i] as int,
                ),
    {
        let dice = Dice::new(count, range, multiplier, modifier, drop);
        self.roll_dice_times(&dice, times)
    }
}


} // verus!
