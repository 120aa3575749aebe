//! Time bucketing for tick-to-candle aggregation: which candle period a
//! tick falls in, and whether it extends, closes or misses the candle
//! being built.
use vstd::prelude::*;
use crate::json::str_eq;
use crate::text::to_owned_string;

verus! {

/// A UTC instant: whole seconds since the Unix epoch (floored) and the
/// nanoseconds past that second, as `chrono::DateTime<Utc>` holds it.
#[derive(Debug, Clone, Copy, PartialEq, Eq, Structural)]
pub struct UtcInstant {
    pub secs: i64,
    pub nanos: u32,
}

/// `a` is strictly before `b`.
pub open spec fn instant_lt(a: UtcInstant, b: UtcInstant) -> bool {
    a.secs < b.secs || (a.secs == b.secs && a.nanos < b.nanos)
}

/// `a` is strictly before `b`.
pub fn instant_before(a: UtcInstant, b: UtcInstant) -> (r: bool)
    ensures
        r == instant_lt(a, b),
{
    a.secs < b.secs || (a.secs == b.secs && a.nanos < b.nanos)
}

/// Rust's remainder on signed integers: the sign of the dividend, the
/// magnitude of `|a| mod |b|`.
pub open spec fn trunc_rem(a: int, b: int) -> int {
    let m = if a >= 0 { a } else { -a };
    let d = if b >= 0 { b } else { -b };
    if a >= 0 { m % d } else { -(m % d) }
}

/// Start of the period of length `tf` seconds containing `unix`, as
/// `unix - unix % tf` computes it.
pub open spec fn aligned_secs(unix: int, tf: int) -> int {
    unix - trunc_rem(unix, tf)
}

/// Whole seconds `unix` aligned down to a multiple of `tf`.
pub fn align_secs(unix: i64, tf: i64) -> (r: i64)
    requires
        tf != 0,
        !(unix == i64::MIN && tf == -1),
    ensures
        r == aligned_secs(unix as int, tf as int),
{
    // the remainder of the magnitudes, with the dividend's sign
    let m: u64 = if unix >= 0 { unix as u64 } else { ((-(unix + 1)) as u64) + 1 };
    let d: u64 = if tf >= 0 { tf as u64 } else { ((-(tf + 1)) as u64) + 1 };
    let r: u64 = m % d;
    let rem: i64 = if unix >= 0 { r as i64 } else { -(r as i64) };
    unix - rem
}

/// Earliest whole second chrono can hold: -262143-01-01T00:00:00Z.
pub const CHRONO_MIN_SECS: i64 = -8_334_601_228_800;

/// Latest whole second chrono can hold: +262142-12-31T23:59:59Z.
pub const CHRONO_MAX_SECS: i64 = 8_210_266_876_799;

/// Whether `chrono::DateTime::<Utc>::from_timestamp(secs, 0)` yields an
/// instant: the seconds lie between chrono's first and last day.
pub open spec fn chrono_secs_in_range(secs: i64) -> bool {
    CHRONO_MIN_SECS <= secs <= CHRONO_MAX_SECS
}

/// `chrono::DateTime::<Utc>::from_timestamp(secs, 0).is_some()`: chrono
/// accepts exactly the seconds whose day lies between `NaiveDate::MIN`
/// and `NaiveDate::MAX` (a zero nanosecond part is always valid).
#[verifier::external_body]
fn chrono_secs_representable(secs: i64) -> (b: bool)
    ensures
        b == chrono_secs_in_range(secs),
{
    chrono::DateTime::<chrono::Utc>::from_timestamp(secs, 0).is_some()
}

/// The instant aligned down to the start of its period of `tf` seconds
/// (nanoseconds dropped); the instant itself when that start lies outside
/// chrono's range.
pub open spec fn align_spec(ts: UtcInstant, tf: i64) -> UtcInstant {
    let a = aligned_secs(ts.secs as int, tf as int);
    if i64::MIN <= a <= i64::MAX && chrono_secs_in_range(a as i64) {
        UtcInstant { secs: a as i64, nanos: 0 }
    } else {
        ts
    }
}

/// Align an instant down to the start of its candle period.
pub fn align_timestamp(ts: UtcInstant, tf: i64) -> (r: UtcInstant)
    requires
        tf != 0,
        !(ts.secs == i64::MIN && tf == -1),
    ensures
        r == align_spec(ts, tf),
{
    let aligned = align_secs(ts.secs, tf);
    if chrono_secs_representable(aligned) {
        UtcInstant { secs: aligned, nanos: 0 }
    } else {
        ts
    }
}

/// Where a tick stands relative to the candle being built.
#[derive(Debug, Clone, Copy, PartialEq, Eq, Structural)]
pub enum TickPlacement {
    /// Before the candle's start: ignored.
    BeforeCandle,
    /// At or past the candle's end: the candle is finished.
    ClosesCandle,
    /// Inside the candle's period: it is accumulated.
    InCandle,
}

/// Shifting an instant by whole seconds stays in chrono's range.
pub open spec fn can_shift(t: UtcInstant, secs: i64) -> bool {
    &&& -(i64::MAX / 1000) <= secs <= i64::MAX / 1000
    &&& i64::MIN <= t.secs + secs <= i64::MAX
    &&& chrono_secs_in_range((t.secs + secs) as i64)
}

/// The instant `secs` whole seconds later.
pub open spec fn shifted(t: UtcInstant, secs: i64) -> UtcInstant {
    UtcInstant { secs: (t.secs + secs) as i64, nanos: t.nanos }
}

/// Placement of a tick at `tick` for a candle starting at `start` and
/// lasting `tf` seconds.
pub open spec fn placement_spec(start: UtcInstant, tf: i64, tick: UtcInstant) -> TickPlacement {
    if instant_lt(tick, start) {
        TickPlacement::BeforeCandle
    } else if !instant_lt(tick, shifted(start, tf)) {
        TickPlacement::ClosesCandle
    } else {
        TickPlacement::InCandle
    }
}

/// Decide what a tick does to the candle that starts at `start`.
pub fn place_tick(start: UtcInstant, tf: i64, tick: UtcInstant) -> (p: TickPlacement)
    requires
        can_shift(start, tf),
    ensures
        p == placement_spec(start, tf, tick),
{
    if instant_before(tick, start) {
        return TickPlacement::BeforeCandle;
    }
    let next_start = UtcInstant { secs: start.secs + tf, nanos: start.nanos };
    if !instant_before(tick, next_start) {
        TickPlacement::ClosesCandle
    } else {
        TickPlacement::InCandle
    }
}

/// `can_shift(t, secs)`, computed: chrono's `Duration::seconds` accepts
/// `secs` and the shifted instant stays in its range.
pub fn shift_fits(t: UtcInstant, secs: i64) -> (b: bool)
    ensures
        b == can_shift(t, secs),
{
    let bound: i64 = i64::MAX / 1000;
    if secs < -bound || secs > bound {
        return false;
    }
    match t.secs.checked_add(secs) {
        Some(s) => CHRONO_MIN_SECS <= s && s <= CHRONO_MAX_SECS,
        None => false,
    }
}

/// A tick at `tick` can be routed to a candle of `tf` seconds: the period
/// is non-zero, the alignment does not overflow, and the candle that
/// starts at the tick's own period can be closed.
pub open spec fn tick_fits(tick: UtcInstant, tf: i64) -> bool {
    &&& tf != 0
    &&& !(tick.secs == i64::MIN && tf == -1)
    &&& can_shift(align_spec(tick, tf), tf)
}

/// `tick_fits(tick, tf)`, computed.
pub fn tick_fits_exec(tick: UtcInstant, tf: i64) -> (b: bool)
    ensures
        b == tick_fits(tick, tf),
{
    if tf == 0 || (tick.secs == i64::MIN && tf == -1) {
        return false;
    }
    let start = align_timestamp(tick, tf);
    shift_fits(start, tf)
}

// ── The per-(symbol, timeframe) candle table ─────────────────────────────

/// One candle being built, as the table's contracts see it: its symbol,
/// period, start and accumulator.
pub struct SlotView<A> {
    pub symbol: Seq<char>,
    pub timeframe: i64,
    pub start: UtcInstant,
    pub acc: A,
}

/// One candle being built.
pub struct CandleSlot<A> {
    symbol: String,
    timeframe: i64,
    start: UtcInstant,
    acc: A,
}

impl<A> CandleSlot<A> {
    pub closed spec fn view(&self) -> SlotView<A> {
        SlotView { symbol: self.symbol@, timeframe: self.timeframe, start: self.start, acc: self.acc }
    }
}

/// The views of a sequence of slots.
pub closed spec fn slot_views<A>(v: Seq<CandleSlot<A>>) -> Seq<SlotView<A>> {
    Seq::new(v.len(), |i: int| v[i].view())
}

/// The slot is the candle of `sym` over `tf` seconds.
pub open spec fn same_key<A>(s: SlotView<A>, sym: Seq<char>, tf: i64) -> bool {
    s.symbol == sym && s.timeframe == tf
}

/// Some slot is the candle of `sym` over `tf` seconds.
pub open spec fn has_key<A>(s: Seq<SlotView<A>>, sym: Seq<char>, tf: i64) -> bool {
    exists|i: int| 0 <= i < s.len() && same_key(#[trigger] s[i], sym, tf)
}

/// The position of the candle of `sym` over `tf` seconds.
pub open spec fn key_slot<A>(s: Seq<SlotView<A>>, sym: Seq<char>, tf: i64) -> int {
    choose|i: int| 0 <= i < s.len() && same_key(#[trigger] s[i], sym, tf)
}

/// No two slots share a symbol and a period.
pub open spec fn keys_distinct<A>(s: Seq<SlotView<A>>) -> bool {
    forall|i: int, j: int|
        0 <= i < j < s.len() ==> !same_key(#[trigger] s[i], s[j].symbol, #[trigger] s[j].timeframe)
}

/// A slot whose period is non-zero and whose end chrono can hold.
pub open spec fn slot_ok<A>(s: SlotView<A>) -> bool {
    s.timeframe != 0 && can_shift(s.start, s.timeframe)
}

/// The table with a slot for `sym` over `tf`: unchanged where there is
/// one, else with a fresh candle at the tick's own period appended.
pub open spec fn with_slot<A>(s: Seq<SlotView<A>>, sym: Seq<char>, tf: i64, tick: UtcInstant, fresh: A) -> Seq<SlotView<A>> {
    if has_key(s, sym, tf) {
        s
    } else {
        s.push(SlotView { symbol: sym, timeframe: tf, start: align_spec(tick, tf), acc: fresh })
    }
}

/// What a tick did to the candle it was routed to.
pub enum TickRoute<A> {
    /// Before the candle's start: nothing changed.
    Ignored { slot: usize },
    /// Inside the candle: the caller adds the tick to its accumulator.
    Added { slot: usize },
    /// At or past the candle's end: the candle that started at `start`
    /// is finished with accumulator `finished`; the slot now holds a fresh
    /// candle at the tick's own period, and `added` says whether the tick
    /// falls inside it (the caller then adds it there).
    Closed { slot: usize, start: UtcInstant, finished: A, added: bool },
}

/// Routing a tick to slot `i`: the new table and what happened.
pub open spec fn route_spec<A>(s: Seq<SlotView<A>>, i: int, tick: UtcInstant, fresh: A) -> (Seq<SlotView<A>>, TickRoute<A>) {
    let slot = s[i];
    let tf = slot.timeframe;
    if placement_spec(slot.start, tf, tick) == TickPlacement::BeforeCandle {
        (s, TickRoute::Ignored { slot: i as usize })
    } else if placement_spec(slot.start, tf, tick) == TickPlacement::InCandle {
        (s, TickRoute::Added { slot: i as usize })
    } else {
        let next = align_spec(tick, tf);
        (
            s.update(i, SlotView { symbol: slot.symbol, timeframe: tf, start: next, acc: fresh }),
            TickRoute::Closed {
                slot: i as usize,
                start: slot.start,
                finished: slot.acc,
                added: placement_spec(next, tf, tick) == TickPlacement::InCandle,
            },
        )
    }
}

/// One tick for `sym` over `tf`: find or open the slot, then route.
pub open spec fn step_spec<A>(s: Seq<SlotView<A>>, sym: Seq<char>, tf: i64, tick: UtcInstant, fresh: A) -> (Seq<SlotView<A>>, TickRoute<A>) {
    let t = with_slot(s, sym, tf, tick, fresh);
    route_spec(t, key_slot(t, sym, tf), tick, fresh)
}

/// The candles being built, one per (symbol, timeframe), each with an
/// accumulator of type `A` that the caller fills.
pub struct CandleTable<A> {
    slots: Vec<CandleSlot<A>>,
}

impl<A> CandleTable<A> {
    #[verifier::type_invariant]
    spec fn table_ok(self) -> bool {
        &&& keys_distinct(self@)
        &&& forall|i: int| 0 <= i < self@.len() ==> slot_ok(#[trigger] self@[i])
    }

    /// The slots in the order they were opened.
    pub closed spec fn view(&self) -> Seq<SlotView<A>> {
        slot_views(self.slots@)
    }
}

impl<A: Copy> CandleTable<A> {
    /// An empty table.
    pub fn new() -> (t: Self)
        ensures
            t@ == Seq::<SlotView<A>>::empty(),
    {
        let t = CandleTable { slots: Vec::new() };
        assert(t@ =~= Seq::<SlotView<A>>::empty());
        t
    }

    /// Number of candles being built.
    pub fn len(&self) -> (n: usize)
        ensures
            n == self@.len(),
    {
        self.slots.len()
    }

    /// Start of the candle in slot `i`.
    pub fn start(&self, i: usize) -> (r: UtcInstant)
        requires
            i < self@.len(),
        ensures
            r == self@[i as int].start,
    {
        self.slots[i].start
    }

    /// Period of the candle in slot `i`.
    pub fn timeframe(&self, i: usize) -> (r: i64)
        requires
            i < self@.len(),
        ensures
            r == self@[i as int].timeframe,
    {
        self.slots[i].timeframe
    }

    /// Accumulator of the candle in slot `i`.
    pub fn acc(&self, i: usize) -> (r: A)
        requires
            i < self@.len(),
        ensures
            r == self@[i as int].acc,
    {
        self.slots[i].acc
    }

    /// Replace the accumulator of the candle in slot `i`.
    pub fn set_acc(&mut self, i: usize, a: A)
        requires
            i < old(self)@.len(),
        ensures
            final(self)@ == old(self)@.update(
                i as int,
                SlotView { symbol: old(self)@[i as int].symbol, timeframe: old(self)@[i as int].timeframe, start: old(self)@[i as int].start, acc: a },
            ),
    {
        proof {
            use_type_invariant(&*self);
        }
        let ghost target = old(self)@.update(
            i as int,
            SlotView { symbol: old(self)@[i as int].symbol, timeframe: old(self)@[i as int].timeframe, start: old(self)@[i as int].start, acc: a },
        );
        let mut slots = Vec::new();
        std::mem::swap(&mut slots, &mut self.slots);
        let ghost before = slots@;
        let old_slot = slots.remove(i);
        slots.insert(i, CandleSlot { symbol: old_slot.symbol, timeframe: old_slot.timeframe, start: old_slot.start, acc: a });
        proof {
            assert(slot_views(before) == old(self)@);
            assert(slot_views(slots@) =~= target);
            assert forall|p: int, q: int| 0 <= p < q < target.len() implies !same_key(
                #[trigger] target[p],
                target[q].symbol,
                #[trigger] target[q].timeframe,
            ) by {
                assert(!same_key(old(self)@[p], old(self)@[q].symbol, old(self)@[q].timeframe));
            }
            assert forall|p: int| 0 <= p < target.len() implies slot_ok(#[trigger] target[p]) by {
                assert(slot_ok(old(self)@[p]));
            }
        }
        self.slots = slots;
    }
}

/// Position of the slot of `sym` over `tf` among `slots`, if any.
fn find_slot<A>(slots: &Vec<CandleSlot<A>>, sym: &str, tf: i64) -> (r: Option<usize>)
    ensures
        match r {
            Some(i) => i < slots@.len() && same_key(slot_views(slots@)[i as int], sym@, tf),
            None => !has_key(slot_views(slots@), sym@, tf),
        },
{
    let ghost v = slot_views(slots@);
    let n = slots.len();
    let mut k: usize = 0;
    while k < n
        invariant
            n == slots@.len(),
            v == slot_views(slots@),
            k <= n,
            forall|j: int| 0 <= j < k ==> !same_key(#[trigger] v[j], sym@, tf),
        decreases n - k,
    {
        if slots[k].timeframe == tf && str_eq(slots[k].symbol.as_str(), sym) {
            return Some(k);
        }
        k = k + 1;
    }
    None
}

/// With distinct keys, the slot of a key is the one position that has it.
proof fn lemma_key_slot_unique<A>(s: Seq<SlotView<A>>, sym: Seq<char>, tf: i64, i: int)
    requires
        keys_distinct(s),
        0 <= i < s.len(),
        same_key(s[i], sym, tf),
    ensures
        has_key(s, sym, tf),
        key_slot(s, sym, tf) == i,
{
    let k = key_slot(s, sym, tf);
    assert(same_key(s[k], sym, tf));
    if k < i {
        assert(!same_key(s[k], s[i].symbol, s[i].timeframe));
    } else if i < k {
        assert(!same_key(s[i], s[k].symbol, s[k].timeframe));
    }
}

impl<A: Copy> CandleTable<A> {
    /// Route a tick of `sym` to its candle over `tf` seconds, opening that
    /// candle at the tick's own period when there is none yet. A tick at or
    /// past the candle's end finishes it and starts the next candle at the
    /// tick's own period, with accumulator `fresh`.
    pub fn step(&mut self, sym: &str, tf: i64, tick: UtcInstant, fresh: A) -> (r: TickRoute<A>)
        requires
            tick_fits(tick, tf),
        ensures
            (final(self)@, r) == step_spec(old(self)@, sym@, tf, tick, fresh),
            keys_distinct(final(self)@),
    {
        proof {
            use_type_invariant(&*self);
        }
        let ghost s0 = old(self)@;
        let ghost t = with_slot(s0, sym@, tf, tick, fresh);
        let mut slots = Vec::new();
        std::mem::swap(&mut slots, &mut self.slots);
        assert(slot_views(slots@) == s0);
        let i: usize = match find_slot(&slots, sym, tf) {
            Some(i) => i,
            None => {
                let start = align_timestamp(tick, tf);
                slots.push(CandleSlot { symbol: to_owned_string(sym), timeframe: tf, start, acc: fresh });
                proof {
                    assert(slot_views(slots@) =~= t);
                }
                slots.len() - 1
            },
        };
        proof {
            assert(slot_views(slots@) =~= t);
            assert(keys_distinct(t)) by {
                if !has_key(s0, sym@, tf) {
                    assert forall|p: int, q: int| 0 <= p < q < t.len() implies !same_key(
                        #[trigger] t[p],
                        t[q].symbol,
                        #[trigger] t[q].timeframe,
                    ) by {
                        if q == s0.len() {
                            assert(t[p] == s0[p]);
                        } else {
                            assert(t[p] == s0[p] && t[q] == s0[q]);
                        }
                    }
                }
            }
            assert forall|p: int| 0 <= p < t.len() implies slot_ok(#[trigger] t[p]) by {
                if p < s0.len() {
                    assert(t[p] == s0[p]);
                }
            }
            lemma_key_slot_unique(t, sym@, tf, i as int);
        }
        let cur = slots[i].start;
        assert(slot_ok(t[i as int]));
        let p = place_tick(cur, tf, tick);
        if p == TickPlacement::BeforeCandle {
            self.slots = slots;
            TickRoute::Ignored { slot: i }
        } else if p == TickPlacement::InCandle {
            self.slots = slots;
            TickRoute::Added { slot: i }
        } else {
            let next = align_timestamp(tick, tf);
            let added = place_tick(next, tf, tick) == TickPlacement::InCandle;
            let ghost before = slots@;
            let old_slot = slots.remove(i);
            let finished = old_slot.acc;
            let old_start = old_slot.start;
            slots.insert(i, CandleSlot { symbol: old_slot.symbol, timeframe: tf, start: next, acc: fresh });
            let ghost target = t.update(
                i as int,
                SlotView { symbol: t[i as int].symbol, timeframe: tf, start: next, acc: fresh },
            );
            proof {
                assert(slot_views(slots@) =~= target);
                assert forall|a: int, b: int| 0 <= a < b < target.len() implies !same_key(
                    #[trigger] target[a],
                    target[b].symbol,
                    #[trigger] target[b].timeframe,
                ) by {
                    assert(!same_key(t[a], t[b].symbol, t[b].timeframe));
                }
                assert forall|a: int| 0 <= a < target.len() implies slot_ok(#[trigger] target[a]) by {
                    assert(slot_ok(t[a]));
                }
            }
            self.slots = slots;
            TickRoute::Closed { slot: i, start: old_start, finished, added }
        }
    }
}

/// One tick routed over the periods `tfs` in turn: the table after the
/// last step and what each step did.
pub open spec fn steps_spec<A>(s: Seq<SlotView<A>>, sym: Seq<char>, tfs: Seq<i64>, tick: UtcInstant, fresh: A) -> (Seq<SlotView<A>>, Seq<TickRoute<A>>)
    decreases tfs.len(),
{
    if tfs.len() == 0 {
        (s, Seq::empty())
    } else {
        let prev = steps_spec(s, sym, tfs.drop_last(), tick, fresh);
        let last = step_spec(prev.0, sym, tfs.last(), tick, fresh);
        (last.0, prev.1.push(last.1))
    }
}

/// Candle aggregation of ticks over several timeframes (in seconds): one
/// candle being built per (symbol, timeframe), each with an accumulator of
/// type `A` that the caller fills.
pub struct CandleAggregator<A> {
    timeframes: Vec<i64>,
    table: CandleTable<A>,
}

impl<A: Copy> CandleAggregator<A> {
    /// The timeframes, in the order each tick visits them.
    pub closed spec fn timeframes(&self) -> Seq<i64> {
        self.timeframes@
    }

    /// The candles being built.
    pub closed spec fn slots(&self) -> Seq<SlotView<A>> {
        self.table@
    }

    /// An aggregator over `timeframes` with no candle yet.
    pub fn new(timeframes: &[i64]) -> (g: Self)
        ensures
            g.timeframes() == timeframes@,
            g.slots() == Seq::<SlotView<A>>::empty(),
    {
        let mut tfs: Vec<i64> = Vec::new();
        let mut k: usize = 0;
        while k < timeframes.len()
            invariant
                k <= timeframes@.len(),
                tfs@ == timeframes@.take(k as int),
            decreases timeframes@.len() - k,
        {
            tfs.push(timeframes[k]);
            k = k + 1;
            proof {
                assert(tfs@ =~= timeframes@.take(k as int));
            }
        }
        proof {
            assert(timeframes@.take(k as int) =~= timeframes@);
        }
        CandleAggregator { timeframes: tfs, table: CandleTable::new() }
    }

    /// Route a tick of `sym` to its candle in every timeframe, in order;
    /// the result says, per timeframe, what the tick did (see
    /// [`CandleTable::step`]).
    pub fn process_tick(&mut self, sym: &str, tick: UtcInstant, fresh: A) -> (routes: Vec<TickRoute<A>>)
        requires
            forall|k: int| 0 <= k < old(self).timeframes().len() ==> tick_fits(tick, #[trigger] old(self).timeframes()[k]),
        ensures
            final(self).timeframes() == old(self).timeframes(),
            (final(self).slots(), routes@) == steps_spec(old(self).slots(), sym@, old(self).timeframes(), tick, fresh),
            keys_distinct(final(self).slots()),
    {
        proof {
            use_type_invariant(&self.table);
        }
        let ghost s0 = self.table@;
        let ghost tfs = self.timeframes@;
        let n = self.timeframes.len();
        let mut routes: Vec<TickRoute<A>> = Vec::new();
        let mut k: usize = 0;
        assert forall|j: int| 0 <= j < tfs.len() implies tick_fits(tick, #[trigger] tfs[j]) by {
            assert(tfs[j] == old(self).timeframes()[j]);
        }
        assert(routes@ =~= Seq::<TickRoute<A>>::empty());
        while k < n
            invariant
                n == tfs.len(),
                tfs == self.timeframes@,
                k <= n,
                forall|j: int| 0 <= j < tfs.len() ==> tick_fits(tick, #[trigger] tfs[j]),
                (self.table@, routes@) == steps_spec(s0, sym@, tfs.take(k as int), tick, fresh),
                keys_distinct(self.table@),
            decreases n - k,
        {
            let tf = self.timeframes[k];
            let r = self.table.step(sym, tf, tick, fresh);
            routes.push(r);
            proof {
                assert(tfs.take(k + 1).drop_last() =~= tfs.take(k as int));
                assert(tfs.take(k + 1).last() == tf);
            }
            k = k + 1;
        }
        proof {
            assert(tfs.take(n as int) =~= tfs);
        }
        routes
    }

    /// Number of candles being built.
    pub fn candle_count(&self) -> (n: usize)
        ensures
            n == self.slots().len(),
    {
        self.table.len()
    }

    /// Accumulator of the candle in slot `i`.
    pub fn acc(&self, i: usize) -> (r: A)
        requires
            i < self.slots().len(),
        ensures
            r == self.slots()[i as int].acc,
    {
        self.table.acc(i)
    }

    /// Start of the candle in slot `i`.
    pub fn start(&self, i: usize) -> (r: UtcInstant)
        requires
            i < self.slots().len(),
        ensures
            r == self.slots()[i as int].start,
    {
        self.table.start(i)
    }

    /// Replace the accumulator of the candle in slot `i`.
    pub fn set_acc(&mut self, i: usize, a: A)
        requires
            i < old(self).slots().len(),
        ensures
            final(self).timeframes() == old(self).timeframes(),
            final(self).slots() == old(self).slots().update(
                i as int,
                SlotView { symbol: old(self).slots()[i as int].symbol, timeframe: old(self).slots()[i as int].timeframe, start: old(self).slots()[i as int].start, acc: a },
            ),
    {
        self.table.set_acc(i, a);
    }
}

/// For instants at or after the epoch and positive periods, the aligned
/// start is a multiple of the period at most one period before the
/// instant.
pub proof fn law_alignment(unix: int, tf: int)
    requires
        unix >= 0,
        tf > 0,
    ensures
        aligned_secs(unix, tf) <= unix < aligned_secs(unix, tf) + tf,
        aligned_secs(unix, tf) % tf == 0,
{
    vstd::arithmetic::div_mod::lemma_fundamental_div_mod(unix, tf);
    vstd::arithmetic::div_mod::lemma_mod_multiples_basic(unix / tf, tf);
    vstd::arithmetic::mul::lemma_mul_is_commutative(tf, unix / tf);
    assert(aligned_secs(unix, tf) == (unix / tf) * tf);
}

/// A tick inside a candle's period never closes it, and a tick at or past
/// its end always does: the three placements are exclusive and cover
/// every instant.
pub proof fn law_placement_partition(start: UtcInstant, tf: i64, tick: UtcInstant)
    requires
        tf > 0,
        can_shift(start, tf),
    ensures
        (placement_spec(start, tf, tick) == TickPlacement::InCandle) <==> (!instant_lt(tick, start)
            && instant_lt(tick, shifted(start, tf))),
        (placement_spec(start, tf, tick) == TickPlacement::ClosesCandle) <==> !instant_lt(
            tick,
            shifted(start, tf),
        ),
{
}

/// For ticks at or after the epoch and positive periods, a tick lies
/// inside the candle that starts at its own aligned period.
pub proof fn law_tick_in_own_period(tick: UtcInstant, tf: i64)
    requires
        tf > 0,
        tick.secs >= 0,
        tick_fits(tick, tf),
    ensures
        placement_spec(align_spec(tick, tf), tf, tick) == TickPlacement::InCandle,
{
    law_alignment(tick.secs as int, tf as int);
}

/// A tick that finishes a candle (at or after the epoch, positive period)
/// is the first tick of the next candle: the slot restarts at the tick's
/// own period with the fresh accumulator, the tick falls inside it, and
/// the finished candle is handed back with its own start. A tick for a
/// (symbol, period) not seen before opens a candle that holds it. No
/// other slot changes.
pub proof fn law_step_continues_candles<A>(
    s: Seq<SlotView<A>>,
    sym: Seq<char>,
    tf: i64,
    tick: UtcInstant,
    fresh: A,
)
    requires
        keys_distinct(s),
        s.len() < usize::MAX,
        tf > 0,
        tick.secs >= 0,
        tick_fits(tick, tf),
    ensures
        ({
            let (t, r) = step_spec(s, sym, tf, tick, fresh);
            &&& !has_key(s, sym, tf) ==> r == TickRoute::<A>::Added { slot: s.len() as usize }
            &&& r matches TickRoute::Closed { slot, start, finished, added } ==> {
                &&& added
                &&& t[slot as int] == SlotView { symbol: sym, timeframe: tf, start: align_spec(tick, tf), acc: fresh }
                &&& start == s[slot as int].start
                &&& finished == s[slot as int].acc
            }
            &&& forall|j: int| 0 <= j < s.len() && !same_key(s[j], sym, tf) ==> t[j] == s[j]
        }),
{
    law_tick_in_own_period(tick, tf);
    let t0 = with_slot(s, sym, tf, tick, fresh);
    if has_key(s, sym, tf) {
        let k = key_slot(s, sym, tf);
        lemma_key_slot_unique(s, sym, tf, k);
    } else {
        assert(same_key(t0[s.len() as int], sym, tf));
        assert(keys_distinct(t0)) by {
            assert forall|p: int, q: int| 0 <= p < q < t0.len() implies !same_key(
                #[trigger] t0[p],
                t0[q].symbol,
                #[trigger] t0[q].timeframe,
            ) by {
                if q == s.len() {
                    assert(t0[p] == s[p]);
                } else {
                    assert(t0[p] == s[p] && t0[q] == s[q]);
                }
            }
        }
        lemma_key_slot_unique(t0, sym, tf, s.len() as int);
    }
}

} // verus!
