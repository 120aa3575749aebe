//! Bounded single-producer single-consumer ring buffer for market events.
//!
//! The buffer keeps a power-of-two number of slots, addressed by two
//! monotonically increasing counters masked down to a slot index.
use vstd::arithmetic::power2::{pow2, lemma_pow2_pos, lemma_pow2_strictly_increases, lemma_pow2_unfold};
use vstd::bits::{low_bits_mask, lemma_u64_low_bits_mask_is_mod, lemma_u64_pow2_no_overflow};
use vstd::prelude::*;

verus! {

/// Abstract state of a ring buffer: the queued items, oldest first, and
/// the number of slots.
pub struct RingModel<T> {
    pub items: Seq<T>,
    pub capacity: nat,
}

/// Effect of `push`: a full buffer refuses the item and stays as it was;
/// otherwise the item is appended at the back.
pub open spec fn model_push<T>(m: RingModel<T>, x: T) -> (RingModel<T>, bool) {
    if m.items.len() >= m.capacity {
        (m, false)
    } else {
        (RingModel { items: m.items.push(x), capacity: m.capacity }, true)
    }
}

/// Effect of `pop`: the oldest item leaves the buffer.
pub open spec fn model_pop<T>(m: RingModel<T>) -> (RingModel<T>, Option<T>) {
    if m.items.len() == 0 {
        (m, None)
    } else {
        (RingModel { items: m.items.drop_first(), capacity: m.capacity }, Some(m.items[0]))
    }
}

/// Number of items `pop_n` takes: all that are queued, but at most `max`.
pub open spec fn model_pop_n_count<T>(m: RingModel<T>, max: nat) -> nat {
    if m.items.len() < max { m.items.len() } else { max }
}

/// Effect of `pop_n`: the oldest `count` items leave the buffer, in order.
pub open spec fn model_pop_n<T>(m: RingModel<T>, max: nat) -> (RingModel<T>, Seq<T>) {
    let count = model_pop_n_count(m, max);
    (
        RingModel { items: m.items.skip(count as int), capacity: m.capacity },
        m.items.take(count as int),
    )
}

/// `n` is a power of two.
pub open spec fn is_power_of_two(n: nat) -> bool {
    exists|k: nat| pow2(k) == n
}

/// The smallest power of two that is at least `n` (1 for 0).
pub open spec fn is_next_power_of_two(n: nat, r: nat) -> bool {
    &&& is_power_of_two(r)
    &&& n <= r
    &&& (r == 1 || r < 2 * n)
}

/// Smallest power of two greater than or equal to `n`, as
/// `usize::next_power_of_two` computes it.
pub fn next_power_of_two(n: usize) -> (r: usize)
    requires
        n <= usize::MAX / 2 + 1,
    ensures
        is_next_power_of_two(n as nat, r as nat),
{
    let mut p: usize = 1;
    let ghost mut k: nat = 0;
    proof {
        vstd::arithmetic::power2::lemma2_to64();
    }
    while p < n
        invariant
            n <= usize::MAX / 2 + 1,
            pow2(k) == p,
            1 <= p,
            p == 1 || p < 2 * n,
        decreases 2 * n - p,
    {
        proof {
            lemma_pow2_unfold(k + 1);
        }
        p = p * 2;
        proof {
            k = k + 1;
        }
    }
    proof { r_is_pow2(p as nat, k); }
    p
}

proof fn r_is_pow2(p: nat, k: nat)
    requires
        pow2(k) == p,
    ensures
        is_power_of_two(p),
{
}

/// Two sequence numbers less than a full buffer apart use different slots.
proof fn lemma_distinct_slots(a: int, b: int, cap: int)
    requires
        0 < b - a < cap,
    ensures
        a % cap != b % cap,
{
    if a % cap == b % cap {
        vstd::arithmetic::div_mod::lemma_mod_equivalence(b, a, cap);
        vstd::arithmetic::div_mod::lemma_small_mod((b - a) as nat, cap as nat);
    }
}

/// Ring buffer of `T` values, addressed by a write and a read counter;
/// `push` fails when full.
pub struct RingBuffer<T> {
    buffer: Vec<Option<T>>,
    capacity: usize,
    write_index: u64,
    read_index: u64,
    log2_capacity: Ghost<nat>,
}

impl<T> RingBuffer<T> {
    /// Slot that holds the item with sequence number `i`.
    pub closed spec fn slot(&self, i: int) -> int {
        i % (self.capacity as int)
    }

    /// Well-formedness: the slot count is a power of two, the counters
    /// are ordered and at most a full buffer apart, and every queued
    /// item occupies its slot.
    pub closed spec fn wf(&self) -> bool {
        &&& self.log2_capacity@ < 64
        &&& pow2(self.log2_capacity@) == self.capacity as nat
        &&& self.buffer@.len() == self.capacity as nat
        &&& self.read_index <= self.write_index
        &&& self.write_index - self.read_index <= self.capacity
        &&& forall|i: int|
            self.read_index <= i < self.write_index ==> (#[trigger] self.buffer@[self.slot(i)]) is Some
    }

    /// Number of items ever pushed; `push` needs it below `u64::MAX`.
    pub closed spec fn pushes(&self) -> nat {
        self.write_index as nat
    }

    /// The queued items, oldest first, and the slot count.
    pub closed spec fn view(&self) -> RingModel<T> {
        RingModel {
            items: Seq::new(
                (self.write_index - self.read_index) as nat,
                |i: int| self.buffer@[self.slot(self.read_index + i)]->0,
            ),
            capacity: self.capacity as nat,
        }
    }

    proof fn lemma_mask(&self, x: u64)
        requires
            self.wf(),
        ensures
            (x & ((self.capacity as u64 - 1) as u64)) as int == self.slot(x as int),
            0 <= self.slot(x as int) < self.capacity,
    {
        let k = self.log2_capacity@;
        lemma_u64_pow2_no_overflow(k);
        lemma_u64_low_bits_mask_is_mod(x, k);
        lemma_pow2_pos(k);
        assert(low_bits_mask(k) == (pow2(k) - 1) as nat);
    }

    /// Create a buffer with `capacity` rounded up to a power of two.
    pub fn new(capacity: usize) -> (rb: Self)
        requires
            capacity <= usize::MAX / 2 + 1,
        ensures
            rb.wf(),
            rb@.items.len() == 0,
            is_next_power_of_two(capacity as nat, rb@.capacity),
            rb.pushes() == 0,
    {
        let capacity = next_power_of_two(capacity);
        let ghost k = choose|k: nat| pow2(k) == capacity as nat;
        proof {
            if k >= 64 {
                vstd::arithmetic::power2::lemma2_to64_rest();
                if k > 64 {
                    lemma_pow2_strictly_increases(64, k);
                }
                assert(false);
            }
        }
        let mut buffer: Vec<Option<T>> = Vec::with_capacity(capacity);
        let mut i: usize = 0;
        while i < capacity
            invariant
                i <= capacity,
                buffer@.len() == i,
            decreases capacity - i,
        {
            buffer.push(None);
            i = i + 1;
        }
        let rb = RingBuffer {
            buffer,
            capacity,
            write_index: 0,
            read_index: 0,
            log2_capacity: Ghost(k),
        };
        assert(rb@.items =~= Seq::<T>::empty());
        rb
    }

    /// Push an event; returns `false` (and changes nothing) when full.
    pub fn push(&mut self, event: T) -> (ok: bool)
        requires
            old(self).wf(),
            old(self).pushes() < u64::MAX,
        ensures
            final(self).wf(),
            (final(self)@, ok) == model_push(old(self)@, event),
            final(self).pushes() == old(self).pushes() + (if ok { 1nat } else { 0nat }),
    {
        let write = self.write_index;
        let read = self.read_index;
        if write - read >= self.capacity as u64 {
            return false;
        }
        proof {
            self.lemma_mask(write);
        }
        let idx = (write & (self.capacity as u64 - 1)) as usize;
        let ghost old_self = *self;
        self.buffer.set(idx, Some(event));
        self.write_index = write + 1;
        proof {
            assert forall|i: int| self.read_index <= i < self.write_index implies (
            #[trigger] self.buffer@[self.slot(i)]) is Some by {
                if i < write {
                    assert(old_self.buffer@[old_self.slot(i)] is Some);
                    if self.slot(i) == idx as int {
                        assert(self.buffer@[self.slot(i)] == Some(event));
                    }
                }
            }
            let m = old_self@;
            assert(self@.items =~= m.items.push(event)) by {
                assert forall|j: int| 0 <= j < self@.items.len() implies self@.items[j] == m.items.push(
                    event,
                )[j] by {
                    if j < m.items.len() {
                        let s = self.slot(read + j);
                        // slot of an older item differs from the written slot
                        lemma_distinct_slots(read + j, write as int, self.capacity as int);
                    }
                }
            }
        }
        true
    }

    /// Pop the oldest event; `None` when empty.
    pub fn pop(&mut self) -> (event: Option<T>)
        requires
            old(self).wf(),
        ensures
            final(self).wf(),
            (final(self)@, event) == model_pop(old(self)@),
            final(self).pushes() == old(self).pushes(),
    {
        let read = self.read_index;
        let write = self.write_index;
        if read == write {
            proof {
                assert(self@.items.len() == 0);
            }
            return None;
        }
        proof {
            self.lemma_mask(read);
        }
        let idx = (read & (self.capacity as u64 - 1)) as usize;
        let ghost old_self = *self;
        let mut slot: Option<T> = None;
        std::mem::swap(&mut slot, &mut self.buffer[idx]);
        self.read_index = read + 1;
        proof {
            self.lemma_pop_preserves(old_self, idx as int);
        }
        slot
    }

    proof fn lemma_pop_preserves(&self, old_self: Self, idx: int)
        requires
            old_self.wf(),
            old_self.read_index < old_self.write_index,
            idx == old_self.slot(old_self.read_index as int),
            self.capacity == old_self.capacity,
            self.log2_capacity == old_self.log2_capacity,
            self.write_index == old_self.write_index,
            self.read_index == old_self.read_index + 1,
            self.buffer@ == old_self.buffer@.update(idx, None),
        ensures
            self.wf(),
            self@ == model_pop(old_self@).0,
    {
        old_self.lemma_mask(old_self.read_index);
        let read = old_self.read_index as int;
        let cap = self.capacity as int;
        assert forall|i: int| self.read_index <= i < self.write_index implies (
        #[trigger] self.buffer@[self.slot(i)]) is Some by {
            assert(old_self.buffer@[old_self.slot(i)] is Some);
            lemma_distinct_slots(read, i, cap);
        }
        let m = old_self@;
        assert forall|j: int| 0 <= j < self@.items.len() implies self@.items[j] == m.items.drop_first()[j] by {
            assert(old_self.buffer@[old_self.slot(read + 1 + j)] is Some);
            lemma_distinct_slots(read, read + 1 + j, cap);
        }
        assert(self@.items =~= m.items.drop_first());
    }

    /// Pop up to `max` events into `buf`, oldest first; returns how many.
    pub fn pop_n(&mut self, buf: &mut Vec<T>, max: usize) -> (count: usize)
        requires
            old(self).wf(),
        ensures
            final(self).wf(),
            count == model_pop_n_count(old(self)@, max as nat),
            final(self)@ == model_pop_n(old(self)@, max as nat).0,
            final(buf)@ == old(buf)@ + model_pop_n(old(self)@, max as nat).1,
            final(self).pushes() == old(self).pushes(),
    {
        let read = self.read_index;
        let write = self.write_index;
        let available = (write - read) as usize;
        let ghost m0 = self@;
        let ghost buf0 = buf@;
        if available == 0 || max == 0 {
            proof {
                assert(m0.items.skip(0) =~= m0.items);
                assert(m0.items.take(0) =~= Seq::<T>::empty());
                assert(buf@ =~= buf0 + Seq::<T>::empty());
            }
            return 0;
        }
        let count = if available < max { available } else { max };
        let mut i: usize = 0;
        while i < count
            invariant
                self.wf(),
                i <= count,
                count <= m0.items.len(),
                m0.items.len() == write - read,
                self.write_index == write,
                self.read_index == read + i,
                self.capacity as nat == m0.capacity,
                self@.items =~= m0.items.skip(i as int),
                buf@ =~= buf0 + m0.items.take(i as int),
            decreases count - i,
        {
            let ghost before = *self;
            let ghost items_before = self@.items;
            proof {
                lemma_pow2_pos(self.log2_capacity@);
                self.lemma_mask((read + i as u64) as u64);
            }
            let idx = ((read + i as u64) & (self.capacity as u64 - 1)) as usize;
            let mut slot: Option<T> = None;
            std::mem::swap(&mut slot, &mut self.buffer[idx]);
            self.read_index = read + i as u64 + 1;
            proof {
                self.lemma_pop_preserves(before, idx as int);
                assert(slot == Some(items_before[0]));
            }
            if let Some(event) = slot {
                buf.push(event);
            }
            proof {
                assert(m0.items.skip(i as int).drop_first() =~= m0.items.skip(i + 1));
                assert(m0.items.take(i + 1) =~= m0.items.take(i as int).push(m0.items[i as int]));
            }
            i = i + 1;
        }
        count
    }

    /// Number of queued events.
    pub fn len(&self) -> (n: usize)
        requires
            self.wf(),
        ensures
            n == self@.items.len(),
    {
        (self.write_index - self.read_index) as usize
    }

    /// Whether no event is queued.
    pub fn is_empty(&self) -> (b: bool)
        requires
            self.wf(),
        ensures
            b == (self@.items.len() == 0),
    {
        self.len() == 0
    }

    /// Number of items ever pushed.
    pub fn total_pushed(&self) -> (n: u64)
        ensures
            n == self.pushes(),
    {
        self.write_index
    }

    /// Number of slots (a power of two).
    pub fn capacity(&self) -> (c: usize)
        requires
            self.wf(),
        ensures
            c == self@.capacity,
    {
        self.capacity
    }
}

/// A well-formed buffer never holds more items than it has slots.
pub proof fn law_len_within_capacity<T>(rb: &RingBuffer<T>)
    requires
        rb.wf(),
    ensures
        rb@.items.len() <= rb@.capacity,
{
}

/// Items leave in the order they arrived: pushing `x` onto a buffer with
/// room and then draining it yields the previous contents followed by `x`.
pub proof fn law_fifo<T>(m: RingModel<T>, x: T, max: nat)
    requires
        m.items.len() < m.capacity,
        max >= m.items.len() + 1,
    ensures
        model_push(m, x).1,
        model_pop_n(model_push(m, x).0, max).1 == m.items.push(x),
        model_pop_n(model_push(m, x).0, max).0.items.len() == 0,
{
    let m1 = model_push(m, x).0;
    assert(m1.items.take(m1.items.len() as int) =~= m1.items);
}

/// A full buffer refuses an item and stays unchanged.
pub proof fn law_full_refuses<T>(m: RingModel<T>, x: T)
    requires
        m.items.len() >= m.capacity,
    ensures
        model_push(m, x) == (m, false),
{
}

/// Popping `n` items at once equals popping one item, then `n - 1` more.
pub proof fn law_pop_n_is_repeated_pop<T>(m: RingModel<T>, n: nat)
    requires
        n >= 1,
        m.items.len() >= 1,
    ensures
        model_pop_n(m, n).1 == seq![model_pop(m).1->0] + model_pop_n(model_pop(m).0, (n - 1) as nat).1,
        model_pop_n(m, n).0 == model_pop_n(model_pop(m).0, (n - 1) as nat).0,
{
    let m1 = model_pop(m).0;
    let c = model_pop_n_count(m, n);
    assert(model_pop_n_count(m1, (n - 1) as nat) == c - 1);
    assert(m.items.take(c as int) =~= seq![m.items[0]] + m1.items.take(c - 1));
    assert(m.items.skip(c as int) =~= m1.items.skip(c - 1));
}

/// On every well-formed buffer, a push is refused exactly when the buffer
/// is full; a refused push changes nothing, and an accepted one appends
/// the item behind every item already queued, so it leaves after them.
pub proof fn law_push_outcome<T>(rb: &RingBuffer<T>, x: T)
    requires
        rb.wf(),
    ensures
        model_push(rb@, x).1 <==> rb@.items.len() != rb@.capacity,
        !model_push(rb@, x).1 ==> model_push(rb@, x).0 == rb@,
        model_push(rb@, x).1 ==> model_push(rb@, x).0.items == rb@.items.push(x)
            && model_push(rb@, x).0.capacity == rb@.capacity
            && model_push(rb@, x).0.items.len() == rb@.items.len() + 1,
{
}

} // verus!
