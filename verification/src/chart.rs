//! Chart bookkeeping that does not depend on coordinates: indicator
//! lines as line-list vertex pairs broken at gaps, the zoom history, the
//! overlay list and GPU buffer growth.
use crate::json::str_eq;
use crate::ring_buffer::{is_next_power_of_two, is_power_of_two};
use crate::text::to_owned_string;
use vstd::arithmetic::power2::pow2;
use vstd::prelude::*;

verus! {

/// Line-list vertices of one connected segment: consecutive points as
/// pairs `(p0,p1), (p1,p2), ...`; nothing for fewer than two points.
pub open spec fn line_pairs<T>(seg: Seq<T>) -> Seq<T> {
    if seg.len() < 2 {
        Seq::empty()
    } else {
        Seq::new((2 * (seg.len() - 1)) as nat, |k: int| seg[k / 2 + k % 2])
    }
}

/// Line-list vertices of a series with gaps (`None`): each maximal run
/// of points between gaps becomes its own segment.
pub open spec fn gap_lines<T>(points: Seq<Option<T>>, seg: Seq<T>) -> Seq<T>
    decreases points.len(),
{
    if points.len() == 0 {
        line_pairs(seg)
    } else {
        match points[0] {
            None => line_pairs(seg) + gap_lines(points.drop_first(), Seq::empty()),
            Some(p) => gap_lines(points.drop_first(), seg.push(p)),
        }
    }
}

/// Append the line-list pairs of one connected segment to `out`.
pub fn flush_line_segment<T: Copy>(out: &mut Vec<T>, segment: &[T])
    ensures
        final(out)@ == old(out)@ + line_pairs(segment@),
{
    let n = segment.len();
    if n < 2 {
        proof {
            assert(out@ =~= old(out)@ + line_pairs(segment@));
        }
        return ;
    }
    let ghost start = out@;
    let mut i: usize = 0;
    while i < n - 1
        invariant
            n == segment@.len(),
            n >= 2,
            i <= n - 1,
            out@ =~= start + line_pairs(segment@).take(2 * i),
        decreases n - 1 - i,
    {
        out.push(segment[i]);
        out.push(segment[i + 1]);
        proof {
            let lp = line_pairs(segment@);
            assert(lp[2 * i as int] == segment@[i as int]);
            assert(lp[2 * i + 1] == segment@[i + 1]);
            assert(lp.take(2 * i + 2) =~= lp.take(2 * i as int).push(segment@[i as int]).push(
                segment@[i + 1],
            ));
        }
        i = i + 1;
    }
    proof {
        assert(line_pairs(segment@).take(2 * (n - 1)) =~= line_pairs(segment@));
    }
}

/// Line-list vertices of a series whose gaps are `None`.
pub fn line_list<T: Copy>(points: &[Option<T>]) -> (out: Vec<T>)
    ensures
        out@ == gap_lines(points@, Seq::empty()),
{
    let mut out: Vec<T> = Vec::new();
    let mut segment: Vec<T> = Vec::new();
    let n = points.len();
    let mut i: usize = 0;
    proof {
        assert(points@.skip(0) =~= points@);
        assert(out@ + gap_lines(points@.skip(0), segment@) =~= gap_lines(points@, Seq::empty()));
    }
    while i < n
        invariant
            n == points@.len(),
            i <= n,
            out@ + gap_lines(points@.skip(i as int), segment@) == gap_lines(points@, Seq::empty()),
        decreases n - i,
    {
        let ghost rest = points@.skip(i as int);
        let ghost seg0 = segment@;
        let ghost out0 = out@;
        proof {
            assert(rest.drop_first() =~= points@.skip(i + 1));
            assert(rest[0] == points@[i as int]);
        }
        match points[i] {
            None => {
                flush_line_segment(&mut out, segment.as_slice());
                segment.clear();
                proof {
                    assert(gap_lines(rest, seg0) == line_pairs(seg0) + gap_lines(rest.drop_first(), Seq::<T>::empty()));
                    assert(out@ + gap_lines(points@.skip(i + 1), segment@) =~= out0 + gap_lines(rest, seg0));
                }
            },
            Some(p) => {
                segment.push(p);
                proof {
                    assert(gap_lines(rest, seg0) == gap_lines(rest.drop_first(), seg0.push(p)));
                }
            },
        }
        i = i + 1;
    }
    proof {
        assert(points@.skip(n as int) =~= Seq::<Option<T>>::empty());
    }
    let ghost out0 = out@;
    flush_line_segment(&mut out, segment.as_slice());
    proof {
        assert(out@ =~= out0 + gap_lines(points@.skip(n as int), segment@));
    }
    out
}

/// Default depth of the zoom history.
pub const DEFAULT_MAX_ZOOM_STACK: usize = 32;

/// Undo history of chart views: zooms are recorded while there is room,
/// view resets always.
pub struct ViewHistory<V> {
    stack: Vec<V>,
    max_depth: usize,
}

impl<V> ViewHistory<V> {
    /// Recorded views, oldest first.
    pub closed spec fn views(&self) -> Seq<V> {
        self.stack@
    }

    /// Depth up to which zooms are recorded.
    pub closed spec fn depth_limit(&self) -> nat {
        self.max_depth as nat
    }

    /// An empty history recording up to `max_depth` zooms.
    pub fn new(max_depth: usize) -> (h: Self)
        ensures
            h.views() == Seq::<V>::empty(),
            h.depth_limit() == max_depth,
    {
        ViewHistory { stack: Vec::new(), max_depth }
    }

    /// Number of recorded views.
    pub fn len(&self) -> (n: usize)
        ensures
            n == self.views().len(),
    {
        self.stack.len()
    }

    /// Record the view before a zoom, unless the history is full.
    pub fn record_zoom(&mut self, view: V)
        ensures
            final(self).depth_limit() == old(self).depth_limit(),
            final(self).views() == (if old(self).views().len() < old(self).depth_limit() {
                old(self).views().push(view)
            } else {
                old(self).views()
            }),
    {
        if self.stack.len() < self.max_depth {
            self.stack.push(view);
        }
    }

    /// Record the view before a reset, whatever the depth.
    pub fn record_reset(&mut self, view: V)
        ensures
            final(self).depth_limit() == old(self).depth_limit(),
            final(self).views() == old(self).views().push(view),
    {
        self.stack.push(view);
    }

    /// Take back the most recent view, if any.
    pub fn undo(&mut self) -> (v: Option<V>)
        ensures
            final(self).depth_limit() == old(self).depth_limit(),
            old(self).views().len() == 0 ==> v is None && final(self).views() == old(self).views(),
            old(self).views().len() > 0 ==> v == Some(old(self).views().last()) && final(self).views()
                == old(self).views().drop_last(),
    {
        self.stack.pop()
    }

    /// Forget every recorded view.
    pub fn clear(&mut self)
        ensures
            final(self).depth_limit() == old(self).depth_limit(),
            final(self).views() == Seq::<V>::empty(),
    {
        self.stack.clear();
    }
}

/// Undoing right after a recorded zoom gives back the recorded view and
/// the history as it was.
pub proof fn law_undo_after_zoom<V>(views: Seq<V>, v: V, limit: nat)
    requires
        views.len() < limit,
    ensures
        views.push(v).last() == v,
        views.push(v).drop_last() == views,
{
    assert(views.push(v).drop_last() =~= views);
}

// ── Overlays ────────────────────────────────────────────────────────────

/// Position of the first name equal to `name`, if any.
pub open spec fn first_named(names: Seq<Seq<char>>, name: Seq<char>) -> Option<nat>
    decreases names.len(),
{
    if names.len() == 0 {
        None
    } else if names[0] == name {
        Some(0)
    } else {
        match first_named(names.drop_first(), name) {
            Some(k) => Some(k + 1),
            None => None,
        }
    }
}

proof fn lemma_first_named_bounds(names: Seq<Seq<char>>, name: Seq<char>)
    ensures
        first_named(names, name) matches Some(k) ==> k < names.len() && names[k as int] == name
            && forall|i: int| 0 <= i < k ==> names[i] != name,
        first_named(names, name) is None ==> forall|i: int| 0 <= i < names.len() ==> names[i] != name,
    decreases names.len(),
{
    if names.len() > 0 {
        lemma_first_named_bounds(names.drop_first(), name);
        assert forall|i: int| 0 < i < names.len() implies names[i] == names.drop_first()[i - 1] by {}
    }
}

/// Named chart overlays, drawn in the order they were added.
pub struct OverlayManager<T> {
    names: Vec<String>,
    items: Vec<T>,
}

impl<T> OverlayManager<T> {
    pub closed spec fn wf(&self) -> bool {
        self.names@.len() == self.items@.len()
    }

    /// The overlay names, in order.
    pub closed spec fn name_seq(&self) -> Seq<Seq<char>> {
        self.names@.map_values(|s: String| s@)
    }

    /// The overlays, in order.
    pub closed spec fn item_seq(&self) -> Seq<T> {
        self.items@
    }

    /// No overlays.
    pub fn new() -> (m: Self)
        ensures
            m.wf(),
            m.name_seq() == Seq::<Seq<char>>::empty(),
            m.item_seq() == Seq::<T>::empty(),
    {
        let m = OverlayManager { names: Vec::new(), items: Vec::new() };
        proof {
            assert(m.name_seq() =~= Seq::<Seq<char>>::empty());
        }
        m
    }

    /// Add an overlay on top of the others.
    pub fn add(&mut self, name: &str, item: T)
        requires
            old(self).wf(),
        ensures
            final(self).wf(),
            final(self).name_seq() == old(self).name_seq().push(name@),
            final(self).item_seq() == old(self).item_seq().push(item),
    {
        self.names.push(to_owned_string(name));
        self.items.push(item);
        proof {
            assert(self.name_seq() =~= old(self).name_seq().push(name@));
        }
    }

    /// Remove the first overlay with this name; whether there was one.
    pub fn remove(&mut self, name: &str) -> (removed: bool)
        requires
            old(self).wf(),
        ensures
            final(self).wf(),
            match first_named(old(self).name_seq(), name@) {
                Some(k) => removed && final(self).name_seq() == old(self).name_seq().remove(k as int)
                    && final(self).item_seq() == old(self).item_seq().remove(k as int),
                None => !removed && final(self).name_seq() == old(self).name_seq()
                    && final(self).item_seq() == old(self).item_seq(),
            },
    {
        proof {
            lemma_first_named_bounds(self.name_seq(), name@);
        }
        let n = self.names.len();
        let mut i: usize = 0;
        while i < n
            invariant
                n == self.names@.len(),
                n == self.items@.len(),
                self.names@ == old(self).names@,
                self.items@ == old(self).items@,
                i <= n,
                forall|j: int| 0 <= j < i ==> self.name_seq()[j] != name@,
            decreases n - i,
        {
            if str_eq(self.names[i].as_str(), name) {
                proof {
                    lemma_first_named_bounds(old(self).name_seq(), name@);
                    assert(self.name_seq()[i as int] == name@);
                    match first_named(self.name_seq(), name@) {
                        Some(k) => {
                            assert(k == i);
                        },
                        None => {},
                    }
                }
                let _ = self.names.remove(i);
                let _ = self.items.remove(i);
                proof {
                    assert(self.name_seq() =~= old(self).name_seq().remove(i as int));
                }
                return true;
            }
            proof {
                assert(self.name_seq()[i as int] == self.names@[i as int]@);
            }
            i = i + 1;
        }
        proof {
            lemma_first_named_bounds(old(self).name_seq(), name@);
            if first_named(old(self).name_seq(), name@) is Some {
                let k = first_named(old(self).name_seq(), name@).unwrap();
                assert(self.name_seq() =~= old(self).name_seq());
                assert(self.name_seq()[k as int] == name@);
            }
        }
        false
    }

    /// Number of overlays.
    pub fn len(&self) -> (n: usize)
        requires
            self.wf(),
        ensures
            n == self.item_seq().len(),
    {
        self.items.len()
    }

    /// Whether there are no overlays.
    pub fn is_empty(&self) -> (b: bool)
        requires
            self.wf(),
        ensures
            b == (self.item_seq().len() == 0),
    {
        self.items.len() == 0
    }

    /// The overlay names, in order.
    pub fn names(&self) -> (v: Vec<String>)
        ensures
            v@.map_values(|s: String| s@) == self.name_seq(),
    {
        let mut v: Vec<String> = Vec::new();
        let n = self.names.len();
        let mut i: usize = 0;
        while i < n
            invariant
                n == self.names@.len(),
                i <= n,
                v@.len() == i,
                forall|j: int| 0 <= j < i ==> (#[trigger] v@[j])@ == self.names@[j]@,
            decreases n - i,
        {
            v.push(to_owned_string(self.names[i].as_str()));
            i = i + 1;
        }
        proof {
            assert(v@.map_values(|s: String| s@) =~= self.name_seq());
        }
        v
    }

    /// The overlay at position `i`, to update it in place.
    pub fn item_mut(&mut self, i: usize) -> (r: &mut T)
        requires
            old(self).wf(),
            i < old(self).item_seq().len(),
        ensures
            *r == old(self).item_seq()[i as int],
            final(self).wf(),
            final(self).name_seq() == old(self).name_seq(),
            final(self).item_seq() == old(self).item_seq().update(i as int, *final(r)),
    {
        &mut self.items[i]
    }
}

// ── GPU buffer growth ───────────────────────────────────────────────────

/// Smallest power of two greater than or equal to `n`, as
/// `u64::next_power_of_two` computes it.
pub fn next_power_of_two_u64(n: u64) -> (r: u64)
    requires
        n <= 0x8000_0000_0000_0000,
    ensures
        is_next_power_of_two(n as nat, r as nat),
{
    let mut p: u64 = 1;
    let ghost mut k: nat = 0;
    proof {
        vstd::arithmetic::power2::lemma2_to64();
    }
    while p < n
        invariant
            n <= 0x8000_0000_0000_0000,
            pow2(k) == p,
            1 <= p,
            p == 1 || p < 2 * n,
        decreases 2 * n - p,
    {
        proof {
            vstd::arithmetic::power2::lemma_pow2_unfold(k + 1);
        }
        p = p * 2;
        proof {
            k = k + 1;
        }
    }
    proof {
        assert(is_power_of_two(p as nat)) by {
            assert(pow2(k) == p);
        }
    }
    p
}

/// New size for a buffer of `current` bytes that must hold `required`:
/// none when it is large enough, else `required` rounded up to a power
/// of two.
pub fn grown_buffer_size(current: u64, required: u64) -> (r: Option<u64>)
    requires
        required <= 0x8000_0000_0000_0000,
    ensures
        current >= required ==> r is None,
        current < required ==> (r matches Some(s) && is_next_power_of_two(required as nat, s as nat)),
{
    if current >= required {
        None
    } else {
        Some(next_power_of_two_u64(required))
    }
}

} // verus!
