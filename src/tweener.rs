//! Per-property interpolation: a current value and a FIFO queue of segments.
use vstd::prelude::*;
use crate::time::{ease, ease_spec, lerp, lerp_spec, Tween};

verus! {

/// One queued move: reach `target` following `tween`.
#[derive(Debug, Clone, Copy, PartialEq, Eq, Structural)]
pub struct Segment {
    pub target: i32,
    pub tween: Tween,
}

/// The mathematical state of a tweener.
pub struct TweenerView {
    pub value: int,
    /// Value the head segment interpolates from.
    pub start: int,
    /// Ticks already spent in the head segment.
    pub elapsed: nat,
    pub queue: Seq<Segment>,
}

/// Interpolates one scalar property through a queue of segments.
///
/// The head of the queue is the active segment; `start` is where it began and
/// `elapsed` how far it has run.
#[derive(Debug)]
pub struct Tweener {
    value: i32,
    start: i32,
    elapsed: u32,
    queue: Vec<Segment>,
}

impl View for Tweener {
    type V = TweenerView;

    closed spec fn view(&self) -> TweenerView {
        TweenerView {
            value: self.value as int,
            start: self.start as int,
            elapsed: self.elapsed as nat,
            queue: self.queue@,
        }
    }
}

/// An idle tweener has no elapsed time and starts from its value; a busy one
/// has time left in its head segment.
pub open spec fn view_wf(v: TweenerView) -> bool {
    &&& v.queue.len() == 0 ==> v.elapsed == 0 && v.start == v.value
    &&& v.queue.len() > 0 ==> v.elapsed < v.queue[0].tween.duration
}

/// Ticks left before the whole queue has played out.
pub open spec fn remaining_ticks(v: TweenerView) -> nat {
    if v.queue.len() == 0 {
        0
    } else {
        (v.queue[0].tween.duration - v.elapsed + durations(v.queue.drop_first())) as nat
    }
}

/// Sum of the durations of a sequence of segments.
pub open spec fn durations(q: Seq<Segment>) -> nat
    decreases q.len(),
{
    if q.len() == 0 {
        0
    } else {
        q[0].tween.duration as nat + durations(q.drop_first())
    }
}

/// The value the tweener ends at once its queue has played out.
pub open spec fn final_value(v: TweenerView) -> int {
    if v.queue.len() == 0 {
        v.value
    } else {
        v.queue.last().target as int
    }
}

/// The state after finishing the head segment.
pub open spec fn complete_head(v: TweenerView) -> TweenerView
    recommends
        v.queue.len() > 0,
{
    TweenerView {
        value: v.queue[0].target as int,
        start: v.queue[0].target as int,
        elapsed: 0,
        queue: v.queue.drop_first(),
    }
}

/// Plays head segments that have no time left, without consuming time.
pub open spec fn settle_spec(v: TweenerView) -> TweenerView
    decreases v.queue.len(),
{
    if v.queue.len() > 0 && v.elapsed >= v.queue[0].tween.duration {
        settle_spec(complete_head(v))
    } else {
        v
    }
}

/// The state after `delta` ticks: whole segments finish exactly at their
/// target and the leftover time flows into the next one.
pub open spec fn advance_spec(v: TweenerView, delta: nat) -> TweenerView
    decreases v.queue.len(),
{
    if v.queue.len() == 0 {
        v
    } else {
        let head = v.queue[0];
        let rem = head.tween.duration - v.elapsed;
        if delta >= rem {
            advance_spec(complete_head(v), (delta - rem) as nat)
        } else if delta == 0 {
            v
        } else {
            let elapsed = v.elapsed + delta;
            TweenerView {
                value: lerp_spec(
                    v.start,
                    head.target as int,
                    ease_spec(head.tween.easing, elapsed, head.tween.duration as nat),
                ),
                elapsed: elapsed,
                ..v
            }
        }
    }
}

/// The state after appending `seg` to the queue.
pub open spec fn enqueue_spec(v: TweenerView, seg: Segment) -> TweenerView {
    settle_spec(TweenerView { queue: v.queue.push(seg), ..v })
}

/// The state after dropping the queue and jumping to its last target.
pub open spec fn fast_forward_spec(v: TweenerView) -> TweenerView {
    if v.queue.len() == 0 {
        v
    } else {
        let last = v.queue.last().target as int;
        TweenerView { value: last, start: last, elapsed: 0, queue: Seq::empty() }
    }
}

/// The state after setting the value to `x` and keeping the queue.
pub open spec fn fast_forward_to_spec(v: TweenerView, x: int) -> TweenerView {
    TweenerView { value: x, start: x, ..v }
}

pub proof fn lemma_settle_keeps_final_value(v: TweenerView)
    requires
        v.queue.len() > 0,
    ensures
        final_value(settle_spec(v)) == final_value(v),
    decreases v.queue.len(),
{
    if v.queue.len() > 0 && v.elapsed >= v.queue[0].tween.duration {
        let w = complete_head(v);
        if w.queue.len() > 0 {
            assert(w.queue.last() == v.queue.last());
            lemma_settle_keeps_final_value(w);
        } else {
            assert(settle_spec(w) == w);
        }
    }
}

/// Queued segments play in arrival order: after enqueuing `a` and then `b`,
/// the tweener heads for `b`'s target, so fast-forwarding lands exactly there.
pub proof fn law_enqueue_order(v: TweenerView, a: Segment, b: Segment)
    ensures
        final_value(enqueue_spec(enqueue_spec(v, a), b)) == b.target,
{
    let v1 = enqueue_spec(v, a);
    let w = TweenerView { queue: v1.queue.push(b), ..v1 };
    lemma_settle_keeps_final_value(w);
}

/// Advancing by at least the ticks left in the queue pins the value at the
/// last queued target with an empty queue; advancing further changes nothing.
pub proof fn law_advance_saturates(v: TweenerView, delta: nat)
    requires
        v.queue.len() > 0 ==> v.elapsed <= v.queue[0].tween.duration,
        delta >= remaining_ticks(v),
    ensures
        advance_spec(v, delta).queue.len() == 0,
        advance_spec(v, delta).value == final_value(v),
        forall|d: nat| advance_spec(advance_spec(v, delta), d) == advance_spec(v, delta),
    decreases v.queue.len(),
{
    if v.queue.len() > 0 {
        let w = complete_head(v);
        let rem = (v.queue[0].tween.duration - v.elapsed) as nat;
        assert(w.queue == v.queue.drop_first());
        if w.queue.len() > 0 {
            assert(w.queue.drop_first() == v.queue.drop_first().drop_first());
            assert(w.queue.last() == v.queue.last());
        }
        law_advance_saturates(w, (delta - rem) as nat);
    }
}

/// After `fast_forward_to(x)` the queue is untouched and the head segment
/// interpolates from `x` toward its target; once the queue has played out the
/// value is the same final target as before.
pub proof fn law_fast_forward_to_keeps_queue(v: TweenerView, x: int, delta: nat)
    requires
        view_wf(v),
    ensures
        fast_forward_to_spec(v, x).value == x,
        fast_forward_to_spec(v, x).queue == v.queue,
        v.queue.len() > 0 ==> final_value(fast_forward_to_spec(v, x)) == final_value(v),
        v.queue.len() > 0 && 0 < delta < v.queue[0].tween.duration - v.elapsed ==> advance_spec(
            fast_forward_to_spec(v, x),
            delta,
        ).value == lerp_spec(
            x,
            v.queue[0].target as int,
            ease_spec(
                v.queue[0].tween.easing,
                v.elapsed + delta,
                v.queue[0].tween.duration as nat,
            ),
        ),
        v.queue.len() > 0 && delta >= remaining_ticks(v) ==> advance_spec(
            fast_forward_to_spec(v, x),
            delta,
        ).value
            == final_value(v),
{
    let w = fast_forward_to_spec(v, x);
    if delta >= remaining_ticks(v) {
        law_advance_saturates(w, delta);
    }
}

/// Settling a state whose head has not overrun leaves it well formed.
pub proof fn lemma_settle_wf(v: TweenerView)
    requires
        v.queue.len() > 0 ==> v.elapsed <= v.queue[0].tween.duration,
        v.queue.len() == 0 ==> v.elapsed == 0 && v.start == v.value,
    ensures
        view_wf(settle_spec(v)),
    decreases v.queue.len(),
{
    if v.queue.len() > 0 && v.elapsed >= v.queue[0].tween.duration {
        lemma_settle_wf(complete_head(v));
    }
}

/// Enqueuing keeps a tweener well formed; behind a running segment it only
/// appends.
pub proof fn lemma_enqueue_wf(v: TweenerView, seg: Segment)
    requires
        view_wf(v),
    ensures
        view_wf(enqueue_spec(v, seg)),
        v.queue.len() > 0 ==> enqueue_spec(v, seg) == (TweenerView {
            queue: v.queue.push(seg),
            ..v
        }),
        v.queue.len() == 0 && seg.tween.duration > 0 ==> enqueue_spec(v, seg) == (TweenerView {
            queue: seq![seg],
            ..v
        }),
{
    let w = TweenerView { queue: v.queue.push(seg), ..v };
    assert(w.queue[0] == if v.queue.len() > 0 {
        v.queue[0]
    } else {
        seg
    });
    lemma_settle_wf(w);
    if v.queue.len() == 0 {
        assert(w.queue =~= seq![seg]);
    }
}

impl Tweener {
    pub closed spec fn wf(&self) -> bool {
        view_wf(self@)
    }

    /// An idle tweener resting at `value`.
    pub fn new(value: i32) -> (r: Tweener)
        ensures
            r.wf(),
            r@ == (TweenerView {
                value: value as int,
                start: value as int,
                elapsed: 0,
                queue: Seq::empty(),
            }),
    {
        let r = Tweener { value, start: value, elapsed: 0, queue: Vec::new() };
        assert(r@.queue == Seq::<Segment>::empty());
        r
    }

    /// The current value.
    pub fn value(&self) -> (r: i32)
        ensures
            r == self@.value,
    {
        self.value
    }

    /// Whether no segment is pending.
    pub fn is_idle(&self) -> (r: bool)
        ensures
            r == (self@.queue.len() == 0),
    {
        self.queue.len() == 0
    }

    /// The value the tweener will end at.
    pub fn target_value(&self) -> (r: i32)
        ensures
            r == final_value(self@),
    {
        if self.queue.len() == 0 {
            self.value
        } else {
            self.queue[self.queue.len() - 1].target
        }
    }

    /// The pending segments, head first.
    pub fn queued(&self) -> (r: Vec<Segment>)
        ensures
            r@ == self@.queue,
    {
        self.queue.clone()
    }

    fn finish_head(&mut self)
        requires
            old(self)@.queue.len() > 0,
        ensures
            final(self)@ == complete_head(old(self)@),
    {
        let head = self.queue.remove(0);
        self.value = head.target;
        self.start = head.target;
        self.elapsed = 0;
    }

    /// Plays head segments of zero remaining length.
    fn settle(&mut self)
        requires
            old(self)@.queue.len() > 0 ==> old(self)@.elapsed <= old(self)@.queue[0].tween.duration,
            old(self)@.queue.len() == 0 ==> old(self)@.elapsed == 0 && old(self)@.start
                == old(self)@.value,
        ensures
            final(self)@ == settle_spec(old(self)@),
            final(self).wf(),
    {
        while self.queue.len() > 0 && self.elapsed >= self.queue[0].tween.duration
            invariant
                settle_spec(self@) == settle_spec(old(self)@),
                self@.queue.len() > 0 ==> self@.elapsed <= self@.queue[0].tween.duration,
                self@.queue.len() == 0 ==> self@.elapsed == 0 && self@.start == self@.value,
            decreases self.queue.len(),
        {
            self.finish_head();
        }
    }

    /// Appends a segment to the tail of the queue. A zero-length segment that
    /// reaches the head of the queue is applied at once.
    pub fn enqueue(&mut self, target: i32, tween: Tween)
        requires
            old(self).wf(),
        ensures
            final(self).wf(),
            final(self)@ == enqueue_spec(old(self)@, Segment { target, tween }),
    {
        self.queue.push(Segment { target, tween });
        self.settle();
    }

    /// Moves time forward by `delta` ticks.
    pub fn advance(&mut self, delta: u32)
        requires
            old(self).wf(),
        ensures
            final(self).wf(),
            final(self)@ == advance_spec(old(self)@, delta as nat),
    {
        let mut left = delta;
        while self.queue.len() > 0
            invariant
                self@.queue.len() > 0 ==> self@.elapsed <= self@.queue[0].tween.duration,
                self@.queue.len() == 0 ==> self@.elapsed == 0 && self@.start == self@.value,
                advance_spec(self@, left as nat) == advance_spec(old(self)@, delta as nat),
            decreases self.queue.len(),
        {
            let head = self.queue[0];
            let rem = head.tween.duration - self.elapsed;
            if left >= rem {
                left = left - rem;
                self.finish_head();
            } else {
                if left > 0 {
                    let elapsed = self.elapsed + left;
                    let p = ease(head.tween.easing, elapsed, head.tween.duration);
                    self.value = lerp(self.start, head.target, p);
                    self.elapsed = elapsed;
                }
                return;
            }
        }
    }

    /// Drops every queued segment and jumps to the last queued target.
    pub fn fast_forward(&mut self)
        requires
            old(self).wf(),
        ensures
            final(self).wf(),
            final(self)@ == fast_forward_spec(old(self)@),
            final(self)@.value == final_value(old(self)@),
            final(self)@.queue.len() == 0,
    {
        if self.queue.len() > 0 {
            let last = self.queue[self.queue.len() - 1].target;
            self.value = last;
            self.start = last;
            self.elapsed = 0;
            self.queue = Vec::new();
            assert(self@.queue == Seq::<Segment>::empty());
        }
    }

    /// Sets the current value without touching the queue; the head segment,
    /// with its remaining time, then interpolates from `value`.
    pub fn fast_forward_to(&mut self, value: i32)
        requires
            old(self).wf(),
        ensures
            final(self).wf(),
            final(self)@ == fast_forward_to_spec(old(self)@, value as int),
    {
        self.value = value;
        self.start = value;
    }
}

} // verus!
