//! Presentation state: the tweeners behind every layer property and sound
//! slot, and the paced-text cursor. It is never saved; a load rebuilds it.
use vstd::prelude::*;
use crate::state::{CommittedState, CommittedView, LAYERS_COUNT, PROPERTY_COUNT, SE_SLOTS};
use crate::tweener::{Tweener, advance_spec};

verus! {

/// Presentation state of a live run.
#[derive(Debug)]
pub struct LiveState {
    /// Tweener of property `p` of layer `l` at `l * PROPERTY_COUNT + p`.
    pub layer_tweeners: Vec<Tweener>,
    pub se_volume: Vec<Tweener>,
    pub se_pan: Vec<Tweener>,
    /// Characters of the current message shown so far.
    pub text_shown: u32,
}

pub open spec fn tweeners_wf(ts: Seq<Tweener>) -> bool {
    forall|i: int| 0 <= i < ts.len() ==> (#[trigger] ts[i]).wf()
}

/// The volume a slot's tweener rests at when rebuilt from the saved state.
pub open spec fn seeded_volume(c: CommittedView, i: int) -> int {
    match c.se[i] {
        Some(s) => s.volume.0 as int,
        None => 0,
    }
}

/// The pan a slot's tweener rests at when rebuilt from the saved state.
pub open spec fn seeded_pan(c: CommittedView, i: int) -> int {
    match c.se[i] {
        Some(s) => s.pan.0 as int,
        None => 0,
    }
}

impl LiveState {
    pub open spec fn wf(&self) -> bool {
        &&& self.layer_tweeners@.len() == LAYERS_COUNT * PROPERTY_COUNT
        &&& self.se_volume@.len() == SE_SLOTS
        &&& self.se_pan@.len() == SE_SLOTS
        &&& tweeners_wf(self.layer_tweeners@)
        &&& tweeners_wf(self.se_volume@)
        &&& tweeners_wf(self.se_pan@)
    }

    /// Rebuilds presentation state from a loaded state: every tweener rests
    /// at the saved value with nothing queued.
    pub fn from_committed(c: &CommittedState) -> (r: LiveState)
        requires
            c.wf(),
        ensures
            r.wf(),
            r.text_shown == 0,
            forall|i: int|
                0 <= i < LAYERS_COUNT * PROPERTY_COUNT ==> (#[trigger] r.layer_tweeners@[i])@.value
                    == c@.properties[i] && r.layer_tweeners@[i]@.queue.len() == 0,
            forall|i: int|
                0 <= i < SE_SLOTS ==> (#[trigger] r.se_volume@[i])@.value == seeded_volume(c@, i)
                    && r.se_volume@[i]@.queue.len() == 0,
            forall|i: int|
                0 <= i < SE_SLOTS ==> (#[trigger] r.se_pan@[i])@.value == seeded_pan(c@, i)
                    && r.se_pan@[i]@.queue.len() == 0,
    {
        let n = (LAYERS_COUNT * PROPERTY_COUNT) as usize;
        let mut layer_tweeners: Vec<Tweener> = Vec::new();
        let mut i: usize = 0;
        while i < n
            invariant
                c.wf(),
                n == LAYERS_COUNT * PROPERTY_COUNT,
                i <= n,
                layer_tweeners@.len() == i,
                tweeners_wf(layer_tweeners@),
                forall|j: int|
                    0 <= j < i ==> (#[trigger] layer_tweeners@[j])@.value == c@.properties[j]
                        && layer_tweeners@[j]@.queue.len() == 0,
            decreases n - i,
        {
            layer_tweeners.push(Tweener::new(c.properties[i]));
            i = i + 1;
        }
        let mut se_volume: Vec<Tweener> = Vec::new();
        let mut se_pan: Vec<Tweener> = Vec::new();
        let mut k: usize = 0;
        while k < SE_SLOTS as usize
            invariant
                c.wf(),
                k <= SE_SLOTS,
                se_volume@.len() == k,
                se_pan@.len() == k,
                tweeners_wf(se_volume@),
                tweeners_wf(se_pan@),
                forall|j: int|
                    0 <= j < k ==> (#[trigger] se_volume@[j])@.value == seeded_volume(c@, j)
                        && se_volume@[j]@.queue.len() == 0,
                forall|j: int|
                    0 <= j < k ==> (#[trigger] se_pan@[j])@.value == seeded_pan(c@, j)
                        && se_pan@[j]@.queue.len() == 0,
            decreases SE_SLOTS - k,
        {
            let (volume, pan): (i32, i32) = match c.se[k] {
                Some(s) => (s.volume.0, s.pan.0),
                None => (0, 0),
            };
            se_volume.push(Tweener::new(volume));
            se_pan.push(Tweener::new(pan));
            k = k + 1;
        }
        LiveState { layer_tweeners, se_volume, se_pan, text_shown: 0 }
    }

    /// Moves every tweener forward by `delta` ticks.
    pub fn advance(&mut self, delta: u32)
        requires
            old(self).wf(),
        ensures
            final(self).wf(),
            final(self).text_shown == old(self).text_shown,
            final(self).layer_tweeners@.len() == old(self).layer_tweeners@.len(),
            forall|i: int|
                0 <= i < old(self).layer_tweeners@.len() ==> (
                #[trigger] final(self).layer_tweeners@[i])@ == advance_spec(
                    old(self).layer_tweeners@[i]@,
                    delta as nat,
                ),
            forall|i: int|
                0 <= i < SE_SLOTS ==> (#[trigger] final(self).se_volume@[i])@ == advance_spec(
                    old(self).se_volume@[i]@,
                    delta as nat,
                ),
            forall|i: int|
                0 <= i < SE_SLOTS ==> (#[trigger] final(self).se_pan@[i])@ == advance_spec(
                    old(self).se_pan@[i]@,
                    delta as nat,
                ),
    {
        advance_all(&mut self.layer_tweeners, delta);
        advance_all(&mut self.se_volume, delta);
        advance_all(&mut self.se_pan, delta);
    }
}

fn advance_all(ts: &mut Vec<Tweener>, delta: u32)
    requires
        tweeners_wf(old(ts)@),
    ensures
        tweeners_wf(final(ts)@),
        final(ts)@.len() == old(ts)@.len(),
        forall|i: int|
            0 <= i < old(ts)@.len() ==> (#[trigger] final(ts)@[i])@ == advance_spec(
                old(ts)@[i]@,
                delta as nat,
            ),
{
    let mut i: usize = 0;
    while i < ts.len()
        invariant
            0 <= i <= ts@.len(),
            ts@.len() == old(ts)@.len(),
            tweeners_wf(ts@),
            forall|j: int|
                0 <= j < i ==> (#[trigger] ts@[j])@ == advance_spec(old(ts)@[j]@, delta as nat),
            forall|j: int| i <= j < ts@.len() ==> (#[trigger] ts@[j]) == old(ts)@[j],
        decreases ts@.len() - i,
    {
        ts[i].advance(delta);
        i = i + 1;
    }
}

} // verus!
