//! Canonical state, which save and replay see, and presentation state, which
//! only the live run has; plus resolution of virtual layer ids.
use vstd::prelude::*;
use crate::time::Tween;
use crate::types::{LayerType, MessageboxStyle, Pan, Volume};

verus! {

/// Number of layer slots.
pub const LAYERS_COUNT: u32 = 256;

/// Number of numeric properties of a layer.
pub const PROPERTY_COUNT: u32 = 32;

/// Properties below this id are rendered; the others are stored only.
pub const IMPLEMENTED_PROPERTIES: u32 = 16;

/// Number of sound-effect slots.
pub const SE_SLOTS: u32 = 32;

/// Number of global variables.
pub const VARIABLES_COUNT: u32 = 4096;

/// Settings of a playing sound.
#[derive(Debug, Clone, Copy, PartialEq, Eq, Structural)]
pub struct AudioSettings {
    pub fade_in: Tween,
    pub loop_start: Option<u32>,
    pub volume: Volume,
    pub pan: Pan,
}

/// An address of layers, resolved against the layer table when used.
#[derive(Debug, Clone, Copy, PartialEq, Eq, Structural)]
pub enum VLayerId {
    /// One concrete slot.
    Layer(u32),
    /// The layer most recently loaded.
    Current,
    /// Every loaded layer in the selected range.
    Selected,
    /// Every loaded layer.
    All,
}

/// Where property `p` of layer `l` is kept in a flat property table.
pub open spec fn prop_index(l: int, p: int) -> int {
    l * PROPERTY_COUNT as int + p
}

/// The mathematical state of a `CommittedState`.
pub struct CommittedView {
    pub layers: Seq<Option<LayerType>>,
    pub properties: Seq<i32>,
    pub current_layer: Option<u32>,
    pub select_low: u32,
    pub select_high: u32,
    pub se: Seq<Option<AudioSettings>>,
    pub variables: Seq<i32>,
    pub messagebox: Option<MessageboxStyle>,
    pub message_id: Option<u32>,
}

/// All logical game state: it alone decides what a save or a replay gives.
#[derive(Debug)]
pub struct CommittedState {
    /// The type of the layer in each slot, `None` where the slot is empty.
    pub layers: Vec<Option<LayerType>>,
    /// Property `p` of layer `l` at `l * PROPERTY_COUNT + p`.
    pub properties: Vec<i32>,
    pub current_layer: Option<u32>,
    pub select_low: u32,
    pub select_high: u32,
    pub se: Vec<Option<AudioSettings>>,
    pub variables: Vec<i32>,
    pub messagebox: Option<MessageboxStyle>,
    pub message_id: Option<u32>,
}

impl View for CommittedState {
    type V = CommittedView;

    open spec fn view(&self) -> CommittedView {
        CommittedView {
            layers: self.layers@,
            properties: self.properties@,
            current_layer: self.current_layer,
            select_low: self.select_low,
            select_high: self.select_high,
            se: self.se@,
            variables: self.variables@,
            messagebox: self.messagebox,
            message_id: self.message_id,
        }
    }
}

/// Every table has its fixed size.
pub open spec fn committed_wf(v: CommittedView) -> bool {
    &&& v.layers.len() == LAYERS_COUNT
    &&& v.properties.len() == LAYERS_COUNT * PROPERTY_COUNT
    &&& v.se.len() == SE_SLOTS
    &&& v.variables.len() == VARIABLES_COUNT
}

/// Whether slot `i` holds a layer.
pub open spec fn is_loaded(v: CommittedView, i: int) -> bool {
    0 <= i < v.layers.len() && v.layers[i] is Some
}

/// The loaded slots in `lo..end`, ascending.
pub open spec fn loaded_between(v: CommittedView, lo: int, end: int) -> Seq<u32>
    decreases end - lo,
{
    if end <= lo {
        Seq::empty()
    } else if is_loaded(v, end - 1) {
        loaded_between(v, lo, end - 1).push((end - 1) as u32)
    } else {
        loaded_between(v, lo, end - 1)
    }
}

/// The concrete slots `id` stands for now, ascending.
pub open spec fn resolve_spec(v: CommittedView, id: VLayerId) -> Seq<u32> {
    match id {
        VLayerId::Layer(l) => if is_loaded(v, l as int) {
            seq![l]
        } else {
            Seq::empty()
        },
        VLayerId::Current => match v.current_layer {
            Some(l) => if is_loaded(v, l as int) {
                seq![l]
            } else {
                Seq::empty()
            },
            None => Seq::empty(),
        },
        VLayerId::Selected => loaded_between(v, v.select_low as int, v.select_high as int + 1),
        VLayerId::All => loaded_between(v, 0, LAYERS_COUNT as int),
    }
}

proof fn lemma_loaded_between_props(v: CommittedView, lo: int, end: int)
    requires
        0 <= lo,
        end <= u32::MAX + 1,
    ensures
        forall|k: int|
            0 <= k < loaded_between(v, lo, end).len() ==> lo <= #[trigger] loaded_between(
                v,
                lo,
                end,
            )[k] < end && is_loaded(v, loaded_between(v, lo, end)[k] as int),
    decreases end - lo,
{
    if end > lo {
        lemma_loaded_between_props(v, lo, end - 1);
        let s = loaded_between(v, lo, end);
        let t = loaded_between(v, lo, end - 1);
        if is_loaded(v, end - 1) {
            assert forall|k: int| 0 <= k < s.len() implies lo <= #[trigger] s[k] < end && is_loaded(
                v,
                s[k] as int,
            ) by {
                if k < t.len() {
                    assert(s[k] == t[k]);
                }
            }
        }
    }
}

/// Every slot that `id` resolves to holds a layer.
pub proof fn lemma_resolved_are_loaded(v: CommittedView, id: VLayerId)
    ensures
        forall|k: int|
            0 <= k < resolve_spec(v, id).len() ==> is_loaded(
                v,
                #[trigger] resolve_spec(v, id)[k] as int,
            ),
{
    lemma_loaded_between_props(v, v.select_low as int, v.select_high as int + 1);
    lemma_loaded_between_props(v, 0, LAYERS_COUNT as int);
}

proof fn lemma_loaded_between_increasing(v: CommittedView, lo: int, end: int)
    requires
        0 <= lo,
        end <= u32::MAX + 1,
    ensures
        forall|a: int, b: int|
            0 <= a < b < loaded_between(v, lo, end).len() ==> #[trigger] loaded_between(
                v,
                lo,
                end,
            )[a] < #[trigger] loaded_between(v, lo, end)[b],
    decreases end - lo,
{
    if end > lo {
        lemma_loaded_between_increasing(v, lo, end - 1);
        lemma_loaded_between_props(v, lo, end - 1);
        let s = loaded_between(v, lo, end);
        let t = loaded_between(v, lo, end - 1);
        if is_loaded(v, end - 1) {
            assert forall|a: int, b: int| 0 <= a < b < s.len() implies #[trigger] s[a]
                < #[trigger] s[b] by {
                assert(s[a] == t[a]);
                if b < t.len() {
                    assert(s[b] == t[b]);
                }
            }
        }
    }
}

/// An address resolves to distinct slots, in strictly ascending order.
pub proof fn lemma_resolved_ascending(v: CommittedView, id: VLayerId)
    ensures
        forall|a: int, b: int|
            0 <= a < b < resolve_spec(v, id).len() ==> #[trigger] resolve_spec(v, id)[a]
                < #[trigger] resolve_spec(v, id)[b],
{
    lemma_loaded_between_increasing(v, v.select_low as int, v.select_high as int + 1);
    lemma_loaded_between_increasing(v, 0, LAYERS_COUNT as int);
}

/// An aggregate selector whose scope holds no loaded layer resolves to nothing.
pub proof fn law_empty_selection_resolves_to_nothing(v: CommittedView, lo: int, end: int)
    requires
        forall|i: int| lo <= i < end ==> !is_loaded(v, i),
    ensures
        loaded_between(v, lo, end) == Seq::<u32>::empty(),
    decreases end - lo,
{
    if end > lo {
        law_empty_selection_resolves_to_nothing(v, lo, end - 1);
    }
}

impl CommittedState {
    pub open spec fn wf(&self) -> bool {
        committed_wf(self@)
    }

    /// A fresh state: no layers, no sounds, all variables zero.
    pub fn new() -> (r: CommittedState)
        ensures
            r.wf(),
            forall|i: int| 0 <= i < LAYERS_COUNT ==> r@.layers[i] is None,
            forall|i: int| 0 <= i < LAYERS_COUNT * PROPERTY_COUNT ==> r@.properties[i] == 0,
            forall|i: int| 0 <= i < SE_SLOTS ==> r@.se[i] is None,
            forall|i: int| 0 <= i < VARIABLES_COUNT ==> r@.variables[i] == 0,
            r@.current_layer is None,
            r@.select_low == 0,
            r@.select_high == 0,
            r@.messagebox is None,
            r@.message_id is None,
    {
        CommittedState {
            layers: vec![None; LAYERS_COUNT as usize],
            properties: vec![0i32; (LAYERS_COUNT * PROPERTY_COUNT) as usize],
            current_layer: None,
            select_low: 0,
            select_high: 0,
            se: vec![None; SE_SLOTS as usize],
            variables: vec![0i32; VARIABLES_COUNT as usize],
            messagebox: None,
            message_id: None,
        }
    }

    fn slot_loaded(&self, l: u32) -> (r: bool)
        requires
            self.wf(),
        ensures
            r == is_loaded(self@, l as int),
    {
        l < LAYERS_COUNT && self.layers[l as usize].is_some()
    }

    fn loaded_between(&self, lo: u32, end: u32) -> (r: Vec<u32>)
        requires
            self.wf(),
            end <= LAYERS_COUNT,
        ensures
            r@ == loaded_between(self@, lo as int, end as int),
    {
        let mut r: Vec<u32> = Vec::new();
        if end <= lo {
            return r;
        }
        let mut i: u32 = lo;
        while i < end
            invariant
                self.wf(),
                lo <= i <= end,
                end <= LAYERS_COUNT,
                r@ == loaded_between(self@, lo as int, i as int),
            decreases end - i,
        {
            if self.layers[i as usize].is_some() {
                r.push(i);
            }
            i = i + 1;
        }
        r
    }

    /// The concrete slots `id` stands for now, in ascending order. Nothing is
    /// cached: the table is read at each call.
    pub fn resolve(&self, id: VLayerId) -> (r: Vec<u32>)
        requires
            self.wf(),
        ensures
            r@ == resolve_spec(self@, id),
    {
        match id {
            VLayerId::Layer(l) => {
                if self.slot_loaded(l) {
                    vec![l]
                } else {
                    Vec::new()
                }
            },
            VLayerId::Current => match self.current_layer {
                Some(l) => {
                    if self.slot_loaded(l) {
                        vec![l]
                    } else {
                        Vec::new()
                    }
                },
                None => Vec::new(),
            },
            VLayerId::Selected => {
                let end: u32 = if self.select_high >= LAYERS_COUNT {
                    LAYERS_COUNT
                } else {
                    self.select_high + 1
                };
                let r = self.loaded_between(self.select_low, end);
                proof {
                    lemma_loaded_between_clip(self@, self.select_low as int, self.select_high as int + 1);
                }
                r
            },
            VLayerId::All => self.loaded_between(0, LAYERS_COUNT),
        }
    }

    /// Value of property `p` of layer `l`.
    pub fn property(&self, l: u32, p: u32) -> (r: i32)
        requires
            self.wf(),
            l < LAYERS_COUNT,
            p < PROPERTY_COUNT,
        ensures
            r == self@.properties[prop_index(l as int, p as int)],
    {
        self.properties[(l * PROPERTY_COUNT + p) as usize]
    }
}

/// Slots past the table are never loaded, so a range may be cut at its end.
proof fn lemma_loaded_between_clip(v: CommittedView, lo: int, end: int)
    requires
        committed_wf(v),
        0 <= lo,
    ensures
        end > LAYERS_COUNT ==> loaded_between(v, lo, end) == loaded_between(
            v,
            lo,
            LAYERS_COUNT as int,
        ),
    decreases end - lo,
{
    if end > LAYERS_COUNT && end > lo {
        assert(!is_loaded(v, end - 1));
        lemma_loaded_between_clip(v, lo, end - 1);
        if end - 1 <= LAYERS_COUNT && lo >= end - 1 {
            assert(loaded_between(v, lo, end - 1) == Seq::<u32>::empty());
            assert(loaded_between(v, lo, LAYERS_COUNT as int) == Seq::<u32>::empty());
        }
    }
}

} // verus!
