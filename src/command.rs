//! Decoded commands and their canonical mutation of the committed state.
use vstd::prelude::*;
use crate::state::{
    AudioSettings, CommittedState, CommittedView, LAYERS_COUNT, PROPERTY_COUNT, SE_SLOTS,
    VARIABLES_COUNT, VLayerId, committed_wf, lemma_resolved_are_loaded, is_loaded, prop_index,
    resolve_spec,
};
use crate::time::Tween;
use crate::types::{LayerType, MessageboxStyle, Pan, ValidationError, Volume};

verus! {

/// One decoded instruction, with its operands already resolved.
#[allow(non_camel_case_types)]
#[allow(inconsistent_fields)]
#[derive(Debug, Clone, Copy, PartialEq, Eq, Structural)]
pub enum Command {
    /// Stops the run.
    EXIT,
    /// Sets a global variable.
    SSET { index: u32, value: i32 },
    /// Waits for a number of ticks.
    WAIT { ticks: u32 },
    /// Opens the messagebox with a style.
    MSGINIT { style: MessageboxStyle },
    /// Shows a message, revealing its text over several ticks.
    MSGSET { message_id: u32, text_len: u32 },
    /// Closes the current message.
    MSGCLOSE,
    /// Starts a sound effect in a slot.
    SEPLAY { slot: u32, volume: Volume, pan: Pan, fade_in: u32, loop_start: Option<u32> },
    /// Stops the sound effect in a slot, fading out.
    SESTOP { slot: u32, fade_out: u32 },
    /// Changes the pan of a playing sound effect.
    SEPAN { slot: u32, pan: Pan, fade_in_time: u32 },
    /// Loads a layer of a type into a slot, with every property zero.
    LAYERLOAD { layer: u32, layer_type: LayerType },
    /// Empties the slots an address resolves to.
    LAYERUNLOAD { layer: VLayerId },
    /// Sets the range of slots that `VLayerId::Selected` covers.
    LAYERSELECT { low: u32, high: u32 },
    /// Moves a property of the addressed layers to a target value.
    LAYERCTRL {
        layer: VLayerId,
        property: u32,
        target: i32,
        time: i32,
        flags: i32,
        easing_param: i32,
    },
}

/// What a finished command hands back to the run loop.
#[derive(Debug, Clone, Copy, PartialEq, Eq, Structural)]
pub enum CommandResult {
    /// The command finished with nothing to report.
    Done,
}

/// The operand that makes a command unusable, if any.
pub open spec fn operand_error(c: Command) -> Option<ValidationError> {
    match c {
        Command::SSET { index, .. } => if index >= VARIABLES_COUNT {
            Some(ValidationError::VariableOutOfRange(index))
        } else {
            None
        },
        Command::SEPLAY { slot, .. } | Command::SESTOP { slot, .. } | Command::SEPAN {
            slot,
            ..
        } => if slot >= SE_SLOTS {
            Some(ValidationError::AudioSlotOutOfRange(slot))
        } else {
            None
        },
        Command::LAYERLOAD { layer, .. } => if layer >= LAYERS_COUNT {
            Some(ValidationError::LayerOutOfRange(layer))
        } else {
            None
        },
        Command::LAYERCTRL { property, .. } => if property >= PROPERTY_COUNT {
            Some(ValidationError::PropertyOutOfRange(property))
        } else {
            None
        },
        _ => None,
    }
}

/// Checks the operands a command indexes tables with.
pub fn check_operands(c: &Command) -> (r: Option<ValidationError>)
    ensures
        r == operand_error(*c),
{
    match c {
        Command::SSET { index, .. } => if *index >= VARIABLES_COUNT {
            Some(ValidationError::VariableOutOfRange(*index))
        } else {
            None
        },
        Command::SEPLAY { slot, .. } | Command::SESTOP { slot, .. } | Command::SEPAN {
            slot,
            ..
        } => if *slot >= SE_SLOTS {
            Some(ValidationError::AudioSlotOutOfRange(*slot))
        } else {
            None
        },
        Command::LAYERLOAD { layer, .. } => if *layer >= LAYERS_COUNT {
            Some(ValidationError::LayerOutOfRange(*layer))
        } else {
            None
        },
        Command::LAYERCTRL { property, .. } => if *property >= PROPERTY_COUNT {
            Some(ValidationError::PropertyOutOfRange(*property))
        } else {
            None
        },
        _ => None,
    }
}

/// `props` with property `p` of each layer in `ids` set to `value`.
pub open spec fn set_layer_props(props: Seq<i32>, ids: Seq<u32>, p: int, value: i32) -> Seq<i32>
    decreases ids.len(),
{
    if ids.len() == 0 {
        props
    } else {
        set_layer_props(props, ids.drop_last(), p, value).update(
            prop_index(ids.last() as int, p),
            value,
        )
    }
}

/// `layers` with each slot in `ids` emptied.
pub open spec fn clear_layers(layers: Seq<Option<LayerType>>, ids: Seq<u32>) -> Seq<Option<LayerType>>
    decreases ids.len(),
{
    if ids.len() == 0 {
        layers
    } else {
        clear_layers(layers, ids.drop_last()).update(ids.last() as int, None)
    }
}

/// `props` with every property of layer `l` zero.
pub open spec fn reset_layer_props(props: Seq<i32>, l: int) -> Seq<i32> {
    Seq::new(
        props.len(),
        |i: int|
            if prop_index(l, 0) <= i < prop_index(l, PROPERTY_COUNT as int) {
                0i32
            } else {
                props[i]
            },
    )
}

/// The canonical mutation: the committed state after `c`, or the error that
/// refuses it. It reads nothing but `s` and `c`.
pub open spec fn apply_spec(s: CommittedView, c: Command) -> Result<CommittedView, ValidationError> {
    match operand_error(c) {
        Some(e) => Err(e),
        None => Ok(
            match c {
                Command::SSET { index, value } => CommittedView {
                    variables: s.variables.update(index as int, value),
                    ..s
                },
                Command::MSGINIT { style } => CommittedView { messagebox: Some(style), ..s },
                Command::MSGSET { message_id, .. } => CommittedView {
                    message_id: Some(message_id),
                    ..s
                },
                Command::MSGCLOSE => CommittedView { message_id: None, ..s },
                Command::SEPLAY { slot, volume, pan, fade_in, loop_start } => CommittedView {
                    se: s.se.update(
                        slot as int,
                        Some(
                            AudioSettings {
                                fade_in: Tween::linear_spec(fade_in),
                                loop_start,
                                volume,
                                pan,
                            },
                        ),
                    ),
                    ..s
                },
                Command::SESTOP { slot, .. } => CommittedView {
                    se: s.se.update(slot as int, None),
                    ..s
                },
                Command::SEPAN { slot, pan, .. } => match s.se[slot as int] {
                    Some(a) => CommittedView {
                        se: s.se.update(slot as int, Some(AudioSettings { pan, ..a })),
                        ..s
                    },
                    None => s,
                },
                Command::LAYERLOAD { layer, layer_type } => CommittedView {
                    layers: s.layers.update(layer as int, Some(layer_type)),
                    properties: reset_layer_props(s.properties, layer as int),
                    current_layer: Some(layer),
                    ..s
                },
                Command::LAYERUNLOAD { layer } => CommittedView {
                    layers: clear_layers(s.layers, resolve_spec(s, layer)),
                    ..s
                },
                Command::LAYERSELECT { low, high } => CommittedView {
                    select_low: low,
                    select_high: high,
                    ..s
                },
                Command::LAYERCTRL { layer, property, target, .. } => CommittedView {
                    properties: set_layer_props(
                        s.properties,
                        resolve_spec(s, layer),
                        property as int,
                        target,
                    ),
                    ..s
                },
                _ => s,
            },
        ),
    }
}

/// Applying the canonical mutation to equal states gives equal results: it
/// depends on nothing else.
pub proof fn law_apply_deterministic(s1: CommittedView, s2: CommittedView, c: Command)
    requires
        s1 == s2,
    ensures
        apply_spec(s1, c) == apply_spec(s2, c),
{
}

/// The committed state after replaying `log` from `s`, stopping at the first
/// refused command.
pub open spec fn replay_spec(s: CommittedView, log: Seq<Command>) -> Result<CommittedView, ValidationError>
    decreases log.len(),
{
    if log.len() == 0 {
        Ok(s)
    } else {
        match replay_spec(s, log.drop_last()) {
            Ok(t) => apply_spec(t, log.last()),
            Err(e) => Err(e),
        }
    }
}

proof fn lemma_set_layer_props_len(props: Seq<i32>, ids: Seq<u32>, p: int, value: i32)
    requires
        props.len() == LAYERS_COUNT * PROPERTY_COUNT,
        0 <= p < PROPERTY_COUNT,
        forall|k: int| 0 <= k < ids.len() ==> #[trigger] ids[k] < LAYERS_COUNT,
    ensures
        set_layer_props(props, ids, p, value).len() == props.len(),
    decreases ids.len(),
{
    if ids.len() > 0 {
        lemma_set_layer_props_len(props, ids.drop_last(), p, value);
    }
}

proof fn lemma_clear_layers_len(layers: Seq<Option<LayerType>>, ids: Seq<u32>)
    requires
        layers.len() == LAYERS_COUNT,
        forall|k: int| 0 <= k < ids.len() ==> #[trigger] ids[k] < LAYERS_COUNT,
    ensures
        clear_layers(layers, ids).len() == layers.len(),
    decreases ids.len(),
{
    if ids.len() > 0 {
        lemma_clear_layers_len(layers, ids.drop_last());
    }
}

/// Every slot an address resolves to is inside the layer table.
pub proof fn lemma_resolved_bounded(s: CommittedView, id: VLayerId)
    requires
        committed_wf(s),
    ensures
        forall|k: int|
            0 <= k < resolve_spec(s, id).len() ==> #[trigger] resolve_spec(s, id)[k]
                < LAYERS_COUNT,
{
    lemma_resolved_are_loaded(s, id);
    assert forall|k: int| 0 <= k < resolve_spec(s, id).len() implies #[trigger] resolve_spec(
        s,
        id,
    )[k] < LAYERS_COUNT by {
        assert(is_loaded(s, resolve_spec(s, id)[k] as int));
    }
}

/// The canonical mutation keeps every table at its size.
pub proof fn lemma_apply_keeps_wf(s: CommittedView, c: Command)
    requires
        committed_wf(s),
    ensures
        apply_spec(s, c) matches Ok(t) ==> committed_wf(t),
{
    match c {
        Command::LAYERUNLOAD { layer } => {
            lemma_resolved_bounded(s, layer);
            lemma_clear_layers_len(s.layers, resolve_spec(s, layer));
        },
        Command::LAYERCTRL { layer, property, target, .. } => {
            if property < PROPERTY_COUNT {
                lemma_resolved_bounded(s, layer);
                lemma_set_layer_props_len(
                    s.properties,
                    resolve_spec(s, layer),
                    property as int,
                    target,
                );
            }
        },
        _ => {},
    }
}

impl Tween {
    pub open spec fn linear_spec(duration: u32) -> Tween {
        Tween { duration, easing: crate::time::Easing::Linear }
    }
}

impl CommittedState {
    fn set_resolved_properties(&mut self, ids: &Vec<u32>, p: u32, value: i32)
        requires
            old(self).wf(),
            p < PROPERTY_COUNT,
            forall|k: int| 0 <= k < ids@.len() ==> #[trigger] ids@[k] < LAYERS_COUNT,
        ensures
            final(self)@ == (CommittedView {
                properties: set_layer_props(old(self)@.properties, ids@, p as int, value),
                ..old(self)@
            }),
    {
        let mut k: usize = 0;
        while k < ids.len()
            invariant
                self.wf(),
                k <= ids@.len(),
                p < PROPERTY_COUNT,
                forall|j: int| 0 <= j < ids@.len() ==> #[trigger] ids@[j] < LAYERS_COUNT,
                self@ == (CommittedView {
                    properties: set_layer_props(
                        old(self)@.properties,
                        ids@.take(k as int),
                        p as int,
                        value,
                    ),
                    ..old(self)@
                }),
            decreases ids@.len() - k,
        {
            let l = ids[k];
            assert(ids@.take(k as int + 1).drop_last() == ids@.take(k as int));
            self.properties.set((l * PROPERTY_COUNT + p) as usize, value);
            k = k + 1;
        }
        assert(ids@.take(ids@.len() as int) == ids@);
    }

    fn clear_resolved(&mut self, ids: &Vec<u32>)
        requires
            old(self).wf(),
            forall|k: int| 0 <= k < ids@.len() ==> #[trigger] ids@[k] < LAYERS_COUNT,
        ensures
            final(self)@ == (CommittedView {
                layers: clear_layers(old(self)@.layers, ids@),
                ..old(self)@
            }),
    {
        let mut k: usize = 0;
        while k < ids.len()
            invariant
                self.wf(),
                k <= ids@.len(),
                forall|j: int| 0 <= j < ids@.len() ==> #[trigger] ids@[j] < LAYERS_COUNT,
                self@ == (CommittedView {
                    layers: clear_layers(old(self)@.layers, ids@.take(k as int)),
                    ..old(self)@
                }),
            decreases ids@.len() - k,
        {
            let l = ids[k];
            assert(ids@.take(k as int + 1).drop_last() == ids@.take(k as int));
            self.layers.set(l as usize, None);
            k = k + 1;
        }
        assert(ids@.take(ids@.len() as int) == ids@);
    }

    fn reset_properties(&mut self, l: u32)
        requires
            old(self).wf(),
            l < LAYERS_COUNT,
        ensures
            final(self)@ == (CommittedView {
                properties: reset_layer_props(old(self)@.properties, l as int),
                ..old(self)@
            }),
    {
        let mut p: u32 = 0;
        while p < PROPERTY_COUNT
            invariant
                self.wf(),
                l < LAYERS_COUNT,
                p <= PROPERTY_COUNT,
                self@.properties.len() == old(self)@.properties.len(),
                forall|i: int|
                    0 <= i < self@.properties.len() ==> #[trigger] self@.properties[i] == if prop_index(
                        l as int,
                        0,
                    ) <= i < prop_index(l as int, p as int) {
                        0i32
                    } else {
                        old(self)@.properties[i]
                    },
                self@ == (CommittedView { properties: self@.properties, ..old(self)@ }),
            decreases PROPERTY_COUNT - p,
        {
            self.properties.set((l * PROPERTY_COUNT + p) as usize, 0);
            p = p + 1;
        }
        assert(self@.properties =~= reset_layer_props(old(self)@.properties, l as int));
    }

    /// Applies the canonical mutation of `c`. On an error nothing changes.
    pub fn apply(&mut self, c: &Command) -> (r: Result<(), ValidationError>)
        requires
            old(self).wf(),
        ensures
            final(self).wf(),
            match apply_spec(old(self)@, *c) {
                Ok(t) => r is Ok && final(self)@ == t,
                Err(e) => r == Err::<(), ValidationError>(e) && final(self)@ == old(self)@,
            },
    {
        proof {
            lemma_apply_keeps_wf(self@, *c);
        }
        if let Some(e) = check_operands(c) {
            return Err(e);
        }
        match *c {
            Command::SSET { index, value } => {
                self.variables.set(index as usize, value);
            },
            Command::MSGINIT { style } => {
                self.messagebox = Some(style);
            },
            Command::MSGSET { message_id, .. } => {
                self.message_id = Some(message_id);
            },
            Command::MSGCLOSE => {
                self.message_id = None;
            },
            Command::SEPLAY { slot, volume, pan, fade_in, loop_start } => {
                let a = AudioSettings { fade_in: Tween::linear(fade_in), loop_start, volume, pan };
                self.se.set(slot as usize, Some(a));
            },
            Command::SESTOP { slot, .. } => {
                self.se.set(slot as usize, None);
            },
            Command::SEPAN { slot, pan, .. } => {
                if let Some(a) = self.se[slot as usize] {
                    self.se.set(slot as usize, Some(AudioSettings { pan, ..a }));
                }
            },
            Command::LAYERLOAD { layer, layer_type } => {
                self.layers.set(layer as usize, Some(layer_type));
                self.reset_properties(layer);
                self.current_layer = Some(layer);
            },
            Command::LAYERUNLOAD { layer } => {
                let ids = self.resolve(layer);
                proof {
                    lemma_resolved_bounded(self@, layer);
                }
                self.clear_resolved(&ids);
            },
            Command::LAYERSELECT { low, high } => {
                self.select_low = low;
                self.select_high = high;
            },
            Command::LAYERCTRL { layer, property, target, .. } => {
                let ids = self.resolve(layer);
                proof {
                    lemma_resolved_bounded(self@, layer);
                }
                self.set_resolved_properties(&ids, property, target);
            },
            _ => {},
        }
        Ok(())
    }

    /// Replays the canonical mutations of `log` without any presentation,
    /// stopping at the first refused command.
    pub fn replay(&mut self, log: &Vec<Command>) -> (r: Result<(), ValidationError>)
        requires
            old(self).wf(),
        ensures
            final(self).wf(),
            match replay_spec(old(self)@, log@) {
                Ok(t) => r is Ok && final(self)@ == t,
                Err(e) => r == Err::<(), ValidationError>(e),
            },
    {
        let mut k: usize = 0;
        while k < log.len()
            invariant
                self.wf(),
                k <= log@.len(),
                replay_spec(old(self)@, log@.take(k as int)) == Ok::<
                    CommittedView,
                    ValidationError,
                >(self@),
            decreases log@.len() - k,
        {
            assert(log@.take(k as int + 1).drop_last() == log@.take(k as int));
            let r = self.apply(&log[k]);
            if let Err(e) = r {
                proof {
                    lemma_replay_stops(old(self)@, log@, k as int + 1);
                }
                return Err(e);
            }
            k = k + 1;
        }
        assert(log@.take(log@.len() as int) == log@);
        Ok(())
    }
}

/// Once a prefix of the log is refused, the whole log is.
proof fn lemma_replay_stops(s: CommittedView, log: Seq<Command>, k: int)
    requires
        0 <= k <= log.len(),
        replay_spec(s, log.take(k)) is Err,
    ensures
        replay_spec(s, log) == replay_spec(s, log.take(k)),
    decreases log.len() - k,
{
    if k < log.len() {
        assert(log.take(k + 1).drop_last() == log.take(k));
        lemma_replay_stops(s, log, k + 1);
    } else {
        assert(log.take(k) == log);
    }
}

} // verus!
