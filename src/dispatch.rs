//! The per-command dispatch contract: canonical mutation, then a
//! presentational start that continues, yields a multi-tick command, or exits.
use vstd::prelude::*;
use crate::command::{
    apply_spec, check_operands, lemma_resolved_bounded, operand_error, Command, CommandResult,
};
use crate::flags::{
    check_ctrl_flags, ctrl_check, ctrl_flags_of, ctrl_warnings, flag_warnings, CtrlFlags, Warning,
};
use crate::live::{LiveState, tweeners_wf};
use crate::state::{
    CommittedState, CommittedView, IMPLEMENTED_PROPERTIES, LAYERS_COUNT, PROPERTY_COUNT, SE_SLOTS,
    VLayerId, committed_wf, lemma_resolved_ascending, prop_index, resolve_spec,
};
use crate::time::{ticks_from_i32, ticks_of, Easing, Tween};
use crate::tweener::{
    Segment, Tweener, TweenerView, advance_spec, enqueue_spec, fast_forward_spec,
    fast_forward_to_spec, final_value, law_advance_saturates, lemma_enqueue_wf,
    lemma_settle_keeps_final_value, remaining_ticks, view_wf,
};
use crate::types::{Pan, ValidationError, Volume};

verus! {

/// Characters of a message revealed per tick.
pub const CHARS_PER_TICK: u32 = 2;

/// A command that runs over several ticks, with its progress.
#[allow(non_camel_case_types)]
#[derive(Debug, Clone, Copy, PartialEq, Eq, Structural)]
pub enum ExecutingCommand {
    /// Ticks left to wait.
    WAIT { remaining: u32 },
    /// Characters shown so far, out of the message's length.
    MSGSET { shown: u32, text_len: u32 },
}

/// How a started command goes on.
#[derive(Debug, Clone, Copy, PartialEq, Eq, Structural)]
pub enum CommandStartResult {
    /// Finished within the tick; the next instruction is decoded at once.
    Continue(CommandResult),
    /// Runs on; the scheduler polls it once per tick.
    Yield(ExecutingCommand),
    /// Ends the run.
    Exit,
}

impl From<CommandResult> for CommandStartResult {
    fn from(result: CommandResult) -> (r: CommandStartResult) {
        CommandStartResult::Continue(result)
    }
}

impl vstd::std_specs::convert::FromSpecImpl<CommandResult> for CommandStartResult {
    open spec fn obeys_from_spec() -> bool {
        true
    }

    open spec fn from_spec(result: CommandResult) -> CommandStartResult {
        CommandStartResult::Continue(result)
    }
}

impl From<ExecutingCommand> for CommandStartResult {
    fn from(command: ExecutingCommand) -> (r: CommandStartResult) {
        CommandStartResult::Yield(command)
    }
}

impl vstd::std_specs::convert::FromSpecImpl<ExecutingCommand> for CommandStartResult {
    open spec fn obeys_from_spec() -> bool {
        true
    }

    open spec fn from_spec(command: ExecutingCommand) -> CommandStartResult {
        CommandStartResult::Yield(command)
    }
}

/// A successful start: how the command goes on and what it warned about.
#[derive(Debug)]
pub struct Started {
    pub result: CommandStartResult,
    pub warnings: Vec<Warning>,
}

/// How the presentational start of `c` ends, or the error that aborts it.
pub open spec fn start_spec(c: Command) -> Result<CommandStartResult, ValidationError> {
    match operand_error(c) {
        Some(e) => Err(e),
        None => match c {
            Command::EXIT => Ok(CommandStartResult::Exit),
            Command::WAIT { ticks } => if ticks == 0 {
                Ok(CommandStartResult::Continue(CommandResult::Done))
            } else {
                Ok(CommandStartResult::Yield(ExecutingCommand::WAIT { remaining: ticks }))
            },
            Command::MSGSET { text_len, .. } => if text_len == 0 {
                Ok(CommandStartResult::Continue(CommandResult::Done))
            } else {
                Ok(CommandStartResult::Yield(ExecutingCommand::MSGSET { shown: 0, text_len }))
            },
            Command::LAYERCTRL { flags, easing_param, .. } => match ctrl_check(
                flags,
                easing_param,
            ) {
                Err(e) => Err(e),
                Ok(_) => Ok(CommandStartResult::Continue(CommandResult::Done)),
            },
            _ => Ok(CommandStartResult::Continue(CommandResult::Done)),
        },
    }
}

/// One poll of a running command: its next progress, and its result once done.
pub open spec fn update_spec(e: ExecutingCommand) -> (ExecutingCommand, Option<CommandResult>) {
    match e {
        ExecutingCommand::WAIT { remaining } => if remaining <= 1 {
            (ExecutingCommand::WAIT { remaining: 0 }, Some(CommandResult::Done))
        } else {
            (ExecutingCommand::WAIT { remaining: (remaining - 1) as u32 }, None)
        },
        ExecutingCommand::MSGSET { shown, text_len } => {
            let n = if shown + CHARS_PER_TICK >= text_len {
                text_len
            } else {
                (shown + CHARS_PER_TICK) as u32
            };
            (
                ExecutingCommand::MSGSET { shown: n, text_len },
                if n >= text_len {
                    Some(CommandResult::Done)
                } else {
                    None
                },
            )
        },
    }
}

/// The paced-text cursor after one poll of `e`, from `shown`: a message
/// shows what its progress has reached; a wait leaves it alone.
pub open spec fn text_after_spec(e: ExecutingCommand, shown: u32) -> u32 {
    match update_spec(e).0 {
        ExecutingCommand::MSGSET { shown: n, .. } => n,
        ExecutingCommand::WAIT { .. } => shown,
    }
}

/// The views of a sequence of tweeners.
pub open spec fn views(ts: Seq<Tweener>) -> Seq<TweenerView> {
    ts.map_values(|t: Tweener| t@)
}

/// What LAYERCTRL does to one tweener: settle or finish what runs, as the
/// flags ask, then queue the new segment.
pub open spec fn ctrl_tweener(t: TweenerView, f: CtrlFlags, seg: Segment) -> TweenerView {
    let t1 = if f.ff_to_current {
        fast_forward_to_spec(t, t.value)
    } else {
        t
    };
    let t2 = if f.ff_to_target {
        fast_forward_spec(t1)
    } else {
        t1
    };
    enqueue_spec(t2, seg)
}

/// LAYERCTRL applied to property `p` of each layer in `ids`, in order; the
/// flag says whether a value differed from the target beforehand.
pub open spec fn ctrl_fold(
    vs: Seq<TweenerView>,
    ids: Seq<u32>,
    p: int,
    f: CtrlFlags,
    seg: Segment,
) -> (Seq<TweenerView>, bool)
    decreases ids.len(),
{
    if ids.len() == 0 {
        (vs, false)
    } else {
        let (w, changed) = ctrl_fold(vs, ids.drop_last(), p, f, seg);
        let i = prop_index(ids.last() as int, p);
        (w.update(i, ctrl_tweener(w[i], f, seg)), changed || w[i].value != seg.target as int)
    }
}

proof fn lemma_ctrl_fold_len(
    vs: Seq<TweenerView>,
    ids: Seq<u32>,
    p: int,
    f: CtrlFlags,
    seg: Segment,
)
    requires
        vs.len() == LAYERS_COUNT * PROPERTY_COUNT,
        0 <= p < PROPERTY_COUNT,
        forall|k: int| 0 <= k < ids.len() ==> #[trigger] ids[k] < LAYERS_COUNT,
    ensures
        ctrl_fold(vs, ids, p, f, seg).0.len() == vs.len(),
    decreases ids.len(),
{
    if ids.len() > 0 {
        lemma_ctrl_fold_len(vs, ids.drop_last(), p, f, seg);
    }
}

/// An address that resolves to no layer makes LAYERCTRL and LAYERUNLOAD
/// touch nothing, in either state, and is no error.
pub proof fn law_empty_resolution_touches_nothing(
    s: CommittedView,
    vs: Seq<TweenerView>,
    layer: VLayerId,
    property: u32,
    target: i32,
    time: i32,
    flags: i32,
    easing_param: i32,
)
    requires
        resolve_spec(s, layer).len() == 0,
        property < PROPERTY_COUNT,
    ensures
        apply_spec(s, Command::LAYERCTRL { layer, property, target, time, flags, easing_param })
            == Ok::<CommittedView, ValidationError>(s),
        apply_spec(s, Command::LAYERUNLOAD { layer }) == Ok::<CommittedView, ValidationError>(s),
        forall|f: CtrlFlags, seg: Segment|
            ctrl_fold(vs, resolve_spec(s, layer), property as int, f, seg) == (vs, false),
{
    assert(resolve_spec(s, layer) == Seq::<u32>::empty());
}

/// The fold touches exactly the chosen property of each listed layer, each
/// once, as `ctrl_tweener` says, when the layers are listed in ascending order.
pub proof fn lemma_ctrl_fold_pointwise(
    vs: Seq<TweenerView>,
    ids: Seq<u32>,
    p: int,
    f: CtrlFlags,
    seg: Segment,
)
    requires
        vs.len() == LAYERS_COUNT * PROPERTY_COUNT,
        0 <= p < PROPERTY_COUNT,
        forall|k: int| 0 <= k < ids.len() ==> #[trigger] ids[k] < LAYERS_COUNT,
        forall|a: int, b: int| 0 <= a < b < ids.len() ==> #[trigger] ids[a] < #[trigger] ids[b],
    ensures
        ctrl_fold(vs, ids, p, f, seg).0.len() == vs.len(),
        forall|k: int|
            0 <= k < ids.len() ==> (#[trigger] ctrl_fold(vs, ids, p, f, seg).0[prop_index(
                ids[k] as int,
                p,
            )]) == ctrl_tweener(vs[prop_index(ids[k] as int, p)], f, seg),
        forall|i: int|
            0 <= i < vs.len() && (forall|k: int|
                0 <= k < ids.len() ==> i != prop_index(#[trigger] ids[k] as int, p))
                ==> #[trigger] ctrl_fold(vs, ids, p, f, seg).0[i] == vs[i],
    decreases ids.len(),
{
    lemma_ctrl_fold_len(vs, ids, p, f, seg);
    if ids.len() > 0 {
        let d = ids.drop_last();
        assert forall|a: int, b: int| 0 <= a < b < d.len() implies #[trigger] d[a]
            < #[trigger] d[b] by {
            assert(d[a] == ids[a] && d[b] == ids[b]);
        }
        assert forall|k: int| 0 <= k < d.len() implies #[trigger] d[k] < LAYERS_COUNT by {
            assert(d[k] == ids[k]);
        }
        lemma_ctrl_fold_pointwise(vs, d, p, f, seg);
        let w = ctrl_fold(vs, d, p, f, seg).0;
        let last = prop_index(ids.last() as int, p);
        assert forall|k: int| 0 <= k < d.len() implies last != prop_index(#[trigger] d[k] as int, p) by {
            assert(d[k] == ids[k]);
            assert(ids[k] < ids[ids.len() - 1]);
        }
        assert(w[last] == vs[last]);
        let r = ctrl_fold(vs, ids, p, f, seg).0;
        assert forall|k: int| 0 <= k < ids.len() implies (#[trigger] r[prop_index(
            ids[k] as int,
            p,
        )]) == ctrl_tweener(vs[prop_index(ids[k] as int, p)], f, seg) by {
            if k < ids.len() - 1 {
                assert(d[k] == ids[k]);
                assert(ids[k] < ids[ids.len() - 1]);
                assert(w[prop_index(d[k] as int, p)] == ctrl_tweener(
                    vs[prop_index(d[k] as int, p)],
                    f,
                    seg,
                ));
            }
        }
        assert forall|i: int|
            0 <= i < vs.len() && (forall|k: int|
                0 <= k < ids.len() ==> i != prop_index(#[trigger] ids[k] as int, p)) implies #[trigger] r[i]
            == vs[i] by {
            assert(i != prop_index(ids[ids.len() - 1] as int, p));
            assert forall|k: int| 0 <= k < d.len() implies i != prop_index(
                #[trigger] d[k] as int,
                p,
            ) by {
                assert(d[k] == ids[k]);
            }
        }
    }
}

/// After LAYERCTRL's start, the chosen property of every layer the address
/// resolved to has had `ctrl_tweener` applied once, and no other tweener
/// changed.
pub proof fn law_layerctrl_touches_each_resolved_layer_once(
    s: CommittedView,
    vs: Seq<TweenerView>,
    layer: VLayerId,
    property: u32,
    f: CtrlFlags,
    seg: Segment,
)
    requires
        committed_wf(s),
        vs.len() == LAYERS_COUNT * PROPERTY_COUNT,
        property < PROPERTY_COUNT,
    ensures
        forall|k: int|
            0 <= k < resolve_spec(s, layer).len() ==> (#[trigger] ctrl_fold(
                vs,
                resolve_spec(s, layer),
                property as int,
                f,
                seg,
            ).0[prop_index(resolve_spec(s, layer)[k] as int, property as int)]) == ctrl_tweener(
                vs[prop_index(resolve_spec(s, layer)[k] as int, property as int)],
                f,
                seg,
            ),
        forall|i: int|
            0 <= i < vs.len() && (forall|k: int|
                0 <= k < resolve_spec(s, layer).len() ==> i != prop_index(
                    #[trigger] resolve_spec(s, layer)[k] as int,
                    property as int,
                )) ==> #[trigger] ctrl_fold(vs, resolve_spec(s, layer), property as int, f, seg).0[i]
                == vs[i],
{
    lemma_resolved_bounded(s, layer);
    lemma_resolved_ascending(s, layer);
    lemma_ctrl_fold_pointwise(vs, resolve_spec(s, layer), property as int, f, seg);
}

/// What LAYERCTRL leaves on one tweener: it heads for the new target; once
/// the queue has played out it rests exactly there and further time changes
/// nothing; after "fast-forward to target" only the new move is pending, from
/// the old final target; after "fast-forward to current" the value is kept
/// and the pending targets stay queued ahead of the new one.
pub proof fn law_layerctrl_tweener(t: TweenerView, f: CtrlFlags, seg: Segment, delta: nat)
    requires
        view_wf(t),
        !(f.ff_to_current && f.ff_to_target),
    ensures
        view_wf(ctrl_tweener(t, f, seg)),
        final_value(ctrl_tweener(t, f, seg)) == seg.target,
        delta >= remaining_ticks(ctrl_tweener(t, f, seg)) ==> {
            &&& advance_spec(ctrl_tweener(t, f, seg), delta).value == seg.target
            &&& advance_spec(ctrl_tweener(t, f, seg), delta).queue.len() == 0
            &&& forall|d: nat|
                advance_spec(advance_spec(ctrl_tweener(t, f, seg), delta), d) == advance_spec(
                    ctrl_tweener(t, f, seg),
                    delta,
                )
        },
        f.ff_to_target && seg.tween.duration > 0 ==> ctrl_tweener(t, f, seg).queue == seq![seg]
            && ctrl_tweener(t, f, seg).value == final_value(t),
        f.ff_to_current && t.queue.len() > 0 ==> ctrl_tweener(t, f, seg).queue == t.queue.push(
            seg,
        ) && ctrl_tweener(t, f, seg).value == t.value,
{
    let t1 = if f.ff_to_current {
        fast_forward_to_spec(t, t.value)
    } else {
        t
    };
    let t2 = if f.ff_to_target {
        fast_forward_spec(t1)
    } else {
        t1
    };
    assert(view_wf(t1));
    assert(view_wf(t2));
    lemma_enqueue_wf(t2, seg);
    let w = TweenerView { queue: t2.queue.push(seg), ..t2 };
    lemma_settle_keeps_final_value(w);
    let r = ctrl_tweener(t, f, seg);
    if delta >= remaining_ticks(r) {
        law_advance_saturates(r, delta);
    }
}

fn ctrl_one(t: &mut Tweener, f: &CtrlFlags, seg: Segment)
    requires
        old(t).wf(),
    ensures
        final(t).wf(),
        final(t)@ == ctrl_tweener(old(t)@, *f, seg),
{
    if f.ff_to_current {
        let current = t.value();
        t.fast_forward_to(current);
    }
    if f.ff_to_target {
        t.fast_forward();
    }
    t.enqueue(seg.target, seg.tween);
}

/// The warnings of a LAYERCTRL start: the unsupported flag bits, then a
/// changed property that is not rendered.
pub open spec fn layerctrl_warnings(f: CtrlFlags, property: u32, target: i32, changed: bool) -> Seq<
    Warning,
> {
    if property >= IMPLEMENTED_PROPERTIES && changed {
        flag_warnings(f).push(Warning::PropertyNotImplemented { property, value: target })
    } else {
        flag_warnings(f)
    }
}

/// Presentational start of LAYERCTRL: validates the flags, then on each
/// layer the address resolves to settles the property's tweener as the flags
/// ask and queues the move to `target`.
pub fn start_layerctrl(
    committed: &CommittedState,
    live: &mut LiveState,
    layer: VLayerId,
    property: u32,
    target: i32,
    time: i32,
    flags: i32,
    easing_param: i32,
) -> (r: Result<Vec<Warning>, ValidationError>)
    requires
        committed.wf(),
        old(live).wf(),
        property < PROPERTY_COUNT,
    ensures
        final(live).wf(),
        ctrl_check(flags, easing_param) is Err ==> r is Err && r->Err_0 == ctrl_check(
            flags,
            easing_param,
        )->Err_0 && live_unchanged(*old(live), *final(live)),
        ctrl_check(flags, easing_param) is Ok ==> r is Ok && layerctrl_live(
            committed@,
            *old(live),
            *final(live),
            r->Ok_0@,
            layer,
            property,
            target,
            time,
            flags,
            easing_param,
        ),
{
    let f = CtrlFlags::from_bits(flags);
    let easing = match check_ctrl_flags(&f, flags, easing_param) {
        Ok(e) => e,
        Err(e) => {
            return Err(e);
        },
    };
    let mut warnings = ctrl_warnings(&f);
    let seg = Segment { target, tween: Tween { duration: ticks_from_i32(time), easing } };
    let ids = committed.resolve(layer);
    proof {
        lemma_resolved_bounded(committed@, layer);
    }
    let ghost old_views = views(old(live).layer_tweeners@);
    let mut changed = false;
    let mut k: usize = 0;
    while k < ids.len()
        invariant
            live.wf(),
            live.se_volume@ == old(live).se_volume@,
            live.se_pan@ == old(live).se_pan@,
            live.text_shown == old(live).text_shown,
            k <= ids@.len(),
            property < PROPERTY_COUNT,
            f == ctrl_flags_of(flags),
            seg == (Segment { target, tween: Tween { duration: ticks_of(time), easing } }),
            ctrl_check(flags, easing_param) == Ok::<Easing, ValidationError>(easing),
            committed.wf(),
            ids@ == resolve_spec(committed@, layer),
            old_views == views(old(live).layer_tweeners@),
            old_views.len() == LAYERS_COUNT * PROPERTY_COUNT,
            forall|j: int| 0 <= j < ids@.len() ==> #[trigger] ids@[j] < LAYERS_COUNT,
            (views(live.layer_tweeners@), changed) == ctrl_fold(
                old_views,
                ids@.take(k as int),
                property as int,
                f,
                seg,
            ),
        decreases ids@.len() - k,
    {
        let l = ids[k];
        let i = (l * PROPERTY_COUNT + property) as usize;
        assert(ids@.take(k as int + 1).drop_last() == ids@.take(k as int));
        assert(ids@.take(k as int + 1).last() == l);
        let ghost before = live.layer_tweeners@;
        let ghost changed_before = changed;
        proof {
            assert forall|j: int| 0 <= j < ids@.take(k as int).len() implies #[trigger] ids@.take(
                k as int,
            )[j] < LAYERS_COUNT by {
                assert(ids@.take(k as int)[j] == ids@[j]);
            }
            lemma_ctrl_fold_len(old_views, ids@.take(k as int), property as int, f, seg);
            assert(views(before)[i as int] == before[i as int]@);
            assert(before[i as int].wf());
        }
        if live.layer_tweeners[i].value() != target {
            changed = true;
        }
        ctrl_one(&mut live.layer_tweeners[i], &f, seg);
        proof {
            let after = live.layer_tweeners@;
            assert(views(after) =~= views(before).update(i as int, after[i as int]@));
            assert(changed == (changed_before || before[i as int]@.value != target as int));
            let prev = ctrl_fold(old_views, ids@.take(k as int), property as int, f, seg);
            let next = ctrl_fold(old_views, ids@.take(k as int + 1), property as int, f, seg);
            assert(i as int == prop_index(l as int, property as int));
            assert(prev.0 == views(before));
            assert(prev.1 == changed_before);
            assert(seg.target == target);
            assert(next == (
                prev.0.update(i as int, ctrl_tweener(prev.0[i as int], f, seg)),
                prev.1 || prev.0[i as int].value != seg.target as int,
            ));
            assert(after[i as int]@ == ctrl_tweener(before[i as int]@, f, seg));
            assert(prev.0[i as int] == before[i as int]@);
            assert(views(after) == next.0);
            assert(changed == next.1);
            assert forall|j: int| 0 <= j < after.len() implies (#[trigger] after[j]).wf() by {
                if j != i {
                    assert(after[j] == before[j]);
                }
            }
        }
        k = k + 1;
    }
    assert(ids@.take(ids@.len() as int) == ids@);
    if property >= IMPLEMENTED_PROPERTIES && changed {
        warnings.push(Warning::PropertyNotImplemented { property, value: target });
    }
    Ok(warnings)
}

} // verus!

verus! {

/// Nothing in the presentation state changes.
pub open spec fn live_unchanged(a: LiveState, b: LiveState) -> bool {
    &&& b.layer_tweeners@ == a.layer_tweeners@
    &&& b.se_volume@ == a.se_volume@
    &&& b.se_pan@ == a.se_pan@
    &&& b.text_shown == a.text_shown
}

/// Only the paced-text cursor changes, back to the start.
pub open spec fn text_reset(a: LiveState, b: LiveState) -> bool {
    &&& b.layer_tweeners@ == a.layer_tweeners@
    &&& b.se_volume@ == a.se_volume@
    &&& b.se_pan@ == a.se_pan@
    &&& b.text_shown == 0
}

/// SEPAN's effect: the slot's pan tweener queues a linear fade to `pan`.
pub open spec fn sepan_live(a: LiveState, b: LiveState, slot: u32, pan: Pan, fade: u32) -> bool {
    &&& b.layer_tweeners@ == a.layer_tweeners@
    &&& b.se_volume@ == a.se_volume@
    &&& b.text_shown == a.text_shown
    &&& b.se_pan@.len() == a.se_pan@.len()
    &&& b.se_pan@[slot as int]@ == enqueue_spec(
        a.se_pan@[slot as int]@,
        Segment { target: pan.0, tween: Tween::linear_spec(fade) },
    )
    &&& forall|j: int|
        0 <= j < a.se_pan@.len() && j != slot ==> #[trigger] b.se_pan@[j] == a.se_pan@[j]
}

/// SEPLAY's effect: the slot's volume fades in from silence, its pan is set.
pub open spec fn seplay_live(
    a: LiveState,
    b: LiveState,
    slot: u32,
    volume: Volume,
    pan: Pan,
    fade: u32,
) -> bool {
    &&& b.layer_tweeners@ == a.layer_tweeners@
    &&& b.text_shown == a.text_shown
    &&& b.se_volume@.len() == a.se_volume@.len()
    &&& b.se_pan@.len() == a.se_pan@.len()
    &&& b.se_volume@[slot as int]@ == enqueue_spec(
        TweenerView { value: 0, start: 0, elapsed: 0, queue: Seq::empty() },
        Segment { target: volume.0, tween: Tween::linear_spec(fade) },
    )
    &&& b.se_pan@[slot as int]@ == (TweenerView {
        value: pan.0 as int,
        start: pan.0 as int,
        elapsed: 0,
        queue: Seq::empty(),
    })
    &&& forall|j: int|
        0 <= j < a.se_pan@.len() && j != slot ==> #[trigger] b.se_pan@[j] == a.se_pan@[j]
            && b.se_volume@[j] == a.se_volume@[j]
}

/// SESTOP's effect: the slot's volume tweener queues a linear fade to silence.
pub open spec fn sestop_live(a: LiveState, b: LiveState, slot: u32, fade: u32) -> bool {
    &&& b.layer_tweeners@ == a.layer_tweeners@
    &&& b.se_pan@ == a.se_pan@
    &&& b.text_shown == a.text_shown
    &&& b.se_volume@.len() == a.se_volume@.len()
    &&& b.se_volume@[slot as int]@ == enqueue_spec(
        a.se_volume@[slot as int]@,
        Segment { target: 0, tween: Tween::linear_spec(fade) },
    )
    &&& forall|j: int|
        0 <= j < a.se_volume@.len() && j != slot ==> #[trigger] b.se_volume@[j] == a.se_volume@[j]
}

/// LAYERLOAD's effect: the layer's property tweeners rest at zero.
pub open spec fn layerload_live(a: LiveState, b: LiveState, layer: u32) -> bool {
    &&& b.se_volume@ == a.se_volume@
    &&& b.se_pan@ == a.se_pan@
    &&& b.text_shown == a.text_shown
    &&& b.layer_tweeners@.len() == a.layer_tweeners@.len()
    &&& forall|i: int|
        0 <= i < a.layer_tweeners@.len() ==> if prop_index(layer as int, 0) <= i < prop_index(
            layer as int,
            PROPERTY_COUNT as int,
        ) {
            (#[trigger] b.layer_tweeners@[i])@ == (TweenerView {
                value: 0,
                start: 0,
                elapsed: 0,
                queue: Seq::empty(),
            })
        } else {
            b.layer_tweeners@[i] == a.layer_tweeners@[i]
        }
}

/// LAYERCTRL's effect once its flags are accepted: the fold over the
/// resolved layers, and its warnings.
pub open spec fn layerctrl_live(
    s: CommittedView,
    a: LiveState,
    b: LiveState,
    w: Seq<Warning>,
    layer: VLayerId,
    property: u32,
    target: i32,
    time: i32,
    flags: i32,
    easing_param: i32,
) -> bool {
    match ctrl_check(flags, easing_param) {
        Err(_) => true,
        Ok(easing) => {
            let seg = Segment { target, tween: Tween { duration: ticks_of(time), easing } };
            let (vs, changed) = ctrl_fold(
                views(a.layer_tweeners@),
                resolve_spec(s, layer),
                property as int,
                ctrl_flags_of(flags),
                seg,
            );
            &&& b.se_volume@ == a.se_volume@
            &&& b.se_pan@ == a.se_pan@
            &&& b.text_shown == a.text_shown
            &&& views(b.layer_tweeners@) == vs
            &&& w == layerctrl_warnings(ctrl_flags_of(flags), property, target, changed)
        },
    }
}

/// What a successful start of `c` does to the presentation state, from `a`
/// to `b`, reading committed state `s`, and the warnings `w` it gives.
pub open spec fn start_live_spec(
    c: Command,
    s: CommittedView,
    a: LiveState,
    b: LiveState,
    w: Seq<Warning>,
) -> bool {
    match c {
        Command::LAYERCTRL { layer, property, target, time, flags, easing_param } => layerctrl_live(
            s,
            a,
            b,
            w,
            layer,
            property,
            target,
            time,
            flags,
            easing_param,
        ),
        Command::SEPLAY { slot, volume, pan, fade_in, .. } => seplay_live(
            a,
            b,
            slot,
            volume,
            pan,
            fade_in,
        ) && w.len() == 0,
        Command::SESTOP { slot, fade_out } => sestop_live(a, b, slot, fade_out) && w.len() == 0,
        Command::SEPAN { slot, pan, fade_in_time } => sepan_live(a, b, slot, pan, fade_in_time)
            && w.len() == 0,
        Command::LAYERLOAD { layer, .. } => layerload_live(a, b, layer) && w.len() == 0,
        Command::MSGSET { .. } | Command::MSGCLOSE => text_reset(a, b) && w.len() == 0,
        _ => live_unchanged(a, b) && w.len() == 0,
    }
}

/// The tweeners of `old` with the one at `i` replaced by `t`, all well formed.
proof fn lemma_replace_keeps_wf(old: Seq<Tweener>, new: Seq<Tweener>, i: int)
    requires
        tweeners_wf(old),
        0 <= i < old.len(),
        new.len() == old.len(),
        new[i].wf(),
        forall|j: int| 0 <= j < old.len() && j != i ==> new[j] == old[j],
    ensures
        tweeners_wf(new),
{
    assert forall|j: int| 0 <= j < new.len() implies (#[trigger] new[j]).wf() by {
        if j != i {
            assert(new[j] == old[j]);
        }
    }
}

/// Presentational start of SEPAN: the slot's pan fades linearly to `pan`.
pub fn start_sepan(live: &mut LiveState, slot: u32, pan: Pan, fade_in_time: u32)
    requires
        old(live).wf(),
        slot < SE_SLOTS,
    ensures
        final(live).wf(),
        sepan_live(*old(live), *final(live), slot, pan, fade_in_time),
{
    let ghost before = live.se_pan@;
    assert(before[slot as int].wf());
    live.se_pan[slot as usize].enqueue(pan.0, Tween::linear(fade_in_time));
    proof {
        lemma_replace_keeps_wf(before, live.se_pan@, slot as int);
    }
}

/// Presentational start of SEPLAY: the volume fades in from silence, the pan
/// is set at once.
pub fn start_seplay(live: &mut LiveState, slot: u32, volume: Volume, pan: Pan, fade_in: u32)
    requires
        old(live).wf(),
        slot < SE_SLOTS,
    ensures
        final(live).wf(),
        seplay_live(*old(live), *final(live), slot, volume, pan, fade_in),
{
    let ghost vol_before = live.se_volume@;
    let ghost pan_before = live.se_pan@;
    let mut v = Tweener::new(0);
    v.enqueue(volume.0, Tween::linear(fade_in));
    live.se_volume.set(slot as usize, v);
    live.se_pan.set(slot as usize, Tweener::new(pan.0));
    proof {
        lemma_replace_keeps_wf(vol_before, live.se_volume@, slot as int);
        lemma_replace_keeps_wf(pan_before, live.se_pan@, slot as int);
    }
}

/// Presentational start of SESTOP: the volume fades out to silence.
pub fn start_sestop(live: &mut LiveState, slot: u32, fade_out: u32)
    requires
        old(live).wf(),
        slot < SE_SLOTS,
    ensures
        final(live).wf(),
        sestop_live(*old(live), *final(live), slot, fade_out),
{
    let ghost before = live.se_volume@;
    assert(before[slot as int].wf());
    live.se_volume[slot as usize].enqueue(0, Tween::linear(fade_out));
    proof {
        lemma_replace_keeps_wf(before, live.se_volume@, slot as int);
    }
}

/// Presentational start of LAYERLOAD: every property tweener of the layer
/// rests at zero, as the freshly loaded layer's properties are.
pub fn start_layerload(live: &mut LiveState, layer: u32)
    requires
        old(live).wf(),
        layer < LAYERS_COUNT,
    ensures
        final(live).wf(),
        layerload_live(*old(live), *final(live), layer),
{
    let mut p: u32 = 0;
    while p < PROPERTY_COUNT
        invariant
            live.wf(),
            layer < LAYERS_COUNT,
            p <= PROPERTY_COUNT,
            live.se_volume@ == old(live).se_volume@,
            live.se_pan@ == old(live).se_pan@,
            live.text_shown == old(live).text_shown,
            forall|i: int|
                0 <= i < LAYERS_COUNT * PROPERTY_COUNT ==> if prop_index(layer as int, 0) <= i
                    < prop_index(layer as int, p as int) {
                    (#[trigger] live.layer_tweeners@[i])@ == (TweenerView {
                        value: 0,
                        start: 0,
                        elapsed: 0,
                        queue: Seq::empty(),
                    })
                } else {
                    live.layer_tweeners@[i] == old(live).layer_tweeners@[i]
                },
        decreases PROPERTY_COUNT - p,
    {
        let ghost before = live.layer_tweeners@;
        let i = (layer * PROPERTY_COUNT + p) as usize;
        live.layer_tweeners.set(i, Tweener::new(0));
        proof {
            lemma_replace_keeps_wf(before, live.layer_tweeners@, i as int);
        }
        p = p + 1;
    }
}

/// The dispatch contract every command kind meets.
pub trait StartableCommand: Sized {
    /// The canonical mutation, as a function of the committed state.
    spec fn canonical(&self, s: CommittedView) -> Result<CommittedView, ValidationError>;

    /// How the presentational start ends.
    spec fn start_outcome(&self) -> Result<CommandStartResult, ValidationError>;

    /// What a successful start does to the presentation state, from `a` to
    /// `b`, reading committed state `s`, and the warnings `w` it gives.
    spec fn started_live(
        &self,
        s: CommittedView,
        a: LiveState,
        b: LiveState,
        w: Seq<Warning>,
    ) -> bool;

    /// Applies the canonical mutation; on an error nothing changes.
    fn apply_state(&self, state: &mut CommittedState) -> (r: Result<(), ValidationError>)
        requires
            old(state).wf(),
        ensures
            final(state).wf(),
            match self.canonical(old(state)@) {
                Ok(t) => r is Ok && final(state)@ == t,
                Err(e) => r == Err::<(), ValidationError>(e) && final(state)@ == old(state)@,
            },
    ;

    /// Runs the presentational effects against the live state, reading the
    /// committed state, which it never changes.
    fn start(self, committed: &CommittedState, live: &mut LiveState) -> (r: Result<
        Started,
        ValidationError,
    >)
        requires
            committed.wf(),
            old(live).wf(),
        ensures
            final(live).wf(),
            match self.start_outcome() {
                Ok(res) => r matches Ok(st) && st.result == res,
                Err(e) => r is Err && r->Err_0 == e,
            },
            r is Ok ==> self.started_live(committed@, *old(live), *final(live), r->Ok_0.warnings@),
            r is Err ==> live_unchanged(*old(live), *final(live)),
    ;
}

impl StartableCommand for Command {
    open spec fn canonical(&self, s: CommittedView) -> Result<CommittedView, ValidationError> {
        apply_spec(s, *self)
    }

    open spec fn start_outcome(&self) -> Result<CommandStartResult, ValidationError> {
        start_spec(*self)
    }

    open spec fn started_live(
        &self,
        s: CommittedView,
        a: LiveState,
        b: LiveState,
        w: Seq<Warning>,
    ) -> bool {
        start_live_spec(*self, s, a, b, w)
    }

    fn apply_state(&self, state: &mut CommittedState) -> (r: Result<(), ValidationError>) {
        state.apply(self)
    }

    fn start(self, committed: &CommittedState, live: &mut LiveState) -> (r: Result<
        Started,
        ValidationError,
    >) {
        if let Some(e) = check_operands(&self) {
            return Err(e);
        }
        let done = CommandStartResult::from(CommandResult::Done);
        match self {
            Command::EXIT => Ok(Started { result: CommandStartResult::Exit, warnings: Vec::new() }),
            Command::WAIT { ticks } => {
                let result = if ticks == 0 {
                    done
                } else {
                    CommandStartResult::from(ExecutingCommand::WAIT { remaining: ticks })
                };
                Ok(Started { result, warnings: Vec::new() })
            },
            Command::MSGSET { text_len, .. } => {
                live.text_shown = 0;
                let result = if text_len == 0 {
                    done
                } else {
                    CommandStartResult::from(ExecutingCommand::MSGSET { shown: 0, text_len })
                };
                Ok(Started { result, warnings: Vec::new() })
            },
            Command::MSGCLOSE => {
                live.text_shown = 0;
                Ok(Started { result: done, warnings: Vec::new() })
            },
            Command::SEPLAY { slot, volume, pan, fade_in, .. } => {
                start_seplay(live, slot, volume, pan, fade_in);
                Ok(Started { result: done, warnings: Vec::new() })
            },
            Command::SESTOP { slot, fade_out } => {
                start_sestop(live, slot, fade_out);
                Ok(Started { result: done, warnings: Vec::new() })
            },
            Command::SEPAN { slot, pan, fade_in_time } => {
                start_sepan(live, slot, pan, fade_in_time);
                Ok(Started { result: done, warnings: Vec::new() })
            },
            Command::LAYERLOAD { layer, .. } => {
                start_layerload(live, layer);
                Ok(Started { result: done, warnings: Vec::new() })
            },
            Command::LAYERCTRL { layer, property, target, time, flags, easing_param } => {
                match start_layerctrl(
                    committed,
                    live,
                    layer,
                    property,
                    target,
                    time,
                    flags,
                    easing_param,
                ) {
                    Ok(warnings) => Ok(Started { result: done, warnings }),
                    Err(e) => Err(e),
                }
            },
            _ => Ok(Started { result: done, warnings: Vec::new() }),
        }
    }
}

/// A command that runs over several ticks.
pub trait UpdatableCommand: Sized {
    /// One poll: the next progress, and the result once done.
    spec fn polled(&self) -> (Self, Option<CommandResult>);

    /// The paced-text cursor after one poll, from `shown`.
    spec fn text_after(&self, shown: u32) -> u32;

    /// Polls the command once for this tick.
    fn update(&mut self, live: &mut LiveState) -> (r: Option<CommandResult>)
        requires
            old(live).wf(),
        ensures
            final(live).wf(),
            (*final(self), r) == old(self).polled(),
            final(live).text_shown == old(self).text_after(old(live).text_shown),
            final(live).layer_tweeners@ == old(live).layer_tweeners@,
            final(live).se_volume@ == old(live).se_volume@,
            final(live).se_pan@ == old(live).se_pan@,
    ;
}

impl UpdatableCommand for ExecutingCommand {
    open spec fn polled(&self) -> (ExecutingCommand, Option<CommandResult>) {
        update_spec(*self)
    }

    open spec fn text_after(&self, shown: u32) -> u32 {
        text_after_spec(*self, shown)
    }

    fn update(&mut self, live: &mut LiveState) -> (r: Option<CommandResult>) {
        match *self {
            ExecutingCommand::WAIT { remaining } => {
                if remaining <= 1 {
                    *self = ExecutingCommand::WAIT { remaining: 0 };
                    Some(CommandResult::Done)
                } else {
                    *self = ExecutingCommand::WAIT { remaining: remaining - 1 };
                    None
                }
            },
            ExecutingCommand::MSGSET { shown, text_len } => {
                let n = if shown as u64 + CHARS_PER_TICK as u64 >= text_len as u64 {
                    text_len
                } else {
                    shown + CHARS_PER_TICK
                };
                live.text_shown = n;
                *self = ExecutingCommand::MSGSET { shown: n, text_len };
                if n >= text_len {
                    Some(CommandResult::Done)
                } else {
                    None
                }
            },
        }
    }
}

} // verus!
