//! Packed operand flags of LAYERCTRL and how they are classified: reserved
//! bits and contradictions are refused, known but unsupported bits only warn.
use vstd::prelude::*;
use crate::time::Easing;
use crate::types::ValidationError;

verus! {

/// A soft problem: the command goes on as if the feature were not asked for.
#[derive(Debug, Clone, Copy, PartialEq, Eq, Structural)]
pub enum Warning {
    ScaleTimeUnsupported,
    DeltaUnsupported,
    ProhibitFastForwardUnsupported,
    IgnoreWaitUnsupported,
    /// A property that is stored but not rendered changed value.
    PropertyNotImplemented { property: u32, value: i32 },
}

/// The fields of a LAYERCTRL flags operand.
#[derive(Debug, Clone, Copy, PartialEq, Eq, Structural)]
pub struct CtrlFlags {
    /// Bits 0..6: the easing curve.
    pub easing: i32,
    /// Bit 6.
    pub scale_time: bool,
    /// Bit 7.
    pub delta: bool,
    /// Bit 8: settle the running animation where it is before queueing.
    pub ff_to_current: bool,
    /// Bit 9: finish the queued animations before queueing.
    pub ff_to_target: bool,
    /// Bits 10..12, reserved.
    pub unused_1: u32,
    /// Bit 12.
    pub prohibit_fast_forward: bool,
    /// Bits 13..16, reserved.
    pub unused_2: u32,
    /// Bit 16.
    pub ignore_wait: bool,
    /// Bits 17..32, reserved.
    pub unused_3: u32,
}

pub open spec fn ctrl_flags_of(flags: i32) -> CtrlFlags {
    let b = flags as u32;
    CtrlFlags {
        easing: (b & 0x3f) as i32,
        scale_time: (b >> 6u32) & 1 == 1,
        delta: (b >> 7u32) & 1 == 1,
        ff_to_current: (b >> 8u32) & 1 == 1,
        ff_to_target: (b >> 9u32) & 1 == 1,
        unused_1: (b >> 10u32) & 3,
        prohibit_fast_forward: (b >> 12u32) & 1 == 1,
        unused_2: (b >> 13u32) & 7,
        ignore_wait: (b >> 16u32) & 1 == 1,
        unused_3: b >> 17u32,
    }
}

impl CtrlFlags {
    /// Splits a flags operand into its fields.
    pub fn from_bits(flags: i32) -> (r: CtrlFlags)
        ensures
            r == ctrl_flags_of(flags),
    {
        let b = flags as u32;
        CtrlFlags {
            easing: (b & 0x3f) as i32,
            scale_time: (b >> 6u32) & 1 == 1,
            delta: (b >> 7u32) & 1 == 1,
            ff_to_current: (b >> 8u32) & 1 == 1,
            ff_to_target: (b >> 9u32) & 1 == 1,
            unused_1: (b >> 10u32) & 3,
            prohibit_fast_forward: (b >> 12u32) & 1 == 1,
            unused_2: (b >> 13u32) & 7,
            ignore_wait: (b >> 16u32) & 1 == 1,
            unused_3: b >> 17u32,
        }
    }
}

/// The easing with code `code`; `Power` takes its exponent from `param`.
pub open spec fn easing_of(code: i32, param: i32) -> Option<Easing> {
    if code == 0 {
        Some(Easing::Linear)
    } else if code == 1 {
        Some(Easing::SineIn)
    } else if code == 2 {
        Some(Easing::SineOut)
    } else if code == 3 {
        Some(Easing::SineInOut)
    } else if code == 4 {
        Some(Easing::Jump)
    } else if code == 5 {
        Some(Easing::Power(param))
    } else {
        None
    }
}

/// Decodes an easing code.
pub fn easing_from(code: i32, param: i32) -> (r: Option<Easing>)
    ensures
        r == easing_of(code, param),
{
    match code {
        0 => Some(Easing::Linear),
        1 => Some(Easing::SineIn),
        2 => Some(Easing::SineOut),
        3 => Some(Easing::SineInOut),
        4 => Some(Easing::Jump),
        5 => Some(Easing::Power(param)),
        _ => None,
    }
}

/// The easing a LAYERCTRL flags operand asks for, or why it is refused:
/// reserved bits first, then contradictory fast-forward requests, then an
/// unknown easing. Unsupported bits are not refused; they only warn.
pub open spec fn ctrl_check(flags: i32, easing_param: i32) -> Result<Easing, ValidationError> {
    let f = ctrl_flags_of(flags);
    if f.unused_1 != 0 || f.unused_2 != 0 || f.unused_3 != 0 {
        Err(ValidationError::ReservedFlags(flags))
    } else if f.ff_to_current && f.ff_to_target {
        Err(ValidationError::ConflictingFastForward)
    } else if easing_of(f.easing, easing_param) is None {
        Err(ValidationError::UnknownEasing(f.easing))
    } else {
        Ok(easing_of(f.easing, easing_param)->Some_0)
    }
}

/// The warnings for the known but unsupported bits that are set, in bit order.
pub open spec fn flag_warnings(f: CtrlFlags) -> Seq<Warning> {
    let s0 = Seq::<Warning>::empty();
    let s1 = if f.scale_time {
        s0.push(Warning::ScaleTimeUnsupported)
    } else {
        s0
    };
    let s2 = if f.delta {
        s1.push(Warning::DeltaUnsupported)
    } else {
        s1
    };
    let s3 = if f.prohibit_fast_forward {
        s2.push(Warning::ProhibitFastForwardUnsupported)
    } else {
        s2
    };
    if f.ignore_wait {
        s3.push(Warning::IgnoreWaitUnsupported)
    } else {
        s3
    }
}

/// Classifies every bit of a flags operand: the easing to use, or the error.
pub fn check_ctrl_flags(f: &CtrlFlags, flags: i32, easing_param: i32) -> (r: Result<
    Easing,
    ValidationError,
>)
    requires
        *f == ctrl_flags_of(flags),
    ensures
        r == ctrl_check(flags, easing_param),
{
    if f.unused_1 != 0 || f.unused_2 != 0 || f.unused_3 != 0 {
        return Err(ValidationError::ReservedFlags(flags));
    }
    if f.ff_to_current && f.ff_to_target {
        return Err(ValidationError::ConflictingFastForward);
    }
    let easing = match easing_from(f.easing, easing_param) {
        Some(e) => e,
        None => {
            return Err(ValidationError::UnknownEasing(f.easing));
        },
    };
    Ok(easing)
}

/// The warnings for the unsupported bits of `f`.
pub fn ctrl_warnings(f: &CtrlFlags) -> (r: Vec<Warning>)
    ensures
        r@ == flag_warnings(*f),
{
    let mut r: Vec<Warning> = Vec::new();
    if f.scale_time {
        r.push(Warning::ScaleTimeUnsupported);
    }
    if f.delta {
        r.push(Warning::DeltaUnsupported);
    }
    if f.prohibit_fast_forward {
        r.push(Warning::ProhibitFastForwardUnsupported);
    }
    if f.ignore_wait {
        r.push(Warning::IgnoreWaitUnsupported);
    }
    r
}

} // verus!
