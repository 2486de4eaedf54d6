//! Typed command operands decoded from scenario numbers.
use vstd::prelude::*;

verus! {

/// Why a command's operands were refused.
#[derive(Debug, Clone, Copy, PartialEq, Eq, Structural)]
pub enum ValidationError {
    /// Reserved flag bits are set.
    ReservedFlags(i32),
    /// Both "fast-forward to current" and "fast-forward to target" are requested.
    ConflictingFastForward,
    UnknownEasing(i32),
    InvalidLayerType(i32),
    NegativeMessageboxStyle(i32),
    InvalidMessageboxType(i32),
    InvalidTextLayout(i32),
    LayerOutOfRange(u32),
    PropertyOutOfRange(u32),
    AudioSlotOutOfRange(u32),
    VariableOutOfRange(u32),
}

#[derive(Debug, Clone, Copy, PartialEq, Eq, Structural)]
pub enum LayerType {
    Null,
    Tile,
    Picture,
    Bustup,
    Animation,
    Effect,
    Movie,
    FocusLine,
    Rain,
    Quiz,
}

/// The layer type with scenario number `n`, if there is one.
pub open spec fn layer_type_of(n: int) -> Option<LayerType> {
    if n == 0 {
        Some(LayerType::Null)
    } else if n == 1 {
        Some(LayerType::Tile)
    } else if n == 2 {
        Some(LayerType::Picture)
    } else if n == 3 {
        Some(LayerType::Bustup)
    } else if n == 4 {
        Some(LayerType::Animation)
    } else if n == 5 {
        Some(LayerType::Effect)
    } else if n == 6 {
        Some(LayerType::Movie)
    } else if n == 7 {
        Some(LayerType::FocusLine)
    } else if n == 8 {
        Some(LayerType::Rain)
    } else if n == 9 {
        Some(LayerType::Quiz)
    } else {
        None
    }
}

impl LayerType {
    /// Decodes a layer type; numbers outside `0..=9` are refused.
    pub fn from_number(n: i32) -> (r: Result<LayerType, ValidationError>)
        ensures
            layer_type_of(n as int) matches Some(t) ==> r == Ok::<LayerType, ValidationError>(t),
            layer_type_of(n as int) is None ==> r == Err::<LayerType, ValidationError>(
                ValidationError::InvalidLayerType(n),
            ),
    {
        match n {
            0 => Ok(LayerType::Null),
            1 => Ok(LayerType::Tile),
            2 => Ok(LayerType::Picture),
            3 => Ok(LayerType::Bustup),
            4 => Ok(LayerType::Animation),
            5 => Ok(LayerType::Effect),
            6 => Ok(LayerType::Movie),
            7 => Ok(LayerType::FocusLine),
            8 => Ok(LayerType::Rain),
            9 => Ok(LayerType::Quiz),
            _ => Err(ValidationError::InvalidLayerType(n)),
        }
    }
}

#[derive(Debug, Clone, Copy, PartialEq, Eq, Structural)]
pub enum MessageboxType {
    Neutral,
    WitchSpace,
    Ushiromiya,
    Transparent,
    Novel,
    NoText,
}

#[derive(Debug, Clone, Copy, PartialEq, Eq, Structural)]
pub enum MessageTextLayout {
    Left,
    /// Lays text out as `Left` does, as far as is known.
    Layout1,
    Center,
    Right,
}

pub open spec fn messagebox_type_of(n: int) -> Option<MessageboxType> {
    if n == 0 {
        Some(MessageboxType::Neutral)
    } else if n == 1 {
        Some(MessageboxType::WitchSpace)
    } else if n == 2 {
        Some(MessageboxType::Ushiromiya)
    } else if n == 3 {
        Some(MessageboxType::Transparent)
    } else if n == 4 {
        Some(MessageboxType::Novel)
    } else if n == 5 {
        Some(MessageboxType::NoText)
    } else {
        None
    }
}

pub open spec fn text_layout_of(n: int) -> Option<MessageTextLayout> {
    if n == 0 {
        Some(MessageTextLayout::Left)
    } else if n == 1 {
        Some(MessageTextLayout::Layout1)
    } else if n == 2 {
        Some(MessageTextLayout::Center)
    } else if n == 3 {
        Some(MessageTextLayout::Right)
    } else {
        None
    }
}

fn messagebox_type_from(n: i32) -> (r: Option<MessageboxType>)
    ensures
        r == messagebox_type_of(n as int),
{
    match n {
        0 => Some(MessageboxType::Neutral),
        1 => Some(MessageboxType::WitchSpace),
        2 => Some(MessageboxType::Ushiromiya),
        3 => Some(MessageboxType::Transparent),
        4 => Some(MessageboxType::Novel),
        5 => Some(MessageboxType::NoText),
        _ => None,
    }
}

fn text_layout_from(n: i32) -> (r: Option<MessageTextLayout>)
    ensures
        r == text_layout_of(n as int),
{
    match n {
        0 => Some(MessageTextLayout::Left),
        1 => Some(MessageTextLayout::Layout1),
        2 => Some(MessageTextLayout::Center),
        3 => Some(MessageTextLayout::Right),
        _ => None,
    }
}

/// Look of the messagebox: its type in the low nibble of the operand, the
/// text layout in the next nibble.
#[derive(Debug, Clone, Copy, PartialEq, Eq, Structural)]
pub struct MessageboxStyle {
    pub messagebox_type: MessageboxType,
    pub text_layout: MessageTextLayout,
}

/// The style packed in `v`, or the error decoding it gives.
pub open spec fn messagebox_style_of(v: int) -> Result<MessageboxStyle, ValidationError> {
    let ty = v % 16;
    let layout = (v / 16) % 16;
    if v < 0 {
        Err(ValidationError::NegativeMessageboxStyle(v as i32))
    } else if messagebox_type_of(ty) is None {
        Err(ValidationError::InvalidMessageboxType(ty as i32))
    } else if text_layout_of(layout) is None {
        Err(ValidationError::InvalidTextLayout(layout as i32))
    } else {
        Ok(
            MessageboxStyle {
                messagebox_type: messagebox_type_of(ty)->Some_0,
                text_layout: text_layout_of(layout)->Some_0,
            },
        )
    }
}

impl MessageboxStyle {
    /// Decodes a packed style operand.
    pub fn from_number(v: i32) -> (r: Result<MessageboxStyle, ValidationError>)
        ensures
            r == messagebox_style_of(v as int),
    {
        if v < 0 {
            return Err(ValidationError::NegativeMessageboxStyle(v));
        }
        let ty = v % 16;
        let layout = (v / 16) % 16;
        match messagebox_type_from(ty) {
            None => Err(ValidationError::InvalidMessageboxType(ty)),
            Some(messagebox_type) => match text_layout_from(layout) {
                None => Err(ValidationError::InvalidTextLayout(layout)),
                Some(text_layout) => Ok(MessageboxStyle { messagebox_type, text_layout }),
            },
        }
    }
}

impl Default for MessageboxStyle {
    fn default() -> (r: MessageboxStyle)
        ensures
            r == (MessageboxStyle {
                messagebox_type: MessageboxType::Neutral,
                text_layout: MessageTextLayout::Left,
            }),
    {
        MessageboxStyle { messagebox_type: MessageboxType::Neutral, text_layout: MessageTextLayout::Left }
    }
}

/// Full volume, in thousandths.
pub const VOLUME_MAX: i32 = 1000;

/// Hard right pan, in thousandths; hard left is its negation.
pub const PAN_MAX: i32 = 1000;

/// A volume in thousandths, `0..=VOLUME_MAX`.
#[derive(Debug, Clone, Copy, PartialEq, Eq, Structural)]
pub struct Volume(pub i32);

/// A pan in thousandths, `-PAN_MAX..=PAN_MAX`; `0` is the center.
#[derive(Debug, Clone, Copy, PartialEq, Eq, Structural)]
pub struct Pan(pub i32);

pub open spec fn clamp(n: int, lo: int, hi: int) -> int {
    if n < lo {
        lo
    } else if n > hi {
        hi
    } else {
        n
    }
}

impl Volume {
    /// The operand as a volume, clamped into range.
    pub fn from_number(n: i32) -> (r: Volume)
        ensures
            r.0 as int == clamp(n as int, 0, VOLUME_MAX as int),
    {
        if n < 0 {
            Volume(0)
        } else if n > VOLUME_MAX {
            Volume(VOLUME_MAX)
        } else {
            Volume(n)
        }
    }
}

impl Default for Volume {
    fn default() -> (r: Volume)
        ensures
            r.0 == VOLUME_MAX,
    {
        Volume(VOLUME_MAX)
    }
}

impl Pan {
    /// The operand as a pan, clamped into range.
    pub fn from_number(n: i32) -> (r: Pan)
        ensures
            r.0 as int == clamp(n as int, -PAN_MAX as int, PAN_MAX as int),
    {
        if n < -PAN_MAX {
            Pan(-PAN_MAX)
        } else if n > PAN_MAX {
            Pan(PAN_MAX)
        } else {
            Pan(n)
        }
    }
}

impl Default for Pan {
    fn default() -> (r: Pan)
        ensures
            r.0 == 0,
    {
        Pan(0)
    }
}

} // verus!
