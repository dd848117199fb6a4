//! Input event records and their classification.
//!
//! An [`InputEvent`] is the raw triple reported by a device: an event type,
//! a code within that type, and a signed value. Classification turns the
//! raw numbers into a closed enumeration per event type; every code that the
//! table does not list maps to that enumeration's designated unknown
//! sentinel, so classification is total and never fails on foreign codes.

use vstd::prelude::*;

verus! {

/// Event type number for synchronization events.
pub const EV_SYN: u16 = 0;

/// Event type number for key and button events.
pub const EV_KEY: u16 = 1;

/// Event type number for relative-axis events.
pub const EV_REL: u16 = 2;

/// Code of the synchronization event that terminates one hardware batch.
pub const SYN_REPORT_CODE: u16 = 0;

/// Key code reserved as the sink-switching hotkey (`KeyF15`).
pub const HOTKEY_CODE: u16 = 185;

/// One hardware input event: a key transition, a relative-axis step, or a
/// synchronization marker, exactly as a device reports it.
#[derive(Copy, Clone, Debug, PartialEq, Eq, Structural)]
pub struct InputEvent {
    pub type_: u16,
    pub code: u16,
    pub value: i32,
}

/// The classes of event the hub routes, derived from `type_`.
#[derive(Copy, Clone, Debug, PartialEq, Eq, Structural)]
pub enum EventType {
    EvSyn,
    EvKey,
    EvRel,
    EvUnknown,
}

/// Synchronization event codes.
#[derive(Copy, Clone, Debug, PartialEq, Eq, Structural)]
pub enum Syn {
    SynReport,
    SynConfig,
    SynMtReport,
    SynDropped,
    SynUnknown,
}

/// Key and button codes the hub recognizes; everything else is `KeyUnknown`.
#[derive(Copy, Clone, Debug, PartialEq, Eq, Structural)]
pub enum Key {
    KeyReserved,
    KeyEsc,
    KeyBackspace,
    KeyTab,
    KeyEnter,
    KeyLeftCtrl,
    KeyA,
    KeyB,
    KeyC,
    KeyD,
    KeyE,
    KeyF,
    KeyG,
    KeyH,
    KeyI,
    KeyJ,
    KeyK,
    KeyL,
    KeyM,
    KeyN,
    KeyO,
    KeyP,
    KeyQ,
    KeyR,
    KeyS,
    KeyT,
    KeyU,
    KeyV,
    KeyW,
    KeyX,
    KeyY,
    KeyZ,
    KeyLeftShift,
    KeyRightShift,
    KeyLeftAlt,
    KeySpace,
    KeyCapsLock,
    KeyF1,
    KeyF2,
    KeyF3,
    KeyF4,
    KeyF5,
    KeyF6,
    KeyF7,
    KeyF8,
    KeyF9,
    KeyF10,
    KeyF11,
    KeyF12,
    KeyF13,
    KeyF14,
    KeyF15,
    KeyF16,
    KeyF17,
    KeyF18,
    KeyF19,
    KeyF20,
    KeyF21,
    KeyF22,
    KeyF23,
    KeyF24,
    KeyUp,
    KeyLeft,
    KeyRight,
    KeyDown,
    BtnLeft,
    BtnRight,
    BtnMiddle,
    KeyUnknown,
}

/// Relative-axis codes.
#[derive(Copy, Clone, Debug, PartialEq, Eq, Structural)]
pub enum RelAxis {
    RelX,
    RelY,
    RelZ,
    RelRx,
    RelRy,
    RelRz,
    RelHwheel,
    RelDial,
    RelWheel,
    RelMisc,
    RelReserved,
    RelWheelHiRes,
    RelHwheelHiRes,
    RelUnknown,
}

/// An [`InputEvent`] classified by type and code.
#[derive(Copy, Clone, Debug, PartialEq, Eq, Structural)]
pub enum InputEventKind {
    SynEvent(Syn),
    KeyEvent(Key),
    RelEvent(RelAxis),
    UnknownEvent,
}

/// Which class an event type number falls in.
pub open spec fn event_type_spec(t: u16) -> EventType {
    if t == EV_SYN {
        EventType::EvSyn
    } else if t == EV_KEY {
        EventType::EvKey
    } else if t == EV_REL {
        EventType::EvRel
    } else {
        EventType::EvUnknown
    }
}

/// The synchronization code table; unlisted codes map to the sentinel.
pub open spec fn syn_from_code_spec(c: u16) -> Syn {
    if c == 0 {
        Syn::SynReport
    } else if c == 1 {
        Syn::SynConfig
    } else if c == 2 {
        Syn::SynMtReport
    } else if c == 3 {
        Syn::SynDropped
    } else {
        Syn::SynUnknown
    }
}

/// The key code table; unlisted codes map to the sentinel.
pub open spec fn key_from_code_spec(c: u16) -> Key {
    match c {
        0u16 => Key::KeyReserved,
        1u16 => Key::KeyEsc,
        14u16 => Key::KeyBackspace,
        15u16 => Key::KeyTab,
        28u16 => Key::KeyEnter,
        29u16 => Key::KeyLeftCtrl,
        30u16 => Key::KeyA,
        48u16 => Key::KeyB,
        46u16 => Key::KeyC,
        32u16 => Key::KeyD,
        18u16 => Key::KeyE,
        33u16 => Key::KeyF,
        34u16 => Key::KeyG,
        35u16 => Key::KeyH,
        23u16 => Key::KeyI,
        36u16 => Key::KeyJ,
        37u16 => Key::KeyK,
        38u16 => Key::KeyL,
        50u16 => Key::KeyM,
        49u16 => Key::KeyN,
        24u16 => Key::KeyO,
        25u16 => Key::KeyP,
        16u16 => Key::KeyQ,
        19u16 => Key::KeyR,
        31u16 => Key::KeyS,
        20u16 => Key::KeyT,
        22u16 => Key::KeyU,
        47u16 => Key::KeyV,
        17u16 => Key::KeyW,
        45u16 => Key::KeyX,
        21u16 => Key::KeyY,
        44u16 => Key::KeyZ,
        42u16 => Key::KeyLeftShift,
        54u16 => Key::KeyRightShift,
        56u16 => Key::KeyLeftAlt,
        57u16 => Key::KeySpace,
        58u16 => Key::KeyCapsLock,
        59u16 => Key::KeyF1,
        60u16 => Key::KeyF2,
        61u16 => Key::KeyF3,
        62u16 => Key::KeyF4,
        63u16 => Key::KeyF5,
        64u16 => Key::KeyF6,
        65u16 => Key::KeyF7,
        66u16 => Key::KeyF8,
        67u16 => Key::KeyF9,
        68u16 => Key::KeyF10,
        87u16 => Key::KeyF11,
        88u16 => Key::KeyF12,
        183u16 => Key::KeyF13,
        184u16 => Key::KeyF14,
        185u16 => Key::KeyF15,
        186u16 => Key::KeyF16,
        187u16 => Key::KeyF17,
        188u16 => Key::KeyF18,
        189u16 => Key::KeyF19,
        190u16 => Key::KeyF20,
        191u16 => Key::KeyF21,
        192u16 => Key::KeyF22,
        193u16 => Key::KeyF23,
        194u16 => Key::KeyF24,
        103u16 => Key::KeyUp,
        105u16 => Key::KeyLeft,
        106u16 => Key::KeyRight,
        108u16 => Key::KeyDown,
        272u16 => Key::BtnLeft,
        273u16 => Key::BtnRight,
        274u16 => Key::BtnMiddle,
        _ => Key::KeyUnknown,
    }
}

/// The relative-axis code table; unlisted codes map to the sentinel.
pub open spec fn rel_from_code_spec(c: u16) -> RelAxis {
    match c {
        0u16 => RelAxis::RelX,
        1u16 => RelAxis::RelY,
        2u16 => RelAxis::RelZ,
        3u16 => RelAxis::RelRx,
        4u16 => RelAxis::RelRy,
        5u16 => RelAxis::RelRz,
        6u16 => RelAxis::RelHwheel,
        7u16 => RelAxis::RelDial,
        8u16 => RelAxis::RelWheel,
        9u16 => RelAxis::RelMisc,
        10u16 => RelAxis::RelReserved,
        11u16 => RelAxis::RelWheelHiRes,
        12u16 => RelAxis::RelHwheelHiRes,
        _ => RelAxis::RelUnknown,
    }
}

impl InputEvent {
    /// The classification of this event, as a spec-level value.
    pub open spec fn kind_spec(self) -> InputEventKind {
        match event_type_spec(self.type_) {
            EventType::EvSyn => InputEventKind::SynEvent(syn_from_code_spec(self.code)),
            EventType::EvKey => InputEventKind::KeyEvent(key_from_code_spec(self.code)),
            EventType::EvRel => InputEventKind::RelEvent(rel_from_code_spec(self.code)),
            EventType::EvUnknown => InputEventKind::UnknownEvent,
        }
    }

    /// True of the synchronization marker that ends a hardware batch.
    pub open spec fn is_syn_report(self) -> bool {
        self.type_ == EV_SYN && self.code == SYN_REPORT_CODE
    }

    /// True of any transition of the reserved hotkey.
    pub open spec fn is_hotkey(self) -> bool {
        self.type_ == EV_KEY && self.code == HOTKEY_CODE
    }

    /// True of the "pressed" transition of the reserved hotkey, the only
    /// transition that acts as a control signal.
    pub open spec fn is_hotkey_press(self) -> bool {
        self.is_hotkey() && self.value == 1
    }

    /// Classify this event. Total: a code outside the table for its type
    /// yields that type's unknown sentinel, and a type outside the routed
    /// classes yields `UnknownEvent`.
    pub fn kind(&self) -> (r: InputEventKind)
        ensures
            r == self.kind_spec(),
    {
        if self.type_ == EV_SYN {
            InputEventKind::SynEvent(syn_from_code(self.code))
        } else if self.type_ == EV_KEY {
            InputEventKind::KeyEvent(key_from_code(self.code))
        } else if self.type_ == EV_REL {
            InputEventKind::RelEvent(rel_from_code(self.code))
        } else {
            InputEventKind::UnknownEvent
        }
    }
}

/// Unknown code safety: classification is total and never fails. A type
/// outside the three routed classes yields `UnknownEvent`, and within a
/// class, any code beyond the span of the table yields that class's
/// designated sentinel. (Unlisted codes inside the span yield the same
/// sentinel, by the wildcard arm of the table itself.)
pub proof fn lemma_unknown_code_safety(e: InputEvent)
    ensures
        e.type_ != EV_SYN && e.type_ != EV_KEY && e.type_ != EV_REL ==> e.kind_spec()
            == InputEventKind::UnknownEvent,
        e.type_ == EV_SYN && e.code > 3 ==> e.kind_spec() == InputEventKind::SynEvent(
            Syn::SynUnknown,
        ),
        e.type_ == EV_KEY && e.code > 274 ==> e.kind_spec() == InputEventKind::KeyEvent(
            Key::KeyUnknown,
        ),
        e.type_ == EV_REL && e.code > 12 ==> e.kind_spec() == InputEventKind::RelEvent(
            RelAxis::RelUnknown,
        ),
{
}

/// The synchronization marker record `{0, 0, 0}` that terminates a batch,
/// both on devices and on the wire.
pub fn syn_report() -> (r: InputEvent)
    ensures
        r == syn_report_spec(),
{
    InputEvent { type_: EV_SYN, code: SYN_REPORT_CODE, value: 0 }
}

/// Spec-level form of the synchronization marker record.
pub open spec fn syn_report_spec() -> InputEvent {
    InputEvent { type_: EV_SYN, code: SYN_REPORT_CODE, value: 0 }
}

/// Look a synchronization code up in the table.
pub fn syn_from_code(c: u16) -> (r: Syn)
    ensures
        r == syn_from_code_spec(c),
{
    if c == 0 {
        Syn::SynReport
    } else if c == 1 {
        Syn::SynConfig
    } else if c == 2 {
        Syn::SynMtReport
    } else if c == 3 {
        Syn::SynDropped
    } else {
        Syn::SynUnknown
    }
}

/// Look a key code up in the table.
pub fn key_from_code(c: u16) -> (r: Key)
    ensures
        r == key_from_code_spec(c),
{
    match c {
        0u16 => Key::KeyReserved,
        1u16 => Key::KeyEsc,
        14u16 => Key::KeyBackspace,
        15u16 => Key::KeyTab,
        28u16 => Key::KeyEnter,
        29u16 => Key::KeyLeftCtrl,
        30u16 => Key::KeyA,
        48u16 => Key::KeyB,
        46u16 => Key::KeyC,
        32u16 => Key::KeyD,
        18u16 => Key::KeyE,
        33u16 => Key::KeyF,
        34u16 => Key::KeyG,
        35u16 => Key::KeyH,
        23u16 => Key::KeyI,
        36u16 => Key::KeyJ,
        37u16 => Key::KeyK,
        38u16 => Key::KeyL,
        50u16 => Key::KeyM,
        49u16 => Key::KeyN,
        24u16 => Key::KeyO,
        25u16 => Key::KeyP,
        16u16 => Key::KeyQ,
        19u16 => Key::KeyR,
        31u16 => Key::KeyS,
        20u16 => Key::KeyT,
        22u16 => Key::KeyU,
        47u16 => Key::KeyV,
        17u16 => Key::KeyW,
        45u16 => Key::KeyX,
        21u16 => Key::KeyY,
        44u16 => Key::KeyZ,
        42u16 => Key::KeyLeftShift,
        54u16 => Key::KeyRightShift,
        56u16 => Key::KeyLeftAlt,
        57u16 => Key::KeySpace,
        58u16 => Key::KeyCapsLock,
        59u16 => Key::KeyF1,
        60u16 => Key::KeyF2,
        61u16 => Key::KeyF3,
        62u16 => Key::KeyF4,
        63u16 => Key::KeyF5,
        64u16 => Key::KeyF6,
        65u16 => Key::KeyF7,
        66u16 => Key::KeyF8,
        67u16 => Key::KeyF9,
        68u16 => Key::KeyF10,
        87u16 => Key::KeyF11,
        88u16 => Key::KeyF12,
        183u16 => Key::KeyF13,
        184u16 => Key::KeyF14,
        185u16 => Key::KeyF15,
        186u16 => Key::KeyF16,
        187u16 => Key::KeyF17,
        188u16 => Key::KeyF18,
        189u16 => Key::KeyF19,
        190u16 => Key::KeyF20,
        191u16 => Key::KeyF21,
        192u16 => Key::KeyF22,
        193u16 => Key::KeyF23,
        194u16 => Key::KeyF24,
        103u16 => Key::KeyUp,
        105u16 => Key::KeyLeft,
        106u16 => Key::KeyRight,
        108u16 => Key::KeyDown,
        272u16 => Key::BtnLeft,
        273u16 => Key::BtnRight,
        274u16 => Key::BtnMiddle,
        _ => Key::KeyUnknown,
    }
}

/// Look a relative-axis code up in the table.
pub fn rel_from_code(c: u16) -> (r: RelAxis)
    ensures
        r == rel_from_code_spec(c),
{
    match c {
        0u16 => RelAxis::RelX,
        1u16 => RelAxis::RelY,
        2u16 => RelAxis::RelZ,
        3u16 => RelAxis::RelRx,
        4u16 => RelAxis::RelRy,
        5u16 => RelAxis::RelRz,
        6u16 => RelAxis::RelHwheel,
        7u16 => RelAxis::RelDial,
        8u16 => RelAxis::RelWheel,
        9u16 => RelAxis::RelMisc,
        10u16 => RelAxis::RelReserved,
        11u16 => RelAxis::RelWheelHiRes,
        12u16 => RelAxis::RelHwheelHiRes,
        _ => RelAxis::RelUnknown,
    }
}

} // verus!
