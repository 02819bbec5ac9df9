//! Message kinds and the other enumerations of the protocol, each with the
//! number that stands for it on the wire.

use vstd::prelude::*;

verus! {

/// Daemon ⇒ agent: A key has been pressed or released.
pub const MSG_KEYPRESS: u32 = 124;

/// Daemon ⇒ agent: A button has been pressed or released.
pub const MSG_BUTTON: u32 = 125;

/// Daemon ⇒ agent: Pointer has moved.
pub const MSG_MOTION: u32 = 126;

/// Daemon ⇒ agent: The pointer has entered or left a window.
pub const MSG_CROSSING: u32 = 127;

/// Daemon ⇒ agent: A window has just acquired focus.
pub const MSG_FOCUS: u32 = 128;

/// Daemon ⇒ agent, obsolete.
pub const MSG_RESIZE: u32 = 129;

/// Agent ⇒ daemon: Creates a window.
pub const MSG_CREATE: u32 = 130;

/// Agent ⇒ daemon: Destroys a window.
pub const MSG_DESTROY: u32 = 131;

/// Bidirectional: A part of the window must be redrawn.
pub const MSG_MAP: u32 = 132;

/// Agent ⇒ daemon: Unmap a window.
pub const MSG_UNMAP: u32 = 133;

/// Bidirectional: A window has been moved and/or resized.
pub const MSG_CONFIGURE: u32 = 134;

/// Ask dom0 (only!) to map the given amount of memory into composition
/// buffer.  Deprecated.
pub const MSG_MFNDUMP: u32 = 135;

/// Agent ⇒ daemon: Redraw given area of screen.
pub const MSG_SHMIMAGE: u32 = 136;

/// Daemon ⇒ agent: Request that a window be destroyed.
pub const MSG_CLOSE: u32 = 137;

/// Daemon ⇒ agent, deprecated, DO NOT USE.
pub const MSG_EXECUTE: u32 = 138;

/// Daemon ⇒ agent: Request clipboard data.
pub const MSG_CLIPBOARD_REQ: u32 = 139;

/// Bidirectional: Clipboard data.
pub const MSG_CLIPBOARD_DATA: u32 = 140;

/// Agent ⇒ daemon: Set the title of a window.
pub const MSG_SET_TITLE: u32 = 141;

/// Daemon ⇒ agent: Update the keymap.
pub const MSG_KEYMAP_NOTIFY: u32 = 142;

/// Agent ⇒ daemon: Dock a window.
pub const MSG_DOCK: u32 = 143;

/// Agent ⇒ daemon: Set window manager hints.
pub const MSG_WINDOW_HINTS: u32 = 144;

/// Bidirectional: Set window manager flags.
pub const MSG_WINDOW_FLAGS: u32 = 145;

/// Agent ⇒ daemon: Set window class.
pub const MSG_WINDOW_CLASS: u32 = 146;

/// Agent ⇒ daemon: Send shared memory dump.
pub const MSG_WINDOW_DUMP: u32 = 147;

/// Agent ⇒ daemon: Set cursor type.
pub const MSG_CURSOR: u32 = 148;

/// Daemon ⇒ agent: Acknowledge mapping (version 1.7+ only).
pub const MSG_WINDOW_DUMP_ACK: u32 = 149;

/// Message types.
#[derive(Debug, Clone, Copy, PartialEq, Eq, Structural)]
#[non_exhaustive]
pub enum Msg {
    /// Daemon ⇒ agent: A key has been pressed or released.
    Keypress,
    /// Daemon ⇒ agent: A button has been pressed or released.
    Button,
    /// Daemon ⇒ agent: Pointer has moved.
    Motion,
    /// Daemon ⇒ agent: The pointer has entered or left a window.
    Crossing,
    /// Daemon ⇒ agent: A window has just acquired focus.
    Focus,
    /// Daemon ⇒ agent, obsolete.
    Resize,
    /// Agent ⇒ daemon: Creates a window.
    Create,
    /// Agent ⇒ daemon: Destroys a window.
    Destroy,
    /// Bidirectional: A part of the window must be redrawn.
    MapWindow,
    /// Agent ⇒ daemon: Unmap a window.
    Unmap,
    /// Bidirectional: A window has been moved and/or resized.
    Configure,
    /// Ask dom0 (only!) to map the given amount of memory into composition
    /// buffer.  Deprecated.
    MfnDump,
    /// Agent ⇒ daemon: Redraw given area of screen.
    ShmImage,
    /// Daemon ⇒ agent: Request that a window be destroyed.
    Close,
    /// Daemon ⇒ agent, deprecated, DO NOT USE.
    Execute,
    /// Daemon ⇒ agent: Request clipboard data.
    ClipboardReq,
    /// Bidirectional: Clipboard data.
    ClipboardData,
    /// Agent ⇒ daemon: Set the title of a window.
    SetTitle,
    /// Daemon ⇒ agent: Update the keymap.
    KeymapNotify,
    /// Agent ⇒ daemon: Dock a window.
    Dock,
    /// Agent ⇒ daemon: Set window manager hints.
    WindowHints,
    /// Bidirectional: Set window manager flags.
    WindowFlags,
    /// Agent ⇒ daemon: Set window class.
    WindowClass,
    /// Agent ⇒ daemon: Send shared memory dump.
    WindowDump,
    /// Agent ⇒ daemon: Set cursor type.
    Cursor,
    /// Daemon ⇒ agent: Acknowledge mapping (version 1.7+ only).
    DumpAck,
}

impl Msg {
    /// The number that stands for the message kind on the wire.
    pub open spec fn spec_value(self) -> u32 {
        match self {
            Msg::Keypress => MSG_KEYPRESS,
            Msg::Button => MSG_BUTTON,
            Msg::Motion => MSG_MOTION,
            Msg::Crossing => MSG_CROSSING,
            Msg::Focus => MSG_FOCUS,
            Msg::Resize => MSG_RESIZE,
            Msg::Create => MSG_CREATE,
            Msg::Destroy => MSG_DESTROY,
            Msg::MapWindow => MSG_MAP,
            Msg::Unmap => MSG_UNMAP,
            Msg::Configure => MSG_CONFIGURE,
            Msg::MfnDump => MSG_MFNDUMP,
            Msg::ShmImage => MSG_SHMIMAGE,
            Msg::Close => MSG_CLOSE,
            Msg::Execute => MSG_EXECUTE,
            Msg::ClipboardReq => MSG_CLIPBOARD_REQ,
            Msg::ClipboardData => MSG_CLIPBOARD_DATA,
            Msg::SetTitle => MSG_SET_TITLE,
            Msg::KeymapNotify => MSG_KEYMAP_NOTIFY,
            Msg::Dock => MSG_DOCK,
            Msg::WindowHints => MSG_WINDOW_HINTS,
            Msg::WindowFlags => MSG_WINDOW_FLAGS,
            Msg::WindowClass => MSG_WINDOW_CLASS,
            Msg::WindowDump => MSG_WINDOW_DUMP,
            Msg::Cursor => MSG_CURSOR,
            Msg::DumpAck => MSG_WINDOW_DUMP_ACK,
        }
    }

    /// The number that stands for the message kind on the wire.
    #[verifier::when_used_as_spec(spec_value)]
    pub fn value(self) -> (v: u32)
        ensures
            v == self.spec_value(),
    {
        match self {
            Msg::Keypress => MSG_KEYPRESS,
            Msg::Button => MSG_BUTTON,
            Msg::Motion => MSG_MOTION,
            Msg::Crossing => MSG_CROSSING,
            Msg::Focus => MSG_FOCUS,
            Msg::Resize => MSG_RESIZE,
            Msg::Create => MSG_CREATE,
            Msg::Destroy => MSG_DESTROY,
            Msg::MapWindow => MSG_MAP,
            Msg::Unmap => MSG_UNMAP,
            Msg::Configure => MSG_CONFIGURE,
            Msg::MfnDump => MSG_MFNDUMP,
            Msg::ShmImage => MSG_SHMIMAGE,
            Msg::Close => MSG_CLOSE,
            Msg::Execute => MSG_EXECUTE,
            Msg::ClipboardReq => MSG_CLIPBOARD_REQ,
            Msg::ClipboardData => MSG_CLIPBOARD_DATA,
            Msg::SetTitle => MSG_SET_TITLE,
            Msg::KeymapNotify => MSG_KEYMAP_NOTIFY,
            Msg::Dock => MSG_DOCK,
            Msg::WindowHints => MSG_WINDOW_HINTS,
            Msg::WindowFlags => MSG_WINDOW_FLAGS,
            Msg::WindowClass => MSG_WINDOW_CLASS,
            Msg::WindowDump => MSG_WINDOW_DUMP,
            Msg::Cursor => MSG_CURSOR,
            Msg::DumpAck => MSG_WINDOW_DUMP_ACK,
        }
    }

    /// Finds the message kind that `value` stands for.  A number that stands
    /// for no kind is handed back as the error.
    pub fn try_from(value: u32) -> (r: Result<Msg, u32>)
        ensures
            match r {
                Ok(found) => found.spec_value() == value,
                Err(given) => given == value && forall|any: Msg| any.spec_value() != value,
            },
    {
        if value == MSG_KEYPRESS {
            Ok(Msg::Keypress)
        } else if value == MSG_BUTTON {
            Ok(Msg::Button)
        } else if value == MSG_MOTION {
            Ok(Msg::Motion)
        } else if value == MSG_CROSSING {
            Ok(Msg::Crossing)
        } else if value == MSG_FOCUS {
            Ok(Msg::Focus)
        } else if value == MSG_RESIZE {
            Ok(Msg::Resize)
        } else if value == MSG_CREATE {
            Ok(Msg::Create)
        } else if value == MSG_DESTROY {
            Ok(Msg::Destroy)
        } else if value == MSG_MAP {
            Ok(Msg::MapWindow)
        } else if value == MSG_UNMAP {
            Ok(Msg::Unmap)
        } else if value == MSG_CONFIGURE {
            Ok(Msg::Configure)
        } else if value == MSG_MFNDUMP {
            Ok(Msg::MfnDump)
        } else if value == MSG_SHMIMAGE {
            Ok(Msg::ShmImage)
        } else if value == MSG_CLOSE {
            Ok(Msg::Close)
        } else if value == MSG_EXECUTE {
            Ok(Msg::Execute)
        } else if value == MSG_CLIPBOARD_REQ {
            Ok(Msg::ClipboardReq)
        } else if value == MSG_CLIPBOARD_DATA {
            Ok(Msg::ClipboardData)
        } else if value == MSG_SET_TITLE {
            Ok(Msg::SetTitle)
        } else if value == MSG_KEYMAP_NOTIFY {
            Ok(Msg::KeymapNotify)
        } else if value == MSG_DOCK {
            Ok(Msg::Dock)
        } else if value == MSG_WINDOW_HINTS {
            Ok(Msg::WindowHints)
        } else if value == MSG_WINDOW_FLAGS {
            Ok(Msg::WindowFlags)
        } else if value == MSG_WINDOW_CLASS {
            Ok(Msg::WindowClass)
        } else if value == MSG_WINDOW_DUMP {
            Ok(Msg::WindowDump)
        } else if value == MSG_CURSOR {
            Ok(Msg::Cursor)
        } else if value == MSG_WINDOW_DUMP_ACK {
            Ok(Msg::DumpAck)
        } else {
            Err(value)
        }
    }

    /// No two message kinds share a number.
    pub proof fn lemma_value_injective(self, other: Msg)
        requires
            self.spec_value() == other.spec_value(),
        ensures
            self == other,
    {
    }
}

/// A button has been pressed.
pub const EV_BUTTON_PRESS: u32 = 4;

/// A button has been released.
pub const EV_BUTTON_RELEASE: u32 = 5;

/// State of a button.
#[derive(Debug, Clone, Copy, PartialEq, Eq, Structural)]
pub enum ButtonEvent {
    /// A button has been pressed.
    Press,
    /// A button has been released.
    Release,
}

impl ButtonEvent {
    /// The number that stands for the button event on the wire.
    pub open spec fn spec_value(self) -> u32 {
        match self {
            ButtonEvent::Press => EV_BUTTON_PRESS,
            ButtonEvent::Release => EV_BUTTON_RELEASE,
        }
    }

    /// The number that stands for the button event on the wire.
    #[verifier::when_used_as_spec(spec_value)]
    pub fn value(self) -> (v: u32)
        ensures
            v == self.spec_value(),
    {
        match self {
            ButtonEvent::Press => EV_BUTTON_PRESS,
            ButtonEvent::Release => EV_BUTTON_RELEASE,
        }
    }

    /// Finds the button event that `value` stands for.  A number that stands
    /// for none is handed back as the error.
    pub fn try_from(value: u32) -> (r: Result<ButtonEvent, u32>)
        ensures
            match r {
                Ok(found) => found.spec_value() == value,
                Err(given) => given == value && forall|any: ButtonEvent| any.spec_value() != value,
            },
    {
        if value == EV_BUTTON_PRESS {
            Ok(ButtonEvent::Press)
        } else if value == EV_BUTTON_RELEASE {
            Ok(ButtonEvent::Release)
        } else {
            Err(value)
        }
    }

    /// No two button events share a number.
    pub proof fn lemma_value_injective(self, other: ButtonEvent)
        requires
            self.spec_value() == other.spec_value(),
        ensures
            self == other,
    {
    }
}

/// The key was pressed.
pub const EV_KEY_PRESS: u32 = 2;

/// The key was released.
pub const EV_KEY_RELEASE: u32 = 3;

/// Key change event.
#[derive(Debug, Clone, Copy, PartialEq, Eq, Structural)]
pub enum KeyEvent {
    /// The key was pressed.
    Press,
    /// The key was released.
    Release,
}

impl KeyEvent {
    /// The number that stands for the key event on the wire.
    pub open spec fn spec_value(self) -> u32 {
        match self {
            KeyEvent::Press => EV_KEY_PRESS,
            KeyEvent::Release => EV_KEY_RELEASE,
        }
    }

    /// The number that stands for the key event on the wire.
    #[verifier::when_used_as_spec(spec_value)]
    pub fn value(self) -> (v: u32)
        ensures
            v == self.spec_value(),
    {
        match self {
            KeyEvent::Press => EV_KEY_PRESS,
            KeyEvent::Release => EV_KEY_RELEASE,
        }
    }

    /// Finds the key event that `value` stands for.  A number that stands for
    /// none is handed back as the error.
    pub fn try_from(value: u32) -> (r: Result<KeyEvent, u32>)
        ensures
            match r {
                Ok(found) => found.spec_value() == value,
                Err(given) => given == value && forall|any: KeyEvent| any.spec_value() != value,
            },
    {
        if value == EV_KEY_PRESS {
            Ok(KeyEvent::Press)
        } else if value == EV_KEY_RELEASE {
            Ok(KeyEvent::Release)
        } else {
            Err(value)
        }
    }

    /// No two key events share a number.
    pub proof fn lemma_value_injective(self, other: KeyEvent)
        requires
            self.spec_value() == other.spec_value(),
        ensures
            self == other,
    {
    }
}

/// The window now has focus.
pub const EV_FOCUS_IN: u32 = 9;

/// The window has lost focus.
pub const EV_FOCUS_OUT: u32 = 10;

/// Focus change event.
#[derive(Debug, Clone, Copy, PartialEq, Eq, Structural)]
pub enum FocusEvent {
    /// The window now has focus.
    In,
    /// The window has lost focus.
    Out,
}

impl FocusEvent {
    /// The number that stands for the focus event on the wire.
    pub open spec fn spec_value(self) -> u32 {
        match self {
            FocusEvent::In => EV_FOCUS_IN,
            FocusEvent::Out => EV_FOCUS_OUT,
        }
    }

    /// The number that stands for the focus event on the wire.
    #[verifier::when_used_as_spec(spec_value)]
    pub fn value(self) -> (v: u32)
        ensures
            v == self.spec_value(),
    {
        match self {
            FocusEvent::In => EV_FOCUS_IN,
            FocusEvent::Out => EV_FOCUS_OUT,
        }
    }

    /// Finds the focus event that `value` stands for.  A number that stands
    /// for none is handed back as the error.
    pub fn try_from(value: u32) -> (r: Result<FocusEvent, u32>)
        ensures
            match r {
                Ok(found) => found.spec_value() == value,
                Err(given) => given == value && forall|any: FocusEvent| any.spec_value() != value,
            },
    {
        if value == EV_FOCUS_IN {
            Ok(FocusEvent::In)
        } else if value == EV_FOCUS_OUT {
            Ok(FocusEvent::Out)
        } else {
            Err(value)
        }
    }

    /// No two focus events share a number.
    pub proof fn lemma_value_injective(self, other: FocusEvent)
        requires
            self.spec_value() == other.spec_value(),
        ensures
            self == other,
    {
    }
}

/// Flags for the `flags` field of window hints.  These are a bitmask.
#[derive(Debug, Clone, Copy, PartialEq, Eq, Structural)]
pub enum WindowHintsFlags {
    /// User-specified position.
    USPosition,
    /// Program-specified position.
    PPosition,
    /// Minimum size is valid.
    PMinSize,
    /// Maximum size is valid.
    PMaxSize,
    /// Resize increment is valid.
    PResizeInc,
    /// Base size is valid.
    PBaseSize,
}

impl WindowHintsFlags {
    /// The bit that the flag occupies in its bitmask.
    pub open spec fn spec_bits(self) -> u32 {
        match self {
            WindowHintsFlags::USPosition => 1,
            WindowHintsFlags::PPosition => 4,
            WindowHintsFlags::PMinSize => 16,
            WindowHintsFlags::PMaxSize => 32,
            WindowHintsFlags::PResizeInc => 64,
            WindowHintsFlags::PBaseSize => 256,
        }
    }

    /// The bit that the flag occupies in its bitmask.
    #[verifier::when_used_as_spec(spec_bits)]
    pub fn bits(self) -> (b: u32)
        ensures
            b == self.spec_bits(),
    {
        match self {
            WindowHintsFlags::USPosition => 1,
            WindowHintsFlags::PPosition => 4,
            WindowHintsFlags::PMinSize => 16,
            WindowHintsFlags::PMaxSize => 32,
            WindowHintsFlags::PResizeInc => 64,
            WindowHintsFlags::PBaseSize => 256,
        }
    }
}

/// Flags for the two fields of window flags.  These are a bitmask.
#[derive(Debug, Clone, Copy, PartialEq, Eq, Structural)]
pub enum WindowFlag {
    /// Fullscreen request.  This may or may not be honored.
    Fullscreen,
    /// Demands attention.
    DemandsAttention,
    /// Minimize.
    Minimize,
}

impl WindowFlag {
    /// The bit that the flag occupies in its bitmask.
    pub open spec fn spec_bits(self) -> u32 {
        match self {
            WindowFlag::Fullscreen => 1,
            WindowFlag::DemandsAttention => 2,
            WindowFlag::Minimize => 4,
        }
    }

    /// The bit that the flag occupies in its bitmask.
    #[verifier::when_used_as_spec(spec_bits)]
    pub fn bits(self) -> (b: u32)
        ensures
            b == self.spec_bits(),
    {
        match self {
            WindowFlag::Fullscreen => 1,
            WindowFlag::DemandsAttention => 2,
            WindowFlag::Minimize => 4,
        }
    }
}

} // verus!
