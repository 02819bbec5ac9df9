//! The fixed-size payloads of the protocol, each with its byte image.

use vstd::prelude::*;
use crate::kinds::Msg;
use crate::wire::Wire;
#[allow(unused_imports)]
use crate::wire::lemma_split;

verus! {

/// A payload that is sent under a message kind of its own.
pub trait Message: Wire {
    /// The kind of the message.
    spec fn spec_kind() -> Msg;

    /// The kind of the message.
    fn kind() -> (k: Msg)
        ensures
            k == Self::spec_kind(),
    ;
}

/// X and Y coordinates relative to the top-left of the screen.
#[derive(Debug, Clone, Copy, PartialEq, Eq, Default)]
pub struct Coordinates {
    /// X coordinate in pixels.
    pub x: i32,
    /// Y coordinate in pixels.
    pub y: i32,
}

impl Wire for Coordinates {
    open spec fn spec_size() -> nat {
        8
    }

    open spec fn encoding(&self) -> Seq<u8> {
        self.x.encoding() + self.y.encoding()
    }

    proof fn lemma_encoding(a: &Self, b: &Self) {
        i32::lemma_encoding(&a.x, &b.x);
        i32::lemma_encoding(&a.y, &b.y);
        if a.encoding() == b.encoding() {
            lemma_split(a.x.encoding(), a.y.encoding(), b.x.encoding(), b.y.encoding());
        }
    }

    fn size() -> (n: usize) {
        8
    }

    fn encode_into(&self, out: &mut Vec<u8>) {
        self.x.encode_into(out);
        self.y.encode_into(out);
        assert(out@ =~= old(out)@ + self.encoding());
    }

    fn decode_at(bytes: &[u8], at: usize) -> (v: Self) {
        assert(bytes@.len() == bytes.len());
        let x = i32::decode_at(bytes, at);
        let y = i32::decode_at(bytes, at + 4);
        let v = Coordinates { x, y };
        assert(v.encoding() =~= bytes@.subrange(at as int, at + 8));
        v
    }
}

/// Window size.
#[derive(Debug, Clone, Copy, PartialEq, Eq, Default)]
pub struct WindowSize {
    /// Width in pixels.
    pub width: u32,
    /// Height in pixels.
    pub height: u32,
}

impl Wire for WindowSize {
    open spec fn spec_size() -> nat {
        8
    }

    open spec fn encoding(&self) -> Seq<u8> {
        self.width.encoding() + self.height.encoding()
    }

    proof fn lemma_encoding(a: &Self, b: &Self) {
        u32::lemma_encoding(&a.width, &b.width);
        u32::lemma_encoding(&a.height, &b.height);
        if a.encoding() == b.encoding() {
            lemma_split(
                a.width.encoding(),
                a.height.encoding(),
                b.width.encoding(),
                b.height.encoding(),
            );
        }
    }

    fn size() -> (n: usize) {
        8
    }

    fn encode_into(&self, out: &mut Vec<u8>) {
        self.width.encode_into(out);
        self.height.encode_into(out);
        assert(out@ =~= old(out)@ + self.encoding());
    }

    fn decode_at(bytes: &[u8], at: usize) -> (v: Self) {
        assert(bytes@.len() == bytes.len());
        let width = u32::decode_at(bytes, at);
        let height = u32::decode_at(bytes, at + 4);
        let v = WindowSize { width, height };
        assert(v.encoding() =~= bytes@.subrange(at as int, at + 8));
        v
    }
}

/// A rectangle: its top left corner and its size.
#[derive(Debug, Clone, Copy, PartialEq, Eq, Default)]
pub struct Rectangle {
    /// Coordinates of the top left corner of the rectangle.
    pub top_left: Coordinates,
    /// Size of the rectangle.
    pub size: WindowSize,
}

impl Wire for Rectangle {
    open spec fn spec_size() -> nat {
        16
    }

    open spec fn encoding(&self) -> Seq<u8> {
        self.top_left.encoding() + self.size.encoding()
    }

    proof fn lemma_encoding(a: &Self, b: &Self) {
        Coordinates::lemma_encoding(&a.top_left, &b.top_left);
        WindowSize::lemma_encoding(&a.size, &b.size);
        if a.encoding() == b.encoding() {
            lemma_split(
                a.top_left.encoding(),
                a.size.encoding(),
                b.top_left.encoding(),
                b.size.encoding(),
            );
        }
    }

    fn size() -> (n: usize) {
        16
    }

    fn encode_into(&self, out: &mut Vec<u8>) {
        self.top_left.encode_into(out);
        self.size.encode_into(out);
        assert(out@ =~= old(out)@ + self.encoding());
    }

    fn decode_at(bytes: &[u8], at: usize) -> (v: Self) {
        assert(bytes@.len() == bytes.len());
        let top_left = Coordinates::decode_at(bytes, at);
        let size = WindowSize::decode_at(bytes, at + 8);
        let v = Rectangle { top_left, size };
        assert(v.encoding() =~= bytes@.subrange(at as int, at + 16));
        v
    }
}

/// Daemon ⇒ agent: Root window configuration; sent only at startup,
/// without a header.  Sent alone in protocol 1.3 and below.
#[derive(Debug, Clone, Copy, PartialEq, Eq, Default)]
pub struct XConf {
    /// Root window size.
    pub size: WindowSize,
    /// X11 depth of the root window.
    pub depth: u32,
    /// Memory (in KiB) required by the root window, with at least 1 byte to
    /// spare.
    pub mem: u32,
}

impl Wire for XConf {
    open spec fn spec_size() -> nat {
        16
    }

    open spec fn encoding(&self) -> Seq<u8> {
        self.size.encoding() + self.depth.encoding() + self.mem.encoding()
    }

    proof fn lemma_encoding(a: &Self, b: &Self) {
        WindowSize::lemma_encoding(&a.size, &b.size);
        u32::lemma_encoding(&a.depth, &b.depth);
        u32::lemma_encoding(&a.mem, &b.mem);
        if a.encoding() == b.encoding() {
            lemma_split(
                a.size.encoding() + a.depth.encoding(),
                a.mem.encoding(),
                b.size.encoding() + b.depth.encoding(),
                b.mem.encoding(),
            );
            lemma_split(
                a.size.encoding(),
                a.depth.encoding(),
                b.size.encoding(),
                b.depth.encoding(),
            );
        }
    }

    fn size() -> (n: usize) {
        16
    }

    fn encode_into(&self, out: &mut Vec<u8>) {
        self.size.encode_into(out);
        self.depth.encode_into(out);
        self.mem.encode_into(out);
        assert(out@ =~= old(out)@ + self.encoding());
    }

    fn decode_at(bytes: &[u8], at: usize) -> (v: Self) {
        assert(bytes@.len() == bytes.len());
        let size = WindowSize::decode_at(bytes, at);
        let depth = u32::decode_at(bytes, at + 8);
        let mem = u32::decode_at(bytes, at + 12);
        let v = XConf { size, depth, mem };
        assert(v.encoding() =~= bytes@.subrange(at as int, at + 16));
        v
    }
}

/// Daemon ⇒ agent: Version and root window configuration; sent only at
/// startup, without a header.  Used in protocol 1.4 and better.
#[derive(Debug, Clone, Copy, PartialEq, Eq, Default)]
pub struct XConfVersion {
    /// Negotiated protocol version.
    pub version: u32,
    /// Root window configuration.
    pub xconf: XConf,
}

impl Wire for XConfVersion {
    open spec fn spec_size() -> nat {
        20
    }

    open spec fn encoding(&self) -> Seq<u8> {
        self.version.encoding() + self.xconf.encoding()
    }

    proof fn lemma_encoding(a: &Self, b: &Self) {
        u32::lemma_encoding(&a.version, &b.version);
        XConf::lemma_encoding(&a.xconf, &b.xconf);
        if a.encoding() == b.encoding() {
            lemma_split(
                a.version.encoding(),
                a.xconf.encoding(),
                b.version.encoding(),
                b.xconf.encoding(),
            );
        }
    }

    fn size() -> (n: usize) {
        20
    }

    fn encode_into(&self, out: &mut Vec<u8>) {
        self.version.encode_into(out);
        self.xconf.encode_into(out);
        assert(out@ =~= old(out)@ + self.encoding());
    }

    fn decode_at(bytes: &[u8], at: usize) -> (v: Self) {
        assert(bytes@.len() == bytes.len());
        let version = u32::decode_at(bytes, at);
        let xconf = XConf::decode_at(bytes, at + 4);
        let v = XConfVersion { version, xconf };
        assert(v.encoding() =~= bytes@.subrange(at as int, at + 20));
        v
    }
}

/// Bidirectional: Metadata about a mapping.
#[derive(Debug, Clone, Copy, PartialEq, Eq, Default)]
pub struct MapInfo {
    /// The window that this one is transient for, or 0 if there is no such
    /// window.
    pub transient_for: u32,
    /// If this is 1, the window (usually a menu) should not be managed by
    /// the window manager.  If this is 0, it should be.  All other values
    /// are invalid.
    pub override_redirect: u32,
}

impl Wire for MapInfo {
    open spec fn spec_size() -> nat {
        8
    }

    open spec fn encoding(&self) -> Seq<u8> {
        self.transient_for.encoding() + self.override_redirect.encoding()
    }

    proof fn lemma_encoding(a: &Self, b: &Self) {
        u32::lemma_encoding(&a.transient_for, &b.transient_for);
        u32::lemma_encoding(&a.override_redirect, &b.override_redirect);
        if a.encoding() == b.encoding() {
            lemma_split(
                a.transient_for.encoding(),
                a.override_redirect.encoding(),
                b.transient_for.encoding(),
                b.override_redirect.encoding(),
            );
        }
    }

    fn size() -> (n: usize) {
        8
    }

    fn encode_into(&self, out: &mut Vec<u8>) {
        self.transient_for.encode_into(out);
        self.override_redirect.encode_into(out);
        assert(out@ =~= old(out)@ + self.encoding());
    }

    fn decode_at(bytes: &[u8], at: usize) -> (v: Self) {
        assert(bytes@.len() == bytes.len());
        let transient_for = u32::decode_at(bytes, at);
        let override_redirect = u32::decode_at(bytes, at + 4);
        let v = MapInfo { transient_for, override_redirect };
        assert(v.encoding() =~= bytes@.subrange(at as int, at + 8));
        v
    }
}

impl Message for MapInfo {
    open spec fn spec_kind() -> Msg {
        Msg::MapWindow
    }

    fn kind() -> (k: Msg) {
        Msg::MapWindow
    }
}

/// Agent ⇒ daemon: Create a window.  The window is not immediately mapped.
#[derive(Debug, Clone, Copy, PartialEq, Eq, Default)]
pub struct Create {
    /// Rectangle the window is to occupy.
    pub rectangle: Rectangle,
    /// Parent window, or 0 if there is no parent window.
    pub parent: u32,
    /// If this is 1, the window (usually a menu) should not be managed by
    /// the window manager.  If this is 0, it should be.  All other values
    /// are invalid.
    pub override_redirect: u32,
}

impl Wire for Create {
    open spec fn spec_size() -> nat {
        24
    }

    open spec fn encoding(&self) -> Seq<u8> {
        self.rectangle.encoding()
            + self.parent.encoding()
            + self.override_redirect.encoding()
    }

    proof fn lemma_encoding(a: &Self, b: &Self) {
        Rectangle::lemma_encoding(&a.rectangle, &b.rectangle);
        u32::lemma_encoding(&a.parent, &b.parent);
        u32::lemma_encoding(&a.override_redirect, &b.override_redirect);
        if a.encoding() == b.encoding() {
            lemma_split(
                a.rectangle.encoding() + a.parent.encoding(),
                a.override_redirect.encoding(),
                b.rectangle.encoding() + b.parent.encoding(),
                b.override_redirect.encoding(),
            );
            lemma_split(
                a.rectangle.encoding(),
                a.parent.encoding(),
                b.rectangle.encoding(),
                b.parent.encoding(),
            );
        }
    }

    fn size() -> (n: usize) {
        24
    }

    fn encode_into(&self, out: &mut Vec<u8>) {
        self.rectangle.encode_into(out);
        self.parent.encode_into(out);
        self.override_redirect.encode_into(out);
        assert(out@ =~= old(out)@ + self.encoding());
    }

    fn decode_at(bytes: &[u8], at: usize) -> (v: Self) {
        assert(bytes@.len() == bytes.len());
        let rectangle = Rectangle::decode_at(bytes, at);
        let parent = u32::decode_at(bytes, at + 16);
        let override_redirect = u32::decode_at(bytes, at + 20);
        let v = Create { rectangle, parent, override_redirect };
        assert(v.encoding() =~= bytes@.subrange(at as int, at + 24));
        v
    }
}

impl Message for Create {
    open spec fn spec_kind() -> Msg {
        Msg::Create
    }

    fn kind() -> (k: Msg) {
        Msg::Create
    }
}

/// Daemon ⇒ agent: Keypress.
#[derive(Debug, Clone, Copy, PartialEq, Eq, Default)]
pub struct Keypress {
    /// The X11 type of key pressed: `EV_KEY_PRESS` or `EV_KEY_RELEASE`.
    pub ty: u32,
    /// Coordinates of the key press.
    pub coordinates: Coordinates,
    /// X11 key press state.
    pub state: u32,
    /// X11 key code.
    pub keycode: u32,
}

impl Wire for Keypress {
    open spec fn spec_size() -> nat {
        20
    }

    open spec fn encoding(&self) -> Seq<u8> {
        self.ty.encoding()
            + self.coordinates.encoding()
            + self.state.encoding()
            + self.keycode.encoding()
    }

    proof fn lemma_encoding(a: &Self, b: &Self) {
        u32::lemma_encoding(&a.ty, &b.ty);
        Coordinates::lemma_encoding(&a.coordinates, &b.coordinates);
        u32::lemma_encoding(&a.state, &b.state);
        u32::lemma_encoding(&a.keycode, &b.keycode);
        if a.encoding() == b.encoding() {
            lemma_split(
                a.ty.encoding() + a.coordinates.encoding() + a.state.encoding(),
                a.keycode.encoding(),
                b.ty.encoding() + b.coordinates.encoding() + b.state.encoding(),
                b.keycode.encoding(),
            );
            lemma_split(
                a.ty.encoding() + a.coordinates.encoding(),
                a.state.encoding(),
                b.ty.encoding() + b.coordinates.encoding(),
                b.state.encoding(),
            );
            lemma_split(
                a.ty.encoding(),
                a.coordinates.encoding(),
                b.ty.encoding(),
                b.coordinates.encoding(),
            );
        }
    }

    fn size() -> (n: usize) {
        20
    }

    fn encode_into(&self, out: &mut Vec<u8>) {
        self.ty.encode_into(out);
        self.coordinates.encode_into(out);
        self.state.encode_into(out);
        self.keycode.encode_into(out);
        assert(out@ =~= old(out)@ + self.encoding());
    }

    fn decode_at(bytes: &[u8], at: usize) -> (v: Self) {
        assert(bytes@.len() == bytes.len());
        let ty = u32::decode_at(bytes, at);
        let coordinates = Coordinates::decode_at(bytes, at + 4);
        let state = u32::decode_at(bytes, at + 12);
        let keycode = u32::decode_at(bytes, at + 16);
        let v = Keypress { ty, coordinates, state, keycode };
        assert(v.encoding() =~= bytes@.subrange(at as int, at + 20));
        v
    }
}

impl Message for Keypress {
    open spec fn spec_kind() -> Msg {
        Msg::Keypress
    }

    fn kind() -> (k: Msg) {
        Msg::Keypress
    }
}

/// Daemon ⇒ agent: Button press.
#[derive(Debug, Clone, Copy, PartialEq, Eq, Default)]
pub struct Button {
    /// The type of event: `EV_BUTTON_PRESS` or `EV_BUTTON_RELEASE`.
    pub ty: u32,
    /// Coordinates of the button press.
    pub coordinates: Coordinates,
    /// Bitmask of modifier keys.
    pub state: u32,
    /// X11 button number.
    pub button: u32,
}

impl Wire for Button {
    open spec fn spec_size() -> nat {
        20
    }

    open spec fn encoding(&self) -> Seq<u8> {
        self.ty.encoding()
            + self.coordinates.encoding()
            + self.state.encoding()
            + self.button.encoding()
    }

    proof fn lemma_encoding(a: &Self, b: &Self) {
        u32::lemma_encoding(&a.ty, &b.ty);
        Coordinates::lemma_encoding(&a.coordinates, &b.coordinates);
        u32::lemma_encoding(&a.state, &b.state);
        u32::lemma_encoding(&a.button, &b.button);
        if a.encoding() == b.encoding() {
            lemma_split(
                a.ty.encoding() + a.coordinates.encoding() + a.state.encoding(),
                a.button.encoding(),
                b.ty.encoding() + b.coordinates.encoding() + b.state.encoding(),
                b.button.encoding(),
            );
            lemma_split(
                a.ty.encoding() + a.coordinates.encoding(),
                a.state.encoding(),
                b.ty.encoding() + b.coordinates.encoding(),
                b.state.encoding(),
            );
            lemma_split(
                a.ty.encoding(),
                a.coordinates.encoding(),
                b.ty.encoding(),
                b.coordinates.encoding(),
            );
        }
    }

    fn size() -> (n: usize) {
        20
    }

    fn encode_into(&self, out: &mut Vec<u8>) {
        self.ty.encode_into(out);
        self.coordinates.encode_into(out);
        self.state.encode_into(out);
        self.button.encode_into(out);
        assert(out@ =~= old(out)@ + self.encoding());
    }

    fn decode_at(bytes: &[u8], at: usize) -> (v: Self) {
        assert(bytes@.len() == bytes.len());
        let ty = u32::decode_at(bytes, at);
        let coordinates = Coordinates::decode_at(bytes, at + 4);
        let state = u32::decode_at(bytes, at + 12);
        let button = u32::decode_at(bytes, at + 16);
        let v = Button { ty, coordinates, state, button };
        assert(v.encoding() =~= bytes@.subrange(at as int, at + 20));
        v
    }
}

impl Message for Button {
    open spec fn spec_kind() -> Msg {
        Msg::Button
    }

    fn kind() -> (k: Msg) {
        Msg::Button
    }
}

/// Daemon ⇒ agent: Motion event.
#[derive(Debug, Clone, Copy, PartialEq, Eq, Default)]
pub struct Motion {
    /// Coordinates of the motion event.
    pub coordinates: Coordinates,
    /// Bitmask of buttons that are pressed.
    pub state: u32,
    /// X11 is_hint flag.
    pub is_hint: u32,
}

impl Wire for Motion {
    open spec fn spec_size() -> nat {
        16
    }

    open spec fn encoding(&self) -> Seq<u8> {
        self.coordinates.encoding() + self.state.encoding() + self.is_hint.encoding()
    }

    proof fn lemma_encoding(a: &Self, b: &Self) {
        Coordinates::lemma_encoding(&a.coordinates, &b.coordinates);
        u32::lemma_encoding(&a.state, &b.state);
        u32::lemma_encoding(&a.is_hint, &b.is_hint);
        if a.encoding() == b.encoding() {
            lemma_split(
                a.coordinates.encoding() + a.state.encoding(),
                a.is_hint.encoding(),
                b.coordinates.encoding() + b.state.encoding(),
                b.is_hint.encoding(),
            );
            lemma_split(
                a.coordinates.encoding(),
                a.state.encoding(),
                b.coordinates.encoding(),
                b.state.encoding(),
            );
        }
    }

    fn size() -> (n: usize) {
        16
    }

    fn encode_into(&self, out: &mut Vec<u8>) {
        self.coordinates.encode_into(out);
        self.state.encode_into(out);
        self.is_hint.encode_into(out);
        assert(out@ =~= old(out)@ + self.encoding());
    }

    fn decode_at(bytes: &[u8], at: usize) -> (v: Self) {
        assert(bytes@.len() == bytes.len());
        let coordinates = Coordinates::decode_at(bytes, at);
        let state = u32::decode_at(bytes, at + 8);
        let is_hint = u32::decode_at(bytes, at + 12);
        let v = Motion { coordinates, state, is_hint };
        assert(v.encoding() =~= bytes@.subrange(at as int, at + 16));
        v
    }
}

impl Message for Motion {
    open spec fn spec_kind() -> Msg {
        Msg::Motion
    }

    fn kind() -> (k: Msg) {
        Msg::Motion
    }
}

/// Daemon ⇒ agent: Crossing event.
#[derive(Debug, Clone, Copy, PartialEq, Eq, Default)]
pub struct Crossing {
    /// Type of the crossing.
    pub ty: u32,
    /// Coordinates of the crossing.
    pub coordinates: Coordinates,
    /// X11 state of the crossing.
    pub state: u32,
    /// X11 mode of the crossing.
    pub mode: u32,
    /// X11 detail of the crossing.
    pub detail: u32,
    /// X11 focus of the crossing.
    pub focus: u32,
}

impl Wire for Crossing {
    open spec fn spec_size() -> nat {
        28
    }

    open spec fn encoding(&self) -> Seq<u8> {
        self.ty.encoding()
            + self.coordinates.encoding()
            + self.state.encoding()
            + self.mode.encoding()
            + self.detail.encoding()
            + self.focus.encoding()
    }

    proof fn lemma_encoding(a: &Self, b: &Self) {
        u32::lemma_encoding(&a.ty, &b.ty);
        Coordinates::lemma_encoding(&a.coordinates, &b.coordinates);
        u32::lemma_encoding(&a.state, &b.state);
        u32::lemma_encoding(&a.mode, &b.mode);
        u32::lemma_encoding(&a.detail, &b.detail);
        u32::lemma_encoding(&a.focus, &b.focus);
        if a.encoding() == b.encoding() {
            lemma_split(
                a.ty.encoding()
                    + a.coordinates.encoding()
                    + a.state.encoding()
                    + a.mode.encoding()
                    + a.detail.encoding(),
                a.focus.encoding(),
                b.ty.encoding()
                    + b.coordinates.encoding()
                    + b.state.encoding()
                    + b.mode.encoding()
                    + b.detail.encoding(),
                b.focus.encoding(),
            );
            lemma_split(
                a.ty.encoding()
                    + a.coordinates.encoding()
                    + a.state.encoding()
                    + a.mode.encoding(),
                a.detail.encoding(),
                b.ty.encoding()
                    + b.coordinates.encoding()
                    + b.state.encoding()
                    + b.mode.encoding(),
                b.detail.encoding(),
            );
            lemma_split(
                a.ty.encoding() + a.coordinates.encoding() + a.state.encoding(),
                a.mode.encoding(),
                b.ty.encoding() + b.coordinates.encoding() + b.state.encoding(),
                b.mode.encoding(),
            );
            lemma_split(
                a.ty.encoding() + a.coordinates.encoding(),
                a.state.encoding(),
                b.ty.encoding() + b.coordinates.encoding(),
                b.state.encoding(),
            );
            lemma_split(
                a.ty.encoding(),
                a.coordinates.encoding(),
                b.ty.encoding(),
                b.coordinates.encoding(),
            );
        }
    }

    fn size() -> (n: usize) {
        28
    }

    fn encode_into(&self, out: &mut Vec<u8>) {
        self.ty.encode_into(out);
        self.coordinates.encode_into(out);
        self.state.encode_into(out);
        self.mode.encode_into(out);
        self.detail.encode_into(out);
        self.focus.encode_into(out);
        assert(out@ =~= old(out)@ + self.encoding());
    }

    fn decode_at(bytes: &[u8], at: usize) -> (v: Self) {
        assert(bytes@.len() == bytes.len());
        let ty = u32::decode_at(bytes, at);
        let coordinates = Coordinates::decode_at(bytes, at + 4);
        let state = u32::decode_at(bytes, at + 12);
        let mode = u32::decode_at(bytes, at + 16);
        let detail = u32::decode_at(bytes, at + 20);
        let focus = u32::decode_at(bytes, at + 24);
        let v = Crossing { ty, coordinates, state, mode, detail, focus };
        assert(v.encoding() =~= bytes@.subrange(at as int, at + 28));
        v
    }
}

impl Message for Crossing {
    open spec fn spec_kind() -> Msg {
        Msg::Crossing
    }

    fn kind() -> (k: Msg) {
        Msg::Crossing
    }
}

/// Bidirectional: Configure event.
#[derive(Debug, Clone, Copy, PartialEq, Eq, Default)]
pub struct Configure {
    /// Desired rectangle position and size.
    pub rectangle: Rectangle,
    /// If this is 1, the window (usually a menu) should not be managed by
    /// the window manager.  If this is 0, it should be.  All other values
    /// are invalid.
    pub override_redirect: u32,
}

impl Wire for Configure {
    open spec fn spec_size() -> nat {
        20
    }

    open spec fn encoding(&self) -> Seq<u8> {
        self.rectangle.encoding() + self.override_redirect.encoding()
    }

    proof fn lemma_encoding(a: &Self, b: &Self) {
        Rectangle::lemma_encoding(&a.rectangle, &b.rectangle);
        u32::lemma_encoding(&a.override_redirect, &b.override_redirect);
        if a.encoding() == b.encoding() {
            lemma_split(
                a.rectangle.encoding(),
                a.override_redirect.encoding(),
                b.rectangle.encoding(),
                b.override_redirect.encoding(),
            );
        }
    }

    fn size() -> (n: usize) {
        20
    }

    fn encode_into(&self, out: &mut Vec<u8>) {
        self.rectangle.encode_into(out);
        self.override_redirect.encode_into(out);
        assert(out@ =~= old(out)@ + self.encoding());
    }

    fn decode_at(bytes: &[u8], at: usize) -> (v: Self) {
        assert(bytes@.len() == bytes.len());
        let rectangle = Rectangle::decode_at(bytes, at);
        let override_redirect = u32::decode_at(bytes, at + 16);
        let v = Configure { rectangle, override_redirect };
        assert(v.encoding() =~= bytes@.subrange(at as int, at + 20));
        v
    }
}

impl Message for Configure {
    open spec fn spec_kind() -> Msg {
        Msg::Configure
    }

    fn kind() -> (k: Msg) {
        Msg::Configure
    }
}

/// Agent ⇒ daemon: Update the given region of the window from the contents
/// of shared memory.
#[derive(Debug, Clone, Copy, PartialEq, Eq, Default)]
pub struct ShmImage {
    /// Rectangle to update.
    pub rectangle: Rectangle,
}

impl Wire for ShmImage {
    open spec fn spec_size() -> nat {
        16
    }

    open spec fn encoding(&self) -> Seq<u8> {
        self.rectangle.encoding()
    }

    proof fn lemma_encoding(a: &Self, b: &Self) {
        Rectangle::lemma_encoding(&a.rectangle, &b.rectangle);
    }

    fn size() -> (n: usize) {
        16
    }

    fn encode_into(&self, out: &mut Vec<u8>) {
        self.rectangle.encode_into(out);
    }

    fn decode_at(bytes: &[u8], at: usize) -> (v: Self) {
        let rectangle = Rectangle::decode_at(bytes, at);
        let v = ShmImage { rectangle };
        assert(v.encoding() =~= bytes@.subrange(at as int, at + 16));
        v
    }
}

impl Message for ShmImage {
    open spec fn spec_kind() -> Msg {
        Msg::ShmImage
    }

    fn kind() -> (k: Msg) {
        Msg::ShmImage
    }
}

/// Daemon ⇒ agent: Focus event.
#[derive(Debug, Clone, Copy, PartialEq, Eq, Default)]
pub struct Focus {
    /// The type of event: `EV_FOCUS_IN` or `EV_FOCUS_OUT`.
    pub ty: u32,
    /// The X11 event mode.  Not used in the protocol; daemons set it to 0.
    pub mode: u32,
    /// The X11 event detail, between 0 and 7 inclusive.
    pub detail: u32,
}

impl Wire for Focus {
    open spec fn spec_size() -> nat {
        12
    }

    open spec fn encoding(&self) -> Seq<u8> {
        self.ty.encoding() + self.mode.encoding() + self.detail.encoding()
    }

    proof fn lemma_encoding(a: &Self, b: &Self) {
        u32::lemma_encoding(&a.ty, &b.ty);
        u32::lemma_encoding(&a.mode, &b.mode);
        u32::lemma_encoding(&a.detail, &b.detail);
        if a.encoding() == b.encoding() {
            lemma_split(
                a.ty.encoding() + a.mode.encoding(),
                a.detail.encoding(),
                b.ty.encoding() + b.mode.encoding(),
                b.detail.encoding(),
            );
            lemma_split(a.ty.encoding(), a.mode.encoding(), b.ty.encoding(), b.mode.encoding());
        }
    }

    fn size() -> (n: usize) {
        12
    }

    fn encode_into(&self, out: &mut Vec<u8>) {
        self.ty.encode_into(out);
        self.mode.encode_into(out);
        self.detail.encode_into(out);
        assert(out@ =~= old(out)@ + self.encoding());
    }

    fn decode_at(bytes: &[u8], at: usize) -> (v: Self) {
        assert(bytes@.len() == bytes.len());
        let ty = u32::decode_at(bytes, at);
        let mode = u32::decode_at(bytes, at + 4);
        let detail = u32::decode_at(bytes, at + 8);
        let v = Focus { ty, mode, detail };
        assert(v.encoding() =~= bytes@.subrange(at as int, at + 12));
        v
    }
}

impl Message for Focus {
    open spec fn spec_kind() -> Msg {
        Msg::Focus
    }

    fn kind() -> (k: Msg) {
        Msg::Focus
    }
}

/// Agent ⇒ daemon: Set the window name.
#[derive(Debug, Clone, Copy, PartialEq, Eq)]
pub struct WMName {
    /// NUL-terminated name.
    pub data: [u8; 128],
}

impl Default for WMName {
    /// The value whose bytes are all zero.
    fn default() -> (zero: Self)
        ensures
            zero.encoding() == Seq::new(128, |i: int| 0u8),
    {
        let zero = WMName { data: [0u8; 128] };
        assert(zero.encoding() =~= Seq::new(128, |i: int| 0u8));
        zero
    }
}

impl Wire for WMName {
    open spec fn spec_size() -> nat {
        128
    }

    open spec fn encoding(&self) -> Seq<u8> {
        self.data.encoding()
    }

    proof fn lemma_encoding(a: &Self, b: &Self) {
        <[u8; 128] as Wire>::lemma_encoding(&a.data, &b.data);
    }

    fn size() -> (n: usize) {
        128
    }

    fn encode_into(&self, out: &mut Vec<u8>) {
        self.data.encode_into(out);
    }

    fn decode_at(bytes: &[u8], at: usize) -> (v: Self) {
        let data = <[u8; 128] as Wire>::decode_at(bytes, at);
        let v = WMName { data };
        assert(v.encoding() =~= bytes@.subrange(at as int, at + 128));
        v
    }
}

impl Message for WMName {
    open spec fn spec_kind() -> Msg {
        Msg::SetTitle
    }

    fn kind() -> (k: Msg) {
        Msg::SetTitle
    }
}

/// Agent ⇒ daemon: Unmap the window.  Unmapping a window that is not
/// currently mapped has no effect.
#[derive(Debug, Clone, Copy, PartialEq, Eq, Default)]
pub struct Unmap {
}

impl Wire for Unmap {
    open spec fn spec_size() -> nat {
        0
    }

    open spec fn encoding(&self) -> Seq<u8> {
        Seq::empty()
    }

    proof fn lemma_encoding(a: &Self, b: &Self) {
    }

    fn size() -> (n: usize) {
        0
    }

    fn encode_into(&self, out: &mut Vec<u8>) {
        assert(out@ =~= old(out)@ + self.encoding());
    }

    fn decode_at(bytes: &[u8], at: usize) -> (v: Self) {
        let v = Unmap {  };
        assert(v.encoding() =~= bytes@.subrange(at as int, at + 0));
        v
    }
}

impl Message for Unmap {
    open spec fn spec_kind() -> Msg {
        Msg::Unmap
    }

    fn kind() -> (k: Msg) {
        Msg::Unmap
    }
}

/// Agent ⇒ daemon: Dock the window.  Docking an already-docked window has
/// no effect.
#[derive(Debug, Clone, Copy, PartialEq, Eq, Default)]
pub struct Dock {
}

impl Wire for Dock {
    open spec fn spec_size() -> nat {
        0
    }

    open spec fn encoding(&self) -> Seq<u8> {
        Seq::empty()
    }

    proof fn lemma_encoding(a: &Self, b: &Self) {
    }

    fn size() -> (n: usize) {
        0
    }

    fn encode_into(&self, out: &mut Vec<u8>) {
        assert(out@ =~= old(out)@ + self.encoding());
    }

    fn decode_at(bytes: &[u8], at: usize) -> (v: Self) {
        let v = Dock {  };
        assert(v.encoding() =~= bytes@.subrange(at as int, at + 0));
        v
    }
}

impl Message for Dock {
    open spec fn spec_kind() -> Msg {
        Msg::Dock
    }

    fn kind() -> (k: Msg) {
        Msg::Dock
    }
}

/// Agent ⇒ daemon: Destroy the window.
#[derive(Debug, Clone, Copy, PartialEq, Eq, Default)]
pub struct Destroy {
}

impl Wire for Destroy {
    open spec fn spec_size() -> nat {
        0
    }

    open spec fn encoding(&self) -> Seq<u8> {
        Seq::empty()
    }

    proof fn lemma_encoding(a: &Self, b: &Self) {
    }

    fn size() -> (n: usize) {
        0
    }

    fn encode_into(&self, out: &mut Vec<u8>) {
        assert(out@ =~= old(out)@ + self.encoding());
    }

    fn decode_at(bytes: &[u8], at: usize) -> (v: Self) {
        let v = Destroy {  };
        assert(v.encoding() =~= bytes@.subrange(at as int, at + 0));
        v
    }
}

impl Message for Destroy {
    open spec fn spec_kind() -> Msg {
        Msg::Destroy
    }

    fn kind() -> (k: Msg) {
        Msg::Destroy
    }
}

/// Daemon ⇒ agent: Keymap change notification.
#[derive(Debug, Clone, Copy, PartialEq, Eq, Default)]
pub struct KeymapNotify {
    /// X11 keymap, as returned by XQueryKeymap().
    pub keys: [u8; 32],
}

impl Wire for KeymapNotify {
    open spec fn spec_size() -> nat {
        32
    }

    open spec fn encoding(&self) -> Seq<u8> {
        self.keys.encoding()
    }

    proof fn lemma_encoding(a: &Self, b: &Self) {
        <[u8; 32] as Wire>::lemma_encoding(&a.keys, &b.keys);
    }

    fn size() -> (n: usize) {
        32
    }

    fn encode_into(&self, out: &mut Vec<u8>) {
        self.keys.encode_into(out);
    }

    fn decode_at(bytes: &[u8], at: usize) -> (v: Self) {
        let keys = <[u8; 32] as Wire>::decode_at(bytes, at);
        let v = KeymapNotify { keys };
        assert(v.encoding() =~= bytes@.subrange(at as int, at + 32));
        v
    }
}

impl Message for KeymapNotify {
    open spec fn spec_kind() -> Msg {
        Msg::KeymapNotify
    }

    fn kind() -> (k: Msg) {
        Msg::KeymapNotify
    }
}

/// Agent ⇒ daemon: Set window hints.
#[derive(Debug, Clone, Copy, PartialEq, Eq, Default)]
pub struct WindowHints {
    /// Which elements are valid; a bitmask of `WindowHintsFlags`.
    pub flags: u32,
    /// Minimum size.
    pub min_size: WindowSize,
    /// Maximum size.
    pub max_size: WindowSize,
    /// Size increment.
    pub size_increment: WindowSize,
    /// Base size.
    pub size_base: WindowSize,
}

impl Wire for WindowHints {
    open spec fn spec_size() -> nat {
        36
    }

    open spec fn encoding(&self) -> Seq<u8> {
        self.flags.encoding()
            + self.min_size.encoding()
            + self.max_size.encoding()
            + self.size_increment.encoding()
            + self.size_base.encoding()
    }

    proof fn lemma_encoding(a: &Self, b: &Self) {
        u32::lemma_encoding(&a.flags, &b.flags);
        WindowSize::lemma_encoding(&a.min_size, &b.min_size);
        WindowSize::lemma_encoding(&a.max_size, &b.max_size);
        WindowSize::lemma_encoding(&a.size_increment, &b.size_increment);
        WindowSize::lemma_encoding(&a.size_base, &b.size_base);
        if a.encoding() == b.encoding() {
            lemma_split(
                a.flags.encoding()
                    + a.min_size.encoding()
                    + a.max_size.encoding()
                    + a.size_increment.encoding(),
                a.size_base.encoding(),
                b.flags.encoding()
                    + b.min_size.encoding()
                    + b.max_size.encoding()
                    + b.size_increment.encoding(),
                b.size_base.encoding(),
            );
            lemma_split(
                a.flags.encoding() + a.min_size.encoding() + a.max_size.encoding(),
                a.size_increment.encoding(),
                b.flags.encoding() + b.min_size.encoding() + b.max_size.encoding(),
                b.size_increment.encoding(),
            );
            lemma_split(
                a.flags.encoding() + a.min_size.encoding(),
                a.max_size.encoding(),
                b.flags.encoding() + b.min_size.encoding(),
                b.max_size.encoding(),
            );
            lemma_split(
                a.flags.encoding(),
                a.min_size.encoding(),
                b.flags.encoding(),
                b.min_size.encoding(),
            );
        }
    }

    fn size() -> (n: usize) {
        36
    }

    fn encode_into(&self, out: &mut Vec<u8>) {
        self.flags.encode_into(out);
        self.min_size.encode_into(out);
        self.max_size.encode_into(out);
        self.size_increment.encode_into(out);
        self.size_base.encode_into(out);
        assert(out@ =~= old(out)@ + self.encoding());
    }

    fn decode_at(bytes: &[u8], at: usize) -> (v: Self) {
        assert(bytes@.len() == bytes.len());
        let flags = u32::decode_at(bytes, at);
        let min_size = WindowSize::decode_at(bytes, at + 4);
        let max_size = WindowSize::decode_at(bytes, at + 12);
        let size_increment = WindowSize::decode_at(bytes, at + 20);
        let size_base = WindowSize::decode_at(bytes, at + 28);
        let v = WindowHints { flags, min_size, max_size, size_increment, size_base };
        assert(v.encoding() =~= bytes@.subrange(at as int, at + 36));
        v
    }
}

impl Message for WindowHints {
    open spec fn spec_kind() -> Msg {
        Msg::WindowHints
    }

    fn kind() -> (k: Msg) {
        Msg::WindowHints
    }
}

/// Bidirectional: Set window flags.
#[derive(Debug, Clone, Copy, PartialEq, Eq, Default)]
pub struct WindowFlags {
    /// Flags to set; a bitmask of `WindowFlag`.
    pub set: u32,
    /// Flags to unset; a bitmask of `WindowFlag`.
    pub unset: u32,
}

impl Wire for WindowFlags {
    open spec fn spec_size() -> nat {
        8
    }

    open spec fn encoding(&self) -> Seq<u8> {
        self.set.encoding() + self.unset.encoding()
    }

    proof fn lemma_encoding(a: &Self, b: &Self) {
        u32::lemma_encoding(&a.set, &b.set);
        u32::lemma_encoding(&a.unset, &b.unset);
        if a.encoding() == b.encoding() {
            lemma_split(a.set.encoding(), a.unset.encoding(), b.set.encoding(), b.unset.encoding());
        }
    }

    fn size() -> (n: usize) {
        8
    }

    fn encode_into(&self, out: &mut Vec<u8>) {
        self.set.encode_into(out);
        self.unset.encode_into(out);
        assert(out@ =~= old(out)@ + self.encoding());
    }

    fn decode_at(bytes: &[u8], at: usize) -> (v: Self) {
        assert(bytes@.len() == bytes.len());
        let set = u32::decode_at(bytes, at);
        let unset = u32::decode_at(bytes, at + 4);
        let v = WindowFlags { set, unset };
        assert(v.encoding() =~= bytes@.subrange(at as int, at + 8));
        v
    }
}

impl Message for WindowFlags {
    open spec fn spec_kind() -> Msg {
        Msg::WindowFlags
    }

    fn kind() -> (k: Msg) {
        Msg::WindowFlags
    }
}

/// Agent ⇒ daemon: map mfns, deprecated.
#[derive(Debug, Clone, Copy, PartialEq, Eq, Default)]
pub struct ShmCmd {
    /// ID of the shared memory segment.  Unused; should be 0.
    pub shmid: u32,
    /// Width of the rectangle to update.
    pub width: u32,
    /// Height of the rectangle to update.
    pub height: u32,
    /// Bits per pixel; must be 24.
    pub bpp: u32,
    /// Offset from first page.  Must be less than 4096.
    pub off: u32,
    /// Number of pages to map.  These follow this struct.
    pub num_mfn: u32,
    /// Source domain ID.  Unused; should be 0.
    pub domid: u32,
}

impl Wire for ShmCmd {
    open spec fn spec_size() -> nat {
        28
    }

    open spec fn encoding(&self) -> Seq<u8> {
        self.shmid.encoding()
            + self.width.encoding()
            + self.height.encoding()
            + self.bpp.encoding()
            + self.off.encoding()
            + self.num_mfn.encoding()
            + self.domid.encoding()
    }

    proof fn lemma_encoding(a: &Self, b: &Self) {
        u32::lemma_encoding(&a.shmid, &b.shmid);
        u32::lemma_encoding(&a.width, &b.width);
        u32::lemma_encoding(&a.height, &b.height);
        u32::lemma_encoding(&a.bpp, &b.bpp);
        u32::lemma_encoding(&a.off, &b.off);
        u32::lemma_encoding(&a.num_mfn, &b.num_mfn);
        u32::lemma_encoding(&a.domid, &b.domid);
        if a.encoding() == b.encoding() {
            lemma_split(
                a.shmid.encoding()
                    + a.width.encoding()
                    + a.height.encoding()
                    + a.bpp.encoding()
                    + a.off.encoding()
                    + a.num_mfn.encoding(),
                a.domid.encoding(),
                b.shmid.encoding()
                    + b.width.encoding()
                    + b.height.encoding()
                    + b.bpp.encoding()
                    + b.off.encoding()
                    + b.num_mfn.encoding(),
                b.domid.encoding(),
            );
            lemma_split(
                a.shmid.encoding()
                    + a.width.encoding()
                    + a.height.encoding()
                    + a.bpp.encoding()
                    + a.off.encoding(),
                a.num_mfn.encoding(),
                b.shmid.encoding()
                    + b.width.encoding()
                    + b.height.encoding()
                    + b.bpp.encoding()
                    + b.off.encoding(),
                b.num_mfn.encoding(),
            );
            lemma_split(
                a.shmid.encoding() + a.width.encoding() + a.height.encoding() + a.bpp.encoding(),
                a.off.encoding(),
                b.shmid.encoding() + b.width.encoding() + b.height.encoding() + b.bpp.encoding(),
                b.off.encoding(),
            );
            lemma_split(
                a.shmid.encoding() + a.width.encoding() + a.height.encoding(),
                a.bpp.encoding(),
                b.shmid.encoding() + b.width.encoding() + b.height.encoding(),
                b.bpp.encoding(),
            );
            lemma_split(
                a.shmid.encoding() + a.width.encoding(),
                a.height.encoding(),
                b.shmid.encoding() + b.width.encoding(),
                b.height.encoding(),
            );
            lemma_split(
                a.shmid.encoding(),
                a.width.encoding(),
                b.shmid.encoding(),
                b.width.encoding(),
            );
        }
    }

    fn size() -> (n: usize) {
        28
    }

    fn encode_into(&self, out: &mut Vec<u8>) {
        self.shmid.encode_into(out);
        self.width.encode_into(out);
        self.height.encode_into(out);
        self.bpp.encode_into(out);
        self.off.encode_into(out);
        self.num_mfn.encode_into(out);
        self.domid.encode_into(out);
        assert(out@ =~= old(out)@ + self.encoding());
    }

    fn decode_at(bytes: &[u8], at: usize) -> (v: Self) {
        assert(bytes@.len() == bytes.len());
        let shmid = u32::decode_at(bytes, at);
        let width = u32::decode_at(bytes, at + 4);
        let height = u32::decode_at(bytes, at + 8);
        let bpp = u32::decode_at(bytes, at + 12);
        let off = u32::decode_at(bytes, at + 16);
        let num_mfn = u32::decode_at(bytes, at + 20);
        let domid = u32::decode_at(bytes, at + 24);
        let v = ShmCmd { shmid, width, height, bpp, off, num_mfn, domid };
        assert(v.encoding() =~= bytes@.subrange(at as int, at + 28));
        v
    }
}

impl Message for ShmCmd {
    open spec fn spec_kind() -> Msg {
        Msg::ShmImage
    }

    fn kind() -> (k: Msg) {
        Msg::ShmImage
    }
}

/// Agent ⇒ daemon: set window class.
#[derive(Debug, Clone, Copy, PartialEq, Eq)]
pub struct WMClass {
    /// Window class.
    pub res_class: [u8; 64],
    /// Window name.
    pub res_name: [u8; 64],
}

impl Default for WMClass {
    /// The value whose bytes are all zero.
    fn default() -> (zero: Self)
        ensures
            zero.encoding() == Seq::new(128, |i: int| 0u8),
    {
        let zero = WMClass { res_class: [0u8; 64], res_name: [0u8; 64] };
        assert(zero.encoding() =~= Seq::new(128, |i: int| 0u8));
        zero
    }
}

impl Wire for WMClass {
    open spec fn spec_size() -> nat {
        128
    }

    open spec fn encoding(&self) -> Seq<u8> {
        self.res_class.encoding() + self.res_name.encoding()
    }

    proof fn lemma_encoding(a: &Self, b: &Self) {
        <[u8; 64] as Wire>::lemma_encoding(&a.res_class, &b.res_class);
        <[u8; 64] as Wire>::lemma_encoding(&a.res_name, &b.res_name);
        if a.encoding() == b.encoding() {
            lemma_split(
                a.res_class.encoding(),
                a.res_name.encoding(),
                b.res_class.encoding(),
                b.res_name.encoding(),
            );
        }
    }

    fn size() -> (n: usize) {
        128
    }

    fn encode_into(&self, out: &mut Vec<u8>) {
        self.res_class.encode_into(out);
        self.res_name.encode_into(out);
        assert(out@ =~= old(out)@ + self.encoding());
    }

    fn decode_at(bytes: &[u8], at: usize) -> (v: Self) {
        assert(bytes@.len() == bytes.len());
        let res_class = <[u8; 64] as Wire>::decode_at(bytes, at);
        let res_name = <[u8; 64] as Wire>::decode_at(bytes, at + 64);
        let v = WMClass { res_class, res_name };
        assert(v.encoding() =~= bytes@.subrange(at as int, at + 128));
        v
    }
}

impl Message for WMClass {
    open spec fn spec_kind() -> Msg {
        Msg::WindowClass
    }

    fn kind() -> (k: Msg) {
        Msg::WindowClass
    }
}

/// Agent ⇒ daemon: Header of a window dump message.  The grant
/// references follow it, 32 bits each.
#[derive(Debug, Clone, Copy, PartialEq, Eq, Default)]
pub struct WindowDumpHeader {
    /// Type of message.
    pub ty: u32,
    /// Width in pixels.
    pub width: u32,
    /// Height in pixels.
    pub height: u32,
    /// Bits per pixel.  Must be 24.
    pub bpp: u32,
}

impl Wire for WindowDumpHeader {
    open spec fn spec_size() -> nat {
        16
    }

    open spec fn encoding(&self) -> Seq<u8> {
        self.ty.encoding()
            + self.width.encoding()
            + self.height.encoding()
            + self.bpp.encoding()
    }

    proof fn lemma_encoding(a: &Self, b: &Self) {
        u32::lemma_encoding(&a.ty, &b.ty);
        u32::lemma_encoding(&a.width, &b.width);
        u32::lemma_encoding(&a.height, &b.height);
        u32::lemma_encoding(&a.bpp, &b.bpp);
        if a.encoding() == b.encoding() {
            lemma_split(
                a.ty.encoding() + a.width.encoding() + a.height.encoding(),
                a.bpp.encoding(),
                b.ty.encoding() + b.width.encoding() + b.height.encoding(),
                b.bpp.encoding(),
            );
            lemma_split(
                a.ty.encoding() + a.width.encoding(),
                a.height.encoding(),
                b.ty.encoding() + b.width.encoding(),
                b.height.encoding(),
            );
            lemma_split(a.ty.encoding(), a.width.encoding(), b.ty.encoding(), b.width.encoding());
        }
    }

    fn size() -> (n: usize) {
        16
    }

    fn encode_into(&self, out: &mut Vec<u8>) {
        self.ty.encode_into(out);
        self.width.encode_into(out);
        self.height.encode_into(out);
        self.bpp.encode_into(out);
        assert(out@ =~= old(out)@ + self.encoding());
    }

    fn decode_at(bytes: &[u8], at: usize) -> (v: Self) {
        assert(bytes@.len() == bytes.len());
        let ty = u32::decode_at(bytes, at);
        let width = u32::decode_at(bytes, at + 4);
        let height = u32::decode_at(bytes, at + 8);
        let bpp = u32::decode_at(bytes, at + 12);
        let v = WindowDumpHeader { ty, width, height, bpp };
        assert(v.encoding() =~= bytes@.subrange(at as int, at + 16));
        v
    }
}

impl Message for WindowDumpHeader {
    open spec fn spec_kind() -> Msg {
        Msg::WindowDump
    }

    fn kind() -> (k: Msg) {
        Msg::WindowDump
    }
}

/// Agent ⇒ daemon: Set the cursor of a window.
#[derive(Debug, Clone, Copy, PartialEq, Eq, Default)]
pub struct Cursor {
    /// Type of cursor: `CURSOR_DEFAULT`, or `CURSOR_X11` plus the number of
    /// an X11 cursor.
    pub cursor: u32,
}

impl Wire for Cursor {
    open spec fn spec_size() -> nat {
        4
    }

    open spec fn encoding(&self) -> Seq<u8> {
        self.cursor.encoding()
    }

    proof fn lemma_encoding(a: &Self, b: &Self) {
        u32::lemma_encoding(&a.cursor, &b.cursor);
    }

    fn size() -> (n: usize) {
        4
    }

    fn encode_into(&self, out: &mut Vec<u8>) {
        self.cursor.encode_into(out);
    }

    fn decode_at(bytes: &[u8], at: usize) -> (v: Self) {
        let cursor = u32::decode_at(bytes, at);
        let v = Cursor { cursor };
        assert(v.encoding() =~= bytes@.subrange(at as int, at + 4));
        v
    }
}

impl Message for Cursor {
    open spec fn spec_kind() -> Msg {
        Msg::Cursor
    }

    fn kind() -> (k: Msg) {
        Msg::Cursor
    }
}

/// Daemon ⇒ agent: Acknowledge a window dump message.
#[derive(Debug, Clone, Copy, PartialEq, Eq, Default)]
pub struct DumpAck {
}

impl Wire for DumpAck {
    open spec fn spec_size() -> nat {
        0
    }

    open spec fn encoding(&self) -> Seq<u8> {
        Seq::empty()
    }

    proof fn lemma_encoding(a: &Self, b: &Self) {
    }

    fn size() -> (n: usize) {
        0
    }

    fn encode_into(&self, out: &mut Vec<u8>) {
        assert(out@ =~= old(out)@ + self.encoding());
    }

    fn decode_at(bytes: &[u8], at: usize) -> (v: Self) {
        let v = DumpAck {  };
        assert(v.encoding() =~= bytes@.subrange(at as int, at + 0));
        v
    }
}

} // verus!
