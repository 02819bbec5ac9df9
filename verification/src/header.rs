//! Message headers, and the rule that decides which of them are valid.
//!
//! Every message starts with a header of twelve bytes: the kind of the
//! message, the window it is directed at, and the length of the body that
//! follows.  The peer is not trusted, so a header as it arrives is an
//! [`UntrustedHeader`].  Only [`UntrustedHeader::validate_length`] makes a
//! [`Header`], and only for a kind that is known with a length that the kind
//! allows.

use vstd::prelude::*;
use crate::kinds::{
    MSG_BUTTON, MSG_CLIPBOARD_DATA, MSG_CLIPBOARD_REQ, MSG_CLOSE, MSG_CONFIGURE, MSG_CREATE,
    MSG_CROSSING, MSG_CURSOR, MSG_DESTROY, MSG_DOCK, MSG_EXECUTE, MSG_FOCUS, MSG_KEYMAP_NOTIFY,
    MSG_KEYPRESS, MSG_MAP, MSG_MFNDUMP, MSG_MOTION, MSG_RESIZE, MSG_SET_TITLE, MSG_SHMIMAGE,
    MSG_UNMAP, MSG_WINDOW_CLASS, MSG_WINDOW_DUMP, MSG_WINDOW_DUMP_ACK, MSG_WINDOW_FLAGS,
    MSG_WINDOW_HINTS,
};
use crate::limits::{MAX_CLIPBOARD_SIZE, MAX_GRANT_REFS_COUNT, MAX_MFN_COUNT};
#[allow(unused_imports)]
use crate::payload::{
    Button, Configure, Cursor, Destroy, Dock, Focus, KeymapNotify, Keypress, MapInfo, Message,
    ShmImage, Unmap, WMClass, WMName, WindowDumpHeader, WindowFlags, WindowHints,
};
use crate::wire::Wire;
#[allow(unused_imports)]
use crate::wire::{lemma_split, lemma_u32_bytes, u32_at};

verus! {

/// A window ID.  Zero is reserved: it stands for the whole screen, or for
/// "no window".  Any other value is a handle that the agent has chosen.
#[derive(Debug, Clone, Copy, PartialEq, Eq, Structural, Default)]
pub struct WindowID {
    /// The window ID, or 0 for the special whole-screen window.  The
    /// whole-screen window always exists.
    pub window: u32,
}

impl WindowID {
    /// Whether this is the reserved ID of the whole screen.
    pub fn is_whole_screen(&self) -> (whole: bool)
        ensures
            whole == (self.window == 0),
    {
        self.window == 0
    }
}

impl From<u32> for WindowID {
    fn from(other: u32) -> (id: WindowID) {
        WindowID { window: other }
    }
}

impl vstd::std_specs::convert::FromSpecImpl<u32> for WindowID {
    open spec fn obeys_from_spec() -> bool {
        true
    }

    open spec fn from_spec(other: u32) -> WindowID {
        WindowID { window: other }
    }
}

impl Wire for WindowID {
    open spec fn spec_size() -> nat {
        4
    }

    open spec fn encoding(&self) -> Seq<u8> {
        self.window.encoding()
    }

    proof fn lemma_encoding(a: &Self, b: &Self) {
        u32::lemma_encoding(&a.window, &b.window);
    }

    fn size() -> (n: usize) {
        4
    }

    fn encode_into(&self, out: &mut Vec<u8>) {
        self.window.encode_into(out);
    }

    fn decode_at(bytes: &[u8], at: usize) -> (v: Self) {
        WindowID { window: u32::decode_at(bytes, at) }
    }
}

/// A message header as it appears on the wire.
#[derive(Debug, Clone, Copy, PartialEq, Eq, Structural, Default)]
pub struct UntrustedHeader {
    /// Type of the message.
    pub ty: u32,
    /// Window to which the message is directed.
    pub window: WindowID,
    /// UNTRUSTED length of the body.  An agent may use it to skip a message
    /// of a kind it does not know; nothing else may rely on it before it has
    /// been validated.
    pub untrusted_len: u32,
}

impl Wire for UntrustedHeader {
    open spec fn spec_size() -> nat {
        12
    }

    open spec fn encoding(&self) -> Seq<u8> {
        self.ty.encoding() + self.window.encoding() + self.untrusted_len.encoding()
    }

    proof fn lemma_encoding(a: &Self, b: &Self) {
        u32::lemma_encoding(&a.ty, &b.ty);
        WindowID::lemma_encoding(&a.window, &b.window);
        u32::lemma_encoding(&a.untrusted_len, &b.untrusted_len);
        if a.encoding() == b.encoding() {
            lemma_split(
                a.ty.encoding() + a.window.encoding(),
                a.untrusted_len.encoding(),
                b.ty.encoding() + b.window.encoding(),
                b.untrusted_len.encoding(),
            );
            lemma_split(a.ty.encoding(), a.window.encoding(), b.ty.encoding(), b.window.encoding());
        }
    }

    fn size() -> (n: usize) {
        12
    }

    fn encode_into(&self, out: &mut Vec<u8>) {
        self.ty.encode_into(out);
        self.window.encode_into(out);
        self.untrusted_len.encode_into(out);
        assert(out@ =~= old(out)@ + self.encoding());
    }

    fn decode_at(bytes: &[u8], at: usize) -> (v: Self) {
        assert(bytes@.len() == bytes.len());
        let ty = u32::decode_at(bytes, at);
        let window = WindowID::decode_at(bytes, at + 4);
        let untrusted_len = u32::decode_at(bytes, at + 8);
        let v = UntrustedHeader { ty, window, untrusted_len };
        assert(v.encoding() =~= bytes@.subrange(at as int, at + 12));
        v
    }
}

impl UntrustedHeader {
    /// The header whose byte image is the first twelve bytes of `bytes`.
    pub open spec fn decoding(bytes: Seq<u8>) -> UntrustedHeader {
        UntrustedHeader {
            ty: u32_at(bytes, 0),
            window: WindowID { window: u32_at(bytes, 4) },
            untrusted_len: u32_at(bytes, 8),
        }
    }

    /// Twelve bytes are the byte image of the header they decode to, and of
    /// no other.
    pub proof fn lemma_decoding(bytes: Seq<u8>, other: UntrustedHeader)
        requires
            bytes.len() == 12,
        ensures
            Self::decoding(bytes).encoding() == bytes,
            other.encoding() == bytes ==> other == Self::decoding(bytes),
    {
        lemma_u32_bytes(0, bytes, 0);
        lemma_u32_bytes(0, bytes, 4);
        lemma_u32_bytes(0, bytes, 8);
        assert(Self::decoding(bytes).encoding() =~= bytes);
        Self::lemma_encoding(&other, &Self::decoding(bytes));
    }
}

/// The rule that the length of a body has to meet.
#[derive(Debug, Clone, Copy, PartialEq, Eq, Structural)]
pub enum LengthRule {
    /// The body has exactly this many bytes.
    Fixed(u32),
    /// The body has at most this many bytes.
    AtMost(u32),
    /// The body is `lead` bytes followed by at most `max_words` words of
    /// four bytes each.
    Words {
        /// Number of bytes before the words.
        lead: u32,
        /// Largest number of words.
        max_words: u32,
    },
    /// No body is valid: the kind is deprecated.
    Never,
}

impl LengthRule {
    /// Whether a body of `len` bytes meets the rule.
    pub open spec fn spec_admits(&self, len: u32) -> bool {
        match *self {
            LengthRule::Fixed(n) => len == n,
            LengthRule::AtMost(n) => len <= n,
            LengthRule::Words { lead, max_words } => {
                &&& len >= lead
                &&& (len - lead) % 4 == 0
                &&& (len - lead) / 4 <= max_words
            },
            LengthRule::Never => false,
        }
    }

    /// Whether a body of `len` bytes meets the rule.
    #[verifier::when_used_as_spec(spec_admits)]
    pub fn admits(&self, len: u32) -> (ok: bool)
        ensures
            ok == self.spec_admits(len),
    {
        match *self {
            LengthRule::Fixed(n) => len == n,
            LengthRule::AtMost(n) => len <= n,
            LengthRule::Words { lead, max_words } => {
                len >= lead && (len - lead) % 4 == 0 && (len - lead) / 4 <= max_words
            },
            LengthRule::Never => false,
        }
    }
}

/// Whether `ty` is the number of a message kind that has a length rule.
/// The obsolete `MSG_RESIZE` is a number of the protocol, but has no rule:
/// it is treated like a number that stands for nothing.
pub open spec fn is_known(ty: u32) -> bool {
    MSG_KEYPRESS <= ty <= MSG_WINDOW_DUMP_ACK && ty != MSG_RESIZE
}

/// Whether a body of `len` bytes is allowed for a message of kind `ty`.
/// No length is allowed for a number that is not known, nor for the
/// deprecated `MSG_EXECUTE`.
pub open spec fn length_allowed(ty: u32, len: u32) -> bool {
    ||| (ty == MSG_KEYPRESS || ty == MSG_BUTTON || ty == MSG_MOTION || ty == MSG_CONFIGURE) && len
        == 20
    ||| (ty == MSG_CROSSING || ty == MSG_WINDOW_HINTS) && len == 36
    ||| ty == MSG_FOCUS && len == 12
    ||| ty == MSG_CREATE && len == 28
    ||| (ty == MSG_MAP || ty == MSG_WINDOW_FLAGS) && len == 8
    ||| ty == MSG_SHMIMAGE && len == 16
    ||| (ty == MSG_SET_TITLE || ty == MSG_WINDOW_CLASS) && len == 128
    ||| ty == MSG_KEYMAP_NOTIFY && len == 32
    ||| ty == MSG_CURSOR && len == 4
    ||| (ty == MSG_DESTROY || ty == MSG_UNMAP || ty == MSG_CLOSE || ty == MSG_CLIPBOARD_REQ || ty
        == MSG_DOCK || ty == MSG_WINDOW_DUMP_ACK) && len == 0
    ||| ty == MSG_CLIPBOARD_DATA && len <= MAX_CLIPBOARD_SIZE
    ||| ty == MSG_MFNDUMP && len % 4 == 0 && len <= MAX_MFN_COUNT * 4
    ||| ty == MSG_WINDOW_DUMP && len >= 16 && (len - 16) % 4 == 0 && (len - 16) / 4
        <= MAX_GRANT_REFS_COUNT
}

/// The length rule of the message kind with the number `ty`, or `None` if
/// the number is not known.
pub fn length_rule(ty: u32) -> (rule: Option<LengthRule>)
    ensures
        rule is Some <==> is_known(ty),
        forall|len: u32| #[trigger]
            length_allowed(ty, len) <==> (rule matches Some(r) && r.spec_admits(len)),
{
    if ty == MSG_KEYPRESS || ty == MSG_BUTTON || ty == MSG_MOTION || ty == MSG_CONFIGURE {
        Some(LengthRule::Fixed(20))
    } else if ty == MSG_CROSSING || ty == MSG_WINDOW_HINTS {
        Some(LengthRule::Fixed(36))
    } else if ty == MSG_FOCUS {
        Some(LengthRule::Fixed(12))
    } else if ty == MSG_CREATE {
        Some(LengthRule::Fixed(28))
    } else if ty == MSG_MAP || ty == MSG_WINDOW_FLAGS {
        Some(LengthRule::Fixed(8))
    } else if ty == MSG_SHMIMAGE {
        Some(LengthRule::Fixed(16))
    } else if ty == MSG_SET_TITLE || ty == MSG_WINDOW_CLASS {
        Some(LengthRule::Fixed(128))
    } else if ty == MSG_KEYMAP_NOTIFY {
        Some(LengthRule::Fixed(32))
    } else if ty == MSG_CURSOR {
        Some(LengthRule::Fixed(4))
    } else if ty == MSG_DESTROY || ty == MSG_UNMAP || ty == MSG_CLOSE || ty == MSG_CLIPBOARD_REQ
        || ty == MSG_DOCK || ty == MSG_WINDOW_DUMP_ACK {
        Some(LengthRule::Fixed(0))
    } else if ty == MSG_CLIPBOARD_DATA {
        Some(LengthRule::AtMost(MAX_CLIPBOARD_SIZE))
    } else if ty == MSG_MFNDUMP {
        Some(LengthRule::Words { lead: 0, max_words: MAX_MFN_COUNT })
    } else if ty == MSG_WINDOW_DUMP {
        Some(LengthRule::Words { lead: 16, max_words: MAX_GRANT_REFS_COUNT })
    } else if ty == MSG_EXECUTE {
        Some(LengthRule::Never)
    } else {
        None
    }
}

/// The longest body that any kind allows.
pub const MAX_BODY_LEN: u32 = 393_232;

/// A length that is allowed belongs to a known kind and is at most
/// `MAX_BODY_LEN`.
pub proof fn lemma_length_allowed(ty: u32, len: u32)
    requires
        length_allowed(ty, len),
    ensures
        is_known(ty),
        ty != MSG_EXECUTE,
        len <= MAX_BODY_LEN,
{
}

/// The payloads whose byte image has a length that their own kind allows.
pub proof fn lemma_payloads_allowed()
    ensures
        length_allowed(Keypress::spec_kind().spec_value(), Keypress::spec_size() as u32),
        length_allowed(Button::spec_kind().spec_value(), Button::spec_size() as u32),
        length_allowed(Focus::spec_kind().spec_value(), Focus::spec_size() as u32),
        length_allowed(MapInfo::spec_kind().spec_value(), MapInfo::spec_size() as u32),
        length_allowed(Configure::spec_kind().spec_value(), Configure::spec_size() as u32),
        length_allowed(ShmImage::spec_kind().spec_value(), ShmImage::spec_size() as u32),
        length_allowed(WMName::spec_kind().spec_value(), WMName::spec_size() as u32),
        length_allowed(KeymapNotify::spec_kind().spec_value(), KeymapNotify::spec_size() as u32),
        length_allowed(WindowHints::spec_kind().spec_value(), WindowHints::spec_size() as u32),
        length_allowed(WindowFlags::spec_kind().spec_value(), WindowFlags::spec_size() as u32),
        length_allowed(WMClass::spec_kind().spec_value(), WMClass::spec_size() as u32),
        length_allowed(
            WindowDumpHeader::spec_kind().spec_value(),
            WindowDumpHeader::spec_size() as u32,
        ),
        length_allowed(Cursor::spec_kind().spec_value(), Cursor::spec_size() as u32),
        length_allowed(Destroy::spec_kind().spec_value(), Destroy::spec_size() as u32),
        length_allowed(Dock::spec_kind().spec_value(), Dock::spec_size() as u32),
        length_allowed(Unmap::spec_kind().spec_value(), Unmap::spec_size() as u32),
{
}

/// Error indicating that the length of a message is bad.
#[derive(Debug, Clone, Copy, PartialEq, Eq, Structural)]
pub struct BadLengthError {
    /// The type of the bad message.
    pub ty: u32,
    /// The length of the bad message.
    pub untrusted_len: u32,
}

/// A header that has been validated: its kind is known and its length is one
/// that the kind allows.
#[derive(Debug, Clone, Copy, PartialEq, Eq, Structural)]
pub struct Header(UntrustedHeader);

impl Header {
    /// The header as it stood on the wire.
    pub closed spec fn spec_inner(&self) -> UntrustedHeader {
        self.0
    }

    /// The header that stood on the wire as `inner`.  Only where the length
    /// of `inner` is allowed does a header of this type exist in a running
    /// program.
    pub closed spec fn of(inner: UntrustedHeader) -> Header {
        Header(inner)
    }

    /// A header is what stood on the wire, and nothing more.
    pub proof fn lemma_of(inner: UntrustedHeader, header: Header)
        ensures
            Header::of(inner).spec_inner() == inner,
            Header::of(header.spec_inner()) == header,
    {
    }

    /// What holds of every header of this type.
    #[verifier::type_invariant]
    pub open spec fn valid(self) -> bool {
        length_allowed(self.spec_inner().ty, self.spec_inner().untrusted_len)
    }

    /// Get the type of the header as a u32.
    ///
    /// The type is guaranteed to be a valid message type.
    pub fn ty(&self) -> (ty: u32)
        ensures
            ty == self.spec_inner().ty,
            is_known(ty),
    {
        proof {
            use_type_invariant(self);
            lemma_length_allowed(self.0.ty, self.0.untrusted_len);
        }
        self.0.ty
    }

    /// Get the window ID of the header.  This has not been validated.
    pub fn untrusted_window(&self) -> (window: WindowID)
        ensures
            window == self.spec_inner().window,
    {
        self.0.window
    }

    /// Get the length of the body that the header announces.
    ///
    /// It is safe to use this length to e.g. allocate a buffer: it is
    /// guaranteed to be a valid length for the given message type.
    pub fn len(&self) -> (len: usize)
        ensures
            len == self.spec_inner().untrusted_len,
            length_allowed(self.spec_inner().ty, self.spec_inner().untrusted_len),
            len <= MAX_BODY_LEN,
    {
        proof {
            use_type_invariant(self);
            lemma_length_allowed(self.0.ty, self.0.untrusted_len);
        }
        self.0.untrusted_len as usize
    }

    /// Obtain the inner [`UntrustedHeader`].  Calling
    /// [`UntrustedHeader::validate_length`] on the return value gives this
    /// header again.
    #[verifier::when_used_as_spec(spec_inner)]
    pub fn inner(&self) -> (inner: UntrustedHeader)
        ensures
            inner == self.spec_inner(),
            length_allowed(inner.ty, inner.untrusted_len),
    {
        proof {
            use_type_invariant(self);
        }
        self.0
    }
}

impl UntrustedHeader {
    /// Validate that the length of this header is correct.
    ///
    /// If the kind is known and the length is allowed for it, returns the
    /// validated [`Header`] wrapped in `Ok(Some())`.  If the kind is not
    /// known, returns `Ok(None)`.
    ///
    /// # Errors
    ///
    /// Returns an error if the kind is known and the length is not allowed
    /// for it.  No length is allowed for the deprecated `MSG_EXECUTE`.
    pub fn validate_length(&self) -> (r: Result<Option<Header>, BadLengthError>)
        ensures
            length_allowed(self.ty, self.untrusted_len) ==> {
                &&& r matches Ok(Some(header))
                &&& header == Header::of(*self)
                &&& header.spec_inner() == *self
                &&& header.valid()
            },
            !is_known(self.ty) ==> r == Ok::<Option<Header>, BadLengthError>(None),
            is_known(self.ty) && !length_allowed(self.ty, self.untrusted_len) ==> r == Err::<
                Option<Header>,
                BadLengthError,
            >(BadLengthError { ty: self.ty, untrusted_len: self.untrusted_len }),
    {
        match length_rule(self.ty) {
            None => Ok(None),
            Some(rule) => {
                if rule.admits(self.untrusted_len) {
                    Ok(Some(Header(*self)))
                } else {
                    Err(BadLengthError { ty: self.ty, untrusted_len: self.untrusted_len })
                }
            },
        }
    }
}

} // verus!
