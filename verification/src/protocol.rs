//! Message types of the ZRP wire protocol, version 1.0.
//!
//! These are plain data. Enumerations travel as `i32` codes inside messages;
//! each enumeration here gives its code and reads one back.

use vstd::prelude::*;

pub mod color;
pub mod input_event;
pub mod key_event;
pub mod protocol_error;

verus! {

#[derive(Clone, Copy, Debug, PartialEq, Eq, Structural)]
pub struct ProtocolVersion {
    pub major: u32,
    pub minor: u32,
}

#[derive(Clone, Copy, Debug, PartialEq, Eq, Structural)]
pub struct Capabilities {
    pub supports_datagrams: bool,
    pub max_datagram_bytes: u32,
    pub supports_style_dictionary: bool,
    pub supports_styled_underlines: bool,
    pub supports_prediction: bool,
    pub supports_images: bool,
    pub supports_clipboard: bool,
    pub supports_hyperlinks: bool,
}

#[derive(Clone, Debug, PartialEq, Eq)]
pub struct ClientHello {
    pub version: Option<ProtocolVersion>,
    pub capabilities: Option<Capabilities>,
    pub client_name: String,
    pub bearer_token: Vec<u8>,
    pub resume_token: Vec<u8>,
}

#[derive(Clone, Copy, Debug, PartialEq, Eq, Structural)]
pub enum SessionState {
    Unspecified,
    Running,
    Created,
    Resurrected,
}

impl SessionState {
    pub open spec fn spec_code(self) -> i32 {
        match self {
            SessionState::Unspecified => 0i32,
            SessionState::Running => 1i32,
            SessionState::Created => 2i32,
            SessionState::Resurrected => 3i32,
        }
    }

    pub fn code(self) -> (r: i32)
        ensures
            r == self.spec_code(),
    {
        match self {
            SessionState::Unspecified => 0,
            SessionState::Running => 1,
            SessionState::Created => 2,
            SessionState::Resurrected => 3,
        }
    }
}

#[derive(Clone, Copy, Debug, PartialEq, Eq, Structural)]
pub enum ControllerPolicy {
    Unspecified,
    LastWriterWins,
    ExplicitOnly,
}

impl ControllerPolicy {
    pub open spec fn spec_code(self) -> i32 {
        match self {
            ControllerPolicy::Unspecified => 0i32,
            ControllerPolicy::LastWriterWins => 1i32,
            ControllerPolicy::ExplicitOnly => 2i32,
        }
    }

    pub fn code(self) -> (r: i32)
        ensures
            r == self.spec_code(),
    {
        match self {
            ControllerPolicy::Unspecified => 0,
            ControllerPolicy::LastWriterWins => 1,
            ControllerPolicy::ExplicitOnly => 2,
        }
    }
}

#[derive(Clone, Copy, Debug, PartialEq, Eq, Structural)]
pub struct DisplaySize {
    pub cols: u32,
    pub rows: u32,
}

#[derive(Clone, Copy, Debug, PartialEq, Eq, Structural)]
pub struct ControllerLease {
    pub lease_id: u64,
    pub owner_client_id: u64,
    pub policy: i32,
    pub current_size: Option<DisplaySize>,
    pub remaining_ms: u32,
    pub duration_ms: u32,
}

#[derive(Clone, Debug, PartialEq, Eq)]
pub struct ServerHello {
    pub negotiated_version: Option<ProtocolVersion>,
    pub negotiated_capabilities: Option<Capabilities>,
    pub client_id: u64,
    pub session_name: String,
    pub session_state: i32,
    pub lease: Option<ControllerLease>,
    pub resume_token: Vec<u8>,
    pub snapshot_interval_ms: u32,
    pub max_inflight_inputs: u32,
    pub render_window: u32,
}

#[derive(Clone, Debug, PartialEq, Eq)]
pub struct RequestControl {
    pub reason: String,
    pub desired_size: Option<DisplaySize>,
    pub force: bool,
}

#[derive(Clone, Copy, Debug, PartialEq, Eq, Structural)]
pub struct GrantControl {
    pub lease: Option<ControllerLease>,
}

#[derive(Clone, Debug, PartialEq, Eq)]
pub struct DenyControl {
    pub reason: String,
    pub lease: Option<ControllerLease>,
}

/// Modifier bits of a key or mouse event: 0x1 Shift, 0x2 Alt, 0x4 Ctrl, 0x8 Super.
#[derive(Clone, Copy, Debug, PartialEq, Eq, Structural)]
pub struct KeyModifiers {
    pub bits: u32,
}

#[derive(Clone, Copy, Debug, PartialEq, Eq, Structural)]
pub enum SpecialKey {
    Unspecified,
    Enter,
    Escape,
    Backspace,
    Tab,
    Left,
    Right,
    Up,
    Down,
    Home,
    End,
    PageUp,
    PageDown,
    Insert,
    Delete,
    F1,
    F2,
    F3,
    F4,
    F5,
    F6,
    F7,
    F8,
    F9,
    F10,
    F11,
    F12,
}

impl SpecialKey {
    pub open spec fn spec_code(self) -> i32 {
        match self {
            SpecialKey::Unspecified => 0i32,
            SpecialKey::Enter => 1i32,
            SpecialKey::Escape => 2i32,
            SpecialKey::Backspace => 3i32,
            SpecialKey::Tab => 4i32,
            SpecialKey::Left => 5i32,
            SpecialKey::Right => 6i32,
            SpecialKey::Up => 7i32,
            SpecialKey::Down => 8i32,
            SpecialKey::Home => 9i32,
            SpecialKey::End => 10i32,
            SpecialKey::PageUp => 11i32,
            SpecialKey::PageDown => 12i32,
            SpecialKey::Insert => 13i32,
            SpecialKey::Delete => 14i32,
            SpecialKey::F1 => 15i32,
            SpecialKey::F2 => 16i32,
            SpecialKey::F3 => 17i32,
            SpecialKey::F4 => 18i32,
            SpecialKey::F5 => 19i32,
            SpecialKey::F6 => 20i32,
            SpecialKey::F7 => 21i32,
            SpecialKey::F8 => 22i32,
            SpecialKey::F9 => 23i32,
            SpecialKey::F10 => 24i32,
            SpecialKey::F11 => 25i32,
            SpecialKey::F12 => 26i32,
        }
    }

    pub fn code(self) -> (r: i32)
        ensures
            r == self.spec_code(),
    {
        match self {
            SpecialKey::Unspecified => 0,
            SpecialKey::Enter => 1,
            SpecialKey::Escape => 2,
            SpecialKey::Backspace => 3,
            SpecialKey::Tab => 4,
            SpecialKey::Left => 5,
            SpecialKey::Right => 6,
            SpecialKey::Up => 7,
            SpecialKey::Down => 8,
            SpecialKey::Home => 9,
            SpecialKey::End => 10,
            SpecialKey::PageUp => 11,
            SpecialKey::PageDown => 12,
            SpecialKey::Insert => 13,
            SpecialKey::Delete => 14,
            SpecialKey::F1 => 15,
            SpecialKey::F2 => 16,
            SpecialKey::F3 => 17,
            SpecialKey::F4 => 18,
            SpecialKey::F5 => 19,
            SpecialKey::F6 => 20,
            SpecialKey::F7 => 21,
            SpecialKey::F8 => 22,
            SpecialKey::F9 => 23,
            SpecialKey::F10 => 24,
            SpecialKey::F11 => 25,
            SpecialKey::F12 => 26,
        }
    }

    /// The key with the given code, if the code names one.
    pub open spec fn spec_from_code(code: i32) -> Option<SpecialKey> {
        if code == 0 {
            Some(SpecialKey::Unspecified)
        } else if code == 1 {
            Some(SpecialKey::Enter)
        } else if code == 2 {
            Some(SpecialKey::Escape)
        } else if code == 3 {
            Some(SpecialKey::Backspace)
        } else if code == 4 {
            Some(SpecialKey::Tab)
        } else if code == 5 {
            Some(SpecialKey::Left)
        } else if code == 6 {
            Some(SpecialKey::Right)
        } else if code == 7 {
            Some(SpecialKey::Up)
        } else if code == 8 {
            Some(SpecialKey::Down)
        } else if code == 9 {
            Some(SpecialKey::Home)
        } else if code == 10 {
            Some(SpecialKey::End)
        } else if code == 11 {
            Some(SpecialKey::PageUp)
        } else if code == 12 {
            Some(SpecialKey::PageDown)
        } else if code == 13 {
            Some(SpecialKey::Insert)
        } else if code == 14 {
            Some(SpecialKey::Delete)
        } else if code == 15 {
            Some(SpecialKey::F1)
        } else if code == 16 {
            Some(SpecialKey::F2)
        } else if code == 17 {
            Some(SpecialKey::F3)
        } else if code == 18 {
            Some(SpecialKey::F4)
        } else if code == 19 {
            Some(SpecialKey::F5)
        } else if code == 20 {
            Some(SpecialKey::F6)
        } else if code == 21 {
            Some(SpecialKey::F7)
        } else if code == 22 {
            Some(SpecialKey::F8)
        } else if code == 23 {
            Some(SpecialKey::F9)
        } else if code == 24 {
            Some(SpecialKey::F10)
        } else if code == 25 {
            Some(SpecialKey::F11)
        } else if code == 26 {
            Some(SpecialKey::F12)
        } else {
            None
        }
    }

    pub fn from_code(code: i32) -> (r: Option<SpecialKey>)
        ensures
            r == Self::spec_from_code(code),
            r matches Some(k) ==> k.spec_code() == code,
    {
        if code == 0 {
            Some(SpecialKey::Unspecified)
        } else if code == 1 {
            Some(SpecialKey::Enter)
        } else if code == 2 {
            Some(SpecialKey::Escape)
        } else if code == 3 {
            Some(SpecialKey::Backspace)
        } else if code == 4 {
            Some(SpecialKey::Tab)
        } else if code == 5 {
            Some(SpecialKey::Left)
        } else if code == 6 {
            Some(SpecialKey::Right)
        } else if code == 7 {
            Some(SpecialKey::Up)
        } else if code == 8 {
            Some(SpecialKey::Down)
        } else if code == 9 {
            Some(SpecialKey::Home)
        } else if code == 10 {
            Some(SpecialKey::End)
        } else if code == 11 {
            Some(SpecialKey::PageUp)
        } else if code == 12 {
            Some(SpecialKey::PageDown)
        } else if code == 13 {
            Some(SpecialKey::Insert)
        } else if code == 14 {
            Some(SpecialKey::Delete)
        } else if code == 15 {
            Some(SpecialKey::F1)
        } else if code == 16 {
            Some(SpecialKey::F2)
        } else if code == 17 {
            Some(SpecialKey::F3)
        } else if code == 18 {
            Some(SpecialKey::F4)
        } else if code == 19 {
            Some(SpecialKey::F5)
        } else if code == 20 {
            Some(SpecialKey::F6)
        } else if code == 21 {
            Some(SpecialKey::F7)
        } else if code == 22 {
            Some(SpecialKey::F8)
        } else if code == 23 {
            Some(SpecialKey::F9)
        } else if code == 24 {
            Some(SpecialKey::F10)
        } else if code == 25 {
            Some(SpecialKey::F11)
        } else if code == 26 {
            Some(SpecialKey::F12)
        } else {
            None
        }
    }
}

#[derive(Clone, Copy, Debug, PartialEq, Eq, Structural)]
pub struct KeyEvent {
    pub modifiers: Option<KeyModifiers>,
    pub key: Option<key_event::Key>,
}

#[derive(Clone, Copy, Debug, PartialEq, Eq, Structural)]
pub struct MouseEvent {
    pub kind: i32,
    pub col: u32,
    pub row: u32,
    pub button: i32,
    pub scroll_delta: i32,
    pub modifiers: Option<KeyModifiers>,
}

#[derive(Clone, Debug, PartialEq, Eq)]
pub struct InputEvent {
    pub input_seq: u64,
    pub client_time_ms: u32,
    pub payload: Option<input_event::Payload>,
}

#[derive(Clone, Copy, Debug, PartialEq, Eq, Structural)]
pub struct InputAck {
    pub acked_seq: u64,
    pub rtt_sample_seq: u64,
    pub echoed_client_time_ms: u32,
}

#[derive(Clone, Copy, Debug, PartialEq, Eq, Structural)]
pub struct DefaultColor {}

#[derive(Clone, Copy, Debug, PartialEq, Eq, Structural)]
pub struct Rgb {
    pub r: u32,
    pub g: u32,
    pub b: u32,
}

#[derive(Clone, Copy, Debug, PartialEq, Eq, Structural)]
pub struct Color {
    pub value: Option<color::Value>,
}

#[derive(Clone, Copy, Debug, PartialEq, Eq, Structural)]
pub enum UnderlineStyle {
    Unspecified,
    NoUnderline,
    Single,
    Double,
    Dotted,
    Dashed,
    Curly,
}

impl UnderlineStyle {
    pub open spec fn spec_code(self) -> i32 {
        match self {
            UnderlineStyle::Unspecified => 0i32,
            UnderlineStyle::NoUnderline => 1i32,
            UnderlineStyle::Single => 2i32,
            UnderlineStyle::Double => 3i32,
            UnderlineStyle::Dotted => 4i32,
            UnderlineStyle::Dashed => 5i32,
            UnderlineStyle::Curly => 6i32,
        }
    }

    pub fn code(self) -> (r: i32)
        ensures
            r == self.spec_code(),
    {
        match self {
            UnderlineStyle::Unspecified => 0,
            UnderlineStyle::NoUnderline => 1,
            UnderlineStyle::Single => 2,
            UnderlineStyle::Double => 3,
            UnderlineStyle::Dotted => 4,
            UnderlineStyle::Dashed => 5,
            UnderlineStyle::Curly => 6,
        }
    }
}

#[derive(Clone, Copy, Debug, PartialEq, Eq, Structural)]
pub struct Style {
    pub fg: Option<Color>,
    pub bg: Option<Color>,
    pub bold: bool,
    pub dim: bool,
    pub italic: bool,
    pub reverse: bool,
    pub hidden: bool,
    pub strike: bool,
    pub blink_slow: bool,
    pub blink_fast: bool,
    pub underline: i32,
    pub underline_color: Option<Color>,
}

impl Style {
    /// The style that id 0 of every style table stands for: no colours, no
    /// attributes, underline unspecified.
    pub open spec fn spec_default() -> Style {
        Style {
            fg: None,
            bg: None,
            bold: false,
            dim: false,
            italic: false,
            reverse: false,
            hidden: false,
            strike: false,
            blink_slow: false,
            blink_fast: false,
            underline: 0i32,
            underline_color: None,
        }
    }
}

impl Default for Style {
    fn default() -> (r: Style)
        ensures
            r == Style::spec_default(),
    {
        Style {
            fg: None,
            bg: None,
            bold: false,
            dim: false,
            italic: false,
            reverse: false,
            hidden: false,
            strike: false,
            blink_slow: false,
            blink_fast: false,
            underline: 0,
            underline_color: None,
        }
    }
}

#[derive(Clone, Copy, Debug, PartialEq, Eq, Structural)]
pub struct StyleDef {
    pub style_id: u32,
    pub style: Option<Style>,
}

/// Cursor shapes as the wire names them.
#[derive(Clone, Copy, Debug, PartialEq, Eq, Structural)]
pub enum CursorShape {
    Unspecified,
    Block,
    Beam,
    Underline,
}

impl CursorShape {
    pub open spec fn spec_code(self) -> i32 {
        match self {
            CursorShape::Unspecified => 0i32,
            CursorShape::Block => 1i32,
            CursorShape::Beam => 2i32,
            CursorShape::Underline => 3i32,
        }
    }

    pub fn code(self) -> (r: i32)
        ensures
            r == self.spec_code(),
    {
        match self {
            CursorShape::Unspecified => 0,
            CursorShape::Block => 1,
            CursorShape::Beam => 2,
            CursorShape::Underline => 3,
        }
    }
}

#[derive(Clone, Copy, Debug, PartialEq, Eq, Structural)]
pub struct CursorState {
    pub row: u32,
    pub col: u32,
    pub visible: bool,
    pub blink: bool,
    pub shape: i32,
}

/// One screen row sent whole: three arrays of equal length, one entry per column.
#[derive(Clone, Debug, PartialEq, Eq)]
pub struct RowData {
    pub row: u32,
    pub codepoints: Vec<u32>,
    pub widths: Vec<u32>,
    pub style_ids: Vec<u32>,
}

/// A contiguous span of changed cells of one row, starting at `col_start`.
#[derive(Clone, Debug, PartialEq, Eq)]
pub struct CellRun {
    pub col_start: u32,
    pub codepoints: Vec<u32>,
    pub widths: Vec<u32>,
    pub style_ids: Vec<u32>,
}

#[derive(Clone, Debug, PartialEq, Eq)]
pub struct RowPatch {
    pub row: u32,
    pub runs: Vec<CellRun>,
}

#[derive(Clone, Debug, PartialEq, Eq)]
pub struct ScreenDelta {
    pub base_state_id: u64,
    pub state_id: u64,
    pub styles_added: Vec<StyleDef>,
    pub row_patches: Vec<RowPatch>,
    pub cursor: Option<CursorState>,
    pub delivered_input_watermark: u64,
}

#[derive(Clone, Debug, PartialEq, Eq)]
pub struct ScreenSnapshot {
    pub state_id: u64,
    pub size: Option<DisplaySize>,
    pub style_table_reset: bool,
    pub styles: Vec<StyleDef>,
    pub rows: Vec<RowData>,
    pub cursor: Option<CursorState>,
    pub delivered_input_watermark: u64,
}

#[derive(Clone, Copy, Debug, PartialEq, Eq, Structural)]
pub struct StateAck {
    pub last_applied_state_id: u64,
    pub last_received_state_id: u64,
    pub client_time_ms: u32,
    pub estimated_loss_ppm: u32,
    pub srtt_ms: u32,
}

#[derive(Clone, Debug, PartialEq, Eq)]
pub struct ProtocolError {
    pub code: i32,
    pub message: String,
    pub fatal: bool,
}

} // verus!
