//! The plain preview window without its widgets.
//!
//! Shows pasted sections dimmed and the active section bright, and handles checkpoint
//! and commit.

use crate::preview_buffer::{DisplaySection, DisplayStyle, PreviewBuffer, PreviewModel};
use crate::text;
use crate::text::decimal_text;
use vstd::prelude::*;
use vstd::string::*;

verus! {

/// Commands that can be sent to the preview window.
#[derive(Debug, Clone)]
pub enum OverlayCommand {
    /// A new word arrived.
    Word(String),
    /// A correction of the active text.
    Correction(String),
    /// Paste the active text and go on.
    Checkpoint,
    /// Paste everything and close.
    Commit,
    /// Close without pasting.
    Close,
    /// Update the status indicator.
    Status(OverlayStatus),
}

/// Status indicator of the preview window.
#[derive(Debug, Clone, Copy, PartialEq, Eq, Structural)]
pub enum OverlayStatus {
    Listening,
    Correcting,
    Paused,
}

impl Default for OverlayStatus {
    fn default() -> (r: Self)
        ensures
            r == OverlayStatus::Listening,
    {
        OverlayStatus::Listening
    }
}

impl OverlayStatus {
    /// The text of the indicator.
    pub open spec fn caption(self) -> Seq<char> {
        match self {
            OverlayStatus::Listening => "listening"@,
            OverlayStatus::Correcting => "correcting..."@,
            OverlayStatus::Paused => "paused"@,
        }
    }

    /// The text of the indicator.
    pub fn as_str(&self) -> (r: &'static str)
        ensures
            r@ == self.caption(),
    {
        match self {
            OverlayStatus::Listening => "listening",
            OverlayStatus::Correcting => "correcting...",
            OverlayStatus::Paused => "paused",
        }
    }

    /// The color of the indicator: red, green and blue.
    pub fn color(&self) -> (r: (u8, u8, u8))
        ensures
            r == match self {
                OverlayStatus::Listening => (100u8, 200u8, 100u8),
                OverlayStatus::Correcting => (200u8, 200u8, 100u8),
                OverlayStatus::Paused => (150u8, 150u8, 150u8),
            },
    {
        match self {
            OverlayStatus::Listening => (100, 200, 100),
            OverlayStatus::Correcting => (200, 200, 100),
            OverlayStatus::Paused => (150, 150, 150),
        }
    }
}

/// Answers of the preview window.
#[derive(Debug, Clone, PartialEq, Eq)]
pub enum OverlayResponse {
    /// Text to paste, from a checkpoint or a commit.
    PasteText(String),
    /// The window was closed.
    Closed,
}

/// The text that an answer asks to paste.
pub open spec fn pasted_text(response: Option<OverlayResponse>) -> Option<Seq<char>> {
    match response {
        Some(OverlayResponse::PasteText(pasted)) => Some(pasted@),
        _ => None,
    }
}

/// What the preview window holds.
#[verifier::ext_equal]
pub struct AppModel {
    pub buffer: PreviewModel,
    pub status: OverlayStatus,
    pub should_close: bool,
}

impl AppModel {
    /// The window after a command.
    pub open spec fn handled(self, command: OverlayCommand) -> AppModel {
        match command {
            OverlayCommand::Word(word) => AppModel {
                buffer: self.buffer.with_word(word@),
                ..self
            },
            OverlayCommand::Correction(corrected) => AppModel {
                buffer: self.buffer.with_correction(corrected@),
                ..self
            },
            OverlayCommand::Checkpoint => AppModel {
                buffer: self.buffer.after_checkpoint(),
                ..self
            },
            OverlayCommand::Commit => AppModel {
                buffer: self.buffer.after_commit(),
                should_close: true,
                ..self
            },
            OverlayCommand::Close => AppModel { should_close: true, ..self },
            OverlayCommand::Status(status) => AppModel { status, ..self },
        }
    }

    /// The text that a command asks to paste.
    pub open spec fn pastes(self, command: OverlayCommand) -> Option<Seq<char>> {
        match command {
            OverlayCommand::Checkpoint => self.buffer.checkpoint_text(),
            OverlayCommand::Commit => self.buffer.commit_text(),
            _ => None,
        }
    }
}

/// The preview window.
pub struct PreviewApp {
    pub buffer: PreviewBuffer,
    pub status: OverlayStatus,
    pub should_close: bool,
}

impl View for PreviewApp {
    type V = AppModel;

    open spec fn view(&self) -> AppModel {
        AppModel {
            buffer: self.buffer@,
            status: self.status,
            should_close: self.should_close,
        }
    }
}

impl PreviewApp {
    /// An empty window that listens.
    pub fn new() -> (r: Self)
        ensures
            r@ == (AppModel {
                buffer: PreviewModel::empty(),
                status: OverlayStatus::Listening,
                should_close: false,
            }),
    {
        PreviewApp {
            buffer: PreviewBuffer::new(),
            status: OverlayStatus::Listening,
            should_close: false,
        }
    }

    /// Handles a command and returns the answer to send. Only text to paste is answered
    /// here; that the window closed is answered once it does.
    pub fn handle_command(&mut self, command: OverlayCommand) -> (r: Option<OverlayResponse>)
        ensures
            final(self)@ == old(self)@.handled(command),
            pasted_text(r) == old(self)@.pastes(command),
            r is Some == pasted_text(r) is Some,
    {
        match command {
            OverlayCommand::Word(word) => {
                self.buffer.add_word(word);
                None
            },
            OverlayCommand::Correction(corrected) => {
                self.buffer.apply_correction(corrected);
                None
            },
            OverlayCommand::Checkpoint => match self.buffer.checkpoint() {
                Some(pasted) => Some(OverlayResponse::PasteText(pasted)),
                None => None,
            },
            OverlayCommand::Commit => {
                let all = self.buffer.commit();
                self.should_close = true;
                match all {
                    Some(pasted) => Some(OverlayResponse::PasteText(pasted)),
                    None => None,
                }
            },
            OverlayCommand::Close => {
                self.should_close = true;
                None
            },
            OverlayCommand::Status(status) => {
                self.status = status;
                None
            },
        }
    }

    /// Handles the end of the command channel: the window closes.
    pub fn disconnected(&mut self)
        ensures
            final(self)@ == (AppModel { should_close: true, ..old(self)@ }),
    {
        self.should_close = true;
    }

    /// The sections to show; none stands for a window that waits for speech.
    pub fn sections(&self) -> (r: Vec<DisplaySection>)
        ensures
            crate::preview_buffer::section_views(r@) == self@.buffer.display(),
    {
        self.buffer.display_sections()
    }

    /// The line at the lower right: the number of active words.
    pub fn footer(&self) -> (r: String)
        ensures
            r@ == text::decimal(self@.buffer.active.len()) + " words"@,
    {
        let mut line = decimal_text(self.buffer.active_word_count());
        line.append(" words");
        line
    }
}

/// The color of a section's text: red, green and blue. A separator has none.
pub fn section_color(style: DisplayStyle) -> (r: Option<(u8, u8, u8)>)
    ensures
        r == match style {
            DisplayStyle::Committed => Some((128u8, 128u8, 128u8)),
            DisplayStyle::Active => Some((240u8, 240u8, 240u8)),
            DisplayStyle::Separator => None,
        },
{
    match style {
        DisplayStyle::Committed => Some((128, 128, 128)),
        DisplayStyle::Active => Some((240, 240, 240)),
        DisplayStyle::Separator => None,
    }
}

} // verus!
