//! A dictation session: what follows words, pauses, corrections and commands.
//!
//! The session decides and hands out actions. Whoever runs it carries the actions out in
//! their order and reports back what came of those that have an outcome.

use crate::correction_buffer;
use crate::correction_buffer::{CorrectionBuffer, CorrectionModel, CorrectionProfile};
use crate::dictation::Status;
use crate::gtk_overlay::{OverlayResponse, OverlayStatus, ResponseModel};
use crate::protocol;
use crate::protocol::is_dictated;
use crate::similarity;
use crate::similarity::is_safe_correction;
use crate::text;
use crate::text::{same_text, split_words};
use crate::virtual_keyboard::KeyboardKind;
use vstd::prelude::*;

verus! {

/// The silence in nanoseconds after which a chunk is corrected.
pub const CHUNK_PAUSE: u64 = 1_500_000_000;

/// The silence in nanoseconds after which a typed paragraph is corrected.
pub const PARAGRAPH_PAUSE: u64 = 5_000_000_000;

/// The silence in nanoseconds after which the overlay is committed.
pub const COMMIT_PAUSE: u64 = 10_000_000_000;

/// Why words that are still on their way are waited for.
#[derive(Debug, Clone, Copy, PartialEq, Eq, Structural)]
pub enum DrainReason {
    /// The overlay is to paste what it has.
    Checkpoint,
    /// Capturing was stopped.
    ToggleOff,
    /// Nothing was said for a while.
    Silence,
}

/// What reading from the server gave.
#[derive(Debug, Clone, Copy, PartialEq, Eq, Structural)]
pub enum Incoming {
    /// A text.
    Text,
    /// A request to close.
    Close,
    /// Any other message.
    Other,
    /// An error.
    Failed,
    /// The end.
    Ended,
    /// Nothing in time.
    TimedOut,
}

/// How words that are still on their way are waited for, in milliseconds.
#[derive(Debug, Clone, Copy, PartialEq, Eq, Structural)]
pub struct DrainPlan {
    pub reason: DrainReason,
    /// The time before the first read.
    pub settle: u64,
    /// The time that a read may take.
    pub poll: u64,
    /// The time after which reading ends once no text comes.
    pub deadline: u64,
}

impl DrainPlan {
    /// The plan for a reason, with the time of grace after capturing was stopped.
    pub open spec fn of(reason: DrainReason, grace: u64) -> DrainPlan {
        match reason {
            DrainReason::Checkpoint => DrainPlan { reason, settle: 100, poll: 100, deadline: 0 },
            DrainReason::ToggleOff => DrainPlan {
                reason,
                settle: if plus(grace, 200) > 300 {
                    plus(grace, 200)
                } else {
                    300
                },
                poll: 120,
                deadline: plus(grace, 600),
            },
            DrainReason::Silence => DrainPlan { reason, settle: 0, poll: 120, deadline: 800 },
        }
    }

    /// The plan for a reason.
    pub fn new(reason: DrainReason, grace: u64) -> (r: Self)
        ensures
            r == DrainPlan::of(reason, grace),
    {
        match reason {
            DrainReason::Checkpoint => DrainPlan { reason, settle: 100, poll: 100, deadline: 0 },
            DrainReason::ToggleOff => {
                let settle: u64 = grace.saturating_add(200);
                DrainPlan {
                    reason,
                    settle: if settle > 300 { settle } else { 300 },
                    poll: 120,
                    deadline: grace.saturating_add(600),
                }
            },
            DrainReason::Silence => DrainPlan { reason, settle: 0, poll: 120, deadline: 800 },
        }
    }

    /// Whether reading ends. For a checkpoint it ends with the first read that gives no
    /// text, else not before the deadline; after silence also with the connection.
    pub fn ends(&self, incoming: Incoming, elapsed: u64) -> (r: bool)
        ensures
            r == match incoming {
                Incoming::Text => false,
                Incoming::Close | Incoming::Failed | Incoming::Ended => self.reason
                    != DrainReason::ToggleOff || elapsed >= self.deadline,
                Incoming::Other | Incoming::TimedOut => self.reason == DrainReason::Checkpoint
                    || elapsed >= self.deadline,
            },
            r ==> incoming != Incoming::Text,
            incoming != Incoming::Text && elapsed >= self.deadline ==> r,
            incoming != Incoming::Text && self.reason == DrainReason::Checkpoint ==> r,
            r && self.reason == DrainReason::ToggleOff ==> elapsed >= self.deadline,
    {
        match incoming {
            Incoming::Text => false,
            Incoming::Close | Incoming::Failed | Incoming::Ended => self.reason
                != DrainReason::ToggleOff || elapsed >= self.deadline,
            Incoming::Other | Incoming::TimedOut => self.reason == DrainReason::Checkpoint
                || elapsed >= self.deadline,
        }
    }
}

/// The sum of two numbers, or the largest number if it is larger.
pub open spec fn plus(a: u64, b: u64) -> u64 {
    if a + b <= u64::MAX {
        (a + b) as u64
    } else {
        u64::MAX
    }
}

/// One more than a number of characters, or the largest number if it is larger.
pub open spec fn with_space(characters: nat) -> nat {
    if characters < usize::MAX {
        characters + 1
    } else {
        usize::MAX as nat
    }
}

/// Something for the outside to do.
#[derive(Debug, PartialEq, Eq)]
pub enum Action {
    /// Type a word and a space. `typed` takes the outcome.
    TypeWord(String),
    /// Type a word and a space whatever comes of it.
    TypeAnyway(String),
    /// Take back characters and type a text and a space. `typed` takes the outcome.
    Retype { backspaces: usize, text: String },
    /// Ask for the correction of a chunk. `reply` takes the outcome.
    AskSentence(String),
    /// Ask for the correction of a paragraph. `reply` takes the outcome.
    AskParagraph(String),
    /// Read words that are still on their way. `word` takes them, and then comes `drained`.
    Drain(DrainPlan),
    /// Open the overlay. `spawned` takes the outcome.
    OverlaySpawn,
    OverlayWord(String),
    OverlayStatus(OverlayStatus),
    OverlayCorrection(String),
    OverlayChunk { corrected: String, start: usize, original_len: usize },
    OverlayCheckpoint,
    OverlayCommit,
    OverlayClose,
    /// Wait until the overlay closes. `overlay_response` takes its answers.
    AwaitOverlay,
    /// Paste a text.
    Paste(String),
    WriteStatus(Status),
    SetCapturing(bool),
    /// Notify that text is being corrected.
    NotifyProcessing,
    /// Give up.
    Fail,
}

/// What an action holds.
pub enum ActionModel {
    TypeWord(Seq<char>),
    TypeAnyway(Seq<char>),
    Retype { backspaces: nat, text: Seq<char> },
    AskSentence(Seq<char>),
    AskParagraph(Seq<char>),
    Drain(DrainPlan),
    OverlaySpawn,
    OverlayWord(Seq<char>),
    OverlayStatus(OverlayStatus),
    OverlayCorrection(Seq<char>),
    OverlayChunk { corrected: Seq<char>, start: nat, original_len: nat },
    OverlayCheckpoint,
    OverlayCommit,
    OverlayClose,
    AwaitOverlay,
    Paste(Seq<char>),
    WriteStatus(Status),
    SetCapturing(bool),
    NotifyProcessing,
    Fail,
}

impl View for Action {
    type V = ActionModel;

    open spec fn view(&self) -> ActionModel {
        match self {
            Action::TypeWord(word) => ActionModel::TypeWord(word@),
            Action::TypeAnyway(word) => ActionModel::TypeAnyway(word@),
            Action::Retype { backspaces, text } => ActionModel::Retype {
                backspaces: *backspaces as nat,
                text: text@,
            },
            Action::AskSentence(original) => ActionModel::AskSentence(original@),
            Action::AskParagraph(original) => ActionModel::AskParagraph(original@),
            Action::Drain(plan) => ActionModel::Drain(*plan),
            Action::OverlaySpawn => ActionModel::OverlaySpawn,
            Action::OverlayWord(word) => ActionModel::OverlayWord(word@),
            Action::OverlayStatus(status) => ActionModel::OverlayStatus(*status),
            Action::OverlayCorrection(corrected) => ActionModel::OverlayCorrection(corrected@),
            Action::OverlayChunk { corrected, start, original_len } => ActionModel::OverlayChunk {
                corrected: corrected@,
                start: *start as nat,
                original_len: *original_len as nat,
            },
            Action::OverlayCheckpoint => ActionModel::OverlayCheckpoint,
            Action::OverlayCommit => ActionModel::OverlayCommit,
            Action::OverlayClose => ActionModel::OverlayClose,
            Action::AwaitOverlay => ActionModel::AwaitOverlay,
            Action::Paste(pasted) => ActionModel::Paste(pasted@),
            Action::WriteStatus(status) => ActionModel::WriteStatus(*status),
            Action::SetCapturing(on) => ActionModel::SetCapturing(*on),
            Action::NotifyProcessing => ActionModel::NotifyProcessing,
            Action::Fail => ActionModel::Fail,
        }
    }
}

/// The views of a list of actions.
pub open spec fn action_views(actions: Seq<Action>) -> Seq<ActionModel> {
    actions.map_values(|action: Action| action@)
}

/// A chunk whose correction was asked for.
#[derive(Debug)]
pub struct ChunkRequest {
    pub original: String,
    pub words: Vec<String>,
}

impl ChunkRequest {
    /// The text is the words joined by single spaces.
    pub open spec fn wf(&self) -> bool {
        self.original@ == text::sentence(text::texts(self.words@))
    }
}

/// What the session waits for.
#[derive(Debug)]
pub enum Phase {
    /// Anything.
    Idle,
    /// A word to be typed.
    Typing(String),
    /// The correction of a typed chunk, after a pause or not.
    TypedChunk { request: ChunkRequest, paused: bool },
    /// The correction of a typed chunk to be typed.
    Retyping { request: ChunkRequest, corrected: String, paused: bool },
    /// The correction of a chunk in the overlay, which starts at a word of the overlay; the
    /// silence was this long.
    OverlayChunk { request: ChunkRequest, start: usize, silence: u64 },
    /// Words that are still on their way.
    Draining(DrainReason),
    /// The correction of a paragraph.
    Paragraph { original: String, reason: DrainReason },
    /// The correction of a paragraph to be typed.
    RetypingParagraph(DrainReason),
    /// The overlay to open.
    Spawning,
    /// The overlay to close.
    Closing,
}

/// What a phase holds.
#[verifier::ext_equal]
pub enum PhaseModel {
    Idle,
    Typing(Seq<char>),
    TypedChunk { words: Seq<Seq<char>>, paused: bool },
    Retyping { words: Seq<Seq<char>>, corrected: Seq<char>, paused: bool },
    OverlayChunk { words: Seq<Seq<char>>, start: nat, silence: nat },
    Draining(DrainReason),
    Paragraph { original: Seq<char>, reason: DrainReason },
    RetypingParagraph(DrainReason),
    Spawning,
    Closing,
}

impl View for Phase {
    type V = PhaseModel;

    open spec fn view(&self) -> PhaseModel {
        match self {
            Phase::Idle => PhaseModel::Idle,
            Phase::Typing(word) => PhaseModel::Typing(word@),
            Phase::TypedChunk { request, paused } => PhaseModel::TypedChunk {
                words: text::texts(request.words@),
                paused: *paused,
            },
            Phase::Retyping { request, corrected, paused } => PhaseModel::Retyping {
                words: text::texts(request.words@),
                corrected: corrected@,
                paused: *paused,
            },
            Phase::OverlayChunk { request, start, silence } => PhaseModel::OverlayChunk {
                words: text::texts(request.words@),
                start: *start as nat,
                silence: *silence as nat,
            },
            Phase::Draining(reason) => PhaseModel::Draining(*reason),
            Phase::Paragraph { original, reason } => PhaseModel::Paragraph {
                original: original@,
                reason: *reason,
            },
            Phase::RetypingParagraph(reason) => PhaseModel::RetypingParagraph(*reason),
            Phase::Spawning => PhaseModel::Spawning,
            Phase::Closing => PhaseModel::Closing,
        }
    }
}

impl Phase {
    /// Texts and words belong together.
    pub open spec fn wf(&self) -> bool {
        match self {
            Phase::TypedChunk { request, paused } => request.wf(),
            Phase::Retyping { request, corrected, paused } => request.wf(),
            Phase::OverlayChunk { request, start, silence } => request.wf(),
            _ => true,
        }
    }
}

/// What a session holds.
#[verifier::ext_equal]
pub struct SessionModel {
    /// Whether words go to the overlay and not to the keyboard.
    pub preview: bool,
    pub profile: CorrectionProfile,
    /// The keyboard that types.
    pub keyboard: KeyboardKind,
    /// The time of grace after capturing was stopped, in milliseconds.
    pub grace: u64,
    pub buffer: CorrectionModel,
    /// When the last word came.
    pub last_word: nat,
    pub overlay_open: bool,
    /// The number of words that the overlay was sent since its last checkpoint.
    pub overlay_words: nat,
    pub phase: PhaseModel,
}

/// A session and what it hands out.
pub type Outcome = (SessionModel, Seq<ActionModel>);

/// Whether a reply takes the place of a text: it differs and is close enough.
pub open spec fn replaces(
    original: Seq<char>,
    reply: Option<Seq<char>>,
    profile: CorrectionProfile,
) -> bool {
    reply matches Some(corrected) && corrected != original && similarity::similar(
        similarity::compared_words(original),
        similarity::compared_words(corrected),
        profile,
    )
}

impl SessionModel {
    /// A session that begins.
    pub open spec fn start(
        preview: bool,
        profile: CorrectionProfile,
        keyboard: KeyboardKind,
        grace: u64,
        now: nat,
    ) -> SessionModel {
        SessionModel {
            preview,
            profile,
            keyboard,
            grace,
            buffer: CorrectionModel::start(profile),
            last_word: now,
            overlay_open: false,
            overlay_words: 0,
            phase: PhaseModel::Idle,
        }
    }

    /// An action for the overlay, if it is open.
    pub open spec fn if_open(self, action: ActionModel) -> Seq<ActionModel> {
        if self.overlay_open {
            seq![action]
        } else {
            Seq::empty()
        }
    }

    /// The time since the last word.
    pub open spec fn silence(self, now: nat) -> nat {
        if now >= self.last_word {
            (now - self.last_word) as nat
        } else {
            0
        }
    }

    /// The number of backspaces that take a typed text and the space after it back: one for
    /// each of its characters that arrived, and one for the space.
    pub open spec fn backspaces(self, original: Seq<char>) -> nat {
        with_space(self.keyboard.arriving(original).len())
    }

    /// The number of words in the overlay once `fresh` words stand in the place of `count`.
    pub open spec fn recounted(self, count: nat, fresh: nat) -> nat {
        let others = if self.overlay_words >= count {
            (self.overlay_words - count) as nat
        } else {
            0
        };
        correction_buffer::capped(others + fresh)
    }

    /// With a word in the buffer.
    pub open spec fn buffered(self, word: Seq<char>) -> SessionModel {
        SessionModel { buffer: self.buffer.with_word(word), ..self }
    }

    /// With a word in the buffer and in the overlay.
    pub open spec fn previewed(self, word: Seq<char>) -> SessionModel {
        SessionModel { overlay_words: self.overlay_words + 1, ..self.buffered(word) }
    }

    /// After a word from the server.
    pub open spec fn on_word(self, word: Seq<char>, capturing: bool, now: nat) -> Outcome {
        let heard = SessionModel { last_word: now, ..self };
        let dictated = protocol::dictated(word);
        match self.phase {
            PhaseModel::Idle => if !capturing {
                (self, Seq::empty())
            } else if self.preview {
                if !dictated {
                    (self, Seq::empty())
                } else if self.overlay_open {
                    (heard.previewed(word), seq![ActionModel::OverlayWord(word)])
                } else {
                    (heard, Seq::empty())
                }
            } else if dictated {
                (
                    SessionModel { phase: PhaseModel::Typing(word), ..heard },
                    seq![ActionModel::TypeWord(word)],
                )
            } else {
                (heard, Seq::empty())
            },
            PhaseModel::OverlayChunk { .. } => if dictated {
                (heard.previewed(word), self.if_open(ActionModel::OverlayWord(word)))
            } else {
                (self, Seq::empty())
            },
            PhaseModel::Draining(reason) => if !dictated {
                (self, Seq::empty())
            } else if reason == DrainReason::Silence {
                (heard.buffered(word), seq![ActionModel::TypeAnyway(word)])
            } else if self.preview || reason == DrainReason::Checkpoint {
                (self.previewed(word), self.if_open(ActionModel::OverlayWord(word)))
            } else {
                (self.buffered(word), seq![ActionModel::TypeAnyway(word)])
            },
            _ => (self, Seq::empty()),
        }
    }

    /// After an attempt to type.
    pub open spec fn on_typed(self, success: bool, now: nat) -> Outcome {
        let idle = SessionModel { phase: PhaseModel::Idle, ..self };
        match self.phase {
            PhaseModel::Typing(word) => {
                let added = self.buffer.with_word(word);
                if !success {
                    (idle, Seq::empty())
                } else if added.chunk_complete(word) && added.chunk.len() >= 2 {
                    (
                        SessionModel {
                            buffer: added.without_chunk(),
                            phase: PhaseModel::TypedChunk { words: added.chunk, paused: false },
                            ..self
                        },
                        seq![ActionModel::AskSentence(text::sentence(added.chunk))],
                    )
                } else {
                    (SessionModel { buffer: added, ..idle }, Seq::empty())
                }
            },
            PhaseModel::Retyping { words, corrected, paused } => if success {
                SessionModel {
                    buffer: self.buffer.corrected(words, corrected),
                    ..idle
                }.chunk_done(paused, now)
            } else if paused {
                (idle, seq![ActionModel::Fail])
            } else {
                (idle, Seq::empty())
            },
            PhaseModel::RetypingParagraph(reason) => idle.paragraph_done(reason, now),
            _ => (self, Seq::empty()),
        }
    }

    /// Once a typed chunk is corrected or left as it is.
    pub open spec fn chunk_done(self, paused: bool, now: nat) -> Outcome {
        if paused {
            (
                SessionModel { last_word: now, ..self },
                seq![ActionModel::WriteStatus(Status::Listening)],
            )
        } else {
            (self, Seq::empty())
        }
    }

    /// Once a typed paragraph is corrected or left as it is.
    pub open spec fn paragraph_done(self, reason: DrainReason, now: nat) -> Outcome {
        if reason == DrainReason::Silence {
            (
                SessionModel { last_word: now, ..self },
                seq![ActionModel::WriteStatus(Status::Listening), ActionModel::SetCapturing(true)],
            )
        } else {
            (self, seq![ActionModel::WriteStatus(Status::Paused)])
        }
    }

    /// Once the overlay has everything: it is committed and waited for.
    pub open spec fn to_close(self) -> Outcome {
        if self.overlay_open {
            (
                SessionModel { buffer: self.buffer.emptied(), phase: PhaseModel::Closing, ..self },
                seq![ActionModel::OverlayCommit, ActionModel::AwaitOverlay],
            )
        } else {
            self.closed()
        }
    }

    /// Without an overlay, and without the words that it showed.
    pub open spec fn without_overlay(self) -> SessionModel {
        SessionModel {
            buffer: self.buffer.emptied(),
            overlay_open: false,
            overlay_words: 0,
            ..self
        }
    }

    /// Once the overlay is closed after capturing was stopped.
    pub open spec fn closed(self) -> Outcome {
        (
            SessionModel { phase: PhaseModel::Idle, ..self.without_overlay() },
            seq![ActionModel::WriteStatus(Status::Paused)],
        )
    }

    /// The overlay is committed once the silence was long enough and there is a paragraph.
    pub open spec fn auto_committed(self, silence: nat) -> Outcome {
        if self.overlay_open && silence >= COMMIT_PAUSE && self.buffer.paragraph.len() > 0 {
            (
                SessionModel { buffer: self.buffer.emptied(), overlay_words: 0, ..self },
                seq![ActionModel::OverlayCommit, ActionModel::SetCapturing(false)],
            )
        } else {
            (self, Seq::empty())
        }
    }

    /// After the reply to a request for a correction; none where the request failed.
    pub open spec fn on_reply(self, reply: Option<Seq<char>>, now: nat) -> Outcome {
        let idle = SessionModel { phase: PhaseModel::Idle, ..self };
        match self.phase {
            PhaseModel::TypedChunk { words, paused } => {
                let original = text::sentence(words);
                if replaces(original, reply, self.profile) {
                    (
                        SessionModel {
                            phase: PhaseModel::Retyping { words, corrected: reply->0, paused },
                            ..self
                        },
                        seq![
                            ActionModel::Retype {
                                backspaces: self.backspaces(original),
                                text: reply->0,
                            },
                        ],
                    )
                } else {
                    idle.chunk_done(paused, now)
                }
            },
            PhaseModel::OverlayChunk { words, start, silence } => {
                let replaced = replaces(text::sentence(words), reply, self.profile);
                let heard = SessionModel { last_word: now, ..idle };
                let applied = if replaced {
                    SessionModel {
                        buffer: self.buffer.corrected(words, reply->0),
                        overlay_words: if self.overlay_open {
                            self.recounted(words.len(), text::words(reply->0).len())
                        } else {
                            self.overlay_words
                        },
                        ..heard
                    }
                } else {
                    heard
                };
                let sent = if replaced {
                    self.if_open(
                        ActionModel::OverlayChunk {
                            corrected: reply->0,
                            start,
                            original_len: words.len(),
                        },
                    )
                } else {
                    Seq::empty()
                };
                let last = applied.auto_committed(silence);
                (
                    last.0,
                    sent + self.if_open(ActionModel::OverlayStatus(OverlayStatus::Listening))
                        + seq![ActionModel::WriteStatus(Status::Listening)] + last.1,
                )
            },
            PhaseModel::Paragraph { original, reason } => {
                let replaced = replaces(original, reply, self.profile);
                if self.preview && reason == DrainReason::ToggleOff {
                    let last = idle.to_close();
                    let sent = if replaced {
                        self.if_open(ActionModel::OverlayCorrection(reply->0))
                    } else {
                        Seq::empty()
                    };
                    (last.0, sent + last.1)
                } else if replaced {
                    (
                        SessionModel { phase: PhaseModel::RetypingParagraph(reason), ..self },
                        seq![
                            ActionModel::Retype {
                                backspaces: self.backspaces(original),
                                text: reply->0,
                            },
                        ],
                    )
                } else {
                    idle.paragraph_done(reason, now)
                }
            },
            _ => (self, Seq::empty()),
        }
    }

    /// After some time.
    pub open spec fn on_tick(self, capturing: bool, now: nat) -> Outcome {
        let silence = self.silence(now);
        let chunk_due = silence >= CHUNK_PAUSE && self.buffer.chunk.len() >= 2;
        let ask = ActionModel::AskSentence(text::sentence(self.buffer.chunk));
        if self.phase != PhaseModel::Idle || !capturing {
            (self, Seq::empty())
        } else if self.preview && chunk_due {
            (
                SessionModel {
                    buffer: self.buffer.without_chunk(),
                    phase: PhaseModel::OverlayChunk {
                        words: self.buffer.chunk,
                        start: if self.overlay_words >= self.buffer.chunk.len() {
                            (self.overlay_words - self.buffer.chunk.len()) as nat
                        } else {
                            0
                        },
                        silence,
                    },
                    ..self
                },
                self.if_open(ActionModel::OverlayStatus(OverlayStatus::Correcting)) + seq![
                    ActionModel::WriteStatus(Status::Processing),
                    ask,
                ],
            )
        } else if self.preview {
            self.auto_committed(silence)
        } else if silence >= PARAGRAPH_PAUSE && self.buffer.paragraph.len() >= 2 {
            (
                SessionModel { phase: PhaseModel::Draining(DrainReason::Silence), ..self },
                seq![
                    ActionModel::NotifyProcessing,
                    ActionModel::SetCapturing(false),
                    ActionModel::Drain(DrainPlan::of(DrainReason::Silence, self.grace)),
                ],
            )
        } else if chunk_due {
            (
                SessionModel {
                    buffer: self.buffer.without_chunk(),
                    phase: PhaseModel::TypedChunk { words: self.buffer.chunk, paused: true },
                    ..self
                },
                seq![ActionModel::WriteStatus(Status::Processing), ask],
            )
        } else {
            (self, Seq::empty())
        }
    }

    /// Once the words that were still on their way have come.
    pub open spec fn on_drained(self, now: nat) -> Outcome {
        let idle = SessionModel { phase: PhaseModel::Idle, ..self };
        let original = text::sentence(self.buffer.paragraph);
        match self.phase {
            PhaseModel::Draining(reason) => {
                let processing = seq![ActionModel::WriteStatus(Status::Processing)];
                let asked = SessionModel {
                    buffer: self.buffer.emptied(),
                    phase: PhaseModel::Paragraph { original, reason },
                    ..self
                };
                let ask = processing.push(ActionModel::AskParagraph(original));
                if reason == DrainReason::Checkpoint {
                    (
                        SessionModel {
                            buffer: self.buffer.emptied(),
                            overlay_words: 0,
                            ..idle
                        },
                        self.if_open(ActionModel::OverlayCheckpoint),
                    )
                } else if reason == DrainReason::Silence {
                    if self.buffer.paragraph.len() >= 2 {
                        (asked, ask)
                    } else {
                        let last = idle.paragraph_done(reason, now);
                        (last.0, processing + last.1)
                    }
                } else if self.buffer.paragraph.len() >= 2 {
                    if self.preview {
                        (
                            asked,
                            self.if_open(ActionModel::OverlayStatus(OverlayStatus::Correcting))
                                + ask,
                        )
                    } else {
                        (asked, ask)
                    }
                } else if self.preview {
                    idle.to_close()
                } else {
                    (idle, Seq::empty())
                }
            },
            _ => (self, Seq::empty()),
        }
    }

    /// After a request to paste what the overlay has and to go on.
    pub open spec fn on_checkpoint(self) -> Outcome {
        if self.phase == PhaseModel::Idle && self.overlay_open {
            self.draining(DrainReason::Checkpoint)
        } else {
            (self, Seq::empty())
        }
    }

    /// After capturing was stopped.
    pub open spec fn on_toggle_off(self) -> Outcome {
        if self.phase == PhaseModel::Idle {
            self.draining(DrainReason::ToggleOff)
        } else {
            (self, Seq::empty())
        }
    }

    /// Waiting for words that are still on their way.
    pub open spec fn draining(self, reason: DrainReason) -> Outcome {
        (
            SessionModel { phase: PhaseModel::Draining(reason), ..self },
            seq![ActionModel::Drain(DrainPlan::of(reason, self.grace))],
        )
    }

    /// After a request to paste everything and close the overlay.
    pub open spec fn on_commit(self) -> Outcome {
        if self.phase == PhaseModel::Idle && self.overlay_open {
            (
                SessionModel { buffer: self.buffer.emptied(), overlay_words: 0, ..self },
                seq![ActionModel::OverlayCommit, ActionModel::SetCapturing(false)],
            )
        } else {
            (self, Seq::empty())
        }
    }

    /// After a request to close the overlay without pasting.
    pub open spec fn on_discard(self) -> Outcome {
        if self.phase == PhaseModel::Idle && self.overlay_open {
            (
                SessionModel { buffer: self.buffer.emptied(), overlay_words: 0, ..self },
                seq![
                    ActionModel::OverlayClose,
                    ActionModel::SetCapturing(false),
                    ActionModel::WriteStatus(Status::Paused),
                ],
            )
        } else {
            (self, Seq::empty())
        }
    }

    /// After capturing was started: a closed overlay is opened.
    pub open spec fn on_respawn(self) -> Outcome {
        if self.phase == PhaseModel::Idle && self.preview && !self.overlay_open {
            (
                SessionModel { phase: PhaseModel::Spawning, ..self },
                seq![ActionModel::OverlaySpawn],
            )
        } else {
            (self, Seq::empty())
        }
    }

    /// After an attempt to open the overlay.
    pub open spec fn on_spawned(self, success: bool) -> SessionModel {
        if self.phase == PhaseModel::Spawning {
            SessionModel { overlay_open: success, phase: PhaseModel::Idle, ..self }
        } else {
            self
        }
    }

    /// After an answer of the overlay.
    pub open spec fn on_response(self, response: ResponseModel) -> Outcome {
        if self.phase != PhaseModel::Idle && self.phase != PhaseModel::Closing {
            (self, Seq::empty())
        } else {
            match response {
                ResponseModel::PasteText(pasted) => (self, seq![ActionModel::Paste(pasted)]),
                ResponseModel::Closed => if self.phase == PhaseModel::Closing {
                    self.closed()
                } else if self.overlay_open {
                    (self.without_overlay(), Seq::empty())
                } else {
                    (self, Seq::empty())
                },
                _ => (self, Seq::empty()),
            }
        }
    }
}

/// A dictation session. Times are nanoseconds of a clock that never goes back.
pub struct Session {
    pub preview: bool,
    pub profile: CorrectionProfile,
    pub keyboard: KeyboardKind,
    pub grace: u64,
    pub buffer: CorrectionBuffer,
    pub last_word: u64,
    pub overlay_open: bool,
    pub overlay_words: usize,
    pub phase: Phase,
}

impl View for Session {
    type V = SessionModel;

    open spec fn view(&self) -> SessionModel {
        SessionModel {
            preview: self.preview,
            profile: self.profile,
            keyboard: self.keyboard,
            grace: self.grace,
            buffer: self.buffer@,
            last_word: self.last_word as nat,
            overlay_open: self.overlay_open,
            overlay_words: self.overlay_words as nat,
            phase: self.phase@,
        }
    }
}

/// The correction that takes the place of a text, if the reply is one.
fn replacement(original: &str, reply: Option<String>, profile: CorrectionProfile) -> (r: Option<
    String,
>)
    ensures
        r is Some == replaces(original@, text::option_text(reply), profile),
        r is Some ==> r == reply,
{
    match reply {
        Some(corrected) => if !same_text(corrected.as_str(), original) && is_safe_correction(
            original,
            corrected.as_str(),
            profile,
        ) {
            Some(corrected)
        } else {
            None
        },
        None => None,
    }
}

impl Session {
    /// The counts of the buffer are right, and so is what is waited for.
    pub open spec fn wf(&self) -> bool {
        self.buffer.wf() && self.phase.wf()
    }

    /// A session that begins.
    pub fn new(
        preview: bool,
        profile: CorrectionProfile,
        keyboard: KeyboardKind,
        grace: u64,
        now: u64,
    ) -> (r: Self)
        ensures
            r.wf(),
            r@ == SessionModel::start(preview, profile, keyboard, grace, now as nat),
    {
        let r = Session {
            preview,
            profile,
            keyboard,
            grace,
            buffer: CorrectionBuffer::new(profile),
            last_word: now,
            overlay_open: false,
            overlay_words: 0,
            phase: Phase::Idle,
        };
        assert(r@ =~= SessionModel::start(preview, profile, keyboard, grace, now as nat));
        r
    }

    /// Takes a word from the server.
    pub fn word(&mut self, word: &str, capturing: bool, now: u64) -> (r: Vec<Action>)
        requires
            old(self).wf(),
            old(self).overlay_words < usize::MAX,
        ensures
            final(self).wf(),
            (final(self)@, action_views(r@)) == old(self)@.on_word(word@, capturing, now as nat),
    {
        let mut actions: Vec<Action> = Vec::new();
        let dictated = is_dictated(word);
        match &self.phase {
            Phase::Idle => {
                if capturing && self.preview {
                    if dictated {
                        self.last_word = now;
                        if self.overlay_open {
                            self.buffer.add_word(word);
                            self.overlay_words += 1;
                            actions.push(Action::OverlayWord(word.to_owned()));
                        }
                    }
                } else if capturing {
                    self.last_word = now;
                    if dictated {
                        self.phase = Phase::Typing(word.to_owned());
                        actions.push(Action::TypeWord(word.to_owned()));
                    }
                }
            },
            Phase::OverlayChunk { .. } => {
                if dictated {
                    self.last_word = now;
                    self.buffer.add_word(word);
                    self.overlay_words += 1;
                    if self.overlay_open {
                        actions.push(Action::OverlayWord(word.to_owned()));
                    }
                }
            },
            Phase::Draining(reason) => {
                let reason = *reason;
                if dictated {
                    self.buffer.add_word(word);
                    if reason == DrainReason::Silence {
                        self.last_word = now;
                        actions.push(Action::TypeAnyway(word.to_owned()));
                    } else if self.preview || reason == DrainReason::Checkpoint {
                        self.overlay_words += 1;
                        if self.overlay_open {
                            actions.push(Action::OverlayWord(word.to_owned()));
                        }
                    } else {
                        actions.push(Action::TypeAnyway(word.to_owned()));
                    }
                }
            },
            _ => {},
        }
        proof {
            let expected = old(self)@.on_word(word@, capturing, now as nat);
            assert(self@ =~= expected.0);
            assert(action_views(actions@) =~= expected.1);
        }
        actions
    }

    /// The number of backspaces that take a typed text and the space after it back.
    fn backspace_count(&self, original: &str) -> (r: usize)
        ensures
            r == self@.backspaces(original@),
    {
        self.keyboard.arriving_len(original).saturating_add(1)
    }

    /// Takes the chunk for a correction.
    fn take_request(&mut self) -> (r: ChunkRequest)
        requires
            old(self).buffer.wf(),
        ensures
            final(self).buffer.wf(),
            final(self)@ == (SessionModel {
                buffer: old(self)@.buffer.without_chunk(),
                ..old(self)@
            }),
            final(self).phase == old(self).phase,
            r.wf(),
            text::texts(r.words@) == old(self)@.buffer.chunk,
    {
        let (original, _, _, words) = self.buffer.take_chunk();
        ChunkRequest { original, words }
    }

    /// Takes the outcome of an attempt to type.
    pub fn typed(&mut self, success: bool, now: u64) -> (r: Vec<Action>)
        requires
            old(self).wf(),
        ensures
            final(self).wf(),
            (final(self)@, action_views(r@)) == old(self)@.on_typed(success, now as nat),
    {
        let mut actions: Vec<Action> = Vec::new();
        let mut phase = Phase::Idle;
        std::mem::swap(&mut phase, &mut self.phase);
        match phase {
            Phase::Typing(word) => {
                if success {
                    self.buffer.add_word(word.as_str());
                    if self.buffer.should_correct_chunk(word.as_str()) && self.buffer.chunk_len()
                        >= 2 {
                        let request = self.take_request();
                        actions.push(Action::AskSentence(request.original.clone()));
                        self.phase = Phase::TypedChunk { request, paused: false };
                    }
                }
            },
            Phase::Retyping { request, corrected, paused } => {
                if success {
                    self.buffer.apply_chunk_correction(
                        request.words.as_slice(),
                        corrected.as_str(),
                    );
                    self.chunk_done(paused, now, &mut actions);
                } else if paused {
                    actions.push(Action::Fail);
                }
            },
            Phase::RetypingParagraph(reason) => {
                self.paragraph_done(reason, now, &mut actions);
            },
            other => {
                self.phase = other;
            },
        }
        proof {
            let expected = old(self)@.on_typed(success, now as nat);
            assert(self@ =~= expected.0);
            assert(action_views(actions@) =~= expected.1);
        }
        actions
    }

    /// Ends the correction of a typed chunk.
    fn chunk_done(&mut self, paused: bool, now: u64, actions: &mut Vec<Action>)
        ensures
            final(self).buffer == old(self).buffer,
            final(self).phase == old(self).phase,
            final(self)@ == old(self)@.chunk_done(paused, now as nat).0,
            action_views(final(actions)@) == action_views(old(actions)@) + old(self)@.chunk_done(
                paused,
                now as nat,
            ).1,
    {
        if paused {
            actions.push(Action::WriteStatus(Status::Listening));
            self.last_word = now;
        }
        assert(action_views(actions@) =~= action_views(old(actions)@) + old(self)@.chunk_done(
            paused,
            now as nat,
        ).1);
    }

    /// Ends the correction of a typed paragraph.
    fn paragraph_done(&mut self, reason: DrainReason, now: u64, actions: &mut Vec<Action>)
        ensures
            final(self).buffer == old(self).buffer,
            final(self).phase == old(self).phase,
            final(self)@ == old(self)@.paragraph_done(reason, now as nat).0,
            action_views(final(actions)@) == action_views(old(actions)@)
                + old(self)@.paragraph_done(reason, now as nat).1,
    {
        if reason == DrainReason::Silence {
            actions.push(Action::WriteStatus(Status::Listening));
            actions.push(Action::SetCapturing(true));
            self.last_word = now;
        } else {
            actions.push(Action::WriteStatus(Status::Paused));
        }
        assert(action_views(actions@) =~= action_views(old(actions)@) + old(self)@.paragraph_done(
            reason,
            now as nat,
        ).1);
    }

    /// Commits the overlay and waits for it to close.
    fn to_close(&mut self, actions: &mut Vec<Action>)
        requires
            old(self).buffer.wf(),
        ensures
            final(self).buffer.wf(),
            final(self).phase.wf(),
            final(self)@ == old(self)@.to_close().0,
            action_views(final(actions)@) == action_views(old(actions)@) + old(self)@.to_close().1,
    {
        if self.overlay_open {
            actions.push(Action::OverlayCommit);
            actions.push(Action::AwaitOverlay);
            let _ = self.buffer.take_paragraph();
            self.phase = Phase::Closing;
        } else {
            self.close(actions);
        }
        proof {
            assert(self@ =~= old(self)@.to_close().0);
            assert(action_views(actions@) =~= action_views(old(actions)@)
                + old(self)@.to_close().1);
        }
    }

    /// Forgets the overlay and the words that it showed.
    fn forget_overlay(&mut self)
        requires
            old(self).buffer.wf(),
        ensures
            final(self).buffer.wf(),
            final(self).phase == old(self).phase,
            final(self)@ == old(self)@.without_overlay(),
    {
        let _ = self.buffer.take_paragraph();
        self.overlay_open = false;
        self.overlay_words = 0;
        assert(self@ =~= old(self)@.without_overlay());
    }

    /// Notes that the overlay is closed after capturing was stopped.
    fn close(&mut self, actions: &mut Vec<Action>)
        requires
            old(self).buffer.wf(),
        ensures
            final(self).buffer.wf(),
            final(self).phase.wf(),
            final(self)@ == old(self)@.closed().0,
            action_views(final(actions)@) == action_views(old(actions)@) + old(self)@.closed().1,
    {
        self.forget_overlay();
        self.phase = Phase::Idle;
        actions.push(Action::WriteStatus(Status::Paused));
        assert(self@ =~= old(self)@.closed().0);
        assert(action_views(actions@) =~= action_views(old(actions)@) + old(self)@.closed().1);
    }

    /// Commits the overlay after a long silence.
    fn auto_commit(&mut self, silence: u64, actions: &mut Vec<Action>)
        requires
            old(self).buffer.wf(),
        ensures
            final(self).buffer.wf(),
            final(self).phase == old(self).phase,
            final(self)@ == old(self)@.auto_committed(silence as nat).0,
            action_views(final(actions)@) == action_views(old(actions)@)
                + old(self)@.auto_committed(silence as nat).1,
    {
        if self.overlay_open && silence >= COMMIT_PAUSE && self.buffer.paragraph_len() > 0 {
            actions.push(Action::OverlayCommit);
            actions.push(Action::SetCapturing(false));
            let _ = self.buffer.take_paragraph();
            self.overlay_words = 0;
        }
        proof {
            let expected = old(self)@.auto_committed(silence as nat);
            assert(self@ =~= expected.0);
            assert(action_views(actions@) =~= action_views(old(actions)@) + expected.1);
        }
    }

    /// Takes the reply to a request for a correction; none where the request failed.
    pub fn reply(&mut self, reply: Option<String>, now: u64) -> (r: Vec<Action>)
        requires
            old(self).wf(),
        ensures
            final(self).wf(),
            (final(self)@, action_views(r@)) == old(self)@.on_reply(
                text::option_text(reply),
                now as nat,
            ),
    {
        let mut actions: Vec<Action> = Vec::new();
        let mut phase = Phase::Idle;
        std::mem::swap(&mut phase, &mut self.phase);
        match phase {
            Phase::TypedChunk { request, paused } => {
                match replacement(request.original.as_str(), reply, self.profile) {
                    Some(corrected) => {
                        let backspaces: usize = self.backspace_count(request.original.as_str());
                        actions.push(Action::Retype { backspaces, text: corrected.clone() });
                        self.phase = Phase::Retyping { request, corrected, paused };
                    },
                    None => {
                        self.chunk_done(paused, now, &mut actions);
                    },
                }
            },
            Phase::OverlayChunk { request, start, silence } => {
                if let Some(corrected) = replacement(
                    request.original.as_str(),
                    reply,
                    self.profile,
                ) {
                    self.buffer.apply_chunk_correction(
                        request.words.as_slice(),
                        corrected.as_str(),
                    );
                    if self.overlay_open {
                        let others: usize = self.overlay_words.saturating_sub(
                            request.words.len(),
                        );
                        self.overlay_words = others.saturating_add(
                            split_words(corrected.as_str()).len(),
                        );
                        actions.push(
                            Action::OverlayChunk {
                                corrected,
                                start,
                                original_len: request.words.len(),
                            },
                        );
                    }
                }
                if self.overlay_open {
                    actions.push(Action::OverlayStatus(OverlayStatus::Listening));
                }
                actions.push(Action::WriteStatus(Status::Listening));
                self.last_word = now;
                self.auto_commit(silence, &mut actions);
            },
            Phase::Paragraph { original, reason } => {
                let found = replacement(original.as_str(), reply, self.profile);
                if self.preview && reason == DrainReason::ToggleOff {
                    if let Some(corrected) = found {
                        if self.overlay_open {
                            actions.push(Action::OverlayCorrection(corrected));
                        }
                    }
                    self.to_close(&mut actions);
                } else {
                    match found {
                        Some(corrected) => {
                            let backspaces: usize = self.backspace_count(original.as_str());
                            actions.push(Action::Retype { backspaces, text: corrected });
                            self.phase = Phase::RetypingParagraph(reason);
                        },
                        None => {
                            self.paragraph_done(reason, now, &mut actions);
                        },
                    }
                }
            },
            other => {
                self.phase = other;
            },
        }
        proof {
            let expected = old(self)@.on_reply(text::option_text(reply), now as nat);
            assert(self@ =~= expected.0);
            assert(action_views(actions@) =~= expected.1);
        }
        actions
    }

    /// Takes note that some time has passed.
    pub fn tick(&mut self, capturing: bool, now: u64) -> (r: Vec<Action>)
        requires
            old(self).wf(),
        ensures
            final(self).wf(),
            (final(self)@, action_views(r@)) == old(self)@.on_tick(capturing, now as nat),
    {
        let mut actions: Vec<Action> = Vec::new();
        let silence: u64 = now.saturating_sub(self.last_word);
        let idle = matches!(self.phase, Phase::Idle);
        if idle && capturing {
            let chunk_due = silence >= CHUNK_PAUSE && self.buffer.chunk_len() >= 2;
            if self.preview {
                if chunk_due {
                    if self.overlay_open {
                        actions.push(Action::OverlayStatus(OverlayStatus::Correcting));
                    }
                    actions.push(Action::WriteStatus(Status::Processing));
                    let request = self.take_request();
                    let start: usize = self.overlay_words.saturating_sub(request.words.len());
                    actions.push(Action::AskSentence(request.original.clone()));
                    self.phase = Phase::OverlayChunk { request, start, silence };
                } else {
                    self.auto_commit(silence, &mut actions);
                }
            } else if silence >= PARAGRAPH_PAUSE && self.buffer.paragraph_len() >= 2 {
                actions.push(Action::NotifyProcessing);
                actions.push(Action::SetCapturing(false));
                actions.push(Action::Drain(DrainPlan::new(DrainReason::Silence, self.grace)));
                self.phase = Phase::Draining(DrainReason::Silence);
            } else if chunk_due {
                actions.push(Action::WriteStatus(Status::Processing));
                let request = self.take_request();
                actions.push(Action::AskSentence(request.original.clone()));
                self.phase = Phase::TypedChunk { request, paused: true };
            }
        }
        proof {
            let expected = old(self)@.on_tick(capturing, now as nat);
            assert(self@ =~= expected.0);
            assert(action_views(actions@) =~= expected.1);
        }
        actions
    }

    /// Takes note that the words that were still on their way have come.
    pub fn drained(&mut self, now: u64) -> (r: Vec<Action>)
        requires
            old(self).wf(),
        ensures
            final(self).wf(),
            (final(self)@, action_views(r@)) == old(self)@.on_drained(now as nat),
    {
        let mut actions: Vec<Action> = Vec::new();
        let mut phase = Phase::Idle;
        std::mem::swap(&mut phase, &mut self.phase);
        match phase {
            Phase::Draining(reason) => {
                let long = self.buffer.paragraph_len() >= 2;
                if reason == DrainReason::Checkpoint {
                    if self.overlay_open {
                        actions.push(Action::OverlayCheckpoint);
                    }
                    let _ = self.buffer.take_paragraph();
                    self.overlay_words = 0;
                } else if long {
                    if reason == DrainReason::ToggleOff && self.preview && self.overlay_open {
                        actions.push(Action::OverlayStatus(OverlayStatus::Correcting));
                    }
                    actions.push(Action::WriteStatus(Status::Processing));
                    let (original, _, _) = self.buffer.take_paragraph();
                    actions.push(Action::AskParagraph(original.clone()));
                    self.phase = Phase::Paragraph { original, reason };
                } else if reason == DrainReason::Silence {
                    actions.push(Action::WriteStatus(Status::Processing));
                    self.paragraph_done(reason, now, &mut actions);
                } else if self.preview {
                    self.to_close(&mut actions);
                }
            },
            other => {
                self.phase = other;
            },
        }
        proof {
            let expected = old(self)@.on_drained(now as nat);
            assert(self@ =~= expected.0);
            assert(action_views(actions@) =~= expected.1);
        }
        actions
    }

    /// Waits for words that are still on their way.
    fn drain(&mut self, reason: DrainReason) -> (r: Vec<Action>)
        ensures
            final(self).buffer == old(self).buffer,
            final(self).phase.wf(),
            (final(self)@, action_views(r@)) == old(self)@.draining(reason),
    {
        let mut actions: Vec<Action> = Vec::new();
        actions.push(Action::Drain(DrainPlan::new(reason, self.grace)));
        self.phase = Phase::Draining(reason);
        assert(self@ =~= old(self)@.draining(reason).0);
        assert(action_views(actions@) =~= old(self)@.draining(reason).1);
        actions
    }

    /// Takes a request to paste what the overlay has and to go on.
    pub fn checkpoint(&mut self) -> (r: Vec<Action>)
        requires
            old(self).wf(),
        ensures
            final(self).wf(),
            (final(self)@, action_views(r@)) == old(self)@.on_checkpoint(),
    {
        if matches!(self.phase, Phase::Idle) && self.overlay_open {
            return self.drain(DrainReason::Checkpoint);
        }
        let actions: Vec<Action> = Vec::new();
        assert(action_views(actions@) =~= Seq::empty());
        actions
    }

    /// Takes note that capturing was stopped.
    pub fn toggle_off(&mut self) -> (r: Vec<Action>)
        requires
            old(self).wf(),
        ensures
            final(self).wf(),
            (final(self)@, action_views(r@)) == old(self)@.on_toggle_off(),
    {
        if matches!(self.phase, Phase::Idle) {
            return self.drain(DrainReason::ToggleOff);
        }
        let actions: Vec<Action> = Vec::new();
        assert(action_views(actions@) =~= Seq::empty());
        actions
    }

    /// Takes a request to paste everything and close the overlay.
    pub fn commit(&mut self) -> (r: Vec<Action>)
        requires
            old(self).wf(),
        ensures
            final(self).wf(),
            (final(self)@, action_views(r@)) == old(self)@.on_commit(),
    {
        let mut actions: Vec<Action> = Vec::new();
        if matches!(self.phase, Phase::Idle) && self.overlay_open {
            actions.push(Action::OverlayCommit);
            let _ = self.buffer.take_paragraph();
            self.overlay_words = 0;
            actions.push(Action::SetCapturing(false));
        }
        assert(self@ =~= old(self)@.on_commit().0);
        assert(action_views(actions@) =~= old(self)@.on_commit().1);
        actions
    }

    /// Takes a request to close the overlay without pasting.
    pub fn discard(&mut self) -> (r: Vec<Action>)
        requires
            old(self).wf(),
        ensures
            final(self).wf(),
            (final(self)@, action_views(r@)) == old(self)@.on_discard(),
    {
        let mut actions: Vec<Action> = Vec::new();
        if matches!(self.phase, Phase::Idle) && self.overlay_open {
            actions.push(Action::OverlayClose);
            self.buffer.reset_chunk();
            let _ = self.buffer.take_paragraph();
            self.overlay_words = 0;
            actions.push(Action::SetCapturing(false));
            actions.push(Action::WriteStatus(Status::Paused));
        }
        assert(self@ =~= old(self)@.on_discard().0);
        assert(action_views(actions@) =~= old(self)@.on_discard().1);
        actions
    }

    /// Takes note that capturing was started: a closed overlay is opened.
    pub fn respawn(&mut self) -> (r: Vec<Action>)
        requires
            old(self).wf(),
        ensures
            final(self).wf(),
            (final(self)@, action_views(r@)) == old(self)@.on_respawn(),
    {
        let mut actions: Vec<Action> = Vec::new();
        if matches!(self.phase, Phase::Idle) && self.preview && !self.overlay_open {
            actions.push(Action::OverlaySpawn);
            self.phase = Phase::Spawning;
        }
        assert(self@ =~= old(self)@.on_respawn().0);
        assert(action_views(actions@) =~= old(self)@.on_respawn().1);
        actions
    }

    /// Takes the outcome of an attempt to open the overlay.
    pub fn spawned(&mut self, success: bool)
        requires
            old(self).wf(),
        ensures
            final(self).wf(),
            final(self)@ == old(self)@.on_spawned(success),
    {
        if matches!(self.phase, Phase::Spawning) {
            self.overlay_open = success;
            self.phase = Phase::Idle;
        }
        assert(self@ =~= old(self)@.on_spawned(success));
    }

    /// Takes an answer of the overlay.
    pub fn overlay_response(&mut self, response: OverlayResponse) -> (r: Vec<Action>)
        requires
            old(self).wf(),
        ensures
            final(self).wf(),
            (final(self)@, action_views(r@)) == old(self)@.on_response(response@),
    {
        let mut actions: Vec<Action> = Vec::new();
        let closing = matches!(self.phase, Phase::Closing);
        let idle = matches!(self.phase, Phase::Idle);
        if closing || idle {
            match response {
                OverlayResponse::PasteText(pasted) => {
                    actions.push(Action::Paste(pasted));
                },
                OverlayResponse::Closed => {
                    if closing {
                        self.close(&mut actions);
                    } else if self.overlay_open {
                        self.forget_overlay();
                    }
                },
                _ => {},
            }
        }
        proof {
            let expected = old(self)@.on_response(response@);
            assert(self@ =~= expected.0);
            assert(action_views(actions@) =~= expected.1);
        }
        actions
    }

    /// What is left to do when the session ends: an open overlay closes.
    pub fn stop(&self) -> (r: Vec<Action>)
        ensures
            action_views(r@) == self@.if_open(ActionModel::OverlayClose),
    {
        let mut actions: Vec<Action> = Vec::new();
        if self.overlay_open {
            actions.push(Action::OverlayClose);
        }
        assert(action_views(actions@) =~= self@.if_open(ActionModel::OverlayClose));
        actions
    }
}

} // verus!
