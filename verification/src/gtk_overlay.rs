//! The layer-shell overlay without its widgets.
//!
//! Commands, keys and close requests go in; the next state and the steps for the
//! window come out. What the window shows is a function of the state.

use crate::preview_buffer::{PreviewBuffer, PreviewModel};
use vstd::prelude::*;

verus! {

/// Commands that can be sent to the overlay.
#[derive(Debug, Clone)]
pub enum OverlayCommand {
    /// A new word arrived.
    Word(String),
    /// A correction of the whole active text.
    Correction(String),
    /// A correction of `original_len` words from `start` on.
    ChunkCorrection { corrected: String, start: usize, original_len: usize },
    /// Paste the active text and go on.
    Checkpoint,
    /// Paste everything and close.
    Commit,
    /// Close without pasting.
    Close,
    /// Show the window.
    Show,
    /// Hide the window.
    Hide,
    /// Update the status indicator.
    Status(OverlayStatus),
    /// Update the info text.
    Info(String),
    /// Offer candidate texts for review.
    Review { options: Vec<ReviewOption>, selected: usize },
}

/// Status indicator of the overlay.
#[derive(Debug, Clone, Copy, PartialEq, Eq, Structural)]
pub enum OverlayStatus {
    Listening,
    Correcting,
    Paused,
    Review,
}

impl Default for OverlayStatus {
    fn default() -> (r: Self)
        ensures
            r == OverlayStatus::Listening,
    {
        OverlayStatus::Listening
    }
}

impl OverlayStatus {
    /// The text of the indicator.
    pub open spec fn caption(self) -> Seq<char> {
        match self {
            OverlayStatus::Listening => "listening"@,
            OverlayStatus::Correcting => "correcting..."@,
            OverlayStatus::Paused => "paused"@,
            OverlayStatus::Review => "review (↑/↓ select, → paste)"@,
        }
    }

    /// The style class of the indicator.
    pub open spec fn class(self) -> Seq<char> {
        match self {
            OverlayStatus::Listening => "status-listening"@,
            OverlayStatus::Correcting => "status-correcting"@,
            OverlayStatus::Paused => "status-paused"@,
            OverlayStatus::Review => "status-review"@,
        }
    }

    /// The text of the indicator.
    pub fn as_str(&self) -> (r: &'static str)
        ensures
            r@ == self.caption(),
    {
        match self {
            OverlayStatus::Listening => "listening",
            OverlayStatus::Correcting => "correcting...",
            OverlayStatus::Paused => "paused",
            OverlayStatus::Review => "review (↑/↓ select, → paste)",
        }
    }

    /// The style class of the indicator.
    pub fn css_class(&self) -> (r: &'static str)
        ensures
            r@ == self.class(),
    {
        match self {
            OverlayStatus::Listening => "status-listening",
            OverlayStatus::Correcting => "status-correcting",
            OverlayStatus::Paused => "status-paused",
            OverlayStatus::Review => "status-review",
        }
    }
}

/// Where a text offered for review comes from.
#[derive(Debug, Clone, Copy, PartialEq, Eq, Structural)]
pub enum ReviewChoice {
    Raw,
    Final,
    Accuracy,
    Cancel,
}

/// A text offered for review.
#[derive(Debug)]
pub struct ReviewOption {
    pub choice: ReviewChoice,
    pub text: String,
    pub safe: bool,
}

/// What a text offered for review holds.
#[verifier::ext_equal]
pub struct OptionModel {
    pub choice: ReviewChoice,
    pub text: Seq<char>,
    pub safe: bool,
}

impl View for ReviewOption {
    type V = OptionModel;

    open spec fn view(&self) -> OptionModel {
        OptionModel { choice: self.choice, text: self.text@, safe: self.safe }
    }
}

impl Clone for ReviewOption {
    fn clone(&self) -> (r: Self)
        ensures
            r@ == self@,
    {
        ReviewOption { choice: self.choice, text: self.text.clone(), safe: self.safe }
    }
}

impl OptionModel {
    /// The name of the choice.
    pub open spec fn caption(self) -> Seq<char> {
        match self.choice {
            ReviewChoice::Raw => "RAW"@,
            ReviewChoice::Final => "FINAL"@,
            ReviewChoice::Accuracy => "ACCURACY"@,
            ReviewChoice::Cancel => "CANCEL"@,
        }
    }

    /// Whether the text is a correction that was not accepted.
    pub open spec fn rejected(self) -> bool {
        !self.safe && self.choice != ReviewChoice::Raw && self.choice != ReviewChoice::Cancel
    }

    /// The answer that selecting the option gives.
    pub open spec fn answer(self, type_output: bool) -> ResponseModel {
        if self.choice == ReviewChoice::Cancel {
            ResponseModel::Cancel
        } else {
            ResponseModel::ReviewSelection { choice: self.choice, text: self.text, type_output }
        }
    }
}

impl ReviewOption {
    /// The name of the choice.
    pub fn label(&self) -> (r: &'static str)
        ensures
            r@ == self@.caption(),
    {
        match self.choice {
            ReviewChoice::Raw => "RAW",
            ReviewChoice::Final => "FINAL",
            ReviewChoice::Accuracy => "ACCURACY",
            ReviewChoice::Cancel => "CANCEL",
        }
    }

    /// Whether the text is a correction that was not accepted.
    pub fn is_rejected(&self) -> (r: bool)
        ensures
            r == self@.rejected(),
    {
        !self.safe && self.choice != ReviewChoice::Raw && self.choice != ReviewChoice::Cancel
    }

    /// The answer that selecting the option gives.
    fn into_answer(self, type_output: bool) -> (r: OverlayResponse)
        ensures
            r@ == self@.answer(type_output),
    {
        if self.choice == ReviewChoice::Cancel {
            OverlayResponse::Cancel
        } else {
            OverlayResponse::ReviewSelection { choice: self.choice, text: self.text, type_output }
        }
    }
}

/// Answers of the overlay.
#[derive(Debug, Clone, PartialEq, Eq)]
pub enum OverlayResponse {
    /// Text to paste, from a checkpoint or a commit.
    PasteText(String),
    /// The overlay was closed.
    Closed,
    /// The review was canceled.
    Cancel,
    /// A text was chosen in the review.
    ReviewSelection { choice: ReviewChoice, text: String, type_output: bool },
}

/// What an answer holds.
pub enum ResponseModel {
    PasteText(Seq<char>),
    Closed,
    Cancel,
    ReviewSelection { choice: ReviewChoice, text: Seq<char>, type_output: bool },
}

impl View for OverlayResponse {
    type V = ResponseModel;

    open spec fn view(&self) -> ResponseModel {
        match self {
            OverlayResponse::PasteText(pasted) => ResponseModel::PasteText(pasted@),
            OverlayResponse::Closed => ResponseModel::Closed,
            OverlayResponse::Cancel => ResponseModel::Cancel,
            OverlayResponse::ReviewSelection { choice, text, type_output } => {
                ResponseModel::ReviewSelection {
                    choice: *choice,
                    text: text@,
                    type_output: *type_output,
                }
            },
        }
    }
}

/// What a command holds.
pub enum CommandModel {
    Word(Seq<char>),
    Correction(Seq<char>),
    ChunkCorrection { corrected: Seq<char>, start: nat, original_len: nat },
    Checkpoint,
    Commit,
    Close,
    Show,
    Hide,
    Status(OverlayStatus),
    Info(Seq<char>),
    Review { options: Seq<OptionModel>, selected: nat },
}

/// The views of a list of options.
pub open spec fn option_views(options: Seq<ReviewOption>) -> Seq<OptionModel> {
    options.map_values(|option: ReviewOption| option@)
}

impl View for OverlayCommand {
    type V = CommandModel;

    open spec fn view(&self) -> CommandModel {
        match self {
            OverlayCommand::Word(word) => CommandModel::Word(word@),
            OverlayCommand::Correction(corrected) => CommandModel::Correction(corrected@),
            OverlayCommand::ChunkCorrection { corrected, start, original_len } => {
                CommandModel::ChunkCorrection {
                    corrected: corrected@,
                    start: *start as nat,
                    original_len: *original_len as nat,
                }
            },
            OverlayCommand::Checkpoint => CommandModel::Checkpoint,
            OverlayCommand::Commit => CommandModel::Commit,
            OverlayCommand::Close => CommandModel::Close,
            OverlayCommand::Show => CommandModel::Show,
            OverlayCommand::Hide => CommandModel::Hide,
            OverlayCommand::Status(status) => CommandModel::Status(*status),
            OverlayCommand::Info(info) => CommandModel::Info(info@),
            OverlayCommand::Review { options, selected } => CommandModel::Review {
                options: option_views(options@),
                selected: *selected as nat,
            },
        }
    }
}

impl OverlayCommand {
    /// The end of a chunk correction's range must be a number of words.
    pub open spec fn in_range(&self) -> bool {
        self matches OverlayCommand::ChunkCorrection { corrected, start, original_len } ==> *start
            + *original_len <= usize::MAX
    }
}

/// The two sizes of the window.
#[derive(Debug, Clone, Copy, PartialEq, Eq, Structural)]
pub enum Placement {
    /// For dictation.
    Compact,
    /// For a review.
    Review,
}

/// A step for the window, to be taken in the order in which it is listed.
#[derive(Debug, PartialEq, Eq)]
pub enum WindowStep {
    /// Rebuild the content and the count label from the state.
    RefreshContent,
    /// Rebuild the status indicator from the state.
    RefreshStatus,
    /// Show an info text.
    ShowInfo(String),
    /// Answer the dictation client.
    Respond(OverlayResponse),
    /// Take no keyboard input.
    ReleaseKeyboard,
    /// Take all keyboard input.
    GrabKeyboard,
    /// Resize the window and put it into its corner of the screen.
    Place(Placement),
    /// Show or hide the window.
    SetVisible(bool),
    /// Bring the window to the front.
    Present,
}

/// What a step holds.
pub enum StepModel {
    RefreshContent,
    RefreshStatus,
    ShowInfo(Seq<char>),
    Respond(ResponseModel),
    ReleaseKeyboard,
    GrabKeyboard,
    Place(Placement),
    SetVisible(bool),
    Present,
}

impl View for WindowStep {
    type V = StepModel;

    open spec fn view(&self) -> StepModel {
        match self {
            WindowStep::RefreshContent => StepModel::RefreshContent,
            WindowStep::RefreshStatus => StepModel::RefreshStatus,
            WindowStep::ShowInfo(info) => StepModel::ShowInfo(info@),
            WindowStep::Respond(response) => StepModel::Respond(response@),
            WindowStep::ReleaseKeyboard => StepModel::ReleaseKeyboard,
            WindowStep::GrabKeyboard => StepModel::GrabKeyboard,
            WindowStep::Place(placement) => StepModel::Place(*placement),
            WindowStep::SetVisible(visible) => StepModel::SetVisible(*visible),
            WindowStep::Present => StepModel::Present,
        }
    }
}

/// The views of a list of steps.
pub open spec fn step_views(steps: Seq<WindowStep>) -> Seq<StepModel> {
    steps.map_values(|step: WindowStep| step@)
}

/// The keys that the review knows.
#[derive(Debug, Clone, Copy, PartialEq, Eq, Structural)]
pub enum OverlayKey {
    Up,
    Down,
    Right,
    Return,
    KpEnter,
    Escape,
    ShiftLeft,
    ShiftRight,
    Other,
}

/// Whether a key event goes on to other handlers.
#[derive(Debug, Clone, Copy, PartialEq, Eq, Structural)]
pub enum KeyFlow {
    Proceed,
    Stop,
}

/// What the state of the overlay holds.
#[verifier::ext_equal]
pub struct OverlayModel {
    pub buffer: PreviewModel,
    pub status: OverlayStatus,
    pub review_active: bool,
    pub options: Seq<OptionModel>,
    pub selected: nat,
    /// The option that waits for the shift key to be released.
    pub pending: Option<OptionModel>,
    pub pending_type_output: bool,
}

/// The text to paste as an answer, if there is any.
pub open spec fn paste_step(pasted: Option<Seq<char>>) -> Seq<StepModel> {
    match pasted {
        Some(pasted) => seq![StepModel::Respond(ResponseModel::PasteText(pasted))],
        None => Seq::empty(),
    }
}

/// The steps that end a review: the window goes back to dictation size and is hidden.
pub open spec fn leave_review_steps() -> Seq<StepModel> {
    seq![
        StepModel::RefreshStatus,
        StepModel::RefreshContent,
        StepModel::ReleaseKeyboard,
        StepModel::SetVisible(false),
        StepModel::Place(Placement::Compact),
    ]
}

/// The answer that selecting an option gives, if there is one.
pub open spec fn answer_step(option: Option<OptionModel>, type_output: bool) -> Seq<StepModel> {
    match option {
        Some(option) => seq![StepModel::Respond(option.answer(type_output))],
        None => Seq::empty(),
    }
}

impl OverlayModel {
    /// The overlay as it opens.
    pub open spec fn start() -> OverlayModel {
        OverlayModel {
            buffer: PreviewModel::empty(),
            status: OverlayStatus::Listening,
            review_active: false,
            options: Seq::empty(),
            selected: 0,
            pending: None,
            pending_type_output: false,
        }
    }

    /// While options are offered, one of them is selected.
    pub open spec fn wf(self) -> bool {
        self.review_active && self.options.len() > 0 ==> self.selected < self.options.len()
    }

    /// The selected option.
    pub open spec fn selection(self) -> Option<OptionModel> {
        if self.selected < self.options.len() {
            Some(self.options[self.selected as int])
        } else {
            None
        }
    }

    /// Without the review's options; a selection that waits for the shift key stays.
    pub open spec fn review_closed(self) -> OverlayModel {
        OverlayModel { review_active: false, options: Seq::empty(), ..self }
    }

    /// After a review was answered or canceled.
    pub open spec fn review_done(self) -> OverlayModel {
        OverlayModel {
            status: OverlayStatus::Paused,
            review_active: false,
            options: Seq::empty(),
            pending: None,
            pending_type_output: false,
            ..self
        }
    }

    /// State and steps after a command.
    pub open spec fn handled(self, command: CommandModel) -> (OverlayModel, Seq<StepModel>) {
        match command {
            CommandModel::Word(word) => (
                OverlayModel { buffer: self.buffer.with_word(word), ..self },
                seq![StepModel::RefreshContent],
            ),
            CommandModel::Correction(corrected) => (
                OverlayModel { buffer: self.buffer.with_correction(corrected), ..self },
                seq![StepModel::RefreshContent],
            ),
            CommandModel::ChunkCorrection { corrected, start, original_len } => (
                OverlayModel {
                    buffer: self.buffer.with_chunk(start, original_len, corrected),
                    ..self
                },
                seq![StepModel::RefreshContent],
            ),
            CommandModel::Checkpoint => (
                OverlayModel { buffer: self.buffer.after_checkpoint(), ..self },
                paste_step(self.buffer.checkpoint_text()).push(StepModel::RefreshContent),
            ),
            CommandModel::Commit => (
                OverlayModel { buffer: self.buffer.after_commit(), ..self.review_closed() },
                seq![StepModel::Place(Placement::Compact)] + paste_step(self.buffer.commit_text())
                    + seq![
                    StepModel::RefreshContent,
                    StepModel::SetVisible(false),
                    StepModel::Respond(ResponseModel::Closed),
                ],
            ),
            CommandModel::Close => (
                OverlayModel { buffer: PreviewModel::empty(), ..self.review_closed() },
                seq![
                    StepModel::Place(Placement::Compact),
                    StepModel::RefreshContent,
                    StepModel::SetVisible(false),
                    StepModel::Respond(ResponseModel::Closed),
                ],
            ),
            CommandModel::Show => (self, seq![StepModel::SetVisible(true), StepModel::Present]),
            CommandModel::Hide => (self, seq![StepModel::SetVisible(false)]),
            CommandModel::Status(status) => (
                OverlayModel { status, ..self },
                seq![StepModel::RefreshStatus],
            ),
            CommandModel::Info(info) => (self, seq![StepModel::ShowInfo(info)]),
            CommandModel::Review { options, selected } => (
                OverlayModel {
                    status: OverlayStatus::Review,
                    review_active: true,
                    options,
                    selected: if options.len() == 0 {
                        0
                    } else if selected < options.len() {
                        selected
                    } else {
                        (options.len() - 1) as nat
                    },
                    ..self
                },
                seq![
                    StepModel::RefreshStatus,
                    StepModel::RefreshContent,
                    StepModel::Place(Placement::Review),
                    StepModel::GrabKeyboard,
                    StepModel::SetVisible(true),
                    StepModel::Present,
                ],
            ),
        }
    }

    /// State, steps and flow after a key was pressed, with or without shift.
    pub open spec fn pressed(self, key: OverlayKey, shift: bool) -> (
        OverlayModel,
        Seq<StepModel>,
        KeyFlow,
    ) {
        let count = self.options.len();
        if !self.review_active {
            (self, Seq::empty(), KeyFlow::Proceed)
        } else if self.pending is Some && self.pending_type_output {
            (self, Seq::empty(), KeyFlow::Stop)
        } else {
            match key {
                OverlayKey::Up => if count == 0 {
                    (self, Seq::empty(), KeyFlow::Stop)
                } else {
                    (
                        OverlayModel {
                            selected: ((self.selected + count - 1) % count as int) as nat,
                            ..self
                        },
                        seq![StepModel::RefreshContent],
                        KeyFlow::Stop,
                    )
                },
                OverlayKey::Down => if count == 0 {
                    (self, Seq::empty(), KeyFlow::Stop)
                } else {
                    (
                        OverlayModel { selected: (self.selected + 1) % count, ..self },
                        seq![StepModel::RefreshContent],
                        KeyFlow::Stop,
                    )
                },
                OverlayKey::Right | OverlayKey::Return | OverlayKey::KpEnter => if shift {
                    (
                        OverlayModel {
                            pending: self.selection(),
                            pending_type_output: true,
                            ..self
                        },
                        seq![StepModel::RefreshContent],
                        KeyFlow::Stop,
                    )
                } else {
                    (
                        self.review_done(),
                        leave_review_steps() + answer_step(self.selection(), false),
                        KeyFlow::Stop,
                    )
                },
                OverlayKey::Escape => (
                    self.review_done(),
                    leave_review_steps().push(StepModel::Respond(ResponseModel::Cancel)),
                    KeyFlow::Stop,
                ),
                _ => (self, Seq::empty(), KeyFlow::Proceed),
            }
        }
    }

    /// State, steps and flow after a key was released; `shift` tells whether shift is
    /// still held.
    pub open spec fn released(self, key: OverlayKey, shift: bool) -> (
        OverlayModel,
        Seq<StepModel>,
        KeyFlow,
    ) {
        if !self.review_active || self.pending is None {
            (self, Seq::empty(), KeyFlow::Proceed)
        } else if (key != OverlayKey::ShiftLeft && key != OverlayKey::ShiftRight) || shift {
            (self, Seq::empty(), KeyFlow::Stop)
        } else {
            (
                self.review_done(),
                leave_review_steps() + answer_step(self.pending, true),
                KeyFlow::Stop,
            )
        }
    }

    /// State and steps after the window was asked to close.
    pub open spec fn close_requested(self) -> (OverlayModel, Seq<StepModel>) {
        (
            OverlayModel { buffer: PreviewModel::empty(), ..self.review_closed() },
            seq![
                StepModel::RefreshContent,
                StepModel::SetVisible(false),
                StepModel::Respond(ResponseModel::Closed),
            ],
        )
    }
}

/// State of the overlay behind its widgets.
pub struct OverlayState {
    pub buffer: PreviewBuffer,
    pub status: OverlayStatus,
    pub review_active: bool,
    pub review_options: Vec<ReviewOption>,
    pub review_selected: usize,
    pub pending_selection: Option<ReviewOption>,
    pub pending_type_output: bool,
}

impl View for OverlayState {
    type V = OverlayModel;

    open spec fn view(&self) -> OverlayModel {
        OverlayModel {
            buffer: self.buffer@,
            status: self.status,
            review_active: self.review_active,
            options: option_views(self.review_options@),
            selected: self.review_selected as nat,
            pending: match self.pending_selection {
                Some(option) => Some(option@),
                None => None,
            },
            pending_type_output: self.pending_type_output,
        }
    }
}

impl OverlayState {
    /// The overlay as it opens.
    pub fn new() -> (r: Self)
        ensures
            r@ == OverlayModel::start(),
            r@.wf(),
    {
        let r = OverlayState {
            buffer: PreviewBuffer::new(),
            status: OverlayStatus::Listening,
            review_active: false,
            review_options: Vec::new(),
            review_selected: 0,
            pending_selection: None,
            pending_type_output: false,
        };
        assert(r@ =~= OverlayModel::start());
        r
    }

    /// Handles a command from the dictation client.
    pub fn handle_command(&mut self, command: OverlayCommand) -> (r: Vec<WindowStep>)
        requires
            old(self)@.wf(),
            command.in_range(),
        ensures
            final(self)@.wf(),
            (final(self)@, step_views(r@)) == old(self)@.handled(command@),
    {
        let mut steps: Vec<WindowStep> = Vec::new();
        match command {
            OverlayCommand::Word(word) => {
                self.buffer.add_word(word);
                steps.push(WindowStep::RefreshContent);
            },
            OverlayCommand::Correction(corrected) => {
                self.buffer.apply_correction(corrected);
                steps.push(WindowStep::RefreshContent);
            },
            OverlayCommand::ChunkCorrection { corrected, start, original_len } => {
                self.buffer.apply_chunk_correction(start, original_len, corrected.as_str());
                steps.push(WindowStep::RefreshContent);
            },
            OverlayCommand::Checkpoint => {
                if let Some(pasted) = self.buffer.checkpoint() {
                    steps.push(WindowStep::Respond(OverlayResponse::PasteText(pasted)));
                }
                steps.push(WindowStep::RefreshContent);
            },
            OverlayCommand::Commit => {
                self.review_active = false;
                self.review_options.clear();
                steps.push(WindowStep::Place(Placement::Compact));
                if let Some(pasted) = self.buffer.commit() {
                    steps.push(WindowStep::Respond(OverlayResponse::PasteText(pasted)));
                }
                steps.push(WindowStep::RefreshContent);
                steps.push(WindowStep::SetVisible(false));
                steps.push(WindowStep::Respond(OverlayResponse::Closed));
            },
            OverlayCommand::Close => {
                self.review_active = false;
                self.review_options.clear();
                steps.push(WindowStep::Place(Placement::Compact));
                self.buffer.clear();
                steps.push(WindowStep::RefreshContent);
                steps.push(WindowStep::SetVisible(false));
                steps.push(WindowStep::Respond(OverlayResponse::Closed));
            },
            OverlayCommand::Status(status) => {
                self.status = status;
                steps.push(WindowStep::RefreshStatus);
            },
            OverlayCommand::Info(info) => {
                steps.push(WindowStep::ShowInfo(info));
            },
            OverlayCommand::Review { options, selected } => {
                self.review_active = true;
                let count: usize = options.len();
                let last: usize = if count == 0 { 0 } else { count - 1 };
                self.review_selected = if selected < last { selected } else { last };
                self.review_options = options;
                self.status = OverlayStatus::Review;
                steps.push(WindowStep::RefreshStatus);
                steps.push(WindowStep::RefreshContent);
                steps.push(WindowStep::Place(Placement::Review));
                steps.push(WindowStep::GrabKeyboard);
                steps.push(WindowStep::SetVisible(true));
                steps.push(WindowStep::Present);
            },
            OverlayCommand::Show => {
                steps.push(WindowStep::SetVisible(true));
                steps.push(WindowStep::Present);
            },
            OverlayCommand::Hide => {
                steps.push(WindowStep::SetVisible(false));
            },
        }
        proof {
            let expected = old(self)@.handled(command@);
            assert(self@ =~= expected.0);
            assert(step_views(steps@) =~= expected.1);
        }
        steps
    }

    /// Ends the review and returns the steps for it.
    fn leave_review(&mut self) -> (r: Vec<WindowStep>)
        ensures
            final(self)@ == old(self)@.review_done(),
            step_views(r@) == leave_review_steps(),
    {
        self.review_active = false;
        self.review_options.clear();
        self.pending_selection = None;
        self.pending_type_output = false;
        self.status = OverlayStatus::Paused;
        let mut steps: Vec<WindowStep> = Vec::new();
        steps.push(WindowStep::RefreshStatus);
        steps.push(WindowStep::RefreshContent);
        steps.push(WindowStep::ReleaseKeyboard);
        steps.push(WindowStep::SetVisible(false));
        steps.push(WindowStep::Place(Placement::Compact));
        assert(self@ =~= old(self)@.review_done());
        assert(step_views(steps@) =~= leave_review_steps());
        steps
    }

    /// Handles a key press; `shift` tells whether shift is held.
    pub fn key_pressed(&mut self, key: OverlayKey, shift: bool) -> (r: (Vec<WindowStep>, KeyFlow))
        requires
            old(self)@.wf(),
        ensures
            final(self)@.wf(),
            (final(self)@, step_views(r.0@), r.1) == old(self)@.pressed(key, shift),
    {
        let mut steps: Vec<WindowStep> = Vec::new();
        assert(step_views(steps@) =~= Seq::empty());
        if !self.review_active {
            return (steps, KeyFlow::Proceed);
        }
        if self.pending_selection.is_some() && self.pending_type_output {
            return (steps, KeyFlow::Stop);
        }
        let count: usize = self.review_options.len();
        let flow = match key {
            OverlayKey::Up => {
                if count > 0 {
                    proof {
                        lemma_wrap_back(self.review_selected as int, count as int);
                    }
                    self.review_selected = if self.review_selected == 0 {
                        count - 1
                    } else {
                        self.review_selected - 1
                    };
                    steps.push(WindowStep::RefreshContent);
                }
                KeyFlow::Stop
            },
            OverlayKey::Down => {
                if count > 0 {
                    proof {
                        lemma_wrap_on(self.review_selected as int, count as int);
                    }
                    self.review_selected = if self.review_selected == count - 1 {
                        0
                    } else {
                        self.review_selected + 1
                    };
                    steps.push(WindowStep::RefreshContent);
                }
                KeyFlow::Stop
            },
            OverlayKey::Right | OverlayKey::Return | OverlayKey::KpEnter => {
                let selected = if self.review_selected < count {
                    Some(self.review_options[self.review_selected].clone())
                } else {
                    None
                };
                if shift {
                    self.pending_selection = selected;
                    self.pending_type_output = true;
                    steps.push(WindowStep::RefreshContent);
                } else {
                    steps = self.leave_review();
                    if let Some(option) = selected {
                        steps.push(WindowStep::Respond(option.into_answer(false)));
                    }
                }
                KeyFlow::Stop
            },
            OverlayKey::Escape => {
                steps = self.leave_review();
                steps.push(WindowStep::Respond(OverlayResponse::Cancel));
                KeyFlow::Stop
            },
            _ => KeyFlow::Proceed,
        };
        proof {
            let expected = old(self)@.pressed(key, shift);
            assert(self@ =~= expected.0);
            assert(step_views(steps@) =~= expected.1);
        }
        (steps, flow)
    }

    /// Handles a key release; `shift` tells whether shift is still held.
    pub fn key_released(&mut self, key: OverlayKey, shift: bool) -> (r: (Vec<WindowStep>, KeyFlow))
        requires
            old(self)@.wf(),
        ensures
            final(self)@.wf(),
            (final(self)@, step_views(r.0@), r.1) == old(self)@.released(key, shift),
    {
        let mut steps: Vec<WindowStep> = Vec::new();
        assert(step_views(steps@) =~= Seq::empty());
        if !self.review_active || self.pending_selection.is_none() {
            return (steps, KeyFlow::Proceed);
        }
        if key != OverlayKey::ShiftLeft && key != OverlayKey::ShiftRight {
            return (steps, KeyFlow::Stop);
        }
        if shift {
            return (steps, KeyFlow::Stop);
        }
        let selected = self.pending_selection.take();
        steps = self.leave_review();
        if let Some(option) = selected {
            steps.push(WindowStep::Respond(option.into_answer(true)));
        }
        proof {
            let expected = old(self)@.released(key, shift);
            assert(self@ =~= expected.0);
            assert(step_views(steps@) =~= expected.1);
        }
        (steps, KeyFlow::Stop)
    }

    /// Handles a request to close the window: the text is dropped, the window hidden, and the
    /// answer is that the overlay was closed.
    pub fn close_request(&mut self) -> (r: Vec<WindowStep>)
        ensures
            final(self)@.wf(),
            (final(self)@, step_views(r@)) == old(self)@.close_requested(),
    {
        self.review_active = false;
        self.review_options.clear();
        self.buffer.clear();
        let mut steps: Vec<WindowStep> = Vec::new();
        steps.push(WindowStep::RefreshContent);
        steps.push(WindowStep::SetVisible(false));
        steps.push(WindowStep::Respond(OverlayResponse::Closed));
        proof {
            let expected = old(self)@.close_requested();
            assert(self@ =~= expected.0);
            assert(step_views(steps@) =~= expected.1);
        }
        steps
    }
}

/// One step back in a circle of `count`.
pub proof fn lemma_wrap_back(selected: int, count: int)
    requires
        0 <= selected < count,
    ensures
        (selected + count - 1) % count == if selected == 0 {
            count - 1
        } else {
            selected - 1
        },
{
    if selected == 0 {
        vstd::arithmetic::div_mod::lemma_small_mod((count - 1) as nat, count as nat);
    } else {
        vstd::arithmetic::div_mod::lemma_mod_add_multiples_vanish(selected - 1, count);
        vstd::arithmetic::div_mod::lemma_small_mod((selected - 1) as nat, count as nat);
    }
}

/// One step on in a circle of `count`.
pub proof fn lemma_wrap_on(selected: int, count: int)
    requires
        0 <= selected < count,
    ensures
        (selected + 1) % count == if selected == count - 1 {
            0
        } else {
            selected + 1
        },
{
    if selected == count - 1 {
        vstd::arithmetic::div_mod::lemma_mod_add_multiples_vanish(0, count);
        vstd::arithmetic::div_mod::lemma_small_mod(0, count as nat);
    } else {
        vstd::arithmetic::div_mod::lemma_small_mod((selected + 1) as nat, count as nat);
    }
}

} // verus!
