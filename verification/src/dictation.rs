//! Dictation as a whole: its states, what a change of state brings about, when audio is
//! captured, and where the client keeps its files.

use crate::text;
use crate::text::{decimal_text, ends_with, trim_text, CharClass};
use vstd::prelude::*;
use vstd::string::*;

verus! {

/// The title of notifications.
pub const NOTIFICATION_TITLE: &'static str = "eaRS Dictation";

/// The name of the file with the process number.
pub const PID_FILE_NAME: &'static str = "dictation.pid";

/// The name of the file with the status.
pub const STATUS_FILE_NAME: &'static str = "status.json";

/// The name of the file that becomes the file with the status.
pub const STATUS_TMP_NAME: &'static str = "status.tmp";

/// A transcription engine of the server.
#[derive(Clone, Copy, Debug, PartialEq, Eq, Structural)]
pub enum EngineArg {
    Kyutai,
    Parakeet,
}

impl EngineArg {
    /// The name of the engine.
    pub open spec fn name(self) -> Seq<char> {
        match self {
            EngineArg::Kyutai => "kyutai"@,
            EngineArg::Parakeet => "parakeet"@,
        }
    }

    /// The name of the engine.
    pub fn as_str(&self) -> (r: &'static str)
        ensures
            r@ == self.name(),
    {
        match self {
            EngineArg::Kyutai => "kyutai",
            EngineArg::Parakeet => "parakeet",
        }
    }
}

/// What a change of state is announced as.
#[derive(Clone, Copy, Debug, PartialEq, Eq, Structural)]
pub enum DictationEvent {
    Started,
    Paused,
    Stopped,
}

/// Whether the client listens, waits or does not run.
#[derive(Clone, Copy, Debug, PartialEq, Eq, Structural)]
pub enum DictationState {
    Listening,
    Suspended,
    Inactive,
}

/// The status that other programs can read.
#[derive(Clone, Copy, Debug, PartialEq, Eq, Structural)]
pub enum Status {
    Listening,
    Paused,
    Processing,
    Inactive,
}

impl Status {
    /// The word for the status.
    pub open spec fn word(self) -> Seq<char> {
        match self {
            Status::Listening => "listening"@,
            Status::Paused => "paused"@,
            Status::Processing => "processing"@,
            Status::Inactive => "inactive"@,
        }
    }

    /// The word for the status.
    pub fn as_str(&self) -> (r: &'static str)
        ensures
            r@ == self.word(),
    {
        match self {
            Status::Listening => "listening",
            Status::Paused => "paused",
            Status::Processing => "processing",
            Status::Inactive => "inactive",
        }
    }

    /// The content of the status file.
    pub fn to_json(&self) -> (r: String)
        ensures
            r@ == "{\"state\":\""@ + self.word() + "\"}"@,
    {
        let mut json = "{\"state\":\"".to_owned();
        json.append(self.as_str());
        json.append("\"}");
        json
    }
}

impl DictationState {
    /// What entering the state is announced as.
    pub open spec fn announced(self) -> DictationEvent {
        match self {
            DictationState::Listening => DictationEvent::Started,
            DictationState::Suspended => DictationEvent::Paused,
            DictationState::Inactive => DictationEvent::Stopped,
        }
    }

    /// The status of the state.
    pub open spec fn shown(self) -> Status {
        match self {
            DictationState::Listening => Status::Listening,
            DictationState::Suspended => Status::Paused,
            DictationState::Inactive => Status::Inactive,
        }
    }

    /// What entering the state is announced as.
    pub fn event(&self) -> (r: DictationEvent)
        ensures
            r == self.announced(),
    {
        match self {
            DictationState::Listening => DictationEvent::Started,
            DictationState::Suspended => DictationEvent::Paused,
            DictationState::Inactive => DictationEvent::Stopped,
        }
    }

    /// The status of the state.
    pub fn status(&self) -> (r: Status)
        ensures
            r == self.shown(),
    {
        match self {
            DictationState::Listening => Status::Listening,
            DictationState::Suspended => Status::Paused,
            DictationState::Inactive => Status::Inactive,
        }
    }
}

/// Which notifications are sent. A blank message is not sent.
#[derive(Clone, Debug)]
pub struct DictationNotificationConfig {
    pub enabled: bool,
    pub start_message: String,
    pub pause_message: String,
    pub stop_message: String,
    pub processing_message: String,
}

/// Which commands are run. A blank command is not run.
#[derive(Clone, Debug)]
pub struct DictationHooksConfig {
    pub start_command: Option<String>,
    pub pause_command: Option<String>,
    pub stop_command: Option<String>,
}

/// Whether a text holds nothing but white space.
pub open spec fn blank(s: Seq<char>) -> bool {
    text::trimmed(s, CharClass::WhiteSpace).len() == 0
}

/// A message where notifications are enabled and it is not blank.
pub open spec fn if_wanted(enabled: bool, message: Seq<char>) -> Option<Seq<char>> {
    if enabled && !blank(message) {
        Some(message)
    } else {
        None
    }
}

impl DictationNotificationConfig {
    /// The message for an event.
    pub open spec fn message(self, event: DictationEvent) -> Seq<char> {
        match event {
            DictationEvent::Started => self.start_message@,
            DictationEvent::Paused => self.pause_message@,
            DictationEvent::Stopped => self.stop_message@,
        }
    }

    /// The notification for an event.
    pub fn toggle_notification(&self, event: DictationEvent) -> (r: Option<String>)
        ensures
            text::option_text(r) == if_wanted(self.enabled, self.message(event)),
    {
        let message = match event {
            DictationEvent::Started => &self.start_message,
            DictationEvent::Paused => &self.pause_message,
            DictationEvent::Stopped => &self.stop_message,
        };
        self.wanted(message)
    }

    /// The notification that text is being corrected.
    pub fn processing_notification(&self) -> (r: Option<String>)
        ensures
            text::option_text(r) == if_wanted(self.enabled, self.processing_message@),
    {
        self.wanted(&self.processing_message)
    }

    /// A message where notifications are enabled and it is not blank.
    fn wanted(&self, message: &String) -> (r: Option<String>)
        ensures
            text::option_text(r) == if_wanted(self.enabled, message@),
    {
        if !self.enabled {
            return None;
        }
        if trim_text(message.as_str(), CharClass::WhiteSpace).as_str().is_empty() {
            return None;
        }
        Some(message.clone())
    }
}

impl DictationHooksConfig {
    /// The command for an event as it is configured.
    pub open spec fn configured(self, event: DictationEvent) -> Option<Seq<char>> {
        match event {
            DictationEvent::Started => text::option_text(self.start_command),
            DictationEvent::Paused => text::option_text(self.pause_command),
            DictationEvent::Stopped => text::option_text(self.stop_command),
        }
    }

    /// The command for an event as it is run: without white space at its ends.
    pub open spec fn to_run(self, event: DictationEvent) -> Option<Seq<char>> {
        match self.configured(event) {
            Some(command) => if blank(command) {
                None
            } else {
                Some(text::trimmed(command, CharClass::WhiteSpace))
            },
            None => None,
        }
    }

    /// The command to run for an event.
    pub fn hook_command(&self, event: DictationEvent) -> (r: Option<String>)
        ensures
            text::option_text(r) == self.to_run(event),
    {
        let configured = match event {
            DictationEvent::Started => &self.start_command,
            DictationEvent::Paused => &self.pause_command,
            DictationEvent::Stopped => &self.stop_command,
        };
        match configured {
            Some(command) => {
                let core = trim_text(command.as_str(), CharClass::WhiteSpace);
                if core.as_str().is_empty() {
                    None
                } else {
                    Some(core)
                }
            },
            None => None,
        }
    }
}

/// What a change of state brings about.
#[derive(Debug, PartialEq, Eq)]
pub struct StateChange {
    pub event: DictationEvent,
    /// The status to write.
    pub status: Status,
    /// The notification to send.
    pub notification: Option<String>,
    /// The command to run.
    pub command: Option<String>,
}

/// Enters a state and tells what that brings about. A state that is already there brings
/// about nothing.
pub fn apply_state_change(
    state: &mut DictationState,
    new_state: DictationState,
    notifications: &DictationNotificationConfig,
    hooks: &DictationHooksConfig,
) -> (r: Option<StateChange>)
    ensures
        *final(state) == new_state,
        match r {
            None => *old(state) == new_state,
            Some(change) => {
                &&& *old(state) != new_state
                &&& change.event == new_state.announced()
                &&& change.status == new_state.shown()
                &&& text::option_text(change.notification) == if_wanted(
                    notifications.enabled,
                    notifications.message(new_state.announced()),
                )
                &&& text::option_text(change.command) == hooks.to_run(new_state.announced())
            },
        },
        r is Some <==> *old(state) != new_state,
{
    if *state == new_state {
        return None;
    }
    *state = new_state;
    let event = new_state.event();
    Some(
        StateChange {
            event,
            status: new_state.status(),
            notification: notifications.toggle_notification(event),
            command: hooks.hook_command(event),
        },
    )
}

/// What a toggle of capturing brings about.
#[derive(Clone, Copy, Debug, PartialEq, Eq, Structural)]
pub struct ToggleOutcome {
    /// The state to enter.
    pub state: DictationState,
    /// Whether what was dictated is corrected for the last time.
    pub final_correction: bool,
    /// Whether the overlay is opened if it is closed.
    pub respawn: bool,
}

/// How capturing was toggled.
#[derive(Clone, Copy, Debug, PartialEq, Eq, Structural)]
pub enum ToggleSource {
    Signal,
    Hotkey,
}

/// Decides which audio is sent. Times are nanoseconds of a clock that never goes back.
#[derive(Clone, Copy, Debug, PartialEq, Eq, Structural)]
pub struct CaptureSwitch {
    pub capturing: bool,
    /// The time up to which audio is sent after capturing stopped.
    pub grace_until: Option<u128>,
}

impl CaptureSwitch {
    /// A switch that sends nothing.
    pub fn new() -> (r: Self)
        ensures
            r == (CaptureSwitch { capturing: false, grace_until: None }),
    {
        CaptureSwitch { capturing: false, grace_until: None }
    }

    /// What a toggle makes of the switch.
    pub open spec fn toggled(self, now: u64, grace_ms: u64) -> CaptureSwitch {
        CaptureSwitch {
            capturing: !self.capturing,
            grace_until: if self.capturing {
                Some((now + grace_ms * 1_000_000) as u128)
            } else {
                None
            },
        }
    }

    /// Starts capturing, or stops it and goes on sending for the time of grace.
    pub fn toggle(&mut self, now: u64, grace_ms: u64, preview: bool, source: ToggleSource) -> (r:
        ToggleOutcome)
        ensures
            *final(self) == old(self).toggled(now, grace_ms),
            r.state == if old(self).capturing {
                DictationState::Suspended
            } else {
                DictationState::Listening
            },
            r.final_correction == old(self).capturing,
            final(self).capturing != old(self).capturing,
            final(self).capturing <==> r.state == DictationState::Listening,
            r.respawn == (!old(self).capturing && preview && source == ToggleSource::Signal),
    {
        self.capturing = !self.capturing;
        if self.capturing {
            self.grace_until = None;
            ToggleOutcome {
                state: DictationState::Listening,
                final_correction: false,
                respawn: preview && source == ToggleSource::Signal,
            }
        } else {
            self.grace_until = Some(now as u128 + grace_ms as u128 * 1_000_000);
            ToggleOutcome {
                state: DictationState::Suspended,
                final_correction: true,
                respawn: false,
            }
        }
    }

    /// Whether audio is sent at a time.
    pub open spec fn open_at(self, now: u64) -> bool {
        self.capturing || (self.grace_until matches Some(until) && now <= until)
    }

    /// Decides whether audio is sent now. A time of grace that has passed is forgotten.
    pub fn should_send(&mut self, now: u64) -> (r: bool)
        ensures
            r == old(self).open_at(now),
            old(self).capturing ==> r,
            r && !old(self).capturing ==> old(self).grace_until is Some && now
                <= old(self).grace_until->0,
            *final(self) == if r {
                *old(self)
            } else {
                (CaptureSwitch { capturing: false, grace_until: None })
            },
    {
        if self.capturing {
            return true;
        }
        match self.grace_until {
            Some(until) => if now as u128 <= until {
                true
            } else {
                self.grace_until = None;
                false
            },
            None => false,
        }
    }
}

/// The directory of the client's files: in the state directory where that is set, else in
/// the home directory, else in the current one.
pub open spec fn state_path(xdg_state: Option<Seq<char>>, home: Option<Seq<char>>) -> Seq<char> {
    if xdg_state is Some && xdg_state->0.len() > 0 {
        beneath(xdg_state->0, "ears"@)
    } else {
        beneath(
            match home {
                Some(home) => home,
                None => "."@,
            },
            ".local/state/ears"@,
        )
    }
}

/// The path of a relative path beneath a directory.
pub open spec fn beneath(dir: Seq<char>, relative: Seq<char>) -> Seq<char> {
    if dir.len() == 0 || text::ends_in(dir, '/') {
        dir + relative
    } else {
        dir + "/"@ + relative
    }
}

/// The view of an optional text.
pub open spec fn option_str(part: Option<&str>) -> Option<Seq<char>> {
    match part {
        Some(part) => Some(part@),
        None => None,
    }
}

/// The path of a relative path beneath a directory.
pub fn path_beneath(dir: &str, relative: &str) -> (r: String)
    ensures
        r@ == beneath(dir@, relative@),
{
    let mut path = dir.to_owned();
    if !dir.is_empty() && !ends_with(dir, '/') {
        path.append("/");
    }
    path.append(relative);
    path
}

/// The directory of the client's files, by the environment.
pub fn get_state_dir(xdg_state: Option<&str>, home: Option<&str>) -> (r: String)
    ensures
        r@ == state_path(option_str(xdg_state), option_str(home)),
{
    if let Some(dir) = xdg_state {
        if !dir.is_empty() {
            return path_beneath(dir, "ears");
        }
    }
    let home = match home {
        Some(home) => home,
        None => ".",
    };
    path_beneath(home, ".local/state/ears")
}

/// The path of the file with the process number.
pub fn get_pid_file(state_dir: &str) -> (r: String)
    ensures
        r@ == beneath(state_dir@, PID_FILE_NAME@),
{
    path_beneath(state_dir, PID_FILE_NAME)
}

/// The path of the file with the status.
pub fn get_status_file(state_dir: &str) -> (r: String)
    ensures
        r@ == beneath(state_dir@, STATUS_FILE_NAME@),
{
    path_beneath(state_dir, STATUS_FILE_NAME)
}

/// The path of the file that is written first and then becomes the file with the status.
pub fn get_status_tmp_file(state_dir: &str) -> (r: String)
    ensures
        r@ == beneath(state_dir@, STATUS_TMP_NAME@),
{
    path_beneath(state_dir, STATUS_TMP_NAME)
}

/// The address of the server: as given, else on this machine.
pub fn server_url(server: Option<String>, port: u16) -> (r: String)
    ensures
        r@ == match server {
            Some(url) => url@,
            None => "ws://127.0.0.1:"@ + text::decimal(port as nat),
        },
{
    match server {
        Some(url) => url,
        None => {
            let mut url = "ws://127.0.0.1:".to_owned();
            url.append(decimal_text(port as usize).as_str());
            url
        },
    }
}

/// The bytes of samples, each given by the bits of its 32-bit float, the lowest first.
pub open spec fn little_endian(samples: Seq<u32>) -> Seq<u8> {
    Seq::new(4 * samples.len(), |i: int| le_byte(samples[i / 4], i % 4))
}

/// The byte of a number at a place, counted from the lowest.
pub open spec fn le_byte(n: u32, place: int) -> u8 {
    if place == 0 {
        (n % 0x100) as u8
    } else if place == 1 {
        (n / 0x100 % 0x100) as u8
    } else if place == 2 {
        (n / 0x1_0000 % 0x100) as u8
    } else {
        (n / 0x100_0000) as u8
    }
}

/// The bytes of samples as they are sent.
pub fn encode_chunk(chunk: &[u32]) -> (r: Vec<u8>)
    ensures
        r@ == little_endian(chunk@),
{
    let mut bytes: Vec<u8> = Vec::new();
    let mut i: usize = 0;
    while i < chunk.len()
        invariant
            i <= chunk.len(),
            bytes@ == little_endian(chunk@.take(i as int)),
        decreases chunk.len() - i,
    {
        let n: u32 = chunk[i];
        let ghost before = bytes@;
        bytes.push((n % 0x100) as u8);
        bytes.push((n / 0x100 % 0x100) as u8);
        bytes.push((n / 0x1_0000 % 0x100) as u8);
        bytes.push((n / 0x100_0000) as u8);
        proof {
            let now = little_endian(chunk@.take(i + 1));
            assert forall|k: int| 0 <= k < now.len() implies bytes@[k] == now[k] by {
                if k < 4 * i {
                    assert(before[k] == le_byte(chunk@.take(i as int)[k / 4], k % 4));
                } else {
                    assert(k / 4 == i && k % 4 == k - 4 * i);
                }
            }
            assert(bytes@ =~= now);
        }
        i += 1;
    }
    assert(chunk@.take(chunk@.len() as int) =~= chunk@);
    bytes
}

/// Audio is sent until the time of grace is over after capturing stopped, and while capturing
/// goes on.
pub proof fn law_grace_after_stopping(switch: CaptureSwitch, now: u64, grace_ms: u64, time: u64)
    ensures
        switch.capturing ==> (switch.toggled(now, grace_ms).open_at(time)
            <==> time <= now + grace_ms * 1_000_000),
        !switch.capturing ==> switch.toggled(now, grace_ms).open_at(time),
{
}

/// Two toggles leave capturing as it was.
pub proof fn law_two_toggles(switch: CaptureSwitch, now: u64, later: u64, grace_ms: u64)
    ensures
        switch.toggled(now, grace_ms).toggled(later, grace_ms).capturing == switch.capturing,
{
}

/// The number that four bytes stand for, the lowest first.
pub open spec fn number_of(bytes: Seq<u8>) -> int {
    bytes[0] + 0x100 * bytes[1] + 0x1_0000 * bytes[2] + 0x100_0000 * bytes[3]
}

/// The samples can be read back from their bytes.
pub proof fn law_samples_are_read_back(samples: Seq<u32>, i: int)
    requires
        0 <= i < samples.len(),
    ensures
        number_of(little_endian(samples).subrange(4 * i, 4 * i + 4)) == samples[i],
        little_endian(samples).len() == 4 * samples.len(),
{
    let bytes = little_endian(samples).subrange(4 * i, 4 * i + 4);
    let n = samples[i];
    assert forall|k: int| 0 <= k < 4 implies bytes[k] == le_byte(n, k) by {
        assert((4 * i + k) / 4 == i && (4 * i + k) % 4 == k);
    }
    assert(bytes[0] == le_byte(n, 0));
    assert(bytes[1] == le_byte(n, 1));
    assert(bytes[2] == le_byte(n, 2));
    assert(bytes[3] == le_byte(n, 3));
}

/// The status file is never one and the same with the file that is written first, nor with
/// the file of the process number.
pub proof fn law_files_differ(dir: Seq<char>)
    ensures
        beneath(dir, STATUS_FILE_NAME@) != beneath(dir, STATUS_TMP_NAME@),
        beneath(dir, STATUS_FILE_NAME@) != beneath(dir, PID_FILE_NAME@),
        beneath(dir, STATUS_TMP_NAME@) != beneath(dir, PID_FILE_NAME@),
{
    reveal_strlit("status.json");
    reveal_strlit("status.tmp");
    reveal_strlit("dictation.pid");
    let json = beneath(dir, STATUS_FILE_NAME@);
    let tmp = beneath(dir, STATUS_TMP_NAME@);
    let pid = beneath(dir, PID_FILE_NAME@);
    assert(json.len() != tmp.len());
    assert(json.len() != pid.len());
    assert(tmp.len() != pid.len());
}

} // verus!
