//! What the client announces, sends, types and pastes, and where its files are.

use crate::clipboard;
use crate::dictation;
use crate::dictation::{
    CaptureSwitch, DictationEvent, DictationHooksConfig, DictationNotificationConfig,
    DictationState, EngineArg, Status,
};
use crate::llm_correct::CorrectorModel;
use crate::protocol;
use crate::protocol::{MessageActionModel, MessageModel};
use crate::text;
use crate::text::CharClass;
use crate::text_laws;
use crate::virtual_keyboard::Modifier;
use vstd::prelude::*;
use vstd::utf8::*;

verus! {

/// The words for statuses, states and engines.
pub proof fn law_status_words()
    ensures
        Status::Listening.word() == "listening"@,
        Status::Paused.word() == "paused"@,
        Status::Processing.word() == "processing"@,
        Status::Inactive.word() == "inactive"@,
        EngineArg::Kyutai.name() == "kyutai"@,
        EngineArg::Parakeet.name() == "parakeet"@,
        DictationState::Listening.shown() == Status::Listening,
        DictationState::Suspended.shown() == Status::Paused,
        DictationState::Inactive.shown() == Status::Inactive,
        DictationState::Listening.announced() == DictationEvent::Started,
        DictationState::Suspended.announced() == DictationEvent::Paused,
        DictationState::Inactive.announced() == DictationEvent::Stopped,
{
}

/// A text with a character that is not white space is not blank, and one without is.
pub proof fn law_blank_texts(s: Seq<char>, place: int)
    ensures
        0 <= place < s.len() && !text::white_space(s[place]) ==> !dictation::blank(s),
        (forall|i: int| 0 <= i < s.len() ==> text::white_space(#[trigger] s[i]))
            ==> dictation::blank(s),
{
    let class = CharClass::WhiteSpace;
    let core = text::trimmed(s, class);
    text_laws::law_trimmed_is_a_stretch(s, class);
    let (from, to) = choose|from: int, to: int|
        text_laws::stretch_between(s, core, class, from, to);
    if 0 <= place < s.len() && !text::white_space(s[place]) && core.len() == 0 {
        assert(class.holds(s[place]));
    }
    if forall|i: int| 0 <= i < s.len() ==> text::white_space(#[trigger] s[i]) {
        let none = Seq::<char>::empty();
        assert(text_laws::all_of(s, class));
        text_laws::law_trim_leaves_the_core(s, none, none, class);
        assert(s + none + none =~= s);
    }
}

/// Where notifications are enabled, every message with a visible character is sent as it is;
/// else none is.
pub proof fn law_messages_are_sent_as_they_are(
    config: DictationNotificationConfig,
    message: Seq<char>,
    place: int,
)
    ensures
        0 <= place < message.len() && !text::white_space(message[place]) ==> dictation::if_wanted(
            true,
            message,
        ) == Some(message),
        dictation::if_wanted(false, message) is None,
        (forall|i: int| 0 <= i < message.len() ==> text::white_space(#[trigger] message[i]))
            ==> dictation::if_wanted(true, message) is None,
        config.message(DictationEvent::Started) == config.start_message@,
        config.message(DictationEvent::Paused) == config.pause_message@,
        config.message(DictationEvent::Stopped) == config.stop_message@,
{
    law_blank_texts(message, place);
}

/// The command for an event is run without the white space around it, and nothing else is taken
/// off; a blank or missing command is not run.
pub proof fn law_commands_are_run_as_they_are(
    hooks: DictationHooksConfig,
    event: DictationEvent,
    left: Seq<char>,
    core: Seq<char>,
    right: Seq<char>,
)
    requires
        text_laws::all_of(left, CharClass::WhiteSpace),
        text_laws::all_of(right, CharClass::WhiteSpace),
        core.len() > 0 ==> !text::white_space(core.first()) && !text::white_space(core.last()),
    ensures
        ({
            let given = match event {
                DictationEvent::Started => hooks.start_command,
                DictationEvent::Paused => hooks.pause_command,
                DictationEvent::Stopped => hooks.stop_command,
            };
            &&& given is None ==> hooks.to_run(event) is None
            &&& given is Some && (given->0)@ == left + core + right ==> hooks.to_run(event)
                == if core.len() > 0 {
                Some(core)
            } else {
                None
            }
        }),
{
    text_laws::law_trim_leaves_the_core(left, core, right, CharClass::WhiteSpace);
}

/// A toggle starts or stops capturing; while it is on audio is sent at any time, and while it is
/// off and no time of grace runs it is not.
pub proof fn law_toggles_start_and_stop(
    switch: CaptureSwitch,
    now: u64,
    grace_ms: u64,
    time: u64,
)
    ensures
        switch.toggled(now, grace_ms).capturing == !switch.capturing,
        switch.capturing ==> switch.open_at(time),
        !switch.capturing && switch.grace_until is None ==> !switch.open_at(time),
        !switch.capturing ==> switch.toggled(now, grace_ms).grace_until is None,
{
}

/// A path beneath a directory is the directory, one slash and the relative path, also where the
/// directory ends with a slash.
pub proof fn law_paths_beneath(dir: Seq<char>, relative: Seq<char>)
    ensures
        dir.len() > 0 && dir.last() != '/' ==> dictation::beneath(dir, relative) == dir.push('/')
            + relative,
        dictation::beneath(dir.push('/'), relative) == dir.push('/') + relative,
        dictation::beneath(Seq::empty(), relative) == relative,
{
    reveal_strlit("/");
    assert(dir + "/"@ =~= dir.push('/'));
    assert(Seq::<char>::empty() + relative =~= relative);
}

/// The client's files are in the state directory where that is set, else in the home directory,
/// else in the current one.
pub proof fn law_state_directory(state: Seq<char>, home: Seq<char>)
    ensures
        state.len() > 0 ==> forall|other: Option<Seq<char>>| #[trigger]
            dictation::state_path(Some(state), other) == dictation::beneath(state, "ears"@),
        dictation::state_path(None, Some(home)) == dictation::beneath(
            home,
            ".local/state/ears"@,
        ),
        dictation::state_path(Some(Seq::empty()), Some(home)) == dictation::beneath(
            home,
            ".local/state/ears"@,
        ),
        dictation::state_path(None, None) == dictation::beneath("."@, ".local/state/ears"@),
{
}

/// While audio is captured every word with a letter or a digit in a message of that kind is
/// typed as it is, and every completed text is noted; else nothing follows.
pub proof fn law_messages_are_followed(
    message: MessageModel,
    word: Seq<char>,
    place: int,
    noted: Seq<char>,
)
    ensures
        message.action(false) is Nothing,
        message.kind == Some("word"@) && message.word == Some(word) && 0 <= place < word.len()
            && text::alphanumeric(word[place]) ==> message.action(true)
            == MessageActionModel::Type(word),
        message.kind == Some("final"@) && message.text == Some(noted) ==> message.action(true)
            == MessageActionModel::Note(noted),
        message.kind is None ==> message.action(true) is Nothing,
        message.kind == Some("word"@) && message.word is None ==> message.action(true) is Nothing,
        message.kind != Some("word"@) && message.kind != Some("final"@) ==> message.action(
            true,
        ) is Nothing,
{
    reveal_strlit("word");
    reveal_strlit("final");
    assert("word"@.len() != "final"@.len());
    if 0 <= place < word.len() && text::alphanumeric(word[place]) {
        crate::event_laws::law_dictated_words(word, place, Seq::empty());
    }
}

/// The key of a paste hotkey is the first character after its last plus sign.
pub proof fn law_paste_key(before: Seq<char>, last: Seq<char>)
    requires
        forall|i: int| 0 <= i < last.len() ==> #[trigger] last[i] != '+',
    ensures
        last.len() > 0 ==> clipboard::hotkey_character(before.push('+') + last) == Some(last[0]),
        last.len() > 0 ==> clipboard::hotkey_character(last) == Some(last[0]),
        last.len() == 0 ==> clipboard::hotkey_character(before.push('+') + last) is None,
{
    text_laws::law_split_around_separator(before, '+', last);
    text_laws::law_split_without_separator(last, '+');
    assert((text::split(before, '+') + seq![last]).last() == last);
}

/// Every modifier that a part before the last names is held, in the order of the parts and
/// whatever their number; the last part names none.
pub proof fn law_paste_modifiers(first: Seq<char>, rest: Seq<char>)
    requires
        forall|i: int| 0 <= i < first.len() ==> #[trigger] first[i] != '+',
    ensures
        clipboard::hotkey_modifiers(first).len() == 0,
        clipboard::hotkey_modifiers(first.push('+') + rest) == match clipboard::named_modifier(
            first,
        ) {
            Some(modifier) => seq![modifier] + clipboard::hotkey_modifiers(rest),
            None => clipboard::hotkey_modifiers(rest),
        },
{
    let named = |part: Seq<char>| clipboard::named_modifier(part);
    let parts = text::split(rest, '+');
    text_laws::law_split_around_separator(first, '+', rest);
    text_laws::law_split_without_separator(first, '+');
    text_laws::law_split_parts_lack_separator(rest, '+');
    assert((seq![first] + parts).drop_last() =~= seq![first] + parts.drop_last());
    assert(seq![first].drop_last() =~= Seq::empty());
    reveal(Seq::filter_map);
    assert(Seq::<Seq<char>>::empty().filter_map(named) =~= Seq::empty());
    lemma_filter_map_first(first, parts.drop_last());
}

/// The first part of several.
proof fn lemma_filter_map_first(first: Seq<char>, rest: Seq<Seq<char>>)
    ensures
        (seq![first] + rest).filter_map(|part: Seq<char>| clipboard::named_modifier(part))
            == match clipboard::named_modifier(first) {
            Some(modifier) => seq![modifier] + rest.filter_map(
                |part: Seq<char>| clipboard::named_modifier(part),
            ),
            None => rest.filter_map(|part: Seq<char>| clipboard::named_modifier(part)),
        },
    decreases rest.len(),
{
    let named = |part: Seq<char>| clipboard::named_modifier(part);
    let all = seq![first] + rest;
    reveal(Seq::filter_map);
    if rest.len() == 0 {
        assert(all =~= seq![first]);
        assert(all.drop_last() =~= Seq::empty());
        assert(Seq::<Seq<char>>::empty().filter_map(named) =~= Seq::empty());
        assert(rest.filter_map(named) =~= Seq::empty());
        match clipboard::named_modifier(first) {
            Some(modifier) => {
                assert(all.filter_map(named) =~= seq![modifier] + rest.filter_map(named));
            },
            None => {
                assert(all.filter_map(named) =~= rest.filter_map(named));
            },
        }
    } else {
        let less = rest.drop_last();
        lemma_filter_map_first(first, less);
        assert(all.drop_last() =~= seq![first] + less);
        assert(all.last() == rest.last());
        match clipboard::named_modifier(first) {
            Some(modifier) => {
                assert(all.filter_map(named) =~= seq![modifier] + rest.filter_map(named));
            },
            None => {
                assert(all.filter_map(named) =~= rest.filter_map(named));
            },
        }
    }
}

/// The names of modifiers in a paste hotkey, in any case of ASCII letters.
pub proof fn law_paste_modifier_names(part: Seq<char>)
    requires
        is_ascii_chars(part),
    ensures
        ({
            let low = text::ascii_lowered(part);
            let named = clipboard::named_modifier(part);
            &&& named == Some(Modifier::Ctrl) <==> low == "ctrl"@ || low == "control"@
            &&& named == Some(Modifier::Shift) <==> low == "shift"@
            &&& named == Some(Modifier::Alt) <==> low == "alt"@
            &&& named == Some(Modifier::Super) <==> low == "super"@ || low == "meta"@
        }),
{
    reveal_strlit("ctrl");
    reveal_strlit("control");
    reveal_strlit("shift");
    reveal_strlit("alt");
    reveal_strlit("super");
    reveal_strlit("meta");
    assert("ctrl"@[0] == 'c' && "meta"@[0] == 'm' && "shift"@[1] == 'h' && "super"@[1] == 'u');
    assert("ctrl"@.len() == 4 && "control"@.len() == 7 && "shift"@.len() == 5 && "alt"@.len() == 3);
    assert("super"@.len() == 5 && "meta"@.len() == 4);
}

/// Every word that is collected for a sentence is kept in its order; those that complete none
/// are counted as typed.
pub proof fn law_collected_words(corrector: CorrectorModel, word: Seq<char>)
    ensures
        corrector.with_word(word).words == corrector.words.push(word),
        corrector.completes(word) <==> crate::correction_buffer::ends_sentence(word)
            && corrector.words.len() >= 1,
        corrector.completes(word) ==> corrector.with_word(word).typed == corrector.typed,
        !corrector.completes(word) ==> corrector.with_word(word).typed == corrector.typed + 1,
        corrector.pending_text() == text::sentence(corrector.words),
        corrector.emptied(0).words.len() == 0,
        corrector.emptied(0).typed == 0,
        corrector.emptied(1).typed == 1,
{
}

/// What a text in JSON says is what stands at its keys, and a text that is not JSON says
/// nothing.
pub proof fn law_messages_are_read(source: Seq<char>)
    ensures
        protocol::message_of(source) is Some <==> protocol::is_json(source),
        protocol::is_json(source) ==> {
            let message = protocol::message_of(source)->0;
            &&& message.kind == protocol::json_string(source, "type"@)
            &&& message.word == protocol::json_string(source, "word"@)
            &&& message.text == protocol::json_string(source, "text"@)
        },
{
}

} // verus!
