//! What holds of a session across events.

use crate::buffer_laws;
use crate::correction_buffer::{CorrectionModel, CorrectionProfile};
use crate::dictation::Status;
use crate::gtk_overlay::ResponseModel;
use crate::screen;
use crate::screen::Desk;
use crate::session;
use crate::session::{ActionModel, DrainReason, PhaseModel, SessionModel};
use crate::similarity;
use crate::text;
use crate::virtual_keyboard;
use crate::virtual_keyboard::{EnigoKeyboard, KeyboardKind, UInputKeyboard};
use vstd::prelude::*;

verus! {

/// Words that are typed, each with a space after it.
pub open spec fn typed_words(words: Seq<Seq<char>>) -> Seq<char> {
    if words.len() == 0 {
        Seq::empty()
    } else {
        text::sentence(words).push(' ')
    }
}

/// What an action does to the text before the cursor.
pub open spec fn on_screen(
    keyboard: KeyboardKind,
    shown: Seq<char>,
    action: ActionModel,
) -> Seq<char> {
    match action {
        ActionModel::TypeWord(word) => (shown + keyboard.arriving(word)).push(' '),
        ActionModel::TypeAnyway(word) => (shown + keyboard.arriving(word)).push(' '),
        ActionModel::Retype { backspaces, text } => (screen::taken_back(shown, backspaces)
            + keyboard.arriving(text)).push(' '),
        _ => shown,
    }
}

/// What several actions do to the text before the cursor.
pub open spec fn all_on_screen(
    keyboard: KeyboardKind,
    shown: Seq<char>,
    actions: Seq<ActionModel>,
) -> Seq<char>
    decreases actions.len(),
{
    if actions.len() == 0 {
        shown
    } else {
        on_screen(keyboard, all_on_screen(keyboard, shown, actions.drop_last()), actions.last())
    }
}

/// What an action does to the screen is what the plan of the keyboard does that carries it
/// out.
pub proof fn law_plans_do_what_actions_do(desk: Desk, backspaces: nat, typed: Seq<char>)
    requires
        !desk.shift,
    ensures
        desk.after(virtual_keyboard::word_typed::<UInputKeyboard>(typed)).screen == on_screen(
            KeyboardKind::Kernel,
            desk.screen,
            ActionModel::TypeWord(typed),
        ),
        desk.after(virtual_keyboard::word_typed::<EnigoKeyboard>(typed)).screen == on_screen(
            KeyboardKind::Library,
            desk.screen,
            ActionModel::TypeWord(typed),
        ),
        desk.after(virtual_keyboard::retyped::<UInputKeyboard>(backspaces, typed)).screen
            == on_screen(
            KeyboardKind::Kernel,
            desk.screen,
            ActionModel::Retype { backspaces, text: typed },
        ),
        desk.after(virtual_keyboard::retyped::<EnigoKeyboard>(backspaces, typed)).screen
            == on_screen(
            KeyboardKind::Library,
            desk.screen,
            ActionModel::Retype { backspaces, text: typed },
        ),
{
    let arrived = virtual_keyboard::typable(typed);
    let shorter = screen::taken_back(desk.screen, backspaces);
    screen::law_typed_word_arrives(desk, typed);
    screen::law_retyped_text_replaces(desk, backspaces, typed);
    screen::law_library_types_any_word(desk, typed);
    screen::law_library_retypes_any_text(desk, backspaces, typed);
    assert(desk.screen + arrived + seq![' '] =~= (desk.screen + arrived).push(' '));
    assert(desk.screen + typed + seq![' '] =~= (desk.screen + typed).push(' '));
    assert(shorter + arrived + seq![' '] =~= (shorter + arrived).push(' '));
    assert(shorter + typed + seq![' '] =~= (shorter + typed).push(' '));
}

/// What words leave on the screen when each is typed with a space after it.
pub open spec fn visible(keyboard: KeyboardKind, words: Seq<Seq<char>>) -> Seq<char> {
    keyboard.arriving(typed_words(words))
}

/// Whether the screen shows the words of the paragraph after some other text.
pub open spec fn mirrored(before: Seq<char>, shown: Seq<char>, state: SessionModel) -> bool {
    shown == before + visible(state.keyboard, state.buffer.paragraph)
}

/// Of a text in two parts arrives what arrives of them.
proof fn lemma_arriving_concat(keyboard: KeyboardKind, first: Seq<char>, second: Seq<char>)
    ensures
        keyboard.arriving(first + second) == keyboard.arriving(first) + keyboard.arriving(second),
{
    Seq::filter_distributes_over_add(
        first,
        second,
        |c: char| virtual_keyboard::key_of(c) is Some,
    );
}

/// A space arrives.
proof fn lemma_arriving_space(keyboard: KeyboardKind, typed: Seq<char>)
    ensures
        keyboard.arriving(typed.push(' ')) == keyboard.arriving(typed).push(' '),
{
    typed.lemma_filter_push(' ', |c: char| virtual_keyboard::key_of(c) is Some);
}

/// One word more on the screen.
proof fn lemma_visible_push(keyboard: KeyboardKind, words: Seq<Seq<char>>, word: Seq<char>)
    ensures
        visible(keyboard, words.push(word)) == (visible(keyboard, words) + keyboard.arriving(
            word,
        )).push(' '),
{
    text::lemma_sentence_push(words, word);
    if words.len() == 0 {
        assert(typed_words(words) + word =~= word);
    } else {
        assert(text::sentence(words) + seq![' '] + word =~= typed_words(words) + word);
    }
    lemma_arriving_concat(keyboard, typed_words(words), word);
    lemma_arriving_space(keyboard, typed_words(words) + word);
}

/// Words that are typed in two parts.
proof fn lemma_visible_concat(
    keyboard: KeyboardKind,
    first: Seq<Seq<char>>,
    second: Seq<Seq<char>>,
)
    ensures
        visible(keyboard, first + second) == visible(keyboard, first) + visible(keyboard, second),
    decreases second.len(),
{
    if second.len() == 0 {
        reveal(Seq::filter);
        assert(first + second =~= first);
        assert(visible(keyboard, second) =~= Seq::empty());
        assert(visible(keyboard, first) + visible(keyboard, second) =~= visible(keyboard, first));
    } else {
        let less = second.drop_last();
        let word = keyboard.arriving(second.last());
        lemma_visible_concat(keyboard, first, less);
        assert(first + second =~= (first + less).push(second.last()));
        assert(second =~= less.push(second.last()));
        lemma_visible_push(keyboard, first + less, second.last());
        lemma_visible_push(keyboard, less, second.last());
        assert((visible(keyboard, first) + visible(keyboard, less) + word).push(' ')
            =~= visible(keyboard, first) + (visible(keyboard, less) + word).push(' '));
    }
}

/// A single action.
proof fn lemma_one_on_screen(keyboard: KeyboardKind, shown: Seq<char>, action: ActionModel)
    ensures
        all_on_screen(keyboard, shown, seq![action]) == on_screen(keyboard, shown, action),
{
    reveal_with_fuel(all_on_screen, 2);
    assert(seq![action].drop_last() =~= Seq::empty());
}

/// The screen shows the paragraph after a word was typed, as it did before.
pub proof fn law_typing_mirrors_the_paragraph(
    before: Seq<char>,
    shown: Seq<char>,
    state: SessionModel,
    word: Seq<char>,
    capturing: bool,
    now: nat,
    later: nat,
)
    requires
        !state.preview,
        state.phase == PhaseModel::Idle,
        mirrored(before, shown, state),
    ensures
        ({
            let heard = state.on_word(word, capturing, now);
            let typed = heard.0.on_typed(true, later);
            mirrored(before, all_on_screen(state.keyboard, shown, heard.1), typed.0)
        }),
{
    let heard = state.on_word(word, capturing, now);
    if heard.1.len() > 0 {
        let words = visible(state.keyboard, state.buffer.paragraph);
        let fresh = state.keyboard.arriving(word);
        lemma_one_on_screen(state.keyboard, shown, ActionModel::TypeWord(word));
        lemma_visible_push(state.keyboard, state.buffer.paragraph, word);
        assert((before + words + fresh).push(' ') =~= before + (words + fresh).push(' '));
    }
}

/// The screen shows the paragraph also after words that come late were typed.
pub proof fn law_late_words_mirror_the_paragraph(
    before: Seq<char>,
    shown: Seq<char>,
    state: SessionModel,
    word: Seq<char>,
    capturing: bool,
    now: nat,
)
    requires
        !state.preview,
        state.phase == PhaseModel::Draining(DrainReason::ToggleOff) || state.phase
            == PhaseModel::Draining(DrainReason::Silence),
        mirrored(before, shown, state),
    ensures
        mirrored(
            before,
            all_on_screen(state.keyboard, shown, state.on_word(word, capturing, now).1),
            state.on_word(word, capturing, now).0,
        ),
{
    let heard = state.on_word(word, capturing, now);
    if heard.1.len() > 0 {
        let words = visible(state.keyboard, state.buffer.paragraph);
        let fresh = state.keyboard.arriving(word);
        lemma_one_on_screen(state.keyboard, shown, ActionModel::TypeAnyway(word));
        lemma_visible_push(state.keyboard, state.buffer.paragraph, word);
        assert((before + words + fresh).push(' ') =~= before + (words + fresh).push(' '));
    }
}

/// Whether the paragraph ends with a chunk that was taken from it and the words that came
/// since, which are the chunk of the buffer.
pub open spec fn in_place(buffer: CorrectionModel, words: Seq<Seq<char>>) -> bool {
    &&& words.len() + buffer.chunk.len() <= buffer.paragraph.len()
    &&& buffer.paragraph.skip(buffer.paragraph.len() - buffer.chunk.len() - words.len()) == words
        + buffer.chunk
}

/// What holds of a session: the chunk is the end of the paragraph, and a chunk that is being
/// corrected stands right before it.
pub open spec fn chunks_in_place(state: SessionModel) -> bool {
    &&& buffer_laws::chunk_ends_paragraph(state.buffer)
    &&& !state.buffer.chunks ==> state.buffer.chunk.len() == 0
    &&& match state.phase {
        PhaseModel::TypedChunk { words, paused } => {
            &&& words.len() >= 2
            &&& state.buffer.chunk.len() == 0
            &&& in_place(state.buffer, words)
        },
        PhaseModel::Retyping { words, corrected, paused } => {
            &&& words.len() >= 2
            &&& state.buffer.chunk.len() == 0
            &&& in_place(state.buffer, words)
        },
        PhaseModel::OverlayChunk { words, start, silence } => {
            &&& words.len() >= 2
            &&& state.buffer.chunks
            &&& in_place(state.buffer, words)
        },
        _ => true,
    }
}

/// A chunk that is taken stands at the end of the paragraph.
proof fn lemma_taken_in_place(buffer: CorrectionModel)
    requires
        buffer_laws::chunk_ends_paragraph(buffer),
    ensures
        in_place(buffer.without_chunk(), buffer.chunk),
{
    assert(buffer.chunk + Seq::empty() =~= buffer.chunk);
}

/// A chunk that was taken stays in its place when a word comes.
proof fn lemma_word_keeps_place(
    buffer: CorrectionModel,
    words: Seq<Seq<char>>,
    word: Seq<char>,
)
    requires
        buffer.chunks,
        in_place(buffer, words),
    ensures
        in_place(buffer.with_word(word), words),
{
    let added = buffer.with_word(word);
    let place = buffer.paragraph.len() - buffer.chunk.len() - words.len();
    assert(added.paragraph.skip(place) =~= buffer.paragraph.skip(place).push(word));
    assert(words + added.chunk =~= (words + buffer.chunk).push(word));
}

/// The correction of a chunk in its place leaves the chunk of the buffer at the end of the
/// paragraph.
proof fn lemma_correction_keeps_place(
    buffer: CorrectionModel,
    words: Seq<Seq<char>>,
    corrected: Seq<char>,
)
    requires
        in_place(buffer, words),
    ensures
        buffer_laws::chunk_ends_paragraph(buffer.corrected(words, corrected)),
{
    let place = buffer.paragraph.len() - buffer.chunk.len() - words.len();
    let before = buffer.paragraph.take(place);
    assert(buffer.paragraph =~= before + buffer.paragraph.skip(place));
    assert(buffer.paragraph =~= before + words + buffer.chunk);
    buffer_laws::law_correction_replaces_the_chunk(buffer, before, words, corrected);
}

/// A session starts with its chunks in place, and no event moves them.
pub proof fn law_chunks_stay_in_place(
    state: SessionModel,
    preview: bool,
    profile: CorrectionProfile,
    keyboard: KeyboardKind,
    grace: u64,
    word: Seq<char>,
    reply: Option<Seq<char>>,
    response: ResponseModel,
    flag: bool,
    now: nat,
)
    requires
        chunks_in_place(state),
    ensures
        chunks_in_place(SessionModel::start(preview, profile, keyboard, grace, now)),
        chunks_in_place(state.on_word(word, flag, now).0),
        chunks_in_place(state.on_typed(flag, now).0),
        chunks_in_place(state.on_reply(reply, now).0),
        chunks_in_place(state.on_tick(flag, now).0),
        chunks_in_place(state.on_drained(now).0),
        chunks_in_place(state.on_checkpoint().0),
        chunks_in_place(state.on_toggle_off().0),
        chunks_in_place(state.on_commit().0),
        chunks_in_place(state.on_discard().0),
        chunks_in_place(state.on_respawn().0),
        chunks_in_place(state.on_spawned(flag)),
        chunks_in_place(state.on_response(response).0),
{
    buffer_laws::law_chunk_stays_end_of_paragraph(state.buffer, word);
    lemma_taken_in_place(state.buffer);
    let fresh = SessionModel::start(preview, profile, keyboard, grace, now).buffer;
    assert(fresh.paragraph.skip(0) =~= Seq::empty());
    match state.phase {
        PhaseModel::Typing(typed) => {
            let added = state.buffer.with_word(typed);
            buffer_laws::law_chunk_stays_end_of_paragraph(state.buffer, typed);
            buffer_laws::law_chunk_stays_end_of_paragraph(added, typed);
            lemma_taken_in_place(added);
        },
        PhaseModel::Retyping { words, corrected, paused } => {
            lemma_correction_keeps_place(state.buffer, words, corrected);
        },
        PhaseModel::OverlayChunk { words, start, silence } => {
            lemma_word_keeps_place(state.buffer, words, word);
            if let Some(corrected) = reply {
                let done = state.buffer.corrected(words, corrected);
                lemma_correction_keeps_place(state.buffer, words, corrected);
                buffer_laws::law_chunk_stays_end_of_paragraph(done, word);
            }
        },
        _ => {},
    }
}

/// The correction of a typed chunk by backspacing and retyping puts what arrives of it in the
/// place of the chunk on the screen; what stands before the chunk stays. A chunk that is left
/// as it is stays too.
pub proof fn law_chunk_correction_replaces_the_chunk(
    before: Seq<char>,
    shown: Seq<char>,
    state: SessionModel,
    reply: Option<Seq<char>>,
    now: nat,
    later: nat,
)
    requires
        state.phase is TypedChunk,
        state.phase->TypedChunk_words.len() > 0,
        state.keyboard.arriving(text::sentence(state.phase->TypedChunk_words)).len() < usize::MAX,
        shown == before + visible(state.keyboard, state.phase->TypedChunk_words),
    ensures
        ({
            let words = state.phase->TypedChunk_words;
            let replied = state.on_reply(reply, now);
            let typed = replied.0.on_typed(true, later);
            &&& all_on_screen(state.keyboard, shown, replied.1) == before + if session::replaces(
                text::sentence(words),
                reply,
                state.profile,
            ) {
                state.keyboard.arriving(reply->0).push(' ')
            } else {
                visible(state.keyboard, words)
            }
            &&& typed.0.phase == PhaseModel::Idle
        }),
{
    let keyboard = state.keyboard;
    let words = state.phase->TypedChunk_words;
    let original = text::sentence(words);
    let replied = state.on_reply(reply, now);
    if session::replaces(original, reply, state.profile) {
        let corrected = reply->0;
        let backspaces = state.backspaces(original);
        lemma_arriving_space(keyboard, original);
        assert(backspaces == visible(keyboard, words).len());
        lemma_one_on_screen(keyboard, shown, ActionModel::Retype { backspaces, text: corrected });
        assert(screen::taken_back(shown, backspaces) =~= before);
        assert((before + keyboard.arriving(corrected)).push(' ') =~= before + keyboard.arriving(
            corrected,
        ).push(' '));
    } else if replied.1.len() > 0 {
        lemma_one_on_screen(keyboard, shown, ActionModel::WriteStatus(Status::Listening));
    }
}

/// The screen shows the paragraph also after a chunk at its end was corrected, where the
/// words of the correction arrive with single spaces between them.
pub proof fn law_chunk_correction_mirrors_the_paragraph(
    before: Seq<char>,
    shown: Seq<char>,
    state: SessionModel,
    reply: Option<Seq<char>>,
    now: nat,
    later: nat,
)
    requires
        chunks_in_place(state),
        state.phase is TypedChunk,
        state.keyboard.arriving(text::sentence(state.phase->TypedChunk_words)).len() < usize::MAX,
        reply matches Some(corrected) ==> state.keyboard.arriving(corrected)
            == state.keyboard.arriving(text::sentence(text::words(corrected))),
        mirrored(before, shown, state),
    ensures
        ({
            let replied = state.on_reply(reply, now);
            let typed = replied.0.on_typed(true, later);
            &&& mirrored(before, all_on_screen(state.keyboard, shown, replied.1), typed.0)
            &&& typed.0.phase == PhaseModel::Idle
        }),
{
    let keyboard = state.keyboard;
    let words = state.phase->TypedChunk_words;
    let paragraph = state.buffer.paragraph;
    let kept = paragraph.take(paragraph.len() - words.len());
    let start = before + visible(keyboard, kept);
    assert(words + state.buffer.chunk =~= words);
    assert(paragraph =~= kept + words);
    lemma_visible_concat(keyboard, kept, words);
    assert(shown =~= start + visible(keyboard, words));
    law_chunk_correction_replaces_the_chunk(start, shown, state, reply, now, later);
    if session::replaces(text::sentence(words), reply, state.profile) {
        let corrected = reply->0;
        let fresh = text::words(corrected);
        buffer_laws::law_correction_replaces_the_chunk(state.buffer, kept, words, corrected);
        assert(kept + fresh + state.buffer.chunk =~= kept + fresh);
        lemma_visible_concat(keyboard, kept, fresh);
        if fresh.len() == 0 {
            lemma_no_words_compared(corrected);
        }
        lemma_arriving_space(keyboard, text::sentence(fresh));
        assert(start + visible(keyboard, fresh) =~= before + (visible(keyboard, kept) + visible(
            keyboard,
            fresh,
        )));
    } else {
        assert(start + visible(keyboard, words) =~= shown);
    }
}

/// A text without words has none to compare.
pub proof fn lemma_no_words_compared(source: Seq<char>)
    requires
        text::words(source).len() == 0,
    ensures
        similarity::compared_words(source).len() == 0,
{
    let norm = text::words(source).map_values(|w: Seq<char>| similarity::normalized(w));
    reveal(Seq::filter);
    assert(norm.len() == 0);
}

/// When a typed paragraph is corrected, its correction stands on the screen in its place, and
/// the paragraph begins anew.
pub proof fn law_paragraph_correction_replaces_the_paragraph(
    before: Seq<char>,
    shown: Seq<char>,
    state: SessionModel,
    reply: Option<Seq<char>>,
    now: nat,
    later: nat,
    last: nat,
)
    requires
        !state.preview,
        state.phase == PhaseModel::Draining(DrainReason::ToggleOff) || state.phase
            == PhaseModel::Draining(DrainReason::Silence),
        state.buffer.paragraph.len() >= 2,
        state.keyboard.arriving(text::sentence(state.buffer.paragraph)).len() < usize::MAX,
        mirrored(before, shown, state),
    ensures
        ({
            let original = text::sentence(state.buffer.paragraph);
            let asked = state.on_drained(now);
            let replied = asked.0.on_reply(reply, later);
            let typed = replied.0.on_typed(true, last);
            let kept = if session::replaces(original, reply, state.profile) {
                reply->0
            } else {
                original
            };
            &&& all_on_screen(
                state.keyboard,
                all_on_screen(state.keyboard, shown, asked.1),
                replied.1,
            ) == (before + state.keyboard.arriving(kept)).push(' ')
            &&& typed.0.buffer.paragraph.len() == 0
            &&& typed.0.phase == PhaseModel::Idle
        }),
{
    let keyboard = state.keyboard;
    let original = text::sentence(state.buffer.paragraph);
    let asked = state.on_drained(now);
    let replied = asked.0.on_reply(reply, later);
    assert(all_on_screen(keyboard, shown, asked.1) == shown) by {
        reveal_with_fuel(all_on_screen, 3);
        assert(asked.1.drop_last() =~= seq![ActionModel::WriteStatus(Status::Processing)]);
        assert(asked.1.drop_last().drop_last() =~= Seq::empty());
    }
    lemma_arriving_space(keyboard, original);
    assert(shown =~= (before + keyboard.arriving(original)).push(' '));
    if session::replaces(original, reply, state.profile) {
        let backspaces = state.backspaces(original);
        lemma_one_on_screen(keyboard, shown, ActionModel::Retype { backspaces, text: reply->0 });
        assert(screen::taken_back(shown, backspaces) =~= before);
    } else {
        reveal_with_fuel(all_on_screen, 3);
        if replied.1.len() == 2 {
            assert(replied.1.drop_last() =~= seq![ActionModel::WriteStatus(Status::Listening)]);
            assert(replied.1.drop_last().drop_last() =~= Seq::empty());
        } else {
            assert(replied.1.drop_last() =~= Seq::empty());
        }
    }
}

/// Whether one list of actions ends with another.
pub open spec fn ends_with_actions(actions: Seq<ActionModel>, end: Seq<ActionModel>) -> bool {
    &&& end.len() <= actions.len()
    &&& actions.skip(actions.len() - end.len()) == end
}

/// The correction after silence takes up listening again, whatever comes of the request and
/// of typing: capturing goes on and the status says so.
pub proof fn law_listening_goes_on_after_silence(
    state: SessionModel,
    reply: Option<Seq<char>>,
    success: bool,
    now: nat,
    later: nat,
    last: nat,
)
    requires
        state.phase == PhaseModel::Draining(DrainReason::Silence),
    ensures
        ({
            let asked = state.on_drained(now);
            let replied = asked.0.on_reply(reply, later);
            let typed = replied.0.on_typed(success, last);
            &&& typed.0.phase == PhaseModel::Idle
            &&& ends_with_actions(
                asked.1 + replied.1 + typed.1,
                seq![ActionModel::WriteStatus(Status::Listening), ActionModel::SetCapturing(true)],
            )
        }),
{
    let asked = state.on_drained(now);
    let replied = asked.0.on_reply(reply, later);
    let typed = replied.0.on_typed(success, last);
    let all = asked.1 + replied.1 + typed.1;
    let end = seq![ActionModel::WriteStatus(Status::Listening), ActionModel::SetCapturing(true)];
    assert(all.skip(all.len() - 2) =~= end);
}

/// The correction of a chunk after a pause ends with the status of listening, unless typing
/// fails, and then the client gives up.
pub proof fn law_pause_ends_with_listening(
    state: SessionModel,
    reply: Option<Seq<char>>,
    success: bool,
    now: nat,
    later: nat,
)
    requires
        state.phase is TypedChunk,
        state.phase->TypedChunk_paused,
    ensures
        ({
            let replied = state.on_reply(reply, now);
            let typed = replied.0.on_typed(success, later);
            let retyped = session::replaces(
                text::sentence(state.phase->TypedChunk_words),
                reply,
                state.profile,
            );
            &&& typed.0.phase == PhaseModel::Idle
            &&& (replied.1 + typed.1).last() == if retyped && !success {
                ActionModel::Fail
            } else {
                ActionModel::WriteStatus(Status::Listening)
            }
        }),
{
    let replied = state.on_reply(reply, now);
    let typed = replied.0.on_typed(success, later);
    if typed.1.len() == 0 {
        assert(replied.1 + typed.1 =~= replied.1);
    }
}

/// Nothing happens without capturing: words are ignored and pauses too.
pub proof fn law_idle_without_capturing(state: SessionModel, word: Seq<char>, now: nat)
    requires
        state.phase == PhaseModel::Idle,
    ensures
        state.on_word(word, false, now) == (state, Seq::<ActionModel>::empty()),
        state.on_tick(false, now) == (state, Seq::<ActionModel>::empty()),
{
}

/// Punctuation alone is never typed, shown or remembered.
pub proof fn law_punctuation_is_ignored(
    state: SessionModel,
    word: Seq<char>,
    capturing: bool,
    now: nat,
)
    requires
        !crate::protocol::dictated(word),
    ensures
        state.on_word(word, capturing, now).1 == Seq::<ActionModel>::empty(),
        state.on_word(word, capturing, now).0.buffer == state.buffer,
        state.on_word(word, capturing, now).0.phase == state.phase,
{
}

/// A reply that changes nothing or that differs too much is never typed or shown: it counts
/// as none.
pub proof fn law_unsafe_replies_are_dropped(
    state: SessionModel,
    original: Seq<char>,
    reply: Option<Seq<char>>,
    now: nat,
)
    requires
        !session::replaces(original, reply, state.profile),
        match state.phase {
            PhaseModel::TypedChunk { words, paused } => original == text::sentence(words),
            PhaseModel::OverlayChunk { words, start, silence } => original == text::sentence(
                words,
            ),
            PhaseModel::Paragraph { original: asked, reason } => original == asked,
            _ => false,
        },
    ensures
        state.on_reply(reply, now) == state.on_reply(None, now),
        forall|i: int|
            0 <= i < state.on_reply(reply, now).1.len() ==> !replaces_text(
                #[trigger] state.on_reply(reply, now).1[i],
            ),
{
}

/// Whether an action puts a corrected text in the place of another.
pub open spec fn replaces_text(action: ActionModel) -> bool {
    action is Retype || action is OverlayChunk || action is OverlayCorrection
}

} // verus!
