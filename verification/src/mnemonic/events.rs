//! The touchscreen's actions on the flow, and what the screen must do after
//! each one.

use super::{CommitFeedback, LastWordFlow, MAX_PASSPHRASE_BYTES, byte_len};
use vstd::prelude::*;
use vstd::utf8::encode_utf8;

verus! {

/// A user action on the word-entry, final-word and address screens.
pub enum FlowEvent {
    /// A letter key (0 is `a`).
    LetterKey(i32),
    /// A language button (0 English, 1 Simplified Chinese).
    SelectLanguage(i32),
    /// The backspace key of the word entry.
    Backspace,
    /// `Use word`.
    UseWord,
    /// The reset button.
    Reset,
    /// The passphrase button.
    OpenPassphraseEditor,
    /// A key of the passphrase keyboard.
    PassphraseKey(String),
    /// The backspace key of the passphrase keyboard.
    PassphraseBackspace,
    /// The show/hide button of the passphrase editor.
    TogglePassphraseVisibility,
    /// The cancel button of the passphrase editor.
    CancelPassphrase,
    /// The save button of the passphrase editor.
    SavePassphrase,
    /// A slot of the pinyin picker.
    SelectPinyinCandidate(i32),
    /// A page button of the pinyin picker (negative back, positive forward).
    ChangePinyinPage(i32),
    /// The close button of the pinyin picker.
    DismissPinyinPicker,
    /// The button that opens the final-word picker.
    OpenFinalWordPicker,
    /// A page button of the final-word picker.
    ChangeFinalWordPage(i32),
    /// A slot of the final-word picker.
    SelectFinalWordCandidate(i32),
    /// The close button of the final-word picker.
    DismissFinalWordPicker,
    /// An entropy bit button.
    ToggleEntropyBit(i32),
    /// A face of one of the entropy dice.
    SelectDieFace { die: i32, face: i32 },
    /// The address button of the final-word screen.
    OpenAddresses,
    /// A page button of the address screen, with the index it shows.
    ChangeAddressPage { shown_start: i32, direction: i32 },
    /// The back button of the address screen.
    AddressBack,
}

/// What the screen does after an action.
#[derive(Clone, Copy, Debug, PartialEq, Eq)]
pub struct FlowEffects {
    /// The cached receive addresses no longer belong to the flow.
    pub forget_addresses: bool,
    /// The final-word screen is shown.
    pub show_final_word_screen: bool,
    /// The passphrase keyboard starts over in its first mode, unshifted.
    pub reset_passphrase_keyboard: bool,
    /// The receive addresses from this index are loaded and shown.
    pub load_addresses_from: Option<u32>,
    /// The word-entry screens are redrawn from the flow.
    pub refresh_view: bool,
}

/// The effects of an action that only redraws the flow, forgetting the
/// cached addresses or not.
pub open spec fn redraw(forget_addresses: bool, show_final_word_screen: bool) -> FlowEffects {
    FlowEffects {
        forget_addresses,
        show_final_word_screen,
        reset_passphrase_keyboard: false,
        load_addresses_from: None,
        refresh_view: true,
    }
}

/// The effects of an action on the address screen.
pub open spec fn address_screen(
    show_final_word_screen: bool,
    load_addresses_from: Option<u32>,
) -> FlowEffects {
    FlowEffects {
        forget_addresses: false,
        show_final_word_screen,
        reset_passphrase_keyboard: false,
        load_addresses_from,
        refresh_view: false,
    }
}

/// The first address index of the page a page button leads to: one index
/// back or forward from the one shown (a negative shown index counts as 0),
/// without leaving the `u32` range.
pub open spec fn next_address_start(shown_start: i32, direction: i32) -> u32 {
    let current: int = if shown_start < 0 {
        0
    } else {
        shown_start as int
    };
    if direction < 0 {
        if current > 0 {
            (current - 1) as u32
        } else {
            0
        }
    } else if direction > 0 {
        if current < u32::MAX {
            (current + 1) as u32
        } else {
            u32::MAX
        }
    } else {
        current as u32
    }
}

/// `b` and `effects` are the flow and the screen's work after action
/// `event` on flow `a`.
pub open spec fn handles_event(a: LastWordFlow, event: FlowEvent, b: LastWordFlow, effects: FlowEffects) -> bool {
    match event {
        FlowEvent::LetterKey(key) => a.pushes_letter(key, b) && effects == redraw(
            true,
            false,
        ),
        FlowEvent::SelectLanguage(language) => a.selects_language(language, b) && effects
            == redraw(true, false),
        FlowEvent::Backspace => a.backspaced(b) && effects == redraw(true, false),
        FlowEvent::UseWord => if a.complete() {
            b == a && effects == redraw(true, true)
        } else if a.can_open_picker() {
            &&& b == (LastWordFlow {
                pinyin_candidate_picker_open: true,
                commit_feedback: CommitFeedback::Clear,
                ..a
            })
            &&& effects == redraw(true, false)
        } else {
            a.commits_word(b, effects.show_final_word_screen) && effects == redraw(
                true,
                effects.show_final_word_screen,
            )
        },
        FlowEvent::Reset => b.fresh(a.language, false) && effects == redraw(true, false),
        FlowEvent::OpenPassphraseEditor => {
            &&& b.passphrase_draft@ == a.passphrase@
            &&& b == (LastWordFlow {
                passphrase_draft: b.passphrase_draft,
                passphrase_editor_open: true,
                passphrase_visible: false,
                ..a
            })
            &&& effects == (FlowEffects {
                reset_passphrase_keyboard: true,
                ..redraw(false, false)
            })
        },
        FlowEvent::PassphraseKey(key) => {
            let bytes = encode_utf8(key@);
            let accepted = a.passphrase_editor_open && bytes.len() == 1 && 0x20 <= bytes[0]
                <= 0x7e && byte_len(a.passphrase_draft@) + 1 <= MAX_PASSPHRASE_BYTES;
            &&& (accepted ==> b.passphrase_draft@ == a.passphrase_draft@ + key@ && b
                == (LastWordFlow { passphrase_draft: b.passphrase_draft, ..a }))
            &&& (!accepted ==> b == a)
            &&& effects == redraw(false, false)
        },
        FlowEvent::PassphraseBackspace => {
            &&& b.passphrase_draft@ == if a.passphrase_editor_open
                && a.passphrase_draft@.len() > 0 {
                a.passphrase_draft@.drop_last()
            } else {
                a.passphrase_draft@
            }
            &&& b == (LastWordFlow { passphrase_draft: b.passphrase_draft, ..a })
            &&& effects == redraw(false, false)
        },
        FlowEvent::TogglePassphraseVisibility => {
            &&& b == (LastWordFlow {
                passphrase_visible: a.passphrase_visible != a.passphrase_editor_open,
                ..a
            })
            &&& effects == redraw(false, false)
        },
        FlowEvent::CancelPassphrase => {
            &&& b.passphrase_draft@ == Seq::<char>::empty()
            &&& b == (LastWordFlow {
                passphrase_draft: b.passphrase_draft,
                passphrase_editor_open: false,
                passphrase_visible: false,
                ..a
            })
            &&& effects == redraw(false, false)
        },
        FlowEvent::SavePassphrase => {
            &&& (a.passphrase_editor_open ==> {
                &&& b.passphrase@ == a.passphrase_draft@
                &&& b.passphrase_draft@ == Seq::<char>::empty()
                &&& b == (LastWordFlow {
                    passphrase: b.passphrase,
                    passphrase_draft: b.passphrase_draft,
                    passphrase_editor_open: false,
                    passphrase_visible: false,
                    ..a
                })
                &&& effects == redraw(a.passphrase@ != a.passphrase_draft@, false)
            })
            &&& (!a.passphrase_editor_open ==> b == a && effects == redraw(false, false))
        },
        FlowEvent::SelectPinyinCandidate(offset) => a.selects_pinyin_candidate(
            offset,
            b,
            effects.show_final_word_screen,
        ) && effects == redraw(true, effects.show_final_word_screen),
        FlowEvent::ChangePinyinPage(direction) => a.pages_pinyin_picker(direction, b)
            && effects == redraw(false, false),
        FlowEvent::DismissPinyinPicker => {
            &&& b == (LastWordFlow { pinyin_candidate_picker_open: false, ..a })
            &&& effects == redraw(false, false)
        },
        FlowEvent::OpenFinalWordPicker => {
            &&& (a.complete() ==> b == (LastWordFlow {
                final_word_candidate_page: (a.entropy_bits / 12) as usize,
                final_word_picker_open: true,
                ..a
            }))
            &&& (!a.complete() ==> b == a)
            &&& effects == redraw(false, false)
        },
        FlowEvent::ChangeFinalWordPage(direction) => a.pages_final_word_picker(direction, b)
            && effects == redraw(false, false),
        FlowEvent::SelectFinalWordCandidate(offset) => a.selects_final_word(
            offset,
            b,
            effects.show_final_word_screen,
        ) && effects == redraw(true, effects.show_final_word_screen),
        FlowEvent::DismissFinalWordPicker => {
            &&& b == (LastWordFlow { final_word_picker_open: false, ..a })
            &&& effects == redraw(false, false)
        },
        FlowEvent::ToggleEntropyBit(bit) => a.toggles_bit(bit, b) && effects == redraw(
            true,
            false,
        ),
        FlowEvent::SelectDieFace { die, face } => a.sets_die_face(die, face, b) && effects
            == redraw(true, false),
        FlowEvent::OpenAddresses => b == a && effects == if a.entropy_confirmed {
            address_screen(false, Some(0))
        } else {
            address_screen(false, None)
        },
        FlowEvent::ChangeAddressPage { shown_start, direction } => b == a && effects
            == address_screen(false, Some(next_address_start(shown_start, direction))),
        FlowEvent::AddressBack => b == a && effects == address_screen(true, None),
    }
}

/// Applies one action to the flow and says what the screen must do.
///
/// Every action that can change the words, the entropy or the passphrase
/// drops the cached addresses (saving drops them only when the passphrase
/// changed). `Use word` opens the pinyin picker when Chinese letters match
/// several words; accepting the eleventh word, choosing a final word, or
/// `Use word` on a complete prefix shows the final-word screen. Addresses
/// open only once the entropy is confirmed.
pub fn handle_flow_event(flow: &mut LastWordFlow, event: FlowEvent) -> (effects: FlowEffects)
    requires
        old(flow).wf(),
    ensures
        final(flow).wf(),
        handles_event(*old(flow), event, *final(flow), effects),
{
    let word_screen = FlowEffects {
        forget_addresses: false,
        show_final_word_screen: false,
        reset_passphrase_keyboard: false,
        load_addresses_from: None,
        refresh_view: true,
    };
    let word_change = FlowEffects { forget_addresses: true, ..word_screen };
    match event {
        FlowEvent::LetterKey(key) => {
            flow.push_letter(key);
            word_change
        },
        FlowEvent::SelectLanguage(language) => {
            flow.select_language(language);
            word_change
        },
        FlowEvent::Backspace => {
            flow.backspace();
            word_change
        },
        FlowEvent::UseWord => {
            let complete = if flow.is_complete() {
                true
            } else if flow.open_pinyin_candidate_picker() {
                false
            } else {
                flow.commit_word()
            };
            FlowEffects { show_final_word_screen: complete, ..word_change }
        },
        FlowEvent::Reset => {
            flow.reset();
            word_change
        },
        FlowEvent::OpenPassphraseEditor => {
            flow.open_passphrase_editor();
            FlowEffects { reset_passphrase_keyboard: true, ..word_screen }
        },
        FlowEvent::PassphraseKey(key) => {
            flow.append_passphrase_key(key.as_str());
            word_screen
        },
        FlowEvent::PassphraseBackspace => {
            flow.backspace_passphrase();
            word_screen
        },
        FlowEvent::TogglePassphraseVisibility => {
            flow.toggle_passphrase_visibility();
            word_screen
        },
        FlowEvent::CancelPassphrase => {
            flow.cancel_passphrase_editor();
            word_screen
        },
        FlowEvent::SavePassphrase => {
            let changed = flow.save_passphrase();
            FlowEffects { forget_addresses: changed, ..word_screen }
        },
        FlowEvent::SelectPinyinCandidate(offset) => {
            let complete = flow.select_pinyin_candidate(offset);
            FlowEffects { show_final_word_screen: complete, ..word_change }
        },
        FlowEvent::ChangePinyinPage(direction) => {
            flow.change_pinyin_candidate_page(direction);
            word_screen
        },
        FlowEvent::DismissPinyinPicker => {
            flow.close_pinyin_candidate_picker();
            word_screen
        },
        FlowEvent::OpenFinalWordPicker => {
            flow.open_final_word_picker();
            word_screen
        },
        FlowEvent::ChangeFinalWordPage(direction) => {
            flow.change_final_word_candidate_page(direction);
            word_screen
        },
        FlowEvent::SelectFinalWordCandidate(offset) => {
            let confirmed = flow.select_final_word_candidate(offset);
            FlowEffects { show_final_word_screen: confirmed, ..word_change }
        },
        FlowEvent::DismissFinalWordPicker => {
            flow.close_final_word_picker();
            word_screen
        },
        FlowEvent::ToggleEntropyBit(bit) => {
            flow.toggle_entropy_bit(bit);
            word_change
        },
        FlowEvent::SelectDieFace { die, face } => {
            flow.set_entropy_die_face(die, face);
            word_change
        },
        FlowEvent::OpenAddresses => {
            let load = if flow.is_entropy_confirmed() {
                Some(0)
            } else {
                None
            };
            FlowEffects { load_addresses_from: load, refresh_view: false, ..word_screen }
        },
        FlowEvent::ChangeAddressPage { shown_start, direction } => {
            let current: u32 = if shown_start < 0 {
                0
            } else {
                shown_start as u32
            };
            let next = if direction < 0 {
                current.saturating_sub(1)
            } else if direction > 0 {
                current.saturating_add(1)
            } else {
                current
            };
            FlowEffects { load_addresses_from: Some(next), refresh_view: false, ..word_screen }
        },
        FlowEvent::AddressBack => {
            FlowEffects { show_final_word_screen: true, refresh_view: false, ..word_screen }
        },
    }
}

/// The cached receive addresses always belong to the flow: every action that
/// changes the words, the entropy, the language or the passphrase drops them.
pub proof fn lemma_mnemonic_change_forgets_addresses(
    a: LastWordFlow,
    event: FlowEvent,
    b: LastWordFlow,
    effects: FlowEffects,
)
    requires
        a.wf(),
        handles_event(a, event, b, effects),
        b.word_indices != a.word_indices || b.word_count != a.word_count || b.entropy_bits
            != a.entropy_bits || b.entropy_confirmed != a.entropy_confirmed || b.language
            != a.language || b.passphrase@ != a.passphrase@,
    ensures
        effects.forget_addresses,
{
}

/// A page button of the address screen asks for the neighbouring address
/// index: one back from the index shown (staying at 0), one forward, or the
/// index shown again (a negative shown index counts as 0); the flow is not
/// touched and the word screens are not redrawn.
pub proof fn lemma_address_page_steps(
    a: LastWordFlow,
    shown_start: i32,
    direction: i32,
    b: LastWordFlow,
    effects: FlowEffects,
)
    requires
        a.wf(),
        handles_event(a, FlowEvent::ChangeAddressPage { shown_start, direction }, b, effects),
    ensures
        b == a,
        !effects.forget_addresses && !effects.refresh_view,
        direction < 0 && shown_start > 0 ==> effects.load_addresses_from == Some(
            (shown_start - 1) as u32,
        ),
        direction < 0 && shown_start <= 0 ==> effects.load_addresses_from == Some(0u32),
        direction > 0 && shown_start >= 0 ==> effects.load_addresses_from == Some(
            (shown_start + 1) as u32,
        ),
        direction > 0 && shown_start < 0 ==> effects.load_addresses_from == Some(1u32),
        direction == 0 && shown_start >= 0 ==> effects.load_addresses_from == Some(
            shown_start as u32,
        ),
        direction == 0 && shown_start < 0 ==> effects.load_addresses_from == Some(0u32),
{
}

} // verus!
