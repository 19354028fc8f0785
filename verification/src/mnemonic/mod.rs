//! The touchscreen flow that collects eleven BIP39 words, seven entropy bits
//! and an optional BIP39 passphrase, in English or Simplified Chinese.
//!
//! The completed prefix is kept only as word-list indices; the flow never
//! builds or stores a concatenated mnemonic phrase.

use crate::chinese::{chinese_word_indices, matches_prefix};
use crate::last_word::{
    MnemonicLanguage, PREFIX_WORD_COUNT, english_word_bytes, entropy_bytes, entropy_from_indices,
    index_error, prefix_range_len, prefix_range_start, spec_word, spec_word_index,
};
use crate::text::{
    all_lowercase, lemma_starts_with_push, pop_last_char, push_str, starts_with, utf8_or_empty,
};
use vstd::prelude::*;
use vstd::string::{StringExecFns, StringSliceAdditionalSpecFns};
use vstd::utf8::{decode_utf8, encode_utf8};

mod entropy;
mod entry;
mod events;
mod presentation;

pub use entropy::{
    FINAL_WORD_CANDIDATES_PER_PAGE, lemma_die_face_reads_back, lemma_final_word_page_steps,
    lemma_selected_candidate_is_shown, lemma_toggle_twice_restores_bits,
};
pub use entry::{
    key_letter, lemma_backspace_undoes_letter, lemma_backspace_undoes_word,
    lemma_eleventh_word_shows_zero_entropy_word, lemma_pinyin_page_steps,
};
pub use events::{
    FlowEffects, FlowEvent, address_screen, handle_flow_event, handles_event,
    lemma_address_page_steps, lemma_mnemonic_change_forgets_addresses, next_address_start, redraw,
};
pub use presentation::{
    WORD_LIST_DISPLAY_WIDTH_PX, WORD_LIST_FONT_METRIC_SIZE_PX, WORD_LIST_GLYPH_ADVANCE_SCALE,
    WORD_LIST_MAX_FONT_SIZE_HUNDREDTHS, WORD_LIST_MIN_FONT_SIZE_HUNDREDTHS, confirmed_text,
    font_size_for, glyph_units, text_width, word_or_mark,
};



verus! {

/// Longest English entry: four letters identify every English BIP39 word.
pub const MAX_ENGLISH_PREFIX_LEN: usize = 4;

/// Longest pinyin entry.
pub const MAX_PINYIN_PREFIX_LEN: usize = 6;

/// Capacity of the typed-prefix buffer.
pub const MAX_WORD_PREFIX_LEN: usize = MAX_PINYIN_PREFIX_LEN;

/// Chinese words offered on one page of the pinyin picker.
pub const PINYIN_CANDIDATES_PER_PAGE: usize = 6;

/// Longest accepted BIP39 passphrase, in bytes.
pub const MAX_PASSPHRASE_BYTES: usize = 128;

/// Visible result of an unsuccessful `Use word` action.
#[derive(Clone, Copy, Debug, PartialEq, Eq, Structural)]
pub enum CommitFeedback {
    /// Nothing to report.
    Clear,
    /// `Use word` was tapped before any letter was typed.
    EnterLetters,
    /// The typed letters still match several words.
    MoreMatches { count: usize },
}

impl Default for CommitFeedback {
    fn default() -> (feedback: Self)
        ensures
            feedback == CommitFeedback::Clear,
    {
        CommitFeedback::Clear
    }
}

/// Ephemeral touchscreen state for the BIP39 final-word helper.
pub struct LastWordFlow {
    /// The word list in use.
    pub language: MnemonicLanguage,
    /// Whether the language choice has been made (and its prompt hidden).
    pub language_selected: bool,
    /// The accepted word indices; only the first `word_count` are meaningful.
    pub word_indices: [u16; PREFIX_WORD_COUNT],
    /// How many words have been accepted.
    pub word_count: usize,
    /// The typed letters of the current word; only `prefix_len` are meaningful.
    pub prefix: [u8; MAX_WORD_PREFIX_LEN],
    /// How many letters have been typed.
    pub prefix_len: usize,
    /// Whether the last tapped letter was refused because no word has it.
    pub last_letter_was_rejected: bool,
    /// What the last unsuccessful `Use word` reported.
    pub commit_feedback: CommitFeedback,
    /// The page shown by the pinyin picker.
    pub pinyin_candidate_page: usize,
    /// Whether the pinyin picker is open.
    pub pinyin_candidate_picker_open: bool,
    /// The seven explicit entropy bits of the final word.
    pub entropy_bits: u8,
    /// Whether the entropy bits have been chosen, so the final word is shown.
    pub entropy_confirmed: bool,
    /// The page shown by the final-word picker.
    pub final_word_candidate_page: usize,
    /// Whether the final-word picker is open.
    pub final_word_picker_open: bool,
    /// The saved BIP39 passphrase.
    pub passphrase: String,
    /// The passphrase being edited.
    pub passphrase_draft: String,
    /// Whether the passphrase editor is open.
    pub passphrase_editor_open: bool,
    /// Whether the editor shows the draft instead of a mask.
    pub passphrase_visible: bool,
}

/// How many letters a word entry may hold in a language.
pub open spec fn prefix_limit(language: MnemonicLanguage) -> nat {
    match language {
        MnemonicLanguage::English => 4,
        MnemonicLanguage::SimplifiedChinese => 6,
    }
}

/// How many words of the language a typed prefix matches: English words that
/// start with it, or Chinese words with a pinyin spelling that does.
pub open spec fn match_count(language: MnemonicLanguage, p: Seq<u8>) -> nat {
    match language {
        MnemonicLanguage::English => prefix_range_len(p),
        MnemonicLanguage::SimplifiedChinese => chinese_word_indices(p).len(),
    }
}

/// Whether some word of the language starts with the typed letters: an
/// English word, or a pinyin spelling of a Chinese word.
pub open spec fn some_word_matches(language: MnemonicLanguage, p: Seq<u8>) -> bool {
    match language {
        MnemonicLanguage::English => exists|j: int|
            0 <= j < 2048 && starts_with(#[trigger] english_word_bytes(j), p),
        MnemonicLanguage::SimplifiedChinese => all_lowercase(p) && exists|x: (Seq<u8>, u16)|
            #[trigger] matches_prefix(x, p),
    }
}

/// Letters that start some word still do so without their last letter.
pub proof fn lemma_shorter_prefix_matches(language: MnemonicLanguage, p: Seq<u8>)
    requires
        p.len() > 0,
        some_word_matches(language, p),
    ensures
        some_word_matches(language, p.drop_last()),
{
    let q = p.drop_last();
    assert(p =~= q.push(p.last()));
    assert forall|w: Seq<u8>| #[trigger] starts_with(w, p) implies starts_with(w, q) by {
        lemma_starts_with_push(w, q, p.last());
    }
    match language {
        MnemonicLanguage::English => {
            let j = choose|j: int| 0 <= j < 2048 && starts_with(#[trigger] english_word_bytes(j), p);
            assert(starts_with(english_word_bytes(j), q));
        },
        MnemonicLanguage::SimplifiedChinese => {
            let x = choose|x: (Seq<u8>, u16)| #[trigger] matches_prefix(x, p);
            assert(starts_with(x.0, q));
            assert(matches_prefix(x, q));
            assert forall|i: int| 0 <= i < q.len() implies 97 <= #[trigger] q[i] <= 122 by {
                assert(q[i] == p[i]);
            }
        },
    }
}

/// The English word a typed prefix selects: the word spelled exactly, or
/// else the only word that starts with the prefix.
pub open spec fn english_selected_index(p: Seq<u8>) -> Option<u16> {
    if p.len() == 0 {
        None
    } else if spec_word_index(decode_utf8(p)) is Some {
        spec_word_index(decode_utf8(p))
    } else if prefix_range_len(p) == 1 {
        spec_word_index(spec_word(MnemonicLanguage::English, prefix_range_start(p)))
    } else {
        None
    }
}

/// The word a typed prefix selects without a picker: in English as
/// [`english_selected_index`], in Chinese the only matching word.
pub open spec fn selected_index(language: MnemonicLanguage, p: Seq<u8>) -> Option<u16> {
    match language {
        MnemonicLanguage::English => english_selected_index(p),
        MnemonicLanguage::SimplifiedChinese => if p.len() > 0 && chinese_word_indices(p).len()
            == 1 {
            Some(chinese_word_indices(p)[0])
        } else {
            None
        },
    }
}

/// The number of UTF-8 bytes of a text.
pub open spec fn byte_len(text: Seq<char>) -> nat {
    encode_utf8(text).len()
}

impl LastWordFlow {
    /// The state invariant: counts inside their buffers, typed letters that
    /// are lowercase ASCII and start some word, no letters after the eleventh
    /// word, the pinyin
    /// picker only while a word is entered, pinyin picker pages whose
    /// candidate positions fit in `usize`, seven entropy bits, and a
    /// final-word picker page among its eleven pages.
    pub open spec fn wf(&self) -> bool {
        &&& self.word_count <= PREFIX_WORD_COUNT
        &&& self.prefix_len <= prefix_limit(self.language)
        &&& all_lowercase(self.prefix@.take(self.prefix_len as int))
        &&& self.prefix_len > 0 ==> some_word_matches(
            self.language,
            self.prefix@.take(self.prefix_len as int),
        )
        &&& self.word_count == PREFIX_WORD_COUNT ==> self.prefix_len == 0
        &&& self.pinyin_candidate_picker_open ==> self.word_count < PREFIX_WORD_COUNT
        &&& self.pinyin_candidate_page * 6 + 6 <= usize::MAX
        &&& self.entropy_bits <= 127
        &&& self.final_word_candidate_page <= 10
    }

    /// Whether all eleven words have been accepted.
    pub open spec fn complete(&self) -> bool {
        self.word_count == PREFIX_WORD_COUNT
    }

    /// The bytes of the typed letters, as `prefix_text` reads them (none
    /// when they are not valid UTF-8).
    pub open spec fn typed(&self) -> Seq<u8> {
        utf8_or_empty(self.prefix@.take(self.prefix_len as int))
    }

    /// Whether the flow is in its initial state for `language`.
    pub open spec fn fresh(&self, language: MnemonicLanguage, language_selected: bool) -> bool {
        &&& self.language == language
        &&& self.language_selected == language_selected
        &&& self.word_indices@ == Seq::new(11, |i: int| 0u16)
        &&& self.word_count == 0
        &&& self.prefix@ == Seq::new(6, |i: int| 0u8)
        &&& self.prefix_len == 0
        &&& !self.last_letter_was_rejected
        &&& self.commit_feedback == CommitFeedback::Clear
        &&& self.pinyin_candidate_page == 0
        &&& !self.pinyin_candidate_picker_open
        &&& self.entropy_bits == 0
        &&& !self.entropy_confirmed
        &&& self.final_word_candidate_page == 0
        &&& !self.final_word_picker_open
        &&& self.passphrase@ == Seq::<char>::empty()
        &&& self.passphrase_draft@ == Seq::<char>::empty()
        &&& !self.passphrase_editor_open
        &&& !self.passphrase_visible
    }

    /// A flow in its initial state for `language`.
    fn fresh_for(language: MnemonicLanguage) -> (flow: Self)
        ensures
            flow.fresh(language, false),
            flow.wf(),
    {
        let flow = LastWordFlow {
            language,
            language_selected: false,
            word_indices: [0u16; PREFIX_WORD_COUNT],
            word_count: 0,
            prefix: [0u8; MAX_WORD_PREFIX_LEN],
            prefix_len: 0,
            last_letter_was_rejected: false,
            commit_feedback: CommitFeedback::Clear,
            pinyin_candidate_page: 0,
            pinyin_candidate_picker_open: false,
            entropy_bits: 0,
            entropy_confirmed: false,
            final_word_candidate_page: 0,
            final_word_picker_open: false,
            passphrase: String::new(),
            passphrase_draft: String::new(),
            passphrase_editor_open: false,
            passphrase_visible: false,
        };
        proof {
            assert(flow.word_indices@ =~= Seq::new(11, |i: int| 0u16));
            assert(flow.prefix@ =~= Seq::new(6, |i: int| 0u8));
        }
        flow
    }

    /// Resets the entropy choice after the word prefix changed: zero is a
    /// valid choice, so a complete prefix shows its final word at once.
    fn clear_entropy(&mut self)
        ensures
            *final(self) == (LastWordFlow {
                entropy_bits: 0,
                entropy_confirmed: old(self).complete(),
                final_word_candidate_page: 0,
                final_word_picker_open: false,
                ..*old(self)
            }),
    {
        self.entropy_bits = 0;
        self.entropy_confirmed = self.word_count == PREFIX_WORD_COUNT;
        self.final_word_candidate_page = 0;
        self.final_word_picker_open = false;
    }

    /// The sixteen entropy bytes of the chosen mnemonic, once all eleven
    /// words are present and the entropy bits are confirmed.
    pub fn finalized_entropy(&self) -> (entropy: Option<[u8; 16]>)
        ensures
            entropy is Some <==> (self.complete() && self.entropy_confirmed && index_error(
                self.word_indices@,
            ) is None && self.entropy_bits <= 127),
            entropy matches Some(bytes) ==> bytes@ == entropy_bytes(
                self.word_indices@,
                self.entropy_bits as nat,
            ),
    {
        if self.word_count != PREFIX_WORD_COUNT || !self.entropy_confirmed {
            return None;
        }
        match entropy_from_indices(&self.word_indices, self.entropy_bits) {
            Ok(bytes) => Some(bytes),
            Err(_) => None,
        }
    }

    /// The word list in use.
    pub fn mnemonic_language(&self) -> (language: MnemonicLanguage)
        ensures
            language == self.language,
    {
        self.language
    }

    /// Opens the passphrase editor on a copy of the saved passphrase, masked.
    pub fn open_passphrase_editor(&mut self)
        ensures
            final(self).passphrase_draft@ == old(self).passphrase@,
            *final(self) == (LastWordFlow {
                passphrase_draft: final(self).passphrase_draft,
                passphrase_editor_open: true,
                passphrase_visible: false,
                ..*old(self)
            }),
    {
        self.passphrase_draft = self.passphrase.clone();
        self.passphrase_editor_open = true;
        self.passphrase_visible = false;
    }

    /// Appends one key to the draft: a single printable ASCII character
    /// (space included), while the editor is open and the draft has room.
    pub fn append_passphrase_key(&mut self, key: &str)
        ensures
            ({
                let accepted = old(self).passphrase_editor_open && key.spec_bytes().len() == 1
                    && 0x20 <= key.spec_bytes()[0] <= 0x7e && byte_len(
                    old(self).passphrase_draft@,
                ) + 1 <= MAX_PASSPHRASE_BYTES;
                if accepted {
                    &&& final(self).passphrase_draft@ == old(self).passphrase_draft@ + key@
                    &&& *final(self) == (LastWordFlow {
                        passphrase_draft: final(self).passphrase_draft,
                        ..*old(self)
                    })
                } else {
                    *final(self) == *old(self)
                }
            }),
    {
        if !self.passphrase_editor_open || key.as_bytes().len() != 1 {
            return;
        }
        let first = key.as_bytes()[0];
        if first < 0x20 || first > 0x7e {
            return;
        }
        let draft_len = self.passphrase_draft.as_str().as_bytes().len();
        if draft_len >= MAX_PASSPHRASE_BYTES {
            return;
        }
        push_str(&mut self.passphrase_draft, key);
    }

    /// Removes the last character of the draft while the editor is open.
    pub fn backspace_passphrase(&mut self)
        ensures
            final(self).passphrase_draft@ == if old(self).passphrase_editor_open && old(
                self,
            ).passphrase_draft@.len() > 0 {
                old(self).passphrase_draft@.drop_last()
            } else {
                old(self).passphrase_draft@
            },
            *final(self) == (LastWordFlow {
                passphrase_draft: final(self).passphrase_draft,
                ..*old(self)
            }),
    {
        if self.passphrase_editor_open {
            pop_last_char(&mut self.passphrase_draft);
        }
    }

    /// Shows or masks the draft while the editor is open.
    pub fn toggle_passphrase_visibility(&mut self)
        ensures
            *final(self) == (LastWordFlow {
                passphrase_visible: if old(self).passphrase_editor_open {
                    !old(self).passphrase_visible
                } else {
                    old(self).passphrase_visible
                },
                ..*old(self)
            }),
    {
        if self.passphrase_editor_open {
            self.passphrase_visible = !self.passphrase_visible;
        }
    }

    /// Saves the draft as the passphrase and closes the editor; returns
    /// whether the passphrase changed. Does nothing when the editor is closed.
    pub fn save_passphrase(&mut self) -> (changed: bool)
        ensures
            old(self).passphrase_editor_open ==> {
                &&& changed == (old(self).passphrase@ != old(self).passphrase_draft@)
                &&& final(self).passphrase@ == old(self).passphrase_draft@
                &&& final(self).passphrase_draft@ == Seq::<char>::empty()
                &&& *final(self) == (LastWordFlow {
                    passphrase: final(self).passphrase,
                    passphrase_draft: final(self).passphrase_draft,
                    passphrase_editor_open: false,
                    passphrase_visible: false,
                    ..*old(self)
                })
            },
            !old(self).passphrase_editor_open ==> !changed && *final(self) == *old(self),
    {
        if !self.passphrase_editor_open {
            return false;
        }
        let changed = !(self.passphrase == self.passphrase_draft);
        let mut taken = String::new();
        core::mem::swap(&mut taken, &mut self.passphrase_draft);
        self.passphrase = taken;
        self.passphrase_editor_open = false;
        self.passphrase_visible = false;
        changed
    }

    /// Discards the draft and closes the editor; the saved passphrase stays.
    pub fn cancel_passphrase_editor(&mut self)
        ensures
            final(self).passphrase_draft@ == Seq::<char>::empty(),
            *final(self) == (LastWordFlow {
                passphrase_draft: final(self).passphrase_draft,
                passphrase_editor_open: false,
                passphrase_visible: false,
                ..*old(self)
            }),
    {
        self.passphrase_draft = String::new();
        self.passphrase_editor_open = false;
        self.passphrase_visible = false;
    }

    /// Whether the passphrase editor is open.
    pub fn is_passphrase_editor_open(&self) -> (open: bool)
        ensures
            open == self.passphrase_editor_open,
    {
        self.passphrase_editor_open
    }

    /// Whether the editor shows the draft unmasked.
    pub fn is_passphrase_visible(&self) -> (visible: bool)
        ensures
            visible == self.passphrase_visible,
    {
        self.passphrase_visible
    }

    /// The draft as the editor shows it: the text itself when visible, and
    /// otherwise one `*` per byte.
    pub fn passphrase_display(&self) -> (shown: String)
        ensures
            shown@ == if self.passphrase_visible {
                self.passphrase_draft@
            } else {
                Seq::new(byte_len(self.passphrase_draft@), |i: int| '*')
            },
    {
        if self.passphrase_visible {
            return self.passphrase_draft.clone();
        }
        let count = self.passphrase_draft.as_str().as_bytes().len();
        let mut mask = String::new();
        let mut i: usize = 0;
        while i < count
            invariant
                i <= count,
                count == byte_len(self.passphrase_draft@),
                mask@ == Seq::new(i as nat, |k: int| '*'),
            decreases count - i,
        {
            let star = "*";
            proof {
                reveal_strlit("*");
            }
            mask.append(star);
            proof {
                assert(mask@ =~= Seq::new((i + 1) as nat, |k: int| '*'));
            }
            i = i + 1;
        }
        mask
    }

    /// Whether a non-empty passphrase is saved.
    pub fn has_passphrase(&self) -> (saved: bool)
        ensures
            saved == (self.passphrase@.len() > 0),
    {
        !self.passphrase.as_str().is_empty()
    }

    /// The saved passphrase.
    pub fn bip39_passphrase(&self) -> (passphrase: &str)
        ensures
            passphrase@ == self.passphrase@,
    {
        self.passphrase.as_str()
    }

    /// Forgets the passphrase and the draft and closes the editor.
    pub fn clear_passphrase(&mut self)
        ensures
            final(self).passphrase@ == Seq::<char>::empty(),
            final(self).passphrase_draft@ == Seq::<char>::empty(),
            *final(self) == (LastWordFlow {
                passphrase: final(self).passphrase,
                passphrase_draft: final(self).passphrase_draft,
                passphrase_editor_open: false,
                passphrase_visible: false,
                ..*old(self)
            }),
    {
        self.passphrase = String::new();
        self.passphrase_draft = String::new();
        self.passphrase_editor_open = false;
        self.passphrase_visible = false;
    }
}

impl Default for LastWordFlow {
    fn default() -> (flow: Self)
        ensures
            flow.fresh(MnemonicLanguage::English, false),
            flow.wf(),
    {
        Self::fresh_for(MnemonicLanguage::English)
    }
}

} // verus!
