//! The English-only word-entry flow: eleven words typed letter by letter,
//! seven entropy bits chosen and then explicitly confirmed.
//!
//! The completed prefix is kept only as word-list indices; the flow never
//! builds or stores a concatenated mnemonic phrase.

use crate::last_word::{
    Error, MnemonicLanguage, PREFIX_WORD_COUNT, english_word_bytes, final_index, index_error,
    lemma_english_continuation, lemma_index_error_at, lemma_index_error_none_valid,
    lemma_prefix_range, prefix_range_end,
    prefix_range_len, prefix_range_start, spec_word, spec_word_index, word_for_entropy_bits,
    word_for_index, word_index, words_by_prefix,
};
use crate::mnemonic::{
    CommitFeedback, english_selected_index, lemma_shorter_prefix_matches, some_word_matches,
};
use crate::mnemonic::key_letter;
use crate::text::{
    all_lowercase, binary, decimal, lemma_lowercase_is_utf8, lemma_utf8_len_bound,
    lemma_valid_utf8_push_ascii, push_binary, push_decimal, push_str, starts_with, str_from_utf8,
    string_from, text_or_empty, utf8_or_empty,
};
use vstd::prelude::*;
use vstd::slice::slice_subrange;
use vstd::string::StringSliceAdditionalSpecFns;
use vstd::utf8::{decode_utf8, encode_utf8_decode_utf8, valid_utf8};

verus! {

/// Longest entry: four letters identify every English BIP39 word.
pub const MAX_WORD_PREFIX_LEN: usize = 4;

/// Horizontal margin on each side of the confirmed-words row, in pixels.
pub const WORD_LIST_HORIZONTAL_MARGIN_PX: usize = 1;

/// Width of the confirmed-words row, in pixels.
pub const WORD_LIST_DISPLAY_WIDTH_PX: usize = 480 - WORD_LIST_HORIZONTAL_MARGIN_PX * 2;

/// Font size at which the glyph advances below are measured, in pixels.
pub const WORD_LIST_FONT_METRIC_SIZE_PX: usize = 9;

/// Scale of the glyph advances below (units per pixel).
pub const WORD_LIST_GLYPH_ADVANCE_SCALE: usize = 64;

/// Smallest font size of the confirmed-words row, in hundredths of a pixel.
pub const WORD_LIST_MIN_FONT_SIZE_HUNDREDTHS: i32 = 600;

/// Largest font size of the confirmed-words row, in hundredths of a pixel.
pub const WORD_LIST_MAX_FONT_SIZE_HUNDREDTHS: i32 = 2_000;

/// Ephemeral touchscreen state of the English final-word helper.
pub struct LastWordFlow {
    /// The accepted word indices; only the first `word_count` are meaningful.
    pub word_indices: [u16; PREFIX_WORD_COUNT],
    /// How many words have been accepted.
    pub word_count: usize,
    /// The typed letters of the current word; only `prefix_len` are meaningful.
    pub prefix: [u8; MAX_WORD_PREFIX_LEN],
    /// How many letters have been typed.
    pub prefix_len: usize,
    /// Whether the last tapped letter was refused because no word has it.
    pub last_letter_was_rejected: bool,
    /// What the last unsuccessful `Use word` reported.
    pub commit_feedback: CommitFeedback,
    /// The seven explicit entropy bits of the final word.
    pub entropy_bits: u8,
    /// Whether the entropy bits were confirmed, so the final word is shown.
    pub entropy_confirmed: bool,
}

/// The glyph advance of a byte at the metric font size, in units.
pub open spec fn byte_glyph_units(byte: u8) -> nat {
    if byte == 32 || byte == 102 || byte == 116 {
        160
    } else if byte == 105 || byte == 106 || byte == 108 {
        127
    } else if byte == 109 {
        479
    } else if byte == 119 {
        415
    } else if byte == 107 || byte == 115 || byte == 118 || byte == 120 || byte == 121 || byte
        == 122 {
        288
    } else if byte == 114 {
        191
    } else {
        320
    }
}

/// The advance of a text measured byte by byte.
pub open spec fn bytes_width(bytes: Seq<u8>) -> nat
    decreases bytes.len(),
{
    if bytes.len() == 0 {
        0
    } else {
        bytes_width(bytes.drop_last()) + byte_glyph_units(bytes.last())
    }
}

/// The English word at `index`, or `?` for an index outside the list.
pub open spec fn english_word_or_mark(index: u16) -> Seq<char> {
    if index < 2048 {
        spec_word(MnemonicLanguage::English, index as int)
    } else {
        "?"@
    }
}

/// The first `n` confirmed English words separated by single spaces.
pub open spec fn english_confirmed_text(indices: Seq<u16>, n: nat) -> Seq<char>
    decreases n,
{
    if n == 0 {
        Seq::empty()
    } else {
        let before = english_confirmed_text(indices, (n - 1) as nat);
        let word = english_word_or_mark(indices[n - 1]);
        if before.len() == 0 {
            word
        } else {
            before + " "@ + word
        }
    }
}

/// The font size, in hundredths of a pixel, at which text `width` units
/// wide fills `budget`, kept between the smallest and the largest size; an
/// empty row gets the largest.
pub open spec fn row_font_size(budget: nat, width: nat) -> i32 {
    if width == 0 {
        2000
    } else if budget / width < 600 {
        600
    } else if budget / width > 2000 {
        2000
    } else {
        (budget / width) as i32
    }
}

impl LastWordFlow {
    /// The state invariant: the counts stay inside their buffers, the typed
    /// letters are lowercase ASCII and start some word, a complete flow has
    /// no letters typed, and the entropy choice has seven bits.
    pub open spec fn wf(&self) -> bool {
        &&& self.word_count <= PREFIX_WORD_COUNT
        &&& self.prefix_len <= MAX_WORD_PREFIX_LEN
        &&& all_lowercase(self.prefix@.take(self.prefix_len as int))
        &&& self.prefix_len > 0 ==> some_word_matches(
            MnemonicLanguage::English,
            self.prefix@.take(self.prefix_len as int),
        )
        &&& self.word_count == PREFIX_WORD_COUNT ==> self.prefix_len == 0
        &&& self.entropy_bits <= 127
    }

    /// Whether all eleven words have been accepted.
    pub open spec fn complete(&self) -> bool {
        self.word_count == PREFIX_WORD_COUNT
    }

    /// The bytes of the typed letters, as `prefix_text` reads them.
    pub open spec fn typed(&self) -> Seq<u8> {
        utf8_or_empty(self.prefix@.take(self.prefix_len as int))
    }

    /// The typed bytes after the letter of `key` is appended.
    pub open spec fn typed_with(&self, key: i32) -> Seq<u8> {
        self.prefix@.update(self.prefix_len as int, key_letter(key)).take(self.prefix_len + 1)
    }

    /// Whether the flow is in its initial state.
    pub open spec fn fresh(&self) -> bool {
        &&& self.word_indices@ == Seq::new(11, |i: int| 0u16)
        &&& self.word_count == 0
        &&& self.prefix@ == Seq::new(4, |i: int| 0u8)
        &&& self.prefix_len == 0
        &&& !self.last_letter_was_rejected
        &&& self.commit_feedback == CommitFeedback::Clear
        &&& self.entropy_bits == 0
        &&& !self.entropy_confirmed
    }

    /// The final word shown: the word for the confirmed entropy bits.
    pub open spec fn shown_word(&self) -> Option<Seq<char>> {
        if self.entropy_confirmed && index_error(self.word_indices@) is None && self.entropy_bits
            <= 127 {
            Some(
                spec_word(
                    MnemonicLanguage::English,
                    final_index(self.word_indices@, self.entropy_bits as nat) as int,
                ),
            )
        } else {
            None
        }
    }

    /// Whether letter `c` (0 is `a`) can continue the entry: some word that
    /// starts with the typed letters has it next.
    pub open spec fn next_letter(&self, c: int) -> bool {
        let p = self.typed();
        &&& !self.complete()
        &&& self.prefix_len != MAX_WORD_PREFIX_LEN
        &&& exists|j: int|
            0 <= j < 2048 && starts_with(english_word_bytes(j), p) && english_word_bytes(j).len()
                > self.prefix_len && #[trigger] english_word_bytes(j)[self.prefix_len as int] == 97
                + c
    }

    /// The hint under the entry.
    pub open spec fn entry_hint(&self) -> Seq<char> {
        let p = self.typed();
        if p.len() == 0 {
            "Tap letters to filter the English word list."@
        } else {
            match spec_word_index(decode_utf8(p)) {
                Some(i) => "Use exact: "@ + spec_word(MnemonicLanguage::English, i as int),
                None => if prefix_range_len(p) == 1 {
                    "Only match: "@ + spec_word(MnemonicLanguage::English, prefix_range_start(p))
                } else {
                    decimal(prefix_range_len(p)) + " matches — add a letter."@
                },
            }
        }
    }

    /// The status message.
    pub open spec fn status_message(&self) -> Seq<char> {
        if self.last_letter_was_rejected {
            "No BIP39 word can continue with that letter. Try another letter."@
        } else {
            match self.commit_feedback {
                CommitFeedback::EnterLetters => "Enter a BIP39 word before tapping Use word."@,
                CommitFeedback::MoreMatches { count } => "Use word needs one BIP39 word — "@
                    + decimal(count as nat) + " matching words remain."@,
                CommitFeedback::Clear => if self.complete() {
                    "All 11 words captured. Select the seven entropy bits."@
                } else {
                    Seq::empty()
                },
            }
        }
    }

    /// A flow in its initial state.
    fn initial() -> (flow: Self)
        ensures
            flow.fresh(),
            flow.wf(),
    {
        let flow = LastWordFlow {
            word_indices: [0u16; PREFIX_WORD_COUNT],
            word_count: 0,
            prefix: [0u8; MAX_WORD_PREFIX_LEN],
            prefix_len: 0,
            last_letter_was_rejected: false,
            commit_feedback: CommitFeedback::Clear,
            entropy_bits: 0,
            entropy_confirmed: false,
        };
        proof {
            assert(flow.word_indices@ =~= Seq::new(11, |i: int| 0u16));
            assert(flow.prefix@ =~= Seq::new(4, |i: int| 0u8));
        }
        flow
    }

    /// Handles a tap on letter key `key` (0 is `a`): a letter that some word
    /// continues with is appended; another letter is refused, and the refusal
    /// is shown so it is not taken for a missed tap.
    pub fn push_letter(&mut self, key: i32)
        requires
            old(self).wf(),
        ensures
            final(self).wf(),
            ({
                let a = *old(self);
                if a.complete() || a.prefix_len == MAX_WORD_PREFIX_LEN || key < 0 || key >= 26
                    || !valid_utf8(a.typed_with(key)) {
                    *final(self) == a
                } else if prefix_range_len(a.typed_with(key)) == 0 {
                    *final(self) == (LastWordFlow { last_letter_was_rejected: true, ..a })
                } else {
                    &&& final(self).prefix@ == a.prefix@.update(
                        a.prefix_len as int,
                        key_letter(key),
                    )
                    &&& *final(self) == (LastWordFlow {
                        prefix: final(self).prefix,
                        prefix_len: (a.prefix_len + 1) as usize,
                        last_letter_was_rejected: false,
                        commit_feedback: CommitFeedback::Clear,
                        ..a
                    })
                }
            }),
            0 <= key < 26 && !old(self).complete() && old(self).prefix_len != MAX_WORD_PREFIX_LEN
                ==> (final(self).prefix_len == old(self).prefix_len + 1
                <==> old(self).next_letter(key as int)),
    {
        if self.word_count == PREFIX_WORD_COUNT || self.prefix_len == MAX_WORD_PREFIX_LEN {
            return ;
        }
        if key < 0 || key >= 26 {
            return ;
        }
        let letter: u8 = 97 + key as u8;
        let mut candidate_prefix = self.prefix;
        candidate_prefix[self.prefix_len] = letter;
        let candidate_len = self.prefix_len + 1;
        let candidate_bytes = slice_subrange(candidate_prefix.as_slice(), 0, candidate_len);
        proof {
            assert(candidate_bytes@ =~= self.typed_with(key));
            let taken = self.prefix@.take(self.prefix_len as int);
            lemma_lowercase_is_utf8(taken);
            if valid_utf8(taken) {
                lemma_valid_utf8_push_ascii(taken, letter);
                assert(self.typed_with(key) =~= taken.push(letter));
            }
        }
        let candidate = match str_from_utf8(candidate_bytes) {
            Some(text) => text,
            None => return ,
        };
        let count = words_by_prefix(candidate).len();
        proof {
            if valid_utf8(self.prefix@.take(self.prefix_len as int)) {
                let p = self.typed();
                assert(p =~= self.prefix@.take(self.prefix_len as int));
                assert(self.typed_with(key) =~= p.push(letter));
                lemma_english_continuation(p, letter);
            }
        }
        if count == 0 {
            self.last_letter_was_rejected = true;
            return ;
        }
        proof {
            let before = self.prefix@.take(self.prefix_len as int);
            let now = candidate_prefix@.take(candidate_len as int);
            lemma_prefix_range(now);
            assert(starts_with(english_word_bytes(prefix_range_start(now)), now));
            assert forall|i: int| 0 <= i < now.len() implies 97 <= #[trigger] now[i] <= 122 by {
                if i < self.prefix_len {
                    assert(now[i] == before[i]);
                }
            }
        }
        self.prefix = candidate_prefix;
        self.prefix_len = candidate_len;
        self.last_letter_was_rejected = false;
        self.commit_feedback = CommitFeedback::Clear;
    }

    /// Removes the last typed letter, or with no letter typed the last
    /// accepted word (which also resets the entropy choice).
    pub fn backspace(&mut self)
        requires
            old(self).wf(),
        ensures
            final(self).wf(),
            ({
                let a = *old(self);
                let cleared = LastWordFlow {
                    last_letter_was_rejected: false,
                    commit_feedback: CommitFeedback::Clear,
                    ..a
                };
                if a.prefix_len > 0 {
                    &&& final(self).prefix@ == a.prefix@.update(a.prefix_len - 1, 0u8)
                    &&& *final(self) == (LastWordFlow {
                        prefix: final(self).prefix,
                        prefix_len: (a.prefix_len - 1) as usize,
                        ..cleared
                    })
                } else if a.word_count > 0 {
                    &&& final(self).word_indices@ == a.word_indices@.update(a.word_count - 1, 0u16)
                    &&& *final(self) == (LastWordFlow {
                        word_indices: final(self).word_indices,
                        word_count: (a.word_count - 1) as usize,
                        entropy_bits: 0,
                        entropy_confirmed: false,
                        ..cleared
                    })
                } else {
                    *final(self) == cleared
                }
            }),
    {
        self.last_letter_was_rejected = false;
        self.commit_feedback = CommitFeedback::Clear;
        if self.prefix_len > 0 {
            let ghost before = self.prefix@.take(self.prefix_len as int);
            self.prefix_len = self.prefix_len - 1;
            self.prefix[self.prefix_len] = 0;
            proof {
                let now = self.prefix@.take(self.prefix_len as int);
                assert forall|i: int| 0 <= i < now.len() implies 97 <= #[trigger] now[i] <= 122 by {
                    assert(now[i] == before[i]);
                }
                assert(now =~= before.drop_last());
                lemma_shorter_prefix_matches(MnemonicLanguage::English, before);
            }
            return ;
        }
        if self.word_count > 0 {
            self.word_count = self.word_count - 1;
            self.word_indices[self.word_count] = 0;
            self.clear_entropy();
        }
    }

    /// Handles `Use word`: accepts the selected word and returns whether all
    /// eleven words are now present. Without letters, or with letters that
    /// still match several words, it records why and returns `false`.
    pub fn commit_word(&mut self) -> (completed: bool)
        requires
            old(self).wf(),
        ensures
            final(self).wf(),
            ({
                let a = *old(self);
                let p = a.typed();
                if a.complete() {
                    completed && *final(self) == a
                } else if p.len() == 0 {
                    !completed && *final(self) == (LastWordFlow {
                        commit_feedback: CommitFeedback::EnterLetters,
                        ..a
                    })
                } else if english_selected_index(p) is None {
                    !completed && *final(self) == (LastWordFlow {
                        commit_feedback: CommitFeedback::MoreMatches {
                            count: prefix_range_len(p) as usize,
                        },
                        ..a
                    })
                } else {
                    &&& final(self).word_indices@ == a.word_indices@.update(
                        a.word_count as int,
                        english_selected_index(p)->0,
                    )
                    &&& final(self).prefix@ == Seq::new(4, |i: int| 0u8)
                    &&& *final(self) == (LastWordFlow {
                        word_indices: final(self).word_indices,
                        prefix: final(self).prefix,
                        word_count: (a.word_count + 1) as usize,
                        prefix_len: 0,
                        last_letter_was_rejected: false,
                        commit_feedback: CommitFeedback::Clear,
                        entropy_bits: 0,
                        entropy_confirmed: false,
                        ..a
                    })
                    &&& completed == (a.word_count + 1 == PREFIX_WORD_COUNT)
                }
            }),
    {
        if self.word_count == PREFIX_WORD_COUNT {
            return true;
        }
        let typed_len = self.prefix_text().len();
        if typed_len == 0 {
            self.commit_feedback = CommitFeedback::EnterLetters;
            return false;
        }
        let count = {
            let matches = words_by_prefix(self.prefix_text());
            proof {
                lemma_prefix_range(self.typed());
            }
            matches.len()
        };
        let index = match self.selected_word_index() {
            Some(index) => index,
            None => {
                self.commit_feedback = CommitFeedback::MoreMatches { count };
                return false;
            },
        };
        self.word_indices[self.word_count] = index;
        self.word_count = self.word_count + 1;
        self.prefix = [0u8; MAX_WORD_PREFIX_LEN];
        self.prefix_len = 0;
        self.last_letter_was_rejected = false;
        self.commit_feedback = CommitFeedback::Clear;
        self.clear_entropy();
        proof {
            assert(self.prefix@ =~= Seq::new(4, |i: int| 0u8));
        }
        self.word_count == PREFIX_WORD_COUNT
    }

    /// Starts the flow over.
    pub fn reset(&mut self)
        ensures
            final(self).wf(),
            final(self).fresh(),
    {
        *self = Self::initial();
    }

    /// Replaces the complete eleven-word prefix only after every index has
    /// been checked, so an invalid input cannot partially change it.
    pub fn load_word_indices(&mut self, word_indices: [u16; PREFIX_WORD_COUNT]) -> (result: Result<
        (),
        Error,
    >)
        requires
            old(self).wf(),
        ensures
            final(self).wf(),
            match index_error(word_indices@) {
                Some(e) => result == Err::<(), Error>(e) && *final(self) == *old(self),
                None => {
                    &&& result is Ok
                    &&& final(self).word_indices@ == word_indices@
                    &&& final(self).prefix@ == Seq::new(4, |i: int| 0u8)
                    &&& *final(self) == (LastWordFlow {
                        word_indices: final(self).word_indices,
                        prefix: final(self).prefix,
                        word_count: PREFIX_WORD_COUNT,
                        prefix_len: 0,
                        commit_feedback: CommitFeedback::Clear,
                        entropy_bits: 0,
                        entropy_confirmed: false,
                        ..*old(self)
                    })
                },
            },
    {
        let mut position: usize = 0;
        while position < PREFIX_WORD_COUNT
            invariant
                position <= PREFIX_WORD_COUNT,
                *self == *old(self),
                old(self).wf(),
                forall|q: int| 0 <= q < position ==> #[trigger] word_indices@[q] < 2048,
            decreases PREFIX_WORD_COUNT - position,
        {
            let index = word_indices[position];
            if word_for_index(index).is_none() {
                proof {
                    lemma_index_error_at(word_indices@, position as int);
                }
                return Err(Error::InvalidWordIndex { position, index });
            }
            position = position + 1;
        }
        proof {
            lemma_index_error_none_valid(word_indices@);
        }
        self.word_indices = word_indices;
        self.word_count = PREFIX_WORD_COUNT;
        self.prefix = [0u8; MAX_WORD_PREFIX_LEN];
        self.prefix_len = 0;
        self.commit_feedback = CommitFeedback::Clear;
        self.clear_entropy();
        proof {
            assert(self.prefix@ =~= Seq::new(4, |i: int| 0u8));
        }
        Ok(())
    }

    /// Flips entropy bit `bit` (0 to 6) once all eleven words are present;
    /// the new value then needs confirming.
    pub fn toggle_entropy_bit(&mut self, bit: i32)
        requires
            old(self).wf(),
        ensures
            final(self).wf(),
            !old(self).complete() || bit < 0 || bit >= 7 ==> *final(self) == *old(self),
            old(self).complete() && 0 <= bit < 7 ==> *final(self) == (LastWordFlow {
                entropy_bits: old(self).entropy_bits ^ (1u8 << (bit as u8)),
                entropy_confirmed: false,
                ..*old(self)
            }),
    {
        if self.word_count != PREFIX_WORD_COUNT {
            return ;
        }
        if bit < 0 || bit >= 7 {
            return ;
        }
        let shift: u8 = bit as u8;
        let bits: u8 = self.entropy_bits;
        proof {
            assert(bits ^ (1u8 << shift) <= 127) by (bit_vector)
                requires
                    bits <= 127,
                    shift < 7,
            ;
        }
        self.entropy_bits = self.entropy_bits ^ (1u8 << shift);
        self.entropy_confirmed = false;
    }

    /// Sets one die of the entropy dice once all eleven words are present:
    /// the eight-sided die (0, faces 1 to 8) gives the top three bits, the
    /// sixteen-sided die (1, faces 1 to 16) the low four. The new value then
    /// needs confirming.
    pub fn set_entropy_die_face(&mut self, die: i32, face: i32)
        requires
            old(self).wf(),
        ensures
            final(self).wf(),
            ({
                let a = *old(self);
                if a.complete() && die == 0 && 1 <= face <= 8 {
                    *final(self) == (LastWordFlow {
                        entropy_bits: (a.entropy_bits % 16 + (face - 1) * 16) as u8,
                        entropy_confirmed: false,
                        ..a
                    })
                } else if a.complete() && die == 1 && 1 <= face <= 16 {
                    *final(self) == (LastWordFlow {
                        entropy_bits: (a.entropy_bits / 16 % 8 * 16 + (face - 1)) as u8,
                        entropy_confirmed: false,
                        ..a
                    })
                } else {
                    *final(self) == a
                }
            }),
    {
        if self.word_count != PREFIX_WORD_COUNT {
            return ;
        }
        if die == 0 && 1 <= face && face <= 8 {
            let value: u8 = (face - 1) as u8;
            let bits = self.entropy_bits;
            let updated = (bits & 0x0f) | (value << 4u8);
            assert(updated == bits % 16 + value * 16) by (bit_vector)
                requires
                    updated == (bits & 0x0f) | (value << 4u8),
                    value < 8,
            ;
            self.entropy_bits = updated;
        } else if die == 1 && 1 <= face && face <= 16 {
            let value: u8 = (face - 1) as u8;
            let bits = self.entropy_bits;
            let updated = (bits & 0x70) | value;
            assert(updated == bits / 16 % 8 * 16 + value) by (bit_vector)
                requires
                    updated == (bits & 0x70) | value,
                    value < 16,
            ;
            self.entropy_bits = updated;
        } else {
            return ;
        }
        self.entropy_confirmed = false;
    }

    /// Confirms the chosen entropy bits once all eleven words are present;
    /// this explicit step is needed even for 0000000.
    pub fn confirm_entropy(&mut self)
        requires
            old(self).wf(),
        ensures
            final(self).wf(),
            *final(self) == (LastWordFlow {
                entropy_confirmed: old(self).entropy_confirmed || old(self).complete(),
                ..*old(self)
            }),
    {
        if self.word_count == PREFIX_WORD_COUNT {
            self.entropy_confirmed = true;
        }
    }

    /// Whether all eleven words have been accepted.
    pub fn is_complete(&self) -> (complete: bool)
        ensures
            complete == self.complete(),
    {
        self.word_count == PREFIX_WORD_COUNT
    }

    /// The typed letters as text (empty when they are no valid UTF-8).
    pub fn prefix_text(&self) -> (text: &str)
        requires
            self.wf(),
        ensures
            text.spec_bytes() == self.typed(),
            text@ == decode_utf8(self.typed()),
    {
        let bytes = slice_subrange(self.prefix.as_slice(), 0, self.prefix_len);
        let text = text_or_empty(bytes);
        proof {
            assert(bytes@ =~= self.prefix@.take(self.prefix_len as int));
            encode_utf8_decode_utf8(text@);
        }
        text
    }

    /// The word that `Use word` would accept: the exact word, or else the
    /// only word that starts with the typed letters.
    pub fn selected_word_index(&self) -> (index: Option<u16>)
        requires
            self.wf(),
        ensures
            index == english_selected_index(self.typed()),
    {
        let prefix = self.prefix_text();
        if prefix.len() == 0 {
            return None;
        }
        if let Some(index) = word_index(prefix) {
            return Some(index);
        }
        let matches = words_by_prefix(prefix);
        if matches.len() == 1 {
            word_index(matches[0])
        } else {
            None
        }
    }

    /// Returns the only letters that can extend the current entry to an
    /// English BIP39 word; none once all words are present or four letters
    /// are typed.
    pub fn next_letter_enabled(&self) -> (enabled: [bool; 26])
        requires
            self.wf(),
        ensures
            forall|c: int| 0 <= c < 26 ==> #[trigger] enabled@[c] == self.next_letter(c),
    {
        let mut enabled = [false; 26];
        if self.word_count == PREFIX_WORD_COUNT || self.prefix_len == MAX_WORD_PREFIX_LEN {
            proof {
                assert forall|c: int| 0 <= c < 26 implies #[trigger] enabled@[c]
                    == self.next_letter(c) by {
                    assert(!enabled@[c]);
                }
            }
            return enabled;
        }
        let prefix = self.prefix_text();
        let ghost p = self.typed();
        let words = words_by_prefix(prefix);
        proof {
            lemma_prefix_range(p);
        }
        let ghost start = prefix_range_start(p);
        let plen = self.prefix_len;
        let mut i: usize = 0;
        while i < words.len()
            invariant
                i <= words@.len(),
                words@.len() == prefix_range_end(p) - start,
                forall|k: int|
                    0 <= k < words@.len() ==> #[trigger] words@[k]@ == spec_word(
                        MnemonicLanguage::English,
                        start + k,
                    ),
                forall|c: int|
                    0 <= c < 26 ==> (#[trigger] enabled@[c] <==> exists|j: int|
                        start <= j < start + i && english_word_bytes(j).len() > plen
                            && #[trigger] english_word_bytes(j)[plen as int] == 97 + c),
            decreases words@.len() - i,
        {
            let word = words[i].as_bytes();
            let ghost j0 = start + i;
            proof {
                assert(word@ == english_word_bytes(j0));
            }
            let ghost before = enabled@;
            if plen < word.len() {
                let next = word[plen];
                if next >= 97 && next <= 122 {
                    enabled[(next - 97) as usize] = true;
                }
            }
            proof {
                assert forall|c: int| 0 <= c < 26 implies (#[trigger] enabled@[c] <==> exists|
                    j: int,
                |
                    start <= j < start + i + 1 && english_word_bytes(j).len() > plen
                        && #[trigger] english_word_bytes(j)[plen as int] == 97 + c) by {
                    if enabled@[c] && !before[c] {
                        assert(english_word_bytes(j0)[plen as int] == 97 + c);
                    }
                    if before[c] {
                        let j = choose|j: int|
                            start <= j < start + i && english_word_bytes(j).len() > plen
                                && #[trigger] english_word_bytes(j)[plen as int] == 97 + c;
                        assert(start <= j < start + i + 1);
                    }
                    if exists|j: int|
                        start <= j < start + i + 1 && english_word_bytes(j).len() > plen
                            && #[trigger] english_word_bytes(j)[plen as int] == 97 + c {
                        let j = choose|j: int|
                            start <= j < start + i + 1 && english_word_bytes(j).len() > plen
                                && #[trigger] english_word_bytes(j)[plen as int] == 97 + c;
                        if j < start + i {
                            assert(before[c]);
                        }
                    }
                }
            }
            i = i + 1;
        }
        proof {
            assert forall|c: int| 0 <= c < 26 implies #[trigger] enabled@[c] == self.next_letter(c) by {
                if enabled@[c] {
                    let j = choose|j: int|
                        start <= j < start + i && english_word_bytes(j).len() > plen
                            && #[trigger] english_word_bytes(j)[plen as int] == 97 + c;
                    assert(starts_with(english_word_bytes(j), p));
                }
                if self.next_letter(c) {
                    let j = choose|j: int|
                        0 <= j < 2048 && starts_with(english_word_bytes(j), p)
                            && english_word_bytes(j).len() > plen
                            && #[trigger] english_word_bytes(j)[plen as int] == 97 + c;
                    assert(start <= j < start + i);
                }
            }
        }
        enabled
    }

    /// The hint under the entry: what to type, the exact or only word, or
    /// how many words still match.
    pub fn entry_text(&self) -> (text: String)
        requires
            self.wf(),
        ensures
            text@ == self.entry_hint(),
    {
        let prefix = self.prefix_text();
        if prefix.len() == 0 {
            return string_from("Tap letters to filter the English word list.");
        }
        let matches = words_by_prefix(prefix);
        proof {
            lemma_prefix_range(self.typed());
        }
        if let Some(index) = word_index(prefix) {
            let mut text = string_from("Use exact: ");
            match word_for_index(index) {
                Some(word) => push_str(&mut text, word),
                None => {},
            }
            return text;
        }
        if matches.len() == 1 {
            let mut text = string_from("Only match: ");
            push_str(&mut text, matches[0]);
            return text;
        }
        let mut text = String::new();
        push_decimal(&mut text, matches.len());
        push_str(&mut text, " matches — add a letter.");
        text
    }

    /// The status message: a refused letter, the outcome of `Use word`, or
    /// the prompt for the entropy bits once all words are present.
    pub fn message(&self) -> (text: String)
        ensures
            text@ == self.status_message(),
    {
        if self.last_letter_was_rejected {
            return string_from("No BIP39 word can continue with that letter. Try another letter.");
        }
        match self.commit_feedback {
            CommitFeedback::Clear => {},
            CommitFeedback::EnterLetters => {
                return string_from("Enter a BIP39 word before tapping Use word.");
            },
            CommitFeedback::MoreMatches { count } => {
                let mut text = string_from("Use word needs one BIP39 word — ");
                push_decimal(&mut text, count);
                push_str(&mut text, " matching words remain.");
                return text;
            },
        }
        if self.word_count == PREFIX_WORD_COUNT {
            return string_from("All 11 words captured. Select the seven entropy bits.");
        }
        String::new()
    }

    /// Whether entropy bit `bit` is set.
    pub fn entropy_bit_is_set(&self, bit: u8) -> (set: bool)
        requires
            bit < 8,
        ensures
            set == (self.entropy_bits & (1u8 << bit) != 0),
    {
        self.entropy_bits & (1u8 << bit) != 0
    }

    /// The value of the eight-sided die: the bits above the low four.
    pub fn entropy_octal_value(&self) -> (value: u8)
        ensures
            value == self.entropy_bits / 16,
    {
        let bits = self.entropy_bits;
        let value = bits >> 4u8;
        assert(value == bits / 16) by (bit_vector)
            requires
                value == bits >> 4u8,
        ;
        value
    }

    /// The face of the eight-sided die (value plus one).
    pub fn entropy_octal_face(&self) -> (face: u8)
        ensures
            face == self.entropy_bits / 16 + 1,
    {
        self.entropy_octal_value() + 1
    }

    /// The value of the sixteen-sided die: the low four bits.
    pub fn entropy_hex_value(&self) -> (value: u8)
        ensures
            value == self.entropy_bits % 16,
    {
        let bits = self.entropy_bits;
        let value = bits & 0x0f;
        assert(value == bits % 16) by (bit_vector)
            requires
                value == bits & 0x0f,
        ;
        value
    }

    /// The face of the sixteen-sided die (value plus one).
    pub fn entropy_hex_face(&self) -> (face: u8)
        ensures
            face == self.entropy_bits % 16 + 1,
    {
        self.entropy_hex_value() + 1
    }

    /// The eight-sided die's value in binary, at least three digits.
    pub fn entropy_octal_bits(&self) -> (text: String)
        ensures
            text@ == binary(
                (self.entropy_bits / 16) as nat,
                if self.entropy_bits / 16 >= 8 {
                    4
                } else {
                    3
                },
            ),
    {
        let value = self.entropy_octal_value();
        let width: usize = if value >= 8 {
            4
        } else {
            3
        };
        let mut text = String::new();
        push_binary(&mut text, value, width);
        text
    }

    /// The sixteen-sided die's value in four binary digits.
    pub fn entropy_hex_bits(&self) -> (text: String)
        ensures
            text@ == binary((self.entropy_bits % 16) as nat, 4),
    {
        let mut text = String::new();
        push_binary(&mut text, self.entropy_hex_value(), 4);
        text
    }

    /// The confirmed words separated by spaces, for the progress row.
    pub fn confirmed_words_text(&self) -> (text: String)
        requires
            self.wf(),
        ensures
            text@ == english_confirmed_text(self.word_indices@, self.word_count as nat),
            text@.len() <= 9 * self.word_count,
    {
        let mut text = String::new();
        let mut i: usize = 0;
        while i < self.word_count
            invariant
                self.wf(),
                i <= self.word_count,
                text@ == english_confirmed_text(self.word_indices@, i as nat),
                text@.len() <= 9 * i,
            decreases self.word_count - i,
        {
            if !text.as_str().is_empty() {
                push_str(&mut text, " ");
            }
            match word_for_index(self.word_indices[i]) {
                Some(word) => push_str(&mut text, word),
                None => {
                    let mark = "?";
                    proof {
                        reveal_strlit("?");
                    }
                    push_str(&mut text, mark);
                },
            }
            proof {
                reveal_strlit(" ");
            }
            i = i + 1;
        }
        text
    }

    /// The font size of the progress row, in hundredths of a pixel, so that
    /// all confirmed words fit on it (advances measured byte by byte).
    pub fn confirmed_words_font_size_hundredths(&self) -> (size: i32)
        requires
            self.wf(),
        ensures
            size == row_font_size(
                (WORD_LIST_DISPLAY_WIDTH_PX * WORD_LIST_FONT_METRIC_SIZE_PX
                    * WORD_LIST_GLYPH_ADVANCE_SCALE * 100) as nat,
                bytes_width(
                    vstd::utf8::encode_utf8(
                        english_confirmed_text(self.word_indices@, self.word_count as nat),
                    ),
                ),
            ),
    {
        let text = self.confirmed_words_text();
        let bytes = text.as_str().as_bytes();
        proof {
            lemma_utf8_len_bound(text@);
        }
        let mut width: usize = 0;
        let mut k: usize = 0;
        while k < bytes.len()
            invariant
                k <= bytes@.len(),
                bytes@.len() <= 396,
                width == bytes_width(bytes@.take(k as int)),
                width <= 479 * k,
            decreases bytes@.len() - k,
        {
            proof {
                assert(bytes@.take(k + 1).drop_last() =~= bytes@.take(k as int));
            }
            width = width + byte_glyph_advance_units(bytes[k]);
            k = k + 1;
        }
        proof {
            assert(bytes@.take(bytes@.len() as int) =~= bytes@);
        }
        if width == 0 {
            return WORD_LIST_MAX_FONT_SIZE_HUNDREDTHS;
        }
        let budget: usize = WORD_LIST_DISPLAY_WIDTH_PX * WORD_LIST_FONT_METRIC_SIZE_PX
            * WORD_LIST_GLYPH_ADVANCE_SCALE * 100;
        let font_size = budget / width;
        if font_size < 600 {
            WORD_LIST_MIN_FONT_SIZE_HUNDREDTHS
        } else if font_size > 2000 {
            WORD_LIST_MAX_FONT_SIZE_HUNDREDTHS
        } else {
            font_size as i32
        }
    }

    /// The final word for the confirmed entropy bits.
    pub fn candidate_word(&self) -> (word: Option<&'static str>)
        ensures
            word is Some <==> self.shown_word() is Some,
            word matches Some(w) ==> Some(w@) == self.shown_word(),
    {
        if !self.entropy_confirmed {
            return None;
        }
        match word_for_entropy_bits(&self.word_indices, self.entropy_bits) {
            Ok(word) => Some(word),
            Err(_) => None,
        }
    }

    /// Forgets the entropy choice after the word prefix changed.
    fn clear_entropy(&mut self)
        ensures
            *final(self) == (LastWordFlow { entropy_bits: 0, entropy_confirmed: false, ..*old(self) }),
    {
        self.entropy_bits = 0;
        self.entropy_confirmed = false;
    }
}

impl Default for LastWordFlow {
    fn default() -> (flow: Self)
        ensures
            flow.fresh(),
            flow.wf(),
    {
        Self::initial()
    }
}

/// The glyph advance of a byte, as [`byte_glyph_units`].
fn byte_glyph_advance_units(byte: u8) -> (units: usize)
    ensures
        units == byte_glyph_units(byte),
        units <= 479,
{
    match byte {
        32 | 102 | 116 => 160,
        105 | 106 | 108 => 127,
        109 => 479,
        119 => 415,
        107 | 115 | 118 | 120 | 121 | 122 => 288,
        114 => 191,
        _ => 320,
    }
}

} // verus!
