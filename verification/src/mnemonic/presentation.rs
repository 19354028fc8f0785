//! The texts the flow shows: the entry hint, the status message and the row
//! of confirmed words with its font size.

use super::{CommitFeedback, LastWordFlow, match_count, selected_index};
use crate::chinese::chars_of;
use crate::last_word::{
    MnemonicLanguage, PREFIX_WORD_COUNT, lemma_prefix_range, prefix_range_len, prefix_range_start,
    spec_word, spec_word_index, word_for_index_in, word_index, words_by_prefix,
};
use crate::text::{decimal, push_decimal, push_str, string_from};
use vstd::prelude::*;
use vstd::utf8::decode_utf8;

verus! {

/// Width of the confirmed-words row, in pixels.
pub const WORD_LIST_DISPLAY_WIDTH_PX: usize = 448;

/// Font size at which the glyph advances below are measured, in pixels.
pub const WORD_LIST_FONT_METRIC_SIZE_PX: usize = 9;

/// Scale of the glyph advances below (units per pixel).
pub const WORD_LIST_GLYPH_ADVANCE_SCALE: usize = 64;

/// Smallest font size of the confirmed-words row, in hundredths of a pixel.
pub const WORD_LIST_MIN_FONT_SIZE_HUNDREDTHS: i32 = 600;

/// Largest font size of the confirmed-words row, in hundredths of a pixel.
pub const WORD_LIST_MAX_FONT_SIZE_HUNDREDTHS: i32 = 2_000;

/// The glyph advance of a character at the metric font size, in units.
pub open spec fn glyph_units(c: char) -> nat {
    if c == ' ' || c == 'f' || c == 't' {
        160
    } else if c == 'i' || c == 'j' || c == 'l' {
        127
    } else if c == 'm' {
        479
    } else if c == 'w' {
        415
    } else if c == 'k' || c == 's' || c == 'v' || c == 'x' || c == 'y' || c == 'z' {
        288
    } else if c == 'r' {
        191
    } else if (c as u32) < 128 {
        320
    } else {
        640
    }
}

/// The advance of a text: the sum of its glyph advances.
pub open spec fn text_width(text: Seq<char>) -> nat
    decreases text.len(),
{
    if text.len() == 0 {
        0
    } else {
        text_width(text.drop_last()) + glyph_units(text.last())
    }
}

/// The font size, in hundredths of a pixel, at which text `width` units
/// wide fills `budget` (the row width times the metric size, the advance
/// scale and 100), kept between the smallest and the largest size; an empty
/// row gets the largest.
pub open spec fn font_size_for(budget: nat, width: nat) -> i32 {
    if width == 0 {
        2000
    } else if budget / width < 600 {
        600
    } else if budget / width > 2000 {
        2000
    } else {
        (budget / width) as i32
    }
}

/// The word at `index`, or `?` for an index outside the word list.
pub open spec fn word_or_mark(language: MnemonicLanguage, index: u16) -> Seq<char> {
    if index < 2048 {
        spec_word(language, index as int)
    } else {
        "?"@
    }
}

/// The first `n` confirmed words separated by single spaces.
pub open spec fn confirmed_text(language: MnemonicLanguage, indices: Seq<u16>, n: nat) -> Seq<
    char,
>
    decreases n,
{
    if n == 0 {
        Seq::empty()
    } else {
        let before = confirmed_text(language, indices, (n - 1) as nat);
        let word = word_or_mark(language, indices[n - 1]);
        if before.len() == 0 {
            word
        } else {
            before + " "@ + word
        }
    }
}

impl LastWordFlow {
    /// The hint under the entry: what to type, the exact or only word, or
    /// how many words still match.
    pub open spec fn entry_hint(&self) -> Seq<char> {
        let p = self.typed();
        if p.len() == 0 {
            match self.language {
                MnemonicLanguage::English => "Tap letters to filter the English word list."@,
                MnemonicLanguage::SimplifiedChinese =>
                    "Type pinyin to find a Simplified Chinese BIP39 word."@,
            }
        } else {
            match self.language {
                MnemonicLanguage::English => match spec_word_index(decode_utf8(p)) {
                    Some(i) => "Use exact: "@ + spec_word(MnemonicLanguage::English, i as int),
                    None => if prefix_range_len(p) == 1 {
                        "Only match: "@ + spec_word(MnemonicLanguage::English, prefix_range_start(p))
                    } else {
                        decimal(prefix_range_len(p)) + " matches - add a letter."@
                    },
                },
                MnemonicLanguage::SimplifiedChinese => match selected_index(self.language, p) {
                    Some(i) => "Only match: "@ + spec_word(
                        MnemonicLanguage::SimplifiedChinese,
                        i as int,
                    ),
                    None => decimal(match_count(self.language, p))
                        + " Chinese matches - tap Use word to choose."@,
                },
            }
        }
    }

    /// The status message: a refused letter, the outcome of `Use word`, or
    /// the prompt for the entropy bits once all words are present.
    pub open spec fn status_message(&self) -> Seq<char> {
        if self.last_letter_was_rejected {
            match self.language {
                MnemonicLanguage::English =>
                    "No BIP39 word can continue with that letter. Try another letter."@,
                MnemonicLanguage::SimplifiedChinese =>
                    "No BIP39 word matches that pinyin. Try another letter."@,
            }
        } else {
            match self.commit_feedback {
                CommitFeedback::EnterLetters => match self.language {
                    MnemonicLanguage::English => "Enter a BIP39 word before tapping Use word."@,
                    MnemonicLanguage::SimplifiedChinese => "Enter pinyin before tapping Use word."@,
                },
                CommitFeedback::MoreMatches { count } => match self.language {
                    MnemonicLanguage::English => "Use word needs one BIP39 word - "@ + decimal(
                        count as nat,
                    ) + " matching words remain."@,
                    MnemonicLanguage::SimplifiedChinese => "Choose one of "@ + decimal(count as nat)
                        + " Chinese BIP39 words."@,
                },
                CommitFeedback::Clear => if self.complete() {
                    "All 11 words captured. Select the seven entropy bits."@
                } else {
                    Seq::empty()
                },
            }
        }
    }

    /// The hint under the entry.
    pub fn entry_text(&self) -> (text: String)
        requires
            self.wf(),
        ensures
            text@ == self.entry_hint(),
    {
        let prefix = self.prefix_text();
        if prefix.len() == 0 {
            return match self.language {
                MnemonicLanguage::English => string_from(
                    "Tap letters to filter the English word list.",
                ),
                MnemonicLanguage::SimplifiedChinese => string_from(
                    "Type pinyin to find a Simplified Chinese BIP39 word.",
                ),
            };
        }
        match self.language {
            MnemonicLanguage::English => {
                let matches = words_by_prefix(prefix);
                proof {
                    lemma_prefix_range(self.typed());
                }
                if let Some(index) = word_index(prefix) {
                    let mut text = string_from("Use exact: ");
                    match word_for_index_in(self.language, index) {
                        Some(word) => push_str(&mut text, word),
                        None => {},
                    }
                    return text;
                }
                if matches.len() == 1 {
                    let mut text = string_from("Only match: ");
                    push_str(&mut text, matches[0]);
                    return text;
                }
                let mut text = String::new();
                push_decimal(&mut text, matches.len());
                push_str(&mut text, " matches - add a letter.");
                text
            },
            MnemonicLanguage::SimplifiedChinese => {
                if let Some(index) = self.selected_word_index() {
                    let mut text = string_from("Only match: ");
                    match word_for_index_in(self.language, index) {
                        Some(word) => push_str(&mut text, word),
                        None => {},
                    }
                    return text;
                }
                let mut text = String::new();
                push_decimal(&mut text, self.prefix_match_count());
                push_str(&mut text, " Chinese matches - tap Use word to choose.");
                text
            },
        }
    }

    /// The status message.
    pub fn message(&self) -> (text: String)
        ensures
            text@ == self.status_message(),
    {
        if self.last_letter_was_rejected {
            return match self.language {
                MnemonicLanguage::English => string_from(
                    "No BIP39 word can continue with that letter. Try another letter.",
                ),
                MnemonicLanguage::SimplifiedChinese => string_from(
                    "No BIP39 word matches that pinyin. Try another letter.",
                ),
            };
        }
        match self.commit_feedback {
            CommitFeedback::Clear => {},
            CommitFeedback::EnterLetters => {
                return match self.language {
                    MnemonicLanguage::English => string_from(
                        "Enter a BIP39 word before tapping Use word.",
                    ),
                    MnemonicLanguage::SimplifiedChinese => string_from(
                        "Enter pinyin before tapping Use word.",
                    ),
                };
            },
            CommitFeedback::MoreMatches { count } => {
                return match self.language {
                    MnemonicLanguage::English => {
                        let mut text = string_from("Use word needs one BIP39 word - ");
                        push_decimal(&mut text, count);
                        push_str(&mut text, " matching words remain.");
                        text
                    },
                    MnemonicLanguage::SimplifiedChinese => {
                        let mut text = string_from("Choose one of ");
                        push_decimal(&mut text, count);
                        push_str(&mut text, " Chinese BIP39 words.");
                        text
                    },
                };
            },
        }
        if self.word_count == PREFIX_WORD_COUNT {
            return string_from("All 11 words captured. Select the seven entropy bits.");
        }
        String::new()
    }

    /// The confirmed words separated by spaces, for the progress row.
    pub fn confirmed_words_text(&self) -> (text: String)
        requires
            self.wf(),
        ensures
            text@ == confirmed_text(self.language, self.word_indices@, self.word_count as nat),
            text@.len() <= 9 * self.word_count,
    {
        let mut text = String::new();
        let mut i: usize = 0;
        while i < self.word_count
            invariant
                self.wf(),
                i <= self.word_count,
                text@ == confirmed_text(self.language, self.word_indices@, i as nat),
                text@.len() <= 9 * i,
            decreases self.word_count - i,
        {
            if !text.as_str().is_empty() {
                push_str(&mut text, " ");
            }
            match word_for_index_in(self.language, self.word_indices[i]) {
                Some(word) => push_str(&mut text, word),
                None => {
                    let mark = "?";
                    proof {
                        reveal_strlit("?");
                    }
                    push_str(&mut text, mark);
                },
            }
            proof {
                reveal_strlit(" ");
            }
            i = i + 1;
        }
        text
    }

    /// The font size of the progress row, in hundredths of a pixel, so that
    /// all confirmed words fit on it.
    pub fn confirmed_words_font_size_hundredths(&self) -> (size: i32)
        requires
            self.wf(),
        ensures
            size == font_size_for(
                (WORD_LIST_DISPLAY_WIDTH_PX * WORD_LIST_FONT_METRIC_SIZE_PX
                    * WORD_LIST_GLYPH_ADVANCE_SCALE * 100) as nat,
                text_width(confirmed_text(self.language, self.word_indices@, self.word_count as nat)),
            ),
    {
        let text = self.confirmed_words_text();
        let chars = chars_of(text.as_str());
        let mut width: usize = 0;
        let mut k: usize = 0;
        while k < chars.len()
            invariant
                k <= chars@.len(),
                chars@.len() <= 99,
                width == text_width(chars@.take(k as int)),
                width <= 640 * k,
            decreases chars@.len() - k,
        {
            proof {
                assert(chars@.take(k + 1).drop_last() =~= chars@.take(k as int));
            }
            width = width + word_list_glyph_advance_units(chars[k]);
            k = k + 1;
        }
        proof {
            assert(chars@.take(chars@.len() as int) =~= chars@);
        }
        if width == 0 {
            return WORD_LIST_MAX_FONT_SIZE_HUNDREDTHS;
        }
        let budget: usize = WORD_LIST_DISPLAY_WIDTH_PX * WORD_LIST_FONT_METRIC_SIZE_PX
            * WORD_LIST_GLYPH_ADVANCE_SCALE * 100;
        let font_size = budget / width;
        if font_size < 600 {
            WORD_LIST_MIN_FONT_SIZE_HUNDREDTHS
        } else if font_size > 2000 {
            WORD_LIST_MAX_FONT_SIZE_HUNDREDTHS
        } else {
            font_size as i32
        }
    }
}

/// The glyph advance of a character, as [`glyph_units`].
fn word_list_glyph_advance_units(character: char) -> (units: usize)
    ensures
        units == glyph_units(character),
        units <= 640,
{
    match character {
        ' ' | 'f' | 't' => 160,
        'i' | 'j' | 'l' => 127,
        'm' => 479,
        'w' => 415,
        'k' | 's' | 'v' | 'x' | 'y' | 'z' => 288,
        'r' => 191,
        _ => if (character as u32) < 128 {
            320
        } else {
            640
        },
    }
}

} // verus!
