//! The seven explicit entropy bits: bit toggles, dice faces and the
//! final-word picker.

use super::LastWordFlow;
use crate::last_word::{
    CANDIDATE_COUNT, MnemonicLanguage, PREFIX_WORD_COUNT, final_index, index_error, spec_word,
    word_for_entropy_bits_in,
};
use crate::text::{binary, decimal, push_binary, push_decimal, push_str, string_from};
use vstd::prelude::*;

verus! {

/// Final-word candidates offered on one page of the final-word picker.
pub const FINAL_WORD_CANDIDATES_PER_PAGE: usize = 12;

impl LastWordFlow {
    /// The final word the flow shows: the word for the confirmed entropy
    /// bits, when the indices and the bits are valid.
    pub open spec fn shown_word(&self) -> Option<Seq<char>> {
        if self.entropy_confirmed && index_error(self.word_indices@) is None && self.entropy_bits
            <= 127 {
            Some(
                spec_word(
                    self.language,
                    final_index(self.word_indices@, self.entropy_bits as nat) as int,
                ),
            )
        } else {
            None
        }
    }

    /// The label of slot `k` of the final-word picker page: the final word
    /// for the entropy value at that candidate position, or nothing.
    pub open spec fn final_label(&self, k: int) -> Seq<char> {
        let position = self.final_word_candidate_page * 12 + k;
        if self.final_word_picker_open && self.complete() && position < 128 && index_error(
            self.word_indices@,
        ) is None {
            spec_word(self.language, final_index(self.word_indices@, position as nat) as int)
        } else {
            Seq::empty()
        }
    }

    /// `new` is this flow after a tap on entropy bit `bit`: with all words
    /// present, bit `bit` (0 to 6) flips and the choice counts as confirmed.
    pub open spec fn toggles_bit(&self, bit: i32, new: LastWordFlow) -> bool {
        if !self.complete() || bit < 0 || bit >= 7 {
            new == *self
        } else {
            new == (LastWordFlow {
                entropy_bits: self.entropy_bits ^ (1u8 << (bit as u8)),
                entropy_confirmed: true,
                ..*self
            })
        }
    }

    /// `new` is this flow after die `die` was set to `face`: the eight-sided
    /// die (0, faces 1 to 8) gives the top three bits, the sixteen-sided die
    /// (1, faces 1 to 16) the low four.
    pub open spec fn sets_die_face(&self, die: i32, face: i32, new: LastWordFlow) -> bool {
        if self.complete() && die == 0 && 1 <= face <= 8 {
            new == (LastWordFlow {
                entropy_bits: (self.entropy_bits % 16 + (face - 1) * 16) as u8,
                entropy_confirmed: true,
                ..*self
            })
        } else if self.complete() && die == 1 && 1 <= face <= 16 {
            new == (LastWordFlow {
                entropy_bits: (self.entropy_bits / 16 % 8 * 16 + (face - 1)) as u8,
                entropy_confirmed: true,
                ..*self
            })
        } else {
            new == *self
        }
    }

    /// `new` is this flow after slot `offset` of the final-word picker was
    /// tapped, and `chosen` what the call returned.
    pub open spec fn selects_final_word(&self, offset: i32, new: LastWordFlow, chosen: bool) -> bool {
        let position = self.final_word_candidate_page * 12 + offset;
        if !self.final_word_picker_open || offset < 0 || offset >= 12 || position >= 128 {
            !chosen && new == *self
        } else {
            chosen && new == (LastWordFlow {
                entropy_bits: position as u8,
                entropy_confirmed: true,
                final_word_picker_open: false,
                ..*self
            })
        }
    }

    /// `new` is this flow after a page button of the final-word picker: the
    /// open picker moves one page back (`direction < 0`) or forward
    /// (`direction > 0`) within its eleven pages.
    pub open spec fn pages_final_word_picker(&self, direction: i32, new: LastWordFlow) -> bool {
        new == if !self.final_word_picker_open || direction == 0 {
            *self
        } else if direction < 0 {
            LastWordFlow {
                final_word_candidate_page: if self.final_word_candidate_page > 0 {
                    (self.final_word_candidate_page - 1) as usize
                } else {
                    0
                },
                ..*self
            }
        } else {
            LastWordFlow {
                final_word_candidate_page: if self.final_word_candidate_page + 1 < 11 {
                    (self.final_word_candidate_page + 1) as usize
                } else {
                    10
                },
                ..*self
            }
        }
    }

    /// Flips entropy bit `bit` (0 to 6) once all eleven words are present.
    pub fn toggle_entropy_bit(&mut self, bit: i32)
        requires
            old(self).wf(),
        ensures
            final(self).wf(),
            old(self).toggles_bit(bit, *final(self)),
    {
        if self.word_count != PREFIX_WORD_COUNT {
            return ;
        }
        if bit < 0 || bit >= 7 {
            return ;
        }
        let shift: u8 = bit as u8;
        let bits: u8 = self.entropy_bits;
        proof {
            assert(bits ^ (1u8 << shift) <= 127) by (bit_vector)
                requires
                    bits <= 127,
                    shift < 7,
            ;
        }
        self.entropy_bits = self.entropy_bits ^ (1u8 << shift);
        self.entropy_confirmed = true;
    }

    /// Sets one die of the entropy dice once all eleven words are present.
    pub fn set_entropy_die_face(&mut self, die: i32, face: i32)
        requires
            old(self).wf(),
        ensures
            final(self).wf(),
            old(self).sets_die_face(die, face, *final(self)),
    {
        if self.word_count != PREFIX_WORD_COUNT {
            return ;
        }
        if die == 0 && 1 <= face && face <= 8 {
            let value: u8 = (face - 1) as u8;
            let bits = self.entropy_bits;
            let updated = (bits & 0x0f) | (value << 4u8);
            assert(updated == bits % 16 + value * 16) by (bit_vector)
                requires
                    updated == (bits & 0x0f) | (value << 4u8),
                    value < 8,
            ;
            self.entropy_bits = updated;
        } else if die == 1 && 1 <= face && face <= 16 {
            let value: u8 = (face - 1) as u8;
            let bits = self.entropy_bits;
            let updated = (bits & 0x70) | value;
            assert(updated == bits / 16 % 8 * 16 + value) by (bit_vector)
                requires
                    updated == (bits & 0x70) | value,
                    value < 16,
            ;
            self.entropy_bits = updated;
        } else {
            return ;
        }
        self.entropy_confirmed = true;
    }

    /// Opens the final-word picker on the page of the current entropy bits.
    pub fn open_final_word_picker(&mut self) -> (opened: bool)
        requires
            old(self).wf(),
        ensures
            final(self).wf(),
            opened == old(self).complete(),
            opened ==> *final(self) == (LastWordFlow {
                final_word_candidate_page: (old(self).entropy_bits / 12) as usize,
                final_word_picker_open: true,
                ..*old(self)
            }),
            !opened ==> *final(self) == *old(self),
    {
        if self.word_count != PREFIX_WORD_COUNT {
            return false;
        }
        self.final_word_candidate_page = (self.entropy_bits / 12) as usize;
        self.final_word_picker_open = true;
        true
    }

    /// Closes the final-word picker.
    pub fn close_final_word_picker(&mut self)
        requires
            old(self).wf(),
        ensures
            final(self).wf(),
            *final(self) == (LastWordFlow { final_word_picker_open: false, ..*old(self) }),
    {
        self.final_word_picker_open = false;
    }

    /// Whether the final-word picker is open.
    pub fn is_final_word_picker_open(&self) -> (open: bool)
        ensures
            open == self.final_word_picker_open,
    {
        self.final_word_picker_open
    }

    /// The twelve labels of the current final-word picker page; empty slots
    /// (and every slot while the picker is closed) are empty strings.
    pub fn final_word_candidate_labels(&self) -> (labels: Vec<String>)
        requires
            self.wf(),
        ensures
            labels@.len() == FINAL_WORD_CANDIDATES_PER_PAGE,
            forall|k: int| 0 <= k < 12 ==> #[trigger] labels@[k]@ == self.final_label(k),
    {
        let mut labels: Vec<String> = Vec::new();
        let showing = self.final_word_picker_open && self.word_count == PREFIX_WORD_COUNT;
        let first = self.final_word_candidate_page * FINAL_WORD_CANDIDATES_PER_PAGE;
        let mut k: usize = 0;
        while k < FINAL_WORD_CANDIDATES_PER_PAGE
            invariant
                k <= 12,
                labels@.len() == k,
                self.wf(),
                showing == (self.final_word_picker_open && self.complete()),
                first == self.final_word_candidate_page * 12,
                forall|j: int| 0 <= j < k ==> #[trigger] labels@[j]@ == self.final_label(j),
            decreases 12 - k,
        {
            let position = first + k;
            let label = if showing && position < CANDIDATE_COUNT {
                match word_for_entropy_bits_in(self.language, &self.word_indices, position as u8) {
                    Ok(word) => string_from(word),
                    Err(_) => String::new(),
                }
            } else {
                String::new()
            };
            labels.push(label);
            k = k + 1;
        }
        labels
    }

    /// `page / pages` for the final-word picker.
    pub fn final_word_candidate_page_label(&self) -> (label: String)
        requires
            self.wf(),
        ensures
            label@ == decimal((self.final_word_candidate_page + 1) as nat) + " / "@ + decimal(11),
    {
        let mut label = String::new();
        push_decimal(&mut label, self.final_word_candidate_page + 1);
        push_str(&mut label, " / ");
        push_decimal(&mut label, Self::final_word_candidate_page_count());
        label
    }

    /// Whether the final-word picker has an earlier page.
    pub fn has_previous_final_word_candidate_page(&self) -> (previous: bool)
        ensures
            previous == (self.final_word_candidate_page > 0),
    {
        self.final_word_candidate_page > 0
    }

    /// Whether the final-word picker has a later page.
    pub fn has_next_final_word_candidate_page(&self) -> (next: bool)
        requires
            self.wf(),
        ensures
            next == (self.final_word_candidate_page + 1 < 11),
    {
        self.final_word_candidate_page + 1 < Self::final_word_candidate_page_count()
    }

    /// Moves the open final-word picker one page back (`direction < 0`) or
    /// forward (`direction > 0`), staying within its eleven pages.
    pub fn change_final_word_candidate_page(&mut self, direction: i32)
        requires
            old(self).wf(),
        ensures
            final(self).wf(),
            old(self).pages_final_word_picker(direction, *final(self)),
    {
        if !self.final_word_picker_open {
            return ;
        }
        let page_count = Self::final_word_candidate_page_count();
        if direction < 0 {
            if self.final_word_candidate_page > 0 {
                self.final_word_candidate_page = self.final_word_candidate_page - 1;
            }
        } else if direction > 0 {
            if self.final_word_candidate_page + 1 < page_count {
                self.final_word_candidate_page = self.final_word_candidate_page + 1;
            } else {
                self.final_word_candidate_page = page_count - 1;
            }
        }
    }

    /// Chooses the entropy value of slot `candidate_offset` of the open
    /// final-word picker page, confirms it and closes the picker.
    pub fn select_final_word_candidate(&mut self, candidate_offset: i32) -> (chosen: bool)
        requires
            old(self).wf(),
        ensures
            final(self).wf(),
            old(self).selects_final_word(candidate_offset, *final(self), chosen),
    {
        if !self.final_word_picker_open {
            return false;
        }
        if candidate_offset < 0 || candidate_offset >= 12 {
            return false;
        }
        let candidate_position = self.final_word_candidate_page * FINAL_WORD_CANDIDATES_PER_PAGE
            + candidate_offset as usize;
        if candidate_position >= CANDIDATE_COUNT {
            return false;
        }
        self.entropy_bits = candidate_position as u8;
        self.entropy_confirmed = true;
        self.final_word_picker_open = false;
        true
    }

    /// Whether the entropy bits have been chosen.
    pub fn is_entropy_confirmed(&self) -> (confirmed: bool)
        ensures
            confirmed == self.entropy_confirmed,
    {
        self.entropy_confirmed
    }

    /// Whether entropy bit `bit` is set.
    pub fn entropy_bit_is_set(&self, bit: u8) -> (set: bool)
        requires
            bit < 8,
        ensures
            set == (self.entropy_bits & (1u8 << bit) != 0),
    {
        self.entropy_bits & (1u8 << bit) != 0
    }

    /// The value of the eight-sided die: the bits above the low four.
    pub fn entropy_octal_value(&self) -> (value: u8)
        ensures
            value == self.entropy_bits / 16,
    {
        let bits = self.entropy_bits;
        let value = bits >> 4u8;
        assert(value == bits / 16) by (bit_vector)
            requires
                value == bits >> 4u8,
        ;
        value
    }

    /// The face of the eight-sided die (value plus one).
    pub fn entropy_octal_face(&self) -> (face: u8)
        ensures
            face == self.entropy_bits / 16 + 1,
    {
        self.entropy_octal_value() + 1
    }

    /// The value of the sixteen-sided die: the low four bits.
    pub fn entropy_hex_value(&self) -> (value: u8)
        ensures
            value == self.entropy_bits % 16,
    {
        let bits = self.entropy_bits;
        let value = bits & 0x0f;
        assert(value == bits % 16) by (bit_vector)
            requires
                value == bits & 0x0f,
        ;
        value
    }

    /// The face of the sixteen-sided die (value plus one).
    pub fn entropy_hex_face(&self) -> (face: u8)
        ensures
            face == self.entropy_bits % 16 + 1,
    {
        self.entropy_hex_value() + 1
    }

    /// The eight-sided die's value in binary, at least three digits.
    pub fn entropy_octal_bits(&self) -> (text: String)
        ensures
            text@ == binary(
                (self.entropy_bits / 16) as nat,
                if self.entropy_bits / 16 >= 8 {
                    4
                } else {
                    3
                },
            ),
    {
        let value = self.entropy_octal_value();
        let width: usize = if value >= 8 {
            4
        } else {
            3
        };
        let mut text = String::new();
        push_binary(&mut text, value, width);
        text
    }

    /// The sixteen-sided die's value in four binary digits.
    pub fn entropy_hex_bits(&self) -> (text: String)
        ensures
            text@ == binary((self.entropy_bits % 16) as nat, 4),
    {
        let mut text = String::new();
        push_binary(&mut text, self.entropy_hex_value(), 4);
        text
    }

    /// The final word for the confirmed entropy bits, in the language in use.
    pub fn candidate_word(&self) -> (word: Option<&'static str>)
        ensures
            word is Some <==> self.shown_word() is Some,
            word matches Some(w) ==> Some(w@) == self.shown_word(),
    {
        if !self.entropy_confirmed {
            return None;
        }
        match word_for_entropy_bits_in(self.language, &self.word_indices, self.entropy_bits) {
            Ok(word) => Some(word),
            Err(_) => None,
        }
    }

    /// The final-word picker always has eleven pages of twelve candidates.
    fn final_word_candidate_page_count() -> (pages: usize)
        ensures
            pages == 11,
    {
        (CANDIDATE_COUNT + FINAL_WORD_CANDIDATES_PER_PAGE - 1) / FINAL_WORD_CANDIDATES_PER_PAGE
    }
}

/// Tapping the same entropy bit twice restores the entropy bits.
pub proof fn lemma_toggle_twice_restores_bits(
    a: LastWordFlow,
    b: LastWordFlow,
    c: LastWordFlow,
    bit: i32,
)
    requires
        a.toggles_bit(bit, b),
        b.toggles_bit(bit, c),
    ensures
        c.entropy_bits == a.entropy_bits,
{
    if a.complete() && 0 <= bit < 7 {
        let x = a.entropy_bits;
        let s = bit as u8;
        assert((x ^ (1u8 << s)) ^ (1u8 << s) == x) by (bit_vector)
            requires
                s < 7,
        ;
    }
}

/// Setting a die shows that face on the die and leaves the other die as it
/// was.
pub proof fn lemma_die_face_reads_back(a: LastWordFlow, b: LastWordFlow, die: i32, face: i32)
    requires
        a.complete(),
        a.entropy_bits <= 127,
        a.sets_die_face(die, face, b),
    ensures
        die == 0 && 1 <= face <= 8 ==> b.entropy_bits / 16 + 1 == face && b.entropy_bits % 16
            == a.entropy_bits % 16,
        die == 1 && 1 <= face <= 16 ==> b.entropy_bits % 16 + 1 == face && b.entropy_bits / 16
            == a.entropy_bits / 16,
        b.entropy_bits <= 127,
{
}

/// Choosing a slot of the final-word picker shows the word that the slot
/// was labelled with.
pub proof fn lemma_selected_candidate_is_shown(
    a: LastWordFlow,
    b: LastWordFlow,
    offset: i32,
    chosen: bool,
)
    requires
        a.complete(),
        index_error(a.word_indices@) is None,
        a.selects_final_word(offset, b, chosen),
        chosen,
    ensures
        b.shown_word() == Some(a.final_label(offset as int)),
{
}

/// A page button of the open final-word picker moves exactly one page: back
/// to the previous page (staying on the first), forward to the next page
/// (staying on the last of the eleven); nothing else changes.
pub proof fn lemma_final_word_page_steps(a: LastWordFlow, direction: i32, b: LastWordFlow)
    requires
        a.wf(),
        a.final_word_picker_open,
        a.pages_final_word_picker(direction, b),
    ensures
        direction < 0 && a.final_word_candidate_page > 0 ==> b.final_word_candidate_page + 1
            == a.final_word_candidate_page,
        direction < 0 && a.final_word_candidate_page == 0 ==> b.final_word_candidate_page == 0,
        direction > 0 && a.final_word_candidate_page < 10 ==> b.final_word_candidate_page
            == a.final_word_candidate_page + 1,
        direction > 0 && a.final_word_candidate_page == 10 ==> b.final_word_candidate_page == 10,
        direction == 0 ==> b == a,
        b == (LastWordFlow { final_word_candidate_page: b.final_word_candidate_page, ..a }),
{
}

} // verus!
