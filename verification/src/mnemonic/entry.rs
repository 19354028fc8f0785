//! Word entry: typed letters, the pinyin picker and accepted word indices.

use super::{
    CommitFeedback, LastWordFlow, MAX_ENGLISH_PREFIX_LEN, MAX_WORD_PREFIX_LEN,
    PINYIN_CANDIDATES_PER_PAGE, lemma_shorter_prefix_matches, match_count, prefix_limit,
    selected_index, some_word_matches,
};
use crate::chinese::{
    chinese_word_indices, matches_prefix, simplified_chinese_next_pinyin_letters,
    simplified_chinese_words_by_pinyin_prefix,
};
use crate::last_word::{
    Error, MnemonicLanguage, PREFIX_WORD_COUNT, english_word_bytes, index_error,
    lemma_index_error_at, lemma_index_error_none_valid, lemma_prefix_range, prefix_range_end,
    prefix_range_start, spec_word, word_for_index_in, word_index, words_by_prefix,
};
use crate::text::{
    all_lowercase, decimal, lemma_lowercase_is_utf8, lemma_starts_with_push,
    lemma_valid_utf8_push_ascii, push_decimal, push_str, starts_with,
    str_from_utf8, string_from, text_or_empty,
};
use vstd::prelude::*;
use vstd::slice::slice_subrange;
use vstd::string::StringSliceAdditionalSpecFns;
use vstd::utf8::{decode_utf8, encode_utf8_decode_utf8, valid_utf8};

verus! {

/// The letter a key of the on-screen keyboard stands for (key 0 is `a`).
pub open spec fn key_letter(key: i32) -> u8 {
    (97 + key) as u8
}

impl LastWordFlow {
    /// The typed bytes after the letter of `key` is appended.
    pub open spec fn typed_with(&self, key: i32) -> Seq<u8> {
        self.prefix@.update(self.prefix_len as int, key_letter(key)).take(self.prefix_len + 1)
    }

    /// Whether a tap on `key` is ignored outright: all words are present,
    /// the entry is full, the key is no letter, or the bytes are no text.
    pub open spec fn letter_ignored(&self, key: i32) -> bool {
        ||| self.complete()
        ||| self.prefix_len == prefix_limit(self.language)
        ||| key < 0
        ||| key >= 26
        ||| !valid_utf8(self.typed_with(key))
    }

    /// This flow with the entry feedback cleared and the pinyin picker
    /// closed on its first page.
    pub open spec fn entry_feedback_cleared(&self) -> LastWordFlow {
        LastWordFlow {
            last_letter_was_rejected: false,
            commit_feedback: CommitFeedback::Clear,
            pinyin_candidate_page: 0,
            pinyin_candidate_picker_open: false,
            ..*self
        }
    }

    /// `new` is this flow after a tap on `key`: an ignored key changes
    /// nothing, a letter that no word continues with is refused and flagged,
    /// and any other letter is appended.
    pub open spec fn pushes_letter(&self, key: i32, new: LastWordFlow) -> bool {
        if self.letter_ignored(key) {
            new == *self
        } else if match_count(self.language, self.typed_with(key)) == 0 {
            new == (LastWordFlow { last_letter_was_rejected: true, ..*self })
        } else {
            &&& new.prefix@ == self.prefix@.update(self.prefix_len as int, key_letter(key))
            &&& new == (LastWordFlow {
                prefix: new.prefix,
                prefix_len: (self.prefix_len + 1) as usize,
                language_selected: true,
                ..self.entry_feedback_cleared()
            })
        }
    }

    /// `new` is this flow after a backspace: the last letter goes, or when
    /// no letter is typed the last accepted word goes with the entropy choice.
    pub open spec fn backspaced(&self, new: LastWordFlow) -> bool {
        if self.prefix_len > 0 {
            &&& new.prefix@ == self.prefix@.update(self.prefix_len - 1, 0u8)
            &&& new == (LastWordFlow {
                prefix: new.prefix,
                prefix_len: (self.prefix_len - 1) as usize,
                ..self.entry_feedback_cleared()
            })
        } else if self.word_count > 0 {
            &&& new.word_indices@ == self.word_indices@.update(self.word_count - 1, 0u16)
            &&& new == (LastWordFlow {
                word_indices: new.word_indices,
                word_count: (self.word_count - 1) as usize,
                entropy_bits: 0,
                entropy_confirmed: false,
                final_word_candidate_page: 0,
                final_word_picker_open: false,
                ..self.entry_feedback_cleared()
            })
        } else {
            new == self.entry_feedback_cleared()
        }
    }

    /// `new` is this flow after word `index` was accepted: the index is
    /// appended, the entry is emptied, and the entropy choice starts over
    /// (already confirmed at zero once all eleven words are present).
    pub open spec fn accepts(&self, index: u16, new: LastWordFlow) -> bool {
        &&& new.word_indices@ == self.word_indices@.update(self.word_count as int, index)
        &&& new.prefix@ == Seq::new(6, |i: int| 0u8)
        &&& new == (LastWordFlow {
            word_indices: new.word_indices,
            prefix: new.prefix,
            word_count: (self.word_count + 1) as usize,
            prefix_len: 0,
            entropy_bits: 0,
            entropy_confirmed: self.word_count + 1 == PREFIX_WORD_COUNT,
            final_word_candidate_page: 0,
            final_word_picker_open: false,
            ..self.entry_feedback_cleared()
        })
    }

    /// Whether the pinyin picker can open: Chinese letters that match
    /// several words.
    pub open spec fn can_open_picker(&self) -> bool {
        &&& self.language == MnemonicLanguage::SimplifiedChinese
        &&& self.typed().len() > 0
        &&& selected_index(self.language, self.typed()) is None
        &&& match_count(self.language, self.typed()) > 0
    }

    /// `new` is this flow after `Use word`, and `completed` what it returned:
    /// a complete prefix stays as it is; no letters, or letters that match
    /// several words, are reported; otherwise the selected word is accepted.
    pub open spec fn commits_word(&self, new: LastWordFlow, completed: bool) -> bool {
        let p = self.typed();
        if self.complete() {
            completed && new == *self
        } else if p.len() == 0 {
            !completed && new == (LastWordFlow {
                commit_feedback: CommitFeedback::EnterLetters,
                ..*self
            })
        } else {
            match selected_index(self.language, p) {
                None => !completed && new == (LastWordFlow {
                    commit_feedback: CommitFeedback::MoreMatches {
                        count: match_count(self.language, p) as usize,
                    },
                    ..*self
                }),
                Some(index) => self.accepts(index, new) && completed == (self.word_count + 1
                    == PREFIX_WORD_COUNT),
            }
        }
    }

    /// `new` is this flow after slot `offset` of the pinyin picker was
    /// tapped, and `completed` what the call returned.
    pub open spec fn selects_pinyin_candidate(&self, offset: i32, new: LastWordFlow, completed: bool) -> bool {
        let ids = chinese_word_indices(self.typed());
        let position = self.pinyin_candidate_page * 6 + offset;
        if !self.pinyin_candidate_picker_open || offset < 0 || offset >= 6 || position
            >= ids.len() {
            !completed && new == *self
        } else {
            self.accepts(ids[position], new) && completed == (self.word_count + 1
                == PREFIX_WORD_COUNT)
        }
    }

    /// `new` is this flow after language button `language` (0 English, 1
    /// Simplified Chinese; other values are ignored): a different language
    /// starts the flow over, and either way the language prompt is hidden.
    pub open spec fn selects_language(&self, language: i32, new: LastWordFlow) -> bool {
        if language != 0 && language != 1 {
            new == *self
        } else {
            let chosen = if language == 0 {
                MnemonicLanguage::English
            } else {
                MnemonicLanguage::SimplifiedChinese
            };
            if chosen == self.language {
                new == (LastWordFlow { language_selected: true, ..*self })
            } else {
                new.fresh(chosen, true)
            }
        }
    }

    /// `new` is this flow after a page button of the pinyin picker: the open
    /// picker moves one page back (`direction < 0`) or forward
    /// (`direction > 0`) within its pages.
    pub open spec fn pages_pinyin_picker(&self, direction: i32, new: LastWordFlow) -> bool {
        new == if !self.pinyin_candidate_picker_open || self.pinyin_page_count() == 0 || direction
            == 0 {
            *self
        } else if direction < 0 {
            LastWordFlow {
                pinyin_candidate_page: if self.pinyin_candidate_page > 0 {
                    (self.pinyin_candidate_page - 1) as usize
                } else {
                    0
                },
                ..*self
            }
        } else {
            LastWordFlow {
                pinyin_candidate_page: if self.pinyin_candidate_page + 1 < self.pinyin_page_count() {
                    (self.pinyin_candidate_page + 1) as usize
                } else {
                    (self.pinyin_page_count() - 1) as usize
                },
                ..*self
            }
        }
    }

    /// The number of pages of the pinyin picker.
    pub open spec fn pinyin_page_count(&self) -> nat {
        (match_count(self.language, self.typed()) + 5) / 6
    }

    /// The label of slot `k` of the pinyin picker page: the Chinese word at
    /// that candidate position, or nothing.
    pub open spec fn pinyin_label(&self, k: int) -> Seq<char> {
        let ids = chinese_word_indices(self.typed());
        let position = self.pinyin_candidate_page * 6 + k;
        if self.language == MnemonicLanguage::SimplifiedChinese && position < ids.len() {
            spec_word(MnemonicLanguage::SimplifiedChinese, ids[position] as int)
        } else {
            Seq::empty()
        }
    }

    /// Whether letter `c` (0 is `a`) can continue the entry: some English
    /// word that starts with the typed letters has it next, or some pinyin
    /// spelling that starts with them does.
    pub open spec fn next_letter(&self, c: int) -> bool {
        let p = self.typed();
        if self.complete() || self.prefix_len == prefix_limit(self.language) {
            false
        } else {
            match self.language {
                MnemonicLanguage::English => exists|j: int|
                    0 <= j < 2048 && starts_with(english_word_bytes(j), p)
                        && english_word_bytes(j).len() > self.prefix_len
                        && #[trigger] english_word_bytes(j)[self.prefix_len as int] == 97 + c,
                MnemonicLanguage::SimplifiedChinese => exists|x: (Seq<u8>, u16)|
                    #[trigger] matches_prefix(x, p) && all_lowercase(p) && x.0.len() > p.len()
                        && x.0[p.len() as int] == 97 + c,
            }
        }
    }

    /// Switches the word list: `0` is English, `1` Simplified Chinese, other
    /// values are ignored. A different language starts the flow over; either
    /// way the language prompt is hidden.
    pub fn select_language(&mut self, language: i32)
        requires
            old(self).wf(),
        ensures
            final(self).wf(),
            old(self).selects_language(language, *final(self)),
    {
        let language = match language {
            0 => MnemonicLanguage::English,
            1 => MnemonicLanguage::SimplifiedChinese,
            _ => return ,
        };
        if !(self.language == language) {
            *self = Self::fresh_for(language);
        }
        self.language_selected = true;
    }

    /// The language as the selector numbers it: English 0, Chinese 1.
    pub fn language_index(&self) -> (index: i32)
        ensures
            index == self.language@,
    {
        match self.language {
            MnemonicLanguage::English => 0,
            MnemonicLanguage::SimplifiedChinese => 1,
        }
    }

    /// Whether the language prompt is still shown.
    pub fn is_language_selection_visible(&self) -> (visible: bool)
        ensures
            visible == !self.language_selected,
    {
        !self.language_selected
    }

    /// Handles a tap on letter key `key` (0 is `a`): a letter that some word
    /// continues with is appended; another letter is refused, and the refusal
    /// is shown so it is not taken for a missed tap. A tap that is not
    /// ignored outright appends the letter exactly when `next_letter_enabled`
    /// offers it.
    pub fn push_letter(&mut self, key: i32)
        requires
            old(self).wf(),
        ensures
            final(self).wf(),
            old(self).pushes_letter(key, *final(self)),
            0 <= key < 26 && !old(self).complete() && old(self).prefix_len != prefix_limit(
                old(self).language,
            ) ==> (final(self).prefix_len == old(self).prefix_len + 1
                <==> old(self).next_letter(key as int)),
    {
        if self.word_count == PREFIX_WORD_COUNT || self.prefix_len == self.prefix_len_limit() {
            return ;
        }
        if key < 0 || key >= 26 {
            return ;
        }
        let letter: u8 = 97 + key as u8;
        let mut candidate_prefix = self.prefix;
        candidate_prefix[self.prefix_len] = letter;
        let candidate_len = self.prefix_len + 1;
        let candidate_bytes = slice_subrange(candidate_prefix.as_slice(), 0, candidate_len);
        proof {
            assert(candidate_bytes@ =~= self.typed_with(key));
            let taken = self.prefix@.take(self.prefix_len as int);
            lemma_lowercase_is_utf8(taken);
            if valid_utf8(taken) {
                lemma_valid_utf8_push_ascii(taken, letter);
                assert(self.typed_with(key) =~= taken.push(letter));
            }
        }
        let candidate = match str_from_utf8(candidate_bytes) {
            Some(text) => text,
            None => return ,
        };
        let count = self.prefix_match_count_for(candidate);
        proof {
            if valid_utf8(self.prefix@.take(self.prefix_len as int)) {
                lemma_offered_iff_some_word_matches(*self, key);
            }
        }
        if count == 0 {
            self.last_letter_was_rejected = true;
            return ;
        }
        proof {
            let before = self.prefix@.take(self.prefix_len as int);
            let now = candidate_prefix@.take(candidate_len as int);
            assert forall|i: int| 0 <= i < now.len() implies 97 <= #[trigger] now[i] <= 122 by {
                if i < self.prefix_len {
                    assert(now[i] == before[i]);
                }
            }
        }
        self.prefix = candidate_prefix;
        self.prefix_len = candidate_len;
        self.language_selected = true;
        self.last_letter_was_rejected = false;
        self.commit_feedback = CommitFeedback::Clear;
        self.pinyin_candidate_page = 0;
        self.pinyin_candidate_picker_open = false;
    }

    /// Removes the last typed letter, or with no letter typed the last
    /// accepted word (which also resets the entropy choice).
    pub fn backspace(&mut self)
        requires
            old(self).wf(),
        ensures
            final(self).wf(),
            old(self).backspaced(*final(self)),
    {
        self.last_letter_was_rejected = false;
        self.commit_feedback = CommitFeedback::Clear;
        self.pinyin_candidate_page = 0;
        self.pinyin_candidate_picker_open = false;
        if self.prefix_len > 0 {
            let ghost before = self.prefix@.take(self.prefix_len as int);
            self.prefix_len = self.prefix_len - 1;
            self.prefix[self.prefix_len] = 0;
            proof {
                let now = self.prefix@.take(self.prefix_len as int);
                assert forall|i: int| 0 <= i < now.len() implies 97 <= #[trigger] now[i] <= 122 by {
                    assert(now[i] == before[i]);
                }
                assert(now =~= before.drop_last());
                lemma_shorter_prefix_matches(self.language, before);
            }
            return ;
        }
        if self.word_count > 0 {
            self.word_count = self.word_count - 1;
            self.word_indices[self.word_count] = 0;
            self.clear_entropy();
        }
    }

    /// Handles `Use word`: accepts the selected word and returns whether all
    /// eleven words are now present. Without letters, or with letters that
    /// still match several words, it records why and returns `false`.
    pub fn commit_word(&mut self) -> (completed: bool)
        requires
            old(self).wf(),
        ensures
            final(self).wf(),
            old(self).commits_word(*final(self), completed),
    {
        if self.word_count == PREFIX_WORD_COUNT {
            return true;
        }
        let typed_len = self.prefix_text().len();
        if typed_len == 0 {
            self.commit_feedback = CommitFeedback::EnterLetters;
            return false;
        }
        match self.selected_word_index() {
            None => {
                let count = self.prefix_match_count();
                self.commit_feedback = CommitFeedback::MoreMatches { count };
                false
            },
            Some(index) => {
                self.accept_word_index(index);
                self.word_count == PREFIX_WORD_COUNT
            },
        }
    }

    /// Starts the flow over in the same language.
    pub fn reset(&mut self)
        ensures
            final(self).wf(),
            final(self).fresh(old(self).language, false),
    {
        *self = Self::fresh_for(self.language);
    }

    /// Replaces the complete eleven-word prefix only after every index has
    /// been checked, so an invalid input cannot partially change it. The
    /// entropy choice starts over unconfirmed.
    pub fn load_word_indices(&mut self, word_indices: [u16; PREFIX_WORD_COUNT]) -> (result: Result<
        (),
        Error,
    >)
        requires
            old(self).wf(),
        ensures
            final(self).wf(),
            match index_error(word_indices@) {
                Some(e) => result == Err::<(), Error>(e) && *final(self) == *old(self),
                None => {
                    &&& result is Ok
                    &&& final(self).word_indices@ == word_indices@
                    &&& final(self).prefix@ == Seq::new(6, |i: int| 0u8)
                    &&& *final(self) == (LastWordFlow {
                        word_indices: final(self).word_indices,
                        prefix: final(self).prefix,
                        word_count: PREFIX_WORD_COUNT,
                        language_selected: true,
                        prefix_len: 0,
                        entropy_bits: 0,
                        entropy_confirmed: false,
                        final_word_candidate_page: 0,
                        final_word_picker_open: false,
                        ..old(self).entry_feedback_cleared()
                    })
                },
            },
    {
        let mut position: usize = 0;
        while position < PREFIX_WORD_COUNT
            invariant
                position <= PREFIX_WORD_COUNT,
                *self == *old(self),
                old(self).wf(),
                forall|q: int| 0 <= q < position ==> #[trigger] word_indices@[q] < 2048,
            decreases PREFIX_WORD_COUNT - position,
        {
            let index = word_indices[position];
            if word_for_index_in(self.language, index).is_none() {
                proof {
                    lemma_index_error_at(word_indices@, position as int);
                }
                return Err(Error::InvalidWordIndex { position, index });
            }
            position = position + 1;
        }
        proof {
            lemma_index_error_none_valid(word_indices@);
        }
        self.word_indices = word_indices;
        self.word_count = PREFIX_WORD_COUNT;
        self.language_selected = true;
        self.prefix = [0u8; MAX_WORD_PREFIX_LEN];
        self.prefix_len = 0;
        self.last_letter_was_rejected = false;
        self.commit_feedback = CommitFeedback::Clear;
        self.pinyin_candidate_page = 0;
        self.pinyin_candidate_picker_open = false;
        self.entropy_bits = 0;
        self.entropy_confirmed = false;
        self.final_word_candidate_page = 0;
        self.final_word_picker_open = false;
        proof {
            assert(self.prefix@ =~= Seq::new(6, |i: int| 0u8));
        }
        Ok(())
    }

    /// Whether all eleven words have been accepted.
    pub fn is_complete(&self) -> (complete: bool)
        ensures
            complete == self.complete(),
    {
        self.word_count == PREFIX_WORD_COUNT
    }

    /// The typed letters as text (empty when they are no valid UTF-8).
    pub fn prefix_text(&self) -> (text: &str)
        requires
            self.wf(),
        ensures
            text.spec_bytes() == self.typed(),
            text@ == decode_utf8(self.typed()),
    {
        let bytes = slice_subrange(self.prefix.as_slice(), 0, self.prefix_len);
        let text = text_or_empty(bytes);
        proof {
            assert(bytes@ =~= self.prefix@.take(self.prefix_len as int));
            encode_utf8_decode_utf8(text@);
        }
        text
    }

    /// The word that `Use word` would accept without a picker.
    pub fn selected_word_index(&self) -> (index: Option<u16>)
        requires
            self.wf(),
        ensures
            index == selected_index(self.language, self.typed()),
            index matches Some(i) ==> i < 2048,
    {
        let prefix = self.prefix_text();
        if prefix.len() == 0 {
            return None;
        }
        match self.language {
            MnemonicLanguage::English => {
                if let Some(index) = word_index(prefix) {
                    return Some(index);
                }
                let matches = words_by_prefix(prefix);
                if matches.len() == 1 {
                    word_index(matches[0])
                } else {
                    None
                }
            },
            MnemonicLanguage::SimplifiedChinese => {
                let matches = simplified_chinese_words_by_pinyin_prefix(prefix);
                if matches.len() == 1 {
                    matches.word_index_at(0)
                } else {
                    None
                }
            },
        }
    }

    /// Whether `Use word` can accept a word or open the pinyin picker.
    pub fn can_commit_or_choose(&self) -> (possible: bool)
        requires
            self.wf(),
        ensures
            possible == (selected_index(self.language, self.typed()) is Some
                || self.can_open_picker()),
    {
        self.selected_word_index().is_some() || self.can_open_pinyin_candidate_picker()
    }

    /// Returns the letters that can extend the current entry to a BIP39
    /// word: English by word spelling, Simplified Chinese by pinyin. None is
    /// offered once all words are present or the entry is full.
    pub fn next_letter_enabled(&self) -> (enabled: [bool; 26])
        requires
            self.wf(),
        ensures
            forall|c: int| 0 <= c < 26 ==> #[trigger] enabled@[c] == self.next_letter(c),
    {
        if self.word_count == PREFIX_WORD_COUNT || self.prefix_len == self.prefix_len_limit() {
            let enabled = [false; 26];
            proof {
                assert forall|c: int| 0 <= c < 26 implies #[trigger] enabled@[c]
                    == self.next_letter(c) by {
                    assert(!enabled@[c]);
                }
            }
            return enabled;
        }
        match self.language {
            MnemonicLanguage::English => {
                let prefix = self.prefix_text();
                let ghost p = self.typed();
                let words = words_by_prefix(prefix);
                proof {
                    lemma_prefix_range(p);
                }
                let ghost start = prefix_range_start(p);
                let plen = self.prefix_len;
                let mut enabled = [false; 26];
                let mut i: usize = 0;
                while i < words.len()
                    invariant
                        i <= words@.len(),
                        words@.len() == prefix_range_end(p) - start,
                        forall|k: int|
                            0 <= k < words@.len() ==> #[trigger] words@[k]@ == spec_word(
                                MnemonicLanguage::English,
                                start + k,
                            ),
                        forall|c: int|
                            0 <= c < 26 ==> (#[trigger] enabled@[c] <==> exists|j: int|
                                start <= j < start + i && english_word_bytes(j).len() > plen
                                    && #[trigger] english_word_bytes(j)[plen as int] == 97 + c),
                    decreases words@.len() - i,
                {
                    let word = words[i].as_bytes();
                    let ghost j0 = start + i;
                    proof {
                        assert(word@ == english_word_bytes(j0));
                    }
                    let ghost before = enabled@;
                    if plen < word.len() {
                        let next = word[plen];
                        if next >= 97 && next <= 122 {
                            enabled[(next - 97) as usize] = true;
                        }
                    }
                    proof {
                        assert forall|c: int| 0 <= c < 26 implies (#[trigger] enabled@[c]
                            <==> exists|j: int|
                            start <= j < start + i + 1 && english_word_bytes(j).len() > plen
                                && #[trigger] english_word_bytes(j)[plen as int] == 97 + c) by {
                            if enabled@[c] && !before[c] {
                                assert(english_word_bytes(j0)[plen as int] == 97 + c);
                            }
                            if before[c] {
                                let j = choose|j: int|
                                    start <= j < start + i && english_word_bytes(j).len() > plen
                                        && #[trigger] english_word_bytes(j)[plen as int] == 97 + c;
                                assert(start <= j < start + i + 1);
                            }
                            if exists|j: int|
                                start <= j < start + i + 1 && english_word_bytes(j).len() > plen
                                    && #[trigger] english_word_bytes(j)[plen as int] == 97 + c {
                                let j = choose|j: int|
                                    start <= j < start + i + 1 && english_word_bytes(j).len() > plen
                                        && #[trigger] english_word_bytes(j)[plen as int] == 97 + c;
                                if j < start + i {
                                    assert(before[c]);
                                }
                            }
                        }
                    }
                    i = i + 1;
                }
                proof {
                    assert forall|c: int| 0 <= c < 26 implies #[trigger] enabled@[c]
                        == self.next_letter(c) by {
                        if enabled@[c] {
                            let j = choose|j: int|
                                start <= j < start + i && english_word_bytes(j).len() > plen
                                    && #[trigger] english_word_bytes(j)[plen as int] == 97 + c;
                            assert(starts_with(english_word_bytes(j), p));
                        }
                        if self.next_letter(c) {
                            let j = choose|j: int|
                                0 <= j < 2048 && starts_with(english_word_bytes(j), p)
                                    && english_word_bytes(j).len() > plen
                                    && #[trigger] english_word_bytes(j)[plen as int] == 97 + c;
                            assert(start <= j < start + i);
                        }
                    }
                }
                enabled
            },
            MnemonicLanguage::SimplifiedChinese => {
                simplified_chinese_next_pinyin_letters(self.prefix_text())
            },
        }
    }

    /// The six labels of the current pinyin picker page; empty slots (and
    /// every slot in English) are empty strings.
    pub fn pinyin_candidate_labels(&self) -> (labels: Vec<String>)
        requires
            self.wf(),
        ensures
            labels@.len() == PINYIN_CANDIDATES_PER_PAGE,
            forall|k: int| 0 <= k < 6 ==> #[trigger] labels@[k]@ == self.pinyin_label(k),
    {
        let mut labels: Vec<String> = Vec::new();
        if !(self.language == MnemonicLanguage::SimplifiedChinese) {
            let mut k: usize = 0;
            while k < PINYIN_CANDIDATES_PER_PAGE
                invariant
                    k <= 6,
                    labels@.len() == k,
                    self.language != MnemonicLanguage::SimplifiedChinese,
                    forall|j: int| 0 <= j < k ==> #[trigger] labels@[j]@ == self.pinyin_label(j),
                decreases 6 - k,
            {
                labels.push(String::new());
                k = k + 1;
            }
            return labels;
        }
        let matches = simplified_chinese_words_by_pinyin_prefix(self.prefix_text());
        let first = self.pinyin_candidate_page * PINYIN_CANDIDATES_PER_PAGE;
        let mut k: usize = 0;
        while k < PINYIN_CANDIDATES_PER_PAGE
            invariant
                k <= 6,
                labels@.len() == k,
                self.wf(),
                self.language == MnemonicLanguage::SimplifiedChinese,
                first == self.pinyin_candidate_page * 6,
                matches.spec_word_indices() == chinese_word_indices(self.typed()),
                forall|i: int|
                    0 <= i < chinese_word_indices(self.typed()).len() ==> #[trigger] chinese_word_indices(
                        self.typed(),
                    )[i] < 2048,
                forall|j: int| 0 <= j < k ==> #[trigger] labels@[j]@ == self.pinyin_label(j),
            decreases 6 - k,
        {
            let label = match matches.word_index_at(first + k) {
                Some(index) => match word_for_index_in(self.language, index) {
                    Some(word) => string_from(word),
                    None => String::new(),
                },
                None => String::new(),
            };
            labels.push(label);
            k = k + 1;
        }
        labels
    }

    /// Whether the pinyin picker is open.
    pub fn is_pinyin_candidate_picker_open(&self) -> (open: bool)
        ensures
            open == self.pinyin_candidate_picker_open,
    {
        self.pinyin_candidate_picker_open
    }

    /// `page / pages` for the pinyin picker, or nothing when no word matches.
    pub fn pinyin_candidate_page_label(&self) -> (label: String)
        requires
            self.wf(),
        ensures
            label@ == if self.pinyin_page_count() == 0 {
                Seq::empty()
            } else {
                decimal((self.pinyin_candidate_page + 1) as nat) + " / "@ + decimal(
                    self.pinyin_page_count(),
                )
            },
    {
        let page_count = self.pinyin_candidate_page_count();
        let mut label = String::new();
        if page_count == 0 {
            return label;
        }
        push_decimal(&mut label, self.pinyin_candidate_page + 1);
        push_str(&mut label, " / ");
        push_decimal(&mut label, page_count);
        label
    }

    /// Whether the pinyin picker has an earlier page.
    pub fn has_previous_pinyin_candidate_page(&self) -> (previous: bool)
        ensures
            previous == (self.pinyin_candidate_page > 0),
    {
        self.pinyin_candidate_page > 0
    }

    /// Whether the pinyin picker has a later page.
    pub fn has_next_pinyin_candidate_page(&self) -> (next: bool)
        requires
            self.wf(),
        ensures
            next == (self.pinyin_candidate_page + 1 < self.pinyin_page_count()),
    {
        self.pinyin_candidate_page + 1 < self.pinyin_candidate_page_count()
    }

    /// Opens the pinyin picker when Chinese letters match several words.
    pub fn open_pinyin_candidate_picker(&mut self) -> (opened: bool)
        requires
            old(self).wf(),
        ensures
            final(self).wf(),
            opened == old(self).can_open_picker(),
            opened ==> *final(self) == (LastWordFlow {
                pinyin_candidate_picker_open: true,
                commit_feedback: CommitFeedback::Clear,
                ..*old(self)
            }),
            !opened ==> *final(self) == *old(self),
    {
        if !self.can_open_pinyin_candidate_picker() {
            return false;
        }
        self.pinyin_candidate_picker_open = true;
        self.commit_feedback = CommitFeedback::Clear;
        true
    }

    /// Closes the pinyin picker.
    pub fn close_pinyin_candidate_picker(&mut self)
        requires
            old(self).wf(),
        ensures
            final(self).wf(),
            *final(self) == (LastWordFlow { pinyin_candidate_picker_open: false, ..*old(self) }),
    {
        self.pinyin_candidate_picker_open = false;
    }

    /// Moves the open pinyin picker one page back (`direction < 0`) or
    /// forward (`direction > 0`), staying within its pages.
    pub fn change_pinyin_candidate_page(&mut self, direction: i32)
        requires
            old(self).wf(),
        ensures
            final(self).wf(),
            old(self).pages_pinyin_picker(direction, *final(self)),
    {
        if !self.pinyin_candidate_picker_open {
            return ;
        }
        let page_count = self.pinyin_candidate_page_count();
        if page_count == 0 {
            return ;
        }
        if direction < 0 {
            if self.pinyin_candidate_page > 0 {
                self.pinyin_candidate_page = self.pinyin_candidate_page - 1;
            }
        } else if direction > 0 {
            if self.pinyin_candidate_page + 1 < page_count {
                self.pinyin_candidate_page = self.pinyin_candidate_page + 1;
            } else {
                self.pinyin_candidate_page = page_count - 1;
            }
        }
    }

    /// Accepts the Chinese word in slot `candidate_offset` of the open
    /// picker page; returns whether all eleven words are now present.
    pub fn select_pinyin_candidate(&mut self, candidate_offset: i32) -> (completed: bool)
        requires
            old(self).wf(),
        ensures
            final(self).wf(),
            old(self).selects_pinyin_candidate(candidate_offset, *final(self), completed),
    {
        if !self.pinyin_candidate_picker_open {
            return false;
        }
        if candidate_offset < 0 || candidate_offset >= 6 {
            return false;
        }
        let candidate_position = self.pinyin_candidate_page * PINYIN_CANDIDATES_PER_PAGE
            + candidate_offset as usize;
        let matches = simplified_chinese_words_by_pinyin_prefix(self.prefix_text());
        let index = match matches.word_index_at(candidate_position) {
            Some(index) => index,
            None => return false,
        };
        self.accept_word_index(index);
        self.word_count == PREFIX_WORD_COUNT
    }

    /// The number of words the typed letters match.
    pub fn prefix_match_count(&self) -> (count: usize)
        requires
            self.wf(),
        ensures
            count == match_count(self.language, self.typed()),
            count <= 2048,
            count > 0 <==> some_word_matches(self.language, self.typed()),
            self.prefix_len > 0 ==> count > 0,
    {
        proof {
            lemma_lowercase_is_utf8(self.prefix@.take(self.prefix_len as int));
        }
        self.prefix_match_count_for(self.prefix_text())
    }

    /// How many letters an entry may hold in the language in use.
    fn prefix_len_limit(&self) -> (limit: usize)
        ensures
            limit == prefix_limit(self.language),
    {
        match self.language {
            MnemonicLanguage::English => MAX_ENGLISH_PREFIX_LEN,
            MnemonicLanguage::SimplifiedChinese => MAX_WORD_PREFIX_LEN,
        }
    }

    /// The number of words of the language in use that `prefix` matches.
    fn prefix_match_count_for(&self, prefix: &str) -> (count: usize)
        ensures
            count == match_count(self.language, prefix.spec_bytes()),
            count <= 2048,
            count > 0 <==> some_word_matches(self.language, prefix.spec_bytes()),
    {
        match self.language {
            MnemonicLanguage::English => {
                let words = words_by_prefix(prefix);
                proof {
                    let p = prefix.spec_bytes();
                    lemma_prefix_range(p);
                    if prefix_range_start(p) < 2048 {
                        assert(starts_with(english_word_bytes(prefix_range_start(p)), p));
                    }
                }
                words.len()
            },
            MnemonicLanguage::SimplifiedChinese => {
                simplified_chinese_words_by_pinyin_prefix(prefix).len()
            },
        }
    }

    /// Decides [`LastWordFlow::can_open_picker`].
    fn can_open_pinyin_candidate_picker(&self) -> (possible: bool)
        requires
            self.wf(),
        ensures
            possible == self.can_open_picker(),
    {
        self.language == MnemonicLanguage::SimplifiedChinese && self.prefix_text().len() > 0
            && self.selected_word_index().is_none() && self.prefix_match_count() > 0
    }

    /// The number of pages of the pinyin picker.
    fn pinyin_candidate_page_count(&self) -> (pages: usize)
        requires
            self.wf(),
        ensures
            pages == self.pinyin_page_count(),
            pages <= 342,
    {
        let count = self.prefix_match_count();
        if count % PINYIN_CANDIDATES_PER_PAGE == 0 {
            count / PINYIN_CANDIDATES_PER_PAGE
        } else {
            count / PINYIN_CANDIDATES_PER_PAGE + 1
        }
    }

    /// Appends word `index` and starts the next entry.
    fn accept_word_index(&mut self, index: u16)
        requires
            old(self).wf(),
            old(self).word_count < PREFIX_WORD_COUNT,
        ensures
            final(self).wf(),
            old(self).accepts(index, *final(self)),
    {
        self.word_indices[self.word_count] = index;
        self.word_count = self.word_count + 1;
        self.prefix = [0u8; MAX_WORD_PREFIX_LEN];
        self.prefix_len = 0;
        self.last_letter_was_rejected = false;
        self.commit_feedback = CommitFeedback::Clear;
        self.pinyin_candidate_page = 0;
        self.pinyin_candidate_picker_open = false;
        self.clear_entropy();
        proof {
            assert(self.prefix@ =~= Seq::new(6, |i: int| 0u8));
        }
    }
}

/// With the typed bytes being text and the tap not ignored, letter `key` is
/// offered exactly when some word starts with the typed letters and it.
proof fn lemma_offered_iff_some_word_matches(a: LastWordFlow, key: i32)
    requires
        a.wf(),
        valid_utf8(a.prefix@.take(a.prefix_len as int)),
        !a.letter_ignored(key),
    ensures
        a.next_letter(key as int) == some_word_matches(a.language, a.typed_with(key)),
{
    let p = a.typed();
    let c = key_letter(key);
    assert(p =~= a.prefix@.take(a.prefix_len as int));
    assert(a.prefix_len < a.prefix@.len());
    assert(a.typed_with(key) =~= p.push(c));
    let q = p.push(c);
    assert forall|w: Seq<u8>| #[trigger] starts_with(w, q) <==> (starts_with(w, p) && w.len()
        > p.len() && w[p.len() as int] == c) by {
        lemma_starts_with_push(w, p, c);
    }
    match a.language {
        MnemonicLanguage::English => {
            if a.next_letter(key as int) {
                let j = choose|j: int|
                    0 <= j < 2048 && starts_with(english_word_bytes(j), p)
                        && english_word_bytes(j).len() > a.prefix_len
                        && #[trigger] english_word_bytes(j)[a.prefix_len as int] == 97 + key;
                assert(starts_with(english_word_bytes(j), q));
            }
            if some_word_matches(a.language, q) {
                let j = choose|j: int|
                    0 <= j < 2048 && starts_with(#[trigger] english_word_bytes(j), q);
                assert(starts_with(english_word_bytes(j), p));
                assert(english_word_bytes(j)[a.prefix_len as int] == 97 + key);
            }
        },
        MnemonicLanguage::SimplifiedChinese => {
            assert(all_lowercase(q) == all_lowercase(p)) by {
                if all_lowercase(p) {
                    assert forall|i: int| 0 <= i < q.len() implies 97 <= #[trigger] q[i] <= 122 by {
                        if i < p.len() {
                            assert(q[i] == p[i]);
                        }
                    }
                }
                if all_lowercase(q) {
                    assert forall|i: int| 0 <= i < p.len() implies 97 <= #[trigger] p[i] <= 122 by {
                        assert(q[i] == p[i]);
                    }
                }
            }
            if a.next_letter(key as int) {
                let x = choose|x: (Seq<u8>, u16)|
                    #[trigger] matches_prefix(x, p) && all_lowercase(p) && x.0.len() > p.len()
                        && x.0[p.len() as int] == 97 + key;
                assert(matches_prefix(x, q));
            }
            if some_word_matches(a.language, q) {
                let x = choose|x: (Seq<u8>, u16)| #[trigger] matches_prefix(x, q);
                assert(starts_with(x.0, q));
                assert(matches_prefix(x, p));
            }
        },
    }
}

/// Backspace right after an accepted letter removes exactly that letter:
/// the typed text, the accepted words and the entropy choice are as before.
pub proof fn lemma_backspace_undoes_letter(
    a: LastWordFlow,
    b: LastWordFlow,
    c: LastWordFlow,
    key: i32,
)
    requires
        a.wf(),
        a.pushes_letter(key, b),
        b.prefix_len == a.prefix_len + 1,
        b.backspaced(c),
    ensures
        c.typed() == a.typed(),
        c.prefix_len == a.prefix_len,
        c.word_indices == a.word_indices,
        c.word_count == a.word_count,
        c.entropy_bits == a.entropy_bits,
        c.entropy_confirmed == a.entropy_confirmed,
        c.language == a.language,
{
    assert(c.prefix@.take(a.prefix_len as int) =~= a.prefix@.take(a.prefix_len as int));
}

/// Backspace right after a word was accepted forgets exactly that word: the
/// earlier words stay, and the entropy choice is unconfirmed.
pub proof fn lemma_backspace_undoes_word(
    a: LastWordFlow,
    b: LastWordFlow,
    c: LastWordFlow,
    index: u16,
)
    requires
        a.wf(),
        a.word_count < PREFIX_WORD_COUNT,
        a.accepts(index, b),
        b.backspaced(c),
    ensures
        c.word_count == a.word_count,
        c.word_indices@.take(a.word_count as int) == a.word_indices@.take(a.word_count as int),
        c.prefix_len == 0,
        !c.entropy_confirmed,
        c.language == a.language,
{
    assert(c.word_indices@.take(a.word_count as int) =~= a.word_indices@.take(
        a.word_count as int,
    ));
}

/// Accepting the eleventh word confirms the all-zero entropy bits at once,
/// so the flow shows the final word for entropy zero.
pub proof fn lemma_eleventh_word_shows_zero_entropy_word(
    a: LastWordFlow,
    index: u16,
    b: LastWordFlow,
)
    requires
        a.wf(),
        a.word_count + 1 == PREFIX_WORD_COUNT,
        a.accepts(index, b),
        index_error(b.word_indices@) is None,
    ensures
        b.complete(),
        b.shown_word() == Some(
            spec_word(b.language, crate::last_word::final_index(b.word_indices@, 0) as int),
        ),
{
}

/// A page button of the open pinyin picker moves exactly one page among the
/// pages of six candidates (as many as it takes to hold every match): back
/// to the previous page (staying on the first), forward to the next page
/// (staying on the last); nothing else changes.
pub proof fn lemma_pinyin_page_steps(a: LastWordFlow, direction: i32, b: LastWordFlow)
    requires
        a.wf(),
        a.pinyin_candidate_picker_open,
        a.pages_pinyin_picker(direction, b),
    ensures
        a.pinyin_page_count() * 6 >= match_count(a.language, a.typed()),
        a.pinyin_page_count() * 6 < match_count(a.language, a.typed()) + 6,
        a.pinyin_page_count() == 0 || direction == 0 ==> b == a,
        a.pinyin_page_count() > 0 && direction > 0 && a.pinyin_candidate_page + 1
            < a.pinyin_page_count() ==> b.pinyin_candidate_page == a.pinyin_candidate_page + 1,
        a.pinyin_page_count() > 0 && direction > 0 && a.pinyin_candidate_page + 1
            >= a.pinyin_page_count() ==> b.pinyin_candidate_page + 1 == a.pinyin_page_count(),
        a.pinyin_page_count() > 0 && direction < 0 && a.pinyin_candidate_page > 0
            ==> b.pinyin_candidate_page + 1 == a.pinyin_candidate_page,
        a.pinyin_page_count() > 0 && direction < 0 && a.pinyin_candidate_page == 0
            ==> b.pinyin_candidate_page == 0,
        b == (LastWordFlow { pinyin_candidate_page: b.pinyin_candidate_page, ..a }),
{
}

} // verus!
