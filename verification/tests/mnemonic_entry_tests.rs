use bip39_last_word::mnemonic::{
    CommitFeedback, LastWordFlow, MAX_ENGLISH_PREFIX_LEN, PINYIN_CANDIDATES_PER_PAGE,
};
use bip39_last_word::{
    Error as Bip39Error, PREFIX_WORD_COUNT, simplified_chinese_words_by_pinyin_prefix, word_index,
};

fn enter_word(flow: &mut LastWordFlow, word: &str) {
    for byte in word.bytes().take(MAX_ENGLISH_PREFIX_LEN) {
        flow.push_letter(i32::from(byte - b'a'));
    }
    assert!(flow.selected_word_index().is_some());
    flow.commit_word();
}

#[test]
fn entry_permits_exact_short_words_and_keeps_indices_only() {
    let mut flow = LastWordFlow::default();
    for byte in b"act" {
        flow.push_letter(i32::from(*byte - b'a'));
    }

    assert_eq!(flow.selected_word_index(), word_index("act"));
    assert!(!flow.commit_word());
    assert_eq!(flow.word_indices[0], word_index("act").unwrap());
}

#[test]
fn entry_makes_an_impossible_next_letter_explicit() {
    let mut flow = LastWordFlow::default();
    flow.push_letter(0); // a
    flow.push_letter(0); // aa is not a BIP39 word prefix

    assert_eq!(flow.prefix_text(), "a");
    assert!(flow.last_letter_was_rejected);
    assert!(flow.message().contains("No BIP39 word"));

    flow.push_letter(1); // ab is a valid prefix, for example "abandon"
    assert_eq!(flow.prefix_text(), "ab");
    assert!(!flow.last_letter_was_rejected);
}

#[test]
fn entry_enables_only_letters_that_can_continue_the_current_prefix() {
    let mut flow = LastWordFlow::default();

    // At the start of a word, only BIP39 initial letters are offered.
    let initial = flow.next_letter_enabled();
    assert!(initial[usize::from(b'a' - b'a')]);
    assert!(!initial[usize::from(b'x' - b'a')]);

    // "aba" can only be continued as "aban..." in the English list.
    for byte in b"aba" {
        flow.push_letter(i32::from(*byte - b'a'));
    }
    let after_aba = flow.next_letter_enabled();
    assert!(after_aba[usize::from(b'n' - b'a')]);
    assert_eq!(after_aba.into_iter().filter(|enabled| *enabled).count(), 1);

    // Four letters are sufficient to identify a BIP39 word, so the UI
    // stops accepting more letters and makes the user confirm or edit.
    flow.push_letter(i32::from(b'n' - b'a'));
    assert!(flow.next_letter_enabled().into_iter().all(|enabled| !enabled));
}

#[test]
fn entry_use_word_explains_an_unfinished_or_ambiguous_entry() {
    let mut flow = LastWordFlow::default();

    assert!(!flow.commit_word());
    assert_eq!(flow.commit_feedback, CommitFeedback::EnterLetters);
    assert!(flow.message().contains("Enter a BIP39 word"));

    flow.push_letter(0); // a has many BIP39 matches
    assert!(!flow.commit_word());
    assert!(matches!(flow.commit_feedback, CommitFeedback::MoreMatches { count } if count > 1));
    assert!(flow.message().contains("matching words remain"));
}

#[test]
fn entry_the_eleventh_confirmation_completes_the_prefix() {
    let mut flow = LastWordFlow::default();
    for _ in 0..(PREFIX_WORD_COUNT - 1) {
        enter_word(&mut flow, "abandon");
    }

    for byte in b"aban" {
        flow.push_letter(i32::from(*byte - b'a'));
    }
    assert!(flow.commit_word());
    assert!(flow.is_complete());
}

#[test]
fn entry_loading_indices_replaces_the_prefix_and_clears_entropy() {
    let mut flow = LastWordFlow::default();
    flow.word_indices[0] = 123;
    flow.word_count = 1;
    flow.prefix[..3].copy_from_slice(b"act");
    flow.prefix_len = 3;
    flow.entropy_bits = 0b101_0101;
    flow.entropy_confirmed = true;

    let indices = core::array::from_fn(|position| position as u16);
    assert_eq!(flow.load_word_indices(indices), Ok(()));

    assert_eq!(flow.word_indices, indices);
    assert!(flow.is_complete());
    assert_eq!(flow.prefix_text(), "");
    assert_eq!(flow.entropy_bits, 0);
    assert!(!flow.entropy_confirmed);
    assert_eq!(flow.candidate_word(), None);
}

#[test]
fn loading_indices_clears_rejected_letter_feedback() {
    let mut flow = LastWordFlow::default();
    flow.push_letter(0); // a
    flow.push_letter(0); // aa is not a BIP39 word prefix
    assert!(flow.last_letter_was_rejected);

    let indices = core::array::from_fn(|position| position as u16);
    assert_eq!(flow.load_word_indices(indices), Ok(()));

    assert!(!flow.last_letter_was_rejected);
    assert!(!flow.message().contains("No BIP39 word"));
}

#[test]
fn entry_invalid_loaded_index_does_not_partially_replace_the_prefix() {
    let mut flow = LastWordFlow::default();
    flow.word_indices[0] = 123;
    flow.word_count = 1;
    flow.prefix[..3].copy_from_slice(b"act");
    flow.prefix_len = 3;

    let mut indices = [0; PREFIX_WORD_COUNT];
    indices[7] = 2048;
    assert_eq!(
        flow.load_word_indices(indices),
        Err(Bip39Error::InvalidWordIndex { position: 7, index: 2048 })
    );

    assert_eq!(flow.word_indices[0], 123);
    assert_eq!(flow.word_count, 1);
    assert_eq!(flow.prefix_text(), "act");
}

#[test]
fn pinyin_picker_commits_the_selected_chinese_word_index() {
    let mut flow = LastWordFlow::default();
    flow.select_language(1);
    for byte in b"xing" {
        flow.push_letter(i32::from(*byte - b'a'));
    }

    assert!(flow.open_pinyin_candidate_picker());
    let matches = simplified_chinese_words_by_pinyin_prefix("xing");
    let candidate_position = (0..matches.len())
        .find(|position| matches.word_index_at(*position) == Some(56))
        .expect("pinyin alias must include BIP39 index 56");
    flow.pinyin_candidate_page = candidate_position / PINYIN_CANDIDATES_PER_PAGE;
    assert!(flow.pinyin_candidate_labels().iter().any(|label| label == "\u{884c}"));

    assert!(!flow.select_pinyin_candidate(
        i32::try_from(candidate_position % PINYIN_CANDIDATES_PER_PAGE)
            .expect("candidate offset fits in i32")
    ));
    assert_eq!(flow.word_indices[0], 56);
    assert_eq!(flow.word_count, 1);
    assert_eq!(flow.prefix_text(), "");
    assert!(!flow.is_pinyin_candidate_picker_open());
}

#[test]
fn language_choice_hides_until_reset() {
    let mut flow = LastWordFlow::default();
    assert!(flow.is_language_selection_visible());

    flow.select_language(0);
    assert!(!flow.is_language_selection_visible());

    flow.reset();
    assert!(flow.is_language_selection_visible());
    assert_eq!(flow.language_index(), 0);

    flow.push_letter(0);
    assert!(!flow.is_language_selection_visible());
}

#[test]
fn switching_language_starts_over_and_keeps_the_choice() {
    let mut flow = LastWordFlow::default();
    enter_word(&mut flow, "act");
    flow.select_language(1);
    assert_eq!(flow.language_index(), 1);
    assert_eq!(flow.word_count, 0);
    assert!(!flow.is_language_selection_visible());
    flow.select_language(7);
    assert_eq!(flow.language_index(), 1);
    flow.reset();
    assert_eq!(flow.language_index(), 1);
    assert!(flow.is_language_selection_visible());
}

#[test]
fn pinyin_picker_pages_and_labels() {
    let mut flow = LastWordFlow::default();
    flow.select_language(1);
    assert_eq!(flow.entry_text(), "Type pinyin to find a Simplified Chinese BIP39 word.");
    for byte in b"xi" {
        flow.push_letter(i32::from(*byte - b'a'));
    }
    let count = flow.prefix_match_count();
    assert!(count > PINYIN_CANDIDATES_PER_PAGE);
    assert_eq!(flow.selected_word_index(), None);
    assert!(flow.can_commit_or_choose());
    assert_eq!(
        flow.entry_text(),
        format!("{count} Chinese matches - tap Use word to choose.")
    );
    assert!(!flow.commit_word());
    assert_eq!(flow.message(), format!("Choose one of {count} Chinese BIP39 words."));
    assert!(flow.open_pinyin_candidate_picker());
    assert_eq!(flow.commit_feedback, CommitFeedback::Clear);
    let pages = count.div_ceil(PINYIN_CANDIDATES_PER_PAGE);
    assert_eq!(flow.pinyin_candidate_page_label(), format!("1 / {pages}"));
    assert!(!flow.has_previous_pinyin_candidate_page());
    assert!(flow.has_next_pinyin_candidate_page());
    flow.change_pinyin_candidate_page(-1);
    assert_eq!(flow.pinyin_candidate_page, 0);
    for _ in 0..(pages + 3) {
        flow.change_pinyin_candidate_page(1);
    }
    assert_eq!(flow.pinyin_candidate_page, pages - 1);
    assert!(!flow.has_next_pinyin_candidate_page());
    let labels = flow.pinyin_candidate_labels();
    assert_eq!(labels.len(), PINYIN_CANDIDATES_PER_PAGE);
    assert!(!labels[0].is_empty());
    flow.close_pinyin_candidate_picker();
    assert!(!flow.is_pinyin_candidate_picker_open());
    assert!(!flow.select_pinyin_candidate(0));
    assert_eq!(flow.word_count, 0);
}

#[test]
fn english_has_no_pinyin_labels_and_chinese_offers_pinyin_initials() {
    let flow = LastWordFlow::default();
    assert!(flow.pinyin_candidate_labels().iter().all(|label| label.is_empty()));
    assert_eq!(flow.pinyin_candidate_page_label(), "1 / 342");
    let mut flow = LastWordFlow::default();
    flow.select_language(1);
    let initials = flow.next_letter_enabled();
    assert!(initials[usize::from(b'x' - b'a')]);
    assert!(!initials[usize::from(b'v' - b'a')]);
}

#[test]
fn backspace_removes_a_letter_then_a_word() {
    let mut flow = LastWordFlow::default();
    enter_word(&mut flow, "act");
    enter_word(&mut flow, "zoo");
    flow.push_letter(0);
    assert_eq!(flow.prefix_text(), "a");
    flow.backspace();
    assert_eq!(flow.prefix_text(), "");
    assert_eq!(flow.word_count, 2);
    flow.backspace();
    assert_eq!(flow.word_count, 1);
    assert_eq!(flow.confirmed_words_text(), "act");
    assert_eq!(flow.word_indices[1], 0);
}

fn typed_flow(language: i32, letters: &str) -> LastWordFlow {
    let mut flow = LastWordFlow::default();
    flow.select_language(language);
    for byte in letters.bytes() {
        flow.push_letter(i32::from(byte - b'a'));
    }
    assert_eq!(flow.prefix_text(), letters);
    flow
}

#[test]
fn offered_letters_are_exactly_the_accepted_letters() {
    for (language, letters) in [(0, ""), (0, "a"), (0, "ab"), (0, "zo"), (0, "wor"), (1, ""), (1, "x"), (1, "zh"), (1, "xian")] {
        let enabled = typed_flow(language, letters).next_letter_enabled();
        assert!(enabled.iter().any(|offered| *offered));
        for key in 0..26 {
            let mut flow = typed_flow(language, letters);
            flow.push_letter(key);
            let accepted = flow.prefix_text().len() == letters.len() + 1;
            assert_eq!(accepted, enabled[key as usize], "{language} {letters} {key}");
            assert_eq!(flow.last_letter_was_rejected, !accepted);
        }
    }
}
