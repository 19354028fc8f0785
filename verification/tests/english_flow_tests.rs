use bip39_last_word::english_flow::{LastWordFlow, MAX_WORD_PREFIX_LEN, WORD_LIST_MAX_FONT_SIZE_HUNDREDTHS};
use bip39_last_word::mnemonic::CommitFeedback;
use bip39_last_word::{Error as Bip39Error, PREFIX_WORD_COUNT, word_index};

fn enter_word(flow: &mut LastWordFlow, word: &str) {
    for byte in word.bytes().take(MAX_WORD_PREFIX_LEN) {
        flow.push_letter(i32::from(byte - b'a'));
    }
    assert!(flow.selected_word_index().is_some());
    flow.commit_word();
}

#[test]
fn mnemonic_permits_exact_short_words_and_keeps_indices_only() {
    let mut flow = LastWordFlow::default();
    for byte in b"act" {
        flow.push_letter(i32::from(*byte - b'a'));
    }

    assert_eq!(flow.selected_word_index(), word_index("act"));
    assert!(!flow.commit_word());
    assert_eq!(flow.word_indices[0], word_index("act").unwrap());
}

#[test]
fn mnemonic_keeps_confirmed_words_visible_after_commit() {
    let mut flow = LastWordFlow::default();

    enter_word(&mut flow, "act");

    assert_eq!(flow.confirmed_words_text(), "act");
    assert_eq!(flow.commit_feedback, CommitFeedback::Clear);
}

#[test]
fn mnemonic_shrinks_confirmed_words_to_fit_the_full_prefix() {
    let mut flow = LastWordFlow::default();

    enter_word(&mut flow, "act");
    assert_eq!(flow.confirmed_words_font_size_hundredths(), WORD_LIST_MAX_FONT_SIZE_HUNDREDTHS);

    for _ in 0..(PREFIX_WORD_COUNT - 1) {
        enter_word(&mut flow, "abandon");
    }
    assert_eq!(flow.confirmed_words_font_size_hundredths(), 1_110);
}

#[test]
fn mnemonic_makes_an_impossible_next_letter_explicit() {
    let mut flow = LastWordFlow::default();
    flow.push_letter(0); // a
    flow.push_letter(0); // aa is not a BIP39 word prefix

    assert_eq!(flow.prefix_text(), "a");
    assert!(flow.last_letter_was_rejected);
    assert!(flow.message().contains("No BIP39 word"));

    flow.push_letter(1); // ab is a valid prefix, for example "abandon"
    assert_eq!(flow.prefix_text(), "ab");
    assert!(!flow.last_letter_was_rejected);
}

#[test]
fn mnemonic_enables_only_letters_that_can_continue_the_current_prefix() {
    let mut flow = LastWordFlow::default();

    // At the start of a word, only BIP39 initial letters are offered.
    let initial = flow.next_letter_enabled();
    assert!(initial[usize::from(b'a' - b'a')]);
    assert!(!initial[usize::from(b'x' - b'a')]);

    // "aba" can only be continued as "aban..." in the English list.
    for byte in b"aba" {
        flow.push_letter(i32::from(*byte - b'a'));
    }
    let after_aba = flow.next_letter_enabled();
    assert!(after_aba[usize::from(b'n' - b'a')]);
    assert_eq!(after_aba.into_iter().filter(|enabled| *enabled).count(), 1);

    // Four letters are sufficient to identify a BIP39 word, so the UI
    // stops accepting more letters and makes the user confirm or edit.
    flow.push_letter(i32::from(b'n' - b'a'));
    assert!(flow.next_letter_enabled().into_iter().all(|enabled| !enabled));
}

#[test]
fn mnemonic_use_word_explains_an_unfinished_or_ambiguous_entry() {
    let mut flow = LastWordFlow::default();

    assert!(!flow.commit_word());
    assert_eq!(flow.commit_feedback, CommitFeedback::EnterLetters);
    assert!(flow.message().contains("Enter a BIP39 word"));

    flow.push_letter(0); // a has many BIP39 matches
    assert!(!flow.commit_word());
    assert!(matches!(flow.commit_feedback, CommitFeedback::MoreMatches { count } if count > 1));
    assert!(flow.message().contains("matching words remain"));
}

#[test]
fn mnemonic_use_word_adds_a_selected_word_to_progress() {
    let mut flow = LastWordFlow::default();
    for byte in b"act" {
        flow.push_letter(i32::from(*byte - b'a'));
    }

    assert!(!flow.commit_word());
    assert_eq!(flow.confirmed_words_text(), "act");
}

#[test]
fn requires_explicit_entropy_confirmation_for_zero() {
    let mut flow = LastWordFlow::default();
    for _ in 0..PREFIX_WORD_COUNT {
        enter_word(&mut flow, "abandon");
    }

    assert!(flow.is_complete());
    assert_eq!(flow.candidate_word(), None);
    flow.confirm_entropy();
    assert_eq!(flow.candidate_word(), Some("about"));
}

#[test]
fn changing_entropy_hides_the_previous_result() {
    let mut flow = LastWordFlow::default();
    for _ in 0..PREFIX_WORD_COUNT {
        enter_word(&mut flow, "abandon");
    }
    flow.confirm_entropy();
    assert_eq!(flow.candidate_word(), Some("about"));

    flow.toggle_entropy_bit(0);
    assert_eq!(flow.candidate_word(), None);
}

#[test]
fn mnemonic_dice_faces_update_the_shared_entropy_bits() {
    let mut flow = LastWordFlow::default();
    for _ in 0..PREFIX_WORD_COUNT {
        enter_word(&mut flow, "abandon");
    }

    flow.set_entropy_die_face(0, 6);
    flow.set_entropy_die_face(1, 13);

    assert_eq!(flow.entropy_bits, 0b101_1100);
    assert_eq!(flow.entropy_octal_value(), 5);
    assert_eq!(flow.entropy_hex_value(), 12);
    assert_eq!(flow.entropy_octal_face(), 6);
    assert_eq!(flow.entropy_hex_face(), 13);
    assert_eq!(flow.entropy_octal_bits(), "101");
    assert_eq!(flow.entropy_hex_bits(), "1100");

    flow.confirm_entropy();
    assert!(flow.candidate_word().is_some());

    flow.set_entropy_die_face(1, 14);
    assert_eq!(flow.candidate_word(), None);

    let entropy_bits = flow.entropy_bits;
    flow.set_entropy_die_face(0, 0);
    flow.set_entropy_die_face(1, 17);
    assert_eq!(flow.entropy_bits, entropy_bits);

    flow.set_entropy_die_face(0, 8);
    flow.set_entropy_die_face(1, 16);
    assert_eq!(flow.entropy_bits, 0b111_1111);
}

#[test]
fn mnemonic_the_eleventh_confirmation_completes_the_prefix() {
    let mut flow = LastWordFlow::default();
    for _ in 0..(PREFIX_WORD_COUNT - 1) {
        enter_word(&mut flow, "abandon");
    }

    for byte in b"aban" {
        flow.push_letter(i32::from(*byte - b'a'));
    }
    assert!(flow.commit_word());
    assert!(flow.is_complete());
}

#[test]
fn mnemonic_loading_indices_replaces_the_prefix_and_clears_entropy() {
    let mut flow = LastWordFlow::default();
    flow.word_indices[0] = 123;
    flow.word_count = 1;
    flow.prefix[..3].copy_from_slice(b"act");
    flow.prefix_len = 3;
    flow.entropy_bits = 0b101_0101;
    flow.entropy_confirmed = true;

    let indices = core::array::from_fn(|position| position as u16);
    assert_eq!(flow.load_word_indices(indices), Ok(()));

    assert_eq!(flow.word_indices, indices);
    assert!(flow.is_complete());
    assert_eq!(flow.prefix_text(), "");
    assert_eq!(flow.entropy_bits, 0);
    assert!(!flow.entropy_confirmed);
    assert_eq!(flow.candidate_word(), None);
}

#[test]
fn mnemonic_invalid_loaded_index_does_not_partially_replace_the_prefix() {
    let mut flow = LastWordFlow::default();
    flow.word_indices[0] = 123;
    flow.word_count = 1;
    flow.prefix[..3].copy_from_slice(b"act");
    flow.prefix_len = 3;

    let mut indices = [0; PREFIX_WORD_COUNT];
    indices[7] = 2048;
    assert_eq!(
        flow.load_word_indices(indices),
        Err(Bip39Error::InvalidWordIndex { position: 7, index: 2048 })
    );

    assert_eq!(flow.word_indices[0], 123);
    assert_eq!(flow.word_count, 1);
    assert_eq!(flow.prefix_text(), "act");
}

#[test]
fn mnemonic_selects_the_official_all_one_entropy_vector() {
    let words = [
        "legal", "winner", "thank", "year", "wave", "sausage", "worth", "useful", "legal",
        "winner", "thank",
    ];
    let mut flow = LastWordFlow::default();
    for word in words {
        enter_word(&mut flow, word);
    }
    for bit in 0..7 {
        flow.toggle_entropy_bit(bit);
    }

    flow.confirm_entropy();
    assert_eq!(flow.candidate_word(), Some("yellow"));
}

#[test]
fn english_entry_text_reports_exact_only_and_counted_matches() {
    let mut flow = LastWordFlow::default();
    assert_eq!(flow.entry_text(), "Tap letters to filter the English word list.");
    flow.push_letter(i32::from(b'z' - b'a'));
    flow.push_letter(i32::from(b'o' - b'a'));
    assert_eq!(flow.entry_text(), "2 matches \u{2014} add a letter.");
    flow.push_letter(i32::from(b'o' - b'a'));
    assert_eq!(flow.entry_text(), "Use exact: zoo");
    flow.backspace();
    flow.push_letter(i32::from(b'n' - b'a'));
    assert_eq!(flow.entry_text(), "Only match: zone");
    flow.backspace();
    flow.backspace();
    flow.backspace();
    assert_eq!(flow.prefix_text(), "");
    flow.commit_word();
    assert_eq!(flow.message(), "Enter a BIP39 word before tapping Use word.");
    flow.push_letter(i32::from(b'z' - b'a'));
    flow.commit_word();
    assert_eq!(
        flow.message(),
        "Use word needs one BIP39 word \u{2014} 4 matching words remain."
    );
}

#[test]
fn english_backspace_forgets_the_last_word_and_its_entropy() {
    let mut flow = LastWordFlow::default();
    for _ in 0..PREFIX_WORD_COUNT {
        enter_word(&mut flow, "abandon");
    }
    flow.toggle_entropy_bit(3);
    flow.confirm_entropy();
    assert!(flow.entropy_bit_is_set(3));
    assert!(!flow.entropy_bit_is_set(2));
    assert_eq!(flow.message(), "All 11 words captured. Select the seven entropy bits.");
    flow.backspace();
    assert_eq!(flow.word_count, PREFIX_WORD_COUNT - 1);
    assert_eq!(flow.entropy_bits, 0);
    assert!(!flow.entropy_confirmed);
    flow.reset();
    assert_eq!(flow.word_count, 0);
    assert_eq!(flow.confirmed_words_text(), "");
    assert_eq!(flow.confirmed_words_font_size_hundredths(), WORD_LIST_MAX_FONT_SIZE_HUNDREDTHS);
}

#[test]
fn offered_letters_are_exactly_the_letters_the_entry_accepts() {
    for letters in ["", "b", "qu", "zoo"] {
        let mut typed = LastWordFlow::default();
        for byte in letters.bytes() {
            typed.push_letter(i32::from(byte - b'a'));
        }
        assert_eq!(typed.prefix_text(), letters);
        let enabled = typed.next_letter_enabled();
        for key in 0..26 {
            let mut flow = LastWordFlow::default();
            for byte in letters.bytes() {
                flow.push_letter(i32::from(byte - b'a'));
            }
            flow.push_letter(key);
            let accepted = flow.prefix_text().len() == letters.len() + 1;
            assert_eq!(accepted, enabled[key as usize], "{letters} {key}");
        }
    }
}
