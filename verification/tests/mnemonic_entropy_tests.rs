use bip39_last_word::mnemonic::{LastWordFlow, MAX_ENGLISH_PREFIX_LEN};
use bip39_last_word::{PREFIX_WORD_COUNT, word_for_entropy_bits_in};

fn enter_word(flow: &mut LastWordFlow, word: &str) {
    for byte in word.bytes().take(MAX_ENGLISH_PREFIX_LEN) {
        flow.push_letter(i32::from(byte - b'a'));
    }
    assert!(flow.selected_word_index().is_some());
    flow.commit_word();
}

#[test]
fn default_zero_entropy_reveals_the_final_word() {
    let mut flow = LastWordFlow::default();
    for _ in 0..PREFIX_WORD_COUNT {
        enter_word(&mut flow, "abandon");
    }

    assert!(flow.is_complete());
    assert!(flow.is_entropy_confirmed());
    assert_eq!(flow.candidate_word(), Some("about"));
    flow.set_entropy_die_face(0, 1);
    assert_eq!(flow.candidate_word(), Some("about"));
}

#[test]
fn changing_entropy_reveals_the_updated_word() {
    let mut flow = LastWordFlow::default();
    for _ in 0..PREFIX_WORD_COUNT {
        enter_word(&mut flow, "abandon");
    }
    flow.set_entropy_die_face(0, 1);
    assert_eq!(flow.candidate_word(), Some("about"));

    flow.toggle_entropy_bit(0);
    assert_eq!(
        flow.candidate_word(),
        word_for_entropy_bits_in(flow.language, &flow.word_indices, flow.entropy_bits).ok()
    );
}

#[test]
fn entropy_dice_faces_update_the_shared_entropy_bits() {
    let mut flow = LastWordFlow::default();
    for _ in 0..PREFIX_WORD_COUNT {
        enter_word(&mut flow, "abandon");
    }

    flow.set_entropy_die_face(0, 6);
    flow.set_entropy_die_face(1, 13);

    assert_eq!(flow.entropy_bits, 0b101_1100);
    assert_eq!(flow.entropy_octal_value(), 5);
    assert_eq!(flow.entropy_hex_value(), 12);
    assert_eq!(flow.entropy_octal_face(), 6);
    assert_eq!(flow.entropy_hex_face(), 13);
    assert_eq!(flow.entropy_octal_bits(), "101");
    assert_eq!(flow.entropy_hex_bits(), "1100");

    assert!(flow.candidate_word().is_some());

    flow.set_entropy_die_face(1, 14);
    assert!(flow.candidate_word().is_some());

    let entropy_bits = flow.entropy_bits;
    flow.set_entropy_die_face(0, 0);
    flow.set_entropy_die_face(1, 17);
    assert_eq!(flow.entropy_bits, entropy_bits);

    flow.set_entropy_die_face(0, 8);
    flow.set_entropy_die_face(1, 16);
    assert_eq!(flow.entropy_bits, 0b111_1111);
}

#[test]
fn entropy_selects_the_official_all_one_entropy_vector() {
    let words = [
        "legal", "winner", "thank", "year", "wave", "sausage", "worth", "useful", "legal",
        "winner", "thank",
    ];
    let mut flow = LastWordFlow::default();
    for word in words {
        enter_word(&mut flow, word);
    }
    for bit in 0..7 {
        flow.toggle_entropy_bit(bit);
    }

    assert_eq!(flow.candidate_word(), Some("yellow"));
}

#[test]
fn commits_or_cancels_a_masked_passphrase() {
    let mut flow = LastWordFlow::default();

    flow.open_passphrase_editor();
    for key in ["T", "R", "E", "Z", "O", "R"] {
        flow.append_passphrase_key(key);
    }
    assert_eq!(flow.passphrase_display(), "******");
    assert!(!flow.has_passphrase());

    flow.cancel_passphrase_editor();
    assert!(!flow.has_passphrase());
    assert!(!flow.is_passphrase_editor_open());

    flow.open_passphrase_editor();
    for key in ["T", "R", "E", "Z", "O", "R"] {
        flow.append_passphrase_key(key);
    }
    flow.toggle_passphrase_visibility();
    assert_eq!(flow.passphrase_display(), "TREZOR");
    assert!(flow.save_passphrase());
    assert_eq!(flow.bip39_passphrase(), "TREZOR");
    assert!(flow.has_passphrase());
    assert!(!flow.is_passphrase_editor_open());
}

#[test]
fn accepts_every_printable_ascii_passphrase_character() {
    let mut flow = LastWordFlow::default();
    let mut expected = String::new();

    flow.open_passphrase_editor();
    for byte in 0x20_u8..=0x7e {
        let bytes = [byte];
        let key = core::str::from_utf8(&bytes).expect("printable ASCII");
        flow.append_passphrase_key(key);
        expected.push(char::from(byte));
    }

    flow.toggle_passphrase_visibility();
    assert_eq!(expected.len(), 95);
    assert_eq!(flow.passphrase_display(), expected);
}

#[test]
fn selecting_a_final_word_candidate_confirms_its_entropy_bits() {
    let mut flow = LastWordFlow::default();
    for _ in 0..PREFIX_WORD_COUNT {
        enter_word(&mut flow, "abandon");
    }

    assert!(flow.open_final_word_picker());
    assert_eq!(flow.final_word_candidate_page_label(), "1 / 11");
    assert_eq!(flow.final_word_candidate_labels()[0], "about");

    flow.change_final_word_candidate_page(1);
    assert_eq!(flow.final_word_candidate_page_label(), "2 / 11");
    assert!(flow.select_final_word_candidate(0));

    assert_eq!(flow.entropy_bits, 12);
    assert!(flow.is_entropy_confirmed());
    assert!(!flow.is_final_word_picker_open());
    assert_eq!(
        flow.candidate_word(),
        word_for_entropy_bits_in(flow.language, &flow.word_indices, 12).ok()
    );
}

#[test]
fn passphrase_editor_refuses_keys_it_cannot_hold() {
    let mut flow = LastWordFlow::default();
    flow.append_passphrase_key("a");
    flow.open_passphrase_editor();
    flow.append_passphrase_key("ab");
    flow.append_passphrase_key("\u{e9}");
    flow.append_passphrase_key("\n");
    flow.append_passphrase_key("");
    flow.toggle_passphrase_visibility();
    assert_eq!(flow.passphrase_display(), "");
    for _ in 0..200 {
        flow.append_passphrase_key("x");
    }
    assert_eq!(flow.passphrase_display().len(), 128);
    flow.backspace_passphrase();
    assert_eq!(flow.passphrase_display().len(), 127);
    assert!(flow.save_passphrase());
    assert!(!flow.save_passphrase());
    flow.open_passphrase_editor();
    assert!(!flow.save_passphrase());
    flow.clear_passphrase();
    assert!(!flow.has_passphrase());
    assert_eq!(flow.bip39_passphrase(), "");
}

#[test]
fn toggling_a_bit_twice_restores_the_word() {
    let mut flow = LastWordFlow::default();
    for _ in 0..PREFIX_WORD_COUNT {
        enter_word(&mut flow, "abandon");
    }
    flow.toggle_entropy_bit(6);
    assert!(flow.entropy_bit_is_set(6));
    assert_eq!(flow.entropy_octal_face(), 5);
    flow.toggle_entropy_bit(6);
    assert_eq!(flow.entropy_bits, 0);
    assert_eq!(flow.candidate_word(), Some("about"));
    flow.toggle_entropy_bit(7);
    assert_eq!(flow.entropy_bits, 0);
}

#[test]
fn finalized_entropy_needs_a_complete_confirmed_prefix() {
    let mut flow = LastWordFlow::default();
    assert_eq!(flow.finalized_entropy(), None);
    for _ in 0..PREFIX_WORD_COUNT {
        enter_word(&mut flow, "abandon");
    }
    assert_eq!(flow.finalized_entropy(), Some([0u8; 16]));
    flow.toggle_entropy_bit(0);
    let mut expected = [0u8; 16];
    expected[15] = 1;
    assert_eq!(flow.finalized_entropy(), Some(expected));
}

#[test]
fn final_word_picker_pages_stay_in_range() {
    let mut flow = LastWordFlow::default();
    assert!(!flow.open_final_word_picker());
    for _ in 0..PREFIX_WORD_COUNT {
        enter_word(&mut flow, "abandon");
    }
    flow.set_entropy_die_face(0, 8);
    flow.set_entropy_die_face(1, 16);
    assert!(flow.open_final_word_picker());
    assert_eq!(flow.final_word_candidate_page, 10);
    assert!(!flow.has_next_final_word_candidate_page());
    assert!(flow.has_previous_final_word_candidate_page());
    flow.change_final_word_candidate_page(1);
    assert_eq!(flow.final_word_candidate_page, 10);
    let labels = flow.final_word_candidate_labels();
    assert_eq!(labels.len(), 12);
    assert!(!labels[7].is_empty());
    assert!(labels[8].is_empty());
    assert!(!flow.select_final_word_candidate(8));
    assert!(flow.select_final_word_candidate(7));
    assert_eq!(flow.entropy_bits, 127);
    assert!(flow.final_word_candidate_labels().iter().all(|label| label.is_empty()));
}
