use bip39_last_word::mnemonic::{
    CommitFeedback, LastWordFlow, MAX_ENGLISH_PREFIX_LEN, WORD_LIST_MAX_FONT_SIZE_HUNDREDTHS,
};
use bip39_last_word::PREFIX_WORD_COUNT;

fn enter_word(flow: &mut LastWordFlow, word: &str) {
    for byte in word.bytes().take(MAX_ENGLISH_PREFIX_LEN) {
        flow.push_letter(i32::from(byte - b'a'));
    }
    assert!(flow.selected_word_index().is_some());
    flow.commit_word();
}

#[test]
fn presentation_keeps_confirmed_words_visible_after_commit() {
    let mut flow = LastWordFlow::default();

    enter_word(&mut flow, "act");

    assert_eq!(flow.confirmed_words_text(), "act");
    assert_eq!(flow.commit_feedback, CommitFeedback::Clear);
}

#[test]
fn presentation_shrinks_confirmed_words_to_fit_the_full_prefix() {
    let mut flow = LastWordFlow::default();

    enter_word(&mut flow, "act");
    assert_eq!(flow.confirmed_words_font_size_hundredths(), WORD_LIST_MAX_FONT_SIZE_HUNDREDTHS);

    for _ in 0..(PREFIX_WORD_COUNT - 1) {
        enter_word(&mut flow, "abandon");
    }
    assert_eq!(flow.confirmed_words_font_size_hundredths(), 1_040);
}

#[test]
fn presentation_use_word_adds_a_selected_word_to_progress() {
    let mut flow = LastWordFlow::default();
    for byte in b"act" {
        flow.push_letter(i32::from(*byte - b'a'));
    }

    assert!(!flow.commit_word());
    assert_eq!(flow.confirmed_words_text(), "act");
}

#[test]
fn renders_confirmed_words_in_the_selected_language() {
    let mut flow = LastWordFlow::default();
    flow.select_language(1);
    flow.word_indices[0] = 0;
    flow.word_count = 1;

    assert_eq!(flow.confirmed_words_text(), "\u{7684}");
}

#[test]
fn entry_hints_follow_the_typed_letters() {
    let mut flow = LastWordFlow::default();
    assert_eq!(flow.entry_text(), "Tap letters to filter the English word list.");
    flow.push_letter(i32::from(b'z' - b'a'));
    assert_eq!(flow.entry_text(), "4 matches - add a letter.");
    flow.push_letter(i32::from(b'o' - b'a'));
    flow.push_letter(i32::from(b'o' - b'a'));
    assert_eq!(flow.entry_text(), "Use exact: zoo");
    flow.backspace();
    flow.push_letter(i32::from(b'n' - b'a'));
    assert_eq!(flow.entry_text(), "Only match: zone");
    assert_eq!(flow.message(), "");
    flow.backspace();
    flow.backspace();
    flow.commit_word();
    assert_eq!(
        flow.message(),
        "Use word needs one BIP39 word - 4 matching words remain."
    );
}

#[test]
fn chinese_messages_name_pinyin() {
    let mut flow = LastWordFlow::default();
    flow.select_language(1);
    flow.commit_word();
    assert_eq!(flow.message(), "Enter pinyin before tapping Use word.");
    flow.push_letter(i32::from(b'v' - b'a'));
    assert_eq!(flow.message(), "No BIP39 word matches that pinyin. Try another letter.");
    flow.word_indices[0] = 0;
    flow.word_indices[1] = 1;
    flow.word_count = 2;
    assert_eq!(flow.confirmed_words_text(), "\u{7684} \u{4e00}");
    assert_eq!(flow.confirmed_words_font_size_hundredths(), 2_000);
}
