use bip39_last_word::PREFIX_WORD_COUNT;
use bip39_last_word::mnemonic::{FlowEffects, FlowEvent, LastWordFlow, handle_flow_event};

fn redraw(forget_addresses: bool, show_final_word_screen: bool) -> FlowEffects {
    FlowEffects {
        forget_addresses,
        show_final_word_screen,
        reset_passphrase_keyboard: false,
        load_addresses_from: None,
        refresh_view: true,
    }
}

fn type_word(flow: &mut LastWordFlow, word: &str) -> FlowEffects {
    for byte in word.bytes().take(4) {
        handle_flow_event(flow, FlowEvent::LetterKey(i32::from(byte - b'a')));
    }
    handle_flow_event(flow, FlowEvent::UseWord)
}

#[test]
fn the_eleventh_word_shows_the_final_word_screen() {
    let mut flow = LastWordFlow::default();
    for _ in 0..(PREFIX_WORD_COUNT - 1) {
        assert_eq!(type_word(&mut flow, "abandon"), redraw(true, false));
    }
    assert_eq!(type_word(&mut flow, "abandon"), redraw(true, true));
    assert_eq!(handle_flow_event(&mut flow, FlowEvent::UseWord), redraw(true, true));
    let open = handle_flow_event(&mut flow, FlowEvent::OpenAddresses);
    assert_eq!(open.load_addresses_from, Some(0));
    assert!(!open.refresh_view);
}

#[test]
fn addresses_wait_for_confirmed_entropy() {
    let mut flow = LastWordFlow::default();
    let open = handle_flow_event(&mut flow, FlowEvent::OpenAddresses);
    assert_eq!(open.load_addresses_from, None);
    let back = handle_flow_event(&mut flow, FlowEvent::AddressBack);
    assert!(back.show_final_word_screen);
    let page = handle_flow_event(
        &mut flow,
        FlowEvent::ChangeAddressPage { shown_start: 0, direction: -1 },
    );
    assert_eq!(page.load_addresses_from, Some(0));
    let page = handle_flow_event(
        &mut flow,
        FlowEvent::ChangeAddressPage { shown_start: 4, direction: 1 },
    );
    assert_eq!(page.load_addresses_from, Some(5));
    let page = handle_flow_event(
        &mut flow,
        FlowEvent::ChangeAddressPage { shown_start: -3, direction: 0 },
    );
    assert_eq!(page.load_addresses_from, Some(0));
}

#[test]
fn chinese_use_word_opens_the_pinyin_picker() {
    let mut flow = LastWordFlow::default();
    handle_flow_event(&mut flow, FlowEvent::SelectLanguage(1));
    for byte in b"xing" {
        handle_flow_event(&mut flow, FlowEvent::LetterKey(i32::from(*byte - b'a')));
    }
    assert_eq!(handle_flow_event(&mut flow, FlowEvent::UseWord), redraw(true, false));
    assert!(flow.is_pinyin_candidate_picker_open());
    assert_eq!(
        handle_flow_event(&mut flow, FlowEvent::SelectPinyinCandidate(0)),
        redraw(true, false)
    );
    assert_eq!(flow.word_count, 1);
}

#[test]
fn saving_an_unchanged_passphrase_keeps_the_addresses() {
    let mut flow = LastWordFlow::default();
    let open = handle_flow_event(&mut flow, FlowEvent::OpenPassphraseEditor);
    assert!(open.reset_passphrase_keyboard);
    assert_eq!(handle_flow_event(&mut flow, FlowEvent::SavePassphrase), redraw(false, false));
    handle_flow_event(&mut flow, FlowEvent::OpenPassphraseEditor);
    handle_flow_event(&mut flow, FlowEvent::PassphraseKey(String::from("x")));
    handle_flow_event(&mut flow, FlowEvent::TogglePassphraseVisibility);
    assert_eq!(flow.passphrase_display(), "x");
    assert_eq!(handle_flow_event(&mut flow, FlowEvent::SavePassphrase), redraw(true, false));
    assert_eq!(flow.bip39_passphrase(), "x");
}
