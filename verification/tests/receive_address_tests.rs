use bip39_last_word::MnemonicLanguage;
use bip39_last_word::address_text::format_descriptor_for_display;
use bip39_last_word::mnemonic::{LastWordFlow, MAX_ENGLISH_PREFIX_LEN};
use bip39_last_word::receive_addresses::{
    Keychain, ReceiveAddressCache, address_load_still_wanted, loading_address_screen,
    receive_address_screen,
};

#[test]
fn derives_the_first_bip84_receive_address() {
    let mut cache = ReceiveAddressCache::from_entropy([0; 16], MnemonicLanguage::English, "")
        .expect("create receive address cache");
    let page = cache.page_at(0).expect("derive BIP84 receive address zero");

    assert_eq!(page.rows.len(), 1);
    assert_eq!(page.rows[0], "bc1qcr8te4kr609gcawut\nmrza0j4xv80jy8z306fyu");
    assert!(page.descriptor.starts_with("wpkh(["));
    assert!(page.descriptor.contains("/0/0)"));
    assert!(page.descriptor.contains("#"));

    let descriptor_display = format_descriptor_for_display(page.descriptor.clone());
    assert!(descriptor_display.lines().count() > 1);
    let mut descriptor_round_trip = String::new();
    for character in descriptor_display.chars() {
        if character != '\n' {
            descriptor_round_trip.push(character);
        }
    }
    assert_eq!(descriptor_round_trip, page.descriptor);
}

#[test]
fn binds_the_descriptor_to_the_selected_address_index() {
    let mut cache = ReceiveAddressCache::from_entropy([0; 16], MnemonicLanguage::English, "")
        .expect("create receive address cache");
    let page = cache.page_at(1).expect("derive BIP84 receive address one");

    assert_eq!(page.rows.len(), 1);
    assert!(page.descriptor.contains("/0/1)"));
    assert!(page.descriptor.contains("#"));
}

#[test]
fn retains_revealed_pages_for_back_navigation() {
    let mut cache = ReceiveAddressCache::from_entropy([0; 16], MnemonicLanguage::English, "")
        .expect("create receive address cache");
    let first_page = cache.page_at(0).expect("derive receive address zero");
    let second_page = cache.page_at(1).expect("derive receive address one");
    let first_page_again = cache.page_at(0).expect("reuse receive address zero");

    assert_eq!(cache.page_count(), 2);
    assert_eq!(cache.last_revealed_index(Keychain::External), Some(1));
    assert_eq!(first_page.rows, first_page_again.rows);
    assert_ne!(first_page.rows, second_page.rows);
}

#[test]
fn passphrase_changes_the_receive_address() {
    let mut empty_passphrase =
        ReceiveAddressCache::from_entropy([0; 16], MnemonicLanguage::English, "")
            .expect("create empty-passphrase cache");
    let mut trezor_passphrase =
        ReceiveAddressCache::from_entropy([0; 16], MnemonicLanguage::English, "TREZOR")
            .expect("create TREZOR-passphrase cache");

    let empty_address = empty_passphrase.page_at(0).expect("derive empty-passphrase address");
    let trezor_address = trezor_passphrase.page_at(0).expect("derive TREZOR-passphrase address");

    assert_ne!(empty_address.rows, trezor_address.rows);
}

#[test]
fn refuses_indices_beyond_the_unhardened_range() {
    let mut cache = ReceiveAddressCache::from_entropy([0; 16], MnemonicLanguage::English, "")
        .expect("create receive address cache");
    assert!(cache.page_at(0x8000_0000).is_err());
    assert_eq!(cache.page_count(), 0);
}

#[test]
fn address_screen_needs_finalized_entropy() {
    let mut cache = None;
    let flow = LastWordFlow::default();
    let screen = receive_address_screen(&mut cache, &flow, 0);
    assert!(cache.is_none());
    assert_eq!(screen.rows, vec![String::from("Unable to derive receive addresses.")]);
    assert_eq!(screen.page_label, "Unavailable");
    assert!(!screen.has_next_page);
}

#[test]
fn address_screen_shows_the_page_of_the_flow() {
    let mut flow = LastWordFlow::default();
    for _ in 0..11 {
        for byte in "abandon".bytes().take(MAX_ENGLISH_PREFIX_LEN) {
            flow.push_letter(i32::from(byte - b'a'));
        }
        flow.commit_word();
    }
    assert_eq!(flow.candidate_word(), Some("about"));
    let mut cache = None;
    let screen = receive_address_screen(&mut cache, &flow, 0);
    assert_eq!(screen.rows, vec![String::from("bc1qcr8te4kr609gcawut\nmrza0j4xv80jy8z306fyu")]);
    assert_eq!(screen.page_label, "Index 0");
    assert!(!screen.has_previous_page);
    assert!(screen.has_next_page);
    assert!(!screen.loading);
    assert!(screen.descriptor.contains('\n'));
    let next = receive_address_screen(&mut cache, &flow, 1);
    assert_eq!(next.page_label, "Index 1");
    assert!(next.has_previous_page);
    assert_eq!(cache.as_ref().map(|c| c.page_count()), Some(2));

    let loading = loading_address_screen(5);
    assert!(loading.loading);
    assert_eq!(loading.start_index, 5);
    assert!(address_load_still_wanted(2, true, 5, 5));
    assert!(!address_load_still_wanted(1, true, 5, 5));
    assert!(!address_load_still_wanted(2, false, 5, 5));
    assert!(!address_load_still_wanted(2, true, -1, 5));
}
