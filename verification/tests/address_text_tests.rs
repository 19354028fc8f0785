use bip39_last_word::address_text::{format_address_for_display, format_descriptor_for_display};

#[test]
fn splits_a_bip84_address_into_two_lines() {
    let address = String::from("bc1qcr8te4kr609gcawutmrza0j4xv80jy8z306fyu");
    assert_eq!(address.len(), 42);
    assert_eq!(format_address_for_display(address), "bc1qcr8te4kr609gcawut\nmrza0j4xv80jy8z306fyu");
}

#[test]
fn keeps_other_addresses_on_one_line() {
    let address = String::from("bc1qshort");
    assert_eq!(format_address_for_display(address), "bc1qshort");
    assert_eq!(format_address_for_display(String::new()), "");
}

#[test]
fn breaks_descriptors_every_thirty_bytes() {
    let descriptor = "a".repeat(30) + &"b".repeat(30) + "c";
    assert_eq!(
        format_descriptor_for_display(descriptor),
        "a".repeat(30) + "\n" + &"b".repeat(30) + "\nc"
    );
    assert_eq!(format_descriptor_for_display("x".repeat(30)), "x".repeat(30));
    assert_eq!(format_descriptor_for_display(String::new()), "");
}
