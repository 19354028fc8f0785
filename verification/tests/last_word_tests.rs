use bip39_last_word::{
    CANDIDATE_COUNT, CHECKSUM_BITS, Error, MAX_ENTROPY_BITS, MnemonicLanguage, PREFIX_WORD_COUNT,
    WORD_LIST_SIZE, candidates_from_indices, candidates_from_words, entropy_from_indices,
    indices_from_words, simplified_chinese_next_pinyin_letters,
    simplified_chinese_words_by_pinyin_prefix, word_for_entropy_bits, word_for_entropy_bits_in,
    word_for_index, word_for_index_in, word_index, words_by_prefix,
};

const ABANDON: [&str; PREFIX_WORD_COUNT] = ["abandon"; PREFIX_WORD_COUNT];

#[test]
fn leading_zero_entropy_uses_all_sixteen_bytes() {
    let indices = indices_from_words(&ABANDON).expect("known BIP39 words");

    assert_eq!(word_for_entropy_bits(&indices, 0), Ok("about"));
}

#[test]
fn matches_official_seven_f_entropy_vector() {
    let words = [
        "legal", "winner", "thank", "year", "wave", "sausage", "worth", "useful", "legal",
        "winner", "thank",
    ];
    let indices = indices_from_words(&words).expect("known BIP39 words");

    assert_eq!(word_for_entropy_bits(&indices, 127), Ok("yellow"));
}

#[test]
fn matches_official_all_one_entropy_vector() {
    assert_eq!(word_for_entropy_bits(&[2047; PREFIX_WORD_COUNT], 127), Ok("wrong"));
}

#[test]
fn candidates_are_unique_and_match_the_direct_calculation() {
    let indices = indices_from_words(&ABANDON).expect("known BIP39 words");
    let candidates = candidates_from_indices(&indices).expect("valid BIP39 word indices");
    let candidate_indices = candidates.word_indices();

    assert_eq!(candidates.len(), CANDIDATE_COUNT);
    for entropy_bits in 0..=MAX_ENTROPY_BITS {
        let candidate_index = candidates
            .word_index_for_entropy_bits(entropy_bits)
            .expect("entropy bits are in range");

        assert_eq!(candidate_index >> CHECKSUM_BITS, u16::from(entropy_bits));
        assert!(!candidate_indices[..usize::from(entropy_bits)].contains(&candidate_index));
        assert_eq!(
            candidates.word_for_entropy_bits(entropy_bits),
            word_for_entropy_bits(&indices, entropy_bits)
        );
    }
}

#[test]
fn rejects_unknown_words_and_invalid_inputs() {
    let mut words = ABANDON;
    words[4] = "not-a-bip39-word";
    assert_eq!(indices_from_words(&words), Err(Error::UnknownWord { position: 4 }));

    let mut indices = [0; PREFIX_WORD_COUNT];
    indices[7] = WORD_LIST_SIZE;
    assert_eq!(
        candidates_from_indices(&indices),
        Err(Error::InvalidWordIndex { position: 7, index: WORD_LIST_SIZE })
    );
    assert_eq!(
        word_for_entropy_bits(&[0; PREFIX_WORD_COUNT], 128),
        Err(Error::InvalidEntropyBits { value: 128 })
    );
}

#[test]
fn finds_word_prefixes_without_allocating() {
    assert_eq!(words_by_prefix("aban"), ["abandon"]);
    assert!(words_by_prefix("not-a-bip39-prefix").is_empty());
    assert!(words_by_prefix("act").contains(&"act"));
}

#[test]
fn resolves_simplified_chinese_words_and_pinyin() {
    let language = MnemonicLanguage::SimplifiedChinese;
    assert_eq!(word_for_index_in(language, 0), Some("\u{7684}"));

    let de_matches = simplified_chinese_words_by_pinyin_prefix("de");
    assert!((0..de_matches.len()).any(|position| de_matches.word_index_at(position) == Some(0)));

    let xing_matches = simplified_chinese_words_by_pinyin_prefix("xing");
    assert!(
        (0..xing_matches.len()).any(|position| xing_matches.word_index_at(position) == Some(56))
    );
    let hang_matches = simplified_chinese_words_by_pinyin_prefix("hang");
    assert!(
        (0..hang_matches.len()).any(|position| hang_matches.word_index_at(position) == Some(56))
    );

    assert_eq!(word_for_entropy_bits_in(language, &[0; PREFIX_WORD_COUNT], 0), Ok("\u{5728}"));
}

#[test]
fn word_index_and_word_for_index_are_inverse() {
    for index in [0u16, 1, 5, 1024, 2047] {
        let word = word_for_index(index).expect("index inside the list");
        assert_eq!(word_index(word), Some(index));
    }
    assert_eq!(word_for_index(2048), None);
    assert_eq!(word_index("zzzz"), None);
    assert_eq!(word_for_index(0), Some("abandon"));
    assert_eq!(word_for_index(2047), Some("zoo"));
}

#[test]
fn whole_list_for_an_empty_prefix_and_none_for_uppercase() {
    assert_eq!(words_by_prefix("").len(), 2048);
    assert!(words_by_prefix("ABAN").is_empty());
    assert_eq!(words_by_prefix("zo"), ["zone", "zoo"]);
}

#[test]
fn entropy_bytes_hold_the_indices_and_the_seven_bits() {
    assert_eq!(entropy_from_indices(&ABANDON_INDICES, 0), Ok([0u8; 16]));
    assert_eq!(entropy_from_indices(&[2047; PREFIX_WORD_COUNT], 127), Ok([0xffu8; 16]));
    let mut expected = [0u8; 16];
    expected[15] = 1;
    assert_eq!(entropy_from_indices(&ABANDON_INDICES, 1), Ok(expected));
    assert_eq!(
        entropy_from_indices(&ABANDON_INDICES, 200),
        Err(Error::InvalidEntropyBits { value: 200 })
    );
    let mut indices = ABANDON_INDICES;
    indices[2] = 4000;
    assert_eq!(
        entropy_from_indices(&indices, 0),
        Err(Error::InvalidWordIndex { position: 2, index: 4000 })
    );
}

const ABANDON_INDICES: [u16; PREFIX_WORD_COUNT] = [0; PREFIX_WORD_COUNT];

#[test]
fn candidates_from_words_match_candidates_from_indices() {
    let indices = indices_from_words(&ABANDON).expect("known BIP39 words");
    assert_eq!(candidates_from_words(&ABANDON), candidates_from_indices(&indices));
    let mut words = ABANDON;
    words[10] = "Abandon";
    assert_eq!(candidates_from_words(&words), Err(Error::UnknownWord { position: 10 }));
    let candidates = candidates_from_indices(&indices).expect("valid BIP39 word indices");
    assert!(!candidates.is_empty());
    assert_eq!(
        candidates.word_index_for_entropy_bits(128),
        Err(Error::InvalidEntropyBits { value: 128 })
    );
    assert_eq!(candidates.word_for_entropy_bits(0), Ok("about"));
}

#[test]
fn pinyin_letters_follow_the_matching_spellings() {
    let enabled = simplified_chinese_next_pinyin_letters("xin");
    assert!(enabled[usize::from(b'g' - b'a')]);
    let none = simplified_chinese_next_pinyin_letters("Xin");
    assert!(none.iter().all(|enabled| !enabled));
    let matches = simplified_chinese_words_by_pinyin_prefix("qqq");
    assert!(matches.is_empty());
    assert_eq!(matches.len(), 0);
    assert_eq!(matches.word_index_at(0), None);
}
