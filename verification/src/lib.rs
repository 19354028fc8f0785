//! Verified BIP39 final-word helper for a touchscreen hardware wallet demo.
//!
//! Eleven BIP39 words contain 121 of the 128 entropy bits of a 12-word
//! mnemonic. The remaining seven bits are chosen explicitly, and each choice
//! determines one of the 128 valid final words.
//!
//! Besides the word-list arithmetic, the crate holds the touchscreen entry
//! flows, the text layout of receive addresses, and the register decoding of
//! the board's touch controller and charger.

pub mod address_text;
pub mod chinese;
pub mod cst226se;
pub mod display;
pub mod english_flow;
pub mod last_word;
pub mod mnemonic;
pub mod power;
pub mod receive_addresses;
pub mod sy6970;
pub mod text;
pub mod touch;

pub use chinese::{
    SimplifiedChinesePinyinMatches, simplified_chinese_next_pinyin_letters,
    simplified_chinese_words_by_pinyin_prefix,
};
pub use last_word::{
    CANDIDATE_COUNT, CHECKSUM_BITS, Error, LastWordCandidates, MAX_ENTROPY_BITS, MnemonicLanguage,
    PREFIX_WORD_COUNT, WORD_LIST_SIZE, candidates_from_indices, candidates_from_words,
    entropy_from_indices, indices_from_words, word_for_entropy_bits, word_for_entropy_bits_in,
    word_for_index, word_for_index_in, word_index, words_by_prefix,
};
