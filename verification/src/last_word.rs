//! Final-word calculation for a 12-word BIP39 mnemonic.

use bip39::Language;
use bitcoin_hashes::sha256;
use crate::chinese::lex_lt;
use crate::text::{bytes_start_with, lemma_starts_with_push, starts_with};
use vstd::prelude::*;
use vstd::slice::slice_subrange;
use vstd::string::StringSliceAdditionalSpecFns;
use vstd::utf8::encode_utf8;

verus! {

/// Number of known words in a 12-word BIP39 mnemonic.
pub const PREFIX_WORD_COUNT: usize = 11;

/// Number of possible final words for eleven known words.
pub const CANDIDATE_COUNT: usize = 128;

/// Number of words in every BIP39 word list.
pub const WORD_LIST_SIZE: u16 = 2048;

/// Number of checksum bits carried by the final word of a 12-word mnemonic.
pub const CHECKSUM_BITS: u32 = 4;

/// Largest value of the seven entropy bits carried by the final word.
pub const MAX_ENTROPY_BITS: u8 = 127;

/// BIP39 word lists supported by the final-word helper.
#[derive(Clone, Copy, Debug, PartialEq, Eq, Structural)]
pub enum MnemonicLanguage {
    /// The English BIP39 word list.
    English,
    /// The Simplified Chinese BIP39 word list.
    SimplifiedChinese,
}

impl View for MnemonicLanguage {
    type V = nat;

    /// The language as a number: English is 0, Simplified Chinese is 1.
    open spec fn view(&self) -> nat {
        match self {
            MnemonicLanguage::English => 0,
            MnemonicLanguage::SimplifiedChinese => 1,
        }
    }
}

impl Default for MnemonicLanguage {
    fn default() -> (language: Self)
        ensures
            language == MnemonicLanguage::English,
    {
        MnemonicLanguage::English
    }
}

/// Input validation failure while calculating a final BIP39 word.
#[derive(Clone, Copy, Debug, PartialEq, Eq, Structural)]
pub enum Error {
    /// A word is not an exact BIP39 word in the selected word list.
    UnknownWord { position: usize },
    /// A caller-provided BIP39 word index is outside the BIP39 word list.
    InvalidWordIndex { position: usize, index: u16 },
    /// The seven remaining entropy bits must be in the range `0..=127`.
    InvalidEntropyBits { value: u8 },
}

/// The words of the BIP39 word list of a language (0: English,
/// 1: Simplified Chinese), as `bip39::Language::word_list` returns them.
pub uninterp spec fn bip39_word_list(language: nat) -> Seq<Seq<char>>;

/// The SHA-256 digest of a byte sequence, as `bitcoin_hashes` computes it.
pub uninterp spec fn sha256_digest(data: Seq<u8>) -> Seq<u8>;

/// Calls `bip39::Language::word_list` for the language. The result is the
/// crate's static word list of 2048 words; the contract names its contents
/// and bounds each word to eight characters (the longest English words have
/// eight letters, and every Chinese word is one character); no word occurs
/// twice in a list; and the English list is in increasing byte order, the
/// order of `str` (the crate says so where `find_word` binary-searches it).
#[verifier::external_body]
fn bip39_words(language: MnemonicLanguage) -> (words: &'static [&'static str; 2048])
    ensures
        words@.len() == bip39_word_list(language@).len(),
        forall|i: int| 0 <= i < 2048 ==> #[trigger] words@[i]@ == bip39_word_list(language@)[i],
        forall|i: int| 0 <= i < 2048 ==> #[trigger] words@[i]@.len() <= 8,
        forall|i: int, j: int|
            0 <= i < 2048 && 0 <= j < 2048 && i != j ==> #[trigger] words@[i]@ != #[trigger] words@[j]@,
        language == MnemonicLanguage::English ==> forall|i: int, j: int|
            0 <= i < j < 2048 ==> lex_lt(
                encode_utf8(#[trigger] words@[i]@),
                encode_utf8(#[trigger] words@[j]@),
            ),
{
    let language = match language {
        MnemonicLanguage::English => Language::English,
        MnemonicLanguage::SimplifiedChinese => Language::SimplifiedChinese,
    };
    language.word_list()
}

/// Calls `bip39::Language::find_word` on the English list, which
/// binary-searches the (sorted) English word list for the exact word.
/// The contract claims: a returned index points at that word, and `None`
/// means the word is not in the list.
#[verifier::external_body]
fn bip39_find_english_word(word: &str) -> (index: Option<u16>)
    ensures
        index matches Some(i) ==> i < 2048 && bip39_word_list(0)[i as int] == word@,
        index matches Some(i) ==> forall|j: int|
            0 <= j < 2048 && #[trigger] bip39_word_list(0)[j] == word@ ==> j == i,
        index is None ==> forall|i: int| 0 <= i < 2048 ==> bip39_word_list(0)[i] != word@,
{
    Language::English.find_word(word)
}

/// Calls `bitcoin_hashes::sha256::Hash::hash` on sixteen bytes and returns
/// the 32 digest bytes. The contract names the digest.
#[verifier::external_body]
fn sha256_of_entropy(data: &[u8; 16]) -> (digest: [u8; 32])
    ensures
        digest@ == sha256_digest(data@),
{
    <sha256::Hash as bitcoin_hashes::Hash>::to_byte_array(
        <sha256::Hash as bitcoin_hashes::Hash>::hash(data),
    )
}

/// The word at `index` of the language's word list.
pub open spec fn spec_word(language: MnemonicLanguage, index: int) -> Seq<char> {
    bip39_word_list(language@)[index]
}

/// `2048^k`: the number of values that `k` word indices can encode.
pub open spec fn pow2048(k: nat) -> nat
    decreases k,
{
    if k == 0 {
        1
    } else {
        2048 * pow2048((k - 1) as nat)
    }
}

/// Whether every word index is inside the word list.
pub open spec fn all_indices_valid(indices: Seq<u16>) -> bool {
    forall|i: int| 0 <= i < indices.len() ==> #[trigger] indices[i] < 2048
}

/// The bits of the word indices concatenated, first word most significant.
pub open spec fn prefix_value(indices: Seq<u16>) -> nat
    decreases indices.len(),
{
    if indices.len() == 0 {
        0
    } else {
        prefix_value(indices.drop_last()) * 2048 + indices.last() as nat
    }
}

/// The error for the first word index that is outside the word list, if any.
pub open spec fn index_error(indices: Seq<u16>) -> Option<Error>
    decreases indices.len(),
{
    if indices.len() == 0 {
        None
    } else {
        match index_error(indices.drop_last()) {
            Some(e) => Some(e),
            None => if indices.last() >= 2048 {
                Some(
                    Error::InvalidWordIndex {
                        position: (indices.len() - 1) as usize,
                        index: indices.last(),
                    },
                )
            } else {
                None
            },
        }
    }
}

/// The big-endian encoding of `n` in `len` bytes (higher bits are dropped).
pub open spec fn be_bytes(n: nat, len: nat) -> Seq<u8>
    decreases len,
{
    if len == 0 {
        Seq::empty()
    } else {
        be_bytes(n / 256, (len - 1) as nat).push((n % 256) as u8)
    }
}

/// The 128 entropy bits of a 12-word mnemonic: the eleven word indices
/// followed by the seven explicit bits.
pub open spec fn entropy_value(indices: Seq<u16>, entropy_bits: nat) -> nat {
    prefix_value(indices) * 128 + entropy_bits
}

/// The sixteen entropy bytes of a 12-word mnemonic.
pub open spec fn entropy_bytes(indices: Seq<u16>, entropy_bits: nat) -> Seq<u8> {
    be_bytes(entropy_value(indices, entropy_bits), 16)
}

/// The BIP39 checksum of sixteen entropy bytes: the first four bits of
/// their SHA-256 digest.
pub open spec fn checksum_of(entropy: Seq<u8>) -> nat {
    (sha256_digest(entropy)[0] / 16) as nat
}

/// The word index of the final word: the seven entropy bits followed by the
/// four checksum bits.
pub open spec fn final_index(indices: Seq<u16>, entropy_bits: nat) -> nat {
    entropy_bits * 16 + checksum_of(entropy_bytes(indices, entropy_bits))
}

/// Every final word completes a valid 12-word mnemonic: its index lies in
/// the word list, carries the seven entropy bits in its top bits, and ends
/// with the four checksum bits of the sixteen entropy bytes.
pub proof fn lemma_final_word_completes_checksum(indices: Seq<u16>, entropy_bits: nat)
    requires
        entropy_bits <= 127,
    ensures
        final_index(indices, entropy_bits) < 2048,
        final_index(indices, entropy_bits) / 16 == entropy_bits,
        final_index(indices, entropy_bits) % 16 == checksum_of(entropy_bytes(indices, entropy_bits)),
        checksum_of(entropy_bytes(indices, entropy_bits)) < 16,
{
    let c = checksum_of(entropy_bytes(indices, entropy_bits));
    assert(c < 16);
}

/// Different entropy bits give different final words.
pub proof fn lemma_final_words_differ(indices: Seq<u16>, a: nat, b: nat)
    requires
        a <= 127,
        b <= 127,
        a != b,
    ensures
        final_index(indices, a) != final_index(indices, b),
{
    lemma_final_word_completes_checksum(indices, a);
    lemma_final_word_completes_checksum(indices, b);
}

proof fn lemma_pow2048_monotonic(a: nat, b: nat)
    requires
        a <= b,
    ensures
        pow2048(a) <= pow2048(b),
        pow2048(a) >= 1,
    decreases b,
{
    if b > a {
        lemma_pow2048_monotonic(a, (b - 1) as nat);
    } else if a > 0 {
        lemma_pow2048_monotonic((a - 1) as nat, (a - 1) as nat);
    }
}

proof fn lemma_prefix_value_bound(indices: Seq<u16>)
    requires
        all_indices_valid(indices),
    ensures
        prefix_value(indices) < pow2048(indices.len()),
    decreases indices.len(),
{
    if indices.len() > 0 {
        let init = indices.drop_last();
        assert(all_indices_valid(init)) by {
            assert forall|i: int| 0 <= i < init.len() implies #[trigger] init[i] < 2048 by {
                assert(init[i] == indices[i]);
            }
        }
        lemma_prefix_value_bound(init);
        assert(indices.last() == indices[indices.len() - 1]);
    }
}

/// No index error exactly when every index is inside the word list.
pub proof fn lemma_index_error_none_valid(indices: Seq<u16>)
    ensures
        index_error(indices) is None <==> all_indices_valid(indices),
    decreases indices.len(),
{
    if indices.len() > 0 {
        let init = indices.drop_last();
        lemma_index_error_none_valid(init);
        if all_indices_valid(indices) {
            assert forall|i: int| 0 <= i < init.len() implies #[trigger] init[i] < 2048 by {
                assert(init[i] == indices[i]);
            }
            assert(indices[indices.len() - 1] < 2048);
        }
        if all_indices_valid(init) && indices.last() < 2048 {
            assert forall|i: int| 0 <= i < indices.len() implies #[trigger] indices[i] < 2048 by {
                if i < init.len() {
                    assert(init[i] == indices[i]);
                }
            }
        }
    }
}

/// The index error names the first position whose index is outside the
/// word list.
pub proof fn lemma_index_error_at(indices: Seq<u16>, position: int)
    requires
        0 <= position < indices.len(),
        indices[position] >= 2048,
        forall|q: int| 0 <= q < position ==> #[trigger] indices[q] < 2048,
    ensures
        index_error(indices) == Some(
            Error::InvalidWordIndex { position: position as usize, index: indices[position] },
        ),
    decreases indices.len(),
{
    let init = indices.drop_last();
    if position == indices.len() - 1 {
        assert forall|i: int| 0 <= i < init.len() implies #[trigger] init[i] < 2048 by {
            assert(init[i] == indices[i]);
        }
        lemma_index_error_none_valid(init);
    } else {
        assert forall|q: int| 0 <= q < position implies #[trigger] init[q] < 2048 by {
            assert(init[q] == indices[q]);
        }
        lemma_index_error_at(init, position);
    }
}

/// `2048^11 = 2^121`, so eleven word indices fit in 121 bits.
proof fn lemma_pow2048_11()
    ensures
        pow2048(11) == 0x200_0000_0000_0000_0000_0000_0000_0000,
{
    reveal_with_fuel(pow2048, 12);
}

/// Concatenates eleven word indices into their 121 entropy bits.
fn entropy_prefix(indices: &[u16; PREFIX_WORD_COUNT]) -> (result: Result<u128, Error>)
    ensures
        match index_error(indices@) {
            Some(e) => result == Err::<u128, Error>(e),
            None => result == Ok::<u128, Error>(prefix_value(indices@) as u128),
        },
        result is Ok ==> prefix_value(indices@) < pow2048(11),
{
    let mut prefix: u128 = 0;
    let mut position: usize = 0;
    proof {
        assert(indices@.take(0) =~= Seq::<u16>::empty());
        lemma_pow2048_11();
    }
    while position < PREFIX_WORD_COUNT
        invariant
            position <= PREFIX_WORD_COUNT,
            index_error(indices@.take(position as int)) is None,
            prefix == prefix_value(indices@.take(position as int)),
            prefix < pow2048(position as nat),
            pow2048(11) == 0x200_0000_0000_0000_0000_0000_0000_0000,
        decreases PREFIX_WORD_COUNT - position,
    {
        let index = indices[position];
        let ghost before = indices@.take(position as int);
        let ghost after = indices@.take(position + 1);
        proof {
            assert(after.drop_last() =~= before);
            assert(after.last() == index);
        }
        if index >= WORD_LIST_SIZE {
            proof {
                lemma_index_error_prefix(indices@, position + 1);
            }
            return Err(Error::InvalidWordIndex { position, index });
        }
        proof {
            lemma_pow2048_monotonic(position as nat + 1, 11);
            assert(pow2048(position as nat + 1) == 2048 * pow2048(position as nat));
        }
        prefix = prefix * 2048 + index as u128;
        position = position + 1;
    }
    proof {
        assert(indices@.take(11) =~= indices@);
    }
    Ok(prefix)
}

/// Once a prefix of the indices has an error, the whole sequence has the same one.
proof fn lemma_index_error_prefix(indices: Seq<u16>, k: int)
    requires
        0 <= k <= indices.len(),
        index_error(indices.take(k)) is Some,
    ensures
        index_error(indices) == index_error(indices.take(k)),
    decreases indices.len() - k,
{
    if k < indices.len() {
        let next = indices.take(k + 1);
        assert(next.drop_last() =~= indices.take(k));
        lemma_index_error_prefix(indices, k + 1);
    } else {
        assert(indices.take(k) =~= indices);
    }
}


/// The big-endian bytes of the 128 entropy bits.
fn entropy_to_be_bytes(entropy: u128) -> (bytes: [u8; 16])
    ensures
        bytes@ == be_bytes(entropy as nat, 16),
{
    let mut bytes = [0u8; 16];
    let mut rest = entropy;
    let mut k: usize = 16;
    proof {
        assert(bytes@.subrange(16, 16) =~= Seq::<u8>::empty());
        assert(be_bytes(entropy as nat, 16) =~= be_bytes(entropy as nat, 16) + Seq::<u8>::empty());
    }
    while k > 0
        invariant
            k <= 16,
            bytes@.len() == 16,
            be_bytes(entropy as nat, 16) == be_bytes(rest as nat, k as nat) + bytes@.subrange(
                k as int,
                16,
            ),
        decreases k,
    {
        let ghost old_bytes = bytes@;
        let ghost old_rest = rest;
        bytes[k - 1] = (rest % 256) as u8;
        rest = rest / 256;
        k = k - 1;
        proof {
            assert(be_bytes(old_rest as nat, k as nat + 1) == be_bytes(rest as nat, k as nat).push(
                (old_rest % 256) as u8,
            ));
            assert(bytes@.subrange(k as int, 16) =~= seq![(old_rest % 256) as u8]
                + old_bytes.subrange(k + 1, 16));
            assert(be_bytes(rest as nat, k as nat).push((old_rest % 256) as u8) + old_bytes.subrange(
                k + 1,
                16,
            ) =~= be_bytes(rest as nat, k as nat) + bytes@.subrange(k as int, 16));
        }
    }
    proof {
        assert(be_bytes(rest as nat, 0) =~= Seq::<u8>::empty());
        assert(bytes@.subrange(0, 16) =~= bytes@);
    }
    bytes
}

/// The final word index for a 121-bit prefix and seven explicit entropy bits.
fn final_word_index(prefix: u128, entropy_bits: u8, Ghost(indices): Ghost<Seq<u16>>) -> (index: u16)
    requires
        prefix == prefix_value(indices),
        prefix < pow2048(11),
        pow2048(11) == 0x200_0000_0000_0000_0000_0000_0000_0000,
        entropy_bits <= MAX_ENTROPY_BITS,
    ensures
        index == final_index(indices, entropy_bits as nat),
        index < 2048,
        index / 16 == entropy_bits,
{
    // All sixteen bytes are hashed, including leading zero bytes.
    let entropy = prefix * 128 + entropy_bits as u128;
    let bytes = entropy_to_be_bytes(entropy);
    let digest = sha256_of_entropy(&bytes);
    let checksum = digest[0] / 16;
    (entropy_bits as u16) * 16 + checksum as u16
}

/// The sixteen entropy bytes of the mnemonic made of eleven word indices and
/// seven explicit entropy bits.
pub fn entropy_from_indices(indices: &[u16; PREFIX_WORD_COUNT], entropy_bits: u8) -> (result: Result<
    [u8; 16],
    Error,
>)
    ensures
        match index_error(indices@) {
            Some(e) => result == Err::<[u8; 16], Error>(e),
            None => if entropy_bits > MAX_ENTROPY_BITS {
                result == Err::<[u8; 16], Error>(Error::InvalidEntropyBits { value: entropy_bits })
            } else {
                result matches Ok(bytes) && bytes@ == entropy_bytes(indices@, entropy_bits as nat)
            },
        },
{
    let prefix = entropy_prefix(indices)?;
    validate_entropy_bits(entropy_bits)?;
    proof {
        lemma_pow2048_11();
    }
    Ok(entropy_to_be_bytes(prefix * 128 + entropy_bits as u128))
}

/// Checks that the explicit entropy bits fit in seven bits.
fn validate_entropy_bits(entropy_bits: u8) -> (result: Result<(), Error>)
    ensures
        entropy_bits <= MAX_ENTROPY_BITS ==> result is Ok,
        entropy_bits > MAX_ENTROPY_BITS ==> result == Err::<(), Error>(
            Error::InvalidEntropyBits { value: entropy_bits },
        ),
{
    if entropy_bits > MAX_ENTROPY_BITS {
        return Err(Error::InvalidEntropyBits { value: entropy_bits });
    }
    Ok(())
}

/// Resolves a BIP39 word index to its word in the requested language.
pub fn word_for_index_in(language: MnemonicLanguage, index: u16) -> (word: Option<&'static str>)
    ensures
        word is Some <==> index < 2048,
        word matches Some(w) ==> w@ == spec_word(language, index as int),
        word matches Some(w) ==> w@.len() <= 8,
        index < 2048 ==> forall|i: int|
            0 <= i < 2048 && i != index ==> #[trigger] spec_word(language, i) != spec_word(
                language,
                index as int,
            ),
{
    let words = bip39_words(language);
    proof {
        if index < 2048 {
            assert forall|i: int| 0 <= i < 2048 && i != index implies #[trigger] spec_word(language, i)
                != spec_word(language, index as int) by {
                assert(words@[i]@ != words@[index as int]@);
            }
        }
    }
    if (index as usize) < words.len() {
        Some(words[index as usize])
    } else {
        None
    }
}

/// The index of an exact English BIP39 word, if it is one.
pub open spec fn spec_word_index(word: Seq<char>) -> Option<u16> {
    if exists|i: int| 0 <= i < 2048 && #[trigger] spec_word(MnemonicLanguage::English, i) == word {
        Some(
            (choose|i: int| 0 <= i < 2048 && #[trigger] spec_word(MnemonicLanguage::English, i) == word) as u16,
        )
    } else {
        None
    }
}

/// Resolves an exact English BIP39 word to its index.
pub fn word_index(word: &str) -> (index: Option<u16>)
    ensures
        index == spec_word_index(word@),
        index matches Some(i) ==> i < 2048 && spec_word(MnemonicLanguage::English, i as int)
            == word@,
        index is None ==> forall|i: int|
            0 <= i < 2048 ==> spec_word(MnemonicLanguage::English, i) != word@,
{
    let index = bip39_find_english_word(word);
    proof {
        if let Some(i) = index {
            assert(spec_word(MnemonicLanguage::English, i as int) == word@);
            let j = choose|j: int| 0 <= j < 2048 && #[trigger] spec_word(MnemonicLanguage::English, j) == word@;
            assert(bip39_word_list(0)[j] == word@);
        }
    }
    index
}

/// Resolves an English BIP39 word index to its word.
pub fn word_for_index(index: u16) -> (word: Option<&'static str>)
    ensures
        word is Some <==> index < 2048,
        word matches Some(w) ==> w@ == spec_word(MnemonicLanguage::English, index as int),
        word matches Some(w) ==> w@.len() <= 8,
        word matches Some(w) ==> spec_word_index(w@) == Some(index),
{
    let word = word_for_index_in(MnemonicLanguage::English, index);
    proof {
        if index < 2048 {
            let w = spec_word(MnemonicLanguage::English, index as int);
            assert(exists|i: int| 0 <= i < 2048 && #[trigger] spec_word(MnemonicLanguage::English, i) == w);
            let j = choose|i: int| 0 <= i < 2048 && #[trigger] spec_word(MnemonicLanguage::English, i) == w;
            assert(j == index);
        }
    }
    word
}

/// Calculates one final word in the requested language from eleven BIP39
/// indices and seven entropy bits.
pub fn word_for_entropy_bits_in(
    language: MnemonicLanguage,
    indices: &[u16; PREFIX_WORD_COUNT],
    entropy_bits: u8,
) -> (result: Result<&'static str, Error>)
    ensures
        match index_error(indices@) {
            Some(e) => result == Err::<&'static str, Error>(e),
            None => if entropy_bits > MAX_ENTROPY_BITS {
                result == Err::<&'static str, Error>(
                    Error::InvalidEntropyBits { value: entropy_bits },
                )
            } else {
                result matches Ok(w) && w@ == spec_word(
                    language,
                    final_index(indices@, entropy_bits as nat) as int,
                )
            },
        },
{
    let prefix = entropy_prefix(indices)?;
    validate_entropy_bits(entropy_bits)?;
    proof {
        lemma_pow2048_11();
    }
    let index = final_word_index(prefix, entropy_bits, Ghost(indices@));
    match word_for_index_in(language, index) {
        Some(word) => Ok(word),
        None => Err(Error::InvalidWordIndex { position: PREFIX_WORD_COUNT, index }),
    }
}

/// Calculates one final English word from eleven BIP39 indices and seven
/// entropy bits.
pub fn word_for_entropy_bits(indices: &[u16; PREFIX_WORD_COUNT], entropy_bits: u8) -> (result:
    Result<&'static str, Error>)
    ensures
        match index_error(indices@) {
            Some(e) => result == Err::<&'static str, Error>(e),
            None => if entropy_bits > MAX_ENTROPY_BITS {
                result == Err::<&'static str, Error>(
                    Error::InvalidEntropyBits { value: entropy_bits },
                )
            } else {
                result matches Ok(w) && w@ == spec_word(
                    MnemonicLanguage::English,
                    final_index(indices@, entropy_bits as nat) as int,
                )
            },
        },
{
    word_for_entropy_bits_in(MnemonicLanguage::English, indices, entropy_bits)
}


/// Whether a word is an exact word of the English BIP39 list.
pub open spec fn is_english_word(word: Seq<char>) -> bool {
    exists|i: int| 0 <= i < 2048 && spec_word(MnemonicLanguage::English, i) == word
}

/// The word-list indices of eleven English words (each word's own index;
/// meaningful when every word is on the list).
pub open spec fn word_indices_of(words: Seq<&str>) -> Seq<u16> {
    Seq::new(11, |p: int| spec_word_index(words[p]@)->0)
}

/// Converts exactly eleven English BIP39 words to word-list indices.
pub fn indices_from_words(words: &[&str; PREFIX_WORD_COUNT]) -> (result: Result<
    [u16; PREFIX_WORD_COUNT],
    Error,
>)
    ensures
        result is Ok <==> forall|p: int| 0 <= p < 11 ==> is_english_word(#[trigger] words@[p]@),
        result matches Ok(indices) ==> forall|p: int|
            0 <= p < 11 ==> indices@[p] < 2048 && spec_word(
                MnemonicLanguage::English,
                #[trigger] indices@[p] as int,
            ) == words@[p]@,
        result matches Ok(indices) ==> indices@ == word_indices_of(words@),
        result matches Err(e) ==> (e matches Error::UnknownWord { position } && position < 11
            && !is_english_word(words@[position as int]@) && forall|q: int|
            0 <= q < position ==> is_english_word(#[trigger] words@[q]@)),
{
    let mut indices = [0u16; PREFIX_WORD_COUNT];
    let mut position: usize = 0;
    while position < PREFIX_WORD_COUNT
        invariant
            position <= PREFIX_WORD_COUNT,
            forall|p: int|
                0 <= p < position ==> indices@[p] < 2048 && spec_word(
                    MnemonicLanguage::English,
                    #[trigger] indices@[p] as int,
                ) == words@[p]@,
            forall|p: int|
                0 <= p < position ==> Some(#[trigger] indices@[p]) == spec_word_index(words@[p]@),
        decreases PREFIX_WORD_COUNT - position,
    {
        match word_index(words[position]) {
            Some(index) => {
                indices[position] = index;
            },
            None => {
                proof {
                    assert forall|q: int| 0 <= q < position implies is_english_word(
                        #[trigger] words@[q]@,
                    ) by {
                        assert(spec_word(MnemonicLanguage::English, indices@[q] as int)
                            == words@[q]@);
                    }
                    assert(!is_english_word(words@[position as int]@));
                }
                return Err(Error::UnknownWord { position });
            },
        }
        position = position + 1;
    }
    proof {
        assert forall|p: int| 0 <= p < 11 implies is_english_word(#[trigger] words@[p]@) by {
            assert(spec_word(MnemonicLanguage::English, indices@[p] as int) == words@[p]@);
        }
        assert forall|p: int| 0 <= p < 11 implies indices@[p] == word_indices_of(words@)[p] by {
            assert(Some(indices@[p]) == spec_word_index(words@[p]@));
        }
        assert(indices@ =~= word_indices_of(words@));
    }
    Ok(indices)
}

/// The 128 valid BIP39 final-word candidates associated with one 11-word
/// prefix.
///
/// Candidate position `n` corresponds to the explicit seven-bit entropy value
/// `n`; its word index carries `n` in its top seven bits.
#[derive(Debug, PartialEq, Eq)]
pub struct LastWordCandidates {
    word_indices: [u16; CANDIDATE_COUNT],
}

impl View for LastWordCandidates {
    type V = Seq<u16>;

    closed spec fn view(&self) -> Seq<u16> {
        self.word_indices@
    }
}

impl LastWordCandidates {
    /// Every candidate position holds a word index whose top seven bits are
    /// the position.
    #[verifier::type_invariant]
    closed spec fn candidates_inv(self) -> bool {
        &&& self.word_indices@.len() == 128
        &&& forall|n: int| 0 <= n < 128 ==> (#[trigger] self.word_indices@[n]) / 16 == n
    }

    /// Returns the number of candidates, always [`CANDIDATE_COUNT`].
    pub fn len(&self) -> (count: usize)
        ensures
            count == CANDIDATE_COUNT,
            count == self@.len(),
    {
        proof {
            use_type_invariant(self);
        }
        CANDIDATE_COUNT
    }

    /// Candidate sets are never empty.
    pub fn is_empty(&self) -> (empty: bool)
        ensures
            !empty,
            empty == (self@.len() == 0),
    {
        proof {
            use_type_invariant(self);
        }
        false
    }

    /// Returns the BIP39 indices for all candidates.
    pub fn word_indices(&self) -> (indices: &[u16; CANDIDATE_COUNT])
        ensures
            indices@ == self@,
            forall|n: int| 0 <= n < 128 ==> #[trigger] indices@[n] / 16 == n,
    {
        proof {
            use_type_invariant(self);
        }
        &self.word_indices
    }

    /// Returns the candidate's BIP39 word index for the given seven bits.
    pub fn word_index_for_entropy_bits(&self, entropy_bits: u8) -> (result: Result<u16, Error>)
        ensures
            entropy_bits < 128 ==> result == Ok::<u16, Error>(self@[entropy_bits as int]),
            entropy_bits < 128 ==> self@[entropy_bits as int] / 16 == entropy_bits,
            entropy_bits >= 128 ==> result == Err::<u16, Error>(
                Error::InvalidEntropyBits { value: entropy_bits },
            ),
    {
        proof {
            use_type_invariant(self);
        }
        if (entropy_bits as usize) < CANDIDATE_COUNT {
            Ok(self.word_indices[entropy_bits as usize])
        } else {
            Err(Error::InvalidEntropyBits { value: entropy_bits })
        }
    }

    /// Returns the candidate's English BIP39 word for the given seven bits.
    pub fn word_for_entropy_bits(&self, entropy_bits: u8) -> (result: Result<&'static str, Error>)
        ensures
            entropy_bits < 128 ==> (result matches Ok(w) && w@ == spec_word(
                MnemonicLanguage::English,
                self@[entropy_bits as int] as int,
            )),
            entropy_bits >= 128 ==> result == Err::<&'static str, Error>(
                Error::InvalidEntropyBits { value: entropy_bits },
            ),
    {
        proof {
            use_type_invariant(self);
        }
        let index = self.word_index_for_entropy_bits(entropy_bits)?;
        proof {
            assert(self.word_indices@[entropy_bits as int] / 16 == entropy_bits);
        }
        match word_for_index(index) {
            Some(word) => Ok(word),
            None => Err(Error::InvalidWordIndex { position: PREFIX_WORD_COUNT, index }),
        }
    }
}

/// Calculates all valid final-word candidates from eleven English BIP39 indices.
pub fn candidates_from_indices(indices: &[u16; PREFIX_WORD_COUNT]) -> (result: Result<
    LastWordCandidates,
    Error,
>)
    ensures
        match index_error(indices@) {
            Some(e) => result == Err::<LastWordCandidates, Error>(e),
            None => result matches Ok(candidates) && candidates@.len() == 128 && forall|n: int|
                0 <= n < 128 ==> #[trigger] candidates@[n] == final_index(indices@, n as nat),
        },
        // The word index at position `n` carries `n` in its top seven bits,
        // so the 128 candidates are pairwise distinct.
        result matches Ok(candidates) ==> forall|n: int|
            0 <= n < 128 ==> #[trigger] candidates@[n] / 16 == n,
        result matches Ok(candidates) ==> forall|m: int, n: int|
            0 <= m < 128 && 0 <= n < 128 && m != n ==> #[trigger] candidates@[m]
                != #[trigger] candidates@[n],
{
    let prefix = entropy_prefix(indices)?;
    proof {
        lemma_pow2048_11();
    }
    let mut word_indices = [0u16; CANDIDATE_COUNT];
    let mut entropy_bits: u8 = 0;
    while entropy_bits <= MAX_ENTROPY_BITS
        invariant
            entropy_bits <= 128,
            prefix == prefix_value(indices@),
            prefix < pow2048(11),
            pow2048(11) == 0x200_0000_0000_0000_0000_0000_0000_0000,
            forall|n: int|
                0 <= n < entropy_bits ==> #[trigger] word_indices@[n] == final_index(
                    indices@,
                    n as nat,
                ) && word_indices@[n] / 16 == n,
        decreases 128 - entropy_bits,
    {
        word_indices[entropy_bits as usize] = final_word_index(prefix, entropy_bits, Ghost(indices@));
        entropy_bits = entropy_bits + 1;
    }
    let candidates = LastWordCandidates { word_indices };
    Ok(candidates)
}

/// Whether eleven word indices point at the given English words.
pub open spec fn indices_spell_words(indices: Seq<u16>, words: Seq<&str>) -> bool {
    &&& indices.len() == 11
    &&& words.len() == 11
    &&& forall|p: int|
        0 <= p < 11 ==> indices[p] < 2048 && spec_word(MnemonicLanguage::English, #[trigger] indices[p] as int)
            == words[p]@
}

/// Calculates all valid final-word candidates from eleven English BIP39 words.
pub fn candidates_from_words(words: &[&str; PREFIX_WORD_COUNT]) -> (result: Result<
    LastWordCandidates,
    Error,
>)
    ensures
        result is Ok <==> forall|p: int| 0 <= p < 11 ==> is_english_word(#[trigger] words@[p]@),
        result matches Err(e) ==> (e matches Error::UnknownWord { position } && position < 11
            && !is_english_word(words@[position as int]@) && forall|q: int|
            0 <= q < position ==> is_english_word(#[trigger] words@[q]@)),
        result matches Ok(candidates) ==> exists|indices: Seq<u16>|
            #[trigger] indices_spell_words(indices, words@) && forall|n: int|
                0 <= n < 128 ==> #[trigger] candidates@[n] == final_index(indices, n as nat),
        result matches Ok(candidates) ==> indices_spell_words(word_indices_of(words@), words@)
            && candidates@.len() == 128 && forall|n: int|
            0 <= n < 128 ==> #[trigger] candidates@[n] == final_index(
                word_indices_of(words@),
                n as nat,
            ),
{
    let indices = indices_from_words(words)?;
    proof {
        lemma_index_error_none_valid(indices@);
        assert(all_indices_valid(indices@));
    }
    let result = candidates_from_indices(&indices);
    proof {
        assert(indices_spell_words(indices@, words@));
    }
    result
}


/// The UTF-8 bytes of the word at `index` of the English list.
pub open spec fn english_word_bytes(index: int) -> Seq<u8> {
    encode_utf8(spec_word(MnemonicLanguage::English, index))
}

/// The first position at or after `from` whose English word starts with
/// `prefix` (2048 when there is none).
pub open spec fn first_match_from(prefix: Seq<u8>, from: int) -> int
    decreases 2048 - from,
{
    if from >= 2048 {
        2048
    } else if starts_with(english_word_bytes(from), prefix) {
        from
    } else {
        first_match_from(prefix, from + 1)
    }
}

/// The first position at or after `from` whose English word does not start
/// with `prefix` (2048 when there is none).
pub open spec fn match_run_end(prefix: Seq<u8>, from: int) -> int
    decreases 2048 - from,
{
    if from >= 2048 {
        2048
    } else if !starts_with(english_word_bytes(from), prefix) {
        from
    } else {
        match_run_end(prefix, from + 1)
    }
}

/// The start of the contiguous English word-list range for `prefix`.
pub open spec fn prefix_range_start(prefix: Seq<u8>) -> int {
    first_match_from(prefix, 0)
}

/// The end of the contiguous English word-list range for `prefix`.
pub open spec fn prefix_range_end(prefix: Seq<u8>) -> int {
    let start = first_match_from(prefix, 0);
    if start >= 2048 {
        start
    } else {
        match_run_end(prefix, start)
    }
}

/// The number of English words in the range for `prefix`.
pub open spec fn prefix_range_len(prefix: Seq<u8>) -> nat {
    (prefix_range_end(prefix) - prefix_range_start(prefix)) as nat
}

proof fn lemma_first_match_from(prefix: Seq<u8>, from: int)
    requires
        0 <= from <= 2048,
    ensures
        from <= first_match_from(prefix, from) <= 2048,
        first_match_from(prefix, from) < 2048 ==> starts_with(
            english_word_bytes(first_match_from(prefix, from)),
            prefix,
        ),
        forall|j: int|
            from <= j < first_match_from(prefix, from) ==> !starts_with(
                #[trigger] english_word_bytes(j),
                prefix,
            ),
    decreases 2048 - from,
{
    if from < 2048 && !starts_with(english_word_bytes(from), prefix) {
        lemma_first_match_from(prefix, from + 1);
    }
}

proof fn lemma_match_run_end(prefix: Seq<u8>, from: int)
    requires
        0 <= from <= 2048,
    ensures
        from <= match_run_end(prefix, from) <= 2048,
        match_run_end(prefix, from) < 2048 ==> !starts_with(
            english_word_bytes(match_run_end(prefix, from)),
            prefix,
        ),
        forall|j: int|
            from <= j < match_run_end(prefix, from) ==> starts_with(
                #[trigger] english_word_bytes(j),
                prefix,
            ),
    decreases 2048 - from,
{
    if from < 2048 && starts_with(english_word_bytes(from), prefix) {
        lemma_match_run_end(prefix, from + 1);
    }
}

/// The range of English words for `prefix` starts at the first word with
/// the prefix, and every word inside it has the prefix.
pub proof fn lemma_prefix_range(prefix: Seq<u8>)
    ensures
        0 <= prefix_range_start(prefix) <= prefix_range_end(prefix) <= 2048,
        forall|j: int|
            0 <= j < prefix_range_start(prefix) ==> !starts_with(
                #[trigger] english_word_bytes(j),
                prefix,
            ),
        forall|j: int|
            prefix_range_start(prefix) <= j < prefix_range_end(prefix) ==> starts_with(
                #[trigger] english_word_bytes(j),
                prefix,
            ),
        prefix_range_start(prefix) < 2048 ==> prefix_range_start(prefix) < prefix_range_end(
            prefix,
        ),
        prefix_range_end(prefix) < 2048 ==> !starts_with(
            english_word_bytes(prefix_range_end(prefix)),
            prefix,
        ),
{
    lemma_first_match_from(prefix, 0);
    let start = first_match_from(prefix, 0);
    if start < 2048 {
        lemma_match_run_end(prefix, start);
    }
}

/// Whether the English word list is in increasing byte order.
pub open spec fn english_sorted() -> bool {
    forall|i: int, j: int|
        0 <= i < j < 2048 ==> lex_lt(#[trigger] english_word_bytes(i), #[trigger] english_word_bytes(j))
}

/// In byte order, whatever lies between two texts with the same prefix has
/// that prefix too.
proof fn lemma_between_shares_prefix(a: Seq<u8>, b: Seq<u8>, c: Seq<u8>, p: Seq<u8>)
    requires
        starts_with(a, p),
        starts_with(c, p),
        lex_lt(a, b),
        lex_lt(b, c),
    ensures
        starts_with(b, p),
    decreases p.len(),
{
    if p.len() > 0 {
        assert(a[0] == p[0]);
        assert(c[0] == p[0]);
        assert(b.len() > 0);
        assert(b[0] == p[0]);
        let p1 = p.drop_first();
        assert(a.drop_first().subrange(0, p1.len() as int) =~= a.subrange(0, p.len() as int).drop_first());
        assert(c.drop_first().subrange(0, p1.len() as int) =~= c.subrange(0, p.len() as int).drop_first());
        lemma_between_shares_prefix(a.drop_first(), b.drop_first(), c.drop_first(), p1);
        assert(b.subrange(0, p.len() as int) =~= seq![b[0]] + b.drop_first().subrange(0, p1.len() as int));
        assert(p =~= seq![p[0]] + p1);
    } else {
        assert(b.subrange(0, 0) =~= p);
    }
}

/// With the list in byte order, the range for a prefix holds every English
/// word that starts with it.
proof fn lemma_prefix_range_complete(prefix: Seq<u8>)
    requires
        english_sorted(),
    ensures
        forall|j: int|
            0 <= j < 2048 && starts_with(#[trigger] english_word_bytes(j), prefix) ==> prefix_range_start(prefix)
                <= j < prefix_range_end(prefix),
{
    lemma_prefix_range(prefix);
    let start = prefix_range_start(prefix);
    let end = prefix_range_end(prefix);
    assert forall|j: int|
        0 <= j < 2048 && starts_with(#[trigger] english_word_bytes(j), prefix) implies start <= j
            < end by {
        if j >= end {
            assert(start < end);
            if j > end {
                lemma_between_shares_prefix(
                    english_word_bytes(start),
                    english_word_bytes(end),
                    english_word_bytes(j),
                    prefix,
                );
            }
        }
    }
}

/// A letter continues some English word with the prefix exactly when the
/// range for the prefix followed by that letter is not empty.
pub proof fn lemma_english_continuation(p: Seq<u8>, c: u8)
    ensures
        (prefix_range_len(p.push(c)) > 0) == exists|j: int|
            0 <= j < 2048 && starts_with(english_word_bytes(j), p) && english_word_bytes(j).len()
                > p.len() && #[trigger] english_word_bytes(j)[p.len() as int] == c,
{
    let q = p.push(c);
    lemma_prefix_range(q);
    assert forall|w: Seq<u8>| #[trigger] starts_with(w, q) <==> (starts_with(w, p) && w.len()
        > p.len() && w[p.len() as int] == c) by {
        lemma_starts_with_push(w, p, c);
    }
    if prefix_range_len(q) > 0 {
        let j = prefix_range_start(q);
        assert(starts_with(english_word_bytes(j), q));
        assert(english_word_bytes(j)[p.len() as int] == c);
    }
    if exists|j: int|
        0 <= j < 2048 && starts_with(english_word_bytes(j), p) && english_word_bytes(j).len()
            > p.len() && #[trigger] english_word_bytes(j)[p.len() as int] == c {
        let j = choose|j: int|
            0 <= j < 2048 && starts_with(english_word_bytes(j), p) && english_word_bytes(j).len()
                > p.len() && #[trigger] english_word_bytes(j)[p.len() as int] == c;
        assert(starts_with(english_word_bytes(j), q));
    }
}

/// Returns the contiguous English BIP39 word-list range that begins with
/// `prefix`: from the first word with the prefix up to the next word without
/// it, which (the list being sorted) holds every English word with the
/// prefix. The words are static data and do not allocate; an empty prefix
/// returns the complete English word list.
pub fn words_by_prefix(prefix: &str) -> (words: &'static [&'static str])
    ensures
        words@.len() == prefix_range_len(prefix.spec_bytes()),
        forall|i: int|
            0 <= i < words@.len() ==> #[trigger] words@[i]@ == spec_word(
                MnemonicLanguage::English,
                prefix_range_start(prefix.spec_bytes()) + i,
            ),
        forall|j: int|
            0 <= j < 2048 && starts_with(#[trigger] english_word_bytes(j), prefix.spec_bytes())
                ==> prefix_range_start(prefix.spec_bytes()) <= j < prefix_range_start(
                prefix.spec_bytes(),
            ) + words@.len(),
{
    let list = bip39_words(MnemonicLanguage::English);
    proof {
        assert forall|i: int, j: int| 0 <= i < j < 2048 implies lex_lt(
            #[trigger] english_word_bytes(i),
            #[trigger] english_word_bytes(j),
        ) by {
            assert(list@[i]@ == bip39_word_list(0)[i]);
            assert(list@[j]@ == bip39_word_list(0)[j]);
        }
        lemma_prefix_range_complete(prefix.spec_bytes());
    }
    let prefix_bytes = prefix.as_bytes();
    let ghost p = prefix.spec_bytes();
    proof {
        lemma_first_match_from(p, 0);
    }
    let mut first: usize = 0;
    let mut found = false;
    while first < 2048 && !found
        invariant
            first <= 2048,
            first_match_from(p, first as int) == first_match_from(p, 0),
            found ==> first < 2048 && starts_with(english_word_bytes(first as int), p),
            prefix_bytes@ == p,
            list@.len() == 2048,
            bip39_word_list(0).len() == 2048,
            forall|i: int| 0 <= i < 2048 ==> #[trigger] list@[i]@ == bip39_word_list(0)[i],
        decreases 2049 - first - (if found { 1int } else { 0int }),
    {
        if bytes_start_with(list[first].as_bytes(), prefix_bytes) {
            found = true;
        } else {
            first = first + 1;
        }
    }
    if !found {
        return slice_subrange(list.as_slice(), 0, 0);
    }
    proof {
        lemma_match_run_end(p, first as int);
    }
    let mut end: usize = first;
    let mut done = false;
    while end < 2048 && !done
        invariant
            first <= end <= 2048,
            first == first_match_from(p, 0),
            match_run_end(p, end as int) == match_run_end(p, first as int),
            done ==> end < 2048 && !starts_with(english_word_bytes(end as int), p),
            prefix_bytes@ == p,
            list@.len() == 2048,
            bip39_word_list(0).len() == 2048,
            forall|i: int| 0 <= i < 2048 ==> #[trigger] list@[i]@ == bip39_word_list(0)[i],
        decreases 2049 - end - (if done { 1int } else { 0int }),
    {
        if bytes_start_with(list[end].as_bytes(), prefix_bytes) {
            end = end + 1;
        } else {
            done = true;
        }
    }
    slice_subrange(list.as_slice(), first, end)
}

} // verus!
