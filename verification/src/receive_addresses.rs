//! BIP84 receive addresses of the finalized mnemonic, derived page by page
//! and kept for back navigation.
//!
//! The seed and the private extended keys are used only while the cache is
//! built; the cache keeps the account's public descriptor, its script index
//! and the pages already shown.

use crate::address_text::{
    address_lines, descriptor_chunks_valid, descriptor_lines, format_address_for_display,
    format_descriptor_for_display,
};
use crate::last_word::MnemonicLanguage;
use crate::mnemonic::LastWordFlow;
use crate::text::{decimal, push_decimal, string_from};
use bdk_chain::bitcoin::bip32::{ChildNumber, DerivationPath, Fingerprint, Xpriv, Xpub};
use bdk_chain::bitcoin::secp256k1::Secp256k1;
use bdk_chain::bitcoin::{Address, Network, ScriptBuf};
use bdk_chain::indexer::keychain_txout::KeychainTxOutIndex;
use bip39::Mnemonic;
use miniscript::descriptor::{DescriptorXKey, Wildcard};
use miniscript::{Descriptor, DescriptorPublicKey};
use vstd::prelude::*;
use vstd::utf8::{
    encode_scalar, encode_utf8, encode_utf8_first_scalar, encode_utf8_valid_utf8,
    is_ascii_chars, is_ascii_chars_encode_utf8, is_char_boundary, length_of_first_scalar,
    pop_first_scalar,
};

verus! {

/// Addresses shown on one page of the address screen.
pub const ADDRESSES_PER_PAGE: usize = 1;

/// The largest unhardened BIP32 child index.
pub const MAX_BIP32_DERIVATION_INDEX: u32 = 0x7fff_ffff;

/// The BIP44 purpose of native SegWit single-key accounts.
pub const BIP84_PURPOSE: u32 = 84;

#[verifier::external_type_specification]
#[verifier::external_body]
pub struct ExDerivationPath(DerivationPath);

#[verifier::external_type_specification]
#[verifier::external_body]
#[verifier::reject_recursive_types(K)]
pub struct ExKeychainTxOutIndex<K>(KeychainTxOutIndex<K>);

/// The keychains of the receive-address index: only the external one.
#[derive(Clone, Copy, Debug, PartialEq, Eq, PartialOrd, Ord)]
pub enum Keychain {
    /// Receive addresses.
    External,
}

/// Why receive addresses could not be derived.
#[derive(Clone, Copy, Debug, PartialEq, Eq, Structural)]
pub enum AddressListError {
    /// The seed gave no master key.
    InvalidMasterKey,
    /// The account path could not be built or derived.
    InvalidAccountPath,
    /// The descriptor could not be built or specialised to an index.
    InvalidDescriptor,
    /// The descriptor could not be added to the script index.
    UnableToIndexDescriptor,
    /// The script index could not reveal the requested address.
    UnableToRevealAddress,
    /// A script has no address form.
    UnsupportedScript,
    /// The flow has no finalized entropy.
    MissingEntropy,
}

/// One page of the address screen: the address rows (broken for the
/// display) and the descriptor of the page's address.
pub struct ReceiveAddressPage {
    /// The addresses of the page, each already broken into lines.
    pub rows: [String; ADDRESSES_PER_PAGE],
    /// The descriptor of the page's address.
    pub descriptor: String,
}

impl Clone for ReceiveAddressPage {
    fn clone(&self) -> (page: Self)
        ensures
            page == *self,
    {
        let page = ReceiveAddressPage {
            rows: [self.rows[0].clone()],
            descriptor: self.descriptor.clone(),
        };
        proof {
            assert(page.rows@ =~= self.rows@);
            assert(page.rows == self.rows);
        }
        page
    }
}

/// The 64-byte BIP39 seed of the mnemonic for the entropy in the word list
/// (0 English, 1 Simplified Chinese) with the passphrase, as
/// `bip39::Mnemonic::to_seed` computes it.
pub uninterp spec fn bip39_seed(language: nat, entropy: Seq<u8>, passphrase: Seq<char>) -> Seq<u8>;

/// The BIP32 encoding (`Xpriv::encode`, 78 bytes) of the mainnet master key
/// that `Xpriv::new_master` makes of a seed; `None` when it refuses the seed.
pub uninterp spec fn bip32_master_key(seed: Seq<u8>) -> Option<Seq<u8>>;

/// Whether `Xpriv::decode` accepts the bytes as an encoded private key.
pub uninterp spec fn xpriv_decodes(key: Seq<u8>) -> bool;

/// Whether `Xpub::decode` accepts the bytes as an encoded public key.
pub uninterp spec fn xpub_decodes(key: Seq<u8>) -> bool;

/// The fingerprint (4 bytes) of an encoded private key, as
/// `Xpriv::fingerprint` gives it.
pub uninterp spec fn bip32_fingerprint(key: Seq<u8>) -> Seq<u8>;

/// The encoding of the private key that `Xpriv::derive_priv` derives from
/// an encoded key along child numbers (in their `u32` form).
pub uninterp spec fn bip32_derived_key(key: Seq<u8>, path: Seq<u32>) -> Seq<u8>;

/// The encoding (`Xpub::encode`) of the public key of an encoded private
/// key, as `Xpub::from_priv` makes it.
pub uninterp spec fn bip32_public_key(key: Seq<u8>) -> Seq<u8>;

/// The text (`Display`) of the `wpkh` descriptor over the
/// `DescriptorPublicKey::XPub` of an encoded xpub with origin
/// `[fingerprint/account path]`, the derivation below the xpub and an
/// unhardened wildcard, as `Descriptor::new_wpkh` builds it.
pub uninterp spec fn wpkh_descriptor_text(
    fingerprint: Seq<u8>,
    account_path: Seq<u32>,
    xpub: Seq<u8>,
    derivation: Seq<u32>,
) -> Seq<char>;

/// The script pubkey (its bytes) of the descriptor written as `descriptor`
/// at derivation index `index`: `Descriptor::at_derivation_index`, then
/// `script_pubkey`.
pub uninterp spec fn descriptor_script(descriptor: Seq<char>, index: u32) -> Seq<u8>;

/// The text (`Display`) of the descriptor written as `descriptor` at
/// derivation index `index`, as `Descriptor::at_derivation_index` gives it.
pub uninterp spec fn descriptor_text_at_index(descriptor: Seq<char>, index: u32) -> Seq<char>;

/// Whether the child numbers are all normal (below 2^31).
pub open spec fn normal_steps(path: Seq<u32>) -> bool {
    forall|i: int| 0 <= i < path.len() ==> #[trigger] path[i] < 0x8000_0000
}

/// Whether a text is the descriptor of an account: the `wpkh` descriptor
/// written by `wpkh_account_descriptor` over a valid xpub, with normal steps
/// below the xpub and an unhardened wildcard.
pub open spec fn is_account_descriptor(text: Seq<char>) -> bool {
    exists|fingerprint: Seq<u8>, account_path: Seq<u32>, xpub: Seq<u8>, derivation: Seq<u32>|
        xpub_decodes(xpub) && normal_steps(derivation) && text == #[trigger] wpkh_descriptor_text(
            fingerprint,
            account_path,
            xpub,
            derivation,
        )
}

/// Calls `bip39::Mnemonic::from_entropy_in` and then `Mnemonic::to_seed`
/// with the passphrase: a function from plain values to plain values. The
/// source accepts any entropy whose bit count is a multiple of 32 between 128
/// and 256, so sixteen bytes always give a mnemonic, and the seed is named.
#[verifier::external_body]
fn seed_from_entropy(language: MnemonicLanguage, entropy: &[u8; 16], passphrase: &str) -> (seed:
    Option<[u8; 64]>)
    ensures
        seed is Some,
        seed matches Some(s) ==> s@ == bip39_seed(language@, entropy@, passphrase@),
{
    let language = match language {
        MnemonicLanguage::English => bip39::Language::English,
        MnemonicLanguage::SimplifiedChinese => bip39::Language::SimplifiedChinese,
    };
    match Mnemonic::from_entropy_in(language, entropy) {
        Ok(mnemonic) => Some(mnemonic.to_seed(passphrase)),
        Err(_) => None,
    }
}

/// Calls `Xpriv::new_master` for mainnet and returns the key's encoding
/// (`Xpriv::encode`). The source writes depth 0 at byte 4 of a master key,
/// and `Xpriv::decode` accepts what `encode` writes of a valid key.
#[verifier::external_body]
fn master_key(seed: &[u8; 64]) -> (key: Option<[u8; 78]>)
    ensures
        key is Some <==> bip32_master_key(seed@) is Some,
        key matches Some(k) ==> Some(k@) == bip32_master_key(seed@) && xpriv_decodes(k@) && k@[4]
            == 0,
{
    match Xpriv::new_master(Network::Bitcoin, seed) {
        Ok(key) => Some(key.encode()),
        Err(_) => None,
    }
}

/// Calls `Xpriv::fingerprint` with a signing context on the decoded key;
/// `None` exactly when `Xpriv::decode` refuses the bytes.
#[verifier::external_body]
fn key_fingerprint(key: &[u8; 78]) -> (fingerprint: Option<[u8; 4]>)
    ensures
        fingerprint is Some <==> xpriv_decodes(key@),
        fingerprint matches Some(f) ==> f@ == bip32_fingerprint(key@),
{
    match Xpriv::decode(key) {
        Ok(key) => {
            let fingerprint = key.fingerprint(&Secp256k1::signing_only());
            let bytes: &[u8; 4] = fingerprint.as_ref();
            Some(*bytes)
        },
        Err(_) => None,
    }
}

/// Calls `ChildNumber::from_hardened_idx` and returns the child number in
/// its `u32` form (`From<ChildNumber> for u32`). The source accepts exactly
/// the indices below 2^31 and sets bit 31 in the `u32` form of a hardened
/// child.
#[verifier::external_body]
fn hardened_child(index: u32) -> (child: Option<u32>)
    ensures
        child is Some <==> index < 0x8000_0000,
        child matches Some(number) ==> number == index + 0x8000_0000,
{
    match ChildNumber::from_hardened_idx(index) {
        Ok(child) => Some(u32::from(child)),
        Err(_) => None,
    }
}

/// Calls `ChildNumber::from_normal_idx` and returns the child number in its
/// `u32` form, which for a normal child is the index itself. The source
/// accepts exactly the indices below 2^31.
#[verifier::external_body]
fn normal_child(index: u32) -> (child: Option<u32>)
    ensures
        child is Some <==> index < 0x8000_0000,
        child matches Some(number) ==> number == index,
{
    match ChildNumber::from_normal_idx(index) {
        Ok(child) => Some(u32::from(child)),
        Err(_) => None,
    }
}

/// The child numbers of a derivation path, in their `u32` form, as
/// `DerivationPath::to_u32_vec` returns them.
pub uninterp spec fn path_child_numbers(path: DerivationPath) -> Seq<u32>;

/// Builds a `DerivationPath` (its `FromIterator`) from child numbers given in
/// their `u32` form, each turned into a `ChildNumber` by
/// `From<u32> for ChildNumber`. That conversion and the one back to `u32`
/// are inverse in the source, so the path holds exactly these numbers.
#[verifier::external_body]
fn path_from_children(children: Vec<u32>) -> (path: DerivationPath)
    ensures
        path_child_numbers(path) == children@,
{
    children.into_iter().map(ChildNumber::from).collect()
}

/// Calls `Xpriv::derive_priv` with a signing context on the decoded key and
/// returns the derived key's encoding. Each step adds one to the depth
/// (byte 4 of the encoding) and fails only when the depth would pass 255
/// (`MaximumDepthExceeded`). The step's `expect` on an invalid child key is
/// left aside: its odds are about 2^-127.
#[verifier::external_body]
fn derive_private_key(key: &[u8; 78], path: &DerivationPath) -> (derived: Option<[u8; 78]>)
    ensures
        derived is Some <==> (xpriv_decodes(key@) && key@[4] + path_child_numbers(*path).len()
            <= 255),
        derived matches Some(d) ==> d@ == bip32_derived_key(key@, path_child_numbers(*path))
            && xpriv_decodes(d@) && d@[4] == key@[4] + path_child_numbers(*path).len(),
{
    match Xpriv::decode(key) {
        Ok(key) => match key.derive_priv(&Secp256k1::signing_only(), path) {
            Ok(derived) => Some(derived.encode()),
            Err(_) => None,
        },
        Err(_) => None,
    }
}

/// Calls `Xpub::from_priv` with a signing context on the decoded key and
/// returns the xpub's encoding, which `Xpub::decode` accepts; `None` exactly
/// when `Xpriv::decode` refuses the bytes.
#[verifier::external_body]
fn public_key(key: &[u8; 78]) -> (xpub: Option<[u8; 78]>)
    ensures
        xpub is Some <==> xpriv_decodes(key@),
        xpub matches Some(x) ==> x@ == bip32_public_key(key@) && xpub_decodes(x@),
{
    match Xpriv::decode(key) {
        Ok(key) => Some(Xpub::from_priv(&Secp256k1::signing_only(), &key).encode()),
        Err(_) => None,
    }
}

/// Calls `miniscript::Descriptor::new_wpkh` on the `DescriptorPublicKey::XPub`
/// built from the decoded account xpub with its origin, the derivation below
/// it and an unhardened wildcard, and writes the descriptor with its
/// `Display`. `new_wpkh` refuses only uncompressed and x-only keys, which an
/// xpub never is, so the text comes back exactly when `Xpub::decode` accepts
/// the xpub. The derivation below the xpub must take normal steps only: an
/// xpub cannot derive a hardened child, and the script index would fail on
/// one.
#[verifier::external_body]
fn wpkh_account_descriptor(
    fingerprint: [u8; 4],
    account_path: DerivationPath,
    xpub: &[u8; 78],
    derivation_path: DerivationPath,
) -> (descriptor: Option<String>)
    requires
        normal_steps(path_child_numbers(derivation_path)),
    ensures
        descriptor is Some <==> xpub_decodes(xpub@),
        descriptor matches Some(text) ==> text@ == wpkh_descriptor_text(
            fingerprint@,
            path_child_numbers(account_path),
            xpub@,
            path_child_numbers(derivation_path),
        ),
{
    let xkey = match Xpub::decode(xpub) {
        Ok(xkey) => xkey,
        Err(_) => return None,
    };
    let key = DescriptorPublicKey::XPub(DescriptorXKey {
        origin: Some((Fingerprint::from(fingerprint), account_path)),
        xkey,
        derivation_path,
        wildcard: Wildcard::Unhardened,
    });
    match Descriptor::new_wpkh(key) {
        Ok(descriptor) => Some(descriptor.to_string()),
        Err(_) => None,
    }
}

/// The last revealed derivation index of each keychain that has revealed
/// one, as `KeychainTxOutIndex::last_revealed_indices` returns them.
pub uninterp spec fn revealed_indices(index: KeychainTxOutIndex<Keychain>) -> Map<Keychain, u32>;

/// The last revealed derivation index stored for each descriptor (keyed by
/// the bytes of its descriptor id), the index's `last_revealed` table from
/// which the per-keychain values are read.
pub uninterp spec fn descriptor_revealed_indices(index: KeychainTxOutIndex<Keychain>) -> Map<
    Seq<u8>,
    u32,
>;

/// The descriptor (its `Display` text) of each keychain that has one in the
/// index, as `KeychainTxOutIndex::get_descriptor` reads it.
pub uninterp spec fn indexed_descriptors(index: KeychainTxOutIndex<Keychain>) -> Map<
    Keychain,
    Seq<char>,
>;

/// The ids (as bytes) of the descriptors in the index.
pub uninterp spec fn indexed_descriptor_ids(index: KeychainTxOutIndex<Keychain>) -> Set<Seq<u8>>;

/// The script pubkeys the index holds, by keychain and derivation index, as
/// `KeychainTxOutIndex::spk_at_index` reads them (as their bytes).
pub uninterp spec fn index_scripts(index: KeychainTxOutIndex<Keychain>) -> Map<(Keychain, u32), Seq<u8>>;

/// The address text of a script pubkey (its bytes) on mainnet, as
/// `Address::from_script` and the address's `Display` give it; `None` when
/// the script has no address form.
pub uninterp spec fn script_address_text(script: Seq<u8>) -> Option<Seq<char>>;

/// Whether every script the index holds is its keychain's descriptor's
/// script at its derivation index.
pub open spec fn scripts_follow_descriptors(index: KeychainTxOutIndex<Keychain>) -> bool {
    forall|key: (Keychain, u32)|
        #[trigger] index_scripts(index).contains_key(key) ==> indexed_descriptors(
            index,
        ).dom().contains(key.0) && index_scripts(index)[key] == descriptor_script(
            indexed_descriptors(index)[key.0],
            key.1,
        )
}

/// Calls `KeychainTxOutIndex::new` with the lookahead and the persistence
/// flag. The new index holds no descriptor, no script and has revealed
/// nothing.
#[verifier::external_body]
fn new_script_index(lookahead: u32, persist_spks: bool) -> (index: KeychainTxOutIndex<Keychain>)
    ensures
        revealed_indices(index).dom().is_empty(),
        descriptor_revealed_indices(index).dom().is_empty(),
        indexed_descriptors(index).dom().is_empty(),
        indexed_descriptor_ids(index).is_empty(),
        index_scripts(index).dom().is_empty(),
{
    KeychainTxOutIndex::new(lookahead, persist_spks)
}

/// Parses the account descriptor text (`FromStr`, which reads back what
/// `Display` wrote) and calls `KeychainTxOutIndex::insert_descriptor`;
/// whether it returned `Ok`. The source assigns the descriptor to a keychain
/// that has none when no keychain uses that descriptor yet; it never writes
/// the `last_revealed` table, so a keychain reads a revealed index afterwards
/// only where that table holds one; the scripts it holds stay, and the
/// lookahead scripts it adds are the descriptor's own; a refused insertion
/// changes no assignment. The derivation of lookahead scripts cannot fail:
/// an account descriptor derives through normal steps only.
#[verifier::external_body]
fn insert_keychain_descriptor(
    index: &mut KeychainTxOutIndex<Keychain>,
    keychain: Keychain,
    descriptor: &str,
) -> (inserted: bool)
    requires
        is_account_descriptor(descriptor@),
    ensures
        descriptor_revealed_indices(*final(index)) == descriptor_revealed_indices(*old(index)),
        descriptor_revealed_indices(*final(index)).dom().is_empty() ==> revealed_indices(
            *final(index),
        ).dom().is_empty(),
        !inserted ==> revealed_indices(*final(index)) == revealed_indices(*old(index)),
        !inserted ==> indexed_descriptors(*final(index)) == indexed_descriptors(*old(index)),
        inserted ==> indexed_descriptors(*final(index)) == indexed_descriptors(*old(index)).insert(
            keychain,
            descriptor@,
        ),
        !indexed_descriptors(*old(index)).dom().contains(keychain) && indexed_descriptor_ids(
            *old(index),
        ).is_empty() ==> inserted,
        forall|key: (Keychain, u32)|
            #[trigger] index_scripts(*old(index)).contains_key(key) ==> index_scripts(
                *final(index),
            ).contains_key(key) && index_scripts(*final(index))[key] == index_scripts(
                *old(index),
            )[key],
        scripts_follow_descriptors(*old(index)) ==> scripts_follow_descriptors(*final(index)),
{
    match descriptor.parse::<Descriptor<DescriptorPublicKey>>() {
        Ok(descriptor) => index.insert_descriptor(keychain, descriptor).is_ok(),
        Err(_) => false,
    }
}

/// Calls `KeychainTxOutIndex::reveal_to_target`; whether the keychain has a
/// descriptor. The source reveals the next index of the keychain while it is
/// new and at most `target_index`. An account descriptor has an unhardened
/// wildcard, so every index up to 2^31 - 1 is new in turn: the keychain ends
/// with the larger of its earlier index and the target revealed, and the
/// index holds the descriptor's script of every revealed index. Scripts
/// already held stay as they were, and no keychain gains or loses its
/// descriptor. The derivation cannot fail: an account descriptor takes
/// normal steps only.
#[verifier::external_body]
fn reveal_scripts_to(
    index: &mut KeychainTxOutIndex<Keychain>,
    keychain: Keychain,
    target_index: u32,
) -> (revealed: bool)
    requires
        target_index <= 0x7fff_ffff,
        indexed_descriptors(*old(index)).dom().contains(keychain) ==> is_account_descriptor(
            indexed_descriptors(*old(index))[keychain],
        ),
    ensures
        revealed == indexed_descriptors(*old(index)).dom().contains(keychain),
        indexed_descriptors(*final(index)) == indexed_descriptors(*old(index)),
        !revealed ==> revealed_indices(*final(index)) == revealed_indices(*old(index)),
        revealed ==> revealed_indices(*final(index)).dom().contains(keychain),
        revealed ==> revealed_indices(*final(index))[keychain] == (if revealed_indices(
            *old(index),
        ).dom().contains(keychain) && revealed_indices(*old(index))[keychain] > target_index {
            revealed_indices(*old(index))[keychain]
        } else {
            target_index
        }),
        revealed ==> forall|i: u32|
            i <= revealed_indices(*final(index))[keychain] ==> #[trigger] index_scripts(
                *final(index),
            ).contains_key((keychain, i)) && index_scripts(*final(index))[(keychain, i)]
                == descriptor_script(indexed_descriptors(*final(index))[keychain], i),
        forall|key: (Keychain, u32)|
            #[trigger] index_scripts(*old(index)).contains_key(key) ==> index_scripts(
                *final(index),
            ).contains_key(key) && index_scripts(*final(index))[key] == index_scripts(
                *old(index),
            )[key],
        scripts_follow_descriptors(*old(index)) ==> scripts_follow_descriptors(*final(index)),
{
    index.reveal_to_target(keychain, target_index).is_some()
}

/// Calls `KeychainTxOutIndex::spk_at_index` and returns the script's bytes.
#[verifier::external_body]
fn script_at(index: &KeychainTxOutIndex<Keychain>, keychain: Keychain, position: u32) -> (script:
    Option<Vec<u8>>)
    ensures
        script is Some == index_scripts(*index).contains_key((keychain, position)),
        script matches Some(bytes) ==> bytes@ == index_scripts(*index)[(keychain, position)],
{
    index.spk_at_index(keychain, position).map(|script| script.to_bytes())
}

/// Calls `KeychainTxOutIndex::last_revealed_index`, which reads the
/// keychain's entry of the revealed indices.
#[verifier::external_body]
fn last_revealed(index: &KeychainTxOutIndex<Keychain>, keychain: Keychain) -> (last: Option<u32>)
    ensures
        last == (if revealed_indices(*index).dom().contains(keychain) {
            Some(revealed_indices(*index)[keychain])
        } else {
            None
        }),
{
    index.last_revealed_index(keychain)
}

/// Calls `Address::from_script` for mainnet on the script's bytes and writes
/// the address with its `Display`, which is base58 or bech32 text, so ASCII.
/// The text is named.
#[verifier::external_body]
fn address_text_of(script: &[u8]) -> (text: Option<String>)
    ensures
        text is Some == script_address_text(script@) is Some,
        text matches Some(t) ==> script_address_text(script@) == Some(t@) && is_ascii_chars(t@),
{
    match Address::from_script(&ScriptBuf::from_bytes(script.to_vec()), Network::Bitcoin) {
        Ok(address) => Some(address.to_string()),
        Err(_) => None,
    }
}

/// Parses the account descriptor text (`FromStr`, which reads back what
/// `Display` wrote), calls `Descriptor::at_derivation_index` and writes the
/// result with its `Display`: the script type, the key origin in hex, the
/// base58 xpub, the path and the checksum, all ASCII. For the xpub with an
/// unhardened wildcard of an account descriptor, the source fails exactly
/// for an index of 2^31 or more.
#[verifier::external_body]
fn descriptor_text_at(descriptor: &str, position: u32) -> (text: Option<String>)
    requires
        is_account_descriptor(descriptor@),
    ensures
        text is Some <==> position < 0x8000_0000,
        text matches Some(t) ==> t@ == descriptor_text_at_index(descriptor@, position)
            && is_ascii_chars(t@),
{
    let parsed = match descriptor.parse::<Descriptor<DescriptorPublicKey>>() {
        Ok(parsed) => parsed,
        Err(_) => return None,
    };
    match parsed.at_derivation_index(position) {
        Ok(definite) => Some(definite.to_string()),
        Err(_) => None,
    }
}

/// A derivation path from child numbers, failing on the first one that
/// could not be built.
fn derivation_path(child_numbers: &[Option<u32>]) -> (path: Result<
    DerivationPath,
    AddressListError,
>)
    ensures
        path is Ok <==> forall|i: int| 0 <= i < child_numbers@.len() ==> #[trigger] child_numbers@[i] is Some,
        path is Err ==> path == Err::<DerivationPath, AddressListError>(
            AddressListError::InvalidAccountPath,
        ),
        path matches Ok(p) ==> path_child_numbers(p).len() == child_numbers@.len() && forall|i: int|
            0 <= i < child_numbers@.len() ==> #[trigger] child_numbers@[i] == Some(
                path_child_numbers(p)[i],
            ),
{
    let mut children: Vec<u32> = Vec::new();
    let mut i: usize = 0;
    while i < child_numbers.len()
        invariant
            i <= child_numbers@.len(),
            children@.len() == i,
            forall|j: int| 0 <= j < i ==> #[trigger] child_numbers@[j] == Some(children@[j]),
        decreases child_numbers@.len() - i,
    {
        match child_numbers[i] {
            Some(child) => children.push(child),
            None => return Err(AddressListError::InvalidAccountPath),
        }
        i = i + 1;
    }
    Ok(path_from_children(children))
}

/// The BIP84 account path `84'/0'/0'`.
fn bip84_account_path() -> (path: Result<DerivationPath, AddressListError>)
    ensures
        path matches Ok(p) && path_child_numbers(p) == seq![
            (BIP84_PURPOSE + 0x8000_0000) as u32,
            0x8000_0000u32,
            0x8000_0000u32,
        ],
{
    let children = [hardened_child(BIP84_PURPOSE), hardened_child(0), hardened_child(0)];
    let path = derivation_path(&children);
    proof {
        if path is Ok {
            assert(path_child_numbers(path->Ok_0) =~= seq![
                (BIP84_PURPOSE + 0x8000_0000) as u32,
                0x8000_0000u32,
                0x8000_0000u32,
            ]);
        }
    }
    path
}

/// The external-chain path `0` below the account.
fn bip84_external_path() -> (path: Result<DerivationPath, AddressListError>)
    ensures
        path matches Ok(p) && path_child_numbers(p) == seq![0u32],
{
    let children = [normal_child(0)];
    let path = derivation_path(&children);
    proof {
        if path is Ok {
            assert(path_child_numbers(path->Ok_0) =~= seq![0u32]);
        }
    }
    path
}

/// The pages derived so far, page `i` showing address index `i`; every
/// page's descriptor is ASCII, as the display layout needs.
pub struct AddressPages {
    pages: Vec<ReceiveAddressPage>,
}

impl AddressPages {
    #[verifier::type_invariant]
    closed spec fn descriptors_are_ascii(self) -> bool {
        forall|i: int|
            0 <= i < self.pages@.len() ==> is_ascii_chars(#[trigger] self.pages@[i].descriptor@)
    }

    /// The pages.
    pub closed spec fn view(&self) -> Seq<ReceiveAddressPage> {
        self.pages@
    }

    /// No pages.
    fn new() -> (pages: Self)
        ensures
            pages.view().len() == 0,
    {
        AddressPages { pages: Vec::new() }
    }

    /// The number of pages.
    fn len(&self) -> (count: usize)
        ensures
            count == self.view().len(),
    {
        self.pages.len()
    }

    /// A copy of page `i`, whose descriptor is ASCII.
    fn page(&self, i: usize) -> (page: ReceiveAddressPage)
        requires
            i < self.view().len(),
        ensures
            page == self.view()[i as int],
            is_ascii_chars(page.descriptor@),
    {
        proof {
            use_type_invariant(self);
        }
        self.pages[i].clone()
    }

    /// Appends a page with an ASCII descriptor.
    fn push(&mut self, page: ReceiveAddressPage)
        requires
            is_ascii_chars(page.descriptor@),
        ensures
            final(self).view() == old(self).view().push(page),
    {
        proof {
            use_type_invariant(&*self);
        }
        let mut pages: Vec<ReceiveAddressPage> = Vec::new();
        core::mem::swap(&mut pages, &mut self.pages);
        pages.push(page);
        self.pages = pages;
    }
}

/// The BIP84 account descriptor of a mnemonic and passphrase: the `wpkh`
/// descriptor over the xpub of account `84'/0'/0'` of the mainnet master key
/// of the BIP39 seed, with the master key's fingerprint and the account path
/// as its origin and the external chain `0` with a wildcard below it.
pub open spec fn bip84_account_descriptor(
    language: nat,
    entropy: Seq<u8>,
    passphrase: Seq<char>,
) -> Seq<char> {
    let master = bip32_master_key(bip39_seed(language, entropy, passphrase))->0;
    let account_path = seq![(BIP84_PURPOSE + 0x8000_0000) as u32, 0x8000_0000u32, 0x8000_0000u32];
    wpkh_descriptor_text(
        bip32_fingerprint(master),
        account_path,
        bip32_public_key(bip32_derived_key(master, account_path)),
        seq![0u32],
    )
}

/// Whether a page shows derivation index `index` of a descriptor: the
/// address of the descriptor's script there, broken for the display, and the
/// descriptor's text at that index.
pub open spec fn page_shows_index(page: ReceiveAddressPage, descriptor: Seq<char>, index: u32) -> bool {
    &&& script_address_text(descriptor_script(descriptor, index)) matches Some(text)
        && page.rows@[0]@ == address_lines(text)
    &&& page.descriptor@ == descriptor_text_at_index(descriptor, index)
}

/// Whether page `i` shows derivation index `i` of the descriptor.
pub open spec fn page_shows_position(
    pages: Seq<ReceiveAddressPage>,
    descriptor: Seq<char>,
    i: int,
) -> bool {
    page_shows_index(pages[i], descriptor, i as u32)
}

/// Whether every page `i` shows derivation index `i` of the descriptor.
pub open spec fn pages_show_descriptor(pages: Seq<ReceiveAddressPage>, descriptor: Seq<char>) -> bool {
    forall|i: int| 0 <= i < pages.len() ==> #[trigger] page_shows_position(pages, descriptor, i)
}

/// The index a page request ends with revealed: the larger of the earlier
/// one and the target.
pub open spec fn revealed_after(revealed: Map<Keychain, u32>, target_index: u32) -> u32 {
    if revealed.dom().contains(Keychain::External) && revealed[Keychain::External] > target_index {
        revealed[Keychain::External]
    } else {
        target_index
    }
}

/// Public-only state kept while the addresses of one finalized mnemonic are
/// browsed.
pub struct ReceiveAddressCache {
    descriptor: String,
    index: KeychainTxOutIndex<Keychain>,
    pages: AddressPages,
}

impl ReceiveAddressCache {
    /// The pages derived so far, page `i` showing address index `i`.
    pub closed spec fn pages(&self) -> Seq<ReceiveAddressPage> {
        self.pages.view()
    }

    /// The account descriptor whose addresses are browsed.
    pub closed spec fn descriptor(&self) -> Seq<char> {
        self.descriptor@
    }

    /// The last address index revealed so far for each keychain that has one.
    pub closed spec fn revealed(&self) -> Map<Keychain, u32> {
        revealed_indices(self.index)
    }

    /// The cache's invariant: the descriptor is an account descriptor and the
    /// external keychain's in the index, every script the index holds is its
    /// descriptor's, and page `i` shows index `i` of the descriptor.
    pub closed spec fn wf(&self) -> bool {
        &&& is_account_descriptor(self.descriptor@)
        &&& indexed_descriptors(self.index).dom() == set![Keychain::External]
        &&& indexed_descriptors(self.index)[Keychain::External] == self.descriptor@
        &&& scripts_follow_descriptors(self.index)
        &&& pages_show_descriptor(self.pages(), self.descriptor@)
    }

    /// The number of pages derived so far.
    pub fn page_count(&self) -> (count: usize)
        ensures
            count == self.pages().len(),
    {
        self.pages.len()
    }

    /// The last address index the script index has revealed for `keychain`.
    pub fn last_revealed_index(&self, keychain: Keychain) -> (last: Option<u32>)
        ensures
            last == (if self.revealed().dom().contains(keychain) {
                Some(self.revealed()[keychain])
            } else {
                None
            }),
    {
        last_revealed(&self.index, keychain)
    }

    /// Builds the cache for the finalized entropy of the flow, its word list
    /// and its passphrase.
    pub fn from_flow(flow: &LastWordFlow) -> (cache: Result<Self, AddressListError>)
        ensures
            !(flow.complete() && flow.entropy_confirmed && crate::last_word::index_error(
                flow.word_indices@,
            ) is None && flow.entropy_bits <= 127) ==> cache == Err::<Self, AddressListError>(
                AddressListError::MissingEntropy,
            ),
            (flow.complete() && flow.entropy_confirmed && crate::last_word::index_error(
                flow.word_indices@,
            ) is None && flow.entropy_bits <= 127) ==> ((cache is Ok) <==> bip32_master_key(
                bip39_seed(
                    flow.language@,
                    crate::last_word::entropy_bytes(flow.word_indices@, flow.entropy_bits as nat),
                    flow.passphrase@,
                ),
            ) is Some),
            cache matches Err(e) ==> e == AddressListError::MissingEntropy || e
                == AddressListError::InvalidMasterKey,
            cache matches Ok(c) ==> c.wf() && c.pages().len() == 0 && c.revealed().dom().is_empty()
                && c.descriptor() == bip84_account_descriptor(
                flow.language@,
                crate::last_word::entropy_bytes(flow.word_indices@, flow.entropy_bits as nat),
                flow.passphrase@,
            ),
    {
        let entropy = match flow.finalized_entropy() {
            Some(entropy) => entropy,
            None => return Err(AddressListError::MissingEntropy),
        };
        Self::from_entropy(entropy, flow.mnemonic_language(), flow.bip39_passphrase())
    }

    /// Builds the cache for sixteen entropy bytes, the word list and the
    /// BIP39 passphrase: the BIP84 account `84'/0'/0'` of the mainnet master
    /// key of the seed, as a `wpkh` descriptor over the external chain. It
    /// fails exactly when the seed gives no master key.
    pub fn from_entropy(entropy: [u8; 16], language: MnemonicLanguage, passphrase: &str) -> (cache:
        Result<Self, AddressListError>)
        ensures
            (cache is Ok) <==> bip32_master_key(bip39_seed(language@, entropy@, passphrase@)) is Some,
            cache matches Err(e) ==> e == AddressListError::InvalidMasterKey,
            cache matches Ok(c) ==> c.wf() && c.pages().len() == 0 && c.revealed().dom().is_empty()
                && c.descriptor() == bip84_account_descriptor(language@, entropy@, passphrase@),
    {
        let seed = match seed_from_entropy(language, &entropy, passphrase) {
            Some(seed) => seed,
            None => return Err(AddressListError::InvalidMasterKey),
        };
        let master = match master_key(&seed) {
            Some(master) => master,
            None => return Err(AddressListError::InvalidMasterKey),
        };
        let master_fingerprint = match key_fingerprint(&master) {
            Some(fingerprint) => fingerprint,
            None => return Err(AddressListError::InvalidMasterKey),
        };
        let account_path = match bip84_account_path() {
            Ok(path) => path,
            Err(e) => return Err(e),
        };
        let account_key = match derive_private_key(&master, &account_path) {
            Some(key) => key,
            None => return Err(AddressListError::InvalidAccountPath),
        };
        let account_xpub = match public_key(&account_key) {
            Some(xpub) => xpub,
            None => return Err(AddressListError::InvalidAccountPath),
        };
        let external_path = match bip84_external_path() {
            Ok(path) => path,
            Err(e) => return Err(e),
        };
        proof {
            assert(normal_steps(path_child_numbers(external_path)));
        }
        let ghost account_numbers = path_child_numbers(account_path);
        let ghost external_numbers = path_child_numbers(external_path);
        let descriptor = match wpkh_account_descriptor(
            master_fingerprint,
            account_path,
            &account_xpub,
            external_path,
        ) {
            Some(descriptor) => descriptor,
            None => return Err(AddressListError::InvalidDescriptor),
        };
        proof {
            assert(is_account_descriptor(descriptor@)) by {
                assert(descriptor@ == wpkh_descriptor_text(
                    master_fingerprint@,
                    account_numbers,
                    account_xpub@,
                    external_numbers,
                ));
            }
        }
        let mut index = new_script_index(0, false);
        if !insert_keychain_descriptor(&mut index, Keychain::External, descriptor.as_str()) {
            return Err(AddressListError::UnableToIndexDescriptor);
        }
        let cache = ReceiveAddressCache { descriptor, index, pages: AddressPages::new() };
        proof {
            assert(indexed_descriptors(cache.index).dom() =~= set![Keychain::External]);
            assert(pages_show_descriptor(cache.pages(), cache.descriptor@));
        }
        Ok(cache)
    }

    /// The page of address index `target_index`: the pages up to it are
    /// derived once and kept, so earlier pages come back unchanged. Page `i`
    /// shows index `i` of the account descriptor: the address of its script
    /// and its text at that index.
    pub fn page_at(&mut self, target_index: u32) -> (page: Result<
        ReceiveAddressPage,
        AddressListError,
    >)
        requires
            old(self).wf(),
        ensures
            final(self).wf(),
            final(self).descriptor() == old(self).descriptor(),
            pages_show_descriptor(final(self).pages(), final(self).descriptor()),
            final(self).pages().len() >= old(self).pages().len(),
            forall|i: int|
                0 <= i < old(self).pages().len() ==> #[trigger] final(self).pages()[i] == old(self).pages()[i],
            target_index > MAX_BIP32_DERIVATION_INDEX ==> page == Err::<
                ReceiveAddressPage,
                AddressListError,
            >(AddressListError::UnableToRevealAddress) && *final(self) == *old(self),
            target_index <= MAX_BIP32_DERIVATION_INDEX ==> final(self).revealed().dom().contains(
                Keychain::External,
            ) && final(self).revealed()[Keychain::External] == revealed_after(
                old(self).revealed(),
                target_index,
            ),
            target_index <= MAX_BIP32_DERIVATION_INDEX && page is Err ==> page == Err::<
                ReceiveAddressPage,
                AddressListError,
            >(AddressListError::UnsupportedScript),
            target_index <= MAX_BIP32_DERIVATION_INDEX && (forall|i: u32|
                i <= target_index ==> (#[trigger] script_address_text(
                    descriptor_script(old(self).descriptor(), i),
                )) is Some) ==> page is Ok,
            page matches Ok(p) ==> target_index < final(self).pages().len() && p
                == final(self).pages()[target_index as int],
            page matches Ok(p) ==> page_shows_index(p, final(self).descriptor(), target_index),
            page matches Ok(p) ==> is_ascii_chars(p.descriptor@),
    {
        if target_index > MAX_BIP32_DERIVATION_INDEX {
            return Err(AddressListError::UnableToRevealAddress);
        }
        let revealed = reveal_scripts_to(&mut self.index, Keychain::External, target_index);
        if !revealed {
            return Err(AddressListError::UnableToRevealAddress);
        }
        let target_position = target_index as usize;
        let ghost before = self.pages();
        let ghost index = self.index;
        let ghost descriptor = self.descriptor@;
        while self.pages.len() <= target_position
            invariant
                self.index == index,
                self.descriptor@ == descriptor,
                is_account_descriptor(descriptor),
                indexed_descriptors(index).dom() == set![Keychain::External],
                indexed_descriptors(index)[Keychain::External] == descriptor,
                scripts_follow_descriptors(index),
                revealed_indices(index).dom().contains(Keychain::External),
                revealed_indices(index)[Keychain::External] >= target_index,
                forall|i: u32|
                    i <= revealed_indices(index)[Keychain::External] ==> #[trigger] index_scripts(
                        index,
                    ).contains_key((Keychain::External, i)),
                pages_show_descriptor(self.pages(), descriptor),
                target_position == target_index,
                target_index <= MAX_BIP32_DERIVATION_INDEX,
                self.pages().len() >= before.len(),
                before == old(self).pages(),
                forall|i: int| 0 <= i < before.len() ==> #[trigger] self.pages()[i] == before[i],
            ensures
                self.index == index,
                self.descriptor@ == descriptor,
                pages_show_descriptor(self.pages(), descriptor),
                self.pages().len() >= before.len(),
                forall|i: int| 0 <= i < before.len() ==> #[trigger] self.pages()[i] == before[i],
                (forall|i: u32|
                    i <= target_index ==> (#[trigger] script_address_text(
                        descriptor_script(descriptor, i),
                    )) is Some) ==> self.pages().len() > target_position,
            decreases target_position + 1 - self.pages().len(),
        {
            let position = self.pages.len() as u32;
            proof {
                assert(index_scripts(index).contains_key((Keychain::External, position)));
            }
            let script = match script_at(&self.index, Keychain::External, position) {
                Some(script) => script,
                None => return Err(AddressListError::UnableToRevealAddress),
            };
            let address = match address_text_of(&script) {
                Some(address) => address,
                None => {
                    break;
                },
            };
            let page_descriptor = match descriptor_text_at(self.descriptor.as_str(), position) {
                Some(text) => text,
                None => return Err(AddressListError::InvalidDescriptor),
            };
            proof {
                is_ascii_chars_encode_utf8(address@);
                if address@.len() == 42 {
                    lemma_ascii_char_boundary(address@, 21);
                }
            }
            let ghost text = address@;
            let ghost old_pages = self.pages();
            let row = format_address_for_display(address);
            self.pages.push(ReceiveAddressPage { rows: [row], descriptor: page_descriptor });
            proof {
                let pages = self.pages();
                let last = pages.len() - 1;
                assert(pages[last].rows@[0]@ == address_lines(text));
                assert(page_shows_position(pages, descriptor, last));
                assert forall|i: int| 0 <= i < pages.len() implies #[trigger] page_shows_position(
                    pages,
                    descriptor,
                    i,
                ) by {
                    if i < last {
                        assert(pages[i] == old_pages[i]);
                        assert(page_shows_position(old_pages, descriptor, i));
                    }
                }
            }
        }
        if self.pages.len() <= target_position {
            return Err(AddressListError::UnsupportedScript);
        }
        proof {
            assert(page_shows_position(self.pages(), descriptor, target_position as int));
        }
        Ok(self.pages.page(target_position))
    }
}

/// What the address screen shows.
pub struct AddressScreen {
    /// The rows of the list.
    pub rows: Vec<String>,
    /// The descriptor under the list, broken into lines.
    pub descriptor: String,
    /// The first address index of the page.
    pub start_index: u32,
    /// Whether the addresses are still being derived.
    pub loading: bool,
    /// The caption of the page.
    pub page_label: String,
    /// Whether the page button back is enabled.
    pub has_previous_page: bool,
    /// Whether the page button forward is enabled.
    pub has_next_page: bool,
}

/// Whether `screen` shows `page` as the page of address index `start_index`.
pub open spec fn shows_page(screen: AddressScreen, page: ReceiveAddressPage, start_index: u32) -> bool {
    &&& screen.rows@.len() == 1
    &&& screen.rows@[0]@ == page.rows@[0]@
    &&& screen.descriptor@ == descriptor_lines(encode_utf8(page.descriptor@))
    &&& screen.start_index == start_index
    &&& !screen.loading
    &&& screen.page_label@ == "Index "@ + decimal(start_index as nat)
    &&& screen.has_previous_page == (start_index >= 1)
    &&& screen.has_next_page == (start_index <= MAX_BIP32_DERIVATION_INDEX - 1)
}

/// Whether `screen` says that no addresses can be derived.
pub open spec fn shows_unavailable(screen: AddressScreen) -> bool {
    &&& screen.rows@.len() == 1
    &&& screen.rows@[0]@ == "Unable to derive receive addresses."@
    &&& screen.descriptor@ == Seq::<char>::empty()
    &&& screen.start_index == 0
    &&& !screen.loading
    &&& screen.page_label@ == "Unavailable"@
    &&& !screen.has_previous_page
    &&& !screen.has_next_page
}

/// The address screen while the page from `start_index` is derived.
pub fn loading_address_screen(start_index: u32) -> (screen: AddressScreen)
    ensures
        screen.rows@.len() == 1,
        screen.rows@[0]@ == "Deriving BIP84 receive addresses..."@,
        screen.descriptor@ == Seq::<char>::empty(),
        screen.start_index == start_index,
        screen.loading,
        screen.page_label@ == "Preparing receive addresses"@,
        !screen.has_previous_page,
        !screen.has_next_page,
{
    let mut rows: Vec<String> = Vec::new();
    rows.push(string_from("Deriving BIP84 receive addresses..."));
    AddressScreen {
        rows,
        descriptor: String::new(),
        start_index,
        loading: true,
        page_label: string_from("Preparing receive addresses"),
        has_previous_page: false,
        has_next_page: false,
    }
}

/// The address screen when no addresses can be derived.
pub fn unavailable_address_screen() -> (screen: AddressScreen)
    ensures
        shows_unavailable(screen),
{
    let mut rows: Vec<String> = Vec::new();
    rows.push(string_from("Unable to derive receive addresses."));
    AddressScreen {
        rows,
        descriptor: String::new(),
        start_index: 0,
        loading: false,
        page_label: string_from("Unavailable"),
        has_previous_page: false,
        has_next_page: false,
    }
}

/// The address screen for a derived page.
fn page_screen(page: ReceiveAddressPage, start_index: u32) -> (screen: AddressScreen)
    requires
        is_ascii_chars(page.descriptor@),
    ensures
        shows_page(screen, page, start_index),
{
    proof {
        lemma_ascii_descriptor_chunks(page.descriptor@);
    }
    let row = page.rows[0].clone();
    let ReceiveAddressPage { rows: _, descriptor } = page;
    let mut rows: Vec<String> = Vec::new();
    rows.push(row);
    let mut page_label = string_from("Index ");
    push_decimal(&mut page_label, start_index as usize);
    AddressScreen {
        rows,
        descriptor: format_descriptor_for_display(descriptor),
        start_index,
        loading: false,
        page_label,
        has_previous_page: start_index >= 1,
        has_next_page: start_index <= MAX_BIP32_DERIVATION_INDEX - 1,
    }
}

/// The address screen of the page from `start_index`: the cache is built
/// from the flow's finalized entropy on first use and kept, and the page is
/// derived or taken from it. Without finalized entropy, or when derivation
/// fails, the screen says that no addresses are available.
pub fn receive_address_screen(
    cache: &mut Option<ReceiveAddressCache>,
    flow: &LastWordFlow,
    start_index: u32,
) -> (screen: AddressScreen)
    requires
        *old(cache) matches Some(c) ==> c.wf(),
    ensures
        *final(cache) matches Some(c) ==> c.wf() && pages_show_descriptor(c.pages(), c.descriptor()),
        *final(cache) is None ==> shows_unavailable(screen),
        *final(cache) matches Some(c) ==> (start_index <= MAX_BIP32_DERIVATION_INDEX && (forall|
            i: u32,
        |
            i <= start_index ==> (#[trigger] script_address_text(
                descriptor_script(c.descriptor(), i),
            )) is Some) ==> start_index < c.pages().len() && shows_page(
            screen,
            c.pages()[start_index as int],
            start_index,
        ) && page_shows_index(c.pages()[start_index as int], c.descriptor(), start_index)),
        *old(cache) is None && (flow.complete() && flow.entropy_confirmed
            && crate::last_word::index_error(flow.word_indices@) is None && flow.entropy_bits
            <= 127) ==> ((*final(cache) is Some) <==> bip32_master_key(
            bip39_seed(
                flow.language@,
                crate::last_word::entropy_bytes(flow.word_indices@, flow.entropy_bits as nat),
                flow.passphrase@,
            ),
        ) is Some),
        *final(cache) matches Some(c) ==> *old(cache) is None ==> c.descriptor()
            == bip84_account_descriptor(
            flow.language@,
            crate::last_word::entropy_bytes(flow.word_indices@, flow.entropy_bits as nat),
            flow.passphrase@,
        ),
        shows_unavailable(screen) || (*final(cache) matches Some(c) && start_index < c.pages().len()
            && shows_page(screen, c.pages()[start_index as int], start_index)),
        *old(cache) is None && !(flow.complete() && flow.entropy_confirmed
            && crate::last_word::index_error(flow.word_indices@) is None && flow.entropy_bits
            <= 127) ==> shows_unavailable(screen) && *final(cache) is None,
        start_index > MAX_BIP32_DERIVATION_INDEX ==> shows_unavailable(screen),
        *old(cache) matches Some(c) ==> (*final(cache) matches Some(d) && d.pages().len()
            >= c.pages().len() && forall|i: int|
            0 <= i < c.pages().len() ==> #[trigger] d.pages()[i] == c.pages()[i]),
{
    if cache.is_none() {
        *cache = match ReceiveAddressCache::from_flow(flow) {
            Ok(built) => Some(built),
            Err(_) => None,
        };
    }
    let page = match cache.take() {
        Some(mut built) => {
            let page = built.page_at(start_index);
            *cache = Some(built);
            page
        },
        None => Err(AddressListError::MissingEntropy),
    };
    match page {
        Ok(page) => page_screen(page, start_index),
        Err(_) => unavailable_address_screen(),
    }
}

/// Whether a queued page load is still wanted when it runs: the address
/// screen (screen 2) is showing, still loading, the same start index.
pub fn address_load_still_wanted(
    current_screen: i32,
    loading: bool,
    shown_start: i32,
    start_index: u32,
) -> (wanted: bool)
    ensures
        wanted == (current_screen == 2 && loading && shown_start as int == start_index as int),
{
    current_screen == 2 && loading && shown_start >= 0 && shown_start as u32 == start_index
}

/// An ASCII text cuts into 30-byte chunks of valid UTF-8.
pub proof fn lemma_ascii_descriptor_chunks(chars: Seq<char>)
    requires
        is_ascii_chars(chars),
    ensures
        descriptor_chunks_valid(encode_utf8(chars)),
    decreases chars.len(),
{
    let bytes = encode_utf8(chars);
    encode_utf8_valid_utf8(chars);
    is_ascii_chars_encode_utf8(chars);
    if bytes.len() > 30 {
        let head = chars.take(30);
        let rest = chars.skip(30);
        assert(is_ascii_chars(head)) by {
            assert forall|i: int| 0 <= i < head.len() implies '\0' <= #[trigger] head[i] <= '\u{7f}' by {
                assert(head[i] == chars[i]);
            }
        }
        assert(is_ascii_chars(rest)) by {
            assert forall|i: int| 0 <= i < rest.len() implies '\0' <= #[trigger] rest[i] <= '\u{7f}' by {
                assert(rest[i] == chars[i + 30]);
            }
        }
        is_ascii_chars_encode_utf8(head);
        is_ascii_chars_encode_utf8(rest);
        encode_utf8_valid_utf8(head);
        assert(bytes.take(30) =~= encode_utf8(head));
        assert(bytes.skip(30) =~= encode_utf8(rest));
        lemma_ascii_descriptor_chunks(rest);
    }
}

/// A text of ASCII characters has a character boundary at every byte.
pub proof fn lemma_ascii_char_boundary(chars: Seq<char>, k: int)
    requires
        is_ascii_chars(chars),
        0 <= k <= chars.len(),
    ensures
        is_char_boundary(encode_utf8(chars), k),
    decreases chars.len(),
{
    encode_utf8_valid_utf8(chars);
    if k > 0 {
        let bytes = encode_utf8(chars);
        encode_utf8_first_scalar(chars);
        assert(('\0' <= chars[0] <= '\u{7f}'));
        assert(encode_scalar(chars[0] as u32).len() == 1);
        assert(length_of_first_scalar(bytes) == 1);
        assert(pop_first_scalar(bytes) =~= encode_utf8(chars.drop_first()));
        encode_utf8_valid_utf8(chars.drop_first());
        assert(is_ascii_chars(chars.drop_first())) by {
            assert forall|i: int| 0 <= i < chars.drop_first().len() implies '\0' <= #[trigger] chars.drop_first()[i]
                <= '\u{7f}' by {
                assert(chars.drop_first()[i] == chars[i + 1]);
            }
        }
        lemma_ascii_char_boundary(chars.drop_first(), k - 1);
        assert(is_char_boundary(bytes, k) == is_char_boundary(pop_first_scalar(bytes), k - 1));
    }
}

} // verus!
