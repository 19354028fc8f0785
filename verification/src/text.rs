//! Byte-level text helpers shared by the word-list searches.

use vstd::prelude::*;
use vstd::string::{StringExecFns, StringSliceAdditionalSpecFns};
use vstd::utf8::valid_utf8;

verus! {

/// Whether `bytes` begins with `prefix`, as `str::starts_with` decides it.
pub open spec fn starts_with(bytes: Seq<u8>, prefix: Seq<u8>) -> bool {
    prefix.len() <= bytes.len() && bytes.subrange(0, prefix.len() as int) == prefix
}

/// Whether every byte is an ASCII lowercase letter.
pub open spec fn all_lowercase(bytes: Seq<u8>) -> bool {
    forall|i: int| 0 <= i < bytes.len() ==> 97 <= #[trigger] bytes[i] <= 122
}

/// Appending one byte keeps a prefix exactly when the text already had the
/// shorter prefix and that byte next.
pub proof fn lemma_starts_with_push(w: Seq<u8>, p: Seq<u8>, c: u8)
    ensures
        starts_with(w, p.push(c)) <==> (starts_with(w, p) && w.len() > p.len() && w[p.len() as int]
            == c),
{
    if starts_with(w, p.push(c)) {
        assert(w.subrange(0, p.len() as int) =~= w.subrange(0, p.len() as int + 1).take(p.len() as int));
        assert(p.push(c).take(p.len() as int) =~= p);
        assert(w.subrange(0, p.len() as int + 1)[p.len() as int] == c);
    }
    if starts_with(w, p) && w.len() > p.len() && w[p.len() as int] == c {
        assert(w.subrange(0, p.len() as int + 1) =~= w.subrange(0, p.len() as int).push(c));
    }
}

/// Text followed by an ASCII byte is still text.
pub proof fn lemma_valid_utf8_push_ascii(s: Seq<u8>, c: u8)
    requires
        valid_utf8(s),
        c < 128,
    ensures
        valid_utf8(s.push(c)),
{
    let chars = seq![c as char];
    assert(vstd::utf8::is_ascii_chars(chars));
    vstd::utf8::is_ascii_chars_encode_utf8(chars);
    vstd::utf8::encode_utf8_valid_utf8(chars);
    assert(vstd::utf8::encode_utf8(chars) =~= seq![c]);
    vstd::utf8::valid_utf8_concat(s, seq![c]);
    assert(s + seq![c] =~= s.push(c));
}

/// Lowercase ASCII letters are text.
pub proof fn lemma_lowercase_is_utf8(s: Seq<u8>)
    requires
        all_lowercase(s),
    ensures
        valid_utf8(s),
    decreases s.len(),
{
    if s.len() > 0 {
        let init = s.drop_last();
        assert(all_lowercase(init)) by {
            assert forall|i: int| 0 <= i < init.len() implies 97 <= #[trigger] init[i] <= 122 by {
                assert(init[i] == s[i]);
            }
        }
        lemma_lowercase_is_utf8(init);
        lemma_valid_utf8_push_ascii(init, s.last());
        assert(init.push(s.last()) =~= s);
    }
}

/// Decides [`starts_with`].
pub fn bytes_start_with(bytes: &[u8], prefix: &[u8]) -> (result: bool)
    ensures
        result == starts_with(bytes@, prefix@),
{
    if prefix.len() > bytes.len() {
        return false;
    }
    let mut i: usize = 0;
    while i < prefix.len()
        invariant
            prefix@.len() <= bytes@.len(),
            i <= prefix@.len(),
            forall|j: int| 0 <= j < i ==> bytes@[j] == prefix@[j],
        decreases prefix@.len() - i,
    {
        if bytes[i] != prefix[i] {
            proof {
                assert(bytes@.subrange(0, prefix@.len() as int)[i as int] != prefix@[i as int]);
            }
            return false;
        }
        i = i + 1;
    }
    proof {
        assert(bytes@.subrange(0, prefix@.len() as int) =~= prefix@);
    }
    true
}

/// Decides [`all_lowercase`].
pub fn bytes_all_lowercase(bytes: &[u8]) -> (result: bool)
    ensures
        result == all_lowercase(bytes@),
{
    let mut i: usize = 0;
    while i < bytes.len()
        invariant
            i <= bytes@.len(),
            forall|j: int| 0 <= j < i ==> 97 <= #[trigger] bytes@[j] <= 122,
        decreases bytes@.len() - i,
    {
        if bytes[i] < 97 || bytes[i] > 122 {
            return false;
        }
        i = i + 1;
    }
    true
}


/// Calls `core::str::from_utf8`: the bytes as a string slice when they are
/// valid UTF-8, and an error otherwise.
#[verifier::external_body]
pub(crate) fn str_from_utf8(bytes: &[u8]) -> (text: Option<&str>)
    ensures
        text is Some <==> valid_utf8(bytes@),
        text matches Some(t) ==> t.spec_bytes() == bytes@,
{
    core::str::from_utf8(bytes).ok()
}

/// The bytes when they are valid UTF-8, and no bytes otherwise.
pub open spec fn utf8_or_empty(bytes: Seq<u8>) -> Seq<u8> {
    if valid_utf8(bytes) {
        bytes
    } else {
        Seq::empty()
    }
}

/// A text takes at most four UTF-8 bytes per character.
pub proof fn lemma_utf8_len_bound(chars: Seq<char>)
    ensures
        vstd::utf8::encode_utf8(chars).len() <= 4 * chars.len(),
    decreases chars.len(),
{
    if chars.len() > 0 {
        lemma_utf8_len_bound(chars.drop_first());
    }
}

/// The empty string slice.
pub fn empty_str() -> (text: &'static str)
    ensures
        text@ == Seq::<char>::empty(),
        text.spec_bytes() == Seq::<u8>::empty(),
{
    let text = "";
    proof {
        reveal_strlit("");
        assert(text@ =~= Seq::<char>::empty());
        assert(vstd::utf8::encode_utf8(Seq::<char>::empty()) =~= Seq::<u8>::empty());
    }
    text
}

/// The bytes as a string slice when they are valid UTF-8, and `""` otherwise.
pub fn text_or_empty(bytes: &[u8]) -> (text: &str)
    ensures
        text.spec_bytes() == utf8_or_empty(bytes@),
{
    match str_from_utf8(bytes) {
        Some(text) => text,
        None => empty_str(),
    }
}

/// The character of a decimal digit.
pub open spec fn digit_char(d: nat) -> char {
    (48 + d) as char
}

/// The decimal representation of a number, without leading zeros.
pub open spec fn decimal(n: nat) -> Seq<char>
    decreases n,
{
    if n < 10 {
        seq![digit_char(n)]
    } else {
        decimal(n / 10).push(digit_char(n % 10))
    }
}

/// The binary representation of a number in exactly `width` digits, most
/// significant first (higher bits are dropped).
pub open spec fn binary(n: nat, width: nat) -> Seq<char>
    decreases width,
{
    if width == 0 {
        Seq::empty()
    } else {
        binary(n / 2, (width - 1) as nat).push(digit_char(n % 2))
    }
}

/// The one-character string of a decimal digit.
fn digit_str(d: usize) -> (text: &'static str)
    requires
        d < 10,
    ensures
        text@ == seq![digit_char(d as nat)],
{
    let text = match d {
        0 => "0",
        1 => "1",
        2 => "2",
        3 => "3",
        4 => "4",
        5 => "5",
        6 => "6",
        7 => "7",
        8 => "8",
        _ => "9",
    };
    proof {
        reveal_strlit("0");
        reveal_strlit("1");
        reveal_strlit("2");
        reveal_strlit("3");
        reveal_strlit("4");
        reveal_strlit("5");
        reveal_strlit("6");
        reveal_strlit("7");
        reveal_strlit("8");
        reveal_strlit("9");
        assert(text@ =~= seq![digit_char(d as nat)]);
    }
    text
}

/// Appends the decimal representation of `n`.
pub fn push_decimal(text: &mut String, n: usize)
    ensures
        final(text)@ == old(text)@ + decimal(n as nat),
    decreases n,
{
    if n >= 10 {
        push_decimal(text, n / 10);
        text.append(digit_str(n % 10));
        proof {
            assert(old(text)@ + decimal(n as nat) =~= old(text)@ + decimal((n / 10) as nat) + seq![
                digit_char((n % 10) as nat),
            ]);
        }
    } else {
        text.append(digit_str(n));
    }
}

/// Appends `width` binary digits of `n`, most significant first.
pub fn push_binary(text: &mut String, n: u8, width: usize)
    ensures
        final(text)@ == old(text)@ + binary(n as nat, width as nat),
    decreases width,
{
    if width > 0 {
        push_binary(text, n / 2, width - 1);
        text.append(digit_str((n % 2) as usize));
        proof {
            assert(old(text)@ + binary(n as nat, width as nat) =~= old(text)@ + binary(
                (n / 2) as nat,
                (width - 1) as nat,
            ) + seq![digit_char((n % 2) as nat)]);
        }
    } else {
        proof {
            assert(old(text)@ + binary(n as nat, 0) =~= old(text)@);
        }
    }
}

/// Appends one string slice.
pub fn push_str(text: &mut String, more: &str)
    ensures
        final(text)@ == old(text)@ + more@,
{
    text.append(more);
}

/// Calls `String::pop`, which removes the last character of the string and
/// returns it, and returns `None` when the string is empty.
#[verifier::external_body]
pub(crate) fn pop_last_char(text: &mut String) -> (popped: Option<char>)
    ensures
        old(text)@.len() == 0 ==> popped is None && final(text)@ == old(text)@,
        old(text)@.len() > 0 ==> popped == Some(old(text)@.last()) && final(text)@ == old(
            text,
        )@.drop_last(),
{
    text.pop()
}

/// A new string holding a copy of the slice.
pub fn string_from(text: &str) -> (owned: String)
    ensures
        owned@ == text@,
{
    String::from_str(text)
}

} // verus!
