//! Line breaking of receive addresses and output descriptors for the
//! narrow display.

use crate::text::{push_str, str_from_utf8, string_from};
use vstd::prelude::*;
use vstd::slice::slice_subrange;
use vstd::string::StringSliceAdditionalSpecFns;
use vstd::utf8::{
    decode_utf8, decode_utf8_split, encode_utf8, encode_utf8_decode_utf8, is_char_boundary,
    length_of_first_scalar, pop_first_scalar, valid_utf8, valid_utf8_concat,
};

verus! {

/// Characters per line of a 42-character BIP84 address.
pub const BIP84_ADDRESS_LINE_LENGTH: usize = 21;

/// Bytes per line of an output descriptor.
pub const DESCRIPTOR_LINE_LENGTH: usize = 30;

/// A 42-byte address broken into two lines of 21 bytes; any other text as it is.
pub open spec fn address_lines(address: Seq<char>) -> Seq<char> {
    let bytes = encode_utf8(address);
    if bytes.len() == 42 {
        decode_utf8(bytes.take(21)) + seq!['\n'] + decode_utf8(bytes.skip(21))
    } else {
        address
    }
}

/// Whether every 30-byte chunk of the bytes is valid UTF-8.
pub open spec fn descriptor_chunks_valid(bytes: Seq<u8>) -> bool
    decreases bytes.len(),
{
    if bytes.len() <= 30 {
        valid_utf8(bytes)
    } else {
        valid_utf8(bytes.take(30)) && descriptor_chunks_valid(bytes.skip(30))
    }
}

/// The bytes cut into 30-byte chunks, one per line.
pub open spec fn descriptor_lines(bytes: Seq<u8>) -> Seq<char>
    decreases bytes.len(),
{
    if bytes.len() <= 30 {
        decode_utf8(bytes)
    } else {
        decode_utf8(bytes.take(30)) + seq!['\n'] + descriptor_lines(bytes.skip(30))
    }
}

/// A text with its line breaks taken out.
pub open spec fn without_newlines(text: Seq<char>) -> Seq<char> {
    text.filter(|c: char| c != '\n')
}

/// Where two pieces of text are joined, the joined bytes have a character
/// boundary.
proof fn lemma_concat_char_boundary(a: Seq<u8>, b: Seq<u8>)
    requires
        valid_utf8(a),
        valid_utf8(b),
    ensures
        valid_utf8(a + b),
        is_char_boundary(a + b, a.len() as int),
    decreases a.len(),
{
    valid_utf8_concat(a, b);
    if a.len() > 0 {
        let rest = pop_first_scalar(a);
        assert(length_of_first_scalar(a) >= 1);
        assert(pop_first_scalar(a + b) =~= rest + b);
        lemma_concat_char_boundary(rest, b);
    }
}

/// Two pieces of text decode to the decoding of their join.
proof fn lemma_decode_concat(a: Seq<u8>, b: Seq<u8>)
    requires
        valid_utf8(a),
        valid_utf8(b),
    ensures
        decode_utf8(a + b) == decode_utf8(a) + decode_utf8(b),
{
    lemma_concat_char_boundary(a, b);
    decode_utf8_split(a + b, a.len() as int);
    assert((a + b).subrange(0, a.len() as int) =~= a);
    assert((a + b).subrange(a.len() as int, (a + b).len() as int) =~= b);
}

/// Taking the line breaks out of the descriptor lines gives back the text
/// with its own line breaks taken out.
proof fn lemma_descriptor_lines_round_trip(bytes: Seq<u8>)
    requires
        descriptor_chunks_valid(bytes),
    ensures
        without_newlines(descriptor_lines(bytes)) == without_newlines(decode_utf8(bytes)),
    decreases bytes.len(),
{
    if bytes.len() > 30 {
        let head = bytes.take(30);
        let tail = bytes.skip(30);
        lemma_descriptor_lines_round_trip(tail);
        assert(descriptor_chunks_valid(tail));
        lemma_descriptor_chunks_valid_utf8(tail);
        lemma_decode_concat(head, tail);
        assert(head + tail =~= bytes);
        let pred = |c: char| c != '\n';
        let d = decode_utf8(head);
        let l = descriptor_lines(tail);
        assert(descriptor_lines(bytes) == d + seq!['\n'] + l);
        Seq::filter_distributes_over_add(d + seq!['\n'], l, pred);
        Seq::filter_distributes_over_add(d, seq!['\n'], pred);
        Seq::filter_distributes_over_add(d, decode_utf8(tail), pred);
        reveal_with_fuel(Seq::filter, 2);
        assert(seq!['\n'].filter(pred) =~= Seq::<char>::empty());
        assert(d.filter(pred) + Seq::<char>::empty() =~= d.filter(pred));
    }
}

/// Bytes whose 30-byte chunks are text are text.
proof fn lemma_descriptor_chunks_valid_utf8(bytes: Seq<u8>)
    requires
        descriptor_chunks_valid(bytes),
    ensures
        valid_utf8(bytes),
    decreases bytes.len(),
{
    if bytes.len() > 30 {
        lemma_descriptor_chunks_valid_utf8(bytes.skip(30));
        valid_utf8_concat(bytes.take(30), bytes.skip(30));
        assert(bytes.take(30) + bytes.skip(30) =~= bytes);
    }
}

/// Breaks a 42-byte BIP84 address into two lines of 21 bytes; any other
/// text is returned as it is.
pub fn format_address_for_display(address: String) -> (display: String)
    requires
        encode_utf8(address@).len() == 42 ==> is_char_boundary(encode_utf8(address@), 21),
    ensures
        display@ == address_lines(address@),
{
    let text = address.as_str();
    if text.as_bytes().len() != BIP84_ADDRESS_LINE_LENGTH * 2 {
        return address;
    }
    let (first, second) = text.split_at(BIP84_ADDRESS_LINE_LENGTH);
    let mut display = string_from(first);
    let newline = "\n";
    proof {
        reveal_strlit("\n");
        encode_utf8_decode_utf8(first@);
        encode_utf8_decode_utf8(second@);
        assert(first.spec_bytes() =~= encode_utf8(address@).take(21));
        assert(second.spec_bytes() =~= encode_utf8(address@).skip(21));
    }
    push_str(&mut display, newline);
    push_str(&mut display, second);
    display
}

/// Breaks an output descriptor into lines of 30 bytes; taking the line
/// breaks out again gives back the descriptor (as far as it had none).
pub fn format_descriptor_for_display(descriptor: String) -> (display: String)
    requires
        descriptor_chunks_valid(encode_utf8(descriptor@)),
    ensures
        display@ == descriptor_lines(encode_utf8(descriptor@)),
        without_newlines(display@) == without_newlines(descriptor@),
{
    proof {
        lemma_descriptor_lines_round_trip(encode_utf8(descriptor@));
        encode_utf8_decode_utf8(descriptor@);
    }
    let mut display = String::new();
    push_descriptor_lines(&mut display, descriptor.as_str().as_bytes());
    display
}

/// Appends the lines of `bytes`.
fn push_descriptor_lines(display: &mut String, bytes: &[u8])
    requires
        descriptor_chunks_valid(bytes@),
    ensures
        final(display)@ == old(display)@ + descriptor_lines(bytes@),
    decreases bytes@.len(),
{
    if bytes.len() <= DESCRIPTOR_LINE_LENGTH {
        push_valid_text(display, bytes);
        return ;
    }
    let head = slice_subrange(bytes, 0, DESCRIPTOR_LINE_LENGTH);
    let rest = slice_subrange(bytes, DESCRIPTOR_LINE_LENGTH, bytes.len());
    proof {
        assert(head@ =~= bytes@.take(30));
        assert(rest@ =~= bytes@.skip(30));
    }
    push_valid_text(display, head);
    let newline = "\n";
    proof {
        reveal_strlit("\n");
    }
    push_str(display, newline);
    push_descriptor_lines(display, rest);
}

/// Appends bytes that are valid UTF-8 as text.
fn push_valid_text(display: &mut String, bytes: &[u8])
    requires
        valid_utf8(bytes@),
    ensures
        final(display)@ == old(display)@ + decode_utf8(bytes@),
{
    match str_from_utf8(bytes) {
        Some(text) => {
            proof {
                encode_utf8_decode_utf8(text@);
            }
            push_str(display, text);
        },
        None => {},
    }
}

} // verus!
