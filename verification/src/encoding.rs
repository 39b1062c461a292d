//! Decoding of raw log bytes into text.
//!
//! The character tables are those of the `encoding_rs` crate. What a decoder
//! makes of given bytes is not modelled: `decoded` stands for it.

use vstd::prelude::*;
use vstd::slice::slice_subrange;
use encoding_rs::Encoding;
use crate::text::{first_index, lemma_first_index, lemma_first_index_is};

verus! {

/// `encoding_rs::Encoding`: one of the encodings of the Encoding Standard.
/// Nothing of its inside is visible here.
#[verifier::external_type_specification]
#[verifier::external_body]
pub struct ExEncoding(Encoding);

/// The canonical name of an encoding, which tells it from every other.
pub uninterp spec fn encoding_name(encoding: Encoding) -> Seq<char>;

/// The canonical name of the encoding that `label` denotes, if it denotes one.
pub uninterp spec fn labelled_encoding(label: Seq<char>) -> Option<Seq<char>>;

/// The text that the encoding called `name` decodes `data` to: a byte order
/// mark at the front decides and is dropped, malformed input becomes U+FFFD.
pub uninterp spec fn decoded(name: Seq<char>, data: Seq<u8>) -> Seq<char>;

/// The longest input that a decoder can size its output buffer for.
pub open spec fn decodable(len: nat) -> bool {
    len <= usize::MAX / 8
}

/// `Encoding::for_label`: the encoding that a label of the Encoding Standard denotes.
#[verifier::external_body]
fn encoding_for_label(label: &str) -> (r: Option<&'static Encoding>)
    ensures
        match r {
            Some(encoding) => labelled_encoding(label@) == Some(encoding_name(*encoding)),
            None => labelled_encoding(label@) is None,
        },
{
    Encoding::for_label(label.as_bytes())
}

/// `encoding_rs::UTF_8`: the UTF-8 encoding.
#[verifier::external_body]
fn utf_8() -> (r: &'static Encoding)
    ensures
        encoding_name(*r) == "UTF-8"@,
{
    encoding_rs::UTF_8
}

/// `Encoding::decode`: the whole input decoded, with BOM sniffing and with
/// replacement of malformed sequences. It panics where the size of the output
/// buffer overflows, which an input of at most an eighth of the address space
/// rules out.
#[verifier::external_body]
fn decode_with(encoding: &'static Encoding, data: &[u8]) -> (r: String)
    requires
        decodable(data@.len()),
    ensures
        r@ == decoded(encoding_name(*encoding), data@),
{
    encoding.decode(data).0.into_owned()
}

/// The canonical name of the encoding used for `label`: the one it denotes,
/// UTF-8 where it denotes none.
pub open spec fn resolved(label: Seq<char>) -> Seq<char> {
    match labelled_encoding(label) {
        Some(name) => name,
        None => "UTF-8"@,
    }
}

/// The encoding used for `label`.
fn resolve(label: &str) -> (r: &'static Encoding)
    ensures
        encoding_name(*r) == resolved(label@),
{
    match encoding_for_label(label) {
        Some(encoding) => encoding,
        None => utf_8(),
    }
}

/// Decodes `data` under the encoding that `encoding_label` denotes. An unknown
/// label falls back to UTF-8, and no input makes the call fail.
pub fn decode_bytes(data: &[u8], encoding_label: &str) -> (r: String)
    requires
        decodable(data@.len()),
    ensures
        r@ == decoded(resolved(encoding_label@), data@),
{
    decode_with(resolve(encoding_label), data)
}

/// `decode_bytes` for an input of any size: `None` where it is too long to decode.
pub fn try_decode_bytes(data: &[u8], encoding_label: &str) -> (r: Option<String>)
    ensures
        match r {
            Some(text) => decodable(data@.len()) && text@ == decoded(
                resolved(encoding_label@),
                data@,
            ),
            None => !decodable(data@.len()),
        },
{
    if data.len() <= usize::MAX / 8 {
        Some(decode_bytes(data, encoding_label))
    } else {
        None
    }
}

/// Decodes Shift_JIS bytes.
pub fn shift_jis_to_utf8(data: &[u8]) -> (r: String)
    requires
        decodable(data@.len()),
    ensures
        r@ == decoded(resolved("SHIFT_JIS"@), data@),
{
    decode_bytes(data, "SHIFT_JIS")
}

/// The lines of `data`: the runs between line feeds. A line feed at the very
/// end opens no further line, and a carriage return stays with its line.
pub open spec fn split_lines(data: Seq<u8>) -> Seq<Seq<u8>>
    decreases data.len(),
{
    if data.len() == 0 {
        Seq::empty()
    } else {
        let i = first_index(data, 10u8);
        if 0 <= i < data.len() {
            seq![data.take(i)] + split_lines(data.skip(i + 1))
        } else {
            seq![data]
        }
    }
}

/// There are no more lines than bytes.
pub proof fn lemma_split_lines_len(data: Seq<u8>)
    ensures
        split_lines(data).len() <= data.len(),
        forall|k: int| 0 <= k < split_lines(data).len() ==> (#[trigger] split_lines(data)[k]).len() <= data.len(),
    decreases data.len(),
{
    if data.len() > 0 {
        lemma_first_index(data, 10u8);
        let i = first_index(data, 10u8);
        if i < data.len() {
            lemma_split_lines_len(data.skip(i + 1));
        }
    }
}

/// The decoded lines of `data`.
pub open spec fn decoded_lines(label: Seq<char>, data: Seq<u8>) -> Seq<Seq<char>> {
    split_lines(data).map_values(|line: Seq<u8>| decoded(resolved(label), line))
}

/// The position of the first line feed at or after `from`, or `data.len()`.
fn find_line_feed(data: &[u8], from: usize) -> (i: usize)
    requires
        from <= data.len(),
    ensures
        from <= i <= data.len(),
        i == from + first_index(data@.skip(from as int), 10u8),
{
    let mut i: usize = from;
    while i < data.len() && data[i] != 10u8
        invariant
            from <= i <= data.len(),
            forall|k: int| from <= k < i ==> data@[k] != 10u8,
        decreases data.len() - i,
    {
        i += 1;
    }
    proof {
        let t = data@.skip(from as int);
        lemma_first_index_is(t, 10u8, i - from);
    }
    i
}

/// Splits `data` at line feeds and decodes each line under the encoding that
/// `encoding_label` denotes.
pub fn decode_lines(data: &[u8], encoding_label: &str) -> (r: Vec<String>)
    requires
        decodable(data@.len()),
    ensures
        r.deep_view() == decoded_lines(encoding_label@, data@),
        r.len() <= data.len(),
{
    let encoding = resolve(encoding_label);
    let ghost name = resolved(encoding_label@);
    let ghost each = |line: Seq<u8>| decoded(resolved(encoding_label@), line);
    let mut out: Vec<String> = Vec::new();
    let mut from: usize = 0;
    assert(data@.skip(0) == data@);
    while from < data.len()
        invariant
            from <= data.len(),
            decodable(data@.len()),
            encoding_name(*encoding) == name,
            name == resolved(encoding_label@),
            each == |line: Seq<u8>| decoded(resolved(encoding_label@), line),
            out.deep_view() + split_lines(data@.skip(from as int)).map_values(each)
                == decoded_lines(encoding_label@, data@),
        decreases data.len() - from,
    {
        let ghost rest = data@.skip(from as int);
        let to = find_line_feed(data, from);
        let line = slice_subrange(data, from, to);
        let text = decode_with(encoding, line);
        out.push(text);
        proof {
            assert(line@ == rest.take(to - from));
            if to < data.len() {
                assert(rest.skip(to - from + 1) == data@.skip(to + 1));
            }
        }
        if to < data.len() {
            from = to + 1;
        } else {
            from = to;
        }
    }
    proof {
        lemma_split_lines_len(data@);
    }
    out
}

} // verus!
