//! Texts out of bytes, and letters in lower case.
use vstd::prelude::*;
use vstd::string::*;
use vstd::utf8::*;

verus! {

use crate::text::ascii_lowercase;

/// What `String::from_utf8_lossy` makes of bytes.
pub uninterp spec fn lossy(bytes: Seq<u8>) -> Seq<char>;

/// What `str::to_lowercase` makes of a text.
pub uninterp spec fn lowercase_of(s: Seq<char>) -> Seq<char>;

/// A character encoding.
#[verifier::external_type_specification]
#[verifier::external_body]
pub struct ExEncoding(encoding_rs::Encoding);

/// The name of an encoding, as `encoding_rs::Encoding::name` gives it.
pub uninterp spec fn encoding_name(e: encoding_rs::Encoding) -> Seq<char>;

/// The name of the encoding that `chardetng::EncodingDetector::guess` gives for bytes.
pub uninterp spec fn guessed_encoding(bytes: Seq<u8>) -> Seq<char>;

/// What `encoding_rs::Encoding::decode` makes of bytes under the encoding of a name.
pub uninterp spec fn decoded_text(encoding: Seq<char>, bytes: Seq<u8>) -> Seq<char>;

/// `std::str::from_utf8` succeeds on valid UTF-8 and then gives the text that the bytes
/// encode.
#[verifier::external_body]
pub(crate) fn utf8_text(bytes: &[u8]) -> (r: Option<String>)
    ensures
        r is Some <==> valid_utf8(bytes@),
        r matches Some(s) ==> s@ == decode_utf8(bytes@),
{
    match std::str::from_utf8(bytes) {
        Ok(s) => Some(s.to_owned()),
        Err(_) => None,
    }
}

/// `String::from_utf8_lossy` gives the text that valid UTF-8 encodes; its result on other
/// bytes, with replacement characters in it, only has a name here.
#[verifier::external_body]
pub(crate) fn lossy_text(bytes: &[u8]) -> (r: String)
    ensures
        r@ == lossy(bytes@),
        valid_utf8(bytes@) ==> r@ == decode_utf8(bytes@),
{
    String::from_utf8_lossy(bytes).into_owned()
}

/// `str::to_lowercase` maps a text to lower case by the rules of Unicode. On ASCII it
/// changes the capital letters alone; its result on other texts only has a name here.
#[verifier::external_body]
pub(crate) fn lowercase(s: &str) -> (r: String)
    ensures
        r@ == lowercase_of(s@),
        is_ascii_chars(s@) ==> r@ == ascii_lowercase(s@),
{
    s.to_lowercase()
}

/// `chardetng::EncodingDetector::guess`, after the detector was fed with all the bytes, gives an
/// encoding, whose name depends on the bytes alone.
#[verifier::external_body]
fn guess_encoding(bytes: &[u8]) -> (r: &'static encoding_rs::Encoding)
    ensures
        encoding_name(*r) == guessed_encoding(bytes@),
{
    let mut detector = chardetng::EncodingDetector::new();
    detector.feed(bytes, true);
    detector.guess(None, true)
}

/// `encoding_rs::Encoding::decode` decodes bytes, by the encoding or by the one that a byte order
/// mark at their start stands for. No two encodings share a name, and the text that comes out
/// depends on the encoding and the bytes alone and only has a name here.
#[verifier::external_body]
fn decode_with(encoding: &'static encoding_rs::Encoding, bytes: &[u8]) -> (r: String)
    ensures
        r@ == decoded_text(encoding_name(*encoding), bytes@),
{
    let (text, _, _) = encoding.decode(bytes);
    text.into_owned()
}

/// What the encoding that is guessed for bytes makes of them.
pub open spec fn guessed_text(bytes: Seq<u8>) -> Seq<char> {
    decoded_text(guessed_encoding(bytes), bytes)
}

/// The text in a file of text: what the bytes encode where they are valid UTF-8, what the
/// guessed encoding makes of them otherwise.
pub open spec fn file_text(bytes: Seq<u8>) -> Seq<char> {
    if valid_utf8(bytes) {
        decode_utf8(bytes)
    } else {
        guessed_text(bytes)
    }
}

/// The text in a file of text.
pub fn extract_text_file(bytes: &[u8]) -> (r: String)
    ensures
        r@ == file_text(bytes@),
{
    match utf8_text(bytes) {
        Some(s) => s,
        None => decode_with(guess_encoding(bytes), bytes),
    }
}

/// Each byte as the character with that number.
pub open spec fn latin1(bytes: Seq<u8>) -> Seq<char> {
    Seq::new(bytes.len(), |i: int| bytes[i] as char)
}

/// Each byte as the character with that number.
pub fn latin1_text(bytes: &Vec<u8>) -> (r: String)
    ensures
        r@ == latin1(bytes@),
{
    let mut out = String::new();
    for i in 0..bytes.len()
        invariant
            out@ =~= latin1(bytes@).take(i as int),
    {
        out.push(bytes[i] as char);
    }
    assert(latin1(bytes@).take(bytes@.len() as int) =~= latin1(bytes@));
    out
}

/// How much of a file without an extension is looked at.
pub const SNIFF_LEN: usize = 8192;

/// Whether the first bytes of a file look like text: there are some, none of them is zero,
/// and they are valid UTF-8.
pub open spec fn looks_like_text(sniff: Seq<u8>) -> bool {
    sniff.len() > 0 && !sniff.contains(0u8) && valid_utf8(sniff)
}

/// Whether the first bytes of a file look like text.
pub fn sniff_text(sniff: &[u8]) -> (r: bool)
    ensures
        r == looks_like_text(sniff@),
{
    if sniff.len() == 0 {
        return false;
    }
    for i in 0..sniff.len()
        invariant
            forall|j: int| 0 <= j < i ==> sniff@[j] != 0,
    {
        if sniff[i] == 0 {
            assert(sniff@[i as int] == 0u8);
            return false;
        }
    }
    utf8_text(sniff).is_some()
}

// --- Laws ---

/// Text in UTF-8 is read as it was written, and looks like text unless it is empty or holds a
/// zero byte.
pub proof fn law_utf8_text(s: Seq<char>)
    ensures
        file_text(encode_utf8(s)) == s,
        looks_like_text(encode_utf8(s)) <==> encode_utf8(s).len() > 0 && !encode_utf8(s).contains(
            0u8,
        ),
{
    encode_utf8_valid_utf8(s);
    encode_utf8_decode_utf8(s);
}

/// Latin-1 is read byte by byte, each byte as the character of the same number.
pub proof fn law_latin1(a: Seq<u8>, x: u8, b: Seq<u8>)
    ensures
        latin1(a + seq![x] + b) == latin1(a) + latin1(seq![x]) + latin1(b),
        latin1(seq![x]).len() == 1,
        latin1(seq![x])[0] as u32 == x as u32,
{
    assert(latin1(a + seq![x] + b) =~= latin1(a) + latin1(seq![x]) + latin1(b));
}

/// What is no UTF-8 is read in the encoding that it looks most like.
pub proof fn law_other_encodings(bytes: Seq<u8>)
    requires
        !valid_utf8(bytes),
    ensures
        file_text(bytes) == decoded_text(guessed_encoding(bytes), bytes),
        !looks_like_text(bytes),
{
}

}
