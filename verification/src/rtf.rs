//! The text in RTF documents.
use crate::decode::{latin1_text, utf8_text};
use crate::text::{same, trim};
use vstd::prelude::*;
use vstd::string::*;
use vstd::utf8::*;

verus! {

use crate::decode::latin1;
use crate::text::trimmed;

/// A token of an RTF document.
pub enum RtfToken {
    ControlSymbol(char),
    ControlWord(String, Option<i32>),
    ControlBin(Vec<u8>),
    Text(Vec<u8>),
    StartGroup,
    EndGroup,
    Newline(Vec<u8>),
}

/// What a token holds.
pub enum RtfTokenView {
    ControlSymbol(char),
    ControlWord(Seq<char>, Option<i32>),
    ControlBin(Seq<u8>),
    Text(Seq<u8>),
    StartGroup,
    EndGroup,
    Newline(Seq<u8>),
}

impl View for RtfToken {
    type V = RtfTokenView;

    open spec fn view(&self) -> RtfTokenView {
        match self {
            RtfToken::ControlSymbol(c) => RtfTokenView::ControlSymbol(*c),
            RtfToken::ControlWord(name, arg) => RtfTokenView::ControlWord(name@, *arg),
            RtfToken::ControlBin(data) => RtfTokenView::ControlBin(data@),
            RtfToken::Text(data) => RtfTokenView::Text(data@),
            RtfToken::StartGroup => RtfTokenView::StartGroup,
            RtfToken::EndGroup => RtfTokenView::EndGroup,
            RtfToken::Newline(data) => RtfTokenView::Newline(data@),
        }
    }
}

/// What the tokens of a list hold.
pub open spec fn token_views(v: Seq<RtfToken>) -> Seq<RtfTokenView> {
    Seq::new(v.len(), |i: int| v[i]@)
}

/// The tokens that `rtf_grimoire::tokenizer::parse` reads, up to the first byte that begins
/// none.
pub uninterp spec fn rtf_tokens(bytes: Seq<u8>) -> Seq<RtfTokenView>;

/// `rtf_grimoire::tokenizer::parse` cuts a document into tokens. It never fails: it stops at
/// the first byte that begins no token, and every token takes up at least one byte. The tokens
/// depend on the bytes alone and only have a name here.
#[verifier::external_body]
fn tokenize(bytes: &[u8]) -> (r: Vec<RtfToken>)
    ensures
        token_views(r@) == rtf_tokens(bytes@),
{
    let (_, tokens) = rtf_grimoire::tokenizer::parse(bytes).unwrap_or_default();
    tokens.into_iter().map(|t| match t {
        rtf_grimoire::tokenizer::Token::ControlSymbol(c) => RtfToken::ControlSymbol(c),
        rtf_grimoire::tokenizer::Token::ControlWord { name, arg } => RtfToken::ControlWord(name, arg),
        rtf_grimoire::tokenizer::Token::ControlBin(data) => RtfToken::ControlBin(data),
        rtf_grimoire::tokenizer::Token::Text(data) => RtfToken::Text(data),
        rtf_grimoire::tokenizer::Token::StartGroup => RtfToken::StartGroup,
        rtf_grimoire::tokenizer::Token::EndGroup => RtfToken::EndGroup,
        rtf_grimoire::tokenizer::Token::Newline(data) => RtfToken::Newline(data),
    }).collect()
}

/// The bytes that a token adds to the text.
pub open spec fn token_bytes(t: RtfTokenView) -> Seq<u8> {
    match t {
        RtfTokenView::Text(data) => data,
        RtfTokenView::Newline(data) => data,
        RtfTokenView::ControlWord(name, _) => if name == "par"@ || name == "line"@ {
            seq![10u8]
        } else {
            Seq::empty()
        },
        RtfTokenView::ControlSymbol(c) => if c == '~' {
            seq![32u8]
        } else {
            Seq::empty()
        },
        _ => Seq::empty(),
    }
}

/// The bytes of the text of a document.
pub open spec fn text_bytes(tokens: Seq<RtfTokenView>) -> Seq<u8>
    decreases tokens.len(),
{
    if tokens.len() == 0 {
        Seq::empty()
    } else {
        text_bytes(tokens.drop_last()) + token_bytes(tokens.last())
    }
}

/// The text of a document with the given tokens: its bytes as UTF-8, or as Latin-1 where
/// they are no UTF-8, without white space around it.
pub open spec fn tokens_text(tokens: Seq<RtfTokenView>) -> Seq<char> {
    let b = text_bytes(tokens);
    if valid_utf8(b) {
        trimmed(decode_utf8(b))
    } else {
        trimmed(latin1(b))
    }
}

/// Appends bytes.
fn append_bytes(out: &mut Vec<u8>, data: &Vec<u8>)
    ensures
        final(out)@ == old(out)@ + data@,
{
    for i in 0..data.len()
        invariant
            out@ =~= old(out)@ + data@.take(i as int),
    {
        out.push(data[i]);
    }
    assert(data@.take(data@.len() as int) =~= data@);
}

/// The text of a document with the given tokens.
pub fn text_of_tokens(tokens: &Vec<RtfToken>) -> (r: String)
    ensures
        r@ == tokens_text(token_views(tokens@)),
{
    let mut bytes: Vec<u8> = Vec::new();
    let ghost all = token_views(tokens@);
    let mut i: usize = 0;
    assert(all.take(0) =~= Seq::<RtfTokenView>::empty());
    while i < tokens.len()
        invariant
            i <= tokens@.len(),
            all == token_views(tokens@),
            bytes@ =~= text_bytes(all.take(i as int)),
        decreases tokens.len() - i,
    {
        proof {
            assert(all.take(i + 1).drop_last() =~= all.take(i as int));
            assert(all.take(i + 1).last() == tokens@[i as int]@);
        }
        match &tokens[i] {
            RtfToken::Text(data) => append_bytes(&mut bytes, data),
            RtfToken::Newline(data) => append_bytes(&mut bytes, data),
            RtfToken::ControlWord(name, _) => {
                if same(name.as_str(), "par") || same(name.as_str(), "line") {
                    bytes.push(10);
                }
            },
            RtfToken::ControlSymbol(c) => {
                if *c == '~' {
                    bytes.push(32);
                }
            },
            _ => {},
        }
        i = i + 1;
    }
    assert(all.take(i as int) =~= all);
    match utf8_text(bytes.as_slice()) {
        Some(text) => trim(text.as_str()),
        None => trim(latin1_text(&bytes).as_str()),
    }
}

/// The text of a document.
pub fn rtf_text(bytes: &[u8]) -> (r: String)
    ensures
        r@ == tokens_text(rtf_tokens(bytes@)),
{
    text_of_tokens(&tokenize(bytes))
}

// --- Laws ---

/// The text of two runs of tokens is the text of the one, then that of the other: what a token
/// stands for does not depend on the tokens round it.
pub proof fn law_text_of_runs(a: Seq<RtfTokenView>, b: Seq<RtfTokenView>)
    ensures
        text_bytes(a + b) == text_bytes(a) + text_bytes(b),
    decreases b.len(),
{
    if b.len() == 0 {
        assert(a + b =~= a);
        assert(text_bytes(a + b) =~= text_bytes(a) + text_bytes(b));
    } else {
        law_text_of_runs(a, b.drop_last());
        assert((a + b).drop_last() =~= a + b.drop_last());
        assert((a + b).last() == b.last());
        assert(text_bytes(a + b) =~= text_bytes(a) + text_bytes(b));
    }
}

/// The text of a document holds every run of text and every line break in its place, whatever
/// stands before and after; a paragraph or line mark is a line feed and the fixed space a space,
/// and groups and other control words, symbols and binary data stand for nothing.
pub proof fn law_text_of_a_token(a: Seq<RtfTokenView>, t: RtfTokenView, b: Seq<RtfTokenView>)
    ensures
        ({
            let all = text_bytes(a + seq![t] + b);
            let before = text_bytes(a);
            let after = text_bytes(b);
            &&& t matches RtfTokenView::Text(data) ==> all == before + data + after
            &&& t matches RtfTokenView::Newline(data) ==> all == before + data + after
            &&& t matches RtfTokenView::ControlWord(name, _) ==> if name == "par"@ || name
                == "line"@ {
                all == before + seq![10u8] + after
            } else {
                all == before + after
            }
            &&& t matches RtfTokenView::ControlSymbol(c) ==> if c == '~' {
                all == before + seq![32u8] + after
            } else {
                all == before + after
            }
            &&& (t is StartGroup || t is EndGroup || t is ControlBin) ==> all == before + after
        }),
{
    law_text_of_runs(a, seq![t]);
    law_text_of_runs(a + seq![t], b);
    assert(seq![t].drop_last() =~= Seq::empty());
    assert(text_bytes(seq![t].drop_last()) =~= Seq::empty());
    assert(text_bytes(seq![t]) =~= token_bytes(t));
    assert(text_bytes(a) + Seq::<u8>::empty() + text_bytes(b) =~= text_bytes(a) + text_bytes(b));
}

/// Text in UTF-8 comes out as it was written, but for white space at its ends.
pub proof fn law_text_read(tokens: Seq<RtfTokenView>, s: Seq<char>)
    requires
        text_bytes(tokens) == encode_utf8(s),
    ensures
        tokens_text(tokens) == trimmed(s),
{
    encode_utf8_valid_utf8(s);
    encode_utf8_decode_utf8(s);
}

}
