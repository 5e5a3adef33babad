//! File URIs.
use vstd::prelude::*;
use vstd::string::*;
use vstd::utf8::*;

verus! {

use crate::text::{occurs, occurs_at, starts_with};

/// Whether a byte stands for itself in a path of a URI.
pub open spec fn is_plain(b: u8) -> bool {
    ||| 65 <= b <= 90
    ||| 97 <= b <= 122
    ||| 48 <= b <= 57
    ||| b == 45
    ||| b == 95
    ||| b == 46
    ||| b == 126
    ||| b == 47
}

/// A hexadecimal digit, with capital letters.
pub open spec fn hex_char(d: int) -> char {
    if d < 10 {
        (48 + d) as char
    } else {
        (55 + d) as char
    }
}

/// What stands for a byte in a path of a URI.
pub open spec fn uri_byte(b: u8) -> Seq<char> {
    if is_plain(b) {
        seq![b as char]
    } else {
        seq!['%', hex_char(b as int / 16), hex_char(b as int % 16)]
    }
}

/// What stands for bytes in a path of a URI.
pub open spec fn uri_path(bytes: Seq<u8>) -> Seq<char>
    decreases bytes.len(),
{
    if bytes.len() == 0 {
        Seq::empty()
    } else {
        uri_path(bytes.drop_last()) + uri_byte(bytes.last())
    }
}

/// The URI of a file.
pub open spec fn uri_of(path: Seq<char>) -> Seq<char> {
    "file://"@ + uri_path(encode_utf8(path))
}

/// Appends a hexadecimal digit.
fn push_hex(out: &mut String, d: u8)
    requires
        d < 16,
    ensures
        final(out)@ == old(out)@.push(hex_char(d as int)),
{
    if d < 10 {
        out.push((48 + d) as char);
    } else {
        out.push((55 + d) as char);
    }
}

/// The URI of the file at an absolute path: letters, digits, `-`, `_`, `.`, `~` and the
/// separators stand for themselves, every other byte of the path is escaped.
pub fn file_uri(abs: &str) -> (r: String)
    ensures
        r@ == uri_of(abs@),
{
    let bytes = abs.as_bytes();
    let ghost all = encode_utf8(abs@);
    let mut out = String::new();
    out.append("file://");
    let mut i: usize = 0;
    assert(all.take(0) =~= Seq::<u8>::empty());
    assert(out@ =~= "file://"@);
    while i < bytes.len()
        invariant
            i <= bytes@.len(),
            bytes@ == all,
            out@ =~= "file://"@ + uri_path(all.take(i as int)),
        decreases bytes.len() - i,
    {
        let b = bytes[i];
        proof {
            assert(all.take(i + 1).drop_last() =~= all.take(i as int));
            assert(all.take(i + 1).last() == b);
        }
        let plain = (65 <= b && b <= 90) || (97 <= b && b <= 122) || (48 <= b && b <= 57) || b == 45
            || b == 95 || b == 46 || b == 126 || b == 47;
        if plain {
            out.push(b as char);
        } else {
            out.push('%');
            push_hex(&mut out, b / 16);
            push_hex(&mut out, b % 16);
        }
        i = i + 1;
    }
    assert(all.take(i as int) =~= all);
    out
}

// --- What a reader makes of it ---

/// The number that a hexadecimal digit with a capital letter stands for.
pub open spec fn hex_value(c: char) -> int {
    if '0' <= c <= '9' {
        (c as u32) - 48
    } else {
        (c as u32) - 55
    }
}

/// The bytes that a path of a URI stands for.
pub open spec fn unescaped(s: Seq<char>) -> Seq<u8>
    decreases s.len(),
{
    if s.len() == 0 {
        Seq::empty()
    } else if s[0] == '%' && s.len() >= 3 {
        seq![(16 * hex_value(s[1]) + hex_value(s[2])) as u8] + unescaped(s.skip(3))
    } else {
        seq![s[0] as u8] + unescaped(s.skip(1))
    }
}

/// Escaping and unescaping gives the bytes of the path back, so different paths have
/// different URIs.
pub proof fn law_uri_round_trip(bytes: Seq<u8>)
    ensures
        unescaped(uri_path(bytes)) == bytes,
{
    lemma_unescape_prefix(bytes, Seq::empty());
    assert(uri_path(bytes) + Seq::<char>::empty() =~= uri_path(bytes));
    assert(unescaped(Seq::<char>::empty()) =~= Seq::<u8>::empty());
    assert(bytes + Seq::<u8>::empty() =~= bytes);
}

proof fn lemma_unescape_prefix(bytes: Seq<u8>, rest: Seq<char>)
    ensures
        unescaped(uri_path(bytes) + rest) == bytes + unescaped(rest),
    decreases bytes.len(),
{
    if bytes.len() == 0 {
        assert(uri_path(bytes) + rest =~= rest);
        assert(bytes + unescaped(rest) =~= unescaped(rest));
    } else {
        let t = bytes.drop_last();
        let b = bytes.last();
        let tail = uri_byte(b) + rest;
        assert(uri_path(bytes) + rest =~= uri_path(t) + tail);
        lemma_unescape_prefix(t, tail);
        lemma_unescape_byte(b, rest);
        assert(bytes + unescaped(rest) =~= t + (seq![b] + unescaped(rest)));
    }
}

proof fn lemma_unescape_byte(b: u8, rest: Seq<char>)
    ensures
        unescaped(uri_byte(b) + rest) == seq![b] + unescaped(rest),
{
    let s = uri_byte(b) + rest;
    if is_plain(b) {
        assert(s[0] == b as char);
        assert(s[0] != '%');
        assert(s.skip(1) =~= rest);
        assert((b as char) as u8 == b);
    } else {
        let hi = b as int / 16;
        let lo = b as int % 16;
        assert(s[0] == '%' && s[1] == hex_char(hi) && s[2] == hex_char(lo));
        assert(hex_value(hex_char(hi)) == hi);
        assert(hex_value(hex_char(lo)) == lo);
        assert(16 * hi + lo == b);
        assert(s.skip(3) =~= rest);
    }
}

/// The separators of the path are never escaped.
pub proof fn law_separators_kept(bytes: Seq<u8>)
    ensures
        !occurs(uri_path(bytes), "%2F"@),
{
    reveal_strlit("%2F");
    lemma_no_escaped_slash(bytes);
    let s = uri_path(bytes);
    if occurs(s, "%2F"@) {
        let i = choose|i: int| occurs_at(s, "%2F"@, i);
        assert(s.subrange(i, i + 3) == "%2F"@);
        assert(s.subrange(i, i + 3)[0] == s[i]);
        assert(s.subrange(i, i + 3)[1] == s[i + 1]);
        assert(s.subrange(i, i + 3)[2] == s[i + 2]);
        assert(escaped_slash(s, i));
    }
}

spec fn escaped_slash(s: Seq<char>, i: int) -> bool {
    s[i] == '%' && s[i + 1] == '2' && s[i + 2] == 'F'
}

proof fn lemma_no_escaped_slash(bytes: Seq<u8>)
    ensures
        ({
            let s = uri_path(bytes);
            &&& s.len() >= 1 ==> s[s.len() - 1] != '%'
            &&& s.len() >= 2 ==> s[s.len() - 2] != '%'
            &&& forall|i: int| 0 <= i && i + 3 <= s.len() ==> !(#[trigger] escaped_slash(s, i))
        }),
    decreases bytes.len(),
{
    if bytes.len() > 0 {
        let t = bytes.drop_last();
        let b = bytes.last();
        lemma_no_escaped_slash(t);
        let p = uri_path(t);
        let s = uri_path(bytes);
        let n = p.len() as int;
        assert(s == p + uri_byte(b));
        assert forall|i: int| 0 <= i && i + 3 <= s.len() implies !(#[trigger] escaped_slash(s, i)) by {
            if i + 3 <= n {
                assert(!escaped_slash(p, i));
                assert(s[i] == p[i] && s[i + 1] == p[i + 1] && s[i + 2] == p[i + 2]);
            } else if i < n {
                assert(s[i] == p[i]);
            } else {
                assert(i == n);
                assert(!is_plain(b));
                let hi = b as int / 16;
                let lo = b as int % 16;
                assert(s[n + 1] == hex_char(hi) && s[n + 2] == hex_char(lo));
                if hex_char(hi) == '2' && hex_char(lo) == 'F' {
                    assert(hi == 2 && lo == 15);
                    assert(b == 47);
                }
            }
        }
    }
}

/// An address is made of plain characters and escapes only: letters, digits, the separator and
/// a few marks stand for themselves, and every other byte is escaped.
pub proof fn law_uri_bytes(a: Seq<u8>, b: Seq<u8>, x: u8)
    ensures
        uri_path(a + b) == uri_path(a) + uri_path(b),
        ('a' as u32 <= x <= 'z' as u32 || 'A' as u32 <= x <= 'Z' as u32 || '0' as u32 <= x
            <= '9' as u32 || x == '/' as u32 || x == '-' as u32 || x == '_' as u32 || x == '.' as u32
            || x == '~' as u32) ==> uri_path(seq![x]) == seq![x as char],
        !('a' as u32 <= x <= 'z' as u32 || 'A' as u32 <= x <= 'Z' as u32 || '0' as u32 <= x
            <= '9' as u32 || x == '/' as u32 || x == '-' as u32 || x == '_' as u32 || x == '.' as u32
            || x == '~' as u32) ==> uri_path(seq![x]).len() == 3 && uri_path(seq![x])[0] == '%',
    decreases b.len(),
{
    assert(seq![x].drop_last() =~= Seq::empty());
    assert(uri_path(seq![x].drop_last()) =~= Seq::empty());
    assert(uri_path(seq![x]) =~= uri_byte(x));
    if b.len() == 0 {
        assert(a + b =~= a);
        assert(uri_path(a + b) =~= uri_path(a) + uri_path(b));
    } else {
        law_uri_bytes(a, b.drop_last(), x);
        assert((a + b).drop_last() =~= a + b.drop_last());
        assert((a + b).last() == b.last());
        assert(uri_path(a + b) =~= uri_path(a) + uri_path(b));
    }
}

/// The address of a file begins with the scheme, and what follows gives its path back.
pub proof fn law_file_uri(path: Seq<char>)
    ensures
        starts_with(uri_of(path), "file://"@),
        unescaped(uri_of(path).skip("file://"@.len() as int)) == encode_utf8(path),
{
    let f = "file://"@;
    let u = uri_path(encode_utf8(path));
    assert((f + u).take(f.len() as int) =~= f);
    assert((f + u).skip(f.len() as int) =~= u);
    law_uri_round_trip(encode_utf8(path));
}

}
