//! Attachments on their way to a file: their transfer encoding, their name, and how long
//! they stay.
use crate::decimal::{push_decimal, push_decimal_wide};
use crate::paths::path_join;
use crate::text::{chars_of, same, string_range, to_ascii_lowercase};
use base64::Engine;
use vstd::prelude::*;
use vstd::string::*;
use vstd::utf8::*;

verus! {

use crate::decimal::decimal;
use crate::paths::path_joined;
use crate::socket::opt_str;
use crate::text::{ascii_lowercase, starts_with};

/// What the standard engine of `base64` decodes bytes to, or the message of its error.
pub uninterp spec fn base64_decoded(bytes: Seq<u8>) -> Result<Seq<u8>, Seq<char>>;

/// What `quoted_printable::decode`, in its robust mode, decodes bytes to.
pub uninterp spec fn quoted_decoded(bytes: Seq<u8>) -> Seq<u8>;

/// The bytes or the message of a result.
pub open spec fn bytes_or_message(r: Result<Vec<u8>, String>) -> Result<Seq<u8>, Seq<char>> {
    match r {
        Ok(v) => Ok(v@),
        Err(m) => Err(m@),
    }
}

/// `base64::Engine::decode` of the engine `STANDARD` decodes base64 with padding, or gives an
/// error that prints as a message. Either depends on the bytes alone and only has a name here.
#[verifier::external_body]
fn base64_decode(bytes: &[u8]) -> (r: Result<Vec<u8>, String>)
    ensures
        bytes_or_message(r) == base64_decoded(bytes@),
{
    base64::engine::general_purpose::STANDARD.decode(bytes).map_err(|e| e.to_string())
}

/// `quoted_printable::decode` in its robust mode decodes quoted-printable text and passes
/// over what is none, so it never fails. What it gives depends on the bytes alone and only has
/// a name here.
#[verifier::external_body]
fn quoted_decode(bytes: &[u8]) -> (r: Vec<u8>)
    ensures
        r@ == quoted_decoded(bytes@),
{
    quoted_printable::decode(bytes, quoted_printable::ParseMode::Robust).unwrap_or_default()
}

/// Why an attachment cannot be decoded.
#[derive(Debug)]
pub enum DecodeError {
    /// It is no base64, as the message of the decoder says.
    BadBase64(String),
    /// The transfer encoding, in lower case, is none that is known.
    Unsupported(String),
}

/// The message for a transfer encoding that is not known.
pub open spec fn unsupported_text(encoding: Seq<char>) -> Seq<char> {
    "unsupported transfer encoding: "@ + encoding
}

impl DecodeError {
    /// The message of the error.
    pub fn message(&self) -> (r: String)
        ensures
            r@ == (match *self {
                DecodeError::BadBase64(m) => m@,
                DecodeError::Unsupported(e) => unsupported_text(e@),
            }),
    {
        match self {
            DecodeError::BadBase64(m) => m.clone(),
            DecodeError::Unsupported(e) => {
                let mut s = String::new();
                s.append("unsupported transfer encoding: ");
                s.append(e.as_str());
                assert(s@ =~= unsupported_text(e@));
                s
            },
        }
    }
}

/// ASCII white space: space, tab, line feed, form feed and carriage return.
pub open spec fn is_blank(b: u8) -> bool {
    b == 32 || b == 9 || b == 10 || b == 12 || b == 13
}

/// The bytes that are no white space.
pub open spec fn without_blanks(bytes: Seq<u8>) -> Seq<u8>
    decreases bytes.len(),
{
    if bytes.len() == 0 {
        Seq::empty()
    } else if is_blank(bytes.last()) {
        without_blanks(bytes.drop_last())
    } else {
        without_blanks(bytes.drop_last()).push(bytes.last())
    }
}

/// The bytes that are no white space.
fn strip_blanks(bytes: &Vec<u8>) -> (r: Vec<u8>)
    ensures
        r@ == without_blanks(bytes@),
{
    let mut out: Vec<u8> = Vec::new();
    let mut i: usize = 0;
    assert(bytes@.take(0) =~= Seq::<u8>::empty());
    while i < bytes.len()
        invariant
            i <= bytes@.len(),
            out@ =~= without_blanks(bytes@.take(i as int)),
        decreases bytes.len() - i,
    {
        let b = bytes[i];
        proof {
            assert(bytes@.take(i + 1).drop_last() =~= bytes@.take(i as int));
            assert(bytes@.take(i + 1).last() == b);
        }
        if !(b == 32 || b == 9 || b == 10 || b == 12 || b == 13) {
            out.push(b);
        }
        i = i + 1;
    }
    assert(bytes@.take(i as int) =~= bytes@);
    out
}

/// Whether a transfer encoding leaves the bytes as they are.
pub open spec fn is_identity(encoding: Seq<char>) -> bool {
    encoding == "7bit"@ || encoding == "8bit"@ || encoding == "binary"@ || encoding.len() == 0
}

/// The content of an attachment, where what stands in the message can be decoded.
pub open spec fn attachment_content(raw: Seq<u8>, encoding: Seq<char>) -> Option<Seq<u8>> {
    let e = ascii_lowercase(encoding);
    if e == "base64"@ {
        match base64_decoded(without_blanks(raw)) {
            Ok(b) => Some(b),
            Err(_) => None,
        }
    } else if e == "quoted-printable"@ {
        Some(quoted_decoded(raw))
    } else if is_identity(e) {
        Some(raw)
    } else {
        None
    }
}

/// The content of an attachment, out of what stands in the message. The name of the transfer
/// encoding is read without regard to case.
pub fn decode_attachment(raw: &Vec<u8>, encoding: &str) -> (r: Result<Vec<u8>, DecodeError>)
    ensures
        match attachment_content(raw@, encoding@) {
            Some(b) => r matches Ok(v) && v@ == b,
            None => if ascii_lowercase(encoding@) == "base64"@ {
                r matches Err(DecodeError::BadBase64(m)) && base64_decoded(without_blanks(raw@))
                    == Err::<Seq<u8>, Seq<char>>(m@)
            } else {
                r matches Err(DecodeError::Unsupported(s)) && s@ == ascii_lowercase(encoding@)
            },
        },
{
    let e = to_ascii_lowercase(encoding);
    let name = e.as_str();
    if same(name, "base64") {
        match base64_decode(strip_blanks(raw).as_slice()) {
            Ok(v) => Ok(v),
            Err(m) => Err(DecodeError::BadBase64(m)),
        }
    } else if same(name, "quoted-printable") {
        Ok(quoted_decode(raw.as_slice()))
    } else if same(name, "7bit") || same(name, "8bit") || same(name, "binary") || name.is_empty() {
        let copy = raw.clone();
        assert(copy@ =~= raw@);
        Ok(copy)
    } else {
        Err(DecodeError::Unsupported(e))
    }
}

// --- File names ---

/// The characters that may stand in a file name.
pub open spec fn name_chars(s: Seq<char>) -> Seq<char>
    decreases s.len(),
{
    if s.len() == 0 {
        Seq::empty()
    } else if s.last() == '/' || s.last() == '\\' || s.last() == '\0' {
        name_chars(s.drop_last())
    } else {
        name_chars(s.drop_last()).push(s.last())
    }
}

/// The text without its leading dots.
pub open spec fn without_dots(s: Seq<char>) -> Seq<char>
    decreases s.len(),
{
    if s.len() > 0 && s[0] == '.' {
        without_dots(s.skip(1))
    } else {
        s
    }
}

/// A file name made of a suggested one, before it is cut: without separators and leading
/// dots, and never empty.
pub open spec fn cleaned(s: Seq<char>) -> Seq<char> {
    let c = without_dots(name_chars(s));
    if c.len() == 0 {
        "attachment"@
    } else {
        c
    }
}

/// The longest file name, in bytes.
pub const MAX_NAME_BYTES: usize = 200;

/// Whether cutting a name to the longest length does not split a character.
pub open spec fn cuts_cleanly(name: Seq<char>) -> bool {
    encode_utf8(name).len() <= MAX_NAME_BYTES || is_char_boundary(
        encode_utf8(name),
        MAX_NAME_BYTES as int,
    )
}

/// Whether `r` is the file name for the suggested name `s`: the cleaned name, cut to the
/// longest length.
pub open spec fn is_safe_name(s: Seq<char>, r: Seq<char>) -> bool {
    let b = encode_utf8(cleaned(s));
    if b.len() <= MAX_NAME_BYTES {
        r == cleaned(s)
    } else {
        encode_utf8(r) == b.take(MAX_NAME_BYTES as int)
    }
}

/// The file name before it is cut.
fn clean_name(s: &str) -> (r: String)
    ensures
        r@ == cleaned(s@),
{
    let cs = chars_of(s);
    let mut kept: Vec<char> = Vec::new();
    let mut i: usize = 0;
    assert(cs@.take(0) =~= Seq::<char>::empty());
    while i < cs.len()
        invariant
            i <= cs@.len(),
            cs@ == s@,
            kept@ =~= name_chars(cs@.take(i as int)),
        decreases cs.len() - i,
    {
        let c = cs[i];
        proof {
            assert(cs@.take(i + 1).drop_last() =~= cs@.take(i as int));
            assert(cs@.take(i + 1).last() == c);
        }
        if !(c == '/' || c == '\\' || c == '\0') {
            kept.push(c);
        }
        i = i + 1;
    }
    assert(cs@.take(i as int) =~= s@);
    let mut from: usize = 0;
    assert(kept@.skip(0) =~= kept@);
    while from < kept.len() && kept[from] == '.'
        invariant
            from <= kept@.len(),
            without_dots(kept@) == without_dots(kept@.skip(from as int)),
        decreases kept.len() - from,
    {
        assert(kept@.skip(from as int).skip(1) =~= kept@.skip(from + 1));
        from = from + 1;
    }
    let name = string_range(&kept, from, kept.len());
    assert(name@ =~= kept@.skip(from as int));
    assert(name@ == without_dots(name_chars(s@)));
    if name.as_str().is_empty() {
        "attachment".to_owned()
    } else {
        name
    }
}

/// The file name for a suggested name. A name whose cut would split a character is not
/// accepted.
pub fn sanitize_filename(s: &str) -> (r: String)
    requires
        cuts_cleanly(cleaned(s@)),
    ensures
        is_safe_name(s@, r@),
{
    let name = clean_name(s);
    let len: usize = name.as_str().as_bytes().len();
    if len > MAX_NAME_BYTES {
        let (head, _) = name.as_str().split_at(MAX_NAME_BYTES);
        head.to_owned()
    } else {
        name
    }
}

/// The file name for a suggested name; `None` where the cut would split a character.
pub fn try_sanitize_filename(s: &str) -> (r: Option<String>)
    ensures
        r is Some <==> cuts_cleanly(cleaned(s@)),
        r matches Some(n) ==> is_safe_name(s@, n@),
{
    let name = clean_name(s);
    let len: usize = name.as_str().as_bytes().len();
    if len <= MAX_NAME_BYTES || name.as_str().is_char_boundary(MAX_NAME_BYTES) {
        Some(sanitize_filename(s))
    } else {
        None
    }
}

/// A file name never holds a separator, never begins with a dot and is never empty.
pub proof fn law_cleaned(s: Seq<char>)
    ensures
        cleaned(s).len() > 0,
        cleaned(s)[0] != '.',
        !cleaned(s).contains('/') && !cleaned(s).contains('\\') && !cleaned(s).contains('\0'),
{
    reveal_strlit("attachment");
    let a = "attachment"@;
    assert(a.len() == 10);
    assert(a[0] == 'a' && a[1] == 't' && a[2] == 't' && a[3] == 'a' && a[4] == 'c' && a[5] == 'h'
        && a[6] == 'm' && a[7] == 'e' && a[8] == 'n' && a[9] == 't');
    lemma_name_chars(s);
    lemma_without_dots(name_chars(s));
}

/// The file name that is used never holds a separator, never begins with a dot, is never
/// empty and never longer than the longest length.
pub proof fn law_safe_name(s: Seq<char>, r: Seq<char>)
    requires
        cuts_cleanly(cleaned(s)),
        is_safe_name(s, r),
    ensures
        0 < r.len(),
        encode_utf8(r).len() <= MAX_NAME_BYTES,
        r[0] != '.',
        !r.contains('/') && !r.contains('\\') && !r.contains('\0'),
{
    let c = cleaned(s);
    let b = encode_utf8(c);
    law_cleaned(s);
    if b.len() > MAX_NAME_BYTES {
        let n = MAX_NAME_BYTES as int;
        encode_utf8_valid_utf8(c);
        encode_utf8_decode_utf8(c);
        encode_utf8_decode_utf8(r);
        decode_utf8_split(b, n);
        assert(b.subrange(0, n) =~= b.take(n));
        let rest = decode_utf8(b.subrange(n, b.len() as int));
        assert(c == r + rest);
        if r.len() == 0 {
            assert(encode_utf8(r).len() == 0);
        }
        assert(r[0] == c[0]);
        assert forall|x: char| r.contains(x) implies c.contains(x) by {
            let i = choose|i: int| 0 <= i < r.len() && r[i] == x;
            assert(c[i] == x);
        }
    }
}

proof fn lemma_name_chars(s: Seq<char>)
    ensures
        !name_chars(s).contains('/') && !name_chars(s).contains('\\') && !name_chars(s).contains(
            '\0',
        ),
    decreases s.len(),
{
    if s.len() > 0 {
        lemma_name_chars(s.drop_last());
        let u = name_chars(s.drop_last());
        assert(forall|i: int| 0 <= i < u.len() ==> u.contains(#[trigger] u[i]));
    }
}

proof fn lemma_without_dots(s: Seq<char>)
    ensures
        without_dots(s).len() > 0 ==> without_dots(s)[0] != '.',
        forall|c: char| #[trigger] without_dots(s).contains(c) ==> s.contains(c),
    decreases s.len(),
{
    if s.len() > 0 && s[0] == '.' {
        lemma_without_dots(s.skip(1));
        assert forall|c: char| #[trigger] without_dots(s).contains(c) implies s.contains(c) by {
            assert(s.skip(1).contains(c));
            let i = choose|i: int| 0 <= i < s.skip(1).len() && s.skip(1)[i] == c;
            assert(s[i + 1] == c);
        }
    }
}

// --- Where attachments are put ---

/// The directory for attachments.
pub open spec fn attachments_dir_of(runtime: Option<Seq<char>>, uid: u32) -> Seq<char> {
    let base = match runtime {
        Some(d) => d,
        None => "/tmp/lupa-"@ + decimal(uid as nat),
    };
    path_joined(base, "lupa/attachments"@)
}

/// The directory for attachments, given the value of `XDG_RUNTIME_DIR` and the user.
pub fn attachments_dir(runtime: Option<&str>, uid: u32) -> (r: String)
    ensures
        r@ == attachments_dir_of(opt_str(runtime), uid),
{
    match runtime {
        Some(d) => path_join(d, "lupa/attachments"),
        None => {
            let mut base = String::new();
            base.append("/tmp/lupa-");
            push_decimal(&mut base, uid as u64);
            assert(base@ =~= "/tmp/lupa-"@ + decimal(uid as nat));
            path_join(base.as_str(), "lupa/attachments")
        },
    }
}

/// The path of the copy that an attachment is opened from.
pub open spec fn opened_path(dir: Seq<char>, nanos: u128, name: Seq<char>) -> Seq<char> {
    path_joined(dir, decimal(nanos as nat) + "-"@ + name)
}

/// The path of the file for an attachment: below the directory, with the time in nanoseconds
/// before its name.
pub fn attachment_path(dir: &str, nanos: u128, name: &str) -> (r: String)
    ensures
        r@ == opened_path(dir@, nanos, name@),
{
    let mut file = String::new();
    push_decimal_wide(&mut file, nanos);
    file.append("-");
    file.append(name);
    assert(file@ =~= decimal(nanos as nat) + "-"@ + name@);
    path_join(dir, file.as_str())
}

/// How long an attachment stays, in nanoseconds.
pub const ATTACHMENT_MAX_AGE_NS: u128 = 600_000_000_000;

/// The numbers of the files that are older than the given age. The age of a file is missing
/// where it cannot be read; such a file stays.
pub open spec fn stale_of(ages: Seq<Option<u128>>, max_age: u128, n: int) -> Seq<usize>
    decreases n,
{
    if n <= 0 {
        Seq::empty()
    } else {
        let before = stale_of(ages, max_age, n - 1);
        match ages[n - 1] {
            Some(a) => if a > max_age {
                before.push((n - 1) as usize)
            } else {
                before
            },
            None => before,
        }
    }
}

/// The numbers of the files that are older than the given age, in their order.
pub fn sweep_stale_attachments(ages: &Vec<Option<u128>>, max_age: u128) -> (r: Vec<usize>)
    ensures
        r@ == stale_of(ages@, max_age, ages@.len() as int),
{
    let mut out: Vec<usize> = Vec::new();
    for i in 0..ages.len()
        invariant
            out@ =~= stale_of(ages@, max_age, i as int),
    {
        match ages[i] {
            Some(a) => {
                if a > max_age {
                    out.push(i);
                }
            },
            None => {},
        }
    }
    out
}

/// Blanks are taken out byte by byte: every other byte stays, in its place.
pub proof fn law_without_blanks(a: Seq<u8>, x: u8, b: Seq<u8>)
    ensures
        without_blanks(a + seq![x] + b) == (if x == ' ' as u32 || x == '\t' as u32 || x
            == '\n' as u32 || x == '\r' as u32 || x == 12 {
            without_blanks(a) + without_blanks(b)
        } else {
            without_blanks(a) + seq![x] + without_blanks(b)
        }),
    decreases b.len(),
{
    let s = a + seq![x] + b;
    if b.len() == 0 {
        assert(s.drop_last() =~= a);
        assert(s.last() == x);
        if is_blank(x) {
            assert(without_blanks(s) =~= without_blanks(a) + without_blanks(b));
        } else {
            assert(without_blanks(s) =~= without_blanks(a) + seq![x] + without_blanks(b));
        }
    } else {
        law_without_blanks(a, x, b.drop_last());
        assert(s.drop_last() =~= a + seq![x] + b.drop_last());
        assert(s.last() == b.last());
        if is_blank(x) {
            assert(without_blanks(s) =~= without_blanks(a) + without_blanks(b));
        } else {
            assert(without_blanks(s) =~= without_blanks(a) + seq![x] + without_blanks(b));
        }
    }
}

/// How the name of an encoding is written, in small or capital letters, makes no difference;
/// nor do blanks in base64. What is not encoded comes out as it is, and an encoding that is not
/// known is refused.
pub proof fn law_attachment_content(
    raw: Seq<u8>,
    other: Seq<u8>,
    encoding: Seq<char>,
    same_encoding: Seq<char>,
)
    requires
        ascii_lowercase(encoding) == ascii_lowercase(same_encoding),
    ensures
        attachment_content(raw, encoding) == attachment_content(raw, same_encoding),
        ascii_lowercase(encoding) == "base64"@ && without_blanks(raw) == without_blanks(other)
            ==> attachment_content(raw, encoding) == attachment_content(other, encoding),
        ascii_lowercase(encoding) == "base64"@ ==> (base64_decoded(without_blanks(raw)) matches Ok(b)
            ==> attachment_content(raw, encoding) == Some(b)),
        ascii_lowercase(encoding) == "base64"@ ==> (attachment_content(raw, encoding) is None
            <==> base64_decoded(without_blanks(raw)) is Err),
        ascii_lowercase(encoding) == "quoted-printable"@ ==> attachment_content(raw, encoding)
            == Some(quoted_decoded(raw)),
        ascii_lowercase(encoding) == "7bit"@ || ascii_lowercase(encoding) == "8bit"@
            || ascii_lowercase(encoding) == "binary"@ || encoding.len() == 0 ==> attachment_content(
            raw,
            encoding,
        ) == Some(raw),
        attachment_content(raw, encoding) is Some ==> ascii_lowercase(encoding) == "base64"@
            || ascii_lowercase(encoding) == "quoted-printable"@ || ascii_lowercase(encoding)
            == "7bit"@ || ascii_lowercase(encoding) == "8bit"@ || ascii_lowercase(encoding)
            == "binary"@ || encoding.len() == 0,
{
    reveal_strlit("base64");
    reveal_strlit("quoted-printable");
    reveal_strlit("7bit");
    reveal_strlit("8bit");
    reveal_strlit("binary");
    assert("base64"@.len() == 6 && "binary"@.len() == 6);
    assert("base64"@[1] == 'a' && "binary"@[1] == 'i');
    assert(ascii_lowercase(encoding).len() == encoding.len());
}

/// A name that holds nothing to take out is kept; separators go wherever they stand, and so do
/// dots at the front; where nothing is left, a name is made up.
pub proof fn law_clean_names(a: Seq<char>, c: char, b: Seq<char>)
    ensures
        name_chars(a + seq![c] + b) == (if c == '/' || c == '\\' || c == '\0' {
            name_chars(a) + name_chars(b)
        } else {
            name_chars(a) + seq![c] + name_chars(b)
        }),
        !a.contains('/') && !a.contains('\\') && !a.contains('\0') ==> name_chars(a) == a,
        !a.contains('/') && !a.contains('\\') && !a.contains('\0') && a.len() > 0 && a[0] != '.'
            ==> cleaned(a) == a,
        cleaned(seq!['.'] + b) == cleaned(b),
        cleaned(seq!['/'] + b) == cleaned(b),
        cleaned(Seq::empty()) == "attachment"@,
    decreases b.len(),
{
    let s = a + seq![c] + b;
    lemma_names_kept(a);
    if b.len() == 0 {
        assert(s.drop_last() =~= a);
        assert(s.last() == c);
        if c == '/' || c == '\\' || c == '\0' {
            assert(name_chars(s) =~= name_chars(a) + name_chars(b));
        } else {
            assert(name_chars(s) =~= name_chars(a) + seq![c] + name_chars(b));
        }
    } else {
        law_clean_names(a, c, b.drop_last());
        assert(s.drop_last() =~= a + seq![c] + b.drop_last());
        assert(s.last() == b.last());
        if c == '/' || c == '\\' || c == '\0' {
            assert(name_chars(s) =~= name_chars(a) + name_chars(b));
        } else {
            assert(name_chars(s) =~= name_chars(a) + seq![c] + name_chars(b));
        }
    }
    lemma_first_char('.', b);
    lemma_first_char('/', b);
    let d = seq!['.'] + name_chars(b);
    assert(d.skip(1) =~= name_chars(b));
    assert(without_dots(d) == without_dots(name_chars(b)));
    assert(name_chars(Seq::<char>::empty()).len() == 0);
    assert(without_dots(name_chars(Seq::<char>::empty())).len() == 0);
}

proof fn lemma_first_char(c: char, b: Seq<char>)
    ensures
        name_chars(seq![c] + b) == (if c == '/' || c == '\\' || c == '\0' {
            name_chars(b)
        } else {
            seq![c] + name_chars(b)
        }),
    decreases b.len(),
{
    let s = seq![c] + b;
    if b.len() == 0 {
        assert(s.drop_last() =~= Seq::empty());
        assert(name_chars(s.drop_last()) =~= Seq::empty());
        assert(s.last() == c);
        if c == '/' || c == '\\' || c == '\0' {
            assert(name_chars(s) =~= name_chars(b));
        } else {
            assert(name_chars(s) =~= seq![c] + name_chars(b));
        }
    } else {
        lemma_first_char(c, b.drop_last());
        assert(s.drop_last() =~= seq![c] + b.drop_last());
        assert(s.last() == b.last());
        if c == '/' || c == '\\' || c == '\0' {
            assert(name_chars(s) =~= name_chars(b));
        } else {
            assert(name_chars(s) =~= seq![c] + name_chars(b));
        }
    }
}

proof fn lemma_names_kept(a: Seq<char>)
    ensures
        !a.contains('/') && !a.contains('\\') && !a.contains('\0') ==> name_chars(a) == a,
    decreases a.len(),
{
    if a.len() > 0 && !a.contains('/') && !a.contains('\\') && !a.contains('\0') {
        let t = a.drop_last();
        assert forall|c: char| t.contains(c) implies a.contains(c) by {
            let k = choose|k: int| 0 <= k < t.len() && t[k] == c;
            assert(a[k] == c);
        }
        assert(a.contains(a.last()));
        lemma_names_kept(t);
        assert(t.push(a.last()) =~= a);
    } else if a.len() == 0 {
        assert(name_chars(a) =~= a);
    }
}

/// A name that is short enough is kept whole, and a longer one is cut to the greatest length
/// that a name may have, with nothing else changed.
pub proof fn law_cut_names(s: Seq<char>, r: Seq<char>)
    requires
        is_safe_name(s, r),
    ensures
        encode_utf8(cleaned(s)).len() <= MAX_NAME_BYTES ==> r == cleaned(s),
        encode_utf8(cleaned(s)).len() > MAX_NAME_BYTES ==> encode_utf8(r).len() == MAX_NAME_BYTES
            && encode_utf8(cleaned(s)).take(MAX_NAME_BYTES as int) == encode_utf8(r),
{
}

/// Exactly the files that are older than the limit are swept away, in their order; one of an age
/// that is not known stays.
pub proof fn law_stale(ages: Seq<Option<u128>>, max_age: u128, n: int)
    requires
        0 <= n < ages.len() <= usize::MAX,
    ensures
        stale_of(ages, max_age, ages.len() as int).contains(n as usize) <==> (ages[n] matches Some(a)
            && a > max_age),
        stale_of(ages, max_age, n + 1) == (if ages[n] matches Some(a) && a > max_age {
            stale_of(ages, max_age, n).push(n as usize)
        } else {
            stale_of(ages, max_age, n)
        }),
        stale_of(ages, max_age, 0).len() == 0,
{
    lemma_stale(ages, max_age, ages.len() as int, n);
}

proof fn lemma_stale(ages: Seq<Option<u128>>, max_age: u128, m: int, n: int)
    requires
        0 <= m <= ages.len() <= usize::MAX,
        0 <= n < ages.len(),
    ensures
        stale_of(ages, max_age, m).contains(n as usize) <==> n < m && (ages[n] matches Some(a) && a
            > max_age),
    decreases m,
{
    if m > 0 {
        lemma_stale(ages, max_age, m - 1, n);
        let before = stale_of(ages, max_age, m - 1);
        let now = stale_of(ages, max_age, m);
        if before.contains(n as usize) {
            let k = choose|k: int| 0 <= k < before.len() && before[k] == n as usize;
            assert(now[k] == n as usize);
        }
        if now.contains(n as usize) && !before.contains(n as usize) {
            let k = choose|k: int| 0 <= k < now.len() && now[k] == n as usize;
            if k < before.len() {
                assert(before[k] == n as usize);
            }
            assert(n == m - 1);
        }
        if n == m - 1 && (ages[n] matches Some(a) && a > max_age) {
            assert(now[before.len() as int] == n as usize);
        }
    }
}

/// Two users without a runtime directory never share the directory of opened attachments; it
/// lies below the runtime directory where there is one, whoever the user is.
pub proof fn law_attachments_dir(runtime: Seq<char>, uid: u32, other: u32)
    ensures
        attachments_dir_of(None, uid) == attachments_dir_of(None, other) <==> uid == other,
        attachments_dir_of(Some(runtime), uid) == attachments_dir_of(Some(runtime), other),
        starts_with(attachments_dir_of(Some(runtime), uid), runtime),
{
    reveal_strlit("/tmp/lupa-");
    reveal_strlit("lupa/attachments");
    let t = "/tmp/lupa-"@;
    let e = seq!['/'] + "lupa/attachments"@;
    let x = decimal(uid as nat);
    let y = decimal(other as nat);
    crate::decimal::lemma_decimal_round_trip(uid as nat);
    crate::decimal::lemma_decimal_round_trip(other as nat);
    assert((t + x).last() == x.last());
    assert((t + y).last() == y.last());
    assert(crate::text::is_digit(x[x.len() - 1]));
    assert(crate::text::is_digit(y[y.len() - 1]));
    let a = attachments_dir_of(None, uid);
    let b = attachments_dir_of(None, other);
    assert(a =~= t + x + e);
    assert(b =~= t + y + e);
    if a == b {
        assert(a.subrange(t.len() as int, a.len() - e.len()) =~= x);
        assert(b.subrange(t.len() as int, b.len() - e.len()) =~= y);
    }
    let r = attachments_dir_of(Some(runtime), uid);
    assert(r.take(runtime.len() as int) =~= runtime);
}

/// Attachments that are opened at different times never share a copy, whatever their names, and
/// the copy keeps the name of the attachment at its end.
pub proof fn law_opened_paths(dir: Seq<char>, a: u128, b: u128, name: Seq<char>, other: Seq<char>)
    ensures
        opened_path(dir, a, name) == opened_path(dir, b, other) <==> a == b && name == other,
        crate::text::ends_with(opened_path(dir, a, name), name),
        starts_with(opened_path(dir, a, name), dir),
{
    reveal_strlit("-");
    assert("-"@ =~= seq!['-']);
    let x = decimal(a as nat);
    let y = decimal(b as nat);
    crate::decimal::lemma_decimal_round_trip(a as nat);
    crate::decimal::lemma_decimal_round_trip(b as nat);
    assert(crate::text::is_digit(x[0]));
    assert(crate::text::is_digit(y[0]));
    let s = x + seq!['-'] + name;
    let t = y + seq!['-'] + other;
    assert(s[0] == x[0] && t[0] == y[0]);
    assert(!crate::paths::has_root(s) && !crate::paths::has_root(t));
    let h = if dir.len() > 0 && dir.last() != '/' {
        dir + seq!['/']
    } else {
        dir
    };
    let p = opened_path(dir, a, name);
    let q = opened_path(dir, b, other);
    assert(p =~= h + s);
    assert(q =~= h + t);
    assert(p.skip(p.len() - name.len()) =~= name);
    assert(p.take(dir.len() as int) =~= dir);
    if p == q {
        assert((h + s).skip(h.len() as int) =~= s);
        assert((h + t).skip(h.len() as int) =~= t);
        lemma_no_dash(x);
        lemma_no_dash(y);
        crate::text::law_split_at_first(x, '-', name);
        crate::text::law_split_at_first(y, '-', other);
    }
}

proof fn lemma_no_dash(s: Seq<char>)
    requires
        crate::decimal::is_digits(s),
    ensures
        !s.contains('-'),
{
    if s.contains('-') {
        let k = choose|k: int| 0 <= k < s.len() && s[k] == '-';
        assert(crate::text::is_digit(s[k]));
    }
}

/// The message on an encoding that is not known names it, whole.
pub proof fn law_unsupported_message(encoding: Seq<char>)
    ensures
        crate::text::ends_with(unsupported_text(encoding), encoding),
        unsupported_text(encoding).len() > encoding.len(),
{
    let t = unsupported_text(encoding);
    reveal_strlit("unsupported transfer encoding: ");
    assert(t.skip(t.len() - encoding.len()) =~= encoding);
}

}
