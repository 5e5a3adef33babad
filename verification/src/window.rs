//! The launcher's window: its size and its place on the screen.
use crate::decimal::{i64_text, parse_i32};
use crate::paths::path_join;
use crate::text::{char_is_digit, chars_of, find_chars, string_range};
use vstd::prelude::*;
use vstd::string::*;

verus! {

use crate::decimal::{law_signed_round_trip, lemma_decimal_round_trip, signed, signed_decimal};
use crate::paths::path_joined;
use crate::text::{first_at, is_digit, occurs, occurs_at, opt_view};

/// How far below the top of the screen the window is, in pixels, unless it was moved.
pub const DEFAULT_TOP_MARGIN: i32 = 140;

/// For how many milliseconds the window fades in and out.
pub const ANIMATION_MS: u64 = 120;

/// The quotient of a signed number, rounded toward zero.
pub open spec fn quotient(n: int, d: int) -> int {
    if n >= 0 {
        n / d
    } else {
        -((-n) / d)
    }
}

/// The extent of the launcher on a screen of the given extent: so many hundredths of it, and no
/// more than `max`.
pub open spec fn extent_of(screen: int, percent: int, max: int) -> int {
    if quotient(screen * percent, 100) < max {
        quotient(screen * percent, 100)
    } else {
        max
    }
}

/// How wide or high the window is: a percentage of the screen, up to a limit in pixels.
pub fn launcher_extent(screen: i32, percent: u8, max: i32) -> (r: i32)
    requires
        i32::MIN <= screen * percent <= i32::MAX,
    ensures
        r == extent_of(screen as int, percent as int, max as int),
{
    let p: i64 = screen as i64 * percent as i64;
    let q: i64 = if p >= 0 {
        p / 100
    } else {
        -((-p) / 100)
    };
    if q < max as i64 {
        q as i32
    } else {
        max
    }
}

/// Where the place of the window is kept, below the directory for state where there is one.
pub fn window_state_path(state_dir: &Option<String>) -> (r: Option<String>)
    ensures
        opt_view(r) == (match *state_dir {
            Some(d) => Some(path_joined(d@, "lupa/window.json"@)),
            None => None,
        }),
{
    match state_dir {
        Some(d) => Some(path_join(d.as_str(), "lupa/window.json")),
        None => None,
    }
}

// --- The kept place ---

/// How a place is written down.
pub open spec fn position_text(top: int, left: int) -> Seq<char> {
    "{\"top\":"@ + signed_decimal(top) + ",\"left\":"@ + signed_decimal(left) + "}"@
}

/// Writes a place down.
pub fn save_window_position(top: i32, left: i32) -> (r: String)
    ensures
        r@ == position_text(top as int, left as int),
{
    let mut r = String::new();
    r.append("{\"top\":");
    r.append(i64_text(top as i64).as_str());
    r.append(",\"left\":");
    r.append(i64_text(left as i64).as_str());
    r.append("}");
    assert(r@ =~= position_text(top as int, left as int));
    r
}

/// A character that a number may be made of.
pub open spec fn is_numeral(c: char) -> bool {
    c == '-' || is_digit(c)
}

/// Where the run of numerals that begins at `i` ends.
pub open spec fn numerals_end(s: Seq<char>, i: int) -> int
    decreases s.len() - i,
{
    if i >= s.len() || !is_numeral(s[i]) {
        i
    } else {
        numerals_end(s, i + 1)
    }
}

/// How a key is written before its number.
pub open spec fn key_text(key: Seq<char>) -> Seq<char> {
    seq!['"'] + key + seq!['"', ':']
}

/// The number behind a key that is found at `at`.
pub open spec fn number_after(s: Seq<char>, key: Seq<char>, at: int) -> Option<i32> {
    let from = at + key_text(key).len();
    match signed(s.subrange(from, numerals_end(s, from)), i32::MIN as int, i32::MAX as int) {
        Some(n) => Some(n as i32),
        None => None,
    }
}

/// The number behind the first place at which a key stands.
pub fn extract_int(s: &str, key: &str) -> (r: Option<i32>)
    ensures
        forall|at: int| #[trigger]
            first_at(s@, key_text(key@), at) ==> r == number_after(s@, key@, at),
        !occurs(s@, key_text(key@)) ==> r is None,
{
    let cs = chars_of(s);
    let mut needle: Vec<char> = Vec::new();
    needle.push('"');
    let k = chars_of(key);
    for i in 0..k.len()
        invariant
            k@ == key@,
            needle@ =~= seq!['"'] + key@.take(i as int),
    {
        needle.push(k[i]);
    }
    needle.push('"');
    needle.push(':');
    assert(needle@ =~= key_text(key@));
    match find_chars(&cs, &needle) {
        None => {
            assert(forall|at: int| !occurs_at(s@, key_text(key@), at));
            None
        },
        Some(at) => {
            assert(first_at(s@, key_text(key@), at as int));
            assert(forall|other: int| #[trigger]
                first_at(s@, key_text(key@), other) ==> other == at) by {
                assert forall|other: int| #[trigger]
                    first_at(s@, key_text(key@), other) implies other == at by {
                    assert(occurs_at(s@, key_text(key@), other));
                    assert(occurs_at(s@, key_text(key@), at as int));
                }
            }
            assert(occurs_at(s@, key_text(key@), at as int));
            let n: usize = cs.len();
            let from: usize = at + needle.len();
            let mut to: usize = from;
            while to < n && (cs[to] == '-' || char_is_digit(cs[to]))
                invariant
                    cs@ == s@,
                    n == cs@.len(),
                    from <= to <= cs@.len(),
                    numerals_end(s@, from as int) == numerals_end(s@, to as int),
                decreases n - to,
            {
                to = to + 1;
            }
            parse_i32(string_range(&cs, from, to).as_str())
        },
    }
}

/// The place that is written down in a text, where both of its numbers are there.
pub fn load_window_position(body: &str) -> (r: Option<(i32, i32)>)
    ensures
        forall|t: int, l: int|
            #![trigger first_at(body@, key_text("top"@), t), first_at(body@, key_text("left"@), l)]
            first_at(body@, key_text("top"@), t) && first_at(body@, key_text("left"@), l) ==> r == (
            match (number_after(body@, "top"@, t), number_after(body@, "left"@, l)) {
                (Some(a), Some(b)) => Some((a, b)),
                _ => None,
            }),
        !occurs(body@, key_text("top"@)) || !occurs(body@, key_text("left"@)) ==> r is None,
{
    match (extract_int(body, "top"), extract_int(body, "left")) {
        (Some(a), Some(b)) => Some((a, b)),
        _ => None,
    }
}

/// The place of the window at start: the kept one, else the default.
pub fn initial_position(body: &Option<String>) -> (r: (i32, i32))
    ensures
        body is None ==> r == (DEFAULT_TOP_MARGIN, 0i32),
        body matches Some(b) ==> {
            &&& forall|t: int, l: int|
                #![trigger first_at(b@, key_text("top"@), t), first_at(b@, key_text("left"@), l)]
                first_at(b@, key_text("top"@), t) && first_at(b@, key_text("left"@), l) ==> r == (
                match (number_after(b@, "top"@, t), number_after(b@, "left"@, l)) {
                    (Some(x), Some(y)) => (x, y),
                    _ => (DEFAULT_TOP_MARGIN, 0i32),
                })
            &&& !occurs(b@, key_text("top"@)) || !occurs(b@, key_text("left"@)) ==> r == (
                DEFAULT_TOP_MARGIN,
                0i32,
            )
        },
{
    match body {
        Some(b) => match load_window_position(b.as_str()) {
            Some(p) => p,
            None => (DEFAULT_TOP_MARGIN, 0),
        },
        None => (DEFAULT_TOP_MARGIN, 0),
    }
}

proof fn lemma_numerals(s: Seq<char>, i: int, j: int)
    requires
        0 <= i <= j < s.len(),
        forall|k: int| i <= k < j ==> is_numeral(#[trigger] s[k]),
        !is_numeral(s[j]),
    ensures
        numerals_end(s, i) == j,
    decreases j - i,
{
    if i < j {
        lemma_numerals(s, i + 1, j);
    }
}

proof fn lemma_signed_numerals(n: int)
    ensures
        forall|k: int| 0 <= k < signed_decimal(n).len() ==> is_numeral(#[trigger] signed_decimal(n)[k]),
{
    let d = signed_decimal(n);
    if n < 0 {
        lemma_decimal_round_trip((-n) as nat);
        assert forall|k: int| 0 <= k < d.len() implies is_numeral(#[trigger] d[k]) by {
            if k > 0 {
                assert(d[k] == crate::decimal::decimal((-n) as nat)[k - 1]);
            }
        }
    } else {
        lemma_decimal_round_trip(n as nat);
    }
}

/// A place that was written down is read back.
pub proof fn law_position_read_back(top: i32, left: i32)
    ensures
        ({
            let s = position_text(top as int, left as int);
            exists|t: int, l: int|
                #![trigger first_at(s, key_text("top"@), t), first_at(s, key_text("left"@), l)]
                first_at(s, key_text("top"@), t) && first_at(s, key_text("left"@), l)
                    && number_after(s, "top"@, t) == Some(top) && number_after(s, "left"@, l)
                    == Some(left)
        }),
{
    reveal_strlit("{\"top\":");
    reveal_strlit(",\"left\":");
    reveal_strlit("}");
    reveal_strlit("top");
    reveal_strlit("left");
    let s = position_text(top as int, left as int);
    let a = signed_decimal(top as int);
    let b = signed_decimal(left as int);
    lemma_signed_numerals(top as int);
    lemma_signed_numerals(left as int);
    law_signed_round_trip(top as int, i32::MIN as int, i32::MAX as int);
    law_signed_round_trip(left as int, i32::MIN as int, i32::MAX as int);
    let kt = key_text("top"@);
    let kl = key_text("left"@);
    assert(kt =~= seq!['"', 't', 'o', 'p', '"', ':']);
    assert(kl =~= seq!['"', 'l', 'e', 'f', 't', '"', ':']);
    let m = 7 + a.len() as int;
    let head = seq!['{', '"', 't', 'o', 'p', '"', ':'];
    let mid = seq![',', '"', 'l', 'e', 'f', 't', '"', ':'];
    assert(s =~= head + a + mid + b + seq!['}']);
    assert(s.subrange(1, 7) =~= kt);
    assert(occurs_at(s, kt, 1));
    assert(s[0] == '{');
    assert(!occurs_at(s, kt, 0)) by {
        if occurs_at(s, kt, 0) {
            assert(s.subrange(0, 6)[0] == kt[0]);
        }
    }
    assert(first_at(s, kt, 1));
    assert forall|k: int| 7 <= k < m implies is_numeral(#[trigger] s[k]) by {
        assert(s[k] == a[k - 7]);
    }
    assert(s[m] == ',');
    lemma_numerals(s, 7, m);
    assert(s.subrange(7, m) =~= a);
    let at = m + 1;
    assert(s.subrange(at, at + 7) =~= kl);
    assert(occurs_at(s, kl, at));
    assert forall|j: int| 0 <= j < at implies !occurs_at(s, kl, j) by {
        if occurs_at(s, kl, j) {
            let w = s.subrange(j, j + 7);
            assert(w[0] == '"' && w[1] == 'l');
            assert(s[j] == '"' && s[j + 1] == 'l');
            if j < 7 {
                assert(s[j] == head[j]);
                if j + 1 < 7 {
                    assert(s[j + 1] == head[j + 1]);
                }
            } else if j < m {
                assert(is_numeral(s[j]));
            }
        }
    }
    assert(first_at(s, kl, at));
    let f = at + 7;
    assert forall|k: int| f <= k < f + b.len() implies is_numeral(#[trigger] s[k]) by {
        assert(s[k] == b[k - f]);
    }
    assert(s[f + b.len()] == '}');
    lemma_numerals(s, f, f + b.len());
    assert(s.subrange(f, f + b.len()) =~= b);
}

/// The launcher takes so many hundredths of the screen, rounded down, and never more than its
/// greatest extent; the whole screen at a hundred.
pub proof fn law_launcher_extent(screen: int, percent: int, max: int)
    requires
        0 <= screen,
        0 <= percent,
    ensures
        extent_of(screen, percent, max) <= max,
        screen * percent >= max * 100 ==> extent_of(screen, percent, max) == max,
        screen * percent < max * 100 ==> extent_of(screen, percent, max) * 100 <= screen * percent
            < extent_of(screen, percent, max) * 100 + 100,
        screen <= max ==> extent_of(screen, 100, max) == screen,
{
    let p = screen * percent;
    assert(p >= 0) by (nonlinear_arith)
        requires
            p == screen * percent,
            0 <= screen,
            0 <= percent,
    ;
}

}
