//! Where the socket of the daemon is.
use crate::decimal::{parse_unsigned, push_decimal};
use crate::paths::path_join;
use crate::split::{lines, split_whitespace};
use crate::text::strip_prefix;
use vstd::prelude::*;
use vstd::string::*;

verus! {

use crate::decimal::{decimal, unsigned};
use crate::paths::path_joined;
use crate::split::{is_word, lines_of, words_of};
use crate::text::{is_whitespace, starts_with, views};

/// The user that a line of a process status names, where it is the line that does.
pub open spec fn line_uid(line: Seq<char>) -> Option<nat> {
    if starts_with(line, "Uid:"@) {
        let words = words_of(line.skip("Uid:"@.len() as int));
        if words.len() > 0 {
            unsigned(words[0], u32::MAX as nat)
        } else {
            Some(0)
        }
    } else {
        None
    }
}

/// The user that the first line to name one names.
pub open spec fn first_uid(lines: Seq<Seq<char>>) -> Option<nat>
    decreases lines.len(),
{
    if lines.len() == 0 {
        None
    } else {
        match first_uid(lines.drop_last()) {
            Some(u) => Some(u),
            None => line_uid(lines.last()),
        }
    }
}

/// The user: as the environment says, else as the process status says, else 1000.
pub open spec fn uid_of(env: Option<Seq<char>>, status: Option<Seq<char>>) -> nat {
    let from_env = match env {
        Some(e) => unsigned(e, u32::MAX as nat),
        None => None,
    };
    let from_status = match status {
        Some(s) => first_uid(lines_of(s)),
        None => None,
    };
    match from_env {
        Some(u) => u,
        None => match from_status {
            Some(u) => u,
            None => 1000,
        },
    }
}

/// The text of an optional borrowed string.
pub open spec fn opt_str(o: Option<&str>) -> Option<Seq<char>> {
    match o {
        Some(s) => Some(s@),
        None => None,
    }
}

/// The user, given the value of `UID` and the text of the process status.
pub fn get_uid(env: Option<&str>, status: Option<&str>) -> (r: u32)
    ensures
        r == uid_of(opt_str(env), opt_str(status)),
{
    match env {
        Some(e) => {
            match parse_unsigned(e, 0xffff_ffff) {
                Some(u) => {
                    return u as u32;
                },
                None => {},
            }
        },
        None => {},
    }
    match status {
        Some(s) => {
            let ls = lines(s);
            let ghost all = lines_of(s@);
            let mut i: usize = 0;
            while i < ls.len()
                invariant
                    i <= ls@.len(),
                    views(ls@) == all,
                    all == lines_of(s@),
                    status == Some(s),
                    first_uid(all.take(i as int)) is None,
                    (match opt_str(env) {
                        Some(e) => unsigned(e, u32::MAX as nat),
                        None => None,
                    }) is None,
                decreases ls.len() - i,
            {
                proof {
                    assert(all.take(i + 1).drop_last() =~= all.take(i as int));
                    assert(all.take(i + 1).last() == ls@[i as int]@);
                }
                match strip_prefix(ls[i].as_str(), "Uid:") {
                    Some(rest) => {
                        let words = split_whitespace(rest.as_str());
                        proof {
                            if words@.len() > 0 {
                                assert(views(words@)[0] == words@[0]@);
                            }
                        }
                        let parsed: Option<u64> = if words.len() > 0 {
                            parse_unsigned(words[0].as_str(), 0xffff_ffff)
                        } else {
                            Some(0)
                        };
                        match parsed {
                            Some(u) => {
                                proof {
                                    lemma_first_uid_stays(all, i + 1, all.len() as int);
                                    assert(all.take(all.len() as int) =~= all);
                                }
                                return u as u32;
                            },
                            None => {},
                        }
                    },
                    None => {},
                }
                i = i + 1;
            }
            assert(all.take(i as int) =~= all);
        },
        None => {},
    }
    1000
}

proof fn lemma_first_uid_stays(lines: Seq<Seq<char>>, i: int, j: int)
    requires
        0 <= i <= j <= lines.len(),
        first_uid(lines.take(i)) is Some,
    ensures
        first_uid(lines.take(j)) == first_uid(lines.take(i)),
    decreases j - i,
{
    if i < j {
        lemma_first_uid_stays(lines, i, j - 1);
        assert(lines.take(j).drop_last() =~= lines.take(j - 1));
    }
}

/// The path of the socket.
pub open spec fn socket_of(runtime_dir: Option<Seq<char>>, uid: u32) -> Seq<char> {
    match runtime_dir {
        Some(d) => path_joined(d, "lupa.sock"@),
        None => "/tmp/lupa-"@ + decimal(uid as nat) + ".sock"@,
    }
}

/// The path of the socket, given the value of `XDG_RUNTIME_DIR` and the user.
pub fn socket_path(runtime_dir: Option<&str>, uid: u32) -> (r: String)
    ensures
        r@ == socket_of(opt_str(runtime_dir), uid),
{
    match runtime_dir {
        Some(d) => path_join(d, "lupa.sock"),
        None => {
            let mut s = String::new();
            s.append("/tmp/lupa-");
            push_decimal(&mut s, uid as u64);
            s.append(".sock");
            assert(s@ =~= "/tmp/lupa-"@ + decimal(uid as nat) + ".sock"@);
            s
        },
    }
}

// --- Laws ---

/// The user's number is the one in the environment where it is a number there, whatever the
/// process status says; else that of the first line of the status that gives one, and else the
/// usual first user's.
pub proof fn law_uid(
    env: Option<Seq<char>>,
    status: Option<Seq<char>>,
    before: Seq<Seq<char>>,
    line: Seq<char>,
    after: Seq<Seq<char>>,
)
    ensures
        env matches Some(e) ==> (unsigned(e, u32::MAX as nat) matches Some(u) ==> uid_of(env, status)
            == u),
        env matches Some(e) ==> (unsigned(e, u32::MAX as nat) is None ==> uid_of(env, status)
            == uid_of(None, status)),
        uid_of(None, None) == 1000,
        (forall|i: int| 0 <= i < before.len() ==> line_uid(#[trigger] before[i]) is None)
            ==> first_uid(before) is None,
        (forall|i: int| 0 <= i < before.len() ==> line_uid(#[trigger] before[i]) is None)
            && line_uid(line) is Some ==> first_uid(before + seq![line] + after) == line_uid(line),
        status matches Some(s) ==> (first_uid(lines_of(s)) matches Some(u) ==> uid_of(None, status)
            == u),
{
    lemma_no_uid(before);
    if (forall|i: int| 0 <= i < before.len() ==> line_uid(#[trigger] before[i]) is None)
        && line_uid(line) is Some {
        let all = before + seq![line] + after;
        let n = before.len() as int + 1;
        assert(all.take(n).drop_last() =~= before);
        assert(all.take(n).last() == line);
        assert(first_uid(all.take(n)) == line_uid(line));
        lemma_first_uid_stays(all, n, all.len() as int);
        assert(all.take(all.len() as int) =~= all);
    }
}

proof fn lemma_no_uid(lines: Seq<Seq<char>>)
    ensures
        (forall|i: int| 0 <= i < lines.len() ==> line_uid(#[trigger] lines[i]) is None)
            ==> first_uid(lines) is None,
    decreases lines.len(),
{
    if lines.len() > 0 && (forall|i: int|
        0 <= i < lines.len() ==> line_uid(#[trigger] lines[i]) is None) {
        let t = lines.drop_last();
        assert forall|i: int| 0 <= i < t.len() implies line_uid(#[trigger] t[i]) is None by {
            assert(t[i] == lines[i]);
        }
        lemma_no_uid(t);
        assert(line_uid(lines[lines.len() - 1]) is None);
    }
}

/// The line of the status that gives the number gives it as the first of its words, whatever
/// white space and whatever other numbers stand round it; a line of another name gives none.
pub proof fn law_uid_line(word: Seq<char>, c: char, rest: Seq<char>)
    requires
        is_word(word),
        is_whitespace(c),
    ensures
        line_uid("Uid:"@ + seq![c] + word + seq![c] + rest) == unsigned(word, u32::MAX as nat),
        !starts_with(rest, "Uid:"@) ==> line_uid(rest) is None,
{
    let u = "Uid:"@;
    let tail = seq![c] + word + seq![c] + rest;
    let line = u + seq![c] + word + seq![c] + rest;
    assert(line =~= u + tail);
    assert((u + tail).take(u.len() as int) =~= u);
    assert((u + tail).skip(u.len() as int) =~= tail);
    crate::split::law_words_parts(Seq::empty(), c, word);
    crate::split::law_words_parts(word, c, rest);
    crate::split::law_words_parts(Seq::<char>::empty() + seq![c] + word, c, rest);
    assert(Seq::<char>::empty() + seq![c] + word + seq![c] + rest =~= tail);
    assert(words_of(Seq::<char>::empty()).len() == 0);
    assert(words_of(tail)[0] == word);
}

/// Two users without a runtime directory never share a socket; with one, it lies in there.
pub proof fn law_sockets(runtime: Seq<char>, uid: u32, other: u32)
    ensures
        socket_of(None, uid) == socket_of(None, other) <==> uid == other,
        socket_of(Some(runtime), uid) == socket_of(Some(runtime), other),
        runtime.len() > 0 ==> crate::paths::components_of(socket_of(Some(runtime), uid))
            == crate::paths::components_of(runtime).push("lupa.sock"@),
{
    reveal_strlit("lupa.sock");
    let t = "/tmp/lupa-"@;
    let e = ".sock"@;
    let x = decimal(uid as nat);
    let y = decimal(other as nat);
    crate::decimal::lemma_decimal_round_trip(uid as nat);
    crate::decimal::lemma_decimal_round_trip(other as nat);
    let a = socket_of(None, uid);
    let b = socket_of(None, other);
    if a == b {
        assert(a.subrange(t.len() as int, a.len() - e.len()) =~= x);
        assert(b.subrange(t.len() as int, b.len() - e.len()) =~= y);
    }
    if runtime.len() > 0 {
        let n = "lupa.sock"@;
        assert(n.len() == 9);
        assert(!n.contains('/')) by {
            assert(n[0] == 'l' && n[1] == 'u' && n[2] == 'p' && n[3] == 'a' && n[4] == '.' && n[5]
                == 's' && n[6] == 'o' && n[7] == 'c' && n[8] == 'k');
        }
        crate::paths::law_joined_path(runtime, n, n);
    }
}

}
