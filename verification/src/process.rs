//! What the status of a process says: whether it lives, and how much memory it uses.
use crate::decimal::parse_unsigned;
use crate::messages::MemoryStats;
use crate::split::{lines, split_whitespace};
use crate::text::{begins, same, split_once, strip_prefix, trim_front};
use vstd::prelude::*;
use vstd::string::*;

verus! {

use crate::decimal::unsigned;
use crate::socket::opt_str;
use crate::split::{is_word, lines_of, words_of};
use crate::text::{is_blank, is_whitespace, split_at_first, starts_with, trim_start, views};

/// Whether the text after `State:` is that of a process that has ended.
pub open spec fn ended_state(rest: Seq<char>) -> bool {
    starts_with(trim_start(rest), "Z"@) || starts_with(trim_start(rest), "X"@)
}

/// Whether the lines from the given one on are those of a living process: the first line
/// that states it decides, and without one the process is taken to live.
pub open spec fn lives_from(lines: Seq<Seq<char>>, i: int) -> bool
    decreases lines.len() - i,
{
    if i < 0 || i >= lines.len() {
        true
    } else if starts_with(lines[i], "State:"@) {
        !ended_state(lines[i].skip("State:"@.len() as int))
    } else {
        lives_from(lines, i + 1)
    }
}

/// Whether a process lives.
pub open spec fn lives(signalled: bool, status: Option<Seq<char>>) -> bool {
    match status {
        Some(s) => signalled && lives_from(lines_of(s), 0),
        None => false,
    }
}

/// Whether a process lives, given whether it can be signalled, and its status, where that
/// can be read. A process that has ended and was not waited for does not live.
pub fn process_alive(signalled: bool, status: Option<&str>) -> (r: bool)
    ensures
        r == lives(signalled, opt_str(status)),
{
    if !signalled {
        return false;
    }
    match status {
        None => false,
        Some(s) => {
            let ls = lines(s);
            let ghost all = lines_of(s@);
            let mut i: usize = 0;
            while i < ls.len()
                invariant
                    i <= ls@.len(),
                    views(ls@) == all,
                    all == lines_of(s@),
                    status == Some(s),
                    signalled,
                    lives_from(all, 0) == lives_from(all, i as int),
                decreases ls.len() - i,
            {
                assert(all[i as int] == ls@[i as int]@);
                match strip_prefix(ls[i].as_str(), "State:") {
                    Some(rest) => {
                        let t = trim_front(rest.as_str());
                        return !(begins(t.as_str(), "Z") || begins(t.as_str(), "X"));
                    },
                    None => {},
                }
                i = i + 1;
            }
            true
        },
    }
}

/// The product with 1024, or the greatest number there is.
pub open spec fn saturated_kib(kb: nat) -> u64 {
    if kb * 1024 > u64::MAX {
        u64::MAX
    } else {
        (kb * 1024) as u64
    }
}

/// The key of a status line and the number of bytes that it states, where it states one.
pub open spec fn memory_line(line: Seq<char>) -> Option<(Seq<char>, u64)> {
    match split_at_first(line, ':') {
        None => None,
        Some((key, rest)) => {
            let w = words_of(rest);
            if w.len() == 0 {
                None
            } else {
                match unsigned(w[0], u64::MAX as nat) {
                    Some(kb) => Some((key, saturated_kib(kb))),
                    None => None,
                }
            }
        },
    }
}

/// The numbers after one more line.
pub open spec fn memory_step(m: MemoryStats, line: Seq<char>) -> MemoryStats {
    match memory_line(line) {
        None => m,
        Some((key, bytes)) => if key == "VmRSS"@ {
            MemoryStats { rss_bytes: bytes, ..m }
        } else if key == "VmPeak"@ {
            MemoryStats { vm_peak_bytes: bytes, ..m }
        } else if key == "VmSize"@ {
            MemoryStats { vm_size_bytes: bytes, ..m }
        } else if key == "VmSwap"@ {
            MemoryStats { vm_swap_bytes: bytes, ..m }
        } else {
            m
        },
    }
}

/// The numbers after the given lines.
pub open spec fn memory_lines(lines: Seq<Seq<char>>) -> MemoryStats
    decreases lines.len(),
{
    if lines.len() == 0 {
        no_memory()
    } else {
        memory_step(memory_lines(lines.drop_last()), lines.last())
    }
}

/// The numbers of a status that states none.
pub open spec fn no_memory() -> MemoryStats {
    MemoryStats { rss_bytes: 0, vm_peak_bytes: 0, vm_size_bytes: 0, vm_swap_bytes: 0 }
}

/// How much memory the process with this status uses; nothing where there is no status.
pub fn collect_memory_stats(status: Option<&str>) -> (r: MemoryStats)
    ensures
        r == (match opt_str(status) {
            Some(s) => memory_lines(lines_of(s)),
            None => no_memory(),
        }),
{
    let mut m = MemoryStats { rss_bytes: 0, vm_peak_bytes: 0, vm_size_bytes: 0, vm_swap_bytes: 0 };
    match status {
        None => {},
        Some(s) => {
            let ls = lines(s);
            let ghost all = lines_of(s@);
            let mut i: usize = 0;
            assert(all.take(0) =~= Seq::<Seq<char>>::empty());
            while i < ls.len()
                invariant
                    i <= ls@.len(),
                    views(ls@) == all,
                    m == memory_lines(all.take(i as int)),
                decreases ls.len() - i,
            {
                proof {
                    assert(all.take(i + 1).drop_last() =~= all.take(i as int));
                    assert(all.take(i + 1).last() == ls@[i as int]@);
                }
                match split_once(ls[i].as_str(), ':') {
                    Some((key, rest)) => {
                        let words = split_whitespace(rest.as_str());
                        if words.len() > 0 {
                            proof {
                                assert(views(words@)[0] == words@[0]@);
                            }
                            match parse_unsigned(words[0].as_str(), u64::MAX) {
                                Some(kb) => {
                                    let bytes: u64 = if kb > u64::MAX / 1024 {
                                        u64::MAX
                                    } else {
                                        kb * 1024
                                    };
                                    let k = key.as_str();
                                    if same(k, "VmRSS") {
                                        m.rss_bytes = bytes;
                                    } else if same(k, "VmPeak") {
                                        m.vm_peak_bytes = bytes;
                                    } else if same(k, "VmSize") {
                                        m.vm_size_bytes = bytes;
                                    } else if same(k, "VmSwap") {
                                        m.vm_swap_bytes = bytes;
                                    }
                                },
                                None => {},
                            }
                        }
                    },
                    None => {},
                }
                i = i + 1;
            }
            assert(all.take(i as int) =~= all);
        },
    }
    m
}

// --- Laws ---

/// Whether a process lives is decided by the first line of its status that tells its state,
/// whatever stands before and after; a process without such a line lives.
pub proof fn law_first_state_counts(
    before: Seq<Seq<char>>,
    line: Seq<char>,
    after: Seq<Seq<char>>,
)
    requires
        forall|i: int| 0 <= i < before.len() ==> !starts_with(#[trigger] before[i], "State:"@),
        starts_with(line, "State:"@),
    ensures
        lives_from(before + seq![line] + after, 0) == !ended_state(
            line.skip("State:"@.len() as int),
        ),
        lives_from(before, 0),
{
    lemma_lives(before, line, after, 0);
    lemma_lives_without(before, 0);
}

proof fn lemma_lives(before: Seq<Seq<char>>, line: Seq<char>, after: Seq<Seq<char>>, i: int)
    requires
        0 <= i <= before.len(),
        forall|k: int| 0 <= k < before.len() ==> !starts_with(#[trigger] before[k], "State:"@),
        starts_with(line, "State:"@),
    ensures
        lives_from(before + seq![line] + after, i) == !ended_state(
            line.skip("State:"@.len() as int),
        ),
    decreases before.len() - i,
{
    let all = before + seq![line] + after;
    if i < before.len() {
        assert(all[i] == before[i]);
        lemma_lives(before, line, after, i + 1);
    } else {
        assert(all[i] == line);
    }
}

proof fn lemma_lives_without(lines: Seq<Seq<char>>, i: int)
    requires
        0 <= i <= lines.len(),
        forall|k: int| 0 <= k < lines.len() ==> !starts_with(#[trigger] lines[k], "State:"@),
    ensures
        lives_from(lines, i),
    decreases lines.len() - i,
{
    if i < lines.len() {
        lemma_lives_without(lines, i + 1);
    }
}

/// A process has ended exactly if its state is that of a zombie or of a dead process, after any
/// white space; one that cannot be signalled, or has no status, does not live.
pub proof fn law_ended_states(blank: Seq<char>, state: char, rest: Seq<char>, s: Seq<char>)
    requires
        is_blank(blank),
        !is_whitespace(state),
    ensures
        ended_state(blank + seq![state] + rest) <==> state == 'Z' || state == 'X',
        !lives(false, Some(s)),
        !lives(true, None),
        lives(true, Some(s)) == lives_from(lines_of(s), 0),
{
    lemma_trim_start_blank(blank, seq![state] + rest);
    assert(blank + (seq![state] + rest) =~= blank + seq![state] + rest);
    let t = seq![state] + rest;
    reveal_strlit("Z");
    reveal_strlit("X");
    assert("Z"@ =~= seq!['Z']);
    assert("X"@ =~= seq!['X']);
    assert(t.take(1) =~= seq![state]);
    assert(seq![state][0] == state && seq!['Z'][0] == 'Z' && seq!['X'][0] == 'X');
}

proof fn lemma_trim_start_blank(blank: Seq<char>, s: Seq<char>)
    requires
        is_blank(blank),
        s.len() > 0 && !is_whitespace(s[0]),
    ensures
        trim_start(blank + s) == s,
    decreases blank.len(),
{
    let t = blank + s;
    if blank.len() > 0 {
        assert(t[0] == blank[0]);
        assert(t.skip(1) =~= blank.skip(1) + s);
        assert forall|i: int| 0 <= i < blank.skip(1).len() implies is_whitespace(
            #[trigger] blank.skip(1)[i],
        ) by {
            assert(blank.skip(1)[i] == blank[i + 1]);
        }
        lemma_trim_start_blank(blank.skip(1), s);
    } else {
        assert(t =~= s);
        assert(t[0] == s[0]);
    }
}

/// Each counter is set by the line of its own name alone, in kibibytes, and the last such line
/// counts; every other line leaves all of them.
pub proof fn law_memory_lines(
    lines: Seq<Seq<char>>,
    key: Seq<char>,
    c: char,
    word: Seq<char>,
    rest: Seq<char>,
    kb: nat,
)
    requires
        !key.contains(':'),
        is_whitespace(c),
        is_word(word),
        unsigned(word, u64::MAX as nat) == Some(kb),
    ensures
        ({
            let m = memory_lines(lines);
            let n = memory_lines(
                lines.push(key + seq![':'] + (seq![c] + word + seq![c] + rest)),
            );
            &&& n.rss_bytes == (if key == "VmRSS"@ {
                saturated_kib(kb)
            } else {
                m.rss_bytes
            })
            &&& n.vm_peak_bytes == (if key == "VmPeak"@ {
                saturated_kib(kb)
            } else {
                m.vm_peak_bytes
            })
            &&& n.vm_size_bytes == (if key == "VmSize"@ {
                saturated_kib(kb)
            } else {
                m.vm_size_bytes
            })
            &&& n.vm_swap_bytes == (if key == "VmSwap"@ {
                saturated_kib(kb)
            } else {
                m.vm_swap_bytes
            })
        }),
        memory_lines(lines.push(key)) == memory_lines(lines),
        kb * 1024 <= u64::MAX ==> saturated_kib(kb) == kb * 1024,
        kb * 1024 > u64::MAX ==> saturated_kib(kb) == u64::MAX,
        memory_lines(Seq::empty()) == no_memory(),
{
    let tail = seq![c] + word + seq![c] + rest;
    let line = key + seq![':'] + tail;
    crate::text::law_split_at_first(key, ':', tail);
    crate::split::law_words_parts(Seq::empty(), c, word);
    crate::split::law_words_parts(word, c, rest);
    crate::split::law_words_parts(Seq::<char>::empty() + seq![c] + word, c, rest);
    assert(Seq::<char>::empty() + seq![c] + word + seq![c] + rest =~= tail);
    assert(words_of(Seq::<char>::empty()).len() == 0);
    assert(words_of(tail)[0] == word);
    assert(lines.push(line).drop_last() =~= lines);
    assert(lines.push(key).drop_last() =~= lines);
    reveal_strlit("VmRSS");
    reveal_strlit("VmPeak");
    reveal_strlit("VmSize");
    reveal_strlit("VmSwap");
    assert("VmRSS"@.len() == 5 && "VmPeak"@.len() == 6 && "VmSize"@.len() == 6 && "VmSwap"@.len()
        == 6);
    assert("VmPeak"@[2] == 'P' && "VmSize"@[2] == 'S' && "VmSwap"@[2] == 'S');
    assert("VmSize"@[3] == 'i' && "VmSwap"@[3] == 'w');
}

}
