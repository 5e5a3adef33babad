//! Text extraction by other programs: which program is run, with which arguments, and what
//! its end means.
use crate::decimal::push_decimal;
use crate::decode::lossy_text;
use vstd::prelude::*;
use vstd::string::*;

verus! {

use crate::decimal::decimal;
use crate::decode::lossy;
use crate::text::{ends_with, occurs, occurs_at, starts_with, views};

/// Runs a program and gives what it printed, or says why there is nothing.
pub trait CommandRunner {
    fn run(&self, cmd: &str, args: &Vec<String>, input: Option<Vec<u8>>) -> (r: Result<
        String,
        String,
    >);
}

/// A length of time: whole seconds, and nanoseconds of less than a second.
#[derive(Debug, Clone, Copy, PartialEq, Eq, Structural)]
pub struct TimeLimit {
    pub secs: u64,
    pub nanos: u32,
}

/// So many whole seconds.
pub open spec fn whole_secs(secs: u64) -> TimeLimit {
    TimeLimit { secs, nanos: 0 }
}

impl TimeLimit {
    /// So many whole seconds.
    pub fn from_secs(secs: u64) -> (r: Self)
        ensures
            r == whole_secs(secs),
    {
        TimeLimit { secs, nanos: 0 }
    }

    /// Whether it is no time at all.
    pub fn is_zero(&self) -> (r: bool)
        ensures
            r == (*self == whole_secs(0)),
    {
        self.secs == 0 && self.nanos == 0
    }
}

/// How long a program may run; zero for as long as it likes.
#[derive(Debug, Clone, Copy, PartialEq, Eq, Structural)]
pub struct SystemRunner {
    pub timeout: TimeLimit,
}

impl Default for SystemRunner {
    fn default() -> (r: Self)
        ensures
            r.timeout == whole_secs(15),
    {
        SystemRunner::new(15)
    }
}

/// How a program ended.
pub enum RunEnd {
    /// It was killed when its time was up.
    TimedOut,
    /// It ended by itself; what it wrote to its standard output and error.
    Exited { success: bool, stdout: Vec<u8>, stderr: Vec<u8> },
}

/// The message for a program whose time was up.
pub open spec fn timeout_message(cmd: Seq<char>, secs: u64) -> Seq<char> {
    "extractor '"@ + cmd + "' timed out after "@ + decimal(secs as nat) + "s"@
}

/// The message for a program that failed.
pub open spec fn failure_message(cmd: Seq<char>, stderr: Seq<u8>) -> Seq<char> {
    cmd + " failed: "@ + lossy(stderr)
}

/// What the run of a program comes to: what it wrote where it succeeded, else a message.
pub open spec fn run_result(cmd: Seq<char>, timeout: TimeLimit, end: RunEnd) -> Result<
    Seq<char>,
    Seq<char>,
> {
    match end {
        RunEnd::TimedOut => Err(timeout_message(cmd, timeout.secs)),
        RunEnd::Exited { success, stdout, stderr } => if success {
            Ok(lossy(stdout@))
        } else {
            Err(failure_message(cmd, stderr@))
        },
    }
}

/// What a text or a message holds.
pub open spec fn run_view(r: Result<String, String>) -> Result<Seq<char>, Seq<char>> {
    match r {
        Ok(s) => Ok(s@),
        Err(m) => Err(m@),
    }
}

impl SystemRunner {
    /// A runner with a time limit of so many seconds.
    pub fn new(timeout_secs: u64) -> (r: Self)
        ensures
            r.timeout == whole_secs(timeout_secs),
    {
        SystemRunner { timeout: TimeLimit::from_secs(timeout_secs) }
    }

    /// Whether a program is killed at all.
    pub fn limits_time(&self) -> (r: bool)
        ensures
            r == (self.timeout != whole_secs(0)),
    {
        !self.timeout.is_zero()
    }

    /// What a program's end gives: its output where it succeeded, else a message.
    pub fn outcome(&self, cmd: &str, end: &RunEnd) -> (r: Result<String, String>)
        ensures
            run_view(r) == run_result(cmd@, self.timeout, *end),
    {
        match end {
            RunEnd::TimedOut => {
                let mut m = String::new();
                m.append("extractor '");
                m.append(cmd);
                m.append("' timed out after ");
                push_decimal(&mut m, self.timeout.secs);
                m.append("s");
                assert(m@ =~= timeout_message(cmd@, self.timeout.secs));
                Err(m)
            },
            RunEnd::Exited { success, stdout, stderr } => {
                if *success {
                    Ok(lossy_text(stdout.as_slice()))
                } else {
                    let mut m = String::new();
                    m.append(cmd);
                    m.append(" failed: ");
                    m.append(lossy_text(stderr.as_slice()).as_str());
                    assert(m@ =~= failure_message(cmd@, stderr@));
                    Err(m)
                }
            },
        }
    }
}

/// The name of the temporary file that a document is put in for a program to read.
pub open spec fn temp_file(pid: u32, ext: Seq<char>) -> Seq<char> {
    "lupa-shell-"@ + decimal(pid as nat) + "."@ + ext
}

/// The name of the temporary file that a document is put in for a program to read.
pub fn temp_name(pid: u32, ext: &str) -> (r: String)
    ensures
        r@ == temp_file(pid, ext@),
{
    let mut s = String::new();
    s.append("lupa-shell-");
    push_decimal(&mut s, pid as u64);
    s.append(".");
    s.append(ext);
    assert(s@ =~= temp_file(pid, ext@));
    s
}

/// The list with these two strings, then `last`.
fn args3(a: &str, b: &str, last: &str) -> (r: Vec<String>)
    ensures
        views(r@) == seq![a@, b@, last@],
{
    let mut v: Vec<String> = Vec::new();
    v.push(a.to_owned());
    v.push(b.to_owned());
    v.push(last.to_owned());
    assert(views(v@) =~= seq![a@, b@, last@]);
    v
}

/// Extracts the text of the Word document in the file `tmp`.
pub fn extract_doc<R: CommandRunner>(tmp: &str, runner: &R) -> (r: Result<String, String>)
    ensures
        exists|args: Vec<String>|
            views(args@) == seq!["-m"@, "UTF-8"@, tmp@] && #[trigger] call_ensures(
                R::run,
                (runner, "antiword", &args, None),
                r,
            ),
{
    let args = args3("-m", "UTF-8", tmp);
    runner.run("antiword", &args, None)
}

/// Extracts the text of the Excel sheet in the file `tmp`.
pub fn extract_xls<R: CommandRunner>(tmp: &str, runner: &R) -> (r: Result<String, String>)
    ensures
        exists|args: Vec<String>|
            views(args@) == seq![tmp@] && #[trigger] call_ensures(
                R::run,
                (runner, "catdoc", &args, None),
                r,
            ),
{
    let mut args: Vec<String> = Vec::new();
    args.push(tmp.to_owned());
    assert(views(args@) =~= seq![tmp@]);
    runner.run("catdoc", &args, None)
}

/// Extracts the text of the PowerPoint slides in the file `tmp`.
pub fn extract_ppt<R: CommandRunner>(tmp: &str, runner: &R) -> (r: Result<String, String>)
    ensures
        exists|args: Vec<String>|
            views(args@) == seq!["--headless"@, "--cat"@, tmp@] && #[trigger] call_ensures(
                R::run,
                (runner, "libreoffice", &args, None),
                r,
            ),
{
    let args = args3("--headless", "--cat", tmp);
    runner.run("libreoffice", &args, None)
}

/// Extracts the text of the PDF document in the file `tmp`.
pub fn extract_pdf<R: CommandRunner>(tmp: &str, runner: &R) -> (r: Result<String, String>)
    ensures
        exists|args: Vec<String>|
            views(args@) == seq!["-layout"@, "-enc"@, "UTF-8"@, tmp@, "-"@]
                && #[trigger] call_ensures(R::run, (runner, "pdftotext", &args, None), r),
{
    let mut args = args3("-layout", "-enc", "UTF-8");
    let ghost first = args@;
    assert(views(first).len() == 3);
    assert(forall|i: int| 0 <= i < 3 ==> views(first)[i] == first[i]@);
    assert(views(first)[0] == "-layout"@ && views(first)[1] == "-enc"@ && views(first)[2]
        == "UTF-8"@);
    args.push(tmp.to_owned());
    args.push("-".to_owned());
    assert(views(args@) =~= seq!["-layout"@, "-enc"@, "UTF-8"@, tmp@, "-"@]);
    runner.run("pdftotext", &args, None)
}

// --- Laws ---

/// A program's output is its result exactly if it ended by itself and succeeded, whatever it
/// wrote besides; its message names the program, and how long it was allowed to run.
pub proof fn law_runs(
    cmd: Seq<char>,
    timeout: TimeLimit,
    success: bool,
    stdout: Vec<u8>,
    stderr: Vec<u8>,
)
    ensures
        ({
            let r = run_result(cmd, timeout, RunEnd::Exited { success, stdout, stderr });
            &&& r is Ok <==> success
            &&& r matches Ok(s) ==> s == lossy(stdout@)
            &&& r matches Err(m) ==> starts_with(m, cmd) && ends_with(m, lossy(stderr@))
        }),
        run_result(cmd, timeout, RunEnd::TimedOut) matches Err(m) && occurs(
            m,
            cmd + "' timed out after "@ + decimal(timeout.secs as nat) + "s"@,
        ),
{
    let e = lossy(stderr@);
    let m = failure_message(cmd, stderr@);
    assert(m.take(cmd.len() as int) =~= cmd);
    assert(m.skip(m.len() - e.len()) =~= e);
    let h = "extractor '"@;
    let t = timeout_message(cmd, timeout.secs);
    let p = cmd + "' timed out after "@ + decimal(timeout.secs as nat) + "s"@;
    assert(t =~= h + p);
    assert(t.subrange(h.len() as int, (h.len() + p.len()) as int) =~= p);
    assert(occurs_at(t, p, h.len() as int));
}

/// Copies for programs never share a name between two processes, and keep the extension.
pub proof fn law_temp_files(pid: u32, other: u32, ext: Seq<char>)
    ensures
        temp_file(pid, ext) == temp_file(other, ext) <==> pid == other,
        ends_with(temp_file(pid, ext), "."@ + ext),
{
    let h = "lupa-shell-"@;
    let e = "."@ + ext;
    let x = decimal(pid as nat);
    let y = decimal(other as nat);
    crate::decimal::lemma_decimal_round_trip(pid as nat);
    crate::decimal::lemma_decimal_round_trip(other as nat);
    let a = temp_file(pid, ext);
    let b = temp_file(other, ext);
    assert(a =~= h + x + e);
    assert(b =~= h + y + e);
    if a == b {
        assert(a.subrange(h.len() as int, a.len() - e.len()) =~= x);
        assert(b.subrange(h.len() as int, b.len() - e.len()) =~= y);
    }
    crate::text::law_parts_of_a_text(h + x, e, Seq::empty());
}

}
