//! What is done with a hit: the programs to run, the text to copy.
use crate::model::{Action, Hit};
use crate::paths::parent;
use crate::split::split_whitespace;
use crate::text::clone_opt;
use vstd::prelude::*;
use vstd::string::*;

verus! {

use crate::model::{ActionView, HitView};
use crate::paths::{components_of, parent_of, spans};
use crate::split::{is_word, joined, words_of};
use crate::text::{opt_view, views};

/// What has to be done for a hit.
pub enum ActionPlan {
    /// Nothing.
    Nothing,
    /// Run a program, in the given directory where there is one.
    Run { program: String, args: Vec<String>, dir: Option<String> },
    /// Ask the file manager to show the file; where that fails, open the directory that it is
    /// in, where there is one.
    ShowFile { path: String, fallback: Option<String> },
    /// Take an attachment out of a mailbox and open it.
    OpenAttachment {
        mbox_path: String,
        byte_offset: u64,
        length: u64,
        encoding: String,
        suggested_filename: String,
    },
    /// Put a text in place of the query.
    ReplaceQuery { q: String },
}

/// What a plan holds.
pub enum PlanView {
    Nothing,
    Run { program: Seq<char>, args: Seq<Seq<char>>, dir: Option<Seq<char>> },
    ShowFile { path: Seq<char>, fallback: Option<Seq<char>> },
    OpenAttachment {
        mbox_path: Seq<char>,
        byte_offset: u64,
        length: u64,
        encoding: Seq<char>,
        suggested_filename: Seq<char>,
    },
    ReplaceQuery { q: Seq<char> },
}

impl View for ActionPlan {
    type V = PlanView;

    open spec fn view(&self) -> PlanView {
        match self {
            ActionPlan::Nothing => PlanView::Nothing,
            ActionPlan::Run { program, args, dir } => PlanView::Run {
                program: program@,
                args: views(args@),
                dir: opt_view(*dir),
            },
            ActionPlan::ShowFile { path, fallback } => PlanView::ShowFile {
                path: path@,
                fallback: opt_view(*fallback),
            },
            ActionPlan::OpenAttachment {
                mbox_path,
                byte_offset,
                length,
                encoding,
                suggested_filename,
            } => PlanView::OpenAttachment {
                mbox_path: mbox_path@,
                byte_offset: *byte_offset,
                length: *length,
                encoding: encoding@,
                suggested_filename: suggested_filename@,
            },
            ActionPlan::ReplaceQuery { q } => PlanView::ReplaceQuery { q: q@ },
        }
    }
}

/// Opens a path with its default handler.
pub open spec fn open_plan(path: Seq<char>) -> PlanView {
    PlanView::Run { program: "xdg-open"@, args: seq![path], dir: None }
}

/// Opens a message.
pub open spec fn mail_plan(message_id: Seq<char>) -> PlanView {
    PlanView::Run { program: "thunderbird"@, args: seq!["-message"@, message_id], dir: None }
}

/// Shows a file in the file manager, or opens a directory.
pub open spec fn show_plan(path: Seq<char>, is_dir: bool) -> PlanView {
    if is_dir {
        open_plan(path)
    } else {
        PlanView::ShowFile { path, fallback: parent_of(path) }
    }
}

/// Starts an application: its command cut into words, in a terminal where it wants one.
pub open spec fn launch_plan(
    command: Seq<char>,
    terminal: bool,
    working_dir: Option<Seq<char>>,
) -> PlanView {
    let words = words_of(command);
    if terminal {
        PlanView::Run { program: "alacritty"@, args: seq!["-e"@] + words, dir: None }
    } else if words.len() == 0 {
        PlanView::Nothing
    } else {
        PlanView::Run { program: words[0], args: words.skip(1), dir: working_dir }
    }
}

/// What has to be done for an action. `is_dir` says whether there is a directory at the path
/// of the action, where it has one.
pub open spec fn primary_plan(a: ActionView, is_dir: bool) -> PlanView {
    match a {
        ActionView::Launch { command, terminal, working_dir } => launch_plan(
            command,
            terminal,
            working_dir,
        ),
        ActionView::OpenFile { path } => open_plan(path),
        ActionView::ShowInFileManager { path } => show_plan(path, is_dir),
        ActionView::OpenMail { message_id } => mail_plan(message_id),
        ActionView::OpenParentMail { message_id } => mail_plan(message_id),
        ActionView::OpenAttachment {
            mbox_path,
            byte_offset,
            length,
            mime,
            encoding,
            suggested_filename,
        } => PlanView::OpenAttachment {
            mbox_path,
            byte_offset,
            length,
            encoding,
            suggested_filename,
        },
        ActionView::ReplaceQuery { q } => PlanView::ReplaceQuery { q },
    }
}

/// What has to be done for an action when its second meaning is asked for.
pub open spec fn secondary_plan(a: ActionView, is_dir: bool) -> PlanView {
    match a {
        ActionView::ShowInFileManager { path } => show_plan(path, is_dir),
        ActionView::OpenParentMail { message_id } => mail_plan(message_id),
        _ => PlanView::Nothing,
    }
}

/// A program with one argument.
fn run_one(program: &str, arg: &str) -> (r: ActionPlan)
    ensures
        r@ == (PlanView::Run { program: program@, args: seq![arg@], dir: None }),
{
    let mut args: Vec<String> = Vec::new();
    args.push(arg.to_owned());
    assert(views(args@) =~= seq![arg@]);
    ActionPlan::Run { program: program.to_owned(), args, dir: None }
}

/// Opens a message.
fn run_mail(message_id: &str) -> (r: ActionPlan)
    ensures
        r@ == mail_plan(message_id@),
{
    let mut args: Vec<String> = Vec::new();
    args.push("-message".to_owned());
    args.push(message_id.to_owned());
    assert(views(args@) =~= seq!["-message"@, message_id@]);
    ActionPlan::Run { program: "thunderbird".to_owned(), args, dir: None }
}

/// Shows a file in the file manager, or opens a directory.
fn run_show(path: &str, is_dir: bool) -> (r: ActionPlan)
    ensures
        r@ == show_plan(path@, is_dir),
{
    if is_dir {
        run_one("xdg-open", path)
    } else {
        ActionPlan::ShowFile { path: path.to_owned(), fallback: parent(path) }
    }
}

/// Starts an application.
fn run_launch(command: &str, terminal: bool, working_dir: &Option<String>) -> (r: ActionPlan)
    ensures
        r@ == launch_plan(command@, terminal, opt_view(*working_dir)),
{
    let words = split_whitespace(command);
    let ghost all = words_of(command@);
    if terminal {
        let mut args: Vec<String> = Vec::new();
        args.push("-e".to_owned());
        assert(views(args@) =~= seq!["-e"@]);
        crate::text::append_strings(&mut args, words);
        return ActionPlan::Run { program: "alacritty".to_owned(), args, dir: None };
    }
    if words.len() == 0 {
        return ActionPlan::Nothing;
    }
    let mut rest: Vec<String> = Vec::new();
    let mut i: usize = 1;
    while i < words.len()
        invariant
            1 <= i <= words@.len(),
            views(words@) == all,
            views(rest@) =~= all.subrange(1, i as int),
        decreases words.len() - i,
    {
        let ghost before = rest@;
        rest.push(words[i].clone());
        proof {
            crate::text::lemma_views_push(before, rest@.last());
            assert(words@[i as int]@ == all[i as int]);
        }
        i = i + 1;
    }
    assert(views(rest@) =~= all.skip(1));
    assert(words@[0]@ == all[0]);
    ActionPlan::Run { program: words[0].clone(), args: rest, dir: clone_opt(working_dir) }
}

/// What has to be done for an action. `is_dir` says whether there is a directory at the path
/// of the action, where it has one.
pub fn execute_action(action: &Action, is_dir: bool) -> (r: ActionPlan)
    ensures
        r@ == primary_plan(action@, is_dir),
{
    match action {
        Action::Launch { command, terminal, working_dir } => run_launch(
            command.as_str(),
            *terminal,
            working_dir,
        ),
        Action::OpenFile { path } => run_one("xdg-open", path.as_str()),
        Action::ShowInFileManager { path } => run_show(path.as_str(), is_dir),
        Action::OpenMail { message_id } => run_mail(message_id.as_str()),
        Action::OpenParentMail { message_id } => run_mail(message_id.as_str()),
        Action::OpenAttachment {
            mbox_path,
            byte_offset,
            length,
            mime: _,
            encoding,
            suggested_filename,
        } => ActionPlan::OpenAttachment {
            mbox_path: mbox_path.clone(),
            byte_offset: *byte_offset,
            length: *length,
            encoding: encoding.clone(),
            suggested_filename: suggested_filename.clone(),
        },
        Action::ReplaceQuery { q } => ActionPlan::ReplaceQuery { q: q.clone() },
    }
}

/// What has to be done for an action when its second meaning is asked for.
pub fn execute_secondary_action(action: &Action, is_dir: bool) -> (r: ActionPlan)
    ensures
        r@ == secondary_plan(action@, is_dir),
{
    match action {
        Action::ShowInFileManager { path } => run_show(path.as_str(), is_dir),
        Action::OpenParentMail { message_id } => run_mail(message_id.as_str()),
        _ => ActionPlan::Nothing,
    }
}

/// What opens a directory in place of showing a file in it.
pub fn fallback_plan(dir: &str) -> (r: ActionPlan)
    ensures
        r@ == open_plan(dir@),
{
    run_one("xdg-open", dir)
}

/// The text that is copied for a hit: its path, the identifier of its message, or its title.
pub open spec fn clipboard_of<S>(h: HitView<S>) -> Seq<char> {
    match h.action {
        ActionView::OpenFile { path } => path,
        ActionView::ShowInFileManager { path } => path,
        ActionView::OpenMail { message_id } => message_id,
        ActionView::OpenParentMail { message_id } => message_id,
        _ => h.title,
    }
}

/// The text that is copied for a hit.
pub fn copy_to_clipboard<S>(hit: &Hit<S>) -> (r: String)
    ensures
        r@ == clipboard_of(hit@),
{
    match &hit.action {
        Action::OpenFile { path } => path.clone(),
        Action::ShowInFileManager { path } => path.clone(),
        Action::OpenMail { message_id } => message_id.clone(),
        Action::OpenParentMail { message_id } => message_id.clone(),
        _ => hit.title.clone(),
    }
}

/// The path of the file that a hit is, where it is one.
pub open spec fn file_of<S>(h: HitView<S>) -> Option<Seq<char>> {
    match h.action {
        ActionView::OpenFile { path } => Some(path),
        ActionView::ShowInFileManager { path } => Some(path),
        _ => None,
    }
}

/// The file that a hit stands for, where it stands for one.
pub fn hit_file_path<S>(hit: &Hit<S>) -> (r: Option<String>)
    ensures
        opt_view(r) == file_of(hit@),
{
    match &hit.action {
        Action::OpenFile { path } => Some(path.clone()),
        Action::ShowInFileManager { path } => Some(path.clone()),
        _ => None,
    }
}

// --- Laws ---

/// Opening a file, whatever its path holds, runs the desktop's opener with that path, whole, as
/// its only argument.
pub proof fn law_open_file(path: Seq<char>, is_dir: bool)
    ensures
        ({
            &&& primary_plan(ActionView::OpenFile { path }, is_dir) matches PlanView::Run {
                program,
                args,
                dir,
            }
            &&& program == "xdg-open"@
            &&& args.len() == 1
            &&& args[0] == path
            &&& dir is None
        }),
{
}

/// Showing a file in the file manager names that file, and goes back to its directory; a
/// directory is opened. The two ways of opening a hit do the same.
pub proof fn law_show_file(path: Seq<char>, is_dir: bool)
    ensures
        ({
            let a = ActionView::ShowInFileManager { path };
            &&& secondary_plan(a, is_dir) == primary_plan(a, is_dir)
            &&& is_dir ==> primary_plan(a, is_dir) == primary_plan(
                ActionView::OpenFile { path },
                is_dir,
            )
            &&& !is_dir ==> {
                &&& primary_plan(a, is_dir) matches PlanView::ShowFile { path: p, fallback }
                &&& p == path
                &&& fallback is Some <==> spans(path, 0).len() > 0
                &&& fallback matches Some(d) ==> components_of(d) == components_of(path).drop_last()
            }
        }),
{
    crate::paths::law_parent_components(path);
}

/// Mail is opened by the mail program, with the message's identifier, whole, as its last
/// argument; the mail that an attachment came with in the same way, by either way of opening.
pub proof fn law_open_mail(message_id: Seq<char>, is_dir: bool)
    ensures
        ({
            let p = primary_plan(ActionView::OpenMail { message_id }, is_dir);
            let a = ActionView::OpenParentMail { message_id };
            &&& primary_plan(a, is_dir) == p && secondary_plan(a, is_dir) == p
            &&& p matches PlanView::Run { program, args, dir }
            &&& program == "thunderbird"@
            &&& args.len() == 2
            &&& args[0] == "-message"@
            &&& args[1] == message_id
            &&& dir is None
        }),
{
}

/// Launching an application runs the words of its command, all of them and in their order, in
/// its directory, or hands them to the terminal; blank commands run nothing.
pub proof fn law_launch(
    words: Seq<Seq<char>>,
    terminal: bool,
    working_dir: Option<Seq<char>>,
    is_dir: bool,
)
    requires
        forall|i: int| 0 <= i < words.len() ==> is_word(#[trigger] words[i]),
    ensures
        ({
            let command = joined(words, " "@);
            let p = primary_plan(ActionView::Launch { command, terminal, working_dir }, is_dir);
            &&& terminal ==> (p matches PlanView::Run { program, args, dir } && program
                == "alacritty"@ && dir is None && args == seq!["-e"@] + words)
            &&& !terminal && words.len() == 0 ==> p is Nothing
            &&& !terminal && words.len() > 0 ==> (p matches PlanView::Run { program, args, dir }
                && dir == working_dir && seq![program] + args == words)
        }),
{
    crate::split::law_words_joined(words);
    if words.len() > 0 {
        assert(seq![words[0]] + words.skip(1) =~= words);
    }
}

/// An attachment is opened from where it lies, and an earlier search takes the place of the
/// query, each as it was stored; neither has a second way of being opened, nor has a file, a
/// mail or an application.
pub proof fn law_other_actions(a: ActionView, is_dir: bool)
    ensures
        a matches ActionView::OpenAttachment {
            mbox_path,
            byte_offset,
            length,
            mime,
            encoding,
            suggested_filename,
        } ==> (primary_plan(a, is_dir) matches PlanView::OpenAttachment {
            mbox_path: m,
            byte_offset: o,
            length: l,
            encoding: e,
            suggested_filename: f,
        } && m == mbox_path && o == byte_offset && l == length && e == encoding && f
            == suggested_filename),
        a matches ActionView::ReplaceQuery { q } ==> (primary_plan(
            a,
            is_dir,
        ) matches PlanView::ReplaceQuery { q: t } && t == q),
        !(a is ShowInFileManager) && !(a is OpenParentMail) <==> secondary_plan(a, is_dir)
            is Nothing,
        (a is ReplaceQuery) <==> primary_plan(a, is_dir) is ReplaceQuery,
        (a is OpenAttachment) <==> primary_plan(a, is_dir) is OpenAttachment,
{
}

/// What a hit is copied as is the path that it opens or shows, the message that it opens, or
/// its title.
pub proof fn law_clipboard<S>(h: HitView<S>, s: Seq<char>)
    ensures
        h.action == (ActionView::OpenFile { path: s }) ==> clipboard_of(h) == s,
        h.action == (ActionView::ShowInFileManager { path: s }) ==> clipboard_of(h) == s,
        h.action == (ActionView::OpenMail { message_id: s }) ==> clipboard_of(h) == s,
        h.action == (ActionView::OpenParentMail { message_id: s }) ==> clipboard_of(h) == s,
        h.action is Launch || h.action is OpenAttachment || h.action is ReplaceQuery
            ==> clipboard_of(h) == h.title,
{
}

/// A hit is a file exactly if opening or showing it names a path, and it is that path.
pub proof fn law_file_of<S>(h: HitView<S>, s: Seq<char>)
    ensures
        file_of(h) is Some <==> h.action is OpenFile || h.action is ShowInFileManager,
        h.action == (ActionView::OpenFile { path: s }) ==> file_of(h) == Some(s),
        h.action == (ActionView::ShowInFileManager { path: s }) ==> file_of(h) == Some(s),
        file_of(h) matches Some(p) ==> clipboard_of(h) == p,
{
}

}
