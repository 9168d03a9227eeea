//! Deciding what a command does. The effects themselves (printing, changing
//! directory, running a program, ending the process) are left to the caller,
//! which performs the `Action` handed back.
use vstd::prelude::*;

use crate::command::{Command, CommandView};
use crate::parse::{
    parse_cd, parse_echo, parse_exit, parse_input, parse_pwd, parse_spec, parse_type,
};
use crate::search::{bin_path, get_bin_path, search_view, SearchDir};
use crate::token::{views, chars_of};

verus! {

/// What the caller is to do for one line of input.
#[derive(Clone, Debug, PartialEq, Eq)]
pub enum Action {
    /// End the process with this status.
    Exit(i32),
    /// Print this line.
    Print(String),
    /// Run the program at this path with these arguments, wait for it, and
    /// disregard how it ended. The path is the one listed for the program on
    /// the search path; the caller canonicalizes it before running it.
    Spawn(String, Vec<String>),
    /// Print the working directory, or `PWD_FAILED` where it cannot be had.
    ShowCwd,
    /// Print `location_line` of this name and of this path. The path is the
    /// one listed on the search path; the caller canonicalizes it first.
    Locate(String, String),
    /// Ask whether this path is a directory and go on with `enter_dir`.
    EnterDir(String),
    /// Make this path the working directory; print `CHDIR_FAILED` where that fails.
    ChangeDir(String),
}

pub enum ActionView {
    Exit(i32),
    Print(Seq<char>),
    Spawn(Seq<char>, Seq<Seq<char>>),
    ShowCwd,
    Locate(Seq<char>, Seq<char>),
    EnterDir(Seq<char>),
    ChangeDir(Seq<char>),
}

impl View for Action {
    type V = ActionView;

    open spec fn view(&self) -> ActionView {
        match self {
            Action::Exit(n) => ActionView::Exit(*n),
            Action::Print(s) => ActionView::Print(s@),
            Action::Spawn(p, args) => ActionView::Spawn(p@, views(args@)),
            Action::ShowCwd => ActionView::ShowCwd,
            Action::Locate(n, p) => ActionView::Locate(n@, p@),
            Action::EnterDir(p) => ActionView::EnterDir(p@),
            Action::ChangeDir(p) => ActionView::ChangeDir(p@),
        }
    }
}

/// Printed where the working directory cannot be had.
pub const PWD_FAILED: &'static str = "error: could not get PWD";

/// Printed where changing to a directory fails.
pub const CHDIR_FAILED: &'static str = "Could not chdir";

/// The words joined by single spaces.
pub open spec fn join_words(ws: Seq<Seq<char>>) -> Seq<char>
    decreases ws.len(),
{
    if ws.len() == 0 {
        Seq::empty()
    } else if ws.len() == 1 {
        ws[0]
    } else {
        join_words(ws.drop_last()) + " "@ + ws.last()
    }
}

pub open spec fn is_builtin_name(name: Seq<char>) -> bool {
    name == "exit"@ || name == "echo"@ || name == "type"@ || name == "pwd"@ || name == "cd"@
}

pub open spec fn type_spec(name: Seq<char>, search: Option<Seq<SearchDir>>) -> ActionView {
    if is_builtin_name(name) {
        ActionView::Print(name + " is a shell builtin"@)
    } else {
        match bin_path(name, search) {
            Ok(p) => ActionView::Locate(name, p),
            Err(m) => ActionView::Print(m),
        }
    }
}

pub open spec fn no_home_text() -> Seq<char> {
    "cd: could not find the home directory"@
}

pub open spec fn cd_spec(target: Seq<char>, home: Option<Seq<char>>) -> ActionView {
    if target == "~"@ {
        match home {
            Some(h) => ActionView::EnterDir(h),
            None => ActionView::Print(no_home_text()),
        }
    } else {
        ActionView::EnterDir(target)
    }
}

pub open spec fn enter_spec(dest: Seq<char>, is_dir: bool) -> ActionView {
    if is_dir {
        ActionView::ChangeDir(dest)
    } else {
        ActionView::Print("cd: "@ + dest + ": No such file or directory"@)
    }
}

pub open spec fn dispatch_spec(
    c: CommandView,
    search: Option<Seq<SearchDir>>,
    home: Option<Seq<char>>,
) -> ActionView {
    match c {
        CommandView::Exit(n) => ActionView::Exit(n),
        CommandView::Echo(args) => ActionView::Print(join_words(args)),
        CommandView::Type(name) => type_spec(name, search),
        CommandView::Bin(p, args) => ActionView::Spawn(p, args),
        CommandView::Pwd => ActionView::ShowCwd,
        CommandView::Cd(target) => cd_spec(target, home),
    }
}

/// What one line of input does.
pub open spec fn run_spec(
    t: Seq<char>,
    search: Option<Seq<SearchDir>>,
    home: Option<Seq<char>>,
) -> ActionView {
    match parse_spec(t, search) {
        Some(c) => dispatch_spec(c, search, home),
        None => ActionView::Print(t + ": command not found"@),
    }
}

/// The characters of an optional string.
pub open spec fn text_view(o: Option<String>) -> Option<Seq<char>> {
    match o {
        Some(h) => Some(h@),
        None => None,
    }
}

/// The words joined by single spaces.
pub fn echo_line(args: &Vec<String>) -> (r: String)
    ensures
        r@ == join_words(views(args@)),
{
    let mut out = String::new();
    let mut i: usize = 0;
    while i < args.len()
        invariant
            i <= args.len(),
            out@ == join_words(views(args@).take(i as int)),
        decreases args.len() - i,
    {
        proof {
            let ws = views(args@).take(i + 1);
            assert(ws.drop_last() =~= views(args@).take(i as int));
        }
        if i > 0 {
            out.append(" ");
        }
        out.append(args[i].as_str());
        proof {
            let ws = views(args@).take(i + 1);
            if i == 0 {
                assert(out@ =~= ws[0]);
            }
        }
        i = i + 1;
    }
    assert(views(args@).take(args.len() as int) =~= views(args@));
    out
}

fn same_text(a: &str, b: &str) -> (r: bool)
    ensures
        r == (a@ == b@),
{
    let ac = chars_of(a);
    let bc = chars_of(b);
    if ac.len() != bc.len() {
        return false;
    }
    let mut i: usize = 0;
    while i < ac.len()
        invariant
            ac@ == a@,
            bc@ == b@,
            ac.len() == bc.len(),
            i <= ac.len(),
            forall|k: int| 0 <= k < i ==> ac@[k] == bc@[k],
        decreases ac.len() - i,
    {
        if ac[i] != bc[i] {
            return false;
        }
        i = i + 1;
    }
    assert(ac@ =~= bc@);
    true
}

/// Whether `name` is one of the commands that the shell carries out itself.
pub fn is_builtin(name: &str) -> (r: bool)
    ensures
        r == is_builtin_name(name@),
{
    same_text(name, "exit") || same_text(name, "echo") || same_text(name, "type")
        || same_text(name, "pwd") || same_text(name, "cd")
}

/// `type name`: a builtin, a program found on the search path, or the
/// resolver's message.
pub fn run_type(name: &str, search: &Option<Vec<SearchDir>>) -> (r: Action)
    ensures
        r@ == type_spec(name@, search_view(*search)),
{
    if is_builtin(name) {
        Action::Print(name.to_owned().concat(" is a shell builtin"))
    } else {
        match get_bin_path(name, search) {
            Ok(p) => Action::Locate(name.to_owned(), p),
            Err(m) => Action::Print(m),
        }
    }
}

/// `cd target`: `~` stands for the home directory, where it is known.
pub fn run_cd(target: &str, home: &Option<String>) -> (r: Action)
    ensures
        r@ == cd_spec(target@, text_view(*home)),
{
    if same_text(target, "~") {
        match home {
            Some(h) => Action::EnterDir(h.clone()),
            None => Action::Print(String::from_str("cd: could not find the home directory")),
        }
    } else {
        Action::EnterDir(target.to_owned())
    }
}

/// The second step of `cd`: change to `dest` where it is a directory, and
/// report it missing otherwise.
pub fn enter_dir(dest: &str, is_dir: bool) -> (r: Action)
    ensures
        r@ == enter_spec(dest@, is_dir),
{
    if is_dir {
        Action::ChangeDir(dest.to_owned())
    } else {
        Action::Print(String::from_str("cd: ").concat(dest).concat(": No such file or directory"))
    }
}

/// The line that `type` prints for a program found at `path`.
pub fn location_line(name: &str, path: &str) -> (r: String)
    ensures
        r@ == name@ + " is "@ + path@,
{
    name.to_owned().concat(" is ").concat(path)
}

/// The line that `pwd` prints, given the working directory where it could be had.
pub fn pwd_line(cwd: &Option<String>) -> (r: String)
    ensures
        r@ == match text_view(*cwd) {
            Some(p) => p,
            None => PWD_FAILED@,
        },
{
    match cwd {
        Some(p) => p.clone(),
        None => PWD_FAILED.to_owned(),
    }
}

/// What a parsed command does.
pub fn dispatch(cmd: Command, search: &Option<Vec<SearchDir>>, home: &Option<String>) -> (r: Action)
    ensures
        r@ == dispatch_spec(cmd@, search_view(*search), text_view(*home)),
{
    match cmd {
        Command::Exit(n) => Action::Exit(n),
        Command::Echo(args) => Action::Print(echo_line(&args)),
        Command::Type(name) => run_type(name.as_str(), search),
        Command::Bin(p, args) => Action::Spawn(p, args),
        Command::Pwd => Action::ShowCwd,
        Command::Cd(target) => run_cd(target.as_str(), home),
    }
}

/// What one line of input, already trimmed, does: the command it names, or
/// a report that it names none. `search` lists the directories of the search
/// path (`None` where it is unset); `home` is the home directory, where known.
pub fn run_command(input: &str, search: &Option<Vec<SearchDir>>, home: &Option<String>) -> (r: Action)
    ensures
        r@ == run_spec(input@, search_view(*search), text_view(*home)),
{
    match parse_input(input, search) {
        Ok(cmd) => dispatch(cmd, search, home),
        Err(_) => Action::Print(input.to_owned().concat(": command not found")),
    }
}

/// Whether what the line `input` does can depend on the search path. Where
/// it cannot, the caller need not list the search path's directories.
pub fn needs_search(input: &str) -> (r: bool)
    ensures
        !r ==> forall|s: Option<Seq<SearchDir>>, h: Option<Seq<char>>| #[trigger]
            run_spec(input@, s, h) == run_spec(input@, None, h),
{
    if parse_exit(input).is_ok() || parse_echo(input).is_ok() {
        return false;
    }
    let typed = parse_type(input);
    match &typed {
        Ok(Command::Type(name)) => {
            if is_builtin(name.as_str()) {
                return false;
            }
        },
        _ => {},
    }
    if typed.is_err() && (parse_cd(input).is_ok() || parse_pwd(input).is_ok()) {
        return false;
    }
    true
}

} // verus!
