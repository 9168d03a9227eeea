//! Turning a line of input into a `Command`.
use vstd::prelude::*;

use crate::command::{Command, CommandView, ParseError};
use crate::number::{all_number, is_number_text, leading_i32, leading_number};
use crate::search::{bin_path, get_bin_path, search_view, SearchDir};
use crate::token::{chars_of, parse_args, scan_word, tokenize, word_end};

verus! {

pub open spec fn starts_with(t: Seq<char>, p: Seq<char>) -> bool {
    p.len() <= t.len() && t.subrange(0, p.len() as int) == p
}

/// The first index at or after `i` that holds no space, or the length.
pub open spec fn space_end(s: Seq<char>, i: int) -> int
    decreases s.len() - i,
{
    if 0 <= i < s.len() && s[i] == ' ' {
        space_end(s, i + 1)
    } else {
        i
    }
}

/// What follows the keyword `k` at the start of `t` and the spaces after it.
pub open spec fn after_keyword(t: Seq<char>, k: Seq<char>) -> Seq<char> {
    t.subrange(space_end(t, k.len() as int), t.len() as int)
}

/// `exit`, spaces, and a status: all the rest of the line must be an
/// optionally signed decimal number that fits in an `i32`.
pub open spec fn exit_spec(t: Seq<char>) -> Option<CommandView> {
    let a = after_keyword(t, "exit "@);
    if starts_with(t, "exit "@) && all_number(a) {
        match leading_i32(a) {
            Some(v) => Some(CommandView::Exit(v)),
            None => None,
        }
    } else {
        None
    }
}

pub open spec fn echo_spec(t: Seq<char>) -> Option<CommandView> {
    if starts_with(t, "echo "@) {
        match tokenize(t.subrange("echo "@.len() as int, t.len() as int)) {
            Some(args) => Some(CommandView::Echo(args)),
            None => None,
        }
    } else {
        None
    }
}

pub open spec fn type_spec(t: Seq<char>) -> Option<CommandView> {
    if starts_with(t, "type "@) {
        Some(CommandView::Type(after_keyword(t, "type "@)))
    } else {
        None
    }
}

pub open spec fn cd_spec(t: Seq<char>) -> Option<CommandView> {
    if starts_with(t, "cd "@) {
        Some(CommandView::Cd(after_keyword(t, "cd "@)))
    } else {
        None
    }
}

pub open spec fn pwd_spec(t: Seq<char>) -> Option<CommandView> {
    if t == "pwd"@ {
        Some(CommandView::Pwd)
    } else {
        None
    }
}

/// A program name, then spaces and at least one argument; the name must
/// resolve on the search path.
pub open spec fn bin_spec(t: Seq<char>, search: Option<Seq<SearchDir>>) -> Option<CommandView> {
    let n = word_end(t, 0);
    if n == 0 {
        None
    } else {
        match tokenize(t.subrange(space_end(t, n), t.len() as int)) {
            None => None,
            Some(args) => match bin_path(t.subrange(0, n), search) {
                Ok(p) => Some(CommandView::Bin(p, args)),
                Err(_) => None,
            },
        }
    }
}

/// The command that line `t` names: the forms are tried in this order, and
/// the first that fits wins.
pub open spec fn parse_spec(t: Seq<char>, search: Option<Seq<SearchDir>>) -> Option<CommandView> {
    if exit_spec(t) is Some {
        exit_spec(t)
    } else if echo_spec(t) is Some {
        echo_spec(t)
    } else if type_spec(t) is Some {
        type_spec(t)
    } else if cd_spec(t) is Some {
        cd_spec(t)
    } else if pwd_spec(t) is Some {
        pwd_spec(t)
    } else {
        bin_spec(t, search)
    }
}

pub open spec fn outcome(r: Result<Command, ParseError>) -> Option<CommandView> {
    match r {
        Ok(c) => Some(c@),
        Err(_) => None,
    }
}

fn scan_spaces(cs: &Vec<char>, i: usize) -> (r: usize)
    requires
        i <= cs.len(),
    ensures
        r == space_end(cs@, i as int),
        i <= r <= cs.len(),
{
    let mut j: usize = i;
    while j < cs.len() && cs[j] == ' '
        invariant
            i <= j <= cs.len(),
            space_end(cs@, i as int) == space_end(cs@, j as int),
        decreases cs.len() - j,
    {
        j = j + 1;
    }
    j
}

fn has_prefix(cs: &Vec<char>, p: &str) -> (r: bool)
    ensures
        r == starts_with(cs@, p@),
{
    let pc = chars_of(p);
    if pc.len() > cs.len() {
        return false;
    }
    let mut i: usize = 0;
    while i < pc.len()
        invariant
            pc@ == p@,
            pc.len() <= cs.len(),
            i <= pc.len(),
            cs@.subrange(0, i as int) == pc@.subrange(0, i as int),
        decreases pc.len() - i,
    {
        if cs[i] != pc[i] {
            assert(cs@.subrange(0, pc.len() as int)[i as int] != pc@[i as int]);
            return false;
        }
        assert(cs@.subrange(0, i + 1) =~= cs@.subrange(0, i as int).push(cs@[i as int]));
        assert(pc@.subrange(0, i + 1) =~= pc@.subrange(0, i as int).push(pc@[i as int]));
        i = i + 1;
    }
    assert(pc@.subrange(0, pc.len() as int) =~= pc@);
    true
}

/// The text after keyword `k` and the spaces that follow it.
fn rest_after<'a>(input: &'a str, cs: &Vec<char>, k: &str) -> (r: &'a str)
    requires
        cs@ == input@,
        starts_with(input@, k@),
    ensures
        r@ == after_keyword(input@, k@),
{
    let kc = chars_of(k);
    let start = scan_spaces(cs, kc.len());
    input.substring_char(start, cs.len())
}

/// `exit`, spaces, and a status that is all of the rest of the line and fits
/// in an `i32`.
pub fn parse_exit(input: &str) -> (r: Result<Command, ParseError>)
    ensures
        outcome(r) == exit_spec(input@),
{
    let cs = chars_of(input);
    if !has_prefix(&cs, "exit ") {
        return Err(ParseError);
    }
    let status = rest_after(input, &cs, "exit ");
    if !is_number_text(status) {
        return Err(ParseError);
    }
    match leading_number(status) {
        Some(v) => Ok(Command::Exit(v)),
        None => Err(ParseError),
    }
}

/// `echo` and its words.
pub fn parse_echo(input: &str) -> (r: Result<Command, ParseError>)
    ensures
        outcome(r) == echo_spec(input@),
{
    let cs = chars_of(input);
    if !has_prefix(&cs, "echo ") {
        return Err(ParseError);
    }
    let k = chars_of("echo ").len();
    match parse_args(input.substring_char(k, cs.len())) {
        Ok(args) => Ok(Command::Echo(args)),
        Err(e) => Err(e),
    }
}

/// `type`, spaces, and the rest of the line as the name.
pub fn parse_type(input: &str) -> (r: Result<Command, ParseError>)
    ensures
        outcome(r) == type_spec(input@),
{
    let cs = chars_of(input);
    if !has_prefix(&cs, "type ") {
        return Err(ParseError);
    }
    Ok(Command::Type(rest_after(input, &cs, "type ").to_owned()))
}

/// `cd`, spaces, and the rest of the line as the path.
pub fn parse_cd(input: &str) -> (r: Result<Command, ParseError>)
    ensures
        outcome(r) == cd_spec(input@),
{
    let cs = chars_of(input);
    if !has_prefix(&cs, "cd ") {
        return Err(ParseError);
    }
    Ok(Command::Cd(rest_after(input, &cs, "cd ").to_owned()))
}

/// `pwd` alone.
pub fn parse_pwd(input: &str) -> (r: Result<Command, ParseError>)
    ensures
        outcome(r) == pwd_spec(input@),
{
    let cs = chars_of(input);
    let pc = chars_of("pwd");
    if has_prefix(&cs, "pwd") && cs.len() == pc.len() {
        assert(cs@ =~= cs@.subrange(0, pc.len() as int));
        Ok(Command::Pwd)
    } else {
        assert(cs@.subrange(0, cs@.len() as int) =~= cs@);
        Err(ParseError)
    }
}

/// A program on the search path and its arguments.
pub fn parse_bin(input: &str, search: &Option<Vec<SearchDir>>) -> (r: Result<Command, ParseError>)
    ensures
        outcome(r) == bin_spec(input@, search_view(*search)),
{
    let cs = chars_of(input);
    let n = scan_word(&cs, 0);
    if n == 0 {
        return Err(ParseError);
    }
    let start = scan_spaces(&cs, n);
    let args = match parse_args(input.substring_char(start, cs.len())) {
        Ok(args) => args,
        Err(e) => {
            return Err(e);
        },
    };
    match get_bin_path(input.substring_char(0, n), search) {
        Ok(p) => Ok(Command::Bin(p, args)),
        Err(_) => Err(ParseError),
    }
}

/// Parses a line of input, already trimmed, into the command it names.
pub fn parse_input(input: &str, search: &Option<Vec<SearchDir>>) -> (r: Result<Command, ParseError>)
    ensures
        outcome(r) == parse_spec(input@, search_view(*search)),
{
    let r = parse_exit(input);
    if r.is_ok() {
        return r;
    }
    let r = parse_echo(input);
    if r.is_ok() {
        return r;
    }
    let r = parse_type(input);
    if r.is_ok() {
        return r;
    }
    let r = parse_cd(input);
    if r.is_ok() {
        return r;
    }
    let r = parse_pwd(input);
    if r.is_ok() {
        return r;
    }
    parse_bin(input, search)
}

} // verus!
