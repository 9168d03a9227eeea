//! Finding a program by name in the directories of the search path.
use vstd::prelude::*;

verus! {

/// A file found in a directory of the search path.
#[derive(Clone, Debug, PartialEq, Eq)]
pub struct Entry {
    /// The file's name within its directory.
    pub name: String,
    /// The file's path.
    pub path: String,
}

/// The files of one directory of the search path, in the order listed.
#[derive(Clone, Debug, PartialEq, Eq)]
pub struct SearchDir {
    pub entries: Vec<Entry>,
}

/// The index of the first entry at or after `j` named `name`.
pub open spec fn match_in(name: Seq<char>, es: Seq<Entry>, j: int) -> Option<int>
    decreases es.len() - j,
{
    if j < 0 || j >= es.len() {
        None
    } else if es[j].name@ == name {
        Some(j)
    } else {
        match_in(name, es, j + 1)
    }
}

/// The directory and entry index of the first file named `name`, searching
/// the directories from index `d` on, in order.
pub open spec fn match_from(name: Seq<char>, dirs: Seq<SearchDir>, d: int) -> Option<(int, int)>
    decreases dirs.len() - d,
{
    if d < 0 || d >= dirs.len() {
        None
    } else {
        match match_in(name, dirs[d].entries@, 0) {
            Some(j) => Some((d, j)),
            None => match_from(name, dirs, d + 1),
        }
    }
}

pub open spec fn first_match(name: Seq<char>, dirs: Seq<SearchDir>) -> Option<(int, int)> {
    match_from(name, dirs, 0)
}

/// The path that `name` resolves to in `dirs`.
pub open spec fn resolve(name: Seq<char>, dirs: Seq<SearchDir>) -> Option<Seq<char>> {
    match first_match(name, dirs) {
        Some((d, j)) => Some(dirs[d].entries@[j].path@),
        None => None,
    }
}

pub open spec fn not_found_text(name: Seq<char>) -> Seq<char> {
    name + ": not found"@
}

pub open spec fn no_path_text() -> Seq<char> {
    "Error finding PATH"@
}

/// What resolving `name` gives, with the search path unset where `search` is `None`.
pub open spec fn bin_path(name: Seq<char>, search: Option<Seq<SearchDir>>) -> Result<Seq<char>, Seq<char>> {
    match search {
        None => Err(no_path_text()),
        Some(dirs) => match resolve(name, dirs) {
            Some(p) => Ok(p),
            None => Err(not_found_text(name)),
        },
    }
}

pub open spec fn search_view(search: Option<Vec<SearchDir>>) -> Option<Seq<SearchDir>> {
    match search {
        Some(dirs) => Some(dirs@),
        None => None,
    }
}

pub open spec fn result_view(r: Result<String, String>) -> Result<Seq<char>, Seq<char>> {
    match r {
        Ok(p) => Ok(p@),
        Err(m) => Err(m@),
    }
}

fn find_in_dir(name: &String, es: &Vec<Entry>) -> (r: Option<usize>)
    ensures
        match r {
            Some(j) => match_in(name@, es@, 0) == Some(j as int) && j < es.len(),
            None => match_in(name@, es@, 0) is None,
        },
{
    let mut j: usize = 0;
    while j < es.len()
        invariant
            j <= es.len(),
            match_in(name@, es@, 0) == match_in(name@, es@, j as int),
        decreases es.len() - j,
    {
        if es[j].name == *name {
            return Some(j);
        }
        j = j + 1;
    }
    None
}

/// Looks `input` up in the directories of the search path, in order, and
/// gives the path of the first file of that name.
fn lookup(input: &str, dirs: &Vec<SearchDir>) -> (r: Option<String>)
    ensures
        match r {
            Some(p) => resolve(input@, dirs@) == Some(p@),
            None => resolve(input@, dirs@) is None,
        },
{
    let name = input.to_owned();
    let mut d: usize = 0;
    while d < dirs.len()
        invariant
            d <= dirs.len(),
            name@ == input@,
            first_match(input@, dirs@) == match_from(input@, dirs@, d as int),
        decreases dirs.len() - d,
    {
        match find_in_dir(&name, &dirs[d].entries) {
            Some(j) => {
                assert(first_match(input@, dirs@) == Some((d as int, j as int)));
                return Some(dirs[d].entries[j].path.clone());
            },
            None => {},
        }
        d = d + 1;
    }
    None
}

/// Resolves a program name on the search path: the path of the first file
/// named `input` in the directories of `search`, taken in order. `search` is
/// `None` where the search path is unset.
pub fn get_bin_path(input: &str, search: &Option<Vec<SearchDir>>) -> (r: Result<String, String>)
    ensures
        result_view(r) == bin_path(input@, search_view(*search)),
{
    match search {
        None => Err(String::from_str("Error finding PATH")),
        Some(dirs) => match lookup(input, dirs) {
            Some(p) => Ok(p),
            None => Err(input.to_owned().concat(": not found")),
        },
    }
}

} // verus!
