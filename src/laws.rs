//! Properties of the shell as a whole, stated over the spec functions of the
//! parser and the dispatcher, and proved.
use vstd::prelude::*;

use crate::command::CommandView;
use crate::dispatch::{
    cd_spec, enter_spec, is_builtin_name, join_words, run_spec, type_spec, ActionView,
};
use crate::parse::{
    after_keyword, cd_spec as cd_form, echo_spec, exit_spec, parse_spec, pwd_spec, space_end,
    type_spec as type_form,
};
use crate::number::{all_number, digit_end, digits_value, is_digit, leading_i32, sign_len};
use crate::parse::bin_spec;
use crate::search::{bin_path, resolve, first_match, match_from, match_in, SearchDir};
use crate::token::{
    closing_quote, is_quote, is_ws, malformed_at, quote_end, quoted_at, token_end, token_text, tokenize,
    tokens_at, word_end, ws_end,
};

verus! {

/// A word written without quotes: no whitespace in it, and no quote as its
/// first character.
pub open spec fn plain_word(w: Seq<char>) -> bool {
    &&& w.len() > 0
    &&& !is_quote(w[0])
    &&& forall|k: int| 0 <= k < w.len() ==> !is_ws(#[trigger] w[k])
}

/// A word written between two equal quotes, with at least one character
/// between them and no such quote among those.
pub open spec fn quoted_word(w: Seq<char>) -> bool {
    &&& w.len() >= 3
    &&& is_quote(w[0])
    &&& w.last() == w[0]
    &&& forall|k: int| 0 < k < w.len() - 1 ==> #[trigger] w[k] != w[0]
}

pub open spec fn written_word(w: Seq<char>) -> bool {
    plain_word(w) || quoted_word(w)
}

/// The text that a written word stands for.
pub open spec fn word_text(w: Seq<char>) -> Seq<char> {
    if quoted_word(w) {
        w.subrange(1, w.len() - 1)
    } else {
        w
    }
}

pub open spec fn word_texts(ws: Seq<Seq<char>>) -> Seq<Seq<char>> {
    ws.map_values(|w: Seq<char>| word_text(w))
}

proof fn lemma_join_front(w: Seq<char>, ws: Seq<Seq<char>>)
    requires
        ws.len() > 0,
    ensures
        join_words(seq![w] + ws) == w + " "@ + join_words(ws),
    decreases ws.len(),
{
    reveal_strlit(" ");
    let all = seq![w] + ws;
    assert(all.last() == ws.last());
    if ws.len() == 1 {
        assert(all.drop_last() =~= seq![w]);
        assert(join_words(seq![w]) == w);
        assert(join_words(ws) == ws[0]);
    } else {
        lemma_join_front(w, ws.drop_last());
        assert(all.drop_last() =~= seq![w] + ws.drop_last());
        assert(w + " "@ + join_words(ws.drop_last()) + " "@ + ws.last() =~= w + " "@ + (join_words(
            ws.drop_last(),
        ) + " "@ + ws.last()));
    }
}

proof fn lemma_word_end_run(s: Seq<char>, i: int, e: int)
    requires
        0 <= i <= e <= s.len(),
        forall|k: int| i <= k < e ==> !is_ws(#[trigger] s[k]),
        e == s.len() || is_ws(s[e]),
    ensures
        word_end(s, i) == e,
    decreases e - i,
{
    if i < e {
        lemma_word_end_run(s, i + 1, e);
    }
}

proof fn lemma_quote_end_run(s: Seq<char>, i: int, e: int, q: char)
    requires
        0 <= i <= e < s.len(),
        forall|k: int| i <= k < e ==> #[trigger] s[k] != q,
        s[e] == q,
    ensures
        quote_end(s, i, q) == e,
    decreases e - i,
{
    if i < e {
        lemma_quote_end_run(s, i + 1, e, q);
    }
}

/// Where the text from `i` on is the written words joined by spaces, the
/// words found there are their texts.
proof fn lemma_tokens_of_join(s: Seq<char>, i: int, ws: Seq<Seq<char>>)
    requires
        0 <= i <= s.len(),
        ws.len() > 0,
        forall|k: int| 0 <= k < ws.len() ==> written_word(#[trigger] ws[k]),
        s.subrange(i, s.len() as int) == join_words(ws),
    ensures
        tokens_at(s, i) == Some(word_texts(ws)),
    decreases ws.len(),
{
    reveal_strlit(" ");
    let w = ws[0];
    let rest = ws.drop_first();
    assert(ws =~= seq![w] + rest);
    assert(written_word(w));
    if rest.len() > 0 {
        lemma_join_front(w, rest);
    } else {
        assert(join_words(ws) == w);
    }
    let e = i + w.len();
    let full = s.subrange(i, s.len() as int);
    if rest.len() > 0 {
        assert(full == w + " "@ + join_words(rest));
        assert(full.len() == w.len() + 1 + join_words(rest).len());
    } else {
        assert(full == w);
    }
    assert(e <= s.len());
    assert forall|k: int| 0 <= k < w.len() implies s[i + k] == w[k] by {
        assert(s.subrange(i, s.len() as int)[k] == s[i + k]);
    }
    assert(e == s.len() || s[e] == ' ') by {
        if rest.len() > 0 {
            assert(s.subrange(i, s.len() as int)[w.len() as int] == s[e]);
        } else {
            assert(s.subrange(i, s.len() as int).len() == w.len());
        }
    }
    assert(s[i] == w[0]);
    if quoted_word(w) {
        let q = w[0];
        assert(forall|k: int| i + 1 <= k < e - 1 ==> #[trigger] s[k] != q) by {
            assert forall|k: int| i + 1 <= k < e - 1 implies #[trigger] s[k] != q by {
                assert(s[i + (k - i)] == w[k - i]);
            }
        }
        assert(s[e - 1] == w[w.len() - 1]);
        lemma_quote_end_run(s, i + 1, e - 1, q);
        assert(closing_quote(s, i) == e - 1);
        assert(quoted_at(s, i));
        assert(token_end(s, i) == e);
        assert(token_text(s, i) =~= w.subrange(1, w.len() - 1));
    } else {
        assert(plain_word(w));
        assert(!is_quote(s[i]));
        assert forall|k: int| i <= k < e implies !is_ws(#[trigger] s[k]) by {
            assert(s[i + (k - i)] == w[k - i]);
        }
        lemma_word_end_run(s, i, e);
        assert(token_end(s, i) == e);
        assert(token_text(s, i) =~= w);
    }
    assert(word_text(w) == token_text(s, i));
    assert(!is_ws(s[i]));
    assert(i < s.len());
    assert(!malformed_at(s, i));
    if rest.len() > 0 {
        let r0 = rest[0];
        assert(written_word(rest[0]));
        assert(r0.len() > 0);
        assert(s.subrange(e + 1, s.len() as int) =~= join_words(rest)) by {
            assert(s.subrange(i, s.len() as int).subrange(w.len() + 1 as int, s.len() - i) =~= s.subrange(
                e + 1,
                s.len() as int,
            ));
            assert((w + " "@ + join_words(rest)).subrange(w.len() + 1 as int, s.len() - i) =~= join_words(
                rest,
            ));
        }
        assert(s[e + 1] == r0[0]) by {
            assert(s.subrange(e + 1, s.len() as int)[0] == s[e + 1]);
            lemma_join_first(rest);
        }
        assert(!is_ws(r0[0]));
        assert(e + 1 < s.len());
        assert(ws_end(s, e + 1) == e + 1);
        assert(s[e] == ' ');
        assert(ws_end(s, e) == ws_end(s, e + 1));
        assert forall|k: int| 0 <= k < rest.len() implies written_word(#[trigger] rest[k]) by {
            assert(rest[k] == ws[k + 1]);
        }
        lemma_tokens_of_join(s, e + 1, rest);
        assert(word_texts(ws) =~= seq![word_text(w)] + word_texts(rest));
        assert(tokens_at(s, i) == Some(seq![token_text(s, i)] + word_texts(rest)));
    } else {
        assert(e == s.len());
        assert(ws_end(s, e) == e);
        assert(word_texts(ws) =~= seq![word_text(w)] + Seq::<Seq<char>>::empty());
        assert(tokens_at(s, e) == Some(Seq::<Seq<char>>::empty()));
        assert(tokens_at(s, i) == Some(seq![token_text(s, i)] + Seq::<Seq<char>>::empty()));
    }
}

/// The first character of the joined words is that of the first word.
proof fn lemma_join_first(ws: Seq<Seq<char>>)
    requires
        ws.len() > 0,
        ws[0].len() > 0,
    ensures
        join_words(ws).len() > 0,
        join_words(ws)[0] == ws[0][0],
    decreases ws.len(),
{
    if ws.len() > 1 {
        lemma_join_first(ws.drop_last());
    }
}

/// Echo gives back its words: for words written plainly or between quotes,
/// `echo` followed by them, joined by single spaces, prints their texts
/// joined by single spaces, quotes taken off and the spaces inside quotes kept.
pub proof fn lemma_echo_round_trip(
    ws: Seq<Seq<char>>,
    search: Option<Seq<SearchDir>>,
    home: Option<Seq<char>>,
)
    requires
        ws.len() > 0,
        forall|k: int| 0 <= k < ws.len() ==> written_word(#[trigger] ws[k]),
    ensures
        run_spec("echo "@ + join_words(ws), search, home) == ActionView::Print(
            join_words(word_texts(ws)),
        ),
{
    reveal_strlit("echo ");
    reveal_strlit("exit ");
    let t = "echo "@ + join_words(ws);
    let body = join_words(ws);
    assert(t.subrange(0, 5) =~= "echo "@);
    assert(t[1] != "exit "@[1]);
    assert(exit_spec(t) is None);
    assert(t.subrange(5, t.len() as int) =~= body);
    assert(ws[0].len() > 0) by {
        assert(written_word(ws[0]));
    }
    lemma_join_first(ws);
    assert(body.subrange(0, body.len() as int) =~= body);
    lemma_tokens_of_join(body, 0, ws);
    assert(tokenize(body) == Some(word_texts(ws)));
    assert(parse_spec(t, search) == echo_spec(t));
}

/// `type` of a name that does not start with a space classifies that name:
/// a builtin is reported as one, whatever the search path holds; any other
/// name is reported at its resolved path, or with the resolver's message.
pub proof fn lemma_type_reports(
    name: Seq<char>,
    search: Option<Seq<SearchDir>>,
    home: Option<Seq<char>>,
)
    requires
        name.len() > 0,
        name[0] != ' ',
    ensures
        run_spec("type "@ + name, search, home) == type_spec(name, search),
        is_builtin_name(name) ==> run_spec("type "@ + name, search, home) == ActionView::Print(
            name + " is a shell builtin"@,
        ),
{
    reveal_strlit("type ");
    reveal_strlit("exit ");
    reveal_strlit("echo ");
    let t = "type "@ + name;
    assert(t.subrange(0, 5) =~= "type "@);
    assert(t[0] != "exit "@[0]);
    assert(t[0] != "echo "@[0]);
    assert(exit_spec(t) is None);
    assert(echo_spec(t) is None);
    assert(space_end(t, 5) == 5);
    assert(after_keyword(t, "type "@) =~= name);
    assert(parse_spec(t, search) == type_form(t));
}

/// Among directories of the search path that both hold a file of the name,
/// the one listed first wins: the file found is in it or in one before it.
pub proof fn lemma_earlier_dir_wins(name: Seq<char>, dirs: Seq<SearchDir>, a: int, b: int, ja: int, jb: int)
    requires
        0 <= a < b < dirs.len(),
        0 <= ja < dirs[a].entries@.len(),
        0 <= jb < dirs[b].entries@.len(),
        dirs[a].entries@[ja].name@ == name,
        dirs[b].entries@[jb].name@ == name,
    ensures
        match first_match(name, dirs) {
            Some((d, _)) => d <= a && d != b,
            None => false,
        },
{
    lemma_match_in_finds(name, dirs[a].entries@, 0, ja);
    lemma_match_from_before(name, dirs, 0, a);
}

proof fn lemma_match_in_finds(name: Seq<char>, es: Seq<crate::search::Entry>, j: int, k: int)
    requires
        0 <= j <= k < es.len(),
        es[k].name@ == name,
    ensures
        match_in(name, es, j) is Some,
    decreases k - j,
{
    if es[j].name@ != name {
        lemma_match_in_finds(name, es, j + 1, k);
    }
}

proof fn lemma_match_from_before(name: Seq<char>, dirs: Seq<SearchDir>, d: int, a: int)
    requires
        0 <= d <= a < dirs.len(),
        match_in(name, dirs[a].entries@, 0) is Some,
    ensures
        match match_from(name, dirs, d) {
            Some((found, _)) => d <= found <= a,
            None => false,
        },
    decreases a - d,
{
    if d < a && match_in(name, dirs[d].entries@, 0) is None {
        lemma_match_from_before(name, dirs, d + 1, a);
    }
}

/// `cd` to a path that is not a directory changes nothing and reports it:
/// the line asks about that very path, and the answer "not a directory"
/// leads to the message, never to a change of directory.
pub proof fn lemma_cd_missing(
    path: Seq<char>,
    search: Option<Seq<SearchDir>>,
    home: Option<Seq<char>>,
)
    requires
        path.len() > 0,
        path[0] != ' ',
        path != "~"@,
    ensures
        run_spec("cd "@ + path, search, home) == ActionView::EnterDir(path),
        enter_spec(path, false) == ActionView::Print(
            "cd: "@ + path + ": No such file or directory"@,
        ),
        !(enter_spec(path, false) is ChangeDir),
{
    reveal_strlit("cd ");
    reveal_strlit("exit ");
    reveal_strlit("echo ");
    reveal_strlit("type ");
    let t = "cd "@ + path;
    assert(t.subrange(0, 3) =~= "cd "@);
    assert(t[0] != "exit "@[0]);
    assert(t[0] != "echo "@[0]);
    assert(t[0] != "type "@[0]);
    assert(exit_spec(t) is None);
    assert(echo_spec(t) is None);
    assert(type_form(t) is None);
    assert(space_end(t, 3) == 3);
    assert(after_keyword(t, "cd "@) =~= path);
    assert(parse_spec(t, search) == cd_form(t));
}

/// `cd ~` goes to the home directory, where it is known, whatever the
/// working directory was: nothing in the decision depends on it.
pub proof fn lemma_cd_home(h: Seq<char>, search: Option<Seq<SearchDir>>)
    ensures
        run_spec("cd ~"@, search, Some(h)) == ActionView::EnterDir(h),
        enter_spec(h, true) == ActionView::ChangeDir(h),
{
    reveal_strlit("cd ~");
    reveal_strlit("cd ");
    reveal_strlit("~");
    reveal_strlit("exit ");
    reveal_strlit("echo ");
    reveal_strlit("type ");
    let t = "cd ~"@;
    assert(t.subrange(0, 3) =~= "cd "@);
    assert(exit_spec(t) is None);
    assert(echo_spec(t) is None);
    assert(type_form(t) is None);
    assert(space_end(t, 3) == 3);
    assert(after_keyword(t, "cd "@) =~= "~"@);
    assert(parse_spec(t, search) == cd_form(t));
    assert(cd_spec("~"@, Some(h)) == ActionView::EnterDir(h));
}

/// A `pwd` line, whatever the search path and home directory, only asks
/// for the working directory to be shown: it asks for no change of directory.
pub proof fn lemma_pwd_changes_nothing(search: Option<Seq<SearchDir>>, home: Option<Seq<char>>)
    ensures
        run_spec("pwd"@, search, home) == ActionView::ShowCwd,
{
    reveal_strlit("pwd");
    reveal_strlit("cd ");
    reveal_strlit("exit ");
    reveal_strlit("echo ");
    reveal_strlit("type ");
    let t = "pwd"@;
    assert(exit_spec(t) is None);
    assert(echo_spec(t) is None);
    assert(type_form(t) is None);
    assert(t.subrange(0, 3) =~= t);
    assert(cd_form(t) is None);
    assert(pwd_spec(t) is Some);
    assert(parse_spec(t, search) == pwd_spec(t));
}

/// The character of a decimal digit.
pub open spec fn digit_char(d: int) -> char {
    seq!['0', '1', '2', '3', '4', '5', '6', '7', '8', '9'][d]
}

/// The decimal text of a natural number, without leading zeros.
pub open spec fn decimal_text(v: nat) -> Seq<char>
    decreases v,
{
    if v < 10 {
        seq![digit_char(v as int)]
    } else {
        decimal_text(v / 10).push(digit_char((v % 10) as int))
    }
}

/// The decimal text of an integer, with `-` before a negative one.
pub open spec fn int_text(n: int) -> Seq<char> {
    if n < 0 {
        seq!['-'] + decimal_text((-n) as nat)
    } else {
        decimal_text(n as nat)
    }
}

pub open spec fn spaces(k: nat) -> Seq<char> {
    Seq::new(k, |_i: int| ' ')
}

proof fn lemma_digit_char(d: int)
    requires
        0 <= d < 10,
    ensures
        is_digit(digit_char(d)),
        digit_char(d) as int - '0' as int == d,
{
    let ds = seq!['0', '1', '2', '3', '4', '5', '6', '7', '8', '9'];
    assert(ds[0] == '0' && ds[1] == '1' && ds[2] == '2' && ds[3] == '3' && ds[4] == '4');
    assert(ds[5] == '5' && ds[6] == '6' && ds[7] == '7' && ds[8] == '8' && ds[9] == '9');
}

proof fn lemma_decimal_text(v: nat)
    ensures
        decimal_text(v).len() > 0,
        forall|k: int| 0 <= k < decimal_text(v).len() ==> is_digit(#[trigger] decimal_text(v)[k]),
        digits_value(decimal_text(v)) == v,
    decreases v,
{
    if v < 10 {
        lemma_digit_char(v as int);
        let t = seq![digit_char(v as int)];
        assert(t.drop_last() =~= Seq::<char>::empty());
        assert(digits_value(Seq::<char>::empty()) == 0);
        assert(digits_value(t) == digits_value(t.drop_last()) * 10 + (t.last() as int - '0' as int));
        assert(decimal_text(v) == t);
    } else {
        lemma_decimal_text(v / 10);
        lemma_digit_char((v % 10) as int);
        let t = decimal_text(v);
        assert(t.drop_last() =~= decimal_text(v / 10));
        assert(forall|k: int| 0 <= k < t.len() - 1 ==> t[k] == decimal_text(v / 10)[k]);
        assert(t.last() == digit_char((v % 10) as int));
        assert(digits_value(t) == digits_value(decimal_text(v / 10)) * 10 + (v % 10));
        assert((v / 10) * 10 + v % 10 == v) by (nonlinear_arith);
    }
}

proof fn lemma_digit_end_all(s: Seq<char>, i: int)
    requires
        0 <= i <= s.len(),
        forall|k: int| i <= k < s.len() ==> is_digit(#[trigger] s[k]),
    ensures
        digit_end(s, i) == s.len(),
    decreases s.len() - i,
{
    if i < s.len() {
        lemma_digit_end_all(s, i + 1);
    }
}

proof fn lemma_space_end_run(s: Seq<char>, i: int, e: int)
    requires
        0 <= i <= e < s.len(),
        forall|k: int| i <= k < e ==> #[trigger] s[k] == ' ',
        s[e] != ' ',
    ensures
        space_end(s, i) == e,
    decreases e - i,
{
    if i < e {
        lemma_space_end_run(s, i + 1, e);
    }
}

/// The decimal text of an integer is an optionally signed number all
/// through, and reads back as that integer.
proof fn lemma_int_text(n: int)
    ensures
        int_text(n).len() > 0,
        int_text(n)[0] != ' ',
        all_number(int_text(n)),
        digits_value(int_text(n).subrange(sign_len(int_text(n)), int_text(n).len() as int)) == (
        if n < 0 {
            -n
        } else {
            n
        }),
        sign_len(int_text(n)) == 1 <==> n < 0,
        n < 0 ==> int_text(n)[0] == '-',
{
    let a = int_text(n);
    let m: nat = if n < 0 {
        (-n) as nat
    } else {
        n as nat
    };
    lemma_decimal_text(m);
    let d = decimal_text(m);
    let sl: int = if n < 0 {
        1
    } else {
        0
    };
    assert(a.subrange(sl, a.len() as int) =~= d);
    assert(!is_digit(' ') && !is_digit('-') && !is_digit('+'));
    if n >= 0 {
        assert(is_digit(d[0]));
    }
    assert(sign_len(a) == sl);
    assert forall|j: int| sl <= j < a.len() implies is_digit(#[trigger] a[j]) by {
        assert(a[j] == d[j - sl]);
    }
    lemma_digit_end_all(a, sl);
}

/// `exit`, any number of further spaces, and the decimal text of any `i32`
/// ends the process with that status.
pub proof fn lemma_exit_status(
    n: i32,
    k: nat,
    search: Option<Seq<SearchDir>>,
    home: Option<Seq<char>>,
)
    ensures
        run_spec("exit "@ + spaces(k) + int_text(n as int), search, home) == ActionView::Exit(n),
{
    reveal_strlit("exit ");
    let a = int_text(n as int);
    lemma_int_text(n as int);
    let t = "exit "@ + spaces(k) + a;
    assert(t.subrange(0, 5) =~= "exit "@);
    assert forall|j: int| 5 <= j < 5 + k implies #[trigger] t[j] == ' ' by {
        assert(t[j] == spaces(k)[j - 5]);
    }
    assert(t[5 + k as int] == a[0]);
    lemma_space_end_run(t, 5, 5 + k as int);
    assert(after_keyword(t, "exit "@) =~= a);
    assert(leading_i32(a) == Some(n));
    assert(exit_spec(t) == Some(CommandView::Exit(n)));
}

/// An `exit` line whose status is not an `i32` written as an optionally
/// signed decimal number is no `exit`: where no program named `exit` is on
/// the search path, the line is reported as no command.
pub proof fn lemma_exit_needs_number(
    status: Seq<char>,
    search: Option<Seq<SearchDir>>,
    home: Option<Seq<char>>,
)
    requires
        ({
            let a = after_keyword("exit "@ + status, "exit "@);
            !all_number(a) || leading_i32(a) is None
        }),
        match search {
            Some(dirs) => resolve("exit"@, dirs) is None,
            None => true,
        },
    ensures
        run_spec("exit "@ + status, search, home) == ActionView::Print(
            "exit "@ + status + ": command not found"@,
        ),
{
    reveal_strlit("exit ");
    reveal_strlit("exit");
    reveal_strlit("echo ");
    reveal_strlit("type ");
    reveal_strlit("cd ");
    reveal_strlit("pwd");
    let t = "exit "@ + status;
    assert(t.subrange(0, 5) =~= "exit "@);
    assert(exit_spec(t) is None);
    assert(t[1] != "echo "@[1]);
    assert(echo_spec(t) is None);
    assert(t[0] != "type "@[0]);
    assert(type_form(t) is None);
    assert(t[0] != "cd "@[0]);
    assert(cd_form(t) is None);
    assert(t[0] != "pwd"@[0]);
    assert(pwd_spec(t) is None);
    lemma_word_end_run(t, 0, 4);
    assert(t.subrange(0, 4) =~= "exit"@);
    assert(bin_path(t.subrange(0, 4), search) is Err);
    assert(bin_spec(t, search) is None);
    assert(parse_spec(t, search) is None);
}

} // verus!
