use minishell::token::parse_arg;
use minishell::parse::{parse_cd, parse_exit, parse_pwd, parse_type};
use minishell::{parse_args, parse_echo, parse_input, Command, Entry, ParseError, SearchDir};

fn s(x: &str) -> String {
    x.to_string()
}

fn strings(xs: &[&str]) -> Vec<String> {
    xs.iter().map(|x| x.to_string()).collect()
}

fn search_with(names: &[(&str, &str)]) -> Option<Vec<SearchDir>> {
    let entries = names.iter().map(|(n, p)| Entry { name: s(n), path: s(p) }).collect();
    Some(vec![SearchDir { entries }])
}

#[test]
fn main_test_parse_echo() {
    let cmd = parse_echo("echo hello").unwrap();
    assert_eq!(cmd, Command::Echo(strings(&["hello"])));
}

#[test]
fn main_test_parse_args() {
    let args = parse_args("--hello world '1 2 3'").unwrap();
    assert_eq!(args, strings(&["--hello", "world", "1 2 3"]));
    let args = parse_args("\"'x' 'y'\"").unwrap();
    assert_eq!(args, strings(&["'x' 'y'"]));
}

#[test]
fn parse_test_parse_echo() {
    let cmd = parse_echo("echo hello").unwrap();
    assert_eq!(cmd, Command::Echo(strings(&["hello"])));
}

#[test]
fn parse_test_parse_args() {
    let args = parse_args("--hello world '1 2 3'").unwrap();
    assert_eq!(args, strings(&["--hello", "world", "1 2 3"]));
    let args = parse_args("\"'x' 'y'\"").unwrap();
    assert_eq!(args, strings(&["'x' 'y'"]));
}

#[test]
fn args_need_at_least_one_word() {
    assert_eq!(parse_args(""), Err(ParseError));
}

#[test]
fn args_may_not_start_with_whitespace() {
    assert_eq!(parse_args(" a"), Err(ParseError));
}

#[test]
fn args_split_on_tabs_and_runs_of_spaces() {
    assert_eq!(parse_args("a\tb   c").unwrap(), strings(&["a", "b", "c"]));
}

#[test]
fn quoted_word_running_into_text_is_malformed() {
    assert_eq!(parse_args("'a'b"), Err(ParseError));
    assert_eq!(parse_args("x \"a b\"c"), Err(ParseError));
}

#[test]
fn empty_quotes_are_a_plain_word() {
    assert_eq!(parse_args("''").unwrap(), strings(&["''"]));
}

#[test]
fn unterminated_quote_is_a_plain_word() {
    assert_eq!(parse_args("'abc def").unwrap(), strings(&["'abc", "def"]));
}

#[test]
fn double_quotes_keep_backslashes() {
    assert_eq!(parse_args("\"a\\b $x\"").unwrap(), strings(&["a\\b $x"]));
}

#[test]
fn exit_takes_its_status() {
    assert_eq!(parse_exit("exit 0"), Ok(Command::Exit(0)));
    assert_eq!(parse_exit("exit 7"), Ok(Command::Exit(7)));
    assert_eq!(parse_exit("exit    42"), Ok(Command::Exit(42)));
    assert_eq!(parse_exit("exit -3"), Ok(Command::Exit(-3)));
    assert_eq!(parse_exit("exit +5"), Ok(Command::Exit(5)));
    assert_eq!(parse_exit("exit -2147483648"), Ok(Command::Exit(i32::MIN)));
}

#[test]
fn exit_status_must_be_a_number_that_fits() {
    assert_eq!(parse_exit("exit abc"), Err(ParseError));
    assert_eq!(parse_exit("exit -"), Err(ParseError));
    assert_eq!(parse_exit("exit 2147483648"), Err(ParseError));
    assert_eq!(parse_exit("exit"), Err(ParseError));
}

#[test]
fn exit_rejects_text_after_the_digits() {
    assert_eq!(parse_exit("exit 7abc"), Err(ParseError));
    assert_eq!(parse_exit("exit 1.5"), Err(ParseError));
    assert_eq!(parse_exit("exit 7 "), Err(ParseError));
}

#[test]
fn type_and_cd_take_the_rest_of_the_line() {
    assert_eq!(parse_type("type   ls"), Ok(Command::Type(s("ls"))));
    assert_eq!(parse_cd("cd  /tmp/a b"), Ok(Command::Cd(s("/tmp/a b"))));
    assert_eq!(parse_cd("cd ~"), Ok(Command::Cd(s("~"))));
}

#[test]
fn pwd_takes_nothing_after_it() {
    assert_eq!(parse_pwd("pwd"), Ok(Command::Pwd));
    assert_eq!(parse_pwd("pwd x"), Err(ParseError));
}

#[test]
fn builtins_come_before_programs_of_the_same_name() {
    let search = search_with(&[("echo", "/bin/echo"), ("exit", "/bin/exit")]);
    assert_eq!(parse_input("echo hi", &search), Ok(Command::Echo(strings(&["hi"]))));
    assert_eq!(parse_input("exit 3", &search), Ok(Command::Exit(3)));
}

#[test]
fn echo_with_two_spaces_falls_back_to_a_program() {
    let search = search_with(&[("echo", "/bin/echo")]);
    assert_eq!(
        parse_input("echo  hi", &search),
        Ok(Command::Bin(s("/bin/echo"), strings(&["hi"])))
    );
}

#[test]
fn programs_resolve_on_the_search_path() {
    let search = search_with(&[("ls", "/usr/bin/ls")]);
    assert_eq!(
        parse_input("ls -l 'my dir'", &search),
        Ok(Command::Bin(s("/usr/bin/ls"), strings(&["-l", "my dir"])))
    );
    assert_eq!(parse_input("cat x", &search), Err(ParseError));
    assert_eq!(parse_input("ls -l", &None), Err(ParseError));
}

#[test]
fn programs_need_an_argument() {
    let search = search_with(&[("ls", "/usr/bin/ls")]);
    assert_eq!(parse_input("ls", &search), Err(ParseError));
}

#[test]
fn parse_arg_reads_one_word_and_the_rest() {
    assert_eq!(parse_arg("'a b'  c d"), Ok((s("a b"), "c d")));
    assert_eq!(parse_arg("word"), Ok((s("word"), "")));
    assert_eq!(parse_arg(""), Err(ParseError));
    assert_eq!(parse_arg(" x"), Err(ParseError));
    assert_eq!(parse_arg("\"a\"b"), Err(ParseError));
}

#[test]
fn exit_with_spaces_and_extreme_statuses() {
    assert_eq!(parse_input("exit   2147483647", &None), Ok(Command::Exit(i32::MAX)));
    assert_eq!(parse_input("exit -2147483648", &None), Ok(Command::Exit(i32::MIN)));
    assert_eq!(parse_input("exit 7abc", &None), Err(ParseError));
}
