use minishell::dispatch::{
    echo_line, enter_dir, is_builtin, location_line, needs_search, pwd_line, CHDIR_FAILED, PWD_FAILED,
};
use minishell::{get_bin_path, run_command, Action, Entry, SearchDir};

fn s(x: &str) -> String {
    x.to_string()
}

fn dir(names: &[(&str, &str)]) -> SearchDir {
    SearchDir { entries: names.iter().map(|(n, p)| Entry { name: s(n), path: s(p) }).collect() }
}

#[test]
fn echo_prints_words_without_quotes() {
    let r = run_command("echo --hello world '1 2 3'", &None, &None);
    assert_eq!(r, Action::Print(s("--hello world 1 2 3")));
}

#[test]
fn echo_keeps_spaces_inside_quotes() {
    let r = run_command("echo \"'x' 'y'\"", &None, &None);
    assert_eq!(r, Action::Print(s("'x' 'y'")));
}

#[test]
fn echo_line_joins_with_single_spaces() {
    assert_eq!(echo_line(&vec![s("a"), s("b c"), s("d")]), s("a b c d"));
    assert_eq!(echo_line(&vec![]), s(""));
}

#[test]
fn exit_zero_and_seven() {
    assert_eq!(run_command("exit 0", &None, &None), Action::Exit(0));
    assert_eq!(run_command("exit 7", &None, &None), Action::Exit(7));
}

#[test]
fn exit_without_a_number_is_not_a_command() {
    assert_eq!(run_command("exit abc", &None, &None), Action::Print(s("exit abc: command not found")));
}

#[test]
fn type_reports_builtins() {
    let search = Some(vec![dir(&[("echo", "/bin/echo"), ("cd", "/bin/cd")])]);
    for name in ["echo", "exit", "type", "pwd", "cd"] {
        let r = run_command(&format!("type {}", name), &search, &None);
        assert_eq!(r, Action::Print(format!("{} is a shell builtin", name)));
        assert!(is_builtin(name));
    }
    assert!(!is_builtin("ls"));
}

#[test]
fn type_reports_programs_and_unknown_names() {
    let search = Some(vec![dir(&[("ls", "/usr/bin/ls")])]);
    assert_eq!(run_command("type ls", &search, &None), Action::Locate(s("ls"), s("/usr/bin/ls")));
    assert_eq!(run_command("type nope", &search, &None), Action::Print(s("nope: not found")));
    assert_eq!(run_command("type nope", &None, &None), Action::Print(s("Error finding PATH")));
    assert_eq!(location_line("ls", "/usr/bin/ls"), s("ls is /usr/bin/ls"));
}

#[test]
fn earlier_directory_wins() {
    let search = Some(vec![
        dir(&[("cat", "/a/cat")]),
        dir(&[("ls", "/first/ls")]),
        dir(&[("ls", "/second/ls")]),
    ]);
    assert_eq!(get_bin_path("ls", &search), Ok(s("/first/ls")));
    assert_eq!(get_bin_path("zz", &search), Err(s("zz: not found")));
    assert_eq!(get_bin_path("ls", &None), Err(s("Error finding PATH")));
}

#[test]
fn programs_are_spawned_with_their_arguments() {
    let search = Some(vec![dir(&[("ls", "/usr/bin/ls")])]);
    assert_eq!(
        run_command("ls -a", &search, &None),
        Action::Spawn(s("/usr/bin/ls"), vec![s("-a")])
    );
    assert_eq!(run_command("frob x", &search, &None), Action::Print(s("frob x: command not found")));
}

#[test]
fn cd_to_missing_directory_reports_it() {
    assert_eq!(run_command("cd /no/such", &None, &None), Action::EnterDir(s("/no/such")));
    assert_eq!(
        enter_dir("/no/such", false),
        Action::Print(s("cd: /no/such: No such file or directory"))
    );
    assert_eq!(enter_dir("/tmp", true), Action::ChangeDir(s("/tmp")));
}

#[test]
fn cd_home_goes_to_the_home_directory() {
    let home = Some(s("/home/u"));
    assert_eq!(run_command("cd ~", &None, &home), Action::EnterDir(s("/home/u")));
    assert_eq!(enter_dir("/home/u", true), Action::ChangeDir(s("/home/u")));
    assert_eq!(
        run_command("cd ~", &None, &None),
        Action::Print(s("cd: could not find the home directory"))
    );
}

#[test]
fn pwd_twice_is_the_same() {
    let a = run_command("pwd", &None, &None);
    let b = run_command("pwd", &None, &None);
    assert_eq!(a, Action::ShowCwd);
    assert_eq!(a, b);
    let cwd = Some(s("/work"));
    assert_eq!(pwd_line(&cwd), pwd_line(&cwd));
    assert_eq!(pwd_line(&cwd), s("/work"));
    assert_eq!(pwd_line(&None), s(PWD_FAILED));
    assert_eq!(CHDIR_FAILED, "Could not chdir");
}

#[test]
fn empty_line_is_not_a_command() {
    assert_eq!(run_command("", &None, &None), Action::Print(s(": command not found")));
}

#[test]
fn only_lookups_need_the_search_path() {
    assert!(!needs_search("exit 3"));
    assert!(!needs_search("echo a b"));
    assert!(!needs_search("type cd"));
    assert!(!needs_search("cd /tmp"));
    assert!(!needs_search("pwd"));
    assert!(needs_search("type ls"));
    assert!(needs_search("ls -l"));
    assert!(needs_search("exit abc"));
}
