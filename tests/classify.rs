use runenv::args::{parse_args, EnvironmentModification, ParseError};
use runenv::text::{find_char, same_text};

fn strings(xs: &[&str]) -> Vec<String> {
    xs.iter().map(|s| s.to_string()).collect()
}

fn pairs(xs: &[(&str, &str)]) -> Vec<(String, String)> {
    xs.iter().map(|(n, v)| (n.to_string(), v.to_string())).collect()
}

fn ok(xs: &[&str]) -> (EnvironmentModification, Vec<String>) {
    parse_args(&strings(xs)).unwrap()
}

#[test]
fn ignore_flag_then_command() {
    let (m, c) = ok(&["-i", "echo", "hi"]);
    assert!(m.clear_env);
    assert!(m.unset_vars.is_empty());
    assert!(m.set_vars.is_empty());
    assert_eq!(c, strings(&["echo", "hi"]));
}

#[test]
fn long_ignore_flag() {
    let (m, c) = ok(&["--ignore-environment", "true"]);
    assert!(m.clear_env);
    assert_eq!(c, strings(&["true"]));
}

#[test]
fn assignment_and_unset_before_command() {
    let (m, c) = ok(&["FOO=bar", "-u", "BAZ", "printenv"]);
    assert!(!m.clear_env);
    assert_eq!(m.set_vars, pairs(&[("FOO", "bar")]));
    assert_eq!(m.unset_vars, strings(&["BAZ"]));
    assert_eq!(c, strings(&["printenv"]));
}

#[test]
fn unset_and_assignment_in_other_order() {
    let (m, c) = ok(&["-u", "BAZ", "FOO=bar", "printenv"]);
    let (m2, c2) = ok(&["FOO=bar", "-u", "BAZ", "printenv"]);
    assert_eq!(m.set_vars, m2.set_vars);
    assert_eq!(m.unset_vars, m2.unset_vars);
    assert_eq!(m.clear_env, m2.clear_env);
    assert_eq!(c, c2);
}

#[test]
fn ignore_flag_position_does_not_matter() {
    let (m, c) = ok(&["A=1", "-i", "--unset", "B", "cmd"]);
    let (m2, c2) = ok(&["-i", "A=1", "--unset", "B", "cmd"]);
    let (m3, c3) = ok(&["A=1", "--unset", "B", "-i", "cmd"]);
    assert!(m.clear_env && m2.clear_env && m3.clear_env);
    assert_eq!(m.set_vars, m2.set_vars);
    assert_eq!(m.set_vars, m3.set_vars);
    assert_eq!(m.unset_vars, m3.unset_vars);
    assert_eq!(c, c2);
    assert_eq!(c, c3);
}

#[test]
fn unset_without_name_is_missing_argument() {
    assert_eq!(
        parse_args(&strings(&["-u"])).unwrap_err(),
        ParseError::MissingArgument("-u".to_string())
    );
}

#[test]
fn long_unset_without_name_is_missing_argument() {
    assert_eq!(
        parse_args(&strings(&["A=1", "--unset"])).unwrap_err(),
        ParseError::MissingArgument("--unset".to_string())
    );
}

#[test]
fn empty_list_has_no_command() {
    assert_eq!(parse_args(&[]).unwrap_err(), ParseError::NoCommand);
}

#[test]
fn options_only_have_no_command() {
    assert_eq!(
        parse_args(&strings(&["-i", "X=1", "-u", "Y"])).unwrap_err(),
        ParseError::NoCommand
    );
}

#[test]
fn repeated_name_keeps_both_pairs_in_order() {
    let (m, c) = ok(&["A=1", "A=2", "cmd"]);
    assert_eq!(m.set_vars, pairs(&[("A", "1"), ("A", "2")]));
    assert_eq!(c, strings(&["cmd"]));
}

#[test]
fn same_input_gives_same_outcome() {
    let input = strings(&["-i", "A=1", "-u", "B", "cmd", "x"]);
    assert_eq!(parse_args(&input), parse_args(&input));
    let bad = strings(&["-u"]);
    assert_eq!(parse_args(&bad), parse_args(&bad));
}

#[test]
fn tokens_after_command_are_verbatim() {
    let (m, c) = ok(&["cmd", "-i", "X=Y"]);
    assert!(!m.clear_env);
    assert!(m.unset_vars.is_empty());
    assert!(m.set_vars.is_empty());
    assert_eq!(c, strings(&["cmd", "-i", "X=Y"]));
}

#[test]
fn command_is_suffix_after_plain_prefix() {
    let (m, c) = ok(&["--ignore-environment", "K=v", "prog", "-u", "Z", "--unset"]);
    assert!(m.clear_env);
    assert_eq!(m.set_vars, pairs(&[("K", "v")]));
    assert_eq!(c, strings(&["prog", "-u", "Z", "--unset"]));
}

#[test]
fn assignment_splits_on_first_equals() {
    let (m, _) = ok(&["A=b=c", "cmd"]);
    assert_eq!(m.set_vars, pairs(&[("A", "b=c")]));
}

#[test]
fn assignment_with_empty_value() {
    let (m, _) = ok(&["EMPTY=", "cmd"]);
    assert_eq!(m.set_vars, pairs(&[("EMPTY", "")]));
}

#[test]
fn assignment_with_non_ascii_text() {
    let (m, _) = ok(&["ÄÖ=ü=ß", "cmd"]);
    assert_eq!(m.set_vars, pairs(&[("ÄÖ", "ü=ß")]));
}

#[test]
fn dash_prefixed_assignment_is_an_assignment() {
    let (m, c) = ok(&["-x=1", "cmd"]);
    assert_eq!(m.set_vars, pairs(&[("-x", "1")]));
    assert_eq!(c, strings(&["cmd"]));
}

#[test]
fn empty_name_is_malformed_assignment() {
    assert_eq!(
        parse_args(&strings(&["=v", "cmd"])).unwrap_err(),
        ParseError::MalformedAssignment("=v".to_string())
    );
}

#[test]
fn unknown_option_starts_command() {
    let (m, c) = ok(&["-z", "A=1"]);
    assert!(m.set_vars.is_empty());
    assert_eq!(c, strings(&["-z", "A=1"]));
}

#[test]
fn unset_name_may_look_like_an_option() {
    let (m, c) = ok(&["-u", "-i", "cmd"]);
    assert!(!m.clear_env);
    assert_eq!(m.unset_vars, strings(&["-i"]));
    assert_eq!(c, strings(&["cmd"]));
}

#[test]
fn same_text_compares_characters() {
    assert!(same_text("-i", "-i"));
    assert!(!same_text("-i", "-u"));
    assert!(!same_text("-i", "-ix"));
    assert!(same_text("", ""));
}

#[test]
fn find_char_gives_first_position() {
    assert_eq!(find_char("a=b=c", '='), Some(1));
    assert_eq!(find_char("é=x", '='), Some(1));
    assert_eq!(find_char("abc", '='), None);
    assert_eq!(find_char("", '='), None);
}
