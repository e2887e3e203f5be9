use watcher::command::{
    char_is_space, judge, parse_invocation, split_command, CommandError, Invocation, RunReport,
};

fn strings(words: &[&str]) -> Vec<String> {
    words.iter().map(|w| w.to_string()).collect()
}

#[test]
fn space_test_agrees_with_the_standard_library_on_every_character() {
    let mut code: u32 = 0;
    while code <= 0x10FFFF {
        if let Some(c) = char::from_u32(code) {
            assert_eq!(char_is_space(c), c.is_whitespace(), "U+{:04X}", code);
        }
        code += 1;
    }
}

#[test]
fn space_test_on_named_characters() {
    assert!(char_is_space(' '));
    assert!(char_is_space('\t'));
    assert!(char_is_space('\n'));
    assert!(char_is_space('\r'));
    assert!(char_is_space('\u{0B}'));
    assert!(char_is_space('\u{0C}'));
    assert!(char_is_space('\u{85}'));
    assert!(char_is_space('\u{A0}'));
    assert!(char_is_space('\u{3000}'));
    assert!(!char_is_space('a'));
    assert!(!char_is_space('\u{08}'));
    assert!(!char_is_space('\u{0E}'));
    assert!(!char_is_space('\u{200B}'));
    assert!(!char_is_space('\u{1F}'));
}

#[test]
fn splits_two_words() {
    assert_eq!(split_command("echo hi"), strings(&["echo", "hi"]));
}

#[test]
fn splits_a_single_word() {
    assert_eq!(split_command("false"), strings(&["false"]));
}

#[test]
fn empty_command_has_no_word() {
    assert_eq!(split_command(""), Vec::<String>::new());
}

#[test]
fn blank_command_has_no_word() {
    assert_eq!(split_command(" \t\n  "), Vec::<String>::new());
}

#[test]
fn runs_of_spaces_separate_once() {
    assert_eq!(split_command("  cargo \t build\n--release  "), strings(&["cargo", "build", "--release"]));
}

#[test]
fn quotes_are_ordinary_characters() {
    assert_eq!(split_command("sh -c \"echo a b\""), strings(&["sh", "-c", "\"echo", "a", "b\""]));
}

#[test]
fn words_may_hold_characters_outside_ascii() {
    assert_eq!(split_command("écho\u{3000}héllo\u{A0}wörld"), strings(&["écho", "héllo", "wörld"]));
}

#[test]
fn splitting_agrees_with_the_standard_library() {
    let samples = [
        "",
        " ",
        "a",
        " a",
        "a ",
        "a b",
        "a  b",
        "\ta\nb\rc\u{0B}d\u{0C}e",
        "make -j 8 all",
        "x\u{2003}y\u{2028}z\u{205F}w",
        "日本語 テスト",
        "trailing\u{85}",
    ];
    for sample in samples.iter() {
        let expected: Vec<String> = sample.split_whitespace().map(|w| w.to_string()).collect();
        assert_eq!(split_command(sample), expected, "{:?}", sample);
    }
}

#[test]
fn invocation_takes_the_first_word_as_program() {
    assert_eq!(
        parse_invocation("echo hi"),
        Some(Invocation { program: "echo".to_string(), arguments: strings(&["hi"]) })
    );
}

#[test]
fn invocation_without_arguments() {
    assert_eq!(
        parse_invocation("  false "),
        Some(Invocation { program: "false".to_string(), arguments: Vec::new() })
    );
}

#[test]
fn invocation_keeps_the_order_of_arguments() {
    assert_eq!(
        parse_invocation("cc -o out main.c"),
        Some(Invocation { program: "cc".to_string(), arguments: strings(&["-o", "out", "main.c"]) })
    );
}

#[test]
fn no_invocation_without_a_word() {
    assert_eq!(parse_invocation(""), None);
    assert_eq!(parse_invocation("   \t"), None);
}

#[test]
fn successful_exit_is_a_success() {
    let report = RunReport::Exited { success: true, status: "ExitStatus(unix_wait_status(0))".to_string() };
    assert_eq!(judge(report), Ok(()));
}

#[test]
fn failed_exit_keeps_its_status() {
    let report = RunReport::Exited { success: false, status: "ExitStatus(unix_wait_status(256))".to_string() };
    assert_eq!(
        judge(report),
        Err(CommandError::Exit { status: "ExitStatus(unix_wait_status(256))".to_string() })
    );
}

#[test]
fn command_that_did_not_start_is_a_failure() {
    assert_eq!(judge(RunReport::NotStarted), Err(CommandError::Start));
}

#[test]
fn exit_error_message_shows_the_status() {
    let error = CommandError::Exit { status: "ExitStatus(unix_wait_status(256))".to_string() };
    assert_eq!(error.message(), "Status value: ExitStatus(unix_wait_status(256))");
}

#[test]
fn start_error_message() {
    assert_eq!(CommandError::Start.message(), "Could not start command");
}
