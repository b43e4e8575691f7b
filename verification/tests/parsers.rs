use quwue::testing::{
    InstanceMessageParser, RunMessageParser, TestId, TestMessage, TestPath, TestRunId, TestUserId,
};

fn run_case(run: u64, msg: &str, want: Option<(&str, u64, &str)>) {
    let have = RunMessageParser::new(run).parse(msg);
    let want = want.map(|(path, user, content)| {
        (
            TestUserId::new(TestPath::from_test_path_string(path), user),
            content.to_string(),
        )
    });
    assert_eq!(have, want);
}

#[test]
fn run_message_parser_parse_message() {
    run_case(1, "test-1-bar.0 baz", Some(("bar", 0, "baz")));
    run_case(1, "test-1-bar.100 baz", Some(("bar", 100, "baz")));
    run_case(1, "test-00001-bar.0 baz", Some(("bar", 0, "baz")));
    run_case(0, "test-0-bar.0 baz", Some(("bar", 0, "baz")));
    run_case(0, "test-00-bar.0 baz", Some(("bar", 0, "baz")));
    run_case(0, "test-00-bar.0 baz", Some(("bar", 0, "baz")));
    run_case(0, "test-00-bar.abc baz", None);
    run_case(0, "test--bar.0 baz", None);
    run_case(1, "abcd-1-bar.0 baz", None);
    run_case(1, "test-2-bar.0 baz", None);
    run_case(2, "test-2-bar.0 baz", Some(("bar", 0, "baz")));
    run_case(2, "test-2-barbaz", None);
    run_case(2, "test-2-barbaz.0 ", Some(("barbaz", 0, "")));
}

fn instance_case(run: u64, name: &str, user: u64, msg: &str, want: Option<&str>) {
    let parser = RunMessageParser::new(run);
    let instance = TestUserId::new(TestPath::from_test_path_string(name), user);
    let have = InstanceMessageParser::new(parser, instance).parse(msg);
    assert_eq!(have, want.map(|m| m.to_string()));
}

#[test]
fn instance_message_parser_parse_message() {
    instance_case(1, "bar", 0, "test-1-bar.0 baz", Some("baz"));
    instance_case(1, "bar", 0, "test-1-bar.1 baz", None);
    instance_case(1, "foo", 0, "test-1-bar.0 baz", None);
}

#[test]
fn test_id_prefix() {
    let id = TestId::new(TestRunId::new(77), "the_test".into());
    let message = id.prefix_message(100, "the message");
    assert_eq!(message, "test-77-the_test.100 the message");
}

#[test]
fn test_run_id_prefix() {
    let run = TestRunId::new(77);
    let user = TestUserId::new(TestPath::from_test_path_string("the_test"), 100);
    let message = run.prefix_message(&user, "the message");
    assert_eq!(message, "test-77-the_test.100 the message");
}

#[test]
fn parse() {
    fn assert_some(input: &str, test_run: u64, test_name: &str, test_user: u64, text: &str) {
        let have = TestMessage::parse(input)
            .unwrap_or_else(|| panic!("failed to parse test message: `{}`", input));

        let want = TestMessage {
            text: text.into(),
            test_name: test_name.into(),
            test_run,
            test_user,
        };

        assert_eq!(have, want, "unexpected parse of test message `{}`", input);
    }

    assert_some("test-0-bar.1 baz", 0, "bar", 1, "baz");
    assert_some("test-0-bar.1 ", 0, "bar", 1, "");
    assert_some("test-0-bar.1", 0, "bar", 1, "");
    assert_some("test-2-a.3 b", 2, "a", 3, "b");
    assert_some("test-1-a.0 b", 1, "a", 0, "b");
    assert_some("test-1-bar.100 baz", 1, "bar", 100, "baz");
    assert_some("test-0-bar.0 baz", 0, "bar", 0, "baz");
    assert_some("test-00-bar.0 baz", 0, "bar", 0, "baz");
    assert_some("test-00001-bar.0 baz", 1, "bar", 0, "baz");

    assert_eq!(TestMessage::parse("abcd-0-bar.0 baz"), None);
    assert_eq!(TestMessage::parse("test-asdf-bar.0 baz"), None);
    assert_eq!(TestMessage::parse("test--bar.0 baz"), None);
    assert_eq!(TestMessage::parse("test-0-.0 baz"), None);
    assert_eq!(TestMessage::parse("test-0-bar baz"), None);
    assert_eq!(TestMessage::parse("test-0-bar. baz"), None);
    assert_eq!(TestMessage::parse("test-0-bar.a baz"), None);
    assert_eq!(TestMessage::parse("test-0-bar.a0 baz"), None);
}

#[test]
fn filter_keeps_only_matching_run_and_test() {
    let id = TestId::new(TestRunId::new(3), "walk".into());
    let wrapped = id.prefix_message(7, "hello there");
    let parsed = id.filter(&wrapped).expect("own message must filter through");
    assert_eq!(parsed.test_run, 3);
    assert_eq!(parsed.test_name, "walk");
    assert_eq!(parsed.test_user, 7);
    assert_eq!(parsed.text, "hello there");

    assert_eq!(id.filter("test-4-walk.7 hello there"), None);
    assert_eq!(id.filter("test-3-jump.7 hello there"), None);
    assert_eq!(TestRunId::new(9).filter("test-3-walk.7 hi"), None);
}

#[test]
fn oversized_numbers_do_not_parse() {
    assert_eq!(TestMessage::parse("test-99999999999999999999-bar.0 baz"), None);
    assert_eq!(TestMessage::parse("test-1-bar.99999999999999999999 baz"), None);
    assert_eq!(
        TestMessage::parse("test-18446744073709551615-bar.0 baz").map(|m| m.test_run),
        Some(u64::MAX)
    );
}

#[test]
fn test_user_id_accessors() {
    let user = TestUserId::new(TestPath::from_test_path_string("a_test"), 41);
    assert_eq!(user.number(), 41);
    assert_eq!(user.to_discord_user_id(), quwue::ids::UserId(41));
    assert_eq!(user.text(), "a_test.41");
}
