use templar::calendar::CalendarDate;
use templar::cli::{dispatch, parse_invocation, Outcome};
use templar::release::{Conf, Context, Release, Template};
use templar::value::StructuredValue;

fn text(s: &str) -> StructuredValue {
    StructuredValue::String(s.to_string())
}

fn table(entries: Vec<(&str, StructuredValue)>) -> StructuredValue {
    StructuredValue::Table(entries.into_iter().map(|(k, v)| (k.to_string(), v)).collect())
}

fn template(id: &str, content: StructuredValue) -> Template {
    Template::new(id.to_string(), content)
}

fn release_conf(name: &str, templates: Vec<Template>) -> Conf {
    Conf { releases: vec![Release { name: name.to_string(), templates }] }
}

fn default_conf() -> Conf {
    release_conf(
        "test",
        vec![template(
            "default",
            table(vec![
                ("region", text("LDN")),
                ("nowVersion", text("1")),
                ("nextVersion", text("2")),
                ("tweet", text("default tweet")),
            ]),
        )],
    )
}

fn today() -> CalendarDate {
    CalendarDate { year: 2026, month: 10, day: 19 }
}

fn run(conf: &Conf, args: &[&str]) -> Result<Outcome, String> {
    let mut all = vec!["--home".to_string(), "/tmp/templar-home".to_string()];
    all.extend(args.iter().map(|a| a.to_string()));
    let invocation = parse_invocation(all)?;
    assert_eq!(invocation.home.as_deref(), Some("/tmp/templar-home"));
    let mut general = invocation.general_args;
    dispatch(&mut general, invocation.command_args, conf, &today())
}

fn parsed(conf: &Conf, args: &[&str]) -> Context {
    match run(conf, args) {
        Ok(Outcome::Parsed(ctx)) => ctx,
        other => panic!("expected parsed parameters, got {:?}", other),
    }
}

fn rendered(conf: &Conf, args: &[&str]) -> String {
    match run(conf, args) {
        Ok(Outcome::Rendered(json)) => json,
        other => panic!("expected a rendered release, got {:?}", other),
    }
}

fn failure(conf: &Conf, args: &[&str]) -> String {
    match run(conf, args) {
        Err(e) => format!("error: {}", e),
        other => panic!("expected an error, got {:?}", other),
    }
}

fn assert_parsed_contains(args: &[&str], expected: &str) {
    let ctx = parsed(&default_conf(), args);
    let debug = format!("{:?}", ctx);
    assert!(debug.starts_with("Context { name: \"test\", "), "{}", debug);
    assert!(debug.contains(expected), "{}", debug);
}

#[test]
fn help() {
    for args in [&["-h"][..], &["-h", "--help"][..]] {
        match run(&default_conf(), args) {
            Ok(Outcome::Usage(usage)) => assert!(usage.contains("Usage:")),
            other => panic!("expected usage, got {:?}", other),
        }
    }
}

#[test]
fn version() {
    match run(&default_conf(), &["--version"]) {
        Ok(Outcome::Version) => {}
        other => panic!("expected the version, got {:?}", other),
    }
}

#[test]
fn release() {
    let ctx = parsed(&default_conf(), &["release", "test", "--parse"]);
    assert!(format!("{:?}", ctx).starts_with("Context { name: \"test\", "));
}

#[test]
fn parse_current_short_option_value() {
    assert_parsed_contains(&["release", "test", "-c", "1.1", "--parse"], "current_version: \"1.1\"");
}

#[test]
fn parse_current_long_option_value() {
    assert_parsed_contains(
        &["release", "test", "--current", "1.1", "--parse"],
        "current_version: \"1.1\"",
    );
}

#[test]
fn validate_missing_current_short_option_value() {
    let e = failure(&default_conf(), &["release", "test", "-c", "--parse"]);
    assert!(e.starts_with("error: Missing option value(s) for: -c"), "{}", e);
}

#[test]
fn validate_missing_current_long_option_value() {
    let e = failure(&default_conf(), &["release", "test", "--current", "--parse"]);
    assert!(e.starts_with("error: Missing option value(s) for: --current"), "{}", e);
}

#[test]
fn parse_next_short_option_value() {
    assert_parsed_contains(&["release", "test", "-n", "1.2", "--parse"], "next_version: \"1.2\"");
}

#[test]
fn parse_next_long_option_value() {
    assert_parsed_contains(&["release", "test", "--next", "1.2", "--parse"], "next_version: \"1.2\"");
}

#[test]
fn validate_missing_next_short_option_value() {
    let e = failure(&default_conf(), &["release", "test", "-n", "--parse"]);
    assert!(e.starts_with("error: Missing option value(s) for: -n"), "{}", e);
}

#[test]
fn validate_missing_next_long_option_value() {
    let e = failure(&default_conf(), &["release", "test", "--next", "--parse"]);
    assert!(e.starts_with("error: Missing option value(s) for: --next"), "{}", e);
}

#[test]
fn parse_tweet_short_option_value() {
    assert_parsed_contains(&["release", "test", "-t", "hello!", "--parse"], "tweet: \"hello!\"");
}

#[test]
fn parse_tweet_long_option_value() {
    assert_parsed_contains(&["release", "test", "--tweet", "hello!", "--parse"], "tweet: \"hello!\"");
}

#[test]
fn validate_missing_tweet_short_option_value() {
    let e = failure(&default_conf(), &["release", "test", "-t", "--parse"]);
    assert!(e.starts_with("error: Missing option value(s) for: -t"), "{}", e);
}

#[test]
fn validate_missing_tweet_long_option_value() {
    let e = failure(&default_conf(), &["release", "test", "--tweet", "--parse"]);
    assert!(e.starts_with("error: Missing option value(s) for: --tweet"), "{}", e);
}

#[test]
fn parse_pvt_short_option_value() {
    assert_parsed_contains(&["release", "test", "-p", "70-90", "--parse"], "pvt_line_range: \"70-90\"");
}

#[test]
fn parse_pvt_long_option_value() {
    assert_parsed_contains(
        &["release", "test", "--pvt-line-range", "70-90", "--parse"],
        "pvt_line_range: \"70-90\"",
    );
}

#[test]
fn validate_missing_pvt_short_option_value() {
    let e = failure(&default_conf(), &["release", "test", "-p", "--parse"]);
    assert!(e.starts_with("error: Missing option value(s) for: -p"), "{}", e);
}

#[test]
fn validate_missing_pvt_long_option_value() {
    let e = failure(&default_conf(), &["release", "test", "--pvt-line-range", "--parse"]);
    assert!(e.starts_with("error: Missing option value(s) for: --pvt-line-range"), "{}", e);
}

#[test]
fn parse_jiras_short_option_value() {
    assert_parsed_contains(
        &["release", "test", "-j", "JIRA-1", "JIRA-2", "--parse"],
        "jiras: [\"JIRA-1\", \"JIRA-2\"]",
    );
}

#[test]
fn parse_jiras_long_option_value() {
    assert_parsed_contains(
        &["release", "test", "--jiras", "JIRA-1", "JIRA-2", "--parse"],
        "jiras: [\"JIRA-1\", \"JIRA-2\"]",
    );
}

#[test]
fn validate_missing_jiras_short_option_value() {
    let e = failure(&default_conf(), &["release", "test", "-j", "--parse"]);
    assert!(e.starts_with("error: Missing option value(s) for: -j"), "{}", e);
}

#[test]
fn validate_missing_jiras_long_option_value() {
    let e = failure(&default_conf(), &["release", "test", "--jiras", "--parse"]);
    assert!(e.starts_with("error: Missing option value(s) for: --jiras"), "{}", e);
}

#[test]
fn parse_wip_jiras_short_option_value() {
    assert_parsed_contains(
        &["release", "test", "-w", "JIRA-1", "JIRA-2", "--parse"],
        "wip_jiras: [\"JIRA-1\", \"JIRA-2\"]",
    );
}

#[test]
fn parse_wip_jiras_long_option_value() {
    assert_parsed_contains(
        &["release", "test", "--wip-jiras", "JIRA-1", "JIRA-2", "--parse"],
        "wip_jiras: [\"JIRA-1\", \"JIRA-2\"]",
    );
}

#[test]
fn validate_missing_wip_jiras_short_option_value() {
    let e = failure(&default_conf(), &["release", "test", "-w", "--parse"]);
    assert!(e.starts_with("error: Missing option value(s) for: -w"), "{}", e);
}

#[test]
fn validate_missing_wip_jiras_long_option_value() {
    let e = failure(&default_conf(), &["release", "test", "--wip-jiras", "--parse"]);
    assert!(e.starts_with("error: Missing option value(s) for: --wip-jiras"), "{}", e);
}

#[test]
fn validate_unknown_release_name_during_arg_parsing() {
    let conf = release_conf("a_release", vec![template("default", table(vec![]))]);
    let e = failure(&conf, &["release", "unknown_release", "--parse"]);
    assert!(e.starts_with("error: Unknown release: unknown_release"), "{}", e);
}

#[test]
fn prints_release_template_without_variable_interpolation() {
    let conf = release_conf(
        "a_release",
        vec![template(
            "default",
            table(vec![("region", text("GLOBAL")), ("tweet", text("a_release tweet"))]),
        )],
    );
    let out = rendered(&conf, &["release", "a_release"]);
    assert!(out.contains("\"region\":\"GLOBAL\""), "{}", out);
    assert!(out.contains("\"tweet\":\"a_release tweet\""), "{}", out);
}

#[test]
fn prints_release_template_with_string_interpolation() {
    let conf = release_conf(
        "a_release",
        vec![template(
            "default",
            table(vec![
                ("now-version", text("{now-version}")),
                ("next-version", text("{next-version}")),
                ("tweet", text("{tweet}")),
                (
                    "business-verification",
                    StructuredValue::Array(vec![
                        text("This release is independent"),
                        text("PVT: https://github.com/kkarad/repos/templar/master/src/pvt.rs#{pvt-line-range}"),
                    ]),
                ),
            ]),
        )],
    );
    let out = rendered(
        &conf,
        &[
            "release", "a_release", "-c", "1.21", "-n", "1.22", "-t", "this is a tweet", "-p", "12-28",
        ],
    );
    assert!(out.contains("\"now-version\":\"1.21\""), "{}", out);
    assert!(out.contains("\"next-version\":\"1.22\""), "{}", out);
    assert!(out.contains("\"tweet\":\"this is a tweet\""), "{}", out);
    assert!(
        out.contains("\"PVT: https://github.com/kkarad/repos/templar/master/src/pvt.rs#12-28\""),
        "{}",
        out
    );
}

#[test]
fn prints_release_template_insert_empty_jiras() {
    let conf = release_conf("a_release", vec![template("default", table(vec![]))]);
    let out = rendered(&conf, &["release", "a_release"]);
    assert!(out.contains("\"jiras\":[]"), "{}", out);
    assert!(out.contains("\"wip-jiras\":[]"), "{}", out);
}

#[test]
fn prints_release_template_and_insert_release_date() {
    let conf = release_conf("a_release", vec![template("default", table(vec![]))]);
    let out = rendered(&conf, &["release", "a_release"]);
    let date = today().text();
    assert!(out.contains(&format!("\"release-date\":\"{}", date)), "{}", out);
}

#[test]
fn prints_release_template_and_populate_release_date() {
    let conf = release_conf("a_release", vec![template("default", table(vec![("release-date", text(""))]))]);
    let out = rendered(&conf, &["release", "a_release"]);
    let date = today().text();
    assert!(out.contains(&format!("\"release-date\":\"{}", date)), "{}", out);
}

#[test]
fn prints_release_template_insert_jiras() {
    let conf = release_conf("a_release", vec![template("default", table(vec![]))]);
    let out = rendered(&conf, &["release", "a_release", "-j", "JR-1", "JR-2", "-w", "JR-3", "JR-4"]);
    assert!(out.contains("\"jiras\":[\"JR-1\",\"JR-2\"]"), "{}", out);
    assert!(out.contains("\"wip-jiras\":[\"JR-3\",\"JR-4\"]"), "{}", out);
}

#[test]
fn prints_release_template_append_jiras() {
    let conf = release_conf(
        "a_release",
        vec![template(
            "default",
            table(vec![
                ("jiras", StructuredValue::Array(vec![text("JR-0")])),
                ("wip-jiras", StructuredValue::Array(vec![text("JR-5")])),
            ]),
        )],
    );
    let out = rendered(&conf, &["release", "a_release", "-j", "JR-1", "JR-2", "-w", "JR-3", "JR-4"]);
    assert!(out.contains("\"jiras\":[\"JR-0\",\"JR-1\",\"JR-2\"]"), "{}", out);
    assert!(out.contains("\"wip-jiras\":[\"JR-5\",\"JR-3\",\"JR-4\"]"), "{}", out);
}

#[test]
fn prints_multiple_release_templates_without_variable_interpolation() {
    let conf = release_conf(
        "a_release",
        vec![
            template(
                "default",
                table(vec![("region", text("GLOBAL")), ("tweet", text("a default tweet"))]),
            ),
            template(
                "external",
                table(vec![("region", text("GLOBAL")), ("tweet", text("an external tweet"))]),
            ),
        ],
    );
    let out = rendered(&conf, &["release", "a_release"]);
    assert!(out.contains("[{"), "{}", out);
    assert!(out.contains("\"region\":\"GLOBAL\""), "{}", out);
    assert!(out.contains("\"tweet\":\"a default tweet\""), "{}", out);
    // Templates are separated by a bare comma: the output is compact JSON.
    assert!(out.contains("},{"), "{}", out);
    assert!(out.contains("\"tweet\":\"an external tweet\""), "{}", out);
    assert!(out.contains("}]"), "{}", out);
    let first = out.find("a default tweet").unwrap();
    let second = out.find("an external tweet").unwrap();
    assert!(first < second);
}
