use templar::calendar::CalendarDate;
use templar::cli::{dispatch, handle_release, parse_invocation, release_context, Outcome};
use templar::conf::default_conf;
use templar::convert::{convert, interpolate, offsets_valid, RenderError};
use templar::inject::inject;
use templar::json::to_json;
use templar::option::{find, find_long, find_long_value, find_value, find_values, split_args};
use templar::release::{Conf, Console, Context, Release, Template};
use templar::text::{decimal_text, padded_decimal_text, replace_all, signed_decimal_text, text_equal};
use templar::usage;
use templar::value::{
    JsonNumber, JsonValue, StructuredValue, Timestamp, TimestampDate, TimestampOffset, TimestampTime,
};

fn strings(items: &[&str]) -> Vec<String> {
    items.iter().map(|s| s.to_string()).collect()
}

fn text(s: &str) -> StructuredValue {
    StructuredValue::String(s.to_string())
}

fn table(entries: Vec<(&str, StructuredValue)>) -> StructuredValue {
    StructuredValue::Table(entries.into_iter().map(|(k, v)| (k.to_string(), v)).collect())
}

fn context(jiras: &[&str], wip: &[&str]) -> Context {
    Context::new(
        "a_release".to_string(),
        "1.0".to_string(),
        "1.1".to_string(),
        "hello!".to_string(),
        "10-20".to_string(),
        strings(jiras),
        strings(wip),
    )
}

fn day() -> CalendarDate {
    CalendarDate { year: 2024, month: 3, day: 5 }
}

fn json(value: &StructuredValue, ctx: &Context) -> String {
    to_json(&convert(value, ctx).unwrap())
}

#[test]
fn interpolation_leaves_text_without_placeholders() {
    let ctx = context(&[], &[]);
    let s = "plain {unknown} text, {tweet without brace";
    assert_eq!(interpolate(s, &ctx), s);
    assert_eq!(interpolate("", &ctx), "");
}

#[test]
fn interpolation_replaces_every_placeholder() {
    let ctx = context(&[], &[]);
    assert_eq!(
        interpolate("{now-version}->{next-version} {tweet} #{pvt-line-range} {tweet}", &ctx),
        "1.0->1.1 hello! #10-20 hello!"
    );
    assert_eq!(interpolate("{current-version}", &ctx), "{current-version}");
}

#[test]
fn replacement_does_not_overlap() {
    assert_eq!(replace_all("aaaa", "aa", "b"), "bb");
    assert_eq!(replace_all("aaa", "aa", "b"), "ba");
    assert_eq!(replace_all("xyz", "q", "b"), "xyz");
    assert_eq!(replace_all("héllo wörld", "ö", "o"), "héllo world");
}

#[test]
fn tweet_placeholder_renders_context_tweet() {
    let ctx = context(&[], &[]);
    let content = table(vec![("tweet", text("{tweet}"))]);
    assert_eq!(json(&content, &ctx), "{\"tweet\":\"hello!\"}");
    let printed = Template::new("default".to_string(), content).print(&ctx, &day()).unwrap();
    assert!(printed.starts_with("{\"tweet\":\"hello!\""), "{}", printed);
}

#[test]
fn conversion_keeps_shape_and_order() {
    let ctx = context(&[], &[]);
    let content = table(vec![
        ("zeta", StructuredValue::Integer(-42)),
        ("alpha", StructuredValue::Boolean(true)),
        ("list", StructuredValue::Array(vec![StructuredValue::Integer(1), text("x"), StructuredValue::Array(vec![])])),
        ("nested", table(vec![("b", StructuredValue::Float(Some("1.5".to_string()))), ("a", text("{next-version}"))])),
    ]);
    assert_eq!(
        json(&content, &ctx),
        "{\"zeta\":-42,\"alpha\":true,\"list\":[1,\"x\",[]],\"nested\":{\"b\":1.5,\"a\":\"1.1\"}}"
    );
    match convert(&content, &ctx).unwrap() {
        JsonValue::Object(entries) => {
            let keys: Vec<&str> = entries.iter().map(|(k, _)| k.as_str()).collect();
            assert_eq!(keys, vec!["zeta", "alpha", "list", "nested"]);
            match &entries[2].1 {
                JsonValue::Array(items) => assert_eq!(items.len(), 3),
                other => panic!("expected an array, got {:?}", other),
            }
        }
        other => panic!("expected an object, got {:?}", other),
    }
}

#[test]
fn integers_render_exactly() {
    assert_eq!(signed_decimal_text(0), "0");
    assert_eq!(signed_decimal_text(-7), "-7");
    assert_eq!(signed_decimal_text(i64::MAX), "9223372036854775807");
    assert_eq!(signed_decimal_text(i64::MIN), "-9223372036854775808");
    assert_eq!(decimal_text(1024), "1024");
    assert_eq!(padded_decimal_text(7, 2), "07");
    assert_eq!(padded_decimal_text(12345, 4), "12345");
    assert_eq!(to_json(&JsonValue::Number(JsonNumber::Integer(-3))), "-3");
}

#[test]
fn strings_are_quoted_and_escaped() {
    let value = JsonValue::String("say \"hi\"\n\\ é".to_string());
    assert_eq!(to_json(&value), "\"say \\\"hi\\\"\\n\\\\ é\"");
    assert_eq!(to_json(&JsonValue::Null), "null");
    assert_eq!(to_json(&JsonValue::Bool(false)), "false");
}

#[test]
fn timestamps_render_as_text() {
    let ctx = context(&[], &[]);
    let full = Timestamp {
        date: Some(TimestampDate { year: 1979, month: 5, day: 27 }),
        time: Some(TimestampTime { hour: 0, minute: 32, second: Some(0), nanosecond: Some(999_999_000) }),
        offset: Some(TimestampOffset::Custom { minutes: -420 }),
    };
    assert_eq!(json(&StructuredValue::Timestamp(full), &ctx), "\"1979-05-27T00:32:00.999999-07:00\"");
    let date_only = Timestamp { date: Some(TimestampDate { year: 2020, month: 1, day: 1 }), time: None, offset: None };
    assert_eq!(json(&StructuredValue::Timestamp(date_only), &ctx), "\"2020-01-01\"");
    let utc = Timestamp {
        date: Some(TimestampDate { year: 1979, month: 5, day: 27 }),
        time: Some(TimestampTime { hour: 7, minute: 32, second: Some(0), nanosecond: None }),
        offset: Some(TimestampOffset::Z),
    };
    assert_eq!(json(&StructuredValue::Timestamp(utc), &ctx), "\"1979-05-27T07:32:00Z\"");
}

#[test]
fn invalid_float_fails_conversion() {
    let ctx = context(&[], &[]);
    let nan = table(vec![("ok", text("x")), ("bad", StructuredValue::Array(vec![StructuredValue::Float(None)]))]);
    assert_eq!(convert(&nan, &ctx).unwrap_err(), RenderError::InvalidNumber);
    assert!(RenderError::InvalidNumber.message().contains("Invalid number"));
}

#[test]
fn invalid_float_aborts_the_whole_release() {
    let ctx = context(&[], &[]);
    let templates = vec![
        Template::new("default".to_string(), table(vec![("a", text("x"))])),
        Template::new("external".to_string(), table(vec![("n", StructuredValue::Float(None))])),
    ];
    assert_eq!(Console::new().render(&templates, &ctx, &day()), Err(RenderError::InvalidNumber));
    let conf = Conf { releases: vec![Release { name: "a_release".to_string(), templates }] };
    let mut args = strings(&["a_release"]);
    match handle_release(&conf, &mut args, &day()) {
        Err(e) => assert!(e.contains("Invalid number"), "{}", e),
        other => panic!("expected an error, got {:?}", other),
    }
}

#[test]
fn jiras_are_created_then_appended() {
    let ctx = context(&["JR-1", "JR-2"], &[]);
    let fresh = inject(convert(&table(vec![]), &ctx).unwrap(), &ctx, "2024-03-05");
    assert_eq!(
        to_json(&fresh),
        "{\"jiras\":[\"JR-1\",\"JR-2\"],\"wip-jiras\":[],\"release-date\":\"2024-03-05\"}"
    );
    let content = table(vec![("jiras", StructuredValue::Array(vec![text("JR-0")]))]);
    let appended = inject(convert(&content, &ctx).unwrap(), &ctx, "2024-03-05");
    assert!(to_json(&appended).contains("\"jiras\":[\"JR-0\",\"JR-1\",\"JR-2\"]"));
}

#[test]
fn jiras_that_are_not_a_list_stay() {
    let ctx = context(&["JR-1"], &[]);
    let content = table(vec![("jiras", text("none"))]);
    let out = to_json(&inject(convert(&content, &ctx).unwrap(), &ctx, "2024-03-05"));
    assert!(out.starts_with("{\"jiras\":\"none\",\"wip-jiras\":[]"), "{}", out);
}

#[test]
fn release_date_is_filled_only_when_empty() {
    let ctx = context(&[], &[]);
    let empty = table(vec![("release-date", text(""))]);
    let out = to_json(&inject(convert(&empty, &ctx).unwrap(), &ctx, "2024-03-05"));
    assert_eq!(out, "{\"release-date\":\"2024-03-05\",\"jiras\":[],\"wip-jiras\":[]}");
    let fixed = table(vec![("release-date", text("2020-01-01"))]);
    let out = to_json(&inject(convert(&fixed, &ctx).unwrap(), &ctx, "2024-03-05"));
    assert!(out.contains("\"release-date\":\"2020-01-01\""), "{}", out);
    assert!(!out.contains("2024-03-05"), "{}", out);
}

#[test]
fn nested_tables_get_no_injection() {
    let ctx = context(&["JR-1"], &[]);
    let content = table(vec![("inner", table(vec![]))]);
    let out = to_json(&inject(convert(&content, &ctx).unwrap(), &ctx, "2024-03-05"));
    assert!(out.starts_with("{\"inner\":{},"), "{}", out);
    let list = StructuredValue::Array(vec![text("a")]);
    assert_eq!(to_json(&inject(convert(&list, &ctx).unwrap(), &ctx, "2024-03-05")), "[\"a\"]");
}

#[test]
fn templates_render_in_declared_order() {
    let ctx = context(&[], &[]);
    let templates = vec![
        Template::new("default".to_string(), table(vec![("id", text("default"))])),
        Template::new("external".to_string(), table(vec![("id", text("external"))])),
    ];
    let out = Console::new().render(&templates, &ctx, &day()).unwrap();
    assert_eq!(
        out,
        "[{\"id\":\"default\",\"jiras\":[],\"wip-jiras\":[],\"release-date\":\"2024-03-05\"},\
         {\"id\":\"external\",\"jiras\":[],\"wip-jiras\":[],\"release-date\":\"2024-03-05\"}]"
    );
    assert_eq!(Console::new().render(&vec![], &ctx, &day()).unwrap(), "[]");
}

#[test]
fn calendar_dates_from_seconds() {
    let epoch = CalendarDate::from_unix_seconds(0);
    assert_eq!(epoch, CalendarDate { year: 1970, month: 1, day: 1 });
    assert_eq!(CalendarDate::from_unix_seconds(951_782_400).text(), "2000-02-29");
    assert_eq!(CalendarDate::from_unix_seconds(951_868_799).text(), "2000-02-29");
    assert_eq!(CalendarDate::from_unix_seconds(951_868_800).text(), "2000-03-01");
    assert_eq!(CalendarDate::from_unix_seconds(1_700_000_000).text(), "2023-11-14");
    assert_eq!(CalendarDate::from_unix_seconds(1_704_067_199).text(), "2023-12-31");
    assert_eq!(CalendarDate { year: 99, month: 1, day: 5 }.text(), "0099-01-05");
}

#[test]
fn options_are_found_and_taken_out() {
    let mut args = strings(&["name", "-j", "A", "B", "-x", "--flag"]);
    assert_eq!(find_values(&mut args, "-j", "--jiras"), Ok(Some(strings(&["A", "B"]))));
    assert_eq!(args, strings(&["name", "-x", "--flag"]));
    assert_eq!(find_long(&mut args, "--flag"), Ok(true));
    assert_eq!(args, strings(&["name", "-x", "--flag"]));
    assert_eq!(find(&mut args, "-y", "--yes"), Ok(false));
    let mut args = strings(&["--current", "1", "2"]);
    assert_eq!(find_value(&mut args, "-c", "--current"), Ok(Some("1".to_string())));
    assert_eq!(args, strings(&["2"]));
    let mut args = strings(&["--home", "-v"]);
    assert_eq!(
        find_long_value(&mut args, "--home"),
        Err("Missing option value(s) for: --home".to_string())
    );
    assert_eq!(args, strings(&["--home", "-v"]));
    let mut args = strings(&["", "x"]);
    assert_eq!(find(&mut args, "", "--long"), Ok(false));
}

#[test]
fn arguments_split_at_the_first_command() {
    let commands = strings(&["release"]);
    let (general, command) = split_args(strings(&["--home", "h", "release", "r", "release"]), commands.clone());
    assert_eq!(general, strings(&["--home", "h"]));
    assert_eq!(command, strings(&["release", "r", "release"]));
    let (general, command) = split_args(strings(&["-h"]), commands);
    assert_eq!(general, strings(&["-h"]));
    assert!(command.is_empty());
}

#[test]
fn release_context_uses_defaults() {
    let mut args = strings(&["a_release"]);
    let ctx = release_context(&mut args).unwrap();
    assert_eq!(ctx.name, "a_release");
    assert_eq!(ctx.current_version, "1");
    assert_eq!(ctx.next_version, "2");
    assert_eq!(ctx.tweet, "default tweet");
    assert_eq!(ctx.pvt_line_range, "10-20");
    assert!(ctx.jiras.is_empty() && ctx.wip_jiras.is_empty());
}

#[test]
fn first_release_of_a_name_wins() {
    let conf = Conf {
        releases: vec![
            Release { name: "r".to_string(), templates: vec![] },
            Release {
                name: "r".to_string(),
                templates: vec![Template::new("t".to_string(), table(vec![]))],
            },
        ],
    };
    assert!(conf.release("r").unwrap().templates().is_empty());
    assert!(conf.release("s").is_none());
}

#[test]
fn commands_are_checked() {
    let conf = Conf { releases: vec![] };
    let mut general = strings(&[]);
    assert_eq!(dispatch(&mut general, strings(&[]), &conf, &day()).unwrap_err(), "No command specified");
    let e = dispatch(&mut general, strings(&["deploy"]), &conf, &day()).unwrap_err();
    assert_eq!(e, "Unknown command 'deploy'");
    let e = dispatch(&mut general, strings(&["release"]), &conf, &day()).unwrap_err();
    assert_eq!(e, "Release name is missing");
    match dispatch(&mut general, strings(&["release", "--help"]), &conf, &day()) {
        Ok(Outcome::Usage(u)) => assert_eq!(u, usage::release()),
        other => panic!("expected usage, got {:?}", other),
    }
}

#[test]
fn texts_compare_by_characters() {
    assert!(text_equal("abc", "abc"));
    assert!(!text_equal("abc", "abd"));
    assert!(!text_equal("ab", "abc"));
    assert!(default_conf().starts_with("# Templar Configuration"));
    assert!(usage::main().contains("Usage: templar"));
}

#[test]
fn home_option_is_taken_before_the_command() {
    let inv = parse_invocation(strings(&["-h", "release", "--home", "x"])).unwrap();
    assert!(inv.home.is_none());
    assert_eq!(inv.general_args, strings(&["-h"]));
    assert_eq!(inv.command_args, strings(&["release", "--home", "x"]));
    let inv = parse_invocation(strings(&["--home", "/h", "--version"])).unwrap();
    assert_eq!(inv.home, Some("/h".to_string()));
    assert_eq!(inv.general_args, strings(&["--version"]));
    assert!(inv.command_args.is_empty());
    let e = parse_invocation(strings(&["--home", "--version"])).unwrap_err();
    assert_eq!(e, "Missing option value(s) for: --home");
}

#[test]
fn control_characters_are_escaped() {
    let value = JsonValue::String("\u{1}\t\u{8}\u{c}\r/\u{1f}".to_string());
    assert_eq!(to_json(&value), "\"\\u0001\\t\\b\\f\\r/\\u001f\"");
}

#[test]
fn fractions_and_seconds_follow_toml() {
    let ctx = context(&[], &[]);
    let t = Timestamp {
        date: None,
        time: Some(TimestampTime { hour: 7, minute: 32, second: None, nanosecond: Some(0) }),
        offset: None,
    };
    assert_eq!(json(&StructuredValue::Timestamp(t), &ctx), "\"07:32:00.0\"");
    let t = Timestamp {
        date: None,
        time: Some(TimestampTime { hour: 7, minute: 32, second: None, nanosecond: None }),
        offset: Some(TimestampOffset::Custom { minutes: 90 }),
    };
    assert_eq!(json(&StructuredValue::Timestamp(t), &ctx), "\"07:32+01:30\"");
}

#[test]
fn offsets_out_of_range_are_refused() {
    let bad = Timestamp {
        date: Some(TimestampDate { year: 2020, month: 1, day: 1 }),
        time: None,
        offset: Some(TimestampOffset::Custom { minutes: i16::MIN }),
    };
    let content = table(vec![("when", StructuredValue::Array(vec![StructuredValue::Timestamp(bad)]))]);
    assert!(!offsets_valid(&content));
    let edge = Timestamp { offset: Some(TimestampOffset::Custom { minutes: -1440 }), ..bad };
    assert!(offsets_valid(&StructuredValue::Timestamp(edge)));
    let over = Timestamp { offset: Some(TimestampOffset::Custom { minutes: 1440 }), ..bad };
    assert!(!offsets_valid(&StructuredValue::Timestamp(over)));
    let conf = Conf {
        releases: vec![Release {
            name: "a_release".to_string(),
            templates: vec![Template::new("default".to_string(), content)],
        }],
    };
    let mut args = strings(&["a_release"]);
    assert_eq!(
        handle_release(&conf, &mut args, &day()).unwrap_err(),
        "Invalid timestamp: offset out of range"
    );
}
