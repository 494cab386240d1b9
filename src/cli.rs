use vstd::prelude::*;

use crate::calendar::{date_text, CalendarDate};
use crate::convert::{invalid_number_message, invalid_offset, invalid_offset_message};
use crate::option::{
    find, find_long, find_long_value, find_value, find_values, first_command_at, lemma_values_from_bound,
    missing_value_message, option_index, split_args, values_from, without_option,
};
use crate::release::{
    all_offsets_in_range, first_release_at, release_text, some_invalid_number,
    templates_offsets_valid, Conf, Console, Context,
};
use crate::usage::{MAIN_USAGE, RELEASE_USAGE};

verus! {

broadcast use vstd::std_specs::vec::group_vec_axioms, vstd::seq::group_seq_axioms;

/// What an invocation asks to be shown.
#[derive(Debug)]
pub enum Outcome {
    /// A usage text.
    Usage(String),
    /// The version of the tool.
    Version,
    /// The release parameters, without rendering.
    Parsed(Context),
    /// The rendered release: a JSON array.
    Rendered(String),
}

/// The general options, split from the command and its arguments.
#[derive(Debug)]
pub struct Invocation {
    /// The home directory given by `--home`.
    pub home: Option<String>,
    pub general_args: Vec<String>,
    pub command_args: Vec<String>,
}

/// The short form of the `k`-th option of the `release` command.
pub open spec fn release_option_short(k: int) -> Seq<char> {
    if k == 0 {
        "-c"@
    } else if k == 1 {
        "-n"@
    } else if k == 2 {
        "-t"@
    } else if k == 3 {
        "-p"@
    } else if k == 4 {
        "-j"@
    } else {
        "-w"@
    }
}

/// The long form of the `k`-th option of the `release` command.
pub open spec fn release_option_long(k: int) -> Seq<char> {
    if k == 0 {
        "--current"@
    } else if k == 1 {
        "--next"@
    } else if k == 2 {
        "--tweet"@
    } else if k == 3 {
        "--pvt-line-range"@
    } else if k == 4 {
        "--jiras"@
    } else {
        "--wip-jiras"@
    }
}

/// Whether the `k`-th option of the `release` command takes a list of values.
pub open spec fn release_option_is_list(k: int) -> bool {
    k >= 4
}

/// What a lookup of an option finds: `None` where it is absent, else the
/// values after it (one at most, unless it takes a list).
pub open spec fn found_values(args: Seq<String>, short: Seq<char>, long: Seq<char>, list: bool) -> Option<
    Seq<String>,
> {
    let i = option_index(args, short, long);
    let all = values_from(args, i + 1) as int;
    let n = if !list && all > 1 {
        1
    } else {
        all
    };
    if i < 0 {
        None
    } else {
        Some(args.subrange(i + 1, i + 1 + n))
    }
}

/// The arguments after a lookup: without the option and its values where
/// it found some, else as they were.
pub open spec fn left_after(args: Seq<String>, short: Seq<char>, long: Seq<char>, list: bool) -> Seq<
    String,
> {
    match found_values(args, short, long, list) {
        Some(v) => if v.len() > 0 {
            without_option(args, option_index(args, short, long), v.len() as int)
        } else {
            args
        },
        None => args,
    }
}

/// The arguments before the `k`-th lookup of the `release` command.
pub open spec fn stage(args: Seq<String>, k: int) -> Seq<String>
    decreases k,
{
    if k <= 0 {
        args
    } else {
        let prev = stage(args, k - 1);
        left_after(
            prev,
            release_option_short(k - 1),
            release_option_long(k - 1),
            release_option_is_list(k - 1),
        )
    }
}

/// What the `k`-th lookup of the `release` command finds.
pub open spec fn found(args: Seq<String>, k: int) -> Option<Seq<String>> {
    found_values(
        stage(args, k),
        release_option_short(k),
        release_option_long(k),
        release_option_is_list(k),
    )
}

/// The error of the first lookup, from the `k`-th on, that finds its option
/// without a value.
pub open spec fn lookup_error(args: Seq<String>, k: int) -> Option<Seq<char>>
    decreases 6 - k,
{
    if k >= 6 {
        None
    } else if found(args, k) matches Some(v) && v.len() == 0 {
        let s = stage(args, k);
        Some(
            missing_value_message(
                s[option_index(s, release_option_short(k), release_option_long(k))]@,
            ),
        )
    } else {
        lookup_error(args, k + 1)
    }
}

/// The first value found, or the default.
pub open spec fn value_or(f: Option<Seq<String>>, default: Seq<char>) -> Seq<char> {
    match f {
        Some(v) => if v.len() > 0 {
            v[0]@
        } else {
            default
        },
        None => default,
    }
}

/// The values found, or none.
pub open spec fn values_or_none(f: Option<Seq<String>>) -> Seq<String> {
    match f {
        Some(v) => v,
        None => Seq::empty(),
    }
}

/// Whether `ctx` holds the release parameters that the arguments give:
/// the first argument as the name, each option's value or its default.
pub open spec fn context_of(args: Seq<String>, ctx: Context) -> bool {
    &&& ctx.name@ == args[0]@
    &&& ctx.current_version@ == value_or(found(args, 0), "1"@)
    &&& ctx.next_version@ == value_or(found(args, 1), "2"@)
    &&& ctx.tweet@ == value_or(found(args, 2), "default tweet"@)
    &&& ctx.pvt_line_range@ == value_or(found(args, 3), "10-20"@)
    &&& ctx.jiras@ == values_or_none(found(args, 4))
    &&& ctx.wip_jiras@ == values_or_none(found(args, 5))
}

/// Takes a single-valued option out of the arguments, or its default.
fn value_option(args: &mut Vec<String>, short: &str, long: &str, default: &str) -> (r: Result<
    String,
    String,
>)
    ensures
        ({
            let f = found_values(old(args)@, short@, long@, false);
            if f matches Some(v) && v.len() == 0 {
                r matches Err(e) && e@ == missing_value_message(
                    old(args)@[option_index(old(args)@, short@, long@)]@,
                )
            } else {
                r matches Ok(s) && s@ == value_or(f, default@) && final(args)@ == left_after(
                    old(args)@,
                    short@,
                    long@,
                    false,
                )
            }
        }),
{
    match find_value(args, short, long) {
        Ok(Some(v)) => Ok(v),
        Ok(None) => Ok(default.to_owned()),
        Err(e) => Err(e),
    }
}

/// Takes a list option out of the arguments, or none.
fn list_option(args: &mut Vec<String>, short: &str, long: &str) -> (r: Result<Vec<String>, String>)
    ensures
        ({
            let f = found_values(old(args)@, short@, long@, true);
            if f matches Some(v) && v.len() == 0 {
                r matches Err(e) && e@ == missing_value_message(
                    old(args)@[option_index(old(args)@, short@, long@)]@,
                )
            } else {
                r matches Ok(v) && v@ == values_or_none(f) && final(args)@ == left_after(
                    old(args)@,
                    short@,
                    long@,
                    true,
                )
            }
        }),
{
    proof {
        let i = option_index(args@, short@, long@);
        if i >= 0 {
            lemma_values_from_bound(args@, i + 1);
        }
    }
    match find_values(args, short, long) {
        Ok(Some(v)) => Ok(v),
        Ok(None) => Ok(Vec::new()),
        Err(e) => Err(e),
    }
}

/// The release parameters that the arguments of the `release` command give,
/// the release name first. Each option found is taken out of the arguments.
pub fn release_context(args: &mut Vec<String>) -> (r: Result<Context, String>)
    requires
        old(args)@.len() > 0,
    ensures
        r is Err <==> lookup_error(old(args)@, 0) is Some,
        r matches Err(e) ==> e@ == lookup_error(old(args)@, 0)->Some_0,
        r matches Ok(ctx) ==> context_of(old(args)@, ctx) && final(args)@ == stage(old(args)@, 6),
{
    let ghost a0 = args@;
    proof {
        reveal_strlit("-c");
        reveal_strlit("--current");
        reveal_strlit("-n");
        reveal_strlit("--next");
        reveal_strlit("-t");
        reveal_strlit("--tweet");
        reveal_strlit("-p");
        reveal_strlit("--pvt-line-range");
        reveal_strlit("-j");
        reveal_strlit("--jiras");
        reveal_strlit("-w");
        reveal_strlit("--wip-jiras");
        reveal_strlit("1");
        reveal_strlit("2");
        reveal_strlit("default tweet");
        reveal_strlit("10-20");
        reveal_with_fuel(stage, 7);
        reveal_with_fuel(lookup_error, 7);
        assert("-c"@ =~= release_option_short(0));
        assert("--current"@ =~= release_option_long(0));
        assert("-n"@ =~= release_option_short(1));
        assert("--next"@ =~= release_option_long(1));
        assert("-t"@ =~= release_option_short(2));
        assert("--tweet"@ =~= release_option_long(2));
        assert("-p"@ =~= release_option_short(3));
        assert("--pvt-line-range"@ =~= release_option_long(3));
        assert("-j"@ =~= release_option_short(4));
        assert("--jiras"@ =~= release_option_long(4));
        assert("-w"@ =~= release_option_short(5));
        assert("--wip-jiras"@ =~= release_option_long(5));
    }
    let name = args[0].clone();
    let current_version = value_option(args, "-c", "--current", "1")?;
    assert(args@ == stage(a0, 1));
    let next_version = value_option(args, "-n", "--next", "2")?;
    assert(args@ == stage(a0, 2));
    let tweet = value_option(args, "-t", "--tweet", "default tweet")?;
    assert(args@ == stage(a0, 3));
    let pvt_line_range = value_option(args, "-p", "--pvt-line-range", "10-20")?;
    assert(args@ == stage(a0, 4));
    let jiras = list_option(args, "-j", "--jiras")?;
    assert(args@ == stage(a0, 5));
    let wip_jiras = list_option(args, "-w", "--wip-jiras")?;
    assert(args@ == stage(a0, 6));
    Ok(Context::new(name, current_version, next_version, tweet, pvt_line_range, jiras, wip_jiras))
}

/// What the `release` command gives for its arguments: its usage where
/// help is asked for; an error for a missing or unknown release name, or for
/// an option without a value; the parameters where `--parse` is given; an
/// error for a timestamp offset out of range; else the first release of that
/// name rendered with them.
pub open spec fn release_outcome(
    conf: Conf,
    args: Seq<String>,
    today: CalendarDate,
    r: Result<Outcome, String>,
) -> bool {
    if option_index(args, "-h"@, "--help"@) >= 0 {
        r matches Ok(Outcome::Usage(t)) && t@ == RELEASE_USAGE@
    } else if args.len() == 0 {
        r matches Err(e) && e@ == "Release name is missing"@
    } else if forall|i: int|
        0 <= i < conf.releases.len() ==> #[trigger] conf.releases[i].name@ != args[0]@ {
        r matches Err(e) && e@ == "Unknown release: "@ + args[0]@
    } else if lookup_error(args, 0) is Some {
        r matches Err(e) && e@ == lookup_error(args, 0)->Some_0
    } else if option_index(stage(args, 6), Seq::empty(), "--parse"@) >= 0 {
        r matches Ok(Outcome::Parsed(ctx)) && context_of(args, ctx)
    } else {
        exists|k: int|
            #![trigger first_release_at(conf.releases@, args[0]@, k)]
            first_release_at(conf.releases@, args[0]@, k) && {
                let templates = conf.releases[k].templates@;
                if !all_offsets_in_range(templates) {
                    r matches Err(e) && e@ == invalid_offset_message()
                } else if some_invalid_number(templates) {
                    r matches Err(e) && e@ == invalid_number_message()
                } else {
                    r matches Ok(Outcome::Rendered(t)) && exists|ctx: Context|
                        context_of(args, ctx) && t@ == release_text(
                            templates,
                            ctx,
                            date_text(today),
                        )
                }
            }
    }
}

/// Runs the `release` command on its arguments, the release name first.
pub fn handle_release(conf: &Conf, args: &mut Vec<String>, today: &CalendarDate) -> (r: Result<
    Outcome,
    String,
>)
    ensures
        release_outcome(*conf, old(args)@, *today, r),
{
    let ghost a0 = args@;
    proof {
        reveal_strlit("");
        reveal_strlit("-h");
        reveal_strlit("--help");
        reveal_strlit("--parse");
        reveal_strlit("Release name is missing");
        reveal_strlit("Unknown release: ");
        assert(""@ =~= Seq::<char>::empty());
    }
    let help = match find(args, "-h", "--help") {
        Ok(b) => b,
        Err(e) => {
            return Err(e);
        },
    };
    if help {
        return Ok(Outcome::Usage(crate::usage::release()));
    }
    if args.len() == 0 {
        return Err("Release name is missing".to_owned());
    }
    let release = match conf.release(args[0].as_str()) {
        Some(release) => release,
        None => {
            let mut message = "Unknown release: ".to_owned();
            message.append(args[0].as_str());
            return Err(message);
        },
    };
    let ghost k = choose|k: int|
        first_release_at(conf.releases@, a0[0]@, k) && *release == conf.releases[k];
    let ctx = match release_context(args) {
        Ok(ctx) => ctx,
        Err(e) => {
            return Err(e);
        },
    };
    let parse = match find_long(args, "--parse") {
        Ok(b) => b,
        Err(e) => {
            return Err(e);
        },
    };
    if parse {
        return Ok(Outcome::Parsed(ctx));
    }
    if !templates_offsets_valid(release.templates()) {
        assert(first_release_at(conf.releases@, a0[0]@, k));
        return Err(invalid_offset());
    }
    let console = Console::new();
    match console.render(release.templates(), &ctx, today) {
        Ok(text) => {
            assert(first_release_at(conf.releases@, a0[0]@, k));
            Ok(Outcome::Rendered(text))
        },
        Err(e) => {
            assert(first_release_at(conf.releases@, a0[0]@, k));
            Err(e.message())
        },
    }
}

/// What an invocation gives, once the configuration is read: the tool's
/// usage, its version, or what its command gives.
pub open spec fn dispatch_outcome(
    general_args: Seq<String>,
    command_args: Seq<String>,
    conf: Conf,
    today: CalendarDate,
    r: Result<Outcome, String>,
) -> bool {
    if option_index(general_args, "-h"@, "--help"@) >= 0 {
        r matches Ok(Outcome::Usage(t)) && t@ == MAIN_USAGE@
    } else if option_index(general_args, Seq::empty(), "--version"@) >= 0 {
        r matches Ok(Outcome::Version)
    } else if command_args.len() == 0 {
        r matches Err(e) && e@ == "No command specified"@
    } else if command_args[0]@ == "release"@ {
        release_outcome(conf, command_args.drop_first(), today, r)
    } else {
        r matches Err(e) && e@ == "Unknown command '"@ + command_args[0]@ + "'"@
    }
}

/// Runs an invocation once the configuration is read.
pub fn dispatch(
    general_args: &mut Vec<String>,
    command_args: Vec<String>,
    conf: &Conf,
    today: &CalendarDate,
) -> (r: Result<Outcome, String>)
    ensures
        dispatch_outcome(old(general_args)@, command_args@, *conf, *today, r),
{
    proof {
        reveal_strlit("");
        reveal_strlit("-h");
        reveal_strlit("--help");
        reveal_strlit("--version");
        reveal_strlit("No command specified");
        reveal_strlit("release");
        reveal_strlit("Unknown command '");
        reveal_strlit("'");
        assert(""@ =~= Seq::<char>::empty());
    }
    let help = match find(general_args, "-h", "--help") {
        Ok(b) => b,
        Err(e) => {
            return Err(e);
        },
    };
    if help {
        return Ok(Outcome::Usage(crate::usage::main()));
    }
    let version = match find_long(general_args, "--version") {
        Ok(b) => b,
        Err(e) => {
            return Err(e);
        },
    };
    if version {
        return Ok(Outcome::Version);
    }
    if command_args.len() == 0 {
        return Err("No command specified".to_owned());
    }
    let mut args = command_args;
    let command = args.remove(0);
    if crate::text::text_equal(command.as_str(), "release") {
        assert(args@ =~= command_args@.drop_first());
        handle_release(conf, &mut args, today)
    } else {
        let mut message = "Unknown command '".to_owned();
        message.append(command.as_str());
        message.append("'");
        Err(message)
    }
}

/// Whether `i` is the first position of the `release` command.
pub open spec fn release_command_at(args: Seq<String>, i: int) -> bool {
    &&& 0 <= i < args.len()
    &&& args[i]@ == "release"@
    &&& forall|j: int| 0 <= j < i ==> #[trigger] args[j]@ != "release"@
}

/// The position where the command starts: the first `release`, or the end.
pub open spec fn command_start(args: Seq<String>) -> int {
    if exists|i: int| release_command_at(args, i) {
        choose|i: int| release_command_at(args, i)
    } else {
        args.len() as int
    }
}

/// Splits the arguments at the command and takes the home directory out of
/// the general options.
pub fn parse_invocation(args: Vec<String>) -> (r: Result<Invocation, String>)
    ensures
        ({
            let general = args@.subrange(0, command_start(args@));
            let f = found_values(general, Seq::empty(), "--home"@, false);
            if f matches Some(v) && v.len() == 0 {
                r matches Err(e) && e@ == missing_value_message(
                    general[option_index(general, Seq::empty(), "--home"@)]@,
                )
            } else {
                r matches Ok(inv) && inv.general_args@ == left_after(
                    general,
                    Seq::empty(),
                    "--home"@,
                    false,
                ) && inv.command_args@ == args@.subrange(command_start(args@), args@.len() as int)
                    && (match f {
                    Some(v) => inv.home == Some(v[0]),
                    None => inv.home is None,
                })
            }
        }),
{
    proof {
        reveal_strlit("");
        reveal_strlit("release");
        reveal_strlit("--home");
        assert(""@ =~= Seq::<char>::empty());
    }
    let mut commands: Vec<String> = Vec::new();
    commands.push("release".to_owned());
    let ghost cmds = commands@;
    let (mut general, command_args) = split_args(args, commands);
    proof {
        assert forall|i: int| first_command_at(args@, cmds, i) <==> release_command_at(args@, i) by {
            if first_command_at(args@, cmds, i) {
                assert forall|j: int| 0 <= j < i implies #[trigger] args@[j]@ != "release"@ by {
                    assert(cmds[0]@ != args@[j]@);
                }
            }
            if release_command_at(args@, i) {
                assert(cmds[0]@ == args@[i]@);
                assert forall|j: int, c: int|
                    0 <= j < i && 0 <= c < cmds.len() implies #[trigger] cmds[c]@
                    != #[trigger] args@[j]@ by {
                    assert(c == 0);
                }
            }
        }
        if exists|i: int| release_command_at(args@, i) {
            let i = choose|i: int| release_command_at(args@, i);
            assert forall|k: int| release_command_at(args@, k) implies k == i by {
                if k < i {
                    assert(args@[k]@ != "release"@);
                }
                if k > i {
                    assert(args@[i]@ != "release"@);
                }
            }
        } else {
            assert forall|i: int| !first_command_at(args@, cmds, i) by {
                if first_command_at(args@, cmds, i) {
                    assert(release_command_at(args@, i));
                }
            }
            assert(args@.subrange(0, args@.len() as int) =~= args@);
            assert(args@.subrange(args@.len() as int, args@.len() as int) =~= command_args@);
        }
    }
    let ghost g0 = general@;
    proof {
        let i = option_index(g0, Seq::empty(), "--home"@);
        if i >= 0 {
            lemma_values_from_bound(g0, i + 1);
        }
    }
    let home = match find_long_value(&mut general, "--home") {
        Ok(home) => home,
        Err(e) => {
            return Err(e);
        },
    };
    Ok(Invocation { home, general_args: general, command_args })
}

} // verus!
