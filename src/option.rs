use vstd::prelude::*;

use crate::text::text_equal;

verus! {

broadcast use vstd::std_specs::vec::group_vec_axioms, vstd::seq::group_seq_axioms;

/// Whether `i` is the first position of an argument that is one of `commands`.
pub open spec fn first_command_at(args: Seq<String>, commands: Seq<String>, i: int) -> bool {
    &&& 0 <= i < args.len()
    &&& exists|c: int| 0 <= c < commands.len() && #[trigger] commands[c]@ == args[i]@
    &&& forall|j: int, c: int|
        0 <= j < i && 0 <= c < commands.len() ==> #[trigger] commands[c]@ != #[trigger] args[j]@
}

/// Splits the arguments before the first command: the general options, then
/// the command and its arguments. With no command, all are general options.
pub fn split_args(args: Vec<String>, commands: Vec<String>) -> (r: (Vec<String>, Vec<String>))
    ensures
        (exists|i: int| first_command_at(args@, commands@, i)) ==> exists|i: int|
            first_command_at(args@, commands@, i) && r.0@ == args@.subrange(0, i) && r.1@
                == args@.subrange(i, args@.len() as int),
        !(exists|i: int| first_command_at(args@, commands@, i)) ==> r.0@ == args@ && r.1@.len()
            == 0,
{
    let mut i: usize = 0;
    while i < args.len()
        invariant
            i <= args.len(),
            forall|j: int, c: int|
                0 <= j < i && 0 <= c < commands.len() ==> #[trigger] commands[c]@
                    != #[trigger] args[j]@,
        decreases args.len() - i,
    {
        let mut c: usize = 0;
        while c < commands.len()
            invariant
                i < args.len(),
                c <= commands.len(),
                forall|j: int, k: int|
                    0 <= j < i && 0 <= k < commands.len() ==> #[trigger] commands[k]@
                        != #[trigger] args[j]@,
                forall|k: int| 0 <= k < c ==> #[trigger] commands[k]@ != args[i as int]@,
            decreases commands.len() - c,
        {
            if text_equal(commands[c].as_str(), args[i].as_str()) {
                assert(first_command_at(args@, commands@, i as int));
                let mut general = args;
                let command_args = general.split_off(i);
                return (general, command_args);
            }
            c = c + 1;
        }
        i = i + 1;
    }
    assert forall|k: int| !first_command_at(args@, commands@, k) by {
        if 0 <= k < args.len() {
            assert forall|c: int| 0 <= c < commands.len() implies commands[c]@ != args[k]@ by {
                assert(commands[c]@ != args[k]@);
            }
        }
    }
    (args, Vec::new())
}

/// How many values an option takes.
#[derive(PartialEq, Eq, Structural)]
enum OptionType {
    Flag,
    Value,
    List,
}

/// Whether an argument names the option, in its short form (where it has
/// one) or its long form.
pub open spec fn names_option(arg: Seq<char>, short: Seq<char>, long: Seq<char>) -> bool {
    (short.len() > 0 && arg == short) || arg == long
}

/// Whether `i` is the first position of an argument that names the option.
pub open spec fn first_option_at(args: Seq<String>, short: Seq<char>, long: Seq<char>, i: int) -> bool {
    &&& 0 <= i < args.len()
    &&& names_option(args[i]@, short, long)
    &&& forall|j: int| 0 <= j < i ==> !names_option(#[trigger] args[j]@, short, long)
}

/// The first position of an argument that names the option, or -1.
pub open spec fn option_index(args: Seq<String>, short: Seq<char>, long: Seq<char>) -> int {
    if exists|i: int| first_option_at(args, short, long, i) {
        choose|i: int| first_option_at(args, short, long, i)
    } else {
        -1
    }
}

/// Whether an argument is a value: it does not start with `-`.
pub open spec fn is_value(arg: Seq<char>) -> bool {
    !(arg.len() > 0 && arg[0] == '-')
}

/// The number of values that follow one another from position `start`.
pub open spec fn values_from(args: Seq<String>, start: int) -> nat
    decreases args.len() - start,
{
    if start < 0 || start >= args.len() || !is_value(args[start]@) {
        0
    } else {
        1 + values_from(args, start + 1)
    }
}

/// The error for an option given without a value.
pub open spec fn missing_value_message(option: Seq<char>) -> Seq<char> {
    "Missing option value(s) for: "@ + option
}

/// The arguments without the option at `i` and the `n` values after it.
pub open spec fn without_option(args: Seq<String>, i: int, n: int) -> Seq<String> {
    args.subrange(0, i) + args.subrange(i + 1 + n, args.len() as int)
}

fn is_value_exec(arg: &str) -> (r: bool)
    ensures
        r == is_value(arg@),
{
    !(arg.unicode_len() > 0 && arg.get_char(0) == '-')
}

fn names_option_exec(arg: &str, short: &str, long: &str) -> (r: bool)
    ensures
        r == names_option(arg@, short@, long@),
{
    (short.unicode_len() > 0 && text_equal(arg, short)) || text_equal(arg, long)
}

/// The position of the first argument that names the option.
fn position_of(args: &Vec<String>, short: &str, long: &str) -> (r: Option<usize>)
    ensures
        match r {
            Some(i) => option_index(args@, short@, long@) == i as int,
            None => option_index(args@, short@, long@) == -1,
        },
{
    let mut i: usize = 0;
    while i < args.len()
        invariant
            i <= args.len(),
            forall|j: int| 0 <= j < i ==> !names_option(#[trigger] args@[j]@, short@, long@),
        decreases args.len() - i,
    {
        if names_option_exec(args[i].as_str(), short, long) {
            assert(first_option_at(args@, short@, long@, i as int));
            assert forall|k: int| first_option_at(args@, short@, long@, k) implies k == i by {
                if k > i {
                    assert(!names_option(args@[i as int]@, short@, long@));
                }
            }
            return Some(i);
        }
        i = i + 1;
    }
    assert forall|k: int| !first_option_at(args@, short@, long@, k) by {
        if 0 <= k < args.len() {
            assert(!names_option(args@[k]@, short@, long@));
        }
    }
    None
}

/// The values counted from `start` are within the arguments, and are values.
pub proof fn lemma_values_from_bound(args: Seq<String>, start: int)
    requires
        0 <= start,
    ensures
        start + values_from(args, start) <= args.len() || values_from(args, start) == 0,
        forall|k: int|
            start <= k < start + values_from(args, start) ==> #[trigger] is_value(args[k]@),
    decreases args.len() - start,
{
    if start < args.len() && is_value(args[start]@) {
        lemma_values_from_bound(args, start + 1);
    }
}

/// Finds the option, then takes it and its values out of the arguments.
/// A flag is left in place and gives no values.
fn find_option(args: &mut Vec<String>, short: &str, long: &str, op_type: OptionType) -> (r: Result<
    Option<Vec<String>>,
    String,
>)
    ensures
        ({
            let i = option_index(old(args)@, short@, long@);
            let all = values_from(old(args)@, i + 1);
            let n = if op_type == OptionType::Value && all > 1 {
                1
            } else {
                all as int
            };
            if i < 0 {
                r == Ok::<Option<Vec<String>>, String>(None) && final(args)@ == old(args)@
            } else if op_type == OptionType::Flag {
                r matches Ok(Some(v)) && v@.len() == 0 && final(args)@ == old(args)@
            } else if n == 0 {
                r matches Err(e) && e@ == missing_value_message(old(args)@[i]@) && final(args)@
                    == old(args)@
            } else {
                r matches Ok(Some(v)) && v@ == old(args)@.subrange(i + 1, i + 1 + n)
                    && final(args)@ == without_option(old(args)@, i, n)
            }
        }),
{
    let found = position_of(args, short, long);
    let index = match found {
        None => {
            return Ok(None);
        },
        Some(index) => index,
    };
    if op_type == OptionType::Flag {
        return Ok(Some(Vec::new()));
    }
    let ghost before = args@;
    proof {
        assert(first_option_at(before, short@, long@, index as int));
        lemma_values_from_bound(before, index + 1);
    }
    assert(index < args.len());
    let mut count: usize = 0;
    let mut next: usize = index + 1;
    while next < args.len() && (op_type != OptionType::Value || count == 0) && is_value_exec(
        args[next].as_str(),
    )
        invariant
            args@ == before,
            index < before.len(),
            next == index + 1 + count,
            next <= before.len(),
            op_type == OptionType::Value ==> count <= 1,
            values_from(before, index + 1) == count + values_from(before, next as int),
        decreases args.len() - next,
    {
        count = count + 1;
        next = next + 1;
    }
    assert(count as int == if op_type == OptionType::Value && values_from(before, index + 1) > 1 {
        1
    } else {
        values_from(before, index + 1) as int
    });
    if count == 0 {
        let mut message = String::new();
        message.append("Missing option value(s) for: ");
        message.append(args[index].as_str());
        proof {
            reveal_strlit("Missing option value(s) for: ");
        }
        return Err(message);
    }
    args.remove(index);
    let mut values: Vec<String> = Vec::new();
    let mut k: usize = 0;
    while k < count
        invariant
            k <= count,
            index + 1 + count <= before.len(),
            values@ == before.subrange(index + 1, index + 1 + k),
            args@ == before.subrange(0, index as int) + before.subrange(
                index + 1 + k,
                before.len() as int,
            ),
        decreases count - k,
    {
        let v = args.remove(index);
        values.push(v);
        k = k + 1;
        assert(values@ =~= before.subrange(index + 1, index + 1 + k));
        assert(args@ =~= before.subrange(0, index as int) + before.subrange(
            index + 1 + k,
            before.len() as int,
        ));
    }
    Ok(Some(values))
}

/// Whether the flag is given, by its long form only. The arguments are left as they are.
pub fn find_long(args: &mut Vec<String>, long: &str) -> (r: Result<bool, String>)
    ensures
        r == Ok::<bool, String>(option_index(old(args)@, Seq::empty(), long@) >= 0),
        final(args)@ == old(args)@,
{
    proof {
        reveal_strlit("");
        assert(""@ =~= Seq::<char>::empty());
    }
    find(args, "", long)
}

/// Whether the flag is given. The arguments are left as they are.
pub fn find(args: &mut Vec<String>, short: &str, long: &str) -> (r: Result<bool, String>)
    ensures
        r == Ok::<bool, String>(option_index(old(args)@, short@, long@) >= 0),
        final(args)@ == old(args)@,
{
    match find_option(args, short, long, OptionType::Flag) {
        Ok(Some(_)) => Ok(true),
        Ok(None) => Ok(false),
        Err(e) => Err(e),
    }
}

/// The value of an option given by its long form only; see `find_value`.
pub fn find_long_value(args: &mut Vec<String>, long: &str) -> (r: Result<Option<String>, String>)
    ensures
        ({
            let i = option_index(old(args)@, Seq::empty(), long@);
            if i < 0 {
                r == Ok::<Option<String>, String>(None) && final(args)@ == old(args)@
            } else if values_from(old(args)@, i + 1) == 0 {
                r matches Err(e) && e@ == missing_value_message(old(args)@[i]@) && final(args)@
                    == old(args)@
            } else {
                r == Ok::<Option<String>, String>(Some(old(args)@[i + 1])) && final(args)@
                    == without_option(old(args)@, i, 1)
            }
        }),
{
    proof {
        reveal_strlit("");
        assert(""@ =~= Seq::<char>::empty());
    }
    find_value(args, "", long)
}

/// The value of an option: the argument after its first occurrence, which
/// must not start with `-`. The option and its value are taken out of the
/// arguments; on an error the arguments are left as they are.
pub fn find_value(args: &mut Vec<String>, short: &str, long: &str) -> (r: Result<
    Option<String>,
    String,
>)
    ensures
        ({
            let i = option_index(old(args)@, short@, long@);
            if i < 0 {
                r == Ok::<Option<String>, String>(None) && final(args)@ == old(args)@
            } else if values_from(old(args)@, i + 1) == 0 {
                r matches Err(e) && e@ == missing_value_message(old(args)@[i]@) && final(args)@
                    == old(args)@
            } else {
                r == Ok::<Option<String>, String>(Some(old(args)@[i + 1])) && final(args)@
                    == without_option(old(args)@, i, 1)
            }
        }),
{
    match find_option(args, short, long, OptionType::Value) {
        Ok(Some(mut values)) => match values.pop() {
            Some(value) => Ok(Some(value)),
            None => Ok(None),
        },
        Ok(None) => Ok(None),
        Err(e) => Err(e),
    }
}

/// The values of an option: the arguments after its first occurrence up to
/// the next one that starts with `-`. The option and its values are taken
/// out of the arguments; on an error the arguments are left as they are.
pub fn find_values(args: &mut Vec<String>, short: &str, long: &str) -> (r: Result<
    Option<Vec<String>>,
    String,
>)
    ensures
        ({
            let i = option_index(old(args)@, short@, long@);
            let n = values_from(old(args)@, i + 1) as int;
            if i < 0 {
                r == Ok::<Option<Vec<String>>, String>(None) && final(args)@ == old(args)@
            } else if n == 0 {
                r matches Err(e) && e@ == missing_value_message(old(args)@[i]@) && final(args)@
                    == old(args)@
            } else {
                r matches Ok(Some(v)) && v@ == old(args)@.subrange(i + 1, i + 1 + n)
                    && final(args)@ == without_option(old(args)@, i, n)
            }
        }),
{
    find_option(args, short, long, OptionType::List)
}

} // verus!
