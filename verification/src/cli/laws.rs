//! What the command parser gives for whole families of command lines: step
//! counts, durations, plot and format arguments, and arguments that are kept
//! as written.

use crate::cli::parser::{
    all_digits, ascii_lowercase, command_spec, digits_value, ends_with, first_word, format_scan,
    is_ascii_digit, lemma_command_aliases, lowercase_of, parse_ascii_spec, parse_spec, plot_scan,
    plot_spec, simulate_spec, step_count_digits, trim, unsigned_digits, unsigned_value,
    without_suffix, words, CommandSpec, SimulateArgSpec, INVALID_DURATION_PREFIX,
    INVALID_DURATION_SUFFIX, INVALID_STEPS_PREFIX, INVALID_STEPS_SUFFIX,
};
use crate::cli::real_text::{is_plain_decimal, lemma_plain_decimal_positive, mantissa_digits_value};
use vstd::prelude::*;

verus! {

/// The ASCII digit of `d`, for `d` below ten.
pub open spec fn digit_char(d: nat) -> char {
    seq!['0', '1', '2', '3', '4', '5', '6', '7', '8', '9'][d as int]
}

/// The decimal numeral of `n`, without leading zeros.
pub open spec fn decimal_digits(n: nat) -> Seq<char>
    decreases n,
{
    if n < 10 {
        seq![digit_char(n)]
    } else {
        decimal_digits(n / 10).push(digit_char(n % 10))
    }
}

proof fn lemma_digit_char(d: nat)
    requires
        d < 10,
    ensures
        is_ascii_digit(digit_char(d)),
        (digit_char(d) as u32 - 0x30) as nat == d,
{
    assert(seq!['0', '1', '2', '3', '4', '5', '6', '7', '8', '9'][d as int] == digit_char(d));
    if d == 0 {
    } else if d == 1 {
    } else if d == 2 {
    } else if d == 3 {
    } else if d == 4 {
    } else if d == 5 {
    } else if d == 6 {
    } else if d == 7 {
    } else if d == 8 {
    } else {
    }
}

/// The decimal numeral of `n` is a non-empty string of digits whose value is
/// `n`.
pub proof fn lemma_decimal_digits(n: nat)
    ensures
        decimal_digits(n).len() > 0,
        all_digits(decimal_digits(n)),
        digits_value(decimal_digits(n)) == n,
    decreases n,
{
    if n < 10 {
        lemma_digit_char(n);
        let x = decimal_digits(n);
        assert(x.drop_last() =~= seq![]);
        assert(digits_value(x.drop_last()) == 0);
        assert(digits_value(x) == digits_value(x.drop_last()) * 10 + (x.last() as u32 - 0x30) as nat);
    } else {
        lemma_decimal_digits(n / 10);
        lemma_digit_char(n % 10);
        let x = decimal_digits(n);
        assert(x.drop_last() =~= decimal_digits(n / 10));
        assert(x.last() == digit_char(n % 10));
        assert(digits_value(x) == digits_value(x.drop_last()) * 10 + (x.last() as u32 - 0x30) as nat);
        assert((n / 10) * 10 + n % 10 == n);
        assert forall|i: int| 0 <= i < x.len() implies is_ascii_digit(#[trigger] x[i]) by {
            if i < x.len() - 1 {
                assert(x[i] == decimal_digits(n / 10)[i]);
            }
        }
    }
}

/// A text made of digits does not end with a word that ends in a letter.
proof fn lemma_digits_do_not_end_with(x: Seq<char>, word: Seq<char>)
    requires
        x.len() > 0,
        all_digits(x),
        word.len() > 0,
        !is_ascii_digit(word.last()),
    ensures
        !ends_with(x, word),
{
    if ends_with(x, word) {
        assert(x.skip(x.len() - word.len())[word.len() - 1] == x[x.len() - 1]);
        assert(is_ascii_digit(x[x.len() - 1]));
    }
}

/// For every step count `n` that a `u64` holds, `/simulate <n>steps` asks
/// for exactly `n` steps when `n` is at least one; only zero is refused.
pub proof fn lemma_step_count(n: u64, rest: Seq<Seq<char>>)
    ensures
        simulate_spec(seq![decimal_digits(n as nat) + "steps"@] + rest) == if n > 0 {
            Ok::<CommandSpec, Seq<char>>(CommandSpec::Simulate(SimulateArgSpec::Steps(n as int)))
        } else {
            Err(INVALID_STEPS_PREFIX@ + decimal_digits(n as nat) + "steps"@ + INVALID_STEPS_SUFFIX@)
        },
{
    reveal_strlit("steps");
    reveal_strlit("step");
    let x = decimal_digits(n as nat);
    lemma_decimal_digits(n as nat);
    let arg = x + "steps"@;
    let args = seq![arg] + rest;
    assert(args[0] == arg);
    assert(arg.skip(arg.len() - 5) =~= "steps"@);
    assert(ends_with(arg, "steps"@));
    assert(without_suffix(arg, "steps"@) =~= x);
    assert(!is_ascii_digit('p'));
    lemma_digits_do_not_end_with(x, "step"@);
    assert(step_count_digits(arg) == x);
    assert(is_ascii_digit(x[0]));
    assert(x[0] != '+');
    assert(unsigned_digits(x) == x);
    assert(unsigned_value(x, u64::MAX as int) == Some(n as int));
    assert(INVALID_STEPS_PREFIX@ + arg + INVALID_STEPS_SUFFIX@ =~= INVALID_STEPS_PREFIX@ + x
        + "steps"@ + INVALID_STEPS_SUFFIX@);
    assert(simulate_spec(args) == match unsigned_value(step_count_digits(arg), u64::MAX as int) {
        Some(m) if m > 0 => Ok(CommandSpec::Simulate(SimulateArgSpec::Steps(m))),
        _ => Err(INVALID_STEPS_PREFIX@ + arg + INVALID_STEPS_SUFFIX@),
    });
}

/// A plain decimal duration (digits with at most one point) is accepted as
/// written when the value of its digits is above zero, wherever the non-zero
/// digit stands, and refused as an invalid duration when it is zero.
pub proof fn lemma_plain_duration(u: Seq<char>, rest: Seq<Seq<char>>)
    requires
        is_plain_decimal(u),
    ensures
        simulate_spec(seq![u] + rest) == if mantissa_digits_value(u) > 0 {
            Ok::<CommandSpec, Seq<char>>(CommandSpec::Simulate(SimulateArgSpec::Duration(u)))
        } else {
            Err(INVALID_DURATION_PREFIX@ + u + INVALID_DURATION_SUFFIX@)
        },
{
    reveal_strlit("steps");
    lemma_plain_decimal_positive(u);
    let args = seq![u] + rest;
    assert(args[0] == u);
    if ends_with(u, "steps"@) {
        assert(u.skip(u.len() - 5)[4] == u[u.len() - 1]);
        assert(is_ascii_digit(u[u.len() - 1]) || u[u.len() - 1] == '.');
    }
}

/// `plot_scan` over arguments without an output flag appends them all to the
/// signals.
proof fn lemma_plot_scan_names(
    names: Seq<Seq<char>>,
    tail: Seq<Seq<char>>,
    signals: Seq<Seq<char>>,
    output: Option<Seq<char>>,
)
    requires
        forall|i: int| 0 <= i < names.len() ==> #[trigger] names[i] != "-o"@ && names[i] != "--output"@,
    ensures
        plot_scan(names + tail, signals, output) == plot_scan(tail, signals + names, output),
    decreases names.len(),
{
    if names.len() == 0 {
        assert(names + tail =~= tail);
        assert(signals + names =~= signals);
    } else {
        let all = names + tail;
        assert(all[0] == names[0]);
        assert(all.drop_first() =~= names.drop_first() + tail);
        assert(signals.push(names[0]) + names.drop_first() =~= signals + names);
        assert forall|i: int| 0 <= i < names.drop_first().len() implies #[trigger] names.drop_first()[i]
            != "-o"@ && names.drop_first()[i] != "--output"@ by {
            assert(names.drop_first()[i] == names[i + 1]);
        }
        lemma_plot_scan_names(names.drop_first(), tail, signals.push(names[0]), output);
    }
}

/// `/plot` with arguments none of which is `-o` or `--output` plots exactly
/// those signals, in order, whatever their number, with no output path;
/// followed by `-o <path>`, the same signals go to that path.
pub proof fn lemma_plot_names(names: Seq<Seq<char>>, path: Seq<char>)
    requires
        names.len() > 0,
        forall|i: int| 0 <= i < names.len() ==> #[trigger] names[i] != "-o"@ && names[i] != "--output"@,
    ensures
        plot_spec(names) == Ok::<CommandSpec, Seq<char>>(CommandSpec::Plot(names, None)),
        plot_spec(names + seq!["-o"@, path]) == Ok::<CommandSpec, Seq<char>>(
            CommandSpec::Plot(names, Some(path)),
        ),
{
    lemma_plot_scan_names(names, seq![], seq![], None);
    assert(names + seq![] =~= names);
    assert(seq![] + names =~= names);
    let tail = seq!["-o"@, path];
    lemma_plot_scan_names(names, tail, seq![], None);
    assert(tail[0] == "-o"@);
    assert(tail.skip(2) =~= seq![]);
    assert(plot_scan(tail, names, None) == plot_scan(seq![], names, Some(path)));
    assert((names + tail).len() > 0);
}

/// Signal names around output flags are all plotted, in order, and the path
/// after the last flag is the output: `/plot <a..> -o <p> <b..> --output <q>`
/// plots `a.. b..` to `q`.
pub proof fn lemma_plot_last_output(
    a: Seq<Seq<char>>,
    p: Seq<char>,
    b: Seq<Seq<char>>,
    q: Seq<char>,
)
    requires
        a.len() + b.len() > 0,
        forall|i: int| 0 <= i < a.len() ==> #[trigger] a[i] != "-o"@ && a[i] != "--output"@,
        forall|i: int| 0 <= i < b.len() ==> #[trigger] b[i] != "-o"@ && b[i] != "--output"@,
    ensures
        plot_spec(a + seq!["-o"@, p] + b + seq!["--output"@, q]) == Ok::<CommandSpec, Seq<char>>(
            CommandSpec::Plot(a + b, Some(q)),
        ),
{
    let t2 = seq!["--output"@, q];
    let t1 = seq!["-o"@, p] + b + t2;
    assert(a + seq!["-o"@, p] + b + t2 =~= a + t1);
    lemma_plot_scan_names(a, t1, seq![], None);
    assert(seq![] + a =~= a);
    assert(t1[0] == "-o"@);
    assert(t1.skip(2) =~= b + t2);
    lemma_plot_scan_names(b, t2, a, Some(p));
    assert(t2[0] == "--output"@);
    assert(t2.skip(2) =~= seq![]);
    assert(plot_scan(t2, a + b, Some(p)) == plot_scan(seq![], a + b, Some(q)));
    assert((a + t1).len() > 0);
}

/// One of the four notation words of `/format`, written literally.
pub open spec fn is_notation_word(w: Seq<char>) -> bool {
    w == "default"@ || w == "fixed"@ || w == "scientific"@ || w == "sci"@
}

proof fn lemma_format_scan_words(args: Seq<Seq<char>>, notation: Option<Seq<char>>, precision: Option<int>)
    requires
        args.len() > 0,
        forall|i: int| 0 <= i < args.len() ==> is_notation_word(#[trigger] args[i]),
    ensures
        format_scan(args, notation, precision) == Ok::<CommandSpec, Seq<char>>(
            CommandSpec::Format(Some(args.last()), precision),
        ),
    decreases args.len(),
{
    assert(is_notation_word(args[0]));
    if args.len() > 1 {
        assert forall|i: int| 0 <= i < args.drop_first().len() implies is_notation_word(
            #[trigger] args.drop_first()[i],
        ) by {
            assert(args.drop_first()[i] == args[i + 1]);
        }
        lemma_format_scan_words(args.drop_first(), Some(args[0]), precision);
    } else {
        assert(args.drop_first().len() == 0);
    }
}

/// `/format` followed by notation words only (`default`, `fixed`,
/// `scientific`, `sci`) sets the last of them and no precision; each word
/// alone sets itself.
pub proof fn lemma_format_notations(args: Seq<Seq<char>>)
    requires
        args.len() > 0,
        forall|i: int| 0 <= i < args.len() ==> is_notation_word(#[trigger] args[i]),
    ensures
        format_scan(args, None, None) == Ok::<CommandSpec, Seq<char>>(
            CommandSpec::Format(Some(args.last()), None),
        ),
        format_scan(seq!["default"@], None, None) == Ok::<CommandSpec, Seq<char>>(
            CommandSpec::Format(Some("default"@), None),
        ),
        format_scan(seq!["fixed"@], None, None) == Ok::<CommandSpec, Seq<char>>(
            CommandSpec::Format(Some("fixed"@), None),
        ),
        format_scan(seq!["scientific"@], None, None) == Ok::<CommandSpec, Seq<char>>(
            CommandSpec::Format(Some("scientific"@), None),
        ),
        format_scan(seq!["sci"@], None, None) == Ok::<CommandSpec, Seq<char>>(
            CommandSpec::Format(Some("sci"@), None),
        ),
{
    lemma_format_scan_words(args, None, None);
    lemma_format_scan_words(seq!["default"@], None, None);
    lemma_format_scan_words(seq!["fixed"@], None, None);
    lemma_format_scan_words(seq!["scientific"@], None, None);
    lemma_format_scan_words(seq!["sci"@], None, None);
}

/// `/format <n>` sets the precision to `n`, for every `n` that a `usize`
/// holds, and no notation.
pub proof fn lemma_format_precision(n: usize)
    ensures
        format_scan(seq![decimal_digits(n as nat)], None, None) == Ok::<CommandSpec, Seq<char>>(
            CommandSpec::Format(None, Some(n as int)),
        ),
{
    reveal_strlit("default");
    reveal_strlit("fixed");
    reveal_strlit("scientific");
    reveal_strlit("sci");
    let x = decimal_digits(n as nat);
    lemma_decimal_digits(n as nat);
    let args = seq![x];
    assert(args[0] == x);
    assert(is_ascii_digit(x[0]));
    assert(x != "default"@ && x != "fixed"@ && x != "scientific"@ && x != "sci"@) by {
        assert(!is_ascii_digit('d') && !is_ascii_digit('f') && !is_ascii_digit('s'));
    }
    assert(x[0] != '+');
    assert(unsigned_digits(x) == x);
    assert(unsigned_value(x, usize::MAX as int) == Some(n as int));
    assert(args.drop_first() =~= seq![]);
    assert(format_scan(args.drop_first(), None, Some(n as int)) == Ok::<CommandSpec, Seq<char>>(
        CommandSpec::Format(None, Some(n as int)),
    ));
}

/// `/format <notation> <n>` and `/format <n> <notation>` set both the
/// notation and the precision `n`.
pub proof fn lemma_format_notation_and_precision(w: Seq<char>, n: usize)
    requires
        is_notation_word(w),
    ensures
        format_scan(seq![w, decimal_digits(n as nat)], None, None) == Ok::<CommandSpec, Seq<char>>(
            CommandSpec::Format(Some(w), Some(n as int)),
        ),
        format_scan(seq![decimal_digits(n as nat), w], None, None) == Ok::<CommandSpec, Seq<char>>(
            CommandSpec::Format(Some(w), Some(n as int)),
        ),
{
    reveal_strlit("default");
    reveal_strlit("fixed");
    reveal_strlit("scientific");
    reveal_strlit("sci");
    let x = decimal_digits(n as nat);
    lemma_decimal_digits(n as nat);
    assert(is_ascii_digit(x[0]));
    assert(x != "default"@ && x != "fixed"@ && x != "scientific"@ && x != "sci"@) by {
        assert(!is_ascii_digit('d') && !is_ascii_digit('f') && !is_ascii_digit('s'));
    }
    assert(x[0] != '+');
    assert(unsigned_digits(x) == x);
    assert(unsigned_value(x, usize::MAX as int) == Some(n as int));
    let a = seq![w, x];
    let b = seq![x, w];
    assert(a[0] == w && a.drop_first() =~= seq![x]);
    assert(seq![x].drop_first() =~= seq![]);
    assert(b[0] == x && b.drop_first() =~= seq![w]);
    assert(seq![w].drop_first() =~= seq![]);
    assert(format_scan(seq![], Some(w), Some(n as int)) == Ok::<CommandSpec, Seq<char>>(
        CommandSpec::Format(Some(w), Some(n as int)),
    ));
    assert(seq![x][0] == x);
    assert(format_scan(seq![x], Some(w), None) == format_scan(seq![], Some(w), Some(n as int)));
    assert(format_scan(a, None, None) == format_scan(seq![x], Some(w), None));
    lemma_format_scan_words(seq![w], None, Some(n as int));
}

/// The command names in the order `command_spec` tries them differ, so each
/// name reaches its own command.
proof fn lemma_names_differ()
    ensures
        "/save"@ != "/simulate"@ && "/save"@ != "/sim"@ && "/save"@ != "/run"@ && "/save"@
            != "/plot"@ && "/save"@ != "/set"@,
        "/set"@ != "/simulate"@ && "/set"@ != "/sim"@ && "/set"@ != "/run"@ && "/set"@ != "/plot"@,
        "/snapshot"@ != "/simulate"@ && "/snapshot"@ != "/sim"@ && "/snapshot"@ != "/run"@
            && "/snapshot"@ != "/plot"@ && "/snapshot"@ != "/set"@ && "/snapshot"@ != "/save"@
            && "/snapshot"@ != "/export"@ && "/snapshot"@ != "/reset"@ && "/snapshot"@ != "/status"@
            && "/snapshot"@ != "/signals"@ && "/snapshot"@ != "/sigs"@ && "/snapshot"@ != "/params"@,
{
    reveal_strlit("/simulate");
    reveal_strlit("/sim");
    reveal_strlit("/run");
    reveal_strlit("/plot");
    reveal_strlit("/set");
    reveal_strlit("/save");
    reveal_strlit("/export");
    reveal_strlit("/reset");
    reveal_strlit("/status");
    reveal_strlit("/signals");
    reveal_strlit("/sigs");
    reveal_strlit("/params");
    reveal_strlit("/snapshot");
    assert("/save"@.len() != "/simulate"@.len());
    assert("/save"@[2] != "/sim"@[2]);
    assert("/save"@[1] != "/run"@[1]);
    assert("/save"@[1] != "/plot"@[1]);
    assert("/save"@.len() != "/set"@.len());
    assert("/set"@.len() != "/simulate"@.len());
    assert("/set"@[2] != "/sim"@[2]);
    assert("/set"@[1] != "/run"@[1]);
    assert("/set"@.len() != "/plot"@.len());
    assert("/snapshot"@[2] != "/simulate"@[2]);
    assert("/snapshot"@.len() != "/sim"@.len());
    assert("/snapshot"@.len() != "/run"@.len());
    assert("/snapshot"@.len() != "/plot"@.len());
    assert("/snapshot"@.len() != "/set"@.len());
    assert("/snapshot"@.len() != "/save"@.len());
    assert("/snapshot"@.len() != "/export"@.len());
    assert("/snapshot"@.len() != "/reset"@.len());
    assert("/snapshot"@.len() != "/status"@.len());
    assert("/snapshot"@[2] != "/signals"@[2]);
    assert("/snapshot"@.len() != "/sigs"@.len());
    assert("/snapshot"@.len() != "/params"@.len());
}

/// Arguments are kept exactly as written: `/save` and `/export` save to
/// their first argument, `/snapshot` shows its arguments, and `/set` sets its
/// first argument to its second when that is the text of a real number.
pub proof fn lemma_arguments_as_written(args: Seq<Seq<char>>)
    ensures
        args.len() >= 1 ==> command_spec("/save"@, args) == Ok::<CommandSpec, Seq<char>>(
            CommandSpec::Save(args[0]),
        ),
        args.len() >= 1 ==> command_spec("/export"@, args) == Ok::<CommandSpec, Seq<char>>(
            CommandSpec::Save(args[0]),
        ),
        command_spec("/snapshot"@, args) == Ok::<CommandSpec, Seq<char>>(CommandSpec::Snapshot(args)),
        command_spec("/snap"@, args) == Ok::<CommandSpec, Seq<char>>(CommandSpec::Snapshot(args)),
        args.len() >= 2 && crate::cli::real_text::is_real_text(args[1]) ==> command_spec(
            "/set"@,
            args,
        ) == Ok::<CommandSpec, Seq<char>>(CommandSpec::SetParam(args[0], args[1])),
{
    lemma_names_differ();
    lemma_command_aliases(args);
}

/// `/set <name> <value>` with a plain decimal value, signed or not, sets the
/// parameter to that value as written, whatever the value of its digits
/// (zero and negative values included).
pub proof fn lemma_set_plain_value(name: Seq<char>, u: Seq<char>, rest: Seq<Seq<char>>)
    requires
        is_plain_decimal(u),
    ensures
        command_spec("/set"@, seq![name, u] + rest) == Ok::<CommandSpec, Seq<char>>(
            CommandSpec::SetParam(name, u),
        ),
        command_spec("/set"@, seq![name, seq!['-'] + u] + rest) == Ok::<CommandSpec, Seq<char>>(
            CommandSpec::SetParam(name, seq!['-'] + u),
        ),
        command_spec("/set"@, seq![name, seq!['+'] + u] + rest) == Ok::<CommandSpec, Seq<char>>(
            CommandSpec::SetParam(name, seq!['+'] + u),
        ),
{
    lemma_plain_decimal_positive(u);
    let a = seq![name, u] + rest;
    let b = seq![name, seq!['-'] + u] + rest;
    let c = seq![name, seq!['+'] + u] + rest;
    assert(a[0] == name && a[1] == u);
    assert(b[0] == name && b[1] == seq!['-'] + u);
    assert(c[0] == name && c[1] == seq!['+'] + u);
    lemma_arguments_as_written(a);
    lemma_arguments_as_written(b);
    lemma_arguments_as_written(c);
}

/// On a whole command line, the argument of `/save` (or `/export`), in any
/// case of the command name, is the second word of the line exactly as
/// written.
pub proof fn lemma_save_keeps_file_name(input: Seq<char>)
    requires
        trim(input).len() > 0 && trim(input)[0] == '/',
        words(input).len() >= 2,
    ensures
        lowercase_of(first_word(input)) == "/save"@ || lowercase_of(first_word(input)) == "/export"@
            ==> parse_spec(input) == Ok::<CommandSpec, Seq<char>>(CommandSpec::Save(words(input)[1])),
        ascii_lowercase(first_word(input)) == "/save"@ || ascii_lowercase(first_word(input))
            == "/export"@ ==> parse_ascii_spec(input) == Ok::<CommandSpec, Seq<char>>(
            CommandSpec::Save(words(input)[1]),
        ),
{
    let rest = words(input).skip(1);
    assert(rest[0] == words(input)[1]);
    lemma_arguments_as_written(rest);
}

} // verus!
