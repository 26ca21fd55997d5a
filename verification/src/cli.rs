//! Command-line argument rules of the `start` and `request-permissions` commands.
use vstd::prelude::*;
use crate::native_helper::CaptureMode;
use crate::text::{chars_of, push_str, str_eq, string_of};

verus! {

/// The character views of a list of arguments.
pub open spec fn arg_views(args: Seq<String>) -> Seq<Seq<char>> {
    args.map_values(|a: String| a@)
}

/// An argument is an option when it starts with `-`.
pub open spec fn is_option(a: Seq<char>) -> bool {
    a.len() > 0 && a[0] == '-'
}

/// The capture mode a mode flag selects.
pub open spec fn flag_mode(a: Seq<char>) -> Option<CaptureMode> {
    if a == "--mic"@ {
        Some(CaptureMode::Both)
    } else if a == "--mic-only"@ {
        Some(CaptureMode::Microphone)
    } else {
        None
    }
}

pub open spec fn unknown_option_message(a: Seq<char>) -> Seq<char> {
    "unknown option '"@ + a + "'"@
}

pub open spec fn combined_flags_message() -> Seq<char> {
    "--mic and --mic-only cannot be combined or repeated"@
}

pub open spec fn second_title_message() -> Seq<char> {
    "only one title may be provided"@
}

pub open spec fn title_instead_of_flag_message() -> Seq<char> {
    "a permission mode flag is required instead of a title"@
}

/// The state after reading `args` for `start` from left to right: the title
/// so far, the mode so far, whether a mode flag was seen; or the first error.
pub open spec fn start_scan(args: Seq<Seq<char>>) -> Result<
    (Option<Seq<char>>, CaptureMode, bool),
    Seq<char>,
>
    decreases args.len(),
{
    if args.len() == 0 {
        Ok((None, CaptureMode::System, false))
    } else {
        match start_scan(args.drop_last()) {
            Err(e) => Err(e),
            Ok((title, mode, seen)) => {
                let a = args.last();
                match flag_mode(a) {
                    Some(requested) => if seen {
                        Err(combined_flags_message())
                    } else {
                        Ok((title, requested, true))
                    },
                    None => if is_option(a) {
                        Err(unknown_option_message(a))
                    } else if title is Some {
                        Err(second_title_message())
                    } else {
                        Ok((Some(a), mode, seen))
                    },
                }
            },
        }
    }
}

/// What `start`'s arguments mean: the title (`untitled` when none is given)
/// and the capture mode, or why they are refused.
pub open spec fn start_arguments(args: Seq<Seq<char>>) -> Result<(Seq<char>, CaptureMode), Seq<char>> {
    match start_scan(args) {
        Err(e) => Err(e),
        Ok((title, mode, _)) => Ok(
            (
                match title {
                    Some(t) => t,
                    None => "untitled"@,
                },
                mode,
            ),
        ),
    }
}

/// The mode after reading `request-permissions` arguments from left to right, or the first error.
pub open spec fn mode_scan(args: Seq<Seq<char>>) -> Result<CaptureMode, Seq<char>>
    decreases args.len(),
{
    if args.len() == 0 {
        Ok(CaptureMode::System)
    } else {
        match mode_scan(args.drop_last()) {
            Err(e) => Err(e),
            Ok(_) => {
                let a = args.last();
                match flag_mode(a) {
                    Some(requested) => Ok(requested),
                    None => if is_option(a) {
                        Err(unknown_option_message(a))
                    } else {
                        Err(title_instead_of_flag_message())
                    },
                }
            },
        }
    }
}

/// What `request-permissions`' arguments mean.
pub open spec fn mode_arguments(args: Seq<Seq<char>>) -> Result<CaptureMode, Seq<char>> {
    match mode_scan(args) {
        Err(e) => Err(e),
        Ok(mode) => if args.len() > 1 {
            Err(combined_flags_message())
        } else {
            Ok(mode)
        },
    }
}

/// The view of a `start` parse result.
pub open spec fn start_result_view(r: Result<(String, CaptureMode), String>) -> Result<
    (Seq<char>, CaptureMode),
    Seq<char>,
> {
    match r {
        Ok((t, m)) => Ok((t@, m)),
        Err(e) => Err(e@),
    }
}

/// The view of a `request-permissions` parse result.
pub open spec fn mode_result_view(r: Result<CaptureMode, String>) -> Result<CaptureMode, Seq<char>> {
    match r {
        Ok(m) => Ok(m),
        Err(e) => Err(e@),
    }
}

fn flag_of(a: &str) -> (r: Option<CaptureMode>)
    ensures
        r == flag_mode(a@),
{
    if str_eq(a, "--mic") {
        Some(CaptureMode::Both)
    } else if str_eq(a, "--mic-only") {
        Some(CaptureMode::Microphone)
    } else {
        None
    }
}

fn option_like(a: &str) -> (r: bool)
    ensures
        r == is_option(a@),
{
    let c = chars_of(a);
    c.len() > 0 && c[0] == '-'
}

fn unknown_option(a: &str) -> (m: String)
    ensures
        m@ == unknown_option_message(a@),
{
    let mut m = String::new();
    push_str(&mut m, "unknown option '");
    push_str(&mut m, a);
    push_str(&mut m, "'");
    assert(m@ =~= unknown_option_message(a@));
    m
}

fn text(s: &str) -> (r: String)
    ensures
        r@ == s@,
{
    let c = chars_of(s);
    string_of(c.as_slice())
}

/// Reads `start [title] [--mic|--mic-only]`.
pub fn parse_start_arguments(arguments: &[String]) -> (r: Result<(String, CaptureMode), String>)
    ensures
        start_result_view(r) == start_arguments(arg_views(arguments@)),
{
    let ghost args = arg_views(arguments@);
    let mut title: Option<String> = None;
    let mut mode = CaptureMode::System;
    let mut flag_seen = false;
    let mut i: usize = 0;
    while i < arguments.len()
        invariant
            i <= arguments@.len(),
            args == arg_views(arguments@),
            start_scan(args.take(i as int)) == Ok::<(Option<Seq<char>>, CaptureMode, bool), Seq<char>>(
                (
                    match title {
                        Some(t) => Some(t@),
                        None => None,
                    },
                    mode,
                    flag_seen,
                ),
            ),
        decreases arguments.len() - i,
    {
        let argument = arguments[i].as_str();
        assert(args.take(i + 1).drop_last() =~= args.take(i as int));
        assert(args.take(i + 1).last() == argument@);
        match flag_of(argument) {
            Some(requested) => {
                if flag_seen {
                    let r = Err(text("--mic and --mic-only cannot be combined or repeated"));
                    proof {
                        lemma_start_error_sticks(args, i as int + 1);
                    }
                    return r;
                }
                mode = requested;
                flag_seen = true;
            },
            None => {
                if option_like(argument) {
                    let r = Err(unknown_option(argument));
                    proof {
                        lemma_start_error_sticks(args, i as int + 1);
                    }
                    return r;
                }
                if title.is_some() {
                    let r = Err(text("only one title may be provided"));
                    proof {
                        lemma_start_error_sticks(args, i as int + 1);
                    }
                    return r;
                }
                title = Some(text(argument));
            },
        }
        i = i + 1;
    }
    assert(args.take(arguments@.len() as int) =~= args);
    match title {
        Some(t) => Ok((t, mode)),
        None => Ok((text("untitled"), mode)),
    }
}

/// Once reading a prefix of the arguments fails, reading all of them fails the same way.
proof fn lemma_start_error_sticks(args: Seq<Seq<char>>, k: int)
    requires
        0 <= k <= args.len(),
        start_scan(args.take(k)) is Err,
    ensures
        start_scan(args) == start_scan(args.take(k)),
    decreases args.len() - k,
{
    if k < args.len() {
        assert(args.take(k + 1).drop_last() =~= args.take(k));
        lemma_start_error_sticks(args, k + 1);
    } else {
        assert(args.take(k) =~= args);
    }
}

proof fn lemma_mode_error_sticks(args: Seq<Seq<char>>, k: int)
    requires
        0 <= k <= args.len(),
        mode_scan(args.take(k)) is Err,
    ensures
        mode_scan(args) == mode_scan(args.take(k)),
    decreases args.len() - k,
{
    if k < args.len() {
        assert(args.take(k + 1).drop_last() =~= args.take(k));
        lemma_mode_error_sticks(args, k + 1);
    } else {
        assert(args.take(k) =~= args);
    }
}

/// Reads `request-permissions [--mic|--mic-only]`.
pub fn parse_mode_arguments(arguments: &[String]) -> (r: Result<CaptureMode, String>)
    ensures
        mode_result_view(r) == mode_arguments(arg_views(arguments@)),
{
    let ghost args = arg_views(arguments@);
    let mut mode = CaptureMode::System;
    let mut i: usize = 0;
    while i < arguments.len()
        invariant
            i <= arguments@.len(),
            args == arg_views(arguments@),
            mode_scan(args.take(i as int)) == Ok::<CaptureMode, Seq<char>>(mode),
        decreases arguments.len() - i,
    {
        let argument = arguments[i].as_str();
        assert(args.take(i + 1).drop_last() =~= args.take(i as int));
        assert(args.take(i + 1).last() == argument@);
        match flag_of(argument) {
            Some(requested) => {
                mode = requested;
            },
            None => {
                let r = if option_like(argument) {
                    Err(unknown_option(argument))
                } else {
                    Err(text("a permission mode flag is required instead of a title"))
                };
                proof {
                    lemma_mode_error_sticks(args, i as int + 1);
                }
                return r;
            },
        }
        i = i + 1;
    }
    assert(args.take(arguments@.len() as int) =~= args);
    if arguments.len() > 1 {
        return Err(text("--mic and --mic-only cannot be combined or repeated"));
    }
    Ok(mode)
}

// ---------------------------------------------------------------------------
// Laws
// ---------------------------------------------------------------------------

proof fn lemma_mode_scan_shape(args: Seq<Seq<char>>)
    ensures
        mode_scan(args) is Ok ==> forall|i: int| 0 <= i < args.len() ==> #[trigger] flag_mode(args[i]) is Some,
        mode_scan(args) is Ok && args.len() > 0 ==> mode_scan(args) == Ok::<CaptureMode, Seq<char>>(
            flag_mode(args.last())->0,
        ),
        (forall|i: int| 0 <= i < args.len() ==> #[trigger] flag_mode(args[i]) is Some) ==> mode_scan(args) is Ok,
    decreases args.len(),
{
    if args.len() > 0 {
        lemma_mode_scan_shape(args.drop_last());
        if forall|i: int| 0 <= i < args.len() ==> #[trigger] flag_mode(args[i]) is Some {
            assert forall|i: int| 0 <= i < args.drop_last().len() implies #[trigger] flag_mode(args.drop_last()[i]) is Some by {
                assert(args.drop_last()[i] == args[i]);
            }
        }
        if mode_scan(args) is Ok {
            assert forall|i: int| 0 <= i < args.len() implies #[trigger] flag_mode(args[i]) is Some by {
                if i < args.len() - 1 {
                    assert(args.drop_last()[i] == args[i]);
                }
            }
        }
    }
}

/// `request-permissions` accepts exactly no flag (system audio), `--mic`
/// (both sources) or `--mic-only` (microphone only).
pub proof fn lemma_mode_arguments_accepted(args: Seq<Seq<char>>)
    ensures
        mode_arguments(args) == Ok::<CaptureMode, Seq<char>>(CaptureMode::System) <==> args.len() == 0,
        mode_arguments(args) == Ok::<CaptureMode, Seq<char>>(CaptureMode::Both) <==> args == seq!["--mic"@],
        mode_arguments(args) == Ok::<CaptureMode, Seq<char>>(CaptureMode::Microphone) <==> args == seq![
            "--mic-only"@,
        ],
{
    reveal_strlit("--mic");
    reveal_strlit("--mic-only");
    assert("--mic"@.len() != "--mic-only"@.len());
    lemma_mode_scan_shape(args);
    if args.len() == 1 {
        assert(args.drop_last() =~= Seq::<Seq<char>>::empty());
        if args[0] == "--mic"@ {
            assert(args =~= seq!["--mic"@]);
        }
        if args[0] == "--mic-only"@ {
            assert(args =~= seq!["--mic-only"@]);
        }
    }
    if args == seq!["--mic"@] {
        assert(args.last() == "--mic"@);
    }
    if args == seq!["--mic-only"@] {
        assert(args.last() == "--mic-only"@);
    }
}

/// How many mode flags `args` holds.
pub open spec fn flag_count(args: Seq<Seq<char>>) -> nat
    decreases args.len(),
{
    if args.len() == 0 {
        0
    } else {
        flag_count(args.drop_last()) + if flag_mode(args.last()) is Some { 1nat } else { 0nat }
    }
}

/// How many titles `args` holds (arguments that are neither flags nor options).
pub open spec fn title_count(args: Seq<Seq<char>>) -> nat
    decreases args.len(),
{
    if args.len() == 0 {
        0
    } else {
        title_count(args.drop_last()) + if flag_mode(args.last()) is None && !is_option(args.last()) {
            1nat
        } else {
            0nat
        }
    }
}

proof fn lemma_start_scan_counts(args: Seq<Seq<char>>)
    ensures
        start_scan(args) matches Ok((title, mode, seen)) ==> {
            &&& seen <==> flag_count(args) == 1
            &&& flag_count(args) <= 1
            &&& (title is Some <==> title_count(args) == 1)
            &&& title_count(args) <= 1
            &&& (flag_count(args) == 0 ==> mode == CaptureMode::System)
            &&& forall|i: int| 0 <= i < args.len() ==> !(flag_mode(#[trigger] args[i]) is None && is_option(args[i]))
            &&& forall|i: int| 0 <= i < args.len() && flag_mode(#[trigger] args[i]) is Some ==> flag_mode(args[i]) == Some(mode)
            &&& forall|i: int| 0 <= i < args.len() && flag_mode(#[trigger] args[i]) is None ==> title == Some(args[i])
        },
        (flag_count(args) <= 1 && title_count(args) <= 1 && forall|i: int|
            0 <= i < args.len() ==> !(flag_mode(#[trigger] args[i]) is None && is_option(args[i]))) ==> start_scan(args) is Ok,
    decreases args.len(),
{
    if args.len() > 0 {
        let init = args.drop_last();
        lemma_start_scan_counts(init);
        assert forall|i: int| 0 <= i < init.len() implies #[trigger] init[i] == args[i] by {}
        if flag_count(args) <= 1 && title_count(args) <= 1 && forall|i: int|
            0 <= i < args.len() ==> !(flag_mode(#[trigger] args[i]) is None && is_option(args[i])) {
            assert forall|i: int| 0 <= i < init.len() implies !(flag_mode(#[trigger] init[i]) is None && is_option(init[i])) by {
                assert(init[i] == args[i]);
            }
            assert(!(flag_mode(args[args.len() - 1]) is None && is_option(args[args.len() - 1])));
        }
        if start_scan(args) is Ok {
            let last = args.last();
            assert(args[args.len() - 1] == last);
            let (title0, mode0, seen0) = start_scan(init)->Ok_0;
            let (title, mode, seen) = start_scan(args)->Ok_0;
            assert(!(flag_mode(last) is None && is_option(last)));
            assert forall|i: int| 0 <= i < args.len() implies !(flag_mode(#[trigger] args[i]) is None && is_option(args[i])) by {
                if i < args.len() - 1 {
                    assert(init[i] == args[i]);
                }
            }
            assert forall|i: int| 0 <= i < args.len() && flag_mode(#[trigger] args[i]) is Some implies flag_mode(args[i]) == Some(mode) by {
                if i < args.len() - 1 {
                    assert(init[i] == args[i]);
                    assert(flag_mode(last) is None);
                }
            }
            assert forall|i: int| 0 <= i < args.len() && flag_mode(#[trigger] args[i]) is None implies title == Some(args[i]) by {
                if i < args.len() - 1 {
                    assert(init[i] == args[i]);
                    assert(!(flag_mode(last) is None));
                }
            }
        }
    }
}

/// `start` accepts at most one title and at most one mode flag, and refuses
/// other options; the mode is the one the flag selects (system audio without
/// a flag), and the title is the one given (`untitled` without one).
pub proof fn lemma_start_arguments_accepted(args: Seq<Seq<char>>)
    ensures
        start_arguments(args) is Ok <==> (flag_count(args) <= 1 && title_count(args) <= 1 && forall|i: int|
            0 <= i < args.len() ==> !(flag_mode(#[trigger] args[i]) is None && is_option(args[i]))),
        start_arguments(args) matches Ok((title, mode)) ==> {
            &&& (flag_count(args) == 0 ==> mode == CaptureMode::System)
            &&& forall|i: int| 0 <= i < args.len() && flag_mode(#[trigger] args[i]) is Some ==> flag_mode(args[i]) == Some(mode)
            &&& (title_count(args) == 0 ==> title == "untitled"@)
            &&& forall|i: int| 0 <= i < args.len() && flag_mode(#[trigger] args[i]) is None ==> title == args[i]
        },
{
    lemma_start_scan_counts(args);
}

} // verus!
