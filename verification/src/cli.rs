//! The command line: flags, what they ask for, and the usage text.
use vstd::prelude::*;
use vstd::string::*;

use crate::config::{parse_bool, parse_bool_spec, resolve, resolve_spec, Config, ConfigView, Env, EnvView};
use crate::text::{first_is_dash, has_prefix, starts_with_dash, str_equal, strip_prefix};

verus! {

/// The help text.
pub const USAGE: &'static str = "\
watari - mirror the X11 (XWayland) CLIPBOARD selection to the Wayland clipboard

USAGE:
    watari [OPTIONS]

OPTIONS:
    --display <DISPLAY>     X server to connect to [env: DISPLAY] [default: :0]
    --mirror-clears[=BOOL]  Propagate an X CLIPBOARD clear to Wayland
                            [env: MIRROR_CLEARS] [default: true]
    --no-mirror-clears      Shorthand for --mirror-clears=false
    --print-config          Print the resolved configuration and exit
    -h, --help              Print this help and exit
    -V, --version           Print the version and exit

ENVIRONMENT:
    DISPLAY        X server to connect to (default :0)
    MIRROR_CLEARS  Whether to propagate clipboard clears (default true)
    RUST_LOG       env_logger filter, e.g. info or debug (default info)
";

/// What the command line asks for.
#[derive(Debug, Clone, PartialEq, Eq)]
pub enum Action {
    Run(Config),
    PrintConfig(Config),
    Help,
    Version,
}

/// A command line that cannot be understood.
#[derive(Debug, Clone, PartialEq, Eq)]
pub struct CliError {
    message: String,
}

/// The mathematical value of an [`Action`].
pub enum ActionView {
    Run(ConfigView),
    PrintConfig(ConfigView),
    Help,
    Version,
}

impl View for Action {
    type V = ActionView;

    open spec fn view(&self) -> ActionView {
        match self {
            Action::Run(config) => ActionView::Run(config@),
            Action::PrintConfig(config) => ActionView::PrintConfig(config@),
            Action::Help => ActionView::Help,
            Action::Version => ActionView::Version,
        }
    }
}

impl View for CliError {
    /// The message.
    type V = Seq<char>;

    closed spec fn view(&self) -> Seq<char> {
        self.message@
    }
}

impl CliError {
    /// An error with this message.
    pub fn new(message: String) -> (error: Self)
        ensures
            error@ == message@,
    {
        CliError { message }
    }

    /// The message, as the error displays.
    pub fn to_string(&self) -> (text: String)
        ensures
            text@ == self@,
    {
        self.message.clone()
    }
}

/// What the flags seen so far set.
pub struct Flags {
    pub display: Option<Seq<char>>,
    pub mirror_clears: Option<bool>,
    pub print_config: bool,
    pub help: bool,
    pub version: bool,
}

/// Nothing set.
pub open spec fn no_flags() -> Flags {
    Flags { display: None, mirror_clears: None, print_config: false, help: false, version: false }
}

/// The message for a `--display` without a value.
pub open spec fn missing_display_message() -> Seq<char> {
    "--display requires a value"@
}

/// The message for an argument that is no flag.
pub open spec fn unknown_argument_message(arg: Seq<char>) -> Seq<char> {
    "unknown argument: "@ + arg
}

/// Reads `args` from left to right on top of `flags`; a later flag
/// overrides an earlier one. `--display` takes the next argument as its
/// value unless there is none or it begins with a dash.
pub open spec fn scan_args(args: Seq<Seq<char>>, flags: Flags) -> Result<Flags, Seq<char>>
    decreases args.len(),
{
    if args.len() == 0 {
        Ok(flags)
    } else {
        let arg = args[0];
        let rest = args.drop_first();
        if arg == "-h"@ || arg == "--help"@ {
            scan_args(rest, Flags { help: true, ..flags })
        } else if arg == "-V"@ || arg == "--version"@ {
            scan_args(rest, Flags { version: true, ..flags })
        } else if arg == "--print-config"@ {
            scan_args(rest, Flags { print_config: true, ..flags })
        } else if arg == "--mirror-clears"@ {
            scan_args(rest, Flags { mirror_clears: Some(true), ..flags })
        } else if arg == "--no-mirror-clears"@ {
            scan_args(rest, Flags { mirror_clears: Some(false), ..flags })
        } else if arg == "--display"@ {
            if rest.len() > 0 && !starts_with_dash(rest[0]) {
                scan_args(rest.drop_first(), Flags { display: Some(rest[0]), ..flags })
            } else {
                Err(missing_display_message())
            }
        } else if has_prefix(arg, "--mirror-clears="@) {
            scan_args(
                rest,
                Flags {
                    mirror_clears: Some(parse_bool_spec(arg.skip("--mirror-clears="@.len() as int))),
                    ..flags
                },
            )
        } else if has_prefix(arg, "--display="@) {
            scan_args(rest, Flags { display: Some(arg.skip("--display="@.len() as int)), ..flags })
        } else {
            Err(unknown_argument_message(arg))
        }
    }
}

/// The action for `args` in environment `env`: help before version before
/// printing the configuration before running.
pub open spec fn parse_spec(args: Seq<Seq<char>>, env: EnvView) -> Result<ActionView, Seq<char>> {
    match scan_args(args, no_flags()) {
        Err(message) => Err(message),
        Ok(flags) => if flags.help {
            Ok(ActionView::Help)
        } else if flags.version {
            Ok(ActionView::Version)
        } else {
            let config = resolve_spec(flags.display, flags.mirror_clears, env);
            if flags.print_config {
                Ok(ActionView::PrintConfig(config))
            } else {
                Ok(ActionView::Run(config))
            }
        },
    }
}

/// The characters of each argument.
pub open spec fn args_view(args: Seq<String>) -> Seq<Seq<char>> {
    args.map_values(|arg: String| arg@)
}

spec fn current_flags(
    display: Option<String>,
    mirror_clears: Option<bool>,
    print_config: bool,
    help: bool,
    version: bool,
) -> Flags {
    Flags {
        display: crate::config::opt_view(display),
        mirror_clears,
        print_config,
        help,
        version,
    }
}

/// Parses the command line (without the program name) in environment
/// `env`.
pub fn parse(args: Vec<String>, env: &Env) -> (action: Result<Action, CliError>)
    ensures
        match action {
            Ok(action) => parse_spec(args_view(args@), env@) == Ok::<ActionView, Seq<char>>(
                action@,
            ),
            Err(error) => parse_spec(args_view(args@), env@) == Err::<ActionView, Seq<char>>(
                error@,
            ),
        },
{
    let ghost all = args_view(args@);
    let mut display_override: Option<String> = None;
    let mut mirror_clears_override: Option<bool> = None;
    let mut print_config = false;
    let mut help = false;
    let mut version = false;
    let mut i: usize = 0;
    assert(all.skip(0) =~= all);
    while i < args.len()
        invariant
            all == args_view(args@),
            i <= args@.len(),
            scan_args(
                all.skip(i as int),
                current_flags(display_override, mirror_clears_override, print_config, help, version),
            ) == scan_args(all, no_flags()),
        decreases args@.len() - i,
    {
        let ghost before = current_flags(
            display_override,
            mirror_clears_override,
            print_config,
            help,
            version,
        );
        let ghost remaining = all.skip(i as int);
        assert(remaining[0] == args@[i as int]@);
        assert(remaining.drop_first() =~= all.skip(i + 1));
        let arg = args[i].as_str();
        if str_equal(arg, "-h") || str_equal(arg, "--help") {
            help = true;
        } else if str_equal(arg, "-V") || str_equal(arg, "--version") {
            version = true;
        } else if str_equal(arg, "--print-config") {
            print_config = true;
        } else if str_equal(arg, "--mirror-clears") {
            mirror_clears_override = Some(true);
        } else if str_equal(arg, "--no-mirror-clears") {
            mirror_clears_override = Some(false);
        } else if str_equal(arg, "--display") {
            if i + 1 < args.len() && !first_is_dash(args[i + 1].as_str()) {
                assert(remaining.drop_first()[0] == args@[i + 1]@);
                assert(remaining.drop_first().drop_first() =~= all.skip(i + 2));
                display_override = Some(args[i + 1].clone());
                i = i + 1;
            } else {
                return Err(CliError::new(String::from_str("--display requires a value")));
            }
        } else {
            match strip_prefix(arg, "--mirror-clears=") {
                Some(value) => {
                    mirror_clears_override = Some(parse_bool(value));
                },
                None => match strip_prefix(arg, "--display=") {
                    Some(value) => {
                        display_override = Some(value.to_owned());
                    },
                    None => {
                        let message = String::from_str("unknown argument: ").concat(arg);
                        return Err(CliError::new(message));
                    },
                },
            }
        }
        i = i + 1;
    }
    assert(all.skip(i as int).len() == 0);
    if help {
        return Ok(Action::Help);
    }
    if version {
        return Ok(Action::Version);
    }
    let config = match &display_override {
        Some(display) => resolve(Some(display.as_str()), mirror_clears_override, env),
        None => resolve(None, mirror_clears_override, env),
    };
    if print_config {
        Ok(Action::PrintConfig(config))
    } else {
        Ok(Action::Run(config))
    }
}


/// Whether reading `args` succeeds, and whether it ends with help or
/// version asked for, does not depend on the flags it starts from, except
/// that a flag already set stays set.
proof fn lemma_scan_keeps_flags(args: Seq<Seq<char>>, first: Flags, second: Flags)
    ensures
        (scan_args(args, first) is Ok) == (scan_args(args, second) is Ok),
        scan_args(args, first) is Ok ==> {
            let a = scan_args(args, first)->Ok_0;
            let b = scan_args(args, second)->Ok_0;
            &&& first.help ==> a.help
            &&& first.version ==> a.version
            &&& first.help == second.help ==> a.help == b.help
            &&& first.version == second.version ==> a.version == b.version
        },
    decreases args.len(),
{
    if args.len() > 0 {
        let arg = args[0];
        let rest = args.drop_first();
        if arg == "-h"@ || arg == "--help"@ {
            lemma_scan_keeps_flags(rest, Flags { help: true, ..first }, Flags { help: true, ..second });
        } else if arg == "-V"@ || arg == "--version"@ {
            lemma_scan_keeps_flags(
                rest,
                Flags { version: true, ..first },
                Flags { version: true, ..second },
            );
        } else if arg == "--print-config"@ {
            lemma_scan_keeps_flags(
                rest,
                Flags { print_config: true, ..first },
                Flags { print_config: true, ..second },
            );
        } else if arg == "--mirror-clears"@ {
            lemma_scan_keeps_flags(
                rest,
                Flags { mirror_clears: Some(true), ..first },
                Flags { mirror_clears: Some(true), ..second },
            );
        } else if arg == "--no-mirror-clears"@ {
            lemma_scan_keeps_flags(
                rest,
                Flags { mirror_clears: Some(false), ..first },
                Flags { mirror_clears: Some(false), ..second },
            );
        } else if arg == "--display"@ {
            if rest.len() > 0 && !starts_with_dash(rest[0]) {
                lemma_scan_keeps_flags(
                    rest.drop_first(),
                    Flags { display: Some(rest[0]), ..first },
                    Flags { display: Some(rest[0]), ..second },
                );
            }
        } else if has_prefix(arg, "--mirror-clears="@) {
            let value = Some(parse_bool_spec(arg.skip("--mirror-clears="@.len() as int)));
            lemma_scan_keeps_flags(
                rest,
                Flags { mirror_clears: value, ..first },
                Flags { mirror_clears: value, ..second },
            );
        } else if has_prefix(arg, "--display="@) {
            let value = Some(arg.skip("--display="@.len() as int));
            lemma_scan_keeps_flags(
                rest,
                Flags { display: value, ..first },
                Flags { display: value, ..second },
            );
        }
    }
}

/// Help beats version beats everything else: putting `--help` in front of
/// a command line that parses asks for help, and putting `--version` in
/// front asks for the version unless help was asked for.
pub proof fn lemma_help_beats_version_beats_run(args: Seq<Seq<char>>, env: EnvView)
    requires
        parse_spec(args, env) is Ok,
    ensures
        parse_spec(seq!["--help"@] + args, env) == Ok::<ActionView, Seq<char>>(ActionView::Help),
        parse_spec(seq!["--version"@] + args, env) == (if parse_spec(args, env) == Ok::<
            ActionView,
            Seq<char>,
        >(ActionView::Help) {
            Ok::<ActionView, Seq<char>>(ActionView::Help)
        } else {
            Ok::<ActionView, Seq<char>>(ActionView::Version)
        }),
{
    let with_help = seq!["--help"@] + args;
    let with_version = seq!["--version"@] + args;
    assert(with_help[0] == "--help"@);
    assert(with_help.drop_first() =~= args);
    assert(with_version[0] == "--version"@);
    assert(with_version.drop_first() =~= args);
    reveal_strlit("--version");
    reveal_strlit("-h");
    reveal_strlit("--help");
    reveal_strlit("-V");
    lemma_scan_keeps_flags(args, Flags { help: true, ..no_flags() }, no_flags());
    lemma_scan_keeps_flags(args, Flags { version: true, ..no_flags() }, no_flags());
}
/// Whether `word` is one of `args`.
pub open spec fn mentions(args: Seq<Seq<char>>, word: Seq<char>) -> bool
    decreases args.len(),
{
    args.len() > 0 && (args[0] == word || mentions(args.drop_first(), word))
}

/// Whether `args` asks for help.
pub open spec fn asks_for_help(args: Seq<Seq<char>>) -> bool {
    mentions(args, "-h"@) || mentions(args, "--help"@)
}

/// Whether `args` asks for the version.
pub open spec fn asks_for_version(args: Seq<Seq<char>>) -> bool {
    mentions(args, "-V"@) || mentions(args, "--version"@)
}

/// When reading `args` succeeds, help, version and printing the
/// configuration are set exactly when they were already set or some
/// argument asks for them.
proof fn lemma_scan_sets_flags_by_mention(args: Seq<Seq<char>>, flags: Flags)
    ensures
        scan_args(args, flags) matches Ok(result) ==> {
            &&& result.help == (flags.help || asks_for_help(args))
            &&& result.version == (flags.version || asks_for_version(args))
            &&& result.print_config == (flags.print_config || mentions(args, "--print-config"@))
        },
    decreases args.len(),
{
    reveal_strlit("-h");
    reveal_strlit("--help");
    reveal_strlit("-V");
    reveal_strlit("--version");
    reveal_strlit("--print-config");
    if args.len() > 0 {
        let arg = args[0];
        let rest = args.drop_first();
        assert(mentions(args, "-h"@) == (arg == "-h"@ || mentions(rest, "-h"@)));
        assert(mentions(args, "--help"@) == (arg == "--help"@ || mentions(rest, "--help"@)));
        assert(mentions(args, "-V"@) == (arg == "-V"@ || mentions(rest, "-V"@)));
        assert(mentions(args, "--version"@) == (arg == "--version"@ || mentions(rest, "--version"@)));
        assert(mentions(args, "--print-config"@) == (arg == "--print-config"@ || mentions(
            rest,
            "--print-config"@,
        )));
        if arg == "-h"@ || arg == "--help"@ {
            assert("-h"@ != "-V"@) by {
                assert("-h"@[1] != "-V"@[1]);
            }
            assert("-h"@.len() != "--version"@.len() && "-h"@.len() != "--print-config"@.len());
            assert("--help"@.len() != "-V"@.len() && "--help"@.len() != "--version"@.len()
                && "--help"@.len() != "--print-config"@.len());
            lemma_scan_sets_flags_by_mention(rest, Flags { help: true, ..flags });
        } else if arg == "-V"@ || arg == "--version"@ {
            lemma_scan_sets_flags_by_mention(rest, Flags { version: true, ..flags });
        } else if arg == "--print-config"@ {
            lemma_scan_sets_flags_by_mention(rest, Flags { print_config: true, ..flags });
        } else if arg == "--mirror-clears"@ {
            lemma_scan_sets_flags_by_mention(rest, Flags { mirror_clears: Some(true), ..flags });
        } else if arg == "--no-mirror-clears"@ {
            lemma_scan_sets_flags_by_mention(rest, Flags { mirror_clears: Some(false), ..flags });
        } else if arg == "--display"@ {
            if rest.len() > 0 && !starts_with_dash(rest[0]) {
                let value = rest[0];
                let after = rest.drop_first();
                assert(value != "-h"@ && value != "--help"@ && value != "-V"@ && value
                    != "--version"@ && value != "--print-config"@) by {
                    assert("-h"@[0] == '-');
                    assert("--help"@[0] == '-');
                    assert("-V"@[0] == '-');
                    assert("--version"@[0] == '-');
                    assert("--print-config"@[0] == '-');
                }
                assert(mentions(rest, "-h"@) == (value == "-h"@ || mentions(after, "-h"@)));
                assert(mentions(rest, "--help"@) == (value == "--help"@ || mentions(after, "--help"@)));
                assert(mentions(rest, "-V"@) == (value == "-V"@ || mentions(after, "-V"@)));
                assert(mentions(rest, "--version"@) == (value == "--version"@ || mentions(
                    after,
                    "--version"@,
                )));
                assert(mentions(rest, "--print-config"@) == (value == "--print-config"@
                    || mentions(after, "--print-config"@)));
                lemma_scan_sets_flags_by_mention(after, Flags { display: Some(value), ..flags });
            }
        } else if has_prefix(arg, "--mirror-clears="@) {
            lemma_scan_sets_flags_by_mention(
                rest,
                Flags {
                    mirror_clears: Some(parse_bool_spec(arg.skip("--mirror-clears="@.len() as int))),
                    ..flags
                },
            );
        } else if has_prefix(arg, "--display="@) {
            lemma_scan_sets_flags_by_mention(
                rest,
                Flags { display: Some(arg.skip("--display="@.len() as int)), ..flags },
            );
        }
    }
}

/// A command line that parses asks for help exactly when some argument
/// is `-h` or `--help`; otherwise for the version exactly when some
/// argument is `-V` or `--version`; otherwise prints the configuration
/// exactly when some argument is `--print-config`; and otherwise runs.
pub proof fn lemma_parse_result_by_flags(args: Seq<Seq<char>>, env: EnvView)
    ensures
        parse_spec(args, env) matches Ok(action) ==> {
            &&& (action == ActionView::Help) == asks_for_help(args)
            &&& (action == ActionView::Version) == (!asks_for_help(args) && asks_for_version(args))
            &&& (action is PrintConfig) == (!asks_for_help(args) && !asks_for_version(args)
                && mentions(args, "--print-config"@))
            &&& (action is Run) == (!asks_for_help(args) && !asks_for_version(args) && !mentions(
                args,
                "--print-config"@,
            ))
        },
{
    lemma_scan_sets_flags_by_mention(args, no_flags());
}

/// An argument that cannot be understood fails the whole command line,
/// even with `--help` or `--version` in front of it.
pub proof fn lemma_errors_beat_help(args: Seq<Seq<char>>, env: EnvView)
    requires
        parse_spec(args, env) is Err,
    ensures
        parse_spec(seq!["--help"@] + args, env) is Err,
        parse_spec(seq!["--version"@] + args, env) is Err,
{
    let with_help = seq!["--help"@] + args;
    let with_version = seq!["--version"@] + args;
    assert(with_help[0] == "--help"@);
    assert(with_help.drop_first() =~= args);
    assert(with_version[0] == "--version"@);
    assert(with_version.drop_first() =~= args);
    reveal_strlit("--version");
    reveal_strlit("-h");
    reveal_strlit("--help");
    reveal_strlit("-V");
    lemma_scan_keeps_flags(args, Flags { help: true, ..no_flags() }, no_flags());
    lemma_scan_keeps_flags(args, Flags { version: true, ..no_flags() }, no_flags());
}

/// The value of `--mirror-clears=VALUE` is read as [`parse_bool_spec`]
/// reads it, so "0", "false", "no" and "off" turn clears off, as they do
/// in `MIRROR_CLEARS`; and the flag wins over the environment.
pub proof fn lemma_mirror_clears_value_read_as_boolean(value: Seq<char>, env: EnvView)
    ensures
        parse_spec(seq!["--mirror-clears="@ + value], env) == Ok::<ActionView, Seq<char>>(
            ActionView::Run(resolve_spec(None, Some(parse_bool_spec(value)), env)),
        ),
        parse_spec(seq!["--mirror-clears="@ + value], env) matches Ok(ActionView::Run(config))
            ==> config.mirror_clears == parse_bool_spec(value),
{
    reveal_strlit("-h");
    reveal_strlit("--help");
    reveal_strlit("-V");
    reveal_strlit("--version");
    reveal_strlit("--print-config");
    reveal_strlit("--mirror-clears");
    reveal_strlit("--no-mirror-clears");
    reveal_strlit("--display");
    reveal_strlit("--mirror-clears=");
    let prefix = "--mirror-clears="@;
    let arg = prefix + value;
    let args = seq![arg];
    assert(args[0] == arg);
    assert(args.drop_first() =~= Seq::<Seq<char>>::empty());
    assert(prefix.len() == 16);
    assert(arg.len() >= 16);
    assert(arg[2] == 'm');
    assert("--no-mirror-clears"@[2] == 'n');
    assert(arg != "--no-mirror-clears"@);
    assert(arg != "--mirror-clears"@);
    assert(arg.subrange(0, 16) =~= prefix);
    assert(has_prefix(arg, prefix));
    assert(arg.skip(16) =~= value);
    let flags = Flags { mirror_clears: Some(parse_bool_spec(value)), ..no_flags() };
    assert(scan_args(args, no_flags()) == scan_args(Seq::<Seq<char>>::empty(), flags));
}

} // verus!
