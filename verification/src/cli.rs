//! The command line of both programs.

use vstd::prelude::*;

use crate::text::{own, same_text};
use crate::transport::setting;

verus! {

/// What the command line asks for.
#[derive(Debug)]
pub enum Command {
    Help,
    Version,
    Run { config: String },
}

/// What a [`Command`] says.
#[verifier::ext_equal]
pub enum CommandView {
    Help,
    Version,
    Run { config: Seq<char> },
}

impl View for Command {
    type V = CommandView;

    open spec fn view(&self) -> CommandView {
        match self {
            Command::Help => CommandView::Help,
            Command::Version => CommandView::Version,
            Command::Run { config } => CommandView::Run { config: config@ },
        }
    }
}

/// What is wrong with the command line.
#[derive(Debug)]
pub enum ArgsError {
    MissingCommand,
    UnsupportedCommand { command: String },
    MissingConfigValue,
    UnknownArg { arg: String },
    MissingConfig,
}

/// What an [`ArgsError`] says.
#[verifier::ext_equal]
pub enum ArgsErrorView {
    MissingCommand,
    UnsupportedCommand { command: Seq<char> },
    MissingConfigValue,
    UnknownArg { arg: Seq<char> },
    MissingConfig,
}

impl View for ArgsError {
    type V = ArgsErrorView;

    open spec fn view(&self) -> ArgsErrorView {
        match self {
            ArgsError::MissingCommand => ArgsErrorView::MissingCommand,
            ArgsError::UnsupportedCommand { command } => ArgsErrorView::UnsupportedCommand {
                command: command@,
            },
            ArgsError::MissingConfigValue => ArgsErrorView::MissingConfigValue,
            ArgsError::UnknownArg { arg } => ArgsErrorView::UnknownArg { arg: arg@ },
            ArgsError::MissingConfig => ArgsErrorView::MissingConfig,
        }
    }
}

impl ArgsError {
    /// The error in words.
    pub fn message(&self) -> (r: String)
        ensures
            r@ == match self@ {
                ArgsErrorView::MissingCommand => "missing command"@,
                ArgsErrorView::UnsupportedCommand { command } => "unsupported command: "@ + command,
                ArgsErrorView::MissingConfigValue => "--config requires a value"@,
                ArgsErrorView::UnknownArg { arg } => "unknown arg: "@ + arg,
                ArgsErrorView::MissingConfig => "missing --config"@,
            },
    {
        match self {
            ArgsError::MissingCommand => own("missing command"),
            ArgsError::UnsupportedCommand { command } => own("unsupported command: ").concat(
                command.as_str(),
            ),
            ArgsError::MissingConfigValue => own("--config requires a value"),
            ArgsError::UnknownArg { arg } => own("unknown arg: ").concat(arg.as_str()),
            ArgsError::MissingConfig => own("missing --config"),
        }
    }

    /// Whether the usage is printed with the error: where there is no command
    /// that is known.
    pub fn shows_usage(&self) -> (r: bool)
        ensures
            r == (self@ is MissingCommand || self@ is UnsupportedCommand),
    {
        match self {
            ArgsError::MissingCommand => true,
            ArgsError::UnsupportedCommand { .. } => true,
            _ => false,
        }
    }
}

/// The arguments as texts.
pub open spec fn arg_texts(args: Seq<String>) -> Seq<Seq<char>> {
    args.map_values(|a: String| a@)
}

/// What the options behind the command say. The last `--config` counts.
pub open spec fn parsed_options(rest: Seq<Seq<char>>, config: Option<Seq<char>>) -> Result<
    CommandView,
    ArgsErrorView,
>
    decreases rest.len(),
{
    if rest.len() == 0 {
        match config {
            Some(config) => Ok(CommandView::Run { config }),
            None => Err(ArgsErrorView::MissingConfig),
        }
    } else if rest[0] != "--config"@ {
        Err(ArgsErrorView::UnknownArg { arg: rest[0] })
    } else if rest.len() == 1 {
        Err(ArgsErrorView::MissingConfigValue)
    } else {
        parsed_options(rest.skip(2), Some(rest[1]))
    }
}

/// What the arguments behind the program's name ask for. A request for help
/// anywhere counts first, then one for the version.
pub open spec fn parsed_args(rest: Seq<Seq<char>>) -> Result<CommandView, ArgsErrorView> {
    if rest.contains("-h"@) || rest.contains("--help"@) {
        Ok(CommandView::Help)
    } else if rest.contains("-V"@) || rest.contains("--version"@) {
        Ok(CommandView::Version)
    } else if rest.len() == 0 {
        Err(ArgsErrorView::MissingCommand)
    } else if rest[0] != "run"@ {
        Err(ArgsErrorView::UnsupportedCommand { command: rest[0] })
    } else {
        parsed_options(rest.skip(1), None)
    }
}

/// Whether an argument asks for help or for the version.
pub open spec fn asks_for_text(arg: Seq<char>) -> bool {
    arg == "-h"@ || arg == "--help"@ || arg == "-V"@ || arg == "--version"@
}

/// The option `--config` with each of some values in turn.
pub open spec fn config_options(values: Seq<Seq<char>>) -> Seq<Seq<char>>
    decreases values.len(),
{
    if values.len() == 0 {
        Seq::empty()
    } else {
        seq!["--config"@, values[0]] + config_options(values.skip(1))
    }
}

proof fn lemma_config_options(
    values: Seq<Seq<char>>,
    tail: Seq<Seq<char>>,
    config: Option<Seq<char>>,
)
    ensures
        parsed_options(config_options(values) + tail, config) == parsed_options(
            tail,
            if values.len() == 0 {
                config
            } else {
                Some(values.last())
            },
        ),
    decreases values.len(),
{
    let all = config_options(values) + tail;
    if values.len() == 0 {
        assert(all =~= tail);
    } else {
        let rest = values.skip(1);
        assert(all.skip(2) =~= config_options(rest) + tail);
        assert(all[0] == "--config"@ && all[1] == values[0]);
        lemma_config_options(rest, tail, Some(values[0]));
        if values.len() > 1 {
            assert(rest.last() == values.last());
        }
    }
}

proof fn lemma_run(rest: Seq<Seq<char>>, options: Seq<Seq<char>>)
    requires
        rest == seq!["run"@] + options,
        forall|i: int| 0 <= i < rest.len() ==> !asks_for_text(#[trigger] rest[i]),
    ensures
        parsed_args(rest) == parsed_options(options, None),
{
    assert(rest.skip(1) =~= options);
    if rest.contains("-h"@) {
        let i = choose|i: int| 0 <= i < rest.len() && rest[i] == "-h"@;
        assert(asks_for_text(rest[i]));
    }
    if rest.contains("--help"@) {
        let i = choose|i: int| 0 <= i < rest.len() && rest[i] == "--help"@;
        assert(asks_for_text(rest[i]));
    }
    if rest.contains("-V"@) {
        let i = choose|i: int| 0 <= i < rest.len() && rest[i] == "-V"@;
        assert(asks_for_text(rest[i]));
    }
    if rest.contains("--version"@) {
        let i = choose|i: int| 0 <= i < rest.len() && rest[i] == "--version"@;
        assert(asks_for_text(rest[i]));
    }
}

/// A request for help anywhere is all that counts, and without one a request for
/// the version.
pub proof fn law_help_goes_first(rest: Seq<Seq<char>>, i: int)
    requires
        0 <= i < rest.len(),
    ensures
        rest[i] == "-h"@ || rest[i] == "--help"@ ==> parsed_args(rest) == Ok::<_, ArgsErrorView>(
            CommandView::Help,
        ),
        rest[i] == "-V"@ || rest[i] == "--version"@ ==> parsed_args(rest) == Ok::<
            _,
            ArgsErrorView,
        >(CommandView::Help) || parsed_args(rest) == Ok::<_, ArgsErrorView>(CommandView::Version),
        (rest[i] == "-V"@ || rest[i] == "--version"@) && !rest.contains("-h"@) && !rest.contains(
            "--help"@,
        ) ==> parsed_args(rest) == Ok::<_, ArgsErrorView>(CommandView::Version),
{
    assert(rest.contains(rest[i]));
}

/// `run` with one or more `--config` runs with the last one's value, and without
/// any is refused.
pub proof fn law_last_config_counts(values: Seq<Seq<char>>, rest: Seq<Seq<char>>)
    requires
        rest == seq!["run"@] + config_options(values),
        forall|i: int| 0 <= i < rest.len() ==> !asks_for_text(#[trigger] rest[i]),
    ensures
        parsed_args(rest) == if values.len() > 0 {
            Ok(CommandView::Run { config: values.last() })
        } else {
            Err::<CommandView, _>(ArgsErrorView::MissingConfig)
        },
{
    let options = config_options(values);
    lemma_run(rest, options);
    assert(options + Seq::<Seq<char>>::empty() =~= options);
    lemma_config_options(values, Seq::empty(), None);
}

/// A `--config` at the end has no value, and what is no option is named in the
/// error, whatever stands behind it.
pub proof fn law_bad_options_are_refused(
    values: Seq<Seq<char>>,
    arg: Seq<char>,
    more: Seq<Seq<char>>,
    rest: Seq<Seq<char>>,
)
    requires
        rest == seq!["run"@] + (config_options(values) + (seq![arg] + more)),
        forall|i: int| 0 <= i < rest.len() ==> !asks_for_text(#[trigger] rest[i]),
    ensures
        arg != "--config"@ ==> parsed_args(rest) == Err::<CommandView, _>(
            ArgsErrorView::UnknownArg { arg },
        ),
        arg == "--config"@ && more.len() == 0 ==> parsed_args(rest) == Err::<CommandView, _>(
            ArgsErrorView::MissingConfigValue,
        ),
{
    lemma_run(rest, config_options(values) + (seq![arg] + more));
    lemma_config_options(values, seq![arg] + more, None);
    assert((seq![arg] + more)[0] == arg);
}

/// Any other command is refused by its name, and no command at all is missed.
pub proof fn law_other_commands_are_refused(rest: Seq<Seq<char>>)
    requires
        forall|i: int| 0 <= i < rest.len() ==> !asks_for_text(#[trigger] rest[i]),
    ensures
        rest.len() == 0 ==> parsed_args(rest) == Err::<CommandView, _>(
            ArgsErrorView::MissingCommand,
        ),
        rest.len() > 0 && rest[0] != "run"@ ==> parsed_args(rest) == Err::<CommandView, _>(
            ArgsErrorView::UnsupportedCommand { command: rest[0] },
        ),
{
    assert forall|wanted: Seq<char>| asks_for_text(wanted) implies !(#[trigger] rest.contains(
        wanted,
    )) by {
        if rest.contains(wanted) {
            let i = choose|i: int| 0 <= i < rest.len() && rest[i] == wanted;
            assert(asks_for_text(rest[i]));
        }
    }
    assert(asks_for_text("-h"@) && asks_for_text("--help"@) && asks_for_text("-V"@)
        && asks_for_text("--version"@));
}

/// Whether an argument is among those from a position on.
fn has_arg(args: &Vec<String>, from: usize, wanted: &str) -> (r: bool)
    requires
        from <= args@.len(),
    ensures
        r == arg_texts(args@).skip(from as int).contains(wanted@),
{
    let ghost rest = arg_texts(args@).skip(from as int);
    let mut i: usize = from;
    while i < args.len()
        invariant
            from <= i <= args@.len(),
            rest == arg_texts(args@).skip(from as int),
            forall|j: int| 0 <= j < i - from ==> #[trigger] rest[j] != wanted@,
        decreases args@.len() - i,
    {
        assert(rest[i - from] == args@[i as int]@);
        if same_text(args[i].as_str(), wanted) {
            return true;
        }
        i += 1;
    }
    false
}

/// What a command line asks for. The first argument is the program's name.
pub fn parse_args(args: &Vec<String>) -> (r: Result<Command, ArgsError>)
    ensures
        match (
            r,
            parsed_args(
                if args@.len() == 0 {
                    Seq::empty()
                } else {
                    arg_texts(args@).skip(1)
                },
            ),
        ) {
            (Ok(command), Ok(expected)) => command@ == expected,
            (Err(e), Err(expected)) => e@ == expected,
            _ => false,
        },
{
    let ghost all = arg_texts(args@);
    if args.len() == 0 {
        return Err(ArgsError::MissingCommand);
    }
    if has_arg(args, 1, "-h") || has_arg(args, 1, "--help") {
        return Ok(Command::Help);
    }
    if has_arg(args, 1, "-V") || has_arg(args, 1, "--version") {
        return Ok(Command::Version);
    }
    if args.len() == 1 {
        return Err(ArgsError::MissingCommand);
    }
    assert(all.skip(1)[0] == args@[1]@);
    if !same_text(args[1].as_str(), "run") {
        return Err(ArgsError::UnsupportedCommand { command: args[1].clone() });
    }
    let mut config: Option<String> = None;
    let mut i: usize = 2;
    assert(all.skip(1).skip(1) =~= all.skip(2));
    while i < args.len()
        invariant
            2 <= i <= args@.len(),
            all == arg_texts(args@),
            parsed_options(
                all.skip(i as int),
                match config {
                    Some(c) => Some(c@),
                    None => None,
                },
            ) == parsed_args(all.skip(1)),
        decreases args@.len() - i,
    {
        let ghost rest = all.skip(i as int);
        assert(rest[0] == args@[i as int]@);
        if !same_text(args[i].as_str(), "--config") {
            return Err(ArgsError::UnknownArg { arg: args[i].clone() });
        }
        if args.len() - i == 1 {
            return Err(ArgsError::MissingConfigValue);
        }
        assert(rest[1] == args@[i + 1]@);
        assert(rest.skip(2) =~= all.skip(i + 2));
        config = Some(args[i + 1].clone());
        i += 2;
    }
    assert(all.skip(i as int).len() == 0);
    match config {
        Some(config) => Ok(Command::Run { config }),
        None => Err(ArgsError::MissingConfig),
    }
}

/// How a program is used.
pub fn usage(bin: &str) -> (r: String)
    ensures
        r@ == "Usage:\n  "@ + bin@ + " run --config <path>\n\nEnvironment:\n  RUST_LOG=info|debug"@,
{
    own("Usage:\n  ").concat(bin).concat(
        " run --config <path>\n\nEnvironment:\n  RUST_LOG=info|debug",
    )
}

/// Whether the log level asks for debug messages.
pub fn is_debug(rust_log: Option<&str>) -> (r: bool)
    ensures
        r == (setting(rust_log) == Some("debug"@) || setting(rust_log) == Some("trace"@)),
{
    match rust_log {
        Some(level) => same_text(level, "debug") || same_text(level, "trace"),
        None => false,
    }
}

} // verus!
