//! Command line, startup errors and log lines of the gateway binary.

use crate::error::ServingError;
use vstd::prelude::*;
use vstd::string::StringExecFns;

verus! {

/// Errors that keep the gateway from starting, or end it.
#[derive(Debug)]
pub enum GatewayBinaryError {
    /// Neither the environment nor the command line names a configuration.
    MissingConfigPath,
    /// The option for the configuration stands last.
    MissingConfigValue,
    /// An argument that the gateway does not know.
    UnknownArgument(String),
    /// The configuration could not be read.
    ConfigRead,
    /// The configuration is not well formed.
    ConfigParse,
    /// Serving failed.
    Serving(ServingError),
}

/// Where the path of the configuration is to be taken from.
#[derive(Clone, Copy, Debug, PartialEq, Eq, Structural)]
pub enum ConfigPathSource {
    /// From the environment.
    Environment,
    /// From the argument at this place, counted from zero.
    Argument(usize),
}

/// `place` is the first argument that stands where an option must, and is not
/// the option for the configuration.
pub open spec fn is_first_unknown(args: Seq<String>, place: int) -> bool {
    &&& 0 <= place < args.len()
    &&& place % 2 == 0
    &&& args[place]@ != "--config"@
    &&& forall|i: int| 0 <= i < place && i % 2 == 0 ==> (#[trigger] args[i])@ == "--config"@
}

/// Every argument that stands where an option must is the option for the
/// configuration.
pub open spec fn all_known(args: Seq<String>) -> bool {
    forall|i: int| 0 <= i < args.len() && i % 2 == 0 ==> (#[trigger] args[i])@ == "--config"@
}

/// `source` is where these arguments say that the path of the configuration is to
/// be taken from, or what is wrong with them.
pub open spec fn names_config_path(
    args: Seq<String>,
    in_environment: bool,
    source: Result<ConfigPathSource, GatewayBinaryError>,
) -> bool {
    match source {
        Ok(ConfigPathSource::Argument(place)) => all_known(args) && args.len() > 0 && args.len() % 2 == 0 && place
            == args.len() - 1,
        Ok(ConfigPathSource::Environment) => args.len() == 0 && in_environment,
        Err(GatewayBinaryError::UnknownArgument(argument)) => exists|place: int|
            is_first_unknown(args, place) && argument@ == (#[trigger] args[place])@,
        Err(GatewayBinaryError::MissingConfigValue) => all_known(args) && args.len() % 2 == 1,
        Err(GatewayBinaryError::MissingConfigPath) => args.len() == 0 && !in_environment,
        Err(_) => false,
    }
}

/// Finds where the path of the configuration is to be taken from: the value
/// of the last `--config`, or the environment where there is none. `args` are
/// the arguments behind the program's name.
pub fn parse_config_path(args: &Vec<String>, in_environment: bool) -> (source: Result<
    ConfigPathSource,
    GatewayBinaryError,
>)
    ensures
        names_config_path(args@, in_environment, source),
{
    let option = "--config".to_owned();
    let mut source: Option<ConfigPathSource> = None;
    if in_environment {
        source = Some(ConfigPathSource::Environment);
    }
    let mut next: usize = 0;
    while next < args.len()
        invariant
            next <= args@.len(),
            next % 2 == 0,
            option@ == "--config"@,
            forall|i: int| 0 <= i < next && i % 2 == 0 ==> (#[trigger] args@[i])@ == "--config"@,
            source == (if next > 0 {
                Some(ConfigPathSource::Argument((next - 1) as usize))
            } else if in_environment {
                Some(ConfigPathSource::Environment)
            } else {
                None
            }),
        decreases args@.len() - next,
    {
        if args[next] != option {
            assert(is_first_unknown(args@, next as int));
            return Err(GatewayBinaryError::UnknownArgument(args[next].clone()));
        }
        if next + 1 == args.len() {
            return Err(GatewayBinaryError::MissingConfigValue);
        }
        source = Some(ConfigPathSource::Argument(next + 1));
        next = next + 2;
    }
    match source {
        Some(source) => Ok(source),
        None => Err(GatewayBinaryError::MissingConfigPath),
    }
}

impl GatewayBinaryError {
    /// The text of `public_message`.
    pub open spec fn public_text(self) -> Seq<char> {
        match self {
            GatewayBinaryError::MissingConfigPath =>
                "missing config path; set AJAR_GATEWAY_CONFIG or pass --config"@,
            GatewayBinaryError::MissingConfigValue => "missing value after --config"@,
            GatewayBinaryError::UnknownArgument(argument) => "unknown argument: "@ + argument@,
            GatewayBinaryError::ConfigRead => "failed to read config"@,
            GatewayBinaryError::ConfigParse => "failed to parse config"@,
            GatewayBinaryError::Serving(error) => error.message_text(),
        }
    }

    /// What the owner is told of the error.
    pub fn public_message(&self) -> (text: String)
        ensures
            text@ == self.public_text(),
    {
        match self {
            GatewayBinaryError::MissingConfigPath => {
                "missing config path; set AJAR_GATEWAY_CONFIG or pass --config".to_owned()
            },
            GatewayBinaryError::MissingConfigValue => "missing value after --config".to_owned(),
            GatewayBinaryError::UnknownArgument(argument) => {
                let mut text = "unknown argument: ".to_owned();
                text.append(argument.as_str());
                text
            },
            GatewayBinaryError::ConfigRead => "failed to read config".to_owned(),
            GatewayBinaryError::ConfigParse => "failed to parse config".to_owned(),
            GatewayBinaryError::Serving(error) => error.message().to_owned(),
        }
    }
}

/// One line of the log.
#[derive(Debug)]
pub struct LogLine {
    /// How grave the event is.
    pub level: &'static str,
    /// What happened.
    pub event: &'static str,
    /// More on the event, by name and value.
    pub fields: Vec<(&'static str, String)>,
}

impl LogLine {
    /// The gateway starts with the configuration at `config_path`.
    pub fn gateway_starting(config_path: String) -> (line: LogLine)
        ensures
            line.level@ == "info"@,
            line.event@ == "gateway_starting"@,
            line.fields@.len() == 1,
            line.fields@[0].0@ == "config_path"@,
            line.fields@[0].1@ == config_path@,
    {
        LogLine { level: "info", event: "gateway_starting", fields: vec![("config_path", config_path)] }
    }

    /// The gateway has stopped as asked.
    pub fn gateway_stopped() -> (line: LogLine)
        ensures
            line.level@ == "info"@,
            line.event@ == "gateway_stopped"@,
            line.fields@.len() == 0,
    {
        LogLine { level: "info", event: "gateway_stopped", fields: vec![] }
    }

    /// The gateway did not start, or serving failed.
    pub fn gateway_start_failed(error: &GatewayBinaryError) -> (line: LogLine)
        ensures
            line.level@ == "error"@,
            line.event@ == "gateway_start_failed"@,
            line.fields@.len() == 1,
            line.fields@[0].0@ == "error"@,
            line.fields@[0].1@ == error.public_text(),
    {
        LogLine { level: "error", event: "gateway_start_failed", fields: vec![("error", error.public_message())] }
    }
}

/// What is printed for a log line: its encoding, or a fixed line where it
/// could not be encoded.
pub fn log_event(encoded: Option<String>) -> (line: String)
    ensures
        line@ == (match encoded {
            Some(encoded) => encoded@,
            None => "{\"level\":\"error\",\"event\":\"logger_encode_failed\",\"fields\":{}}"@,
        }),
{
    match encoded {
        Some(encoded) => encoded,
        None => "{\"level\":\"error\",\"event\":\"logger_encode_failed\",\"fields\":{}}".to_owned(),
    }
}

/// Where the path of the configuration comes from: without arguments from the
/// environment, and otherwise, where every other argument from the first on is
/// `--config`, from the value behind the last of them, whatever the environment
/// holds. A `--config` without a value, and no path at all, are errors.
pub proof fn last_option_names_the_path(
    args: Seq<String>,
    in_environment: bool,
    source: Result<ConfigPathSource, GatewayBinaryError>,
)
    requires
        names_config_path(args, in_environment, source),
        forall|i: int|
            0 <= i < args.len() && i % 2 == 0 ==> (#[trigger] args[i])@ == seq!['-', '-', 'c', 'o', 'n', 'f', 'i', 'g'],
    ensures
        match source {
            Ok(ConfigPathSource::Argument(place)) => args.len() > 0 && place % 2 == 1 && place + 1 == args.len(),
            Ok(ConfigPathSource::Environment) => args.len() == 0 && in_environment,
            Err(GatewayBinaryError::MissingConfigValue) => args.len() % 2 == 1,
            Err(GatewayBinaryError::MissingConfigPath) => args.len() == 0 && !in_environment,
            Err(_) => false,
        },
{
    reveal_strlit("--config");
    assert("--config"@ =~= seq!['-', '-', 'c', 'o', 'n', 'f', 'i', 'g']);
}

/// The first argument that stands where `--config` must and is anything else is
/// reported, as it came, whatever follows it.
pub proof fn unknown_argument_is_reported(
    args: Seq<String>,
    in_environment: bool,
    source: Result<ConfigPathSource, GatewayBinaryError>,
    place: int,
)
    requires
        names_config_path(args, in_environment, source),
        0 <= place < args.len(),
        place % 2 == 0,
        args[place]@ != seq!['-', '-', 'c', 'o', 'n', 'f', 'i', 'g'],
        forall|i: int|
            0 <= i < place && i % 2 == 0 ==> (#[trigger] args[i])@ == seq!['-', '-', 'c', 'o', 'n', 'f', 'i', 'g'],
    ensures
        source matches Err(GatewayBinaryError::UnknownArgument(argument)) && argument@ == args[place]@,
{
    reveal_strlit("--config");
    assert("--config"@ =~= seq!['-', '-', 'c', 'o', 'n', 'f', 'i', 'g']);
}

/// The owner is told an unknown argument in full, and of a failure of serving
/// what the serving error itself says.
pub proof fn owner_is_told_the_cause(argument: String, error: ServingError)
    ensures
        GatewayBinaryError::UnknownArgument(argument).public_text() == seq![
            'u', 'n', 'k', 'n', 'o', 'w', 'n', ' ', 'a', 'r', 'g', 'u', 'm', 'e', 'n', 't', ':', ' ',
        ] + argument@,
        GatewayBinaryError::Serving(error).public_text() == error.message_text(),
{
    reveal_strlit("unknown argument: ");
    assert("unknown argument: "@ =~= seq![
        'u', 'n', 'k', 'n', 'o', 'w', 'n', ' ', 'a', 'r', 'g', 'u', 'm', 'e', 'n', 't', ':', ' ',
    ]);
}

} // verus!
