//! Declarative rule configuration.

use vstd::prelude::*;
use vstd::string::StringExecFns;

verus! {

/// How serious a violation of a rule is.
#[derive(Clone, Copy, Debug, PartialEq, Eq, Structural)]
pub enum Severity {
    /// Advisory: may be acknowledged interactively or escalated by policy.
    Warning,
    /// Always fails the run.
    Error,
}

/// One rule as it is written in a configuration document.
#[derive(Clone, Debug)]
pub struct RuleConfig {
    pub id: String,
    pub message: String,
    pub regex: String,
    pub severity: Severity,
    pub includes: Option<Vec<String>>,
    pub excludes: Option<Vec<String>>,
}

/// A whole configuration document: an ordered list of rules.
#[derive(Clone, Debug)]
pub struct Config {
    pub rules: Vec<RuleConfig>,
}

/// The sources of a list of strings.
pub open spec fn sources(list: Seq<String>) -> Seq<Seq<char>> {
    Seq::new(list.len(), |i: int| list[i]@)
}

/// The sources of an optional list of glob patterns; an absent list is an
/// empty one.
pub open spec fn optional_sources(list: Option<Vec<String>>) -> Seq<Seq<char>> {
    match list {
        Some(v) => sources(v@),
        None => Seq::empty(),
    }
}

/// The mathematical content of a rule definition.
pub struct RuleConfigView {
    pub id: Seq<char>,
    pub message: Seq<char>,
    pub regex: Seq<char>,
    pub severity: Severity,
    pub includes: Seq<Seq<char>>,
    pub excludes: Seq<Seq<char>>,
}

impl View for RuleConfig {
    type V = RuleConfigView;

    open spec fn view(&self) -> RuleConfigView {
        RuleConfigView {
            id: self.id@,
            message: self.message@,
            regex: self.regex@,
            severity: self.severity,
            includes: optional_sources(self.includes),
            excludes: optional_sources(self.excludes),
        }
    }
}

impl View for Config {
    type V = Seq<RuleConfigView>;

    open spec fn view(&self) -> Seq<RuleConfigView> {
        Seq::new(self.rules@.len(), |i: int| self.rules@[i]@)
    }
}

/// The serialization of a configuration document.
#[derive(Clone, Copy, Debug, PartialEq, Eq, Structural)]
pub enum ConfigFormat {
    Json,
    Toml,
}

/// What the `init` subcommand does.
#[derive(Clone, Copy, Debug, PartialEq, Eq, Structural)]
pub enum InitAction {
    /// A configuration can be read already: say so and leave it alone.
    KeepExisting,
    /// Write the example configuration.
    WriteExample,
}

/// The extension of a path's file name, if it has one.
pub uninterp spec fn extension_of(path: Seq<char>) -> Option<Seq<char>>;

/// Calls `std::path::Path::extension` on the path.
///
/// Trusted: the result depends on the path's text alone.
#[verifier::external_body]
pub(crate) fn path_extension(path: &str) -> (extension: Option<String>)
    ensures
        match extension {
            Some(e) => extension_of(path@) == Some(e@),
            None => extension_of(path@) is None,
        },
{
    std::path::Path::new(path).extension().map(|e| e.to_string_lossy().into_owned())
}

/// The path at which a configuration is looked for when none is given.
pub open spec fn default_path() -> Seq<char> {
    ".lintyconfig.json"@
}

/// The path at which the configuration is looked for: the one given, or the
/// default.
pub open spec fn resolved_path(given: Option<Seq<char>>) -> Seq<char> {
    match given {
        Some(path) => path,
        None => default_path(),
    }
}

/// The format that goes with a file extension: TOML for `toml`, JSON for
/// every other extension and for none.
pub open spec fn format_of(extension: Option<Seq<char>>) -> ConfigFormat {
    if extension == Some("toml"@) {
        ConfigFormat::Toml
    } else {
        ConfigFormat::Json
    }
}

/// The example rule: a warning on `TODO` and `todo`, without scope filters.
pub open spec fn example_rule() -> RuleConfigView {
    RuleConfigView {
        id: "WarnOnTodos"@,
        message: "Are you sure you meant to leave a TODO?"@,
        regex: "(TODO|todo)"@,
        severity: Severity::Warning,
        includes: Seq::empty(),
        excludes: Seq::empty(),
    }
}

/// The path at which a configuration is looked for when none is given.
pub fn default_config_path() -> (path: &'static str)
    ensures
        path@ == default_path(),
{
    ".lintyconfig.json"
}

/// The path at which the configuration is looked for.
pub fn config_path<'a>(given: Option<&'a str>) -> (path: &'a str)
    ensures
        path@ == resolved_path(
            match given {
                Some(p) => Some(p@),
                None => None,
            },
        ),
{
    match given {
        Some(path) => path,
        None => default_config_path(),
    }
}

/// The format that goes with a file extension.
pub fn format_for_extension(extension: Option<&str>) -> (format: ConfigFormat)
    ensures
        format == format_of(
            match extension {
                Some(e) => Some(e@),
                None => None,
            },
        ),
{
    match extension {
        Some(e) => {
            if e.to_owned() == "toml".to_owned() {
                ConfigFormat::Toml
            } else {
                ConfigFormat::Json
            }
        },
        None => ConfigFormat::Json,
    }
}

/// The format in which the configuration at a path is read.
pub fn config_format(path: &str) -> (format: ConfigFormat)
    ensures
        format == format_of(extension_of(path@)),
{
    match path_extension(path) {
        Some(e) => format_for_extension(Some(e.as_str())),
        None => format_for_extension(None),
    }
}

/// The configuration that `init` writes: the example rule alone.
pub fn example_config() -> (config: Config)
    ensures
        config@ == seq![example_rule()],
{
    let rule = RuleConfig {
        id: String::from_str("WarnOnTodos"),
        message: String::from_str("Are you sure you meant to leave a TODO?"),
        regex: String::from_str("(TODO|todo)"),
        severity: Severity::Warning,
        includes: None,
        excludes: None,
    };
    let mut rules: Vec<RuleConfig> = Vec::new();
    rules.push(rule);
    let config = Config { rules };
    config
}

/// What `init` does, given whether a configuration can be read at the
/// default path.
pub fn init_action(readable: bool) -> (action: InitAction)
    ensures
        action == if readable {
            InitAction::KeepExisting
        } else {
            InitAction::WriteExample
        },
{
    if readable {
        InitAction::KeepExisting
    } else {
        InitAction::WriteExample
    }
}

/// What `init` tells the user.
pub fn init_message(action: InitAction) -> (text: &'static str)
    ensures
        text@ == match action {
            InitAction::KeepExisting => "Config already exists!"@,
            InitAction::WriteExample => "Initialized example config at .lintyconfig"@,
        },
{
    match action {
        InitAction::KeepExisting => "Config already exists!",
        InitAction::WriteExample => "Initialized example config at .lintyconfig",
    }
}

} // verus!
