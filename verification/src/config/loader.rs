//! Errors of loading the YAML configuration.

use vstd::prelude::*;

use crate::config::model::AppConfig;
use crate::config::validate::{validate, validate_post, validation_error_text, ConfigPathFacts, ConfigValidationError};
use crate::platform::process::strings_view;
use crate::support::path::path_exists;
use crate::support::text::{append_chars, append_str, chars_of, opt_str_view, string_of};

verus! {

/// Why the configuration could not be loaded.
///
/// The outside errors of reading and parsing are carried as their messages.
#[derive(Debug, Clone, PartialEq, Eq)]
pub enum ConfigLoadError {
    /// No configuration file was found; holds the path or search description.
    NotFound(String),
    /// The file could not be read.
    ReadError(String),
    /// The file is not valid YAML for the configuration model.
    ParseError(String),
    /// The parsed configuration failed validation.
    ValidationError(ConfigValidationError),
}

impl ConfigLoadError {
    /// Every configuration failure is a validation failure for the caller.
    pub fn exit_code(&self) -> (code: i32)
        ensures
            code == 2,
    {
        crate::output::exit_codes::VALIDATION_ERROR
    }

    /// Human-readable message of the error.
    pub fn message(&self) -> (m: String)
        ensures
            m@ == load_error_text(*self),
    {
        let mut out: Vec<char> = Vec::new();
        match self {
            ConfigLoadError::NotFound(p) => {
                append_str(&mut out, "config file not found: ");
                append_chars(&mut out, chars_of(p.as_str()).as_slice());
            },
            ConfigLoadError::ReadError(e) => {
                append_str(&mut out, "failed to read config file: ");
                append_chars(&mut out, chars_of(e.as_str()).as_slice());
            },
            ConfigLoadError::ParseError(e) => {
                append_str(&mut out, "failed to parse YAML config: ");
                append_chars(&mut out, chars_of(e.as_str()).as_slice());
            },
            ConfigLoadError::ValidationError(e) => {
                append_str(&mut out, "config validation failed: ");
                let inner = e.message();
                append_chars(&mut out, chars_of(inner.as_str()).as_slice());
            },
        }
        proof {
            reveal_strlit("config file not found: ");
            reveal_strlit("failed to read config file: ");
            reveal_strlit("failed to parse YAML config: ");
            reveal_strlit("config validation failed: ");
        }
        string_of(out.as_slice())
    }
}

/// The message of a load error.
pub open spec fn load_error_text(e: ConfigLoadError) -> Seq<char> {
    match e {
        ConfigLoadError::NotFound(p) => "config file not found: "@ + p@,
        ConfigLoadError::ReadError(m) => "failed to read config file: "@ + m@,
        ConfigLoadError::ParseError(m) => "failed to parse YAML config: "@ + m@,
        ConfigLoadError::ValidationError(v) => "config validation failed: "@ + validation_error_text(v),
    }
}

/// Where a configuration is looked for when no path is given, in order.
pub open spec fn default_config_candidates() -> Seq<Seq<char>> {
    seq!["application.yaml"@, "application.yml"@, "config/application.yaml"@]
}

/// What `NotFound` names when no default location holds a configuration.
pub open spec fn searched_defaults_text() -> Seq<char> {
    "application.yaml (searched default locations)"@
}

/// The first default location, from `i` on, that `exists` marks as present.
pub open spec fn first_existing_default(exists: Seq<bool>, i: nat) -> Option<nat>
    decreases 3 - i,
{
    if i >= 3 {
        None
    } else if i < exists.len() && exists[i as int] {
        Some(i)
    } else {
        first_existing_default(exists, i + 1)
    }
}

/// The configuration path chosen from what exists: a given path if it exists,
/// otherwise the first default location that exists.
pub open spec fn chosen_config_path(
    config_path: Option<Seq<char>>,
    explicit_exists: bool,
    defaults_exist: Seq<bool>,
) -> Result<Seq<char>, Seq<char>> {
    match config_path {
        Some(p) => if explicit_exists {
            Ok(p)
        } else {
            Err(p)
        },
        None => match first_existing_default(defaults_exist, 0) {
            Some(i) => Ok(default_config_candidates()[i as int]),
            None => Err(searched_defaults_text()),
        },
    }
}

/// `r` is the path chosen, or `NotFound` carrying what was searched.
pub open spec fn config_path_result_is(r: Result<String, ConfigLoadError>, chosen: Result<Seq<char>, Seq<char>>) -> bool {
    match chosen {
        Ok(p) => r matches Ok(q) && q@ == p,
        Err(m) => r matches Err(ConfigLoadError::NotFound(n)) && n@ == m,
    }
}

/// Chooses the configuration file from what exists: `explicit_exists` answers
/// for a given path, `defaults_exist[i]` for the default location `i` (a
/// missing answer counts as absent).
pub fn choose_config_path(
    config_path: Option<&str>,
    explicit_exists: bool,
    defaults_exist: &Vec<bool>,
) -> (r: Result<String, ConfigLoadError>)
    ensures
        config_path_result_is(
            r,
            chosen_config_path(
                opt_str_view(config_path),
                explicit_exists,
                defaults_exist@,
            ),
        ),
{
    proof {
        reveal_strlit("application.yaml");
        reveal_strlit("application.yml");
        reveal_strlit("config/application.yaml");
        reveal_strlit("application.yaml (searched default locations)");
        reveal_with_fuel(first_existing_default, 4);
    }
    match config_path {
        Some(p) => if explicit_exists {
            Ok(string_of(chars_of(p).as_slice()))
        } else {
            Err(ConfigLoadError::NotFound(string_of(chars_of(p).as_slice())))
        },
        None => {
            let n = defaults_exist.len();
            if n > 0 && defaults_exist[0] {
                Ok(String::from_str("application.yaml"))
            } else if n > 1 && defaults_exist[1] {
                Ok(String::from_str("application.yml"))
            } else if n > 2 && defaults_exist[2] {
                Ok(String::from_str("config/application.yaml"))
            } else {
                Err(ConfigLoadError::NotFound(String::from_str("application.yaml (searched default locations)")))
            }
        },
    }
}

/// The paths whose existence decides the configuration file, in the order
/// they are asked about: the given path alone, or the default locations.
pub open spec fn config_probe_list(config_path: Option<Seq<char>>) -> Seq<Seq<char>> {
    match config_path {
        Some(p) => seq![p],
        None => default_config_candidates(),
    }
}

/// The configuration path chosen from `answers`, where `answers[i]` says
/// whether `config_probe_list(config_path)[i]` exists (a missing answer counts
/// as absent).
pub open spec fn chosen_from_answers(config_path: Option<Seq<char>>, answers: Seq<bool>) -> Result<
    Seq<char>,
    Seq<char>,
> {
    chosen_config_path(config_path, config_path is Some && answers.len() > 0 && answers[0], answers)
}

/// The paths to ask the file system about, in order (see [`config_probe_list`]).
pub fn config_probe_paths(config_path: Option<&str>) -> (v: Vec<String>)
    ensures
        strings_view(v@) == config_probe_list(opt_str_view(config_path)),
{
    let mut v: Vec<String> = Vec::new();
    match config_path {
        Some(p) => {
            v.push(string_of(chars_of(p).as_slice()));
        },
        None => {
            v.push(String::from_str("application.yaml"));
            v.push(String::from_str("application.yml"));
            v.push(String::from_str("config/application.yaml"));
            proof {
                reveal_strlit("application.yaml");
                reveal_strlit("application.yml");
                reveal_strlit("config/application.yaml");
            }
        },
    }
    assert(strings_view(v@) =~= config_probe_list(opt_str_view(config_path)));
    v
}

/// Finds the configuration file: the given path if it exists, otherwise the
/// first of the default locations that exists.
///
/// The paths of [`config_probe_paths`] are asked about in order, stopping at
/// the first that exists. Existence is asked of the file system, so the result
/// is stated for every answer it may give about those paths: a given path
/// comes back as it is or as `NotFound`; with none, one of the default
/// locations or `NotFound` naming the search.
pub fn resolve_config_path(config_path: Option<&str>) -> (r: Result<String, ConfigLoadError>)
    ensures
        exists|answers: Seq<bool>|
            answers.len() <= config_probe_list(opt_str_view(config_path)).len() && config_path_result_is(
                r,
                #[trigger] chosen_from_answers(opt_str_view(config_path), answers),
            ),
{
    let paths = config_probe_paths(config_path);
    let ghost probes = config_probe_list(opt_str_view(config_path));
    let mut answers: Vec<bool> = Vec::new();
    let mut found = false;
    let mut i: usize = 0;
    while i < paths.len() && !found
        invariant
            i <= paths@.len(),
            paths@.len() == probes.len(),
            answers@.len() == i,
        decreases paths@.len() - i,
    {
        let e = path_exists(paths[i].as_str());
        answers.push(e);
        found = e;
        i += 1;
    }
    let explicit_exists = config_path.is_some() && answers.len() > 0 && answers[0];
    let r = choose_config_path(config_path, explicit_exists, &answers);
    proof {
        assert(config_path_result_is(r, chosen_from_answers(opt_str_view(config_path), answers@)));
    }
    r
}

/// The last steps of loading, on a parsed configuration: the working
/// directory given on the command line replaces the configured one, then the
/// result is validated against `facts`, gathered for that result. (The rules
/// read the working directory only through `facts`.)
pub fn finish_loading(
    config: AppConfig,
    workdir_override: Option<&str>,
    facts: &ConfigPathFacts,
) -> (r: Result<AppConfig, ConfigLoadError>)
    requires
        facts.source_path_exists@.len() == config.source_sets@.len(),
    ensures
        r matches Ok(c) ==> c == (AppConfig { work_path: c.work_path, ..config }) && match workdir_override {
            Some(w) => c.work_path@ == w@,
            None => c.work_path == config.work_path,
        },
        r is Ok <==> validate_post(config, *facts, Ok(())),
        r matches Err(e) ==> (e matches ConfigLoadError::ValidationError(v) && validate_post(config, *facts, Err(v))),
{
    let mut config = config;
    if let Some(w) = workdir_override {
        config.work_path = string_of(chars_of(w).as_slice());
    }
    match validate(&config, facts) {
        Ok(()) => Ok(config),
        Err(e) => Err(ConfigLoadError::ValidationError(e)),
    }
}

} // verus!
