//! Validation of a loaded configuration.
//!
//! What the file system says about the configured paths is gathered by the
//! caller and handed in as plain facts; the rules applied to them live here.

use vstd::prelude::*;

use crate::config::model::{AppConfig, BuilderBackend, SourceFormat, SourceSetPurpose};
use crate::support::path::{is_abs, join, join_path, normalize, normalize_path};
use crate::support::text::{
    append_str, ascii_lower, chars_of, contains_chars, contains_seq, string_of, trim, trim_bounds,
};

verus! {

/// Why a configuration is not usable.
#[derive(Debug, Clone, PartialEq, Eq)]
pub enum ConfigValidationError {
    /// `basePath does not exist or is not a directory: {0}`
    BasePathInvalid(String),
    /// `workPath could not be created: {0}`
    WorkPathInvalid(String),
    /// `source-set must contain at least one CONFIGURATION entry`
    NoConfigurationSourceSet,
    /// `source-set entry '{name}' path does not exist: {path}`
    SourceSetPathInvalid { name: String, path: String },
    /// `connection string is empty`
    EmptyConnection,
    /// `IBCMD builder requires a file-based connection string (File=...)`
    IbcmdRequiresFileConnection,
    /// `format EDT requires at least one source-set with a valid EDT project path`
    EdtNoProjects,
}

/// The message of a validation error.
pub open spec fn validation_error_text(e: ConfigValidationError) -> Seq<char> {
    match e {
        ConfigValidationError::BasePathInvalid(p) => "basePath does not exist or is not a directory: "@ + p@,
        ConfigValidationError::WorkPathInvalid(p) => "workPath could not be created: "@ + p@,
        ConfigValidationError::NoConfigurationSourceSet => "source-set must contain at least one CONFIGURATION entry"@,
        ConfigValidationError::SourceSetPathInvalid { name, path } => "source-set entry '"@ + name@
            + "' path does not exist: "@ + path@,
        ConfigValidationError::EmptyConnection => "connection string is empty"@,
        ConfigValidationError::IbcmdRequiresFileConnection => "IBCMD builder requires a file-based connection string (File=...)"@,
        ConfigValidationError::EdtNoProjects => "format EDT requires at least one source-set with a valid EDT project path"@,
    }
}

impl ConfigValidationError {
    /// Human-readable message of the error.
    pub fn message(&self) -> (m: String)
        ensures
            m@ == validation_error_text(*self),
    {
        let mut out: Vec<char> = Vec::new();
        match self {
            ConfigValidationError::BasePathInvalid(p) => {
                append_str(&mut out, "basePath does not exist or is not a directory: ");
                append_str(&mut out, p.as_str());
            },
            ConfigValidationError::WorkPathInvalid(p) => {
                append_str(&mut out, "workPath could not be created: ");
                append_str(&mut out, p.as_str());
            },
            ConfigValidationError::NoConfigurationSourceSet => {
                append_str(&mut out, "source-set must contain at least one CONFIGURATION entry");
            },
            ConfigValidationError::SourceSetPathInvalid { name, path } => {
                append_str(&mut out, "source-set entry '");
                append_str(&mut out, name.as_str());
                append_str(&mut out, "' path does not exist: ");
                append_str(&mut out, path.as_str());
            },
            ConfigValidationError::EmptyConnection => {
                append_str(&mut out, "connection string is empty");
            },
            ConfigValidationError::IbcmdRequiresFileConnection => {
                append_str(&mut out, "IBCMD builder requires a file-based connection string (File=...)");
            },
            ConfigValidationError::EdtNoProjects => {
                append_str(&mut out, "format EDT requires at least one source-set with a valid EDT project path");
            },
        }
        proof {
            reveal_strlit("basePath does not exist or is not a directory: ");
            reveal_strlit("workPath could not be created: ");
            reveal_strlit("source-set must contain at least one CONFIGURATION entry");
            reveal_strlit("source-set entry '");
            reveal_strlit("' path does not exist: ");
            reveal_strlit("connection string is empty");
            reveal_strlit("IBCMD builder requires a file-based connection string (File=...)");
            reveal_strlit("format EDT requires at least one source-set with a valid EDT project path");
        }
        string_of(out.as_slice())
    }
}

/// What the file system says about the paths a configuration names.
#[derive(Debug, Clone, PartialEq, Eq)]
pub struct ConfigPathFacts {
    /// The base path exists and is a directory.
    pub base_path_is_dir: bool,
    /// Why the work path could not be created, if it could not.
    pub work_path_error: Option<String>,
    /// For each source-set, in order: its full path exists.
    pub source_path_exists: Vec<bool>,
}

/// Full path of a source-set directory: absolute paths stand, relative ones
/// are taken from the base path.
pub open spec fn spec_source_set_full_path(base: Seq<char>, path: Seq<char>) -> Seq<char> {
    if is_abs(path) {
        normalize(path)
    } else {
        join_path(base, path)
    }
}

/// Full path of a source-set directory.
pub fn source_set_full_path(config: &AppConfig, index: usize) -> (p: String)
    requires
        index < config.source_sets@.len(),
    ensures
        p@ == spec_source_set_full_path(config.base_path@, config.source_sets@[index as int].path@),
{
    join(config.base_path.as_str(), config.source_sets[index].path.as_str())
}

/// `s` with ASCII letters lowered.
pub open spec fn ascii_lowercase(s: Seq<char>) -> Seq<char> {
    s.map_values(|c: char| ascii_lower(c))
}

/// The connection names a file infobase: it contains `file=` in any ASCII case.
///
/// No character outside ASCII lowercases to any of `f`, `i`, `l`, `e`, `=`,
/// so this is what lowercasing the whole string and searching would find.
pub open spec fn names_file_infobase(conn: Seq<char>) -> bool {
    contains_seq(ascii_lowercase(conn), "file="@)
}

/// There is a `CONFIGURATION` source-set.
pub open spec fn has_configuration(config: AppConfig) -> bool {
    exists|i: int|
        0 <= i < config.source_sets@.len() && (#[trigger] config.source_sets@[i]).purpose
            == SourceSetPurpose::Configuration
}

/// Every source-set directory exists.
pub open spec fn all_sources_exist(facts: ConfigPathFacts) -> bool {
    forall|j: int| 0 <= j < facts.source_path_exists@.len() ==> #[trigger] facts.source_path_exists@[j]
}

/// The checks before the source-set paths pass.
pub open spec fn early_checks_pass(config: AppConfig, facts: ConfigPathFacts) -> bool {
    facts.base_path_is_dir && facts.work_path_error is None && has_configuration(config)
}

/// The checks before the connection pass.
pub open spec fn paths_pass(config: AppConfig, facts: ConfigPathFacts) -> bool {
    early_checks_pass(config, facts) && (config.format == SourceFormat::Designer
        ==> all_sources_exist(facts))
}

/// `validate` answers this, checking the base path, the work path, the
/// source-sets (a `CONFIGURATION` entry, then each directory for the Designer
/// format, first missing one reported) and the connection, in that order.
pub open spec fn validate_post(
    config: AppConfig,
    facts: ConfigPathFacts,
    r: Result<(), ConfigValidationError>,
) -> bool {
    match r {
        Ok(()) => paths_pass(config, facts) && trim(config.connection@).len() > 0 && (
        config.builder == BuilderBackend::Ibcmd ==> names_file_infobase(config.connection@)),
        Err(ConfigValidationError::BasePathInvalid(p)) => !facts.base_path_is_dir && p@
            == config.base_path@,
        Err(ConfigValidationError::WorkPathInvalid(m)) => facts.base_path_is_dir
            && (facts.work_path_error matches Some(w) && w@ == m@),
        Err(ConfigValidationError::NoConfigurationSourceSet) => facts.base_path_is_dir
            && facts.work_path_error is None && !has_configuration(config),
        Err(ConfigValidationError::SourceSetPathInvalid { name, path }) => early_checks_pass(
            config,
            facts,
        ) && config.format == SourceFormat::Designer && exists|i: int|
            0 <= i < config.source_sets@.len() && !facts.source_path_exists@[i] && (forall|j: int|
                0 <= j < i ==> #[trigger] facts.source_path_exists@[j]) && name@
                == config.source_sets@[i].name@ && path@ == spec_source_set_full_path(
                config.base_path@,
                config.source_sets@[i].path@,
            ),
        Err(ConfigValidationError::EmptyConnection) => paths_pass(config, facts) && trim(
            config.connection@,
        ).len() == 0,
        Err(ConfigValidationError::IbcmdRequiresFileConnection) => paths_pass(config, facts)
            && trim(config.connection@).len() > 0 && config.builder == BuilderBackend::Ibcmd
            && !names_file_infobase(config.connection@),
        Err(ConfigValidationError::EdtNoProjects) => false,
    }
}

/// `s` with ASCII letters lowered.
pub fn ascii_lowercase_chars(s: &[char]) -> (out: Vec<char>)
    ensures
        out@ == ascii_lowercase(s@),
{
    let mut out: Vec<char> = Vec::new();
    let mut i: usize = 0;
    while i < s.len()
        invariant
            i <= s@.len(),
            out@ == ascii_lowercase(s@.take(i as int)),
        decreases s@.len() - i,
    {
        out.push(crate::support::text::char_ascii_lower(s[i]));
        assert(ascii_lowercase(s@.take(i + 1)) =~= ascii_lowercase(s@.take(i as int)).push(
            ascii_lower(s@[i as int]),
        ));
        i += 1;
    }
    assert(s@.take(s@.len() as int) =~= s@);
    out
}

/// Checks a loaded configuration against the facts gathered about its paths.
pub fn validate(config: &AppConfig, facts: &ConfigPathFacts) -> (r: Result<(), ConfigValidationError>)
    requires
        facts.source_path_exists@.len() == config.source_sets@.len(),
    ensures
        validate_post(*config, *facts, r),
{
    if !facts.base_path_is_dir {
        return Err(ConfigValidationError::BasePathInvalid(config.base_path.clone()));
    }
    if let Some(m) = &facts.work_path_error {
        return Err(ConfigValidationError::WorkPathInvalid(m.clone()));
    }
    let mut k: usize = 0;
    let mut found = false;
    while k < config.source_sets.len()
        invariant
            k <= config.source_sets@.len(),
            found ==> has_configuration(*config),
            !found ==> forall|j: int|
                0 <= j < k ==> (#[trigger] config.source_sets@[j]).purpose
                    != SourceSetPurpose::Configuration,
        decreases config.source_sets@.len() - k,
    {
        if config.source_sets[k].purpose == SourceSetPurpose::Configuration {
            found = true;
        }
        k += 1;
    }
    if !found {
        return Err(ConfigValidationError::NoConfigurationSourceSet);
    }
    if config.format == SourceFormat::Designer {
        let mut i: usize = 0;
        while i < config.source_sets.len()
            invariant
                i <= config.source_sets@.len(),
                facts.source_path_exists@.len() == config.source_sets@.len(),
                early_checks_pass(*config, *facts),
                config.format == SourceFormat::Designer,
                forall|j: int| 0 <= j < i ==> #[trigger] facts.source_path_exists@[j],
            decreases config.source_sets@.len() - i,
        {
            if !facts.source_path_exists[i] {
                let path = source_set_full_path(config, i);
                let name = config.source_sets[i].name.clone();
                assert(!facts.source_path_exists@[i as int]);
                assert(early_checks_pass(*config, *facts));
                assert(0 <= i < config.source_sets@.len() && !facts.source_path_exists@[i as int]
                    && (forall|j: int| 0 <= j < i ==> #[trigger] facts.source_path_exists@[j])
                    && name@ == config.source_sets@[i as int].name@ && path@
                    == spec_source_set_full_path(
                    config.base_path@,
                    config.source_sets@[i as int].path@,
                ));
                return Err(
                    ConfigValidationError::SourceSetPathInvalid {
                        name,
                        path,
                    },
                );
            }
            i += 1;
        }
    }
    let conn = chars_of(config.connection.as_str());
    let (a, b) = trim_bounds(conn.as_slice());
    if a == b {
        return Err(ConfigValidationError::EmptyConnection);
    }
    if config.builder == BuilderBackend::Ibcmd {
        let lowered = ascii_lowercase_chars(conn.as_slice());
        let pat = chars_of("file=");
        if !contains_chars(lowered.as_slice(), pat.as_slice()) {
            return Err(ConfigValidationError::IbcmdRequiresFileConnection);
        }
    }
    Ok(())
}

} // verus!
