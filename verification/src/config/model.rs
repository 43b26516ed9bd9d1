//! The configuration model read from `v8project.yaml`.

use vstd::prelude::*;

verus! {

/// Source layout of the project.
#[derive(Debug, Clone, Copy, PartialEq, Eq, Structural)]
pub enum SourceFormat {
    /// Designer XML dump layout.
    Designer,
    /// EDT project layout.
    Edt,
}

/// Tool that loads sources into the infobase.
#[derive(Debug, Clone, Copy, PartialEq, Eq, Structural)]
pub enum BuilderBackend {
    /// The platform binary in DESIGNER batch mode.
    Designer,
    /// The `ibcmd` utility.
    Ibcmd,
}

/// Role of a source-set.
#[derive(Debug, Clone, Copy, PartialEq, Eq, Structural)]
pub enum SourceSetPurpose {
    /// The main configuration.
    Configuration,
    /// A configuration extension.
    Extension,
    /// External data processors.
    ExternalDataProcessors,
    /// External reports.
    ExternalReports,
}

/// One `source-set` entry.
#[derive(Debug, Clone, PartialEq, Eq)]
pub struct SourceSetConfig {
    /// Logical name.
    pub name: String,
    /// Role of the sources.
    pub purpose: SourceSetPurpose,
    /// Directory, absolute or relative to the base path.
    pub path: String,
}

/// The settings that the library acts on.
#[derive(Debug, Clone, PartialEq, Eq)]
pub struct AppConfig {
    /// Project base directory.
    pub base_path: String,
    /// Directory for build artefacts.
    pub work_path: String,
    /// Configured source-sets, in file order.
    pub source_sets: Vec<SourceSetConfig>,
    /// Source layout.
    pub format: SourceFormat,
    /// Load tool.
    pub builder: BuilderBackend,
    /// Infobase connection string.
    pub connection: String,
    /// `build.partialLoadThreshold`: the most paths a partial load may list
    /// before it falls back to a full load.
    pub partial_load_threshold: usize,
}

} // verus!
