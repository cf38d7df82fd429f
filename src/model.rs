//! The resolved application model handed to a trigger runtime.

use vstd::prelude::*;

verus! {

/// The manifest schema versions that this library understands.
#[derive(Clone, Copy, Debug, PartialEq, Eq, Structural)]
pub enum SpinVersion {
    V1,
}

/// Where an application was loaded from.
#[derive(Clone, Debug, PartialEq, Eq)]
pub enum ApplicationOrigin {
    /// A manifest file on the local filesystem, as the caller named it.
    File(String),
    /// A remote application, by id and server.
    Bindle { id: String, server: String },
}

/// Application-wide settings of the HTTP trigger.
#[derive(Clone, Debug, PartialEq, Eq)]
pub struct HttpTriggerConfiguration {
    pub base: String,
}

/// The trigger type of a whole application.
#[derive(Clone, Debug, PartialEq, Eq)]
pub enum ApplicationTrigger {
    Http(HttpTriggerConfiguration),
}

impl ApplicationTrigger {
    pub fn as_http(&self) -> (r: Option<&HttpTriggerConfiguration>)
        ensures
            r == Some(match self {
                ApplicationTrigger::Http(h) => h,
            }),
    {
        match self {
            ApplicationTrigger::Http(h) => Some(h),
        }
    }
}

/// Name, version and provenance of an application.
#[derive(Clone, Debug, PartialEq, Eq)]
pub struct ApplicationInformation {
    pub spin_version: SpinVersion,
    pub name: String,
    pub version: String,
    pub description: Option<String>,
    pub authors: Vec<String>,
    pub trigger: ApplicationTrigger,
    pub origin: ApplicationOrigin,
}

/// Settings of the CGI-style executor.
#[derive(Clone, Debug, PartialEq, Eq)]
pub struct WagiConfig {
    pub entrypoint: String,
    pub argv: String,
}

/// How an HTTP component's entry point is invoked.
#[derive(Clone, Debug, PartialEq, Eq)]
pub enum HttpExecutor {
    Spin,
    Wagi(WagiConfig),
}

/// The HTTP trigger settings of one component.
#[derive(Clone, Debug, PartialEq, Eq)]
pub struct HttpConfig {
    pub route: String,
    pub executor: Option<HttpExecutor>,
}

/// The trigger settings of one component.
#[derive(Clone, Debug, PartialEq, Eq)]
pub enum TriggerConfig {
    Http(HttpConfig),
}

impl TriggerConfig {
    pub fn as_http(&self) -> (r: Option<&HttpConfig>)
        ensures
            r == Some(match self {
                TriggerConfig::Http(h) => h,
            }),
    {
        match self {
            TriggerConfig::Http(h) => Some(h),
        }
    }
}

/// A remote, content-addressed module: a reference and a parcel in it.
#[derive(Clone, Debug, PartialEq, Eq)]
pub struct BindleComponentSource {
    pub reference: String,
    pub parcel: String,
}

/// Where the code of a component comes from, once resolved.
#[derive(Clone, Debug, PartialEq, Eq)]
pub enum ModuleSource {
    FileReference(String),
    Bindle(BindleComponentSource),
}

/// A host path made visible to a component at a guest path.
#[derive(Clone, Debug, PartialEq, Eq)]
pub struct DirectoryMount {
    pub host: String,
    pub guest: String,
}

/// The environment and the mounts of a component.
#[derive(Clone, Debug, PartialEq, Eq)]
pub struct WasmConfig {
    pub environment: Vec<(String, String)>,
    pub mounts: Vec<DirectoryMount>,
}

/// A resolved component.
#[derive(Clone, Debug, PartialEq, Eq)]
pub struct CoreComponent {
    pub id: String,
    pub source: ModuleSource,
    pub wasm: WasmConfig,
}

/// A loaded application: its components in manifest order, and the trigger
/// settings of each, keyed by component id in the same order.
#[derive(Clone, Debug, PartialEq, Eq)]
pub struct Application {
    pub info: ApplicationInformation,
    pub components: Vec<CoreComponent>,
    pub component_triggers: Vec<(String, TriggerConfig)>,
}

/// Why a manifest could not be loaded.
#[derive(Clone, Debug, PartialEq, Eq)]
pub enum LoadError {
    /// The version field is missing or holds a version that is not known.
    SchemaVersion { field: String },
    /// The text is not a well-formed document.
    ManifestParse { message: String },
    /// A field is missing or has the wrong shape.
    InvalidField { field: String },
    /// A field of a component is missing or has the wrong shape.
    InvalidComponentField { component: String, field: String },
    /// A component's trigger block is not of the application's trigger type.
    TriggerShapeMismatch { component: String },
    /// A directory placement names a source directory that does not exist.
    MountSourceNotFound { component: String, source: String },
    /// Two components have the same id.
    DuplicateComponentId { id: String },
    /// The filesystem failed.
    Io { message: String },
}

} // verus!
