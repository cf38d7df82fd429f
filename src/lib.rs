//! Loading of versioned application manifests into a resolved, validated
//! application model, with the path helpers of the local template cache.

pub mod document;
pub mod load;
pub mod model;
pub mod paths;
pub mod raw;
pub mod resolve;
pub mod templates;
pub mod version;

pub use load::{load_document, load_manifest};
pub use model::{
    Application, ApplicationInformation, ApplicationOrigin, ApplicationTrigger,
    BindleComponentSource, CoreComponent, DirectoryMount, HttpConfig, HttpExecutor,
    HttpTriggerConfiguration, LoadError, ModuleSource, SpinVersion, TriggerConfig, WagiConfig,
    WasmConfig,
};
pub use raw::{
    RawAppManifest, RawAppManifestAnyVersion, RawComponentManifest, RawDirectoryPlacement,
    RawFileMount, RawModuleSource, RawWasmConfig, parse_manifest,
};
pub use resolve::{FsView, assemble};
pub use templates::{TemplateRepository, TemplatesManager};
pub use version::{version, version_info};
