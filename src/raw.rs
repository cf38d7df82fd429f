//! The raw manifest: the document's fields, typed but not yet resolved.

use vstd::prelude::*;
use crate::document::{
    Doc, field, as_text, doc_parses, get_field, get_text, nesting_message, parse_document, str_eq,
    toml_doc,
};
use crate::model::{
    ApplicationTrigger, BindleComponentSource, HttpConfig, HttpExecutor,
    HttpTriggerConfiguration, LoadError, TriggerConfig, WagiConfig,
};

verus! {

/// A manifest of any known schema version.
#[derive(Debug)]
pub enum RawAppManifestAnyVersion {
    V1(RawAppManifest),
}

/// A version 1 manifest.
#[derive(Debug)]
pub struct RawAppManifest {
    pub info: RawAppInformation,
    pub components: Vec<RawComponentManifest>,
}

/// The application-level fields of a manifest.
#[derive(Debug)]
pub struct RawAppInformation {
    pub name: String,
    pub version: String,
    pub description: Option<String>,
    pub authors: Option<Vec<String>>,
    pub trigger: ApplicationTrigger,
}

/// One component as declared.
#[derive(Debug)]
pub struct RawComponentManifest {
    pub id: String,
    pub source: RawModuleSource,
    pub wasm: RawWasmConfig,
    pub trigger: TriggerConfig,
}

/// The environment and file declarations of a component.
#[derive(Debug)]
pub struct RawWasmConfig {
    pub environment: Option<Vec<(String, String)>>,
    pub files: Option<Vec<RawFileMount>>,
}

/// A file declaration: a pattern under the base directory, or a directory
/// placed at a guest path.
#[derive(Debug, PartialEq, Eq)]
pub enum RawFileMount {
    Pattern(String),
    Placement(RawDirectoryPlacement),
}

/// A directory under the base directory, placed at a guest path.
#[derive(Debug, PartialEq, Eq)]
pub struct RawDirectoryPlacement {
    pub source: String,
    pub destination: String,
}

/// A module source as declared: a path relative to the base directory, or a
/// remote reference.
#[derive(Debug, PartialEq, Eq)]
pub enum RawModuleSource {
    FileReference(String),
    Bindle(BindleComponentSource),
}

impl RawWasmConfig {
    /// The value of the environment variable `name`, if declared.
    pub fn env_var(&self, name: &str) -> (r: Option<&String>)
        ensures
            match r {
                Some(v) => exists|i: int|
                    0 <= i < env_of(self).len() && (#[trigger] env_of(self)[i]).0@ == name@
                        && env_of(self)[i].1 == *v,
                None => forall|i: int|
                    0 <= i < env_of(self).len() ==> (#[trigger] env_of(self)[i]).0@ != name@,
            },
    {
        match &self.environment {
            None => None,
            Some(env) => {
                let mut i: usize = 0;
                while i < env.len()
                    invariant
                        i <= env@.len(),
                        self.environment == Some(*env),
                        forall|j: int| 0 <= j < i ==> (#[trigger] env@[j]).0@ != name@,
                    decreases env.len() - i,
                {
                    if str_eq(env[i].0.as_str(), name) {
                        assert(env_of(self)[i as int] == env@[i as int]);
                        return Some(&env[i].1);
                    }
                    i = i + 1;
                }
                None
            },
        }
    }
}

/// The declared environment, empty when there is none.
pub open spec fn env_of(w: &RawWasmConfig) -> Seq<(String, String)> {
    match w.environment {
        Some(e) => e@,
        None => Seq::empty(),
    }
}

/// The only version tag that is known.
pub open spec fn version_one() -> Seq<char> {
    "1"@
}

/// The entry point of the CGI-style executor when none is given.
pub open spec fn default_entrypoint() -> Seq<char> {
    "_start"@
}

/// The argument template of the CGI-style executor when none is given.
pub open spec fn default_argv() -> Seq<char> {
    "${SCRIPT_NAME} ${ARGS}"@
}

/// The text of the string field `key`, or `dflt` when the field is absent.
pub open spec fn text_or(d: Doc, key: Seq<char>, dflt: Seq<char>) -> Seq<char> {
    match as_text(field(d, key)) {
        Some(t) => t,
        None => dflt,
    }
}

/// The field `key` is absent or holds a string.
pub open spec fn optional_text_ok(d: Doc, key: Seq<char>) -> bool {
    field(d, key) is None || as_text(field(d, key)) is Some
}

/// The executor settings of the CGI-style executor, with its defaults.
pub fn wagi_config(entrypoint: Option<String>, argv: Option<String>) -> (r: WagiConfig)
    ensures
        r.entrypoint@ == match entrypoint {
            Some(e) => e@,
            None => default_entrypoint(),
        },
        r.argv@ == match argv {
            Some(a) => a@,
            None => default_argv(),
        },
{
    let entrypoint = match entrypoint {
        Some(e) => e,
        None => String::from_str("_start"),
    };
    let argv = match argv {
        Some(a) => a,
        None => String::from_str("${SCRIPT_NAME} ${ARGS}"),
    };
    WagiConfig { entrypoint, argv }
}

/// The executor block `e` is a known executor with well-typed settings.
pub open spec fn executor_ok(e: Doc) -> bool {
    as_text(field(e, "type"@)) == Some("spin"@) || (as_text(field(e, "type"@)) == Some("wagi"@)
        && optional_text_ok(e, "entrypoint"@) && optional_text_ok(e, "argv"@))
}

/// `x` is what the executor block `e` declares.
pub open spec fn executor_read(e: Doc, x: HttpExecutor) -> bool {
    if as_text(field(e, "type"@)) == Some("spin"@) {
        x == HttpExecutor::Spin
    } else {
        match x {
            HttpExecutor::Wagi(w) => w.entrypoint@ == text_or(e, "entrypoint"@, default_entrypoint())
                && w.argv@ == text_or(e, "argv"@, default_argv()),
            HttpExecutor::Spin => false,
        }
    }
}

/// Reads an executor block.
pub fn read_executor(e: &Doc, id: &String) -> (r: Result<HttpExecutor, LoadError>)
    ensures
        r matches Err(x) ==> (x == LoadError::TriggerShapeMismatch { component: *id }),
        r is Ok <==> executor_ok(*e),
        r matches Ok(x) ==> executor_read(*e, x),
{
    let kind = get_text(e, "type");
    let kind = match kind {
        Some(k) => k,
        None => return Err(LoadError::TriggerShapeMismatch { component: id.clone() }),
    };
    if str_eq(kind.as_str(), "spin") {
        return Ok(HttpExecutor::Spin);
    }
    if !str_eq(kind.as_str(), "wagi") {
        return Err(LoadError::TriggerShapeMismatch { component: id.clone() });
    }
    let entrypoint = get_text(e, "entrypoint");
    if entrypoint.is_none() && get_field(e, "entrypoint").is_some() {
        return Err(LoadError::TriggerShapeMismatch { component: id.clone() });
    }
    let argv = get_text(e, "argv");
    if argv.is_none() && get_field(e, "argv").is_some() {
        return Err(LoadError::TriggerShapeMismatch { component: id.clone() });
    }
    Ok(HttpExecutor::Wagi(wagi_config(entrypoint, argv)))
}

/// An error about the shape of a document: a missing or ill-typed field, or
/// a trigger block of the wrong type.
pub open spec fn is_shape_error(e: LoadError) -> bool {
    e is InvalidField || e is InvalidComponentField || e is TriggerShapeMismatch
}

/// The items of an array field; none for anything else.
pub open spec fn array_items(f: Option<Doc>) -> Seq<Doc> {
    match f {
        Some(Doc::Array(items)) => items@,
        _ => Seq::empty(),
    }
}

/// The id, source, environment and files of a component declaration are
/// well formed.
pub open spec fn component_fields_ok(d: Doc) -> bool {
    &&& as_text(field(d, "id"@)) is Some
    &&& source_ok(field(d, "source"@))
    &&& env_ok(field(d, "environment"@))
    &&& files_ok(field(d, "files"@))
}

/// `e` is the error of the malformed component declaration `c`: a missing
/// id; else a malformed field, naming the component; else a trigger block
/// that is not HTTP-shaped, naming the component.
pub open spec fn component_error(c: Doc, e: LoadError) -> bool {
    if as_text(field(c, "id"@)) is None {
        e matches LoadError::InvalidField { field } && field@ == "id"@
    } else if !component_fields_ok(c) {
        e matches LoadError::InvalidComponentField { component, .. } && as_text(field(c, "id"@))
            == Some(component@)
    } else {
        e matches LoadError::TriggerShapeMismatch { component } && as_text(field(c, "id"@)) == Some(
            component@,
        )
    }
}

/// The component declaration at `k` of `f` is the first malformed one.
pub open spec fn first_bad_component(f: Option<Doc>, k: int) -> bool {
    &&& f matches Some(Doc::Array(_))
    &&& 0 <= k < array_items(f).len()
    &&& !component_ok(array_items(f)[k])
    &&& forall|j: int| 0 <= j < k ==> component_ok(#[trigger] array_items(f)[j])
}

/// The error of a component's field error, naming the component.
fn in_component(e: LoadError, id: &String) -> (r: LoadError)
    requires
        e is InvalidField,
    ensures
        r matches LoadError::InvalidComponentField { component, .. } && component == *id,
{
    match e {
        LoadError::InvalidField { field } => LoadError::InvalidComponentField { component: id.clone(), field },
        other => other,
    }
}

/// The error for a missing or ill-typed field.
pub fn invalid_field(name: &str) -> (r: LoadError)
    ensures
        r matches LoadError::InvalidField { field } && field@ == name@,
{
    LoadError::InvalidField { field: String::from_str(name) }
}

/// `t` is an HTTP-shaped trigger block: a route, and a known executor if any.
pub open spec fn trigger_ok(t: Doc) -> bool {
    as_text(field(t, "route"@)) is Some && match field(t, "executor"@) {
        None => true,
        Some(e) => executor_ok(e),
    }
}

/// `c` is what the trigger block `t` declares.
pub open spec fn trigger_read(t: Doc, c: TriggerConfig) -> bool {
    match c {
        TriggerConfig::Http(h) => as_text(field(t, "route"@)) == Some(h.route@) && match field(
            t,
            "executor"@,
        ) {
            None => h.executor is None,
            Some(e) => h.executor matches Some(x) && executor_read(e, x),
        },
    }
}

/// Reads the trigger block of the component `id`; a block that is not
/// HTTP-shaped is a trigger shape mismatch.
pub fn read_trigger(t: &Doc, id: &String) -> (r: Result<TriggerConfig, LoadError>)
    ensures
        r matches Err(e) ==> is_shape_error(e),
        r is Ok <==> trigger_ok(*t),
        r matches Ok(c) ==> trigger_read(*t, c),
        r matches Err(x) ==> (x == LoadError::TriggerShapeMismatch { component: *id }),
{
    let route = match get_text(t, "route") {
        Some(r) => r,
        None => return Err(LoadError::TriggerShapeMismatch { component: id.clone() }),
    };
    let executor = match get_field(t, "executor") {
        None => None,
        Some(e) => match read_executor(e, id) {
            Ok(x) => Some(x),
            Err(err) => return Err(err),
        },
    };
    Ok(TriggerConfig::Http(HttpConfig { route, executor }))
}

/// `d` is a file declaration: a string, or a table with a source and a destination.
pub open spec fn mount_ok(d: Doc) -> bool {
    d is Str || (as_text(field(d, "source"@)) is Some && as_text(field(d, "destination"@)) is Some)
}

/// `m` is what the file declaration `d` declares.
pub open spec fn mount_read(d: Doc, m: RawFileMount) -> bool {
    match d {
        Doc::Str(s) => m matches RawFileMount::Pattern(p) && p@ == s@,
        _ => m matches RawFileMount::Placement(pl) && as_text(field(d, "source"@)) == Some(
            pl.source@,
        ) && as_text(field(d, "destination"@)) == Some(pl.destination@),
    }
}

/// Reads one file declaration.
pub fn read_mount(d: &Doc) -> (r: Option<RawFileMount>)
    ensures
        r is Some <==> mount_ok(*d),
        r matches Some(m) ==> mount_read(*d, m),
{
    match d {
        Doc::Str(s) => Some(RawFileMount::Pattern(s.clone())),
        _ => {
            let source = get_text(d, "source");
            let destination = get_text(d, "destination");
            match (source, destination) {
                (Some(source), Some(destination)) => Some(
                    RawFileMount::Placement(RawDirectoryPlacement { source, destination }),
                ),
                _ => None,
            }
        },
    }
}

/// The `files` field is absent or a list of file declarations.
pub open spec fn files_ok(f: Option<Doc>) -> bool {
    match f {
        None => true,
        Some(Doc::Array(items)) => forall|i: int| 0 <= i < items@.len() ==> mount_ok(#[trigger] items@[i]),
        Some(_) => false,
    }
}

/// `r` is what the `files` field `f` declares, in order.
pub open spec fn files_read(f: Option<Doc>, r: Option<Vec<RawFileMount>>) -> bool {
    match f {
        None => r is None,
        Some(Doc::Array(items)) => r matches Some(v) && v@.len() == items@.len() && forall|i: int|
            0 <= i < items@.len() ==> mount_read(#[trigger] items@[i], v@[i]),
        Some(_) => false,
    }
}

/// Reads the file declarations of a component.
pub fn read_files(f: Option<&Doc>) -> (r: Result<Option<Vec<RawFileMount>>, LoadError>)
    ensures
        r matches Err(e) ==> e is InvalidField,
        r matches Err(e) ==> is_shape_error(e),
        r is Ok <==> files_ok(opt_doc(f)),
        r matches Ok(v) ==> files_read(opt_doc(f), v),
{
    match f {
        None => Ok(None),
        Some(Doc::Array(items)) => {
            let mut out: Vec<RawFileMount> = Vec::new();
            let mut i: usize = 0;
            while i < items.len()
                invariant
                    i <= items@.len(),
                    opt_doc(f) == Some(Doc::Array(*items)),
                    out@.len() == i,
                    forall|j: int| 0 <= j < i ==> mount_ok(#[trigger] items@[j]),
                    forall|j: int| 0 <= j < i ==> mount_read(#[trigger] items@[j], out@[j]),
                decreases items.len() - i,
            {
                match read_mount(&items[i]) {
                    Some(m) => out.push(m),
                    None => {
                        let ghost k = i as int;
                        assert(!mount_ok(items@[k]));
                        assert(opt_doc(f) matches Some(Doc::Array(its)) && its@[k] == items@[k]);
                        return Err(invalid_field("files"));
                    },
                }
                i = i + 1;
            }
            Ok(Some(out))
        },
        Some(_) => Err(invalid_field("files")),
    }
}

/// The document behind an optional reference.
pub open spec fn opt_doc(f: Option<&Doc>) -> Option<Doc> {
    match f {
        Some(d) => Some(*d),
        None => None,
    }
}

/// The `environment` field is absent or a table of strings.
pub open spec fn env_ok(e: Option<Doc>) -> bool {
    match e {
        None => true,
        Some(Doc::Table(es)) => (forall|i: int| 0 <= i < es@.len() ==> (#[trigger] es@[i]).1 is Str)
            && keys_unique(es@),
        Some(_) => false,
    }
}

/// No two entries have the same key.
pub open spec fn keys_unique(es: Seq<(String, Doc)>) -> bool {
    forall|i: int, j: int| 0 <= i < j < es.len() ==> (#[trigger] es[i]).0@ != (#[trigger] es[j]).0@
}

/// Whether no two entries have the same key.
fn has_unique_keys(es: &Vec<(String, Doc)>) -> (r: bool)
    ensures
        r == keys_unique(es@),
{
    let mut j: usize = 0;
    while j < es.len()
        invariant
            j <= es@.len(),
            forall|a: int, b: int| 0 <= a < b < j ==> (#[trigger] es@[a]).0@ != (#[trigger] es@[b]).0@,
        decreases es.len() - j,
    {
        let mut i: usize = 0;
        while i < j
            invariant
                i <= j < es@.len(),
                forall|a: int| 0 <= a < i ==> (#[trigger] es@[a]).0@ != es@[j as int].0@,
            decreases j - i,
        {
            if es[i].0 == es[j].0 {
                assert(es@[i as int].0@ == es@[j as int].0@);
                return false;
            }
            i = i + 1;
        }
        j = j + 1;
    }
    true
}

/// `r` is what the `environment` field `e` declares, in order.
pub open spec fn env_read(e: Option<Doc>, r: Option<Vec<(String, String)>>) -> bool {
    match e {
        None => r is None,
        Some(Doc::Table(es)) => r matches Some(v) && v@.len() == es@.len() && forall|i: int|
            0 <= i < es@.len() ==> v@[i].0@ == (#[trigger] es@[i]).0@ && as_text(Some(es@[i].1))
                == Some(v@[i].1@),
        Some(_) => false,
    }
}

/// Reads the environment of a component.
pub fn read_environment(e: Option<&Doc>) -> (r: Result<Option<Vec<(String, String)>>, LoadError>)
    ensures
        r matches Err(e) ==> e is InvalidField,
        r matches Err(e) ==> is_shape_error(e),
        r is Ok <==> env_ok(opt_doc(e)),
        r matches Ok(v) ==> env_read(opt_doc(e), v),
{
    match e {
        None => Ok(None),
        Some(Doc::Table(es)) => {
            if !has_unique_keys(es) {
                return Err(invalid_field("environment"));
            }
            let mut out: Vec<(String, String)> = Vec::new();
            let mut i: usize = 0;
            while i < es.len()
                invariant
                    i <= es@.len(),
                    opt_doc(e) == Some(Doc::Table(*es)),
                    keys_unique(es@),
                    out@.len() == i,
                    forall|j: int| 0 <= j < i ==> (#[trigger] es@[j]).1 is Str,
                    forall|j: int|
                        0 <= j < i ==> out@[j].0@ == (#[trigger] es@[j]).0@ && as_text(
                            Some(es@[j].1),
                        ) == Some(out@[j].1@),
                decreases es.len() - i,
            {
                match &es[i].1 {
                    Doc::Str(v) => out.push((es[i].0.clone(), v.clone())),
                    _ => {
                        assert(!(es@[i as int].1 is Str));
                        return Err(invalid_field("environment"));
                    },
                }
                i = i + 1;
            }
            Ok(Some(out))
        },
        Some(_) => Err(invalid_field("environment")),
    }
}

/// The `source` field is a path, or a table with a reference and a parcel.
pub open spec fn source_ok(s: Option<Doc>) -> bool {
    match s {
        Some(Doc::Str(_)) => true,
        Some(d) => as_text(field(d, "reference"@)) is Some && as_text(field(d, "parcel"@)) is Some,
        None => false,
    }
}

/// `r` is what the `source` field `s` declares.
pub open spec fn source_read(s: Option<Doc>, r: RawModuleSource) -> bool {
    match s {
        Some(Doc::Str(p)) => r matches RawModuleSource::FileReference(q) && q@ == p@,
        Some(d) => r matches RawModuleSource::Bindle(b) && as_text(field(d, "reference"@)) == Some(
            b.reference@,
        ) && as_text(field(d, "parcel"@)) == Some(b.parcel@),
        None => false,
    }
}

/// Reads the source of a component.
pub fn read_source(s: Option<&Doc>) -> (r: Result<RawModuleSource, LoadError>)
    ensures
        r matches Err(e) ==> e is InvalidField,
        r matches Err(e) ==> is_shape_error(e),
        r is Ok <==> source_ok(opt_doc(s)),
        r matches Ok(v) ==> source_read(opt_doc(s), v),
{
    match s {
        Some(Doc::Str(p)) => Ok(RawModuleSource::FileReference(p.clone())),
        Some(d) => {
            let reference = get_text(d, "reference");
            let parcel = get_text(d, "parcel");
            match (reference, parcel) {
                (Some(reference), Some(parcel)) => Ok(
                    RawModuleSource::Bindle(BindleComponentSource { reference, parcel }),
                ),
                _ => Err(invalid_field("source")),
            }
        },
        None => Err(invalid_field("source")),
    }
}

/// `d` is a well-formed component declaration.
pub open spec fn component_ok(d: Doc) -> bool {
    &&& as_text(field(d, "id"@)) is Some
    &&& source_ok(field(d, "source"@))
    &&& env_ok(field(d, "environment"@))
    &&& files_ok(field(d, "files"@))
    &&& field(d, "trigger"@) matches Some(t) && trigger_ok(t)
}

/// `c` is what the component declaration `d` declares.
pub open spec fn component_read(d: Doc, c: RawComponentManifest) -> bool {
    &&& as_text(field(d, "id"@)) == Some(c.id@)
    &&& source_read(field(d, "source"@), c.source)
    &&& env_read(field(d, "environment"@), c.wasm.environment)
    &&& files_read(field(d, "files"@), c.wasm.files)
    &&& field(d, "trigger"@) matches Some(t) && trigger_read(t, c.trigger)
}

/// Reads one component declaration.
pub fn read_component(d: &Doc) -> (r: Result<RawComponentManifest, LoadError>)
    ensures
        r matches Err(e) ==> is_shape_error(e) && component_error(*d, e),
        r is Ok <==> component_ok(*d),
        r matches Ok(c) ==> component_read(*d, c),
{
    let id = match get_text(d, "id") {
        Some(id) => id,
        None => return Err(invalid_field("id")),
    };
    let source = match read_source(get_field(d, "source")) {
        Ok(s) => s,
        Err(e) => return Err(in_component(e, &id)),
    };
    let environment = match read_environment(get_field(d, "environment")) {
        Ok(e) => e,
        Err(e) => return Err(in_component(e, &id)),
    };
    let files = match read_files(get_field(d, "files")) {
        Ok(f) => f,
        Err(e) => return Err(in_component(e, &id)),
    };
    let trigger = match get_field(d, "trigger") {
        Some(t) => match read_trigger(t, &id) {
            Ok(t) => t,
            Err(e) => return Err(e),
        },
        None => return Err(LoadError::TriggerShapeMismatch { component: id }),
    };
    Ok(RawComponentManifest { id, source, wasm: RawWasmConfig { environment, files }, trigger })
}

/// `t` is an application trigger block of the HTTP type.
pub open spec fn app_trigger_ok(t: Option<Doc>) -> bool {
    t matches Some(d) && as_text(field(d, "type"@)) == Some("http"@) && optional_text_ok(
        d,
        "base"@,
    )
}

/// `a` is what the application trigger block `t` declares; the base is `/`
/// when none is given.
pub open spec fn app_trigger_read(t: Option<Doc>, a: ApplicationTrigger) -> bool {
    t matches Some(d) && match a {
        ApplicationTrigger::Http(h) => h.base@ == text_or(d, "base"@, "/"@),
    }
}

/// Reads the application trigger block.
pub fn read_app_trigger(t: Option<&Doc>) -> (r: Result<ApplicationTrigger, LoadError>)
    ensures
        r matches Err(e) ==> is_shape_error(e),
        r is Ok <==> app_trigger_ok(opt_doc(t)),
        r matches Ok(a) ==> app_trigger_read(opt_doc(t), a),
{
    let d = match t {
        Some(d) => d,
        None => return Err(invalid_field("trigger")),
    };
    match get_text(d, "type") {
        Some(k) => {
            if !str_eq(k.as_str(), "http") {
                return Err(invalid_field("trigger"));
            }
        },
        None => return Err(invalid_field("trigger")),
    }
    let base = match get_text(d, "base") {
        Some(b) => b,
        None => {
            if get_field(d, "base").is_some() {
                return Err(invalid_field("trigger"));
            }
            String::from_str("/")
        },
    };
    Ok(ApplicationTrigger::Http(HttpTriggerConfiguration { base }))
}

/// The field is absent or holds a list of strings.
pub open spec fn text_list_ok(f: Option<Doc>) -> bool {
    match f {
        None => true,
        Some(Doc::Array(items)) => forall|i: int| 0 <= i < items@.len() ==> (#[trigger] items@[i]) is Str,
        Some(_) => false,
    }
}

/// `r` holds the strings of the list `f`, in order.
pub open spec fn text_list_read(f: Option<Doc>, r: Option<Vec<String>>) -> bool {
    match f {
        None => r is None,
        Some(Doc::Array(items)) => r matches Some(v) && v@.len() == items@.len() && forall|i: int|
            0 <= i < items@.len() ==> as_text(Some(#[trigger] items@[i])) == Some(v@[i]@),
        Some(_) => false,
    }
}

/// Reads an optional list of strings.
pub fn read_text_list(f: Option<&Doc>, name: &str) -> (r: Result<Option<Vec<String>>, LoadError>)
    ensures
        r matches Err(e) ==> is_shape_error(e),
        r is Ok <==> text_list_ok(opt_doc(f)),
        r matches Ok(v) ==> text_list_read(opt_doc(f), v),
{
    match f {
        None => Ok(None),
        Some(Doc::Array(items)) => {
            let mut out: Vec<String> = Vec::new();
            let mut i: usize = 0;
            while i < items.len()
                invariant
                    i <= items@.len(),
                    opt_doc(f) == Some(Doc::Array(*items)),
                    out@.len() == i,
                    forall|j: int| 0 <= j < i ==> (#[trigger] items@[j]) is Str,
                    forall|j: int|
                        0 <= j < i ==> as_text(Some(#[trigger] items@[j])) == Some(out@[j]@),
                decreases items.len() - i,
            {
                match &items[i] {
                    Doc::Str(v) => out.push(v.clone()),
                    _ => {
                        let ghost k = i as int;
                        assert(!(items@[k] is Str));
                        assert(opt_doc(f) matches Some(Doc::Array(its)) && its@[k] == items@[k]);
                        return Err(invalid_field(name));
                    },
                }
                i = i + 1;
            }
            Ok(Some(out))
        },
        Some(_) => Err(invalid_field(name)),
    }
}

/// The version field holds the one known version.
pub open spec fn version_ok(d: Doc) -> bool {
    as_text(field(d, "spin_version"@)) == Some(version_one())
}

/// The application-level fields are present and well typed.
pub open spec fn info_ok(d: Doc) -> bool {
    &&& as_text(field(d, "name"@)) is Some
    &&& as_text(field(d, "name"@))->Some_0.len() > 0
    &&& as_text(field(d, "version"@)) is Some
    &&& optional_text_ok(d, "description"@)
    &&& text_list_ok(field(d, "authors"@))
    &&& app_trigger_ok(field(d, "trigger"@))
}

/// `i` is what the application-level fields of `d` declare.
pub open spec fn info_read(d: Doc, i: RawAppInformation) -> bool {
    &&& as_text(field(d, "name"@)) == Some(i.name@)
    &&& as_text(field(d, "version"@)) == Some(i.version@)
    &&& match i.description {
        Some(s) => as_text(field(d, "description"@)) == Some(s@),
        None => field(d, "description"@) is None,
    }
    &&& text_list_read(field(d, "authors"@), i.authors)
    &&& app_trigger_read(field(d, "trigger"@), i.trigger)
}

/// The `component` field is absent or a list of well-formed components.
pub open spec fn components_ok(f: Option<Doc>) -> bool {
    match f {
        None => true,
        Some(Doc::Array(items)) => forall|i: int| 0 <= i < items@.len() ==> component_ok(#[trigger] items@[i]),
        Some(_) => false,
    }
}

/// `cs` are the components that the `component` field `f` declares, in order.
pub open spec fn components_read(f: Option<Doc>, cs: Seq<RawComponentManifest>) -> bool {
    match f {
        None => cs.len() == 0,
        Some(Doc::Array(items)) => cs.len() == items@.len() && forall|i: int|
            0 <= i < items@.len() ==> component_read(#[trigger] items@[i], cs[i]),
        Some(_) => false,
    }
}

/// Reads the list of components.
pub fn read_components(f: Option<&Doc>) -> (r: Result<Vec<RawComponentManifest>, LoadError>)
    ensures
        forall|k: int|
            #[trigger] first_bad_component(opt_doc(f), k) ==> (r matches Err(e) && component_error(
                array_items(opt_doc(f))[k],
                e,
            )),
        r matches Err(e) ==> is_shape_error(e),
        r is Ok <==> components_ok(opt_doc(f)),
        r matches Ok(v) ==> components_read(opt_doc(f), v@),
{
    match f {
        None => Ok(Vec::new()),
        Some(Doc::Array(items)) => {
            let mut out: Vec<RawComponentManifest> = Vec::new();
            let mut i: usize = 0;
            while i < items.len()
                invariant
                    i <= items@.len(),
                    opt_doc(f) == Some(Doc::Array(*items)),
                    out@.len() == i,
                    forall|j: int| 0 <= j < i ==> component_ok(#[trigger] items@[j]),
                    forall|j: int| 0 <= j < i ==> component_read(#[trigger] items@[j], out@[j]),
                decreases items.len() - i,
            {
                match read_component(&items[i]) {
                    Ok(c) => out.push(c),
                    Err(e) => {
                        let ghost k = i as int;
                        assert(!component_ok(items@[k]));
                        assert(opt_doc(f) matches Some(Doc::Array(its)) && its@[k] == items@[k]);
                        assert(array_items(opt_doc(f)) == items@);
                        assert forall|q: int| #[trigger] first_bad_component(opt_doc(f), q) implies q == k by {
                            if q < k {
                                assert(component_ok(items@[q]));
                            }
                            if q > k {
                                assert(component_ok(array_items(opt_doc(f))[k]));
                            }
                        }
                        return Err(e);
                    },
                }
                i = i + 1;
            }
            Ok(out)
        },
        Some(_) => Err(invalid_field("component")),
    }
}

/// The error for a missing or unknown schema version.
pub fn version_error() -> (r: LoadError)
    ensures
        r matches LoadError::SchemaVersion { field } && field@ == "spin_version"@,
{
    LoadError::SchemaVersion { field: String::from_str("spin_version") }
}

/// What reading the document `d` may give: the version is checked before
/// any other field, a missing or unknown version is a version error and only
/// then; the manifest is read exactly when the document is well formed.
pub open spec fn raw_outcome(d: Doc, r: Result<RawAppManifestAnyVersion, LoadError>) -> bool {
    &&& !version_ok(d) ==> (r matches Err(LoadError::SchemaVersion { field }) && field@
        == "spin_version"@)
    &&& version_ok(d) ==> (r matches Err(e) ==> is_shape_error(e))
    &&& version_ok(d) && info_ok(d) ==> forall|k: int|
        #[trigger] first_bad_component(field(d, "component"@), k) ==> (r matches Err(e)
            && component_error(array_items(field(d, "component"@))[k], e))
    &&& r is Ok <==> version_ok(d) && info_ok(d) && components_ok(field(d, "component"@))
    &&& r matches Ok(RawAppManifestAnyVersion::V1(m)) ==> info_read(d, m.info) && components_read(
        field(d, "component"@),
        m.components@,
    )
}

/// Reads a manifest document. The version is checked before any other field:
/// a missing or unknown version is a schema version error, whatever else the
/// document holds.
pub fn raw_manifest_from_doc(d: &Doc) -> (r: Result<RawAppManifestAnyVersion, LoadError>)
    ensures
        raw_outcome(*d, r),
{
    match get_text(d, "spin_version") {
        Some(v) => {
            if !str_eq(v.as_str(), "1") {
                return Err(version_error());
            }
        },
        None => return Err(version_error()),
    }
    let name = match get_text(d, "name") {
        Some(n) => n,
        None => return Err(invalid_field("name")),
    };
    if name.as_str().unicode_len() == 0 {
        return Err(invalid_field("name"));
    }
    let version = match get_text(d, "version") {
        Some(v) => v,
        None => return Err(invalid_field("version")),
    };
    let description = get_text(d, "description");
    if description.is_none() && get_field(d, "description").is_some() {
        return Err(invalid_field("description"));
    }
    let authors = match read_text_list(get_field(d, "authors"), "authors") {
        Ok(a) => a,
        Err(e) => return Err(e),
    };
    let trigger = match read_app_trigger(get_field(d, "trigger")) {
        Ok(t) => t,
        Err(e) => return Err(e),
    };
    let components = match read_components(get_field(d, "component")) {
        Ok(c) => c,
        Err(e) => return Err(e),
    };
    let info = RawAppInformation { name, version, description, authors, trigger };
    Ok(RawAppManifestAnyVersion::V1(RawAppManifest { info, components }))
}

/// Parses manifest text. Text that nests too deeply or is not TOML is a
/// parse error; otherwise the result is that of `raw_manifest_from_doc` on
/// the text's document.
pub fn parse_manifest(text: &str) -> (r: Result<RawAppManifestAnyVersion, LoadError>)
    ensures
        !doc_parses(text) ==> r matches Err(LoadError::ManifestParse { .. }),
        doc_parses(text) ==> raw_outcome(toml_doc(text@), r),
{
    match parse_document(text) {
        Ok(d) => raw_manifest_from_doc(&d),
        Err(Some(message)) => Err(LoadError::ManifestParse { message }),
        Err(None) => Err(LoadError::ManifestParse { message: nesting_message() }),
    }
}

} // verus!
