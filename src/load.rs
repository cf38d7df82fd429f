//! Loading an application from manifest text or from a parsed document.

use vstd::prelude::*;
use crate::document::{Doc, doc_parses, field, nesting_message, parse_document, toml_doc};
use crate::model::{Application, LoadError, TriggerConfig};
use crate::raw::{
    RawAppManifestAnyVersion, RawAppManifest, RawComponentManifest, RawFileMount,
    array_items, component_error, component_read, components_ok, first_bad_component, components_read, info_ok, info_read, is_shape_error, mount_read,
    raw_manifest_from_doc, text_or, version_ok,
};
use crate::paths::spec_join;
use crate::resolve::{
    FsView, MountPair, all_mounts_resolve, application_resolved, assemble, dir_exists, files_of,
    first_failing, first_missing, glob_matches, has_duplicate_id, missing_placement, mount_pairs,
    pattern_pairs, spec_mounts,
};

verus! {

/// The items of an array field; none for anything else.
pub open spec fn doc_items(f: Option<Doc>) -> Seq<Doc> {
    match f {
        Some(Doc::Array(items)) => items@,
        _ => Seq::empty(),
    }
}

/// The component declarations of a manifest document.
pub open spec fn doc_components(d: Doc) -> Seq<Doc> {
    doc_items(field(d, "component"@))
}

/// The id of a component declaration.
pub open spec fn doc_id(c: Doc) -> Seq<char> {
    text_or(c, "id"@, Seq::empty())
}

/// The file declarations of a component declaration.
pub open spec fn doc_files(c: Doc) -> Seq<Doc> {
    doc_items(field(c, "files"@))
}

/// Two component declarations have the same id.
pub open spec fn doc_has_duplicate_id(cs: Seq<Doc>) -> bool {
    exists|i: int, j: int| 0 <= i < j < cs.len() && doc_id(#[trigger] cs[i]) == doc_id(#[trigger] cs[j])
}

/// The mounts of one file declaration; nothing when it is a placement whose
/// source directory does not exist.
pub open spec fn doc_mount_pairs(base: Seq<char>, fs: &FsView, m: Doc) -> Option<Seq<MountPair>> {
    match m {
        Doc::Str(p) => Some(pattern_pairs(base, glob_matches(fs, p@))),
        _ => {
            let src = text_or(m, "source"@, Seq::empty());
            if dir_exists(fs, src) {
                Some(seq![(spec_join(base, src), text_or(m, "destination"@, Seq::empty()))])
            } else {
                None
            }
        },
    }
}

/// The mounts of a list of file declarations, in order; nothing when any fails.
pub open spec fn doc_mounts(base: Seq<char>, fs: &FsView, ms: Seq<Doc>) -> Option<Seq<MountPair>>
    decreases ms.len(),
{
    if ms.len() == 0 {
        Some(Seq::empty())
    } else {
        match (doc_mounts(base, fs, ms.drop_last()), doc_mount_pairs(base, fs, ms.last())) {
            (Some(a), Some(b)) => Some(a + b),
            _ => None,
        }
    }
}

/// The file declarations of every component resolve.
pub open spec fn doc_mounts_resolve(base: Seq<char>, fs: &FsView, cs: Seq<Doc>) -> bool {
    forall|i: int| 0 <= i < cs.len() ==> doc_mounts(base, fs, doc_files(#[trigger] cs[i])) is Some
}

/// `m` is a placement whose source directory `src` does not exist.
pub open spec fn doc_missing(fs: &FsView, m: Doc, src: Seq<char>) -> bool {
    !(m is Str) && text_or(m, "source"@, Seq::empty()) == src && !dir_exists(fs, src)
}

/// `src` is the source of the first failing declaration of `ds`.
pub open spec fn doc_first_missing(base: Seq<char>, fs: &FsView, ds: Seq<Doc>, src: Seq<char>) -> bool {
    exists|q: int|
        0 <= q < ds.len() && doc_missing(fs, #[trigger] ds[q], src) && forall|j: int|
            0 <= j < q ==> doc_mount_pairs(base, fs, #[trigger] ds[j]) is Some
}

/// `component` is the id of the first component declaration whose mounts
/// fail, and `source` the source of its first failing declaration.
pub open spec fn doc_first_failing(
    base: Seq<char>,
    fs: &FsView,
    cs: Seq<Doc>,
    component: Seq<char>,
    source: Seq<char>,
) -> bool {
    exists|k: int|
        0 <= k < cs.len() && doc_mounts(base, fs, doc_files(#[trigger] cs[k])) is None && doc_id(
            cs[k],
        ) == component && doc_first_missing(base, fs, doc_files(cs[k]), source) && forall|j: int|
            0 <= j < k ==> doc_mounts(base, fs, doc_files(#[trigger] cs[j])) is Some
}

/// The document declares a manifest of a known version with well-formed fields.
pub open spec fn doc_well_formed(d: Doc) -> bool {
    version_ok(d) && info_ok(d) && components_ok(field(d, "component"@))
}

/// What loading the document `d` gives:
/// - a missing or unknown version is a version error, and only then;
/// - with a known version, a malformed document is a shape error; the first
///   malformed component decides it: a field error naming the component, or
///   a trigger shape mismatch naming it when its trigger block is not
///   HTTP-shaped;
/// - a well-formed document loads exactly when no two components share an id
///   and every component's mounts resolve;
/// - duplicate ids are a duplicate error naming one of them;
/// - otherwise a failing mount is an error naming the first failing
///   component and the source of its first failing placement;
/// - a loaded application is the resolution of the manifest that `d` declares.
pub open spec fn load_outcome(
    d: Doc,
    path: Seq<char>,
    base: Seq<char>,
    fs: &FsView,
    r: Result<Application, LoadError>,
) -> bool {
    let cs = doc_components(d);
    &&& !version_ok(d) ==> (r matches Err(LoadError::SchemaVersion { field }) && field@
        == "spin_version"@)
    &&& version_ok(d) && !doc_well_formed(d) ==> (r matches Err(e) && is_shape_error(e))
    &&& version_ok(d) && info_ok(d) ==> forall|k: int|
        #[trigger] first_bad_component(field(d, "component"@), k) ==> (r matches Err(e)
            && component_error(array_items(field(d, "component"@))[k], e))
    &&& doc_well_formed(d) ==> (r is Ok <==> !doc_has_duplicate_id(cs) && doc_mounts_resolve(
        base,
        fs,
        cs,
    ))
    &&& doc_well_formed(d) && doc_has_duplicate_id(cs) ==> (r matches Err(
        LoadError::DuplicateComponentId { id },
    ) && exists|i: int| 0 <= i < cs.len() && doc_id(#[trigger] cs[i]) == id@)
    &&& doc_well_formed(d) && !doc_has_duplicate_id(cs) && !doc_mounts_resolve(base, fs, cs) ==> (
    r matches Err(LoadError::MountSourceNotFound { component, source }) && doc_first_failing(
        base,
        fs,
        cs,
        component@,
        source@,
    ))
    &&& r matches Ok(app) ==> exists|m: RawAppManifest|
        info_read(d, m.info) && components_read(field(d, "component"@), #[trigger] m.components@)
            && application_resolved(m, path, base, fs, app)
}

proof fn lemma_mount_agrees(base: Seq<char>, fs: &FsView, d: Doc, m: RawFileMount, src: Seq<char>)
    requires
        mount_read(d, m),
    ensures
        mount_pairs(base, fs, m) == doc_mount_pairs(base, fs, d),
        missing_placement(fs, m, src) == doc_missing(fs, d, src),
{
}

proof fn lemma_files_agree(base: Seq<char>, fs: &FsView, ds: Seq<Doc>, ms: Seq<RawFileMount>)
    requires
        ds.len() == ms.len(),
        forall|i: int| 0 <= i < ds.len() ==> mount_read(#[trigger] ds[i], ms[i]),
    ensures
        spec_mounts(base, fs, ms) == doc_mounts(base, fs, ds),
        forall|src: Seq<char>|
            #[trigger] first_missing(base, fs, ms, src) == doc_first_missing(base, fs, ds, src),
    decreases ds.len(),
{
    assert forall|i: int| 0 <= i < ds.len() implies mount_pairs(base, fs, #[trigger] ms[i])
        == doc_mount_pairs(base, fs, ds[i]) by {
        lemma_mount_agrees(base, fs, ds[i], ms[i], Seq::empty());
    }
    if ds.len() > 0 {
        lemma_files_agree(base, fs, ds.drop_last(), ms.drop_last());
    }
    assert forall|src: Seq<char>|
        #[trigger] first_missing(base, fs, ms, src) == doc_first_missing(base, fs, ds, src) by {
        if first_missing(base, fs, ms, src) {
            let q = choose|q: int|
                0 <= q < ms.len() && missing_placement(fs, #[trigger] ms[q], src) && forall|j: int|
                    0 <= j < q ==> mount_pairs(base, fs, #[trigger] ms[j]) is Some;
            lemma_mount_agrees(base, fs, ds[q], ms[q], src);
            assert forall|j: int| 0 <= j < q implies doc_mount_pairs(base, fs, #[trigger] ds[j]) is Some by {
                assert(mount_pairs(base, fs, ms[j]) is Some);
            }
        }
        if doc_first_missing(base, fs, ds, src) {
            let q = choose|q: int|
                0 <= q < ds.len() && doc_missing(fs, #[trigger] ds[q], src) && forall|j: int|
                    0 <= j < q ==> doc_mount_pairs(base, fs, #[trigger] ds[j]) is Some;
            lemma_mount_agrees(base, fs, ds[q], ms[q], src);
            assert forall|j: int| 0 <= j < q implies mount_pairs(base, fs, #[trigger] ms[j]) is Some by {
                assert(doc_mount_pairs(base, fs, ds[j]) is Some);
            }
        }
    }
}

proof fn lemma_component_agrees(base: Seq<char>, fs: &FsView, d: Doc, c: RawComponentManifest)
    requires
        component_read(d, c),
    ensures
        c.id@ == doc_id(d),
        spec_mounts(base, fs, files_of(c)) == doc_mounts(base, fs, doc_files(d)),
        forall|src: Seq<char>|
            #[trigger] first_missing(base, fs, files_of(c), src) == doc_first_missing(
                base,
                fs,
                doc_files(d),
                src,
            ),
{
    lemma_files_agree(base, fs, doc_files(d), files_of(c));
}

proof fn lemma_components_agree(
    base: Seq<char>,
    fs: &FsView,
    f: Option<Doc>,
    cs: Seq<RawComponentManifest>,
)
    requires
        components_read(f, cs),
    ensures
        has_duplicate_id(cs) == doc_has_duplicate_id(doc_items(f)),
        all_mounts_resolve(base, fs, cs) == doc_mounts_resolve(base, fs, doc_items(f)),
        forall|component: Seq<char>, source: Seq<char>|
            #[trigger] first_failing(base, fs, cs, component, source) ==> doc_first_failing(
                base,
                fs,
                doc_items(f),
                component,
                source,
            ),
        forall|i: int| 0 <= i < cs.len() ==> (#[trigger] cs[i]).id@ == doc_id(doc_items(f)[i]),
{
    let ds = doc_items(f);
    assert forall|i: int| 0 <= i < cs.len() implies (#[trigger] cs[i]).id@ == doc_id(ds[i])
        && spec_mounts(base, fs, files_of(cs[i])) == doc_mounts(base, fs, doc_files(ds[i])) && (
    forall|src: Seq<char>|
        #[trigger] first_missing(base, fs, files_of(cs[i]), src) == doc_first_missing(
            base,
            fs,
            doc_files(ds[i]),
            src,
        )) by {
        lemma_component_agrees(base, fs, ds[i], cs[i]);
    }
    if has_duplicate_id(cs) {
        let (i, j) = choose|i: int, j: int|
            0 <= i < j < cs.len() && (#[trigger] cs[i]).id@ == (#[trigger] cs[j]).id@;
        assert(doc_id(ds[i]) == doc_id(ds[j]));
    }
    if doc_has_duplicate_id(ds) {
        let (i, j) = choose|i: int, j: int|
            0 <= i < j < ds.len() && doc_id(#[trigger] ds[i]) == doc_id(#[trigger] ds[j]);
        assert(cs[i].id@ == cs[j].id@);
    }
    if all_mounts_resolve(base, fs, cs) {
        assert forall|i: int| 0 <= i < ds.len() implies doc_mounts(base, fs, doc_files(#[trigger] ds[i])) is Some by {
            assert(spec_mounts(base, fs, files_of(cs[i])) is Some);
        }
    }
    if doc_mounts_resolve(base, fs, ds) {
        assert forall|i: int| 0 <= i < cs.len() implies spec_mounts(base, fs, files_of(#[trigger] cs[i])) is Some by {
            assert(doc_mounts(base, fs, doc_files(ds[i])) is Some);
        }
    }
    assert forall|component: Seq<char>, source: Seq<char>|
        #[trigger] first_failing(base, fs, cs, component, source) implies doc_first_failing(
            base,
            fs,
            ds,
            component,
            source,
        ) by {
        let k = choose|k: int|
            0 <= k < cs.len() && spec_mounts(base, fs, files_of(#[trigger] cs[k])) is None
                && cs[k].id@ == component && first_missing(base, fs, files_of(cs[k]), source)
                && forall|j: int|
                0 <= j < k ==> spec_mounts(base, fs, files_of(#[trigger] cs[j])) is Some;
        assert(doc_first_missing(base, fs, doc_files(ds[k]), source));
        assert forall|j: int| 0 <= j < k implies doc_mounts(base, fs, doc_files(#[trigger] ds[j])) is Some by {
            assert(spec_mounts(base, fs, files_of(cs[j])) is Some);
        }
    }
}

/// Loads the application that a parsed manifest document declares, with the
/// outcome that `load_outcome` describes.
pub fn load_document(d: &Doc, manifest_path: &str, base_dir: &str, fs: &FsView) -> (r: Result<
    Application,
    LoadError,
>)
    ensures
        load_outcome(*d, manifest_path@, base_dir@, fs, r),
{
    match raw_manifest_from_doc(d) {
        Ok(RawAppManifestAnyVersion::V1(m)) => {
            let ghost raw = m;
            proof {
                lemma_components_agree(base_dir@, fs, field(*d, "component"@), raw.components@);
            }
            let r = assemble(m, manifest_path, base_dir, fs);
            proof {
                if r is Ok {
                    assert(info_read(*d, raw.info) && components_read(
                        field(*d, "component"@),
                        raw.components@,
                    ));
                }
                if has_duplicate_id(raw.components@) {
                    let id = r->Err_0->DuplicateComponentId_id;
                    let i = choose|i: int|
                        0 <= i < raw.components@.len() && (#[trigger] raw.components@[i]).id@ == id@;
                    assert(doc_id(doc_components(*d)[i]) == id@);
                }
                if !has_duplicate_id(raw.components@) && !all_mounts_resolve(
                    base_dir@,
                    fs,
                    raw.components@,
                ) {
                    let e = r->Err_0;
                    assert(first_failing(
                        base_dir@,
                        fs,
                        raw.components@,
                        e->MountSourceNotFound_component@,
                        e->MountSourceNotFound_source@,
                    ));
                }
            }
            r
        },
        Err(e) => Err(e),
    }
}

/// Loads the application that manifest text declares. Text that nests too
/// deeply or is not TOML is a parse error; otherwise the result is that of
/// `load_document` on the text's document.
pub fn load_manifest(text: &str, manifest_path: &str, base_dir: &str, fs: &FsView) -> (r: Result<
    Application,
    LoadError,
>)
    ensures
        !doc_parses(text) ==> r matches Err(LoadError::ManifestParse { .. }),
        doc_parses(text) ==> load_outcome(toml_doc(text@), manifest_path@, base_dir@, fs, r),
{
    match parse_document(text) {
        Ok(d) => load_document(&d, manifest_path, base_dir, fs),
        Err(Some(message)) => Err(LoadError::ManifestParse { message }),
        Err(None) => Err(LoadError::ManifestParse { message: nesting_message() }),
    }
}

/// The characters of `k` occur in `s`.
pub open spec fn contains(s: Seq<char>, k: Seq<char>) -> bool {
    exists|i: int| 0 <= i && i + k.len() <= s.len() && #[trigger] s.subrange(i, i + k.len()) == k
}

/// The text of an error.
pub open spec fn message_of(e: LoadError) -> Seq<char> {
    match e {
        LoadError::SchemaVersion { field } => "missing or unknown `"@ + field@ + "`"@,
        LoadError::ManifestParse { message } => "cannot parse manifest: "@ + message@,
        LoadError::InvalidField { field } => "missing or ill-typed field `"@ + field@ + "`"@,
        LoadError::InvalidComponentField { component, field } => "missing or ill-typed field `"@
            + field@ + "` of component `"@ + component@ + "`"@,
        LoadError::TriggerShapeMismatch { component } => "trigger of component `"@ + component@
            + "` is not an HTTP trigger"@,
        LoadError::MountSourceNotFound { component, source } => "directory `"@ + source@
            + "` of component `"@ + component@ + "` not found"@,
        LoadError::DuplicateComponentId { id } => "duplicate component id `"@ + id@ + "`"@,
        LoadError::Io { message } => "i/o error: "@ + message@,
    }
}

fn concat3(a: &str, b: &str, c: &str) -> (r: String)
    ensures
        r@ == a@ + b@ + c@,
{
    let mut s = String::from_str(a);
    s.append(b);
    s.append(c);
    s
}

fn concat2(a: &str, b: &str) -> (r: String)
    ensures
        r@ == a@ + b@,
{
    let mut s = String::from_str(a);
    s.append(b);
    s
}

fn concat5(a: &str, b: &str, c: &str, d: &str, e: &str) -> (r: String)
    ensures
        r@ == a@ + b@ + c@ + d@ + e@,
{
    let mut s = concat3(a, b, c);
    s.append(d);
    s.append(e);
    s
}

impl LoadError {
    /// A human-readable description of the error.
    pub fn message(&self) -> (r: String)
        ensures
            r@ == message_of(*self),
    {
        match self {
            LoadError::SchemaVersion { field } => concat3("missing or unknown `", field.as_str(), "`"),
            LoadError::ManifestParse { message } => concat2("cannot parse manifest: ", message.as_str()),
            LoadError::InvalidField { field } => concat3(
                "missing or ill-typed field `",
                field.as_str(),
                "`",
            ),
            LoadError::InvalidComponentField { component, field } => concat5(
                "missing or ill-typed field `",
                field.as_str(),
                "` of component `",
                component.as_str(),
                "`",
            ),
            LoadError::TriggerShapeMismatch { component } => concat3(
                "trigger of component `",
                component.as_str(),
                "` is not an HTTP trigger",
            ),
            LoadError::MountSourceNotFound { component, source } => concat5(
                "directory `",
                source.as_str(),
                "` of component `",
                component.as_str(),
                "` not found",
            ),
            LoadError::DuplicateComponentId { id } => concat3(
                "duplicate component id `",
                id.as_str(),
                "`",
            ),
            LoadError::Io { message } => concat2("i/o error: ", message.as_str()),
        }
    }
}

/// A version error names the version field in its text.
pub proof fn lemma_version_error_names_field(e: LoadError)
    requires
        e matches LoadError::SchemaVersion { field } && field@ == "spin_version"@,
    ensures
        contains(message_of(e), "spin_version"@),
{
    let p = "missing or unknown `"@;
    let k = "spin_version"@;
    let s = message_of(e);
    assert(s.subrange(p.len() as int, (p.len() + k.len()) as int) =~= k);
}

/// A document whose version is missing or unknown fails to load, with an
/// error whose text names the version field, whatever else it holds; with a
/// known version, loading goes on past the version check.
pub proof fn lemma_version_gate(
    d: Doc,
    path: Seq<char>,
    base: Seq<char>,
    fs: &FsView,
    r: Result<Application, LoadError>,
)
    requires
        load_outcome(d, path, base, fs, r),
    ensures
        !version_ok(d) ==> (r matches Err(e) && contains(message_of(e), "spin_version"@)),
        version_ok(d) ==> !(r matches Err(LoadError::SchemaVersion { .. })),
{
    if !version_ok(d) {
        lemma_version_error_names_field(r->Err_0);
    }
}

impl Application {
    /// The trigger settings of the component `id`.
    pub fn trigger_for(&self, id: &str) -> (r: Option<&TriggerConfig>)
        ensures
            match r {
                Some(t) => exists|i: int|
                    0 <= i < self.component_triggers@.len()
                        && (#[trigger] self.component_triggers@[i]).0@ == id@
                        && self.component_triggers@[i].1 == *t,
                None => forall|i: int|
                    0 <= i < self.component_triggers@.len()
                        ==> (#[trigger] self.component_triggers@[i]).0@ != id@,
            },
    {
        let mut i: usize = 0;
        while i < self.component_triggers.len()
            invariant
                i <= self.component_triggers@.len(),
                forall|j: int| 0 <= j < i ==> (#[trigger] self.component_triggers@[j]).0@ != id@,
            decreases self.component_triggers.len() - i,
        {
            if crate::document::str_eq(self.component_triggers[i].0.as_str(), id) {
                return Some(&self.component_triggers[i].1);
            }
            i = i + 1;
        }
        None
    }
}

/// The mounts of declarations written one after another are the mounts of
/// each part, in the same order: declaration order is kept.
pub proof fn lemma_mounts_keep_order(
    base: Seq<char>,
    fs: &FsView,
    a: Seq<RawFileMount>,
    b: Seq<RawFileMount>,
)
    requires
        spec_mounts(base, fs, a) is Some,
        spec_mounts(base, fs, b) is Some,
    ensures
        spec_mounts(base, fs, a + b) == Some(
            spec_mounts(base, fs, a)->Some_0 + spec_mounts(base, fs, b)->Some_0,
        ),
    decreases b.len(),
{
    if b.len() == 0 {
        assert(a + b =~= a);
        assert(spec_mounts(base, fs, b)->Some_0 =~= Seq::empty());
        assert(spec_mounts(base, fs, a)->Some_0 + Seq::<(Seq<char>, Seq<char>)>::empty()
            =~= spec_mounts(base, fs, a)->Some_0);
    } else {
        assert((a + b).drop_last() =~= a + b.drop_last());
        assert((a + b).last() == b.last());
        lemma_mounts_keep_order(base, fs, a, b.drop_last());
        let x = spec_mounts(base, fs, a)->Some_0;
        let y = spec_mounts(base, fs, b.drop_last())->Some_0;
        let z = crate::resolve::mount_pairs(base, fs, b.last())->Some_0;
        assert(x + y + z =~= x + (y + z));
    }
}

/// Whether a load succeeds does not depend on the module sources: two
/// manifests whose components differ in nothing but their sources, a file
/// that may not exist among them, load or fail alike.
pub proof fn lemma_module_existence_deferred(
    m1: Seq<RawComponentManifest>,
    m2: Seq<RawComponentManifest>,
    base: Seq<char>,
    fs: &FsView,
)
    requires
        m1.len() == m2.len(),
        forall|i: int|
            0 <= i < m1.len() ==> (#[trigger] m1[i]).id == m2[i].id && m1[i].wasm == m2[i].wasm,
    ensures
        has_duplicate_id(m1) == has_duplicate_id(m2),
        all_mounts_resolve(base, fs, m1) == all_mounts_resolve(base, fs, m2),
{
    assert forall|i: int| 0 <= i < m1.len() implies files_of(#[trigger] m1[i]) == files_of(m2[i]) by {
        assert(m1[i].wasm == m2[i].wasm);
    }
    if has_duplicate_id(m1) {
        let (i, j) = choose|i: int, j: int|
            0 <= i < j < m1.len() && (#[trigger] m1[i]).id@ == (#[trigger] m1[j]).id@;
        assert(m2[i].id == m1[i].id && m2[j].id == m1[j].id);
    }
    if has_duplicate_id(m2) {
        let (i, j) = choose|i: int, j: int|
            0 <= i < j < m2.len() && (#[trigger] m2[i]).id@ == (#[trigger] m2[j]).id@;
        assert(m1[i].id == m2[i].id && m1[j].id == m2[j].id);
    }
    if all_mounts_resolve(base, fs, m1) {
        assert forall|i: int| 0 <= i < m2.len() implies spec_mounts(base, fs, files_of(#[trigger] m2[i])) is Some by {
            assert(files_of(m1[i]) == files_of(m2[i]));
        }
    }
    if all_mounts_resolve(base, fs, m2) {
        assert forall|i: int| 0 <= i < m1.len() implies spec_mounts(base, fs, files_of(#[trigger] m1[i])) is Some by {
            assert(files_of(m1[i]) == files_of(m2[i]));
        }
    }
}

} // verus!
