//! Resolution of a raw manifest against a base directory into an application.

use vstd::prelude::*;
use crate::document::str_eq;
use crate::model::{
    Application, ApplicationInformation, ApplicationOrigin, CoreComponent, DirectoryMount,
    HttpConfig, HttpExecutor, LoadError, ModuleSource, SpinVersion, TriggerConfig, WasmConfig,
};
use crate::paths::{join_path, spec_join};
use crate::raw::{RawAppManifest, RawComponentManifest, RawFileMount, RawModuleSource, env_of};

verus! {

/// What the filesystem under the base directory was seen to hold: the
/// relative paths that are directories, and for each glob pattern the
/// relative paths that it matched. A pattern that is not listed matched
/// nothing.
#[derive(Debug)]
pub struct FsView {
    pub dirs: Vec<String>,
    pub globs: Vec<(String, Vec<String>)>,
}

/// A (host path, guest path) pair.
pub type MountPair = (Seq<char>, Seq<char>);

/// The relative path `rel` is a directory.
pub open spec fn dir_exists(fs: &FsView, rel: Seq<char>) -> bool {
    exists|i: int| 0 <= i < fs.dirs@.len() && (#[trigger] fs.dirs@[i])@ == rel
}

/// The matches of the first entry for `pat` in `gs`.
pub open spec fn glob_lookup(gs: Seq<(String, Vec<String>)>, pat: Seq<char>) -> Option<Seq<String>>
    decreases gs.len(),
{
    if gs.len() == 0 {
        None
    } else {
        match glob_lookup(gs.drop_last(), pat) {
            Some(m) => Some(m),
            None => if gs.last().0@ == pat {
                Some(gs.last().1@)
            } else {
                None
            },
        }
    }
}

/// The relative paths that the pattern `pat` matched.
pub open spec fn glob_matches(fs: &FsView, pat: Seq<char>) -> Seq<String> {
    match glob_lookup(fs.globs@, pat) {
        Some(m) => m,
        None => Seq::empty(),
    }
}

/// Each match as a mount: the host path under `base`, the guest path the
/// relative path itself.
pub open spec fn pattern_pairs(base: Seq<char>, ms: Seq<String>) -> Seq<MountPair> {
    ms.map_values(|m: String| (spec_join(base, m@), m@))
}

/// The mounts of one declaration; nothing when a placement's source
/// directory does not exist.
pub open spec fn mount_pairs(base: Seq<char>, fs: &FsView, m: RawFileMount) -> Option<Seq<MountPair>> {
    match m {
        RawFileMount::Pattern(p) => Some(pattern_pairs(base, glob_matches(fs, p@))),
        RawFileMount::Placement(pl) => if dir_exists(fs, pl.source@) {
            Some(seq![(spec_join(base, pl.source@), pl.destination@)])
        } else {
            None
        },
    }
}

/// The mounts of a list of declarations, in declaration order; nothing when
/// any declaration fails.
pub open spec fn spec_mounts(base: Seq<char>, fs: &FsView, files: Seq<RawFileMount>) -> Option<
    Seq<MountPair>,
>
    decreases files.len(),
{
    if files.len() == 0 {
        Some(Seq::empty())
    } else {
        match (spec_mounts(base, fs, files.drop_last()), mount_pairs(base, fs, files.last())) {
            (Some(a), Some(b)) => Some(a + b),
            _ => None,
        }
    }
}

/// Mounts as (host, guest) pairs.
pub open spec fn mounts_view(v: Seq<DirectoryMount>) -> Seq<MountPair> {
    v.map_values(|d: DirectoryMount| (d.host@, d.guest@))
}

/// Looks up the matches of a pattern.
pub fn find_glob<'a>(fs: &'a FsView, pat: &str) -> (r: Option<&'a Vec<String>>)
    ensures
        match r {
            Some(v) => glob_lookup(fs.globs@, pat@) == Some(v@),
            None => glob_lookup(fs.globs@, pat@) is None,
        },
{
    let gs = &fs.globs;
    let mut i: usize = 0;
    while i < gs.len()
        invariant
            i <= gs@.len(),
            gs == &fs.globs,
            glob_lookup(gs@.subrange(0, i as int), pat@) is None,
        decreases gs.len() - i,
    {
        assert(gs@.subrange(0, i + 1).drop_last() =~= gs@.subrange(0, i as int));
        if str_eq(gs[i].0.as_str(), pat) {
            assert(gs@.subrange(0, i + 1).last() == gs@[i as int]);
            proof {
                lemma_glob_lookup_prefix(gs@, (i + 1) as int, pat@);
            }
            return Some(&gs[i].1);
        }
        i = i + 1;
    }
    assert(gs@.subrange(0, gs@.len() as int) =~= gs@);
    None
}

proof fn lemma_glob_lookup_prefix(gs: Seq<(String, Vec<String>)>, n: int, pat: Seq<char>)
    requires
        0 <= n <= gs.len(),
        glob_lookup(gs.subrange(0, n), pat) is Some,
    ensures
        glob_lookup(gs, pat) == glob_lookup(gs.subrange(0, n), pat),
    decreases gs.len() - n,
{
    if n < gs.len() {
        assert(gs.subrange(0, n + 1).drop_last() =~= gs.subrange(0, n));
        lemma_glob_lookup_prefix(gs, n + 1, pat);
    } else {
        assert(gs.subrange(0, n) =~= gs);
    }
}

/// Whether the relative path `rel` is a directory.
pub fn has_dir(fs: &FsView, rel: &str) -> (r: bool)
    ensures
        r == dir_exists(fs, rel@),
{
    let mut i: usize = 0;
    while i < fs.dirs.len()
        invariant
            i <= fs.dirs@.len(),
            forall|j: int| 0 <= j < i ==> (#[trigger] fs.dirs@[j])@ != rel@,
        decreases fs.dirs.len() - i,
    {
        if str_eq(fs.dirs[i].as_str(), rel) {
            return true;
        }
        i = i + 1;
    }
    false
}

/// `src` is the source of the first declaration of `files` that fails, a
/// placement whose source directory does not exist.
pub open spec fn first_missing(base: Seq<char>, fs: &FsView, files: Seq<RawFileMount>, src: Seq<char>) -> bool {
    exists|q: int|
        0 <= q < files.len() && missing_placement(fs, #[trigger] files[q], src) && forall|j: int|
            0 <= j < q ==> mount_pairs(base, fs, #[trigger] files[j]) is Some
}

/// `m` is a placement whose source directory `src` does not exist.
pub open spec fn missing_placement(fs: &FsView, m: RawFileMount, src: Seq<char>) -> bool {
    match m {
        RawFileMount::Placement(pl) => pl.source@ == src && !dir_exists(fs, src),
        _ => false,
    }
}

proof fn lemma_mounts_fail_prefix(base: Seq<char>, fs: &FsView, files: Seq<RawFileMount>, n: int)
    requires
        0 <= n <= files.len(),
        spec_mounts(base, fs, files.subrange(0, n)) is None,
    ensures
        spec_mounts(base, fs, files) is None,
    decreases files.len() - n,
{
    if n < files.len() {
        assert(files.subrange(0, n + 1).drop_last() =~= files.subrange(0, n));
        lemma_mounts_fail_prefix(base, fs, files, n + 1);
    } else {
        assert(files.subrange(0, n) =~= files);
    }
}

/// Resolves the file declarations of the component `id` against `base`.
/// Patterns expand to their matches; a placement whose source directory does
/// not exist fails the whole list.
pub fn resolve_mounts(id: &String, base: &str, files: &Vec<RawFileMount>, fs: &FsView) -> (r: Result<
    Vec<DirectoryMount>,
    LoadError,
>)
    ensures
        r is Ok <==> spec_mounts(base@, fs, files@) is Some,
        r matches Ok(v) ==> spec_mounts(base@, fs, files@) == Some(mounts_view(v@)),
        r matches Err(e) ==> (e matches LoadError::MountSourceNotFound { component, source }
            && component == *id && first_missing(base@, fs, files@, source@)),
{
    let mut out: Vec<DirectoryMount> = Vec::new();
    let mut i: usize = 0;
    assert(files@.subrange(0, 0) =~= Seq::<RawFileMount>::empty());
    assert(mounts_view(out@) =~= Seq::<MountPair>::empty());
    while i < files.len()
        invariant
            i <= files@.len(),
            spec_mounts(base@, fs, files@.subrange(0, i as int)) == Some(mounts_view(out@)),
            forall|j: int| 0 <= j < i ==> mount_pairs(base@, fs, #[trigger] files@[j]) is Some,
        decreases files.len() - i,
    {
        let ghost before = out@;
        assert(files@.subrange(0, i + 1).drop_last() =~= files@.subrange(0, i as int));
        assert(files@.subrange(0, i + 1).last() == files@[i as int]);
        match &files[i] {
            RawFileMount::Pattern(p) => {
                let ghost ms = glob_matches(fs, p@);
                match find_glob(fs, p.as_str()) {
                    Some(matches) => {
                        let mut k: usize = 0;
                        while k < matches.len()
                            invariant
                                k <= matches@.len(),
                                matches@ == ms,
                                out@.len() == before.len() + k,
                                mounts_view(out@) == mounts_view(before) + pattern_pairs(
                                    base@,
                                    ms.subrange(0, k as int),
                                ),
                            decreases matches.len() - k,
                        {
                            let host = join_path(base, matches[k].as_str());
                            let guest = matches[k].clone();
                            let ghost prev = out@;
                            out.push(DirectoryMount { host, guest });
                            assert(mounts_view(out@) =~= mounts_view(prev).push(
                                (spec_join(base@, ms[k as int]@), ms[k as int]@),
                            ));
                            assert(pattern_pairs(base@, ms.subrange(0, k + 1)) =~= pattern_pairs(
                                base@,
                                ms.subrange(0, k as int),
                            ).push((spec_join(base@, ms[k as int]@), ms[k as int]@)));
                            k = k + 1;
                        }
                        assert(ms.subrange(0, k as int) =~= ms);
                    },
                    None => {
                        assert(pattern_pairs(base@, ms) =~= Seq::<MountPair>::empty());
                        assert(mounts_view(out@) =~= mounts_view(out@) + pattern_pairs(base@, ms));
                    },
                }
            },
            RawFileMount::Placement(pl) => {
                if !has_dir(fs, pl.source.as_str()) {
                    proof {
                        lemma_mounts_fail_prefix(base@, fs, files@, i + 1);
                        assert(missing_placement(fs, files@[i as int], pl.source@));
                        assert(first_missing(base@, fs, files@, pl.source@));
                    }
                    return Err(
                        LoadError::MountSourceNotFound {
                            component: id.clone(),
                            source: pl.source.clone(),
                        },
                    );
                }
                let host = join_path(base, pl.source.as_str());
                let guest = pl.destination.clone();
                out.push(DirectoryMount { host, guest });
                assert(mounts_view(out@) =~= mounts_view(before) + seq![
                    (spec_join(base@, pl.source@), pl.destination@),
                ]);
            },
        }
        i = i + 1;
    }
    assert(files@.subrange(0, files@.len() as int) =~= files@);
    Ok(out)
}

/// The trigger settings with the executor defaulted to `Spin` when absent.
pub open spec fn spec_normalize(t: TriggerConfig) -> TriggerConfig {
    match t {
        TriggerConfig::Http(h) => TriggerConfig::Http(
            HttpConfig {
                route: h.route,
                executor: Some(
                    match h.executor {
                        Some(x) => x,
                        None => HttpExecutor::Spin,
                    },
                ),
            },
        ),
    }
}

/// Resolves a component's trigger settings: an absent executor is `Spin`;
/// the route is kept as written.
pub fn normalize_trigger(t: TriggerConfig) -> (r: TriggerConfig)
    ensures
        r == spec_normalize(t),
{
    match t {
        TriggerConfig::Http(h) => {
            let executor = match h.executor {
                Some(x) => x,
                None => HttpExecutor::Spin,
            };
            TriggerConfig::Http(HttpConfig { route: h.route, executor: Some(executor) })
        },
    }
}

/// `s` is the raw source `raw` resolved against `base`: a path is placed
/// under the base directory, a remote reference is kept.
pub open spec fn source_resolved(base: Seq<char>, raw: RawModuleSource, s: ModuleSource) -> bool {
    match raw {
        RawModuleSource::FileReference(p) => s matches ModuleSource::FileReference(q) && q@
            == spec_join(base, p@),
        RawModuleSource::Bindle(b) => s == ModuleSource::Bindle(b),
    }
}

/// Resolves a module source. Whether the file exists is not checked here:
/// that is left to whoever loads the module.
pub fn resolve_source(base: &str, raw: RawModuleSource) -> (r: ModuleSource)
    ensures
        source_resolved(base@, raw, r),
{
    match raw {
        RawModuleSource::FileReference(p) => ModuleSource::FileReference(join_path(base, p.as_str())),
        RawModuleSource::Bindle(b) => ModuleSource::Bindle(b),
    }
}

/// Two components of `cs` have the same id.
pub open spec fn has_duplicate_id(cs: Seq<RawComponentManifest>) -> bool {
    exists|i: int, j: int| 0 <= i < j < cs.len() && (#[trigger] cs[i]).id@ == (#[trigger] cs[j]).id@
}

/// The position of a component whose id an earlier component has too.
pub fn find_duplicate_id(cs: &Vec<RawComponentManifest>) -> (r: Option<usize>)
    ensures
        r is None <==> !has_duplicate_id(cs@),
        r matches Some(j) ==> j < cs@.len() && exists|i: int|
            0 <= i < j && (#[trigger] cs@[i]).id@ == cs@[j as int].id@,
{
    let mut j: usize = 0;
    while j < cs.len()
        invariant
            j <= cs@.len(),
            forall|a: int, b: int| 0 <= a < b < j ==> (#[trigger] cs@[a]).id@ != (#[trigger] cs@[b]).id@,
        decreases cs.len() - j,
    {
        let mut i: usize = 0;
        while i < j
            invariant
                i <= j < cs@.len(),
                forall|a: int| 0 <= a < i ==> (#[trigger] cs@[a]).id@ != cs@[j as int].id@,
            decreases j - i,
        {
            if cs[i].id == cs[j].id {
                return Some(j);
            }
            i = i + 1;
        }
        j = j + 1;
    }
    None
}

/// The file declarations of a component, none when it declares none.
pub open spec fn files_of(c: RawComponentManifest) -> Seq<RawFileMount> {
    match c.wasm.files {
        Some(f) => f@,
        None => Seq::empty(),
    }
}

/// Every component's file declarations resolve.
pub open spec fn all_mounts_resolve(base: Seq<char>, fs: &FsView, cs: Seq<RawComponentManifest>) -> bool {
    forall|i: int| 0 <= i < cs.len() ==> spec_mounts(base, fs, files_of(#[trigger] cs[i])) is Some
}

/// `component` and `source` are the id of the first component of `cs` whose
/// mounts fail, and the source of its first failing declaration.
pub open spec fn first_failing(
    base: Seq<char>,
    fs: &FsView,
    cs: Seq<RawComponentManifest>,
    component: Seq<char>,
    source: Seq<char>,
) -> bool {
    exists|k: int|
        0 <= k < cs.len() && spec_mounts(base, fs, files_of(#[trigger] cs[k])) is None && cs[k].id@
            == component && first_missing(base, fs, files_of(cs[k]), source) && forall|j: int|
            0 <= j < k ==> spec_mounts(base, fs, files_of(#[trigger] cs[j])) is Some
}

/// `c` is the raw component `raw` resolved against `base`.
pub open spec fn component_resolved(
    base: Seq<char>,
    fs: &FsView,
    raw: RawComponentManifest,
    c: CoreComponent,
) -> bool {
    &&& c.id == raw.id
    &&& source_resolved(base, raw.source, c.source)
    &&& c.wasm.environment@ == env_of(&raw.wasm)
    &&& spec_mounts(base, fs, files_of(raw)) == Some(mounts_view(c.wasm.mounts@))
}

/// `app` is `m` resolved against `base`, loaded from `path`.
pub open spec fn application_resolved(
    m: RawAppManifest,
    path: Seq<char>,
    base: Seq<char>,
    fs: &FsView,
    app: Application,
) -> bool {
    &&& app.info.spin_version == SpinVersion::V1
    &&& app.info.name == m.info.name
    &&& app.info.version == m.info.version
    &&& app.info.description == m.info.description
    &&& app.info.authors@ == match m.info.authors {
        Some(a) => a@,
        None => Seq::empty(),
    }
    &&& app.info.trigger == m.info.trigger
    &&& app.info.origin matches ApplicationOrigin::File(p) && p@ == path
    &&& app.components@.len() == m.components@.len()
    &&& app.component_triggers@.len() == m.components@.len()
    &&& forall|i: int|
        0 <= i < m.components@.len() ==> component_resolved(
            base,
            fs,
            #[trigger] m.components@[i],
            app.components@[i],
        )
    &&& forall|i: int|
        0 <= i < m.components@.len() ==> (#[trigger] app.component_triggers@[i]).0
            == m.components@[i].id && app.component_triggers@[i].1 == spec_normalize(
            m.components@[i].trigger,
        )
}

/// Resolves one component: its source, its mounts and its trigger settings.
pub fn resolve_component(base: &str, raw: RawComponentManifest, fs: &FsView) -> (r: Result<
    (CoreComponent, TriggerConfig),
    LoadError,
>)
    ensures
        r is Ok <==> spec_mounts(base@, fs, files_of(raw)) is Some,
        r matches Ok(p) ==> component_resolved(base@, fs, raw, p.0) && p.1 == spec_normalize(
            raw.trigger,
        ),
        r matches Err(e) ==> (e matches LoadError::MountSourceNotFound { component, source }
            && component == raw.id && first_missing(base@, fs, files_of(raw), source@)),
{
    let RawComponentManifest { id, source, wasm, trigger } = raw;
    let files = match wasm.files {
        Some(f) => f,
        None => Vec::new(),
    };
    let mounts = match resolve_mounts(&id, base, &files, fs) {
        Ok(m) => m,
        Err(e) => return Err(e),
    };
    let environment = match wasm.environment {
        Some(e) => e,
        None => Vec::new(),
    };
    let source = resolve_source(base, source);
    let trigger = normalize_trigger(trigger);
    Ok((CoreComponent { id, source, wasm: WasmConfig { environment, mounts } }, trigger))
}

/// Builds the application of a raw manifest loaded from `manifest_path`,
/// with relative paths resolved against `base_dir` and the filesystem as
/// `fs` saw it. Duplicate ids are rejected first; then the components are
/// resolved in order and the first that fails fails the load.
pub fn assemble(m: RawAppManifest, manifest_path: &str, base_dir: &str, fs: &FsView) -> (r: Result<
    Application,
    LoadError,
>)
    ensures
        has_duplicate_id(m.components@) ==> (r matches Err(LoadError::DuplicateComponentId { id })
            && exists|i: int|
            0 <= i < m.components@.len() && (#[trigger] m.components@[i]).id@ == id@),
        !has_duplicate_id(m.components@) && !all_mounts_resolve(base_dir@, fs, m.components@) ==> (
        r matches Err(LoadError::MountSourceNotFound { component, source }) && first_failing(
            base_dir@,
            fs,
            m.components@,
            component@,
            source@,
        )),
        r is Ok <==> !has_duplicate_id(m.components@) && all_mounts_resolve(
            base_dir@,
            fs,
            m.components@,
        ),
        r matches Ok(app) ==> application_resolved(m, manifest_path@, base_dir@, fs, app),
{
    if let Some(j) = find_duplicate_id(&m.components) {
        return Err(LoadError::DuplicateComponentId { id: m.components[j].id.clone() });
    }
    let ghost raw = m;
    let RawAppManifest { info, components } = m;
    let mut rest = components;
    let mut out: Vec<CoreComponent> = Vec::new();
    let mut triggers: Vec<(String, TriggerConfig)> = Vec::new();
    let ghost n = raw.components@.len();
    assert(n == rest.len());
    let mut i: usize = 0;
    while rest.len() > 0
        invariant
            i <= n,
            n <= usize::MAX,
            n == raw.components@.len(),
            !has_duplicate_id(raw.components@),
            raw == m,
            rest@ == raw.components@.subrange(i as int, n as int),
            out@.len() == i,
            triggers@.len() == i,
            forall|k: int| 0 <= k < i ==> spec_mounts(base_dir@, fs, files_of(#[trigger] raw.components@[k])) is Some,
            forall|k: int|
                0 <= k < i ==> component_resolved(
                    base_dir@,
                    fs,
                    #[trigger] raw.components@[k],
                    out@[k],
                ),
            forall|k: int|
                0 <= k < i ==> (#[trigger] triggers@[k]).0 == raw.components@[k].id
                    && triggers@[k].1 == spec_normalize(raw.components@[k].trigger),
        decreases rest.len(),
    {
        let c = rest.remove(0);
        assert(c == raw.components@[i as int]);
        let id = c.id.clone();
        match resolve_component(base_dir, c, fs) {
            Ok((core, trigger)) => {
                out.push(core);
                triggers.push((id, trigger));
            },
            Err(e) => {
                assert(!all_mounts_resolve(base_dir@, fs, raw.components@)) by {
                    assert(spec_mounts(base_dir@, fs, files_of(raw.components@[i as int])) is None);
                }
                assert(e matches LoadError::MountSourceNotFound { component, source } && first_failing(
                    base_dir@,
                    fs,
                    raw.components@,
                    component@,
                    source@,
                )) by {
                    assert(spec_mounts(base_dir@, fs, files_of(raw.components@[i as int])) is None);
                }
                return Err(e);
            },
        }
        assert(rest@ =~= raw.components@.subrange(i + 1, n as int));
        i = i + 1;
    }
    assert(i == n);
    assert(all_mounts_resolve(base_dir@, fs, raw.components@));
    let authors = match info.authors {
        Some(a) => a,
        None => Vec::new(),
    };
    let info = ApplicationInformation {
        spin_version: SpinVersion::V1,
        name: info.name,
        version: info.version,
        description: info.description,
        authors,
        trigger: info.trigger,
        origin: ApplicationOrigin::File(String::from_str(manifest_path)),
    };
    Ok(Application { info, components: out, component_triggers: triggers })
}

} // verus!
