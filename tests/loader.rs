use spin_loader::{
    assemble, load_manifest, parse_manifest, ApplicationOrigin, BindleComponentSource, FsView,
    HttpExecutor, LoadError, ModuleSource, RawAppManifestAnyVersion, RawDirectoryPlacement,
    RawFileMount, RawModuleSource, SpinVersion, TriggerConfig, WagiConfig,
};

const VALID_MANIFEST: &str = r#"
spin_version = "1"
name = "chain-of-command"
version = "6.11.2"
description = "A simple application that returns the number of lights"
authors = ["Gul Dukat", "Jean-Luc Picard", "Elim Garak"]
trigger = { type = "http", base = "/" }

[[component]]
id = "four-lights"
source = "path/to/wasm/file.wasm"
files = ["file.txt", { source = "valid-with-files", destination = "/vwf" }, "subdir/another.txt"]
[component.trigger]
route = "/lights"
executor = { type = "spin" }
[component.environment]
env1 = "first"
env2 = "second"

[[component]]
id = "abc"
source = { reference = "bindle reference", parcel = "parcel" }
[component.trigger]
route = "/test"
"#;

const INVALID_VERSION: &str = r#"
spin_version = "77.0"
name = "chain-of-command"
version = "6.11.2"
trigger = { type = "http", base = "/" }

[[component]]
id = "four-lights"
source = "path/to/wasm/file.wasm"
[component.trigger]
route = "/lights"
"#;

const WAGI_CUSTOM_ENTRYPOINT: &str = r#"
spin_version = "1"
name = "spin-hello-world"
version = "1.0.0"
trigger = { type = "http", base = "/" }

[[component]]
id = "hello"
source = "path/to/wasm/file.wasm"
[component.trigger]
route = "/hello"
executor = { type = "wagi", entrypoint = "custom-entrypoint" }
"#;

const LOCAL_SOURCE: &str = r#"
spin_version = "1"
name = "spin-local-source-test"
version = "1.0.0"
authors = ["Fermyon Engineering <engineering@fermyon.com>"]
trigger = { type = "http", base = "/" }

[[component]]
id = "hello"
source = "spin-fs.wasm"
files = ["**/*"]
[component.trigger]
route = "/..."
executor = { type = "spin" }
"#;

fn v1(text: &str) -> spin_loader::RawAppManifest {
    match parse_manifest(text) {
        Ok(RawAppManifestAnyVersion::V1(m)) => m,
        Err(e) => panic!("{}", e.message()),
    }
}

fn no_fs() -> FsView {
    FsView { dirs: vec![], globs: vec![] }
}

#[test]
fn test_from_local_source() {
    let manifest = "tests/valid-with-files/spin.toml";
    let fs = FsView {
        dirs: vec![],
        globs: vec![("**/*".to_string(), vec!["spin-fs.wasm".to_string()])],
    };
    let app = load_manifest(LOCAL_SOURCE, manifest, "/tmp/base", &fs).unwrap();

    assert_eq!(app.info.name, "spin-local-source-test");
    assert_eq!(app.info.version, "1.0.0");
    assert_eq!(app.info.spin_version, SpinVersion::V1);
    assert_eq!(app.info.authors[0], "Fermyon Engineering <engineering@fermyon.com>");

    let http = app.info.trigger.as_http().unwrap().clone();
    assert_eq!(http.base, "/".to_string());

    let component = &app.components[0];
    assert_eq!(component.wasm.mounts.len(), 1);

    let http = app.trigger_for(&component.id).unwrap().as_http().unwrap().clone();
    assert_eq!(http.executor.unwrap(), HttpExecutor::Spin);
    assert_eq!(http.route, "/...".to_string());

    assert_eq!(app.info.origin, ApplicationOrigin::File(manifest.to_string()));
}

#[test]
fn test_manifest() {
    let cfg = v1(VALID_MANIFEST);

    assert_eq!(cfg.info.name, "chain-of-command");
    assert_eq!(cfg.info.version, "6.11.2");
    assert_eq!(
        cfg.info.description,
        Some("A simple application that returns the number of lights".to_string())
    );

    let http = cfg.info.trigger.as_http().unwrap().clone();
    assert_eq!(http.base, "/".to_string());

    assert_eq!(cfg.info.authors.as_ref().unwrap().len(), 3);
    assert_eq!(cfg.components[0].id, "four-lights".to_string());

    let http = cfg.components[0].trigger.as_http().unwrap().clone();
    assert_eq!(http.executor.unwrap(), HttpExecutor::Spin);
    assert_eq!(http.route, "/lights".to_string());

    let test_component = &cfg.components[0];
    let test_env = test_component.wasm.environment.as_ref().unwrap();
    assert_eq!(test_env.len(), 2);
    assert_eq!(test_component.wasm.env_var("env1").unwrap(), "first");
    assert_eq!(test_component.wasm.env_var("env2").unwrap(), "second");

    let test_files = test_component.wasm.files.as_ref().unwrap();
    assert_eq!(test_files.len(), 3);
    assert_eq!(test_files[0], RawFileMount::Pattern("file.txt".to_owned()));
    assert_eq!(
        test_files[1],
        RawFileMount::Placement(RawDirectoryPlacement {
            source: "valid-with-files".to_string(),
            destination: "/vwf".to_string(),
        })
    );
    assert_eq!(test_files[2], RawFileMount::Pattern("subdir/another.txt".to_owned()));

    let b = match &cfg.components[1].source {
        RawModuleSource::Bindle(b) => b.clone(),
        RawModuleSource::FileReference(_) => panic!("expected bindle source"),
    };

    assert_eq!(b.reference, "bindle reference".to_string());
    assert_eq!(b.parcel, "parcel".to_string());
}

#[test]
fn test_unknown_version_is_rejected() {
    let cfg = parse_manifest(INVALID_VERSION);
    assert!(cfg.is_err(), "Expected version to be validated but it wasn't");

    let e = cfg.unwrap_err().message();
    assert!(e.contains("spin_version"), "Expected error to mention `spin_version`");
}

#[test]
fn test_wagi_executor_with_custom_entrypoint() {
    let cfg = v1(WAGI_CUSTOM_ENTRYPOINT);
    let http_config = cfg.components[0].trigger.as_http().unwrap();

    match http_config.executor.as_ref().unwrap() {
        HttpExecutor::Spin => panic!("expected wagi http executor"),
        HttpExecutor::Wagi(WagiConfig { entrypoint, argv }) => {
            assert_eq!(entrypoint, "custom-entrypoint");
            assert_eq!(argv, "${SCRIPT_NAME} ${ARGS}");
        }
    };
}

#[test]
fn missing_version_is_rejected_naming_the_field() {
    let text = "name = \"a\"\nversion = \"1\"\ntrigger = { type = \"http\" }\n";
    let e = parse_manifest(text).unwrap_err();
    assert_eq!(e, LoadError::SchemaVersion { field: "spin_version".to_string() });
    assert!(e.message().contains("spin_version"));
}

#[test]
fn version_is_checked_before_other_fields() {
    let e = parse_manifest("spin_version = \"2\"\n").unwrap_err();
    assert!(matches!(e, LoadError::SchemaVersion { .. }));
}

#[test]
fn malformed_text_is_a_parse_error() {
    let e = parse_manifest("spin_version = = \"1\"").unwrap_err();
    assert!(matches!(e, LoadError::ManifestParse { .. }));
    assert!(e.message().starts_with("cannot parse manifest: "));
}

#[test]
fn missing_name_is_an_invalid_field() {
    let text = "spin_version = \"1\"\nversion = \"1\"\ntrigger = { type = \"http\" }\n";
    let e = parse_manifest(text).unwrap_err();
    assert_eq!(e, LoadError::InvalidField { field: "name".to_string() });
    assert_eq!(e.message(), "missing or ill-typed field `name`");
}

#[test]
fn trigger_without_route_is_a_shape_mismatch() {
    let text = "spin_version = \"1\"\nname = \"a\"\nversion = \"1\"\ntrigger = { type = \"http\" }\n\
                [[component]]\nid = \"c\"\nsource = \"c.wasm\"\ntrigger = { path = \"/x\" }\n";
    let e = parse_manifest(text).unwrap_err();
    assert_eq!(e, LoadError::TriggerShapeMismatch { component: "c".to_string() });
}

#[test]
fn absent_executor_resolves_to_spin() {
    let text = "spin_version = \"1\"\nname = \"a\"\nversion = \"1\"\ntrigger = { type = \"http\" }\n\
                [[component]]\nid = \"c\"\nsource = \"c.wasm\"\ntrigger = { route = \"/x\" }\n";
    let raw = v1(text);
    assert_eq!(raw.components[0].trigger.as_http().unwrap().executor, None);
    let app = load_manifest(text, "spin.toml", "/base", &no_fs()).unwrap();
    let t = app.trigger_for("c").unwrap();
    assert_eq!(
        t,
        &TriggerConfig::Http(spin_loader::HttpConfig {
            route: "/x".to_string(),
            executor: Some(HttpExecutor::Spin),
        })
    );
}

#[test]
fn wagi_without_settings_takes_both_defaults() {
    let text = "spin_version = \"1\"\nname = \"a\"\nversion = \"1\"\ntrigger = { type = \"http\" }\n\
                [[component]]\nid = \"c\"\nsource = \"c.wasm\"\n\
                trigger = { route = \"/x\", executor = { type = \"wagi\" } }\n";
    let raw = v1(text);
    assert_eq!(
        raw.components[0].trigger.as_http().unwrap().executor,
        Some(HttpExecutor::Wagi(WagiConfig {
            entrypoint: "_start".to_string(),
            argv: "${SCRIPT_NAME} ${ARGS}".to_string(),
        }))
    );
}

#[test]
fn mounts_keep_declaration_order() {
    let text = "spin_version = \"1\"\nname = \"a\"\nversion = \"1\"\ntrigger = { type = \"http\" }\n\
                [[component]]\nid = \"c\"\nsource = \"c.wasm\"\n\
                files = [\"file.txt\", { source = \"subdir2\", destination = \"/dst\" }, \"subdir/another.txt\"]\n\
                trigger = { route = \"/x\" }\n";
    let fs = FsView {
        dirs: vec!["subdir2".to_string()],
        globs: vec![
            ("file.txt".to_string(), vec!["file.txt".to_string()]),
            ("subdir/another.txt".to_string(), vec!["subdir/another.txt".to_string()]),
        ],
    };
    let app = load_manifest(text, "spin.toml", "/base", &fs).unwrap();
    let m = &app.components[0].wasm.mounts;
    assert_eq!(m.len(), 3);
    assert_eq!((m[0].host.as_str(), m[0].guest.as_str()), ("/base/file.txt", "file.txt"));
    assert_eq!((m[1].host.as_str(), m[1].guest.as_str()), ("/base/subdir2", "/dst"));
    assert_eq!(
        (m[2].host.as_str(), m[2].guest.as_str()),
        ("/base/subdir/another.txt", "subdir/another.txt")
    );
}

#[test]
fn pattern_with_no_match_is_not_an_error() {
    let text = "spin_version = \"1\"\nname = \"a\"\nversion = \"1\"\ntrigger = { type = \"http\" }\n\
                [[component]]\nid = \"c\"\nsource = \"c.wasm\"\nfiles = [\"nothing/*\"]\n\
                trigger = { route = \"/x\" }\n";
    let app = load_manifest(text, "spin.toml", "/base", &no_fs()).unwrap();
    assert_eq!(app.components[0].wasm.mounts.len(), 0);
}

#[test]
fn missing_placement_source_fails_the_load() {
    let text = "spin_version = \"1\"\nname = \"a\"\nversion = \"1\"\ntrigger = { type = \"http\" }\n\
                [[component]]\nid = \"c\"\nsource = \"c.wasm\"\n\
                files = [{ source = \"subdir2\", destination = \"/dst\" }]\n\
                trigger = { route = \"/x\" }\n";
    let e = load_manifest(text, "spin.toml", "/base", &no_fs()).unwrap_err();
    assert_eq!(
        e,
        LoadError::MountSourceNotFound { component: "c".to_string(), source: "subdir2".to_string() }
    );
    assert_eq!(e.message(), "directory `subdir2` of component `c` not found");
}

#[test]
fn duplicate_ids_are_rejected() {
    let text = "spin_version = \"1\"\nname = \"a\"\nversion = \"1\"\ntrigger = { type = \"http\" }\n\
                [[component]]\nid = \"x\"\nsource = \"x.wasm\"\ntrigger = { route = \"/x\" }\n\
                [[component]]\nid = \"y\"\nsource = \"y.wasm\"\ntrigger = { route = \"/y\" }\n\
                [[component]]\nid = \"x\"\nsource = \"z.wasm\"\ntrigger = { route = \"/z\" }\n";
    let e = load_manifest(text, "spin.toml", "/base", &no_fs()).unwrap_err();
    assert_eq!(e, LoadError::DuplicateComponentId { id: "x".to_string() });
    assert_eq!(e.message(), "duplicate component id `x`");
}

#[test]
fn origin_is_the_path_as_given() {
    let raw = v1(WAGI_CUSTOM_ENTRYPOINT);
    let app = assemble(raw, "./some/../spin.toml", "/base", &no_fs()).unwrap();
    assert_eq!(app.info.origin, ApplicationOrigin::File("./some/../spin.toml".to_string()));
}

#[test]
fn missing_module_file_does_not_fail_the_load() {
    let app = load_manifest(VALID_MANIFEST, "spin.toml", "/base", &FsView {
        dirs: vec!["valid-with-files".to_string()],
        globs: vec![],
    })
    .unwrap();
    assert_eq!(
        app.components[0].source,
        ModuleSource::FileReference("/base/path/to/wasm/file.wasm".to_string())
    );
    assert_eq!(
        app.components[1].source,
        ModuleSource::Bindle(BindleComponentSource {
            reference: "bindle reference".to_string(),
            parcel: "parcel".to_string(),
        })
    );
    assert_eq!(app.components[0].wasm.environment.len(), 2);
    assert_eq!(app.component_triggers.len(), 2);
    assert_eq!(app.component_triggers[1].0, "abc");
}

#[test]
fn absolute_source_path_is_kept() {
    let text = "spin_version = \"1\"\nname = \"a\"\nversion = \"1\"\ntrigger = { type = \"http\" }\n\
                [[component]]\nid = \"c\"\nsource = \"/abs/c.wasm\"\ntrigger = { route = \"/x\" }\n";
    let app = load_manifest(text, "spin.toml", "/base/", &no_fs()).unwrap();
    assert_eq!(app.components[0].source, ModuleSource::FileReference("/abs/c.wasm".to_string()));
}

#[test]
fn base_defaults_to_root_and_description_is_optional() {
    let text = "spin_version = \"1\"\nname = \"a\"\nversion = \"1\"\ntrigger = { type = \"http\" }\n";
    let cfg = v1(text);
    assert_eq!(cfg.info.trigger.as_http().unwrap().base, "/");
    assert_eq!(cfg.info.description, None);
    assert_eq!(cfg.components.len(), 0);
}

#[test]
fn io_error_message() {
    let e = LoadError::Io { message: "permission denied".to_string() };
    assert_eq!(e.message(), "i/o error: permission denied");
}

fn arrays(depth: usize) -> String {
    format!("{}1{}\n", "[".repeat(depth), "]".repeat(depth))
}

fn nested_arrays(depth: usize) -> String {
    format!("a = {}", arrays(depth))
}

fn nested_tables(depth: usize) -> String {
    format!("a = {}1{}\n", "{ a = ".repeat(depth), " }".repeat(depth))
}

fn deep_key(segments: usize) -> String {
    vec!["k"; segments].join(".")
}

#[test]
fn nesting_within_the_bound_parses() {
    let text = format!("spin_version = \"1\"\n{}", nested_arrays(256));
    let e = parse_manifest(&text).unwrap_err();
    assert_eq!(e, LoadError::InvalidField { field: "name".to_string() });
    let text = format!("spin_version = \"1\"\n{}", nested_tables(255));
    let e = parse_manifest(&text).unwrap_err();
    assert_eq!(e, LoadError::InvalidField { field: "name".to_string() });
}

#[test]
fn dotted_keys_within_the_bound_parse() {
    let text = format!("spin_version = \"1\"\n[{}]\n{} = {}", deep_key(100), deep_key(100), arrays(56));
    let e = parse_manifest(&text).unwrap_err();
    assert_eq!(e, LoadError::InvalidField { field: "name".to_string() });
}

#[test]
fn parser_handles_twice_the_bound() {
    let text = format!("{} = {}", deep_key(1001), arrays(512));
    assert!(toml::from_str::<toml::Value>(&text).is_ok());
    let text = format!("[{}]\n{}", deep_key(1001), nested_tables(512));
    assert!(toml::from_str::<toml::Value>(&text).is_ok());
}

#[test]
fn nesting_beyond_the_bound_is_a_parse_error() {
    let text = format!("spin_version = \"1\"\n{}", nested_arrays(257));
    let e = parse_manifest(&text).unwrap_err();
    assert!(matches!(e, LoadError::ManifestParse { .. }));
    let text = format!("spin_version = \"1\"\n{} = 1\n", deep_key(258));
    let e = parse_manifest(&text).unwrap_err();
    assert!(matches!(e, LoadError::ManifestParse { .. }));
    let text = format!("spin_version = \"1\"\n[{}]\n{} = 1\n", deep_key(130), deep_key(130));
    let e = parse_manifest(&text).unwrap_err();
    assert!(matches!(e, LoadError::ManifestParse { .. }));
    let e = load_manifest(&text, "spin.toml", "/base", &no_fs()).unwrap_err();
    assert!(matches!(e, LoadError::ManifestParse { .. }));
}

#[test]
fn large_flat_manifest_loads() {
    let mut text = String::from(
        "spin_version = \"1\"\nname = \"a\"\nversion = \"1.0.0\"\ntrigger = { type = \"http\", base = \"/\" }\n",
    );
    for n in 0..400 {
        text.push_str(&format!(
            r#"[[component]]
id = "c{n}"
source = "c{n}.wasm"
files = ["a.txt", {{ source = "d.e", destination = "/d" }}]
[component.trigger]
route = "/c{n}/..."
executor = {{ type = "wagi", argv = "x.y" }}
[component.environment]
k = "v.w"
"#
        ));
    }
    let fs = FsView { dirs: vec!["d.e".to_string()], globs: vec![] };
    let app = load_manifest(&text, "spin.toml", "/base", &fs).unwrap();
    assert_eq!(app.components.len(), 400);
}

#[test]
fn brackets_in_strings_and_comments_do_not_nest() {
    let deep = "[".repeat(1000);
    let text = format!(
        r#"spin_version = "1"
# {deep}
name = "{deep}"
version = '{deep}'
description = """
{deep}\"""""
trigger = {{ type = "http", base = '''{deep}''''' }}
"#
    );
    let raw = match parse_manifest(&text) {
        Ok(RawAppManifestAnyVersion::V1(m)) => m,
        Err(e) => panic!("{}", e.message()),
    };
    assert_eq!(raw.info.name, deep);
    assert_eq!(raw.info.description, Some(format!("{deep}\"\"")));
    assert_eq!(raw.info.trigger.as_http().unwrap().base, format!("{deep}''"));
}

#[test]
fn empty_name_is_an_invalid_field() {
    let text = "spin_version = \"1\"\nname = \"\"\nversion = \"1\"\ntrigger = { type = \"http\" }\n";
    let e = parse_manifest(text).unwrap_err();
    assert_eq!(e, LoadError::InvalidField { field: "name".to_string() });
}

#[test]
fn mount_error_names_the_first_failing_component() {
    let text = "spin_version = \"1\"\nname = \"a\"\nversion = \"1\"\ntrigger = { type = \"http\" }\n\
                [[component]]\nid = \"ok\"\nsource = \"a.wasm\"\nfiles = [{ source = \"here\", destination = \"/h\" }]\n\
                trigger = { route = \"/a\" }\n\
                [[component]]\nid = \"bad\"\nsource = \"b.wasm\"\n\
                files = [\"x\", { source = \"gone1\", destination = \"/g\" }, { source = \"gone2\", destination = \"/g\" }]\n\
                trigger = { route = \"/b\" }\n\
                [[component]]\nid = \"worse\"\nsource = \"c.wasm\"\nfiles = [{ source = \"gone0\", destination = \"/g\" }]\n\
                trigger = { route = \"/c\" }\n";
    let fs = FsView { dirs: vec!["here".to_string()], globs: vec![] };
    let e = load_manifest(text, "spin.toml", "/base", &fs).unwrap_err();
    assert_eq!(
        e,
        LoadError::MountSourceNotFound { component: "bad".to_string(), source: "gone1".to_string() }
    );
}

#[test]
fn unknown_executor_is_a_shape_mismatch() {
    let text = "spin_version = \"1\"\nname = \"a\"\nversion = \"1\"\ntrigger = { type = \"http\" }\n\
                [[component]]\nid = \"c\"\nsource = \"c.wasm\"\n\
                trigger = { route = \"/x\", executor = { type = \"redis\" } }\n";
    let e = parse_manifest(text).unwrap_err();
    assert_eq!(e, LoadError::TriggerShapeMismatch { component: "c".to_string() });
    assert_eq!(e.message(), "trigger of component `c` is not an HTTP trigger");
}

#[test]
fn component_field_error_names_the_component() {
    let text = "spin_version = \"1\"\nname = \"a\"\nversion = \"1\"\ntrigger = { type = \"http\" }\n\
                [[component]]\nid = \"c\"\nsource = 7\ntrigger = { route = \"/x\" }\n";
    let e = parse_manifest(text).unwrap_err();
    assert_eq!(
        e,
        LoadError::InvalidComponentField { component: "c".to_string(), field: "source".to_string() }
    );
    assert_eq!(e.message(), "missing or ill-typed field `source` of component `c`");
}

#[test]
fn first_malformed_component_decides_the_error() {
    let text = "spin_version = \"1\"\nname = \"a\"\nversion = \"1\"\ntrigger = { type = \"http\" }\n\
                [[component]]\nid = \"good\"\nsource = \"g.wasm\"\ntrigger = { route = \"/g\" }\n\
                [[component]]\nid = \"first\"\nsource = \"f.wasm\"\ntrigger = \"/f\"\n\
                [[component]]\nid = \"second\"\nsource = 1\ntrigger = { route = \"/s\" }\n";
    let e = load_manifest(text, "spin.toml", "/base", &no_fs()).unwrap_err();
    assert_eq!(e, LoadError::TriggerShapeMismatch { component: "first".to_string() });
}
