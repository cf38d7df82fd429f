use spin_loader::templates::{EnsureAction, TemplateError};
use spin_loader::{version, version_info, TemplateRepository, TemplatesManager};

#[test]
fn template_path_is_under_the_repository() {
    let m = TemplatesManager::new("/cache/spin".to_string());
    assert_eq!(
        m.get_path("repo", "http", true, true).unwrap(),
        "/cache/spin/templates/repo/templates/http"
    );
}

#[test]
fn missing_repository_is_reported() {
    let m = TemplatesManager::new("/cache/spin".to_string());
    let e = m.get_path("repo", "http", false, false).unwrap_err();
    assert_eq!(e, TemplateError::RepositoryNotFound { repo: "repo".to_string() });
    assert_eq!(e.message(), "cannot find templates repository repo locally");
}

#[test]
fn missing_template_is_reported() {
    let m = TemplatesManager::new("/cache/spin".to_string());
    let e = m.get_path("repo", "http", true, false).unwrap_err();
    assert_eq!(e.message(), "cannot find template http in repository repo");
}

#[test]
fn required_dirs_are_parents_first() {
    let m = TemplatesManager::new("/c".to_string());
    assert_eq!(
        m.required_dirs(),
        vec!["/c", "/c/templates", "/c/templates/local", "/c/templates/local/templates"]
    );
    assert_eq!(m.local_templates_dir(), "/c/templates/local/templates");
}

#[test]
fn name_is_the_last_component() {
    assert_eq!(TemplatesManager::path_to_name("/c/templates/my-repo"), "my-repo");
    assert_eq!(TemplatesManager::path_to_name("plain"), "plain");
}

#[test]
fn ensure_decides_on_the_directory() {
    assert_eq!(TemplatesManager::ensure("/c", false, false), Ok(EnsureAction::Create));
    assert_eq!(TemplatesManager::ensure("/c", true, true), Ok(EnsureAction::UseExisting));
    let e = TemplatesManager::ensure("/c", true, false).unwrap_err();
    assert_eq!(e.message(), "cache root `/c` already exists and is not a directory");
}

#[test]
fn git_keys_have_defaults() {
    assert_eq!(TemplatesManager::branch_remote_key(None), "branch.main.remote");
    assert_eq!(TemplatesManager::branch_remote_key(Some("dev".to_string())), "branch.dev.remote");
    assert_eq!(TemplatesManager::remote_url_key(None), "remote.origin.url");
    assert_eq!(TemplatesManager::non_empty(String::new()), None);
    assert_eq!(TemplatesManager::non_empty("x".to_string()), Some("x".to_string()));
}

#[test]
fn version_line() {
    let v = version("0.1.0", "2be4034", "2022-03-31");
    assert_eq!(v, "0.1.0 (2be4034 2022-03-31)");
    assert_eq!(version_info(&v), "0.1.0 (2be4034 2022-03-31)");
}

#[test]
fn repository_default_is_empty() {
    let r = TemplateRepository::default();
    assert!(r.name.is_empty() && r.git.is_none() && r.templates.is_empty());
}

#[test]
fn name_skips_trailing_separators_and_dots() {
    assert_eq!(TemplatesManager::path_to_name("/c/spin/templates/rust/"), "rust");
    assert_eq!(TemplatesManager::path_to_name("/c/spin/templates/rust/."), "rust");
    assert_eq!(TemplatesManager::path_to_name("rust//"), "rust");
}
