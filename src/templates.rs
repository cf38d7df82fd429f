//! The layout of the local template cache, and the decisions made on it.

use vstd::prelude::*;
use crate::paths::{file_name, is_normal_name, join_path, spec_join, spec_last_component};

verus! {

/// A template repository in the local cache.
#[derive(Clone, Debug, Default)]
pub struct TemplateRepository {
    /// The name of the template repository.
    pub name: String,
    /// The git remote it was cloned from.
    pub git: Option<String>,
    /// The branch that is checked out.
    pub branch: Option<String>,
    /// The templates in the repository.
    pub templates: Vec<String>,
}

/// The local template cache, rooted at a directory.
#[derive(Debug)]
pub struct TemplatesManager {
    root: String,
}

/// Why a template could not be found or the cache not be set up.
#[derive(Clone, Debug, PartialEq, Eq)]
pub enum TemplateError {
    RepositoryNotFound { repo: String },
    TemplateNotFound { template: String, repo: String },
    NotADirectory { path: String },
}

/// What to do with a cache directory.
#[derive(Clone, Copy, Debug, PartialEq, Eq, Structural)]
pub enum EnsureAction {
    /// It does not exist: create it.
    Create,
    /// It exists and is a directory: use it.
    UseExisting,
}

/// The directory of all repositories.
pub open spec fn spec_templates_dir(root: Seq<char>) -> Seq<char> {
    spec_join(root, "templates"@)
}

/// The directory of the repository `repo`.
pub open spec fn spec_repo_path(root: Seq<char>, repo: Seq<char>) -> Seq<char> {
    spec_join(spec_templates_dir(root), repo)
}

/// The directory of the template `template` in the repository `repo`.
pub open spec fn spec_template_path(root: Seq<char>, repo: Seq<char>, template: Seq<char>) -> Seq<
    char,
> {
    spec_join(spec_join(spec_repo_path(root, repo), "templates"@), template)
}

/// The directory that holds the templates added from local directories.
pub open spec fn spec_local_templates_dir(root: Seq<char>) -> Seq<char> {
    spec_join(spec_join(spec_templates_dir(root), "local"@), "templates"@)
}

impl TemplatesManager {
    /// A cache rooted at `root`; the directories it needs are listed by
    /// `required_dirs`.
    pub fn new(root: String) -> (r: Self)
        ensures
            r.root_view() == root@,
    {
        TemplatesManager { root }
    }

    pub closed spec fn root_view(&self) -> Seq<char> {
        self.root@
    }

    /// The root directory of the cache.
    pub fn root(&self) -> (r: &String)
        ensures
            r@ == self.root_view(),
    {
        &self.root
    }

    /// The directory of all repositories.
    pub fn templates_dir(&self) -> (r: String)
        ensures
            r@ == spec_templates_dir(self.root_view()),
    {
        join_path(self.root.as_str(), "templates")
    }

    /// The directory of the repository `repo`.
    pub fn repo_path(&self, repo: &str) -> (r: String)
        ensures
            r@ == spec_repo_path(self.root_view(), repo@),
    {
        let t = self.templates_dir();
        join_path(t.as_str(), repo)
    }

    /// The directory of the template `template` in the repository `repo`.
    pub fn template_path(&self, repo: &str, template: &str) -> (r: String)
        ensures
            r@ == spec_template_path(self.root_view(), repo@, template@),
    {
        let rp = self.repo_path(repo);
        let t = join_path(rp.as_str(), "templates");
        join_path(t.as_str(), template)
    }

    /// The directory that holds the templates added from local directories.
    pub fn local_templates_dir(&self) -> (r: String)
        ensures
            r@ == spec_local_templates_dir(self.root_view()),
    {
        let t = self.templates_dir();
        let l = join_path(t.as_str(), "local");
        join_path(l.as_str(), "templates")
    }

    /// The directories the cache needs, parents first.
    pub fn required_dirs(&self) -> (r: Vec<String>)
        ensures
            r@.len() == 4,
            r@[0]@ == self.root_view(),
            r@[1]@ == spec_templates_dir(self.root_view()),
            r@[2]@ == spec_join(spec_templates_dir(self.root_view()), "local"@),
            r@[3]@ == spec_local_templates_dir(self.root_view()),
    {
        let mut v: Vec<String> = Vec::new();
        v.push(self.root.clone());
        let t = self.templates_dir();
        let l = join_path(t.as_str(), "local");
        let lt = join_path(l.as_str(), "templates");
        v.push(t);
        v.push(l);
        v.push(lt);
        v
    }

    /// The path of the template `template` of the repository `repo`, given
    /// whether the repository directory and then the template directory exist.
    pub fn get_path(&self, repo: &str, template: &str, repo_exists: bool, template_exists: bool) -> (r:
        Result<String, TemplateError>)
        ensures
            !repo_exists ==> (r matches Err(TemplateError::RepositoryNotFound { repo: x }) && x@
                == repo@),
            repo_exists && !template_exists ==> (r matches Err(
                TemplateError::TemplateNotFound { template: t, repo: x },
            ) && t@ == template@ && x@ == repo@),
            repo_exists && template_exists ==> (r matches Ok(p) && p@ == spec_template_path(
                self.root_view(),
                repo@,
                template@,
            )),
    {
        if !repo_exists {
            return Err(TemplateError::RepositoryNotFound { repo: String::from_str(repo) });
        }
        if !template_exists {
            return Err(
                TemplateError::TemplateNotFound {
                    template: String::from_str(template),
                    repo: String::from_str(repo),
                },
            );
        }
        Ok(self.template_path(repo, template))
    }

    /// The name of a repository or template: the last component of its path.
    pub fn path_to_name(p: &str) -> (r: String)
        requires
            is_normal_name(spec_last_component(p@)),
        ensures
            r@ == spec_last_component(p@),
    {
        file_name(p)
    }

    /// What to do with the cache directory `path`, given whether it exists
    /// and whether it is a directory.
    pub fn ensure(path: &str, exists: bool, is_dir: bool) -> (r: Result<EnsureAction, TemplateError>)
        ensures
            !exists ==> r == Ok::<EnsureAction, TemplateError>(EnsureAction::Create),
            exists && is_dir ==> r == Ok::<EnsureAction, TemplateError>(EnsureAction::UseExisting),
            exists && !is_dir ==> (r matches Err(TemplateError::NotADirectory { path: p }) && p@
                == path@),
    {
        if !exists {
            Ok(EnsureAction::Create)
        } else if !is_dir {
            Err(TemplateError::NotADirectory { path: String::from_str(path) })
        } else {
            Ok(EnsureAction::UseExisting)
        }
    }

    /// The git configuration key of the remote of `branch`; the branch is
    /// `main` when none is known.
    pub fn branch_remote_key(branch: Option<String>) -> (r: String)
        ensures
            r@ == "branch."@ + match branch {
                Some(b) => b@,
                None => "main"@,
            } + ".remote"@,
    {
        let b = match branch {
            Some(b) => b,
            None => String::from_str("main"),
        };
        let mut s = String::from_str("branch.");
        s.append(b.as_str());
        s.append(".remote");
        s
    }

    /// The git configuration key of the url of `remote`; the remote is
    /// `origin` when none is known.
    pub fn remote_url_key(remote: Option<String>) -> (r: String)
        ensures
            r@ == "remote."@ + match remote {
                Some(x) => x@,
                None => "origin"@,
            } + ".url"@,
    {
        let x = match remote {
            Some(x) => x,
            None => String::from_str("origin"),
        };
        let mut s = String::from_str("remote.");
        s.append(x.as_str());
        s.append(".url");
        s
    }

    /// A trimmed git output as a value: nothing when it is empty.
    pub fn non_empty(v: String) -> (r: Option<String>)
        ensures
            v@.len() == 0 ==> r is None,
            v@.len() > 0 ==> r == Some(v),
    {
        if v.as_str().unicode_len() == 0 {
            None
        } else {
            Some(v)
        }
    }
}

impl TemplateError {
    /// A human-readable description of the error.
    pub fn message(&self) -> (r: String)
        ensures
            r@ == match self {
                TemplateError::RepositoryNotFound { repo } => "cannot find templates repository "@
                    + repo@ + " locally"@,
                TemplateError::TemplateNotFound { template, repo } => "cannot find template "@
                    + template@ + " in repository "@ + repo@,
                TemplateError::NotADirectory { path } => "cache root `"@ + path@
                    + "` already exists and is not a directory"@,
            },
    {
        match self {
            TemplateError::RepositoryNotFound { repo } => {
                let mut s = String::from_str("cannot find templates repository ");
                s.append(repo.as_str());
                s.append(" locally");
                s
            },
            TemplateError::TemplateNotFound { template, repo } => {
                let mut s = String::from_str("cannot find template ");
                s.append(template.as_str());
                s.append(" in repository ");
                s.append(repo.as_str());
                s
            },
            TemplateError::NotADirectory { path } => {
                let mut s = String::from_str("cache root `");
                s.append(path.as_str());
                s.append("` already exists and is not a directory");
                s
            },
        }
    }
}

} // verus!
