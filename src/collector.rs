//! The decisions of a walk: which directories are descended into, which
//! files are collected, and the collected map they fill.
//!
//! The caller walks the tree and reads files; for each directory it asks
//! [`Collector::admits_dir`], and for each file it asks
//! [`Collector::admits_file`], reads the admitted ones and hands them to
//! [`Collector::add_file`].

use crate::config::Config;
use crate::error::RepoError;
use crate::files::{inserted, lemma_inserted_keys, lemma_inserted_twice, same_text, FileMap};
use crate::matcher::{build_glob_set, list_compiles, list_error, matches_any, set_globs, texts};
use crate::paths::{
    base_name, clean_relative, file_name, is_clean_relative, relative_path, relative_to,
};
use vstd::prelude::*;

verus! {

/// Directory names that are never descended into.
pub open spec fn is_default_excluded(name: Seq<char>) -> bool {
    name == ".git"@ || name == "target"@ || name == "node_modules"@ || name == "__pycache__"@
        || name == "venv"@ || name == ".venv"@ || name == "env"@ || name == ".env"@
}

/// Whether a directory name is one of the default exclusions.
pub fn is_default_excluded_name(name: &str) -> (r: bool)
    ensures
        r == is_default_excluded(name@),
{
    same_text(name, ".git") || same_text(name, "target") || same_text(name, "node_modules")
        || same_text(name, "__pycache__") || same_text(name, "venv") || same_text(name, ".venv")
        || same_text(name, "env") || same_text(name, ".env")
}

/// Every collected path is a plain relative path.
pub open spec fn keys_clean(entries: Seq<(Seq<char>, Seq<char>)>) -> bool {
    forall|i: int| 0 <= i < entries.len() ==> clean_relative(#[trigger] entries[i].0)
}

/// The key a file is collected under: its path relative to the root, when
/// that is a plain relative path.
pub open spec fn key_of(root: Seq<char>, path: Seq<char>) -> Option<Seq<char>> {
    match relative_to(root, path) {
        Some(rel) => if clean_relative(rel) {
            Some(rel)
        } else {
            None
        },
        None => None,
    }
}

/// The state of one collection: the compiled filters and the files so far.
pub struct Collector {
    root: String,
    included: globset::GlobSet,
    excluded: globset::GlobSet,
    excluded_dirs: globset::GlobSet,
    max_file_size: u64,
    files: FileMap,
}

impl Collector {
    /// The root that collected paths are made relative to.
    pub closed spec fn root(&self) -> Seq<char> {
        self.root@
    }

    /// The included patterns.
    pub closed spec fn include_globs(&self) -> Seq<Seq<char>> {
        set_globs(self.included)
    }

    /// The exclude patterns.
    pub closed spec fn exclude_globs(&self) -> Seq<Seq<char>> {
        set_globs(self.excluded)
    }

    /// The exclude-directory patterns.
    pub closed spec fn exclude_dir_globs(&self) -> Seq<Seq<char>> {
        set_globs(self.excluded_dirs)
    }

    /// The largest file size collected, in bytes.
    pub closed spec fn max_size(&self) -> u64 {
        self.max_file_size
    }

    /// The files collected so far, in order of first insertion.
    pub closed spec fn collected(&self) -> Seq<(Seq<char>, Seq<char>)> {
        self.files@
    }

    /// Paths of the collected files are unique plain relative paths.
    pub closed spec fn wf(&self) -> bool {
        self.files.wf() && keys_clean(self.files@)
    }

    /// A directory is descended into unless its name is a default exclusion
    /// or an exclude-directory pattern matches its full path.
    pub open spec fn dir_admitted(&self, path: Seq<char>) -> bool {
        !is_default_excluded(base_name(path)) && !matches_any(self.exclude_dir_globs(), path)
    }

    /// A file is collected when its size is within the limit, an included
    /// pattern matches its full path and no exclude pattern does.
    pub open spec fn file_admitted(&self, path: Seq<char>, size: u64) -> bool {
        size <= self.max_size() && matches_any(self.include_globs(), path) && !matches_any(
            self.exclude_globs(),
            path,
        )
    }

    /// The collected files after offering one file.
    pub open spec fn after_add(&self, path: Seq<char>, size: u64, content: Seq<char>) -> Seq<
        (Seq<char>, Seq<char>),
    > {
        if self.file_admitted(path, size) {
            match key_of(self.root(), path) {
                Some(rel) => inserted(self.collected(), rel, content),
                None => self.collected(),
            }
        } else {
            self.collected()
        }
    }

    /// Compiles the configuration's three pattern lists, in the order
    /// include, exclude, exclude-directory, failing on the first list that
    /// does not compile before anything is walked. `root` is the canonical
    /// root of the walk.
    pub fn new(config: &Config, root: String) -> (r: Result<Collector, RepoError>)
        ensures
            !list_compiles(config.include_patterns@) ==> (r matches Err(e) && list_error(
                config.include_patterns@,
                e,
            )),
            list_compiles(config.include_patterns@) && !list_compiles(config.exclude_patterns@)
                ==> (r matches Err(e) && list_error(config.exclude_patterns@, e)),
            list_compiles(config.include_patterns@) && list_compiles(config.exclude_patterns@)
                && !list_compiles(config.exclude_dir_patterns@) ==> (r matches Err(e)
                && list_error(config.exclude_dir_patterns@, e)),
            list_compiles(config.include_patterns@) && list_compiles(config.exclude_patterns@)
                && list_compiles(config.exclude_dir_patterns@) ==> (r matches Ok(c) && {
                &&& c.wf()
                &&& c.root() == root@
                &&& c.include_globs() == texts(config.include_patterns@)
                &&& c.exclude_globs() == texts(config.exclude_patterns@)
                &&& c.exclude_dir_globs() == texts(config.exclude_dir_patterns@)
                &&& c.max_size() == config.max_file_size
                &&& c.collected().len() == 0
            }),
    {
        let included = match build_glob_set(&config.include_patterns) {
            Ok(s) => s,
            Err(e) => {
                return Err(e);
            },
        };
        let excluded = match build_glob_set(&config.exclude_patterns) {
            Ok(s) => s,
            Err(e) => {
                return Err(e);
            },
        };
        let excluded_dirs = match build_glob_set(&config.exclude_dir_patterns) {
            Ok(s) => s,
            Err(e) => {
                return Err(e);
            },
        };
        Ok(
            Collector {
                root,
                included,
                excluded,
                excluded_dirs,
                max_file_size: config.max_file_size,
                files: FileMap::new(),
            },
        )
    }

    /// Whether the walk descends into the directory at `path`.
    pub fn admits_dir(&self, path: &str) -> (r: bool)
        ensures
            r == self.dir_admitted(path@),
            is_default_excluded(base_name(path@)) ==> !r,
    {
        if is_default_excluded_name(file_name(path)) {
            return false;
        }
        !crate::matcher::set_is_match(&self.excluded_dirs, path)
    }

    /// Whether the file at `path`, of `size` bytes, is to be read and collected.
    pub fn admits_file(&self, path: &str, size: u64) -> (r: bool)
        ensures
            r == self.file_admitted(path@, size),
            size > self.max_size() ==> !r,
    {
        if size > self.max_file_size {
            return false;
        }
        if !crate::matcher::set_is_match(&self.included, path) {
            return false;
        }
        !crate::matcher::set_is_match(&self.excluded, path)
    }

    /// Offers a file that was read: it is collected under its path relative
    /// to the root when it is admitted, lies below the root and its relative
    /// path is a plain one. Returns whether it was collected.
    pub fn add_file(&mut self, path: &str, size: u64, content: String) -> (r: bool)
        requires
            old(self).wf(),
        ensures
            final(self).wf(),
            final(self).collected() == old(self).after_add(path@, size, content@),
            r == (old(self).file_admitted(path@, size) && key_of(old(self).root(), path@) is Some),
            size > old(self).max_size() ==> final(self).collected() == old(self).collected(),
            final(self).root() == old(self).root(),
            final(self).include_globs() == old(self).include_globs(),
            final(self).exclude_globs() == old(self).exclude_globs(),
            final(self).exclude_dir_globs() == old(self).exclude_dir_globs(),
            final(self).max_size() == old(self).max_size(),
    {
        if !self.admits_file(path, size) {
            return false;
        }
        match relative_path(self.root.as_str(), path) {
            Some(rel) => {
                if !is_clean_relative(rel.as_str()) {
                    return false;
                }
                proof {
                    lemma_inserted_keys(self.files@, rel@, content@);
                }
                self.files.insert(rel, content);
                true
            },
            None => false,
        }
    }

    /// The files collected so far.
    pub fn files_map(&self) -> (r: &FileMap)
        ensures
            r@ == self.collected(),
            self.wf() ==> r.wf() && keys_clean(r@),
    {
        &self.files
    }

    /// Ends the collection, handing over the collected files.
    pub fn into_files(self) -> (r: FileMap)
        ensures
            r@ == self.collected(),
            self.wf() ==> r.wf() && keys_clean(r@),
    {
        self.files
    }
}

/// A directory named like a default exclusion is never descended into,
/// whatever the patterns.
pub proof fn lemma_default_excluded_never_descended(c: Collector, path: Seq<char>)
    requires
        is_default_excluded(base_name(path)),
    ensures
        !c.dir_admitted(path),
{
}

/// A file larger than the limit is never collected, whatever the patterns.
pub proof fn lemma_oversized_never_collected(
    c: Collector,
    path: Seq<char>,
    size: u64,
    content: Seq<char>,
)
    requires
        size > c.max_size(),
    ensures
        c.after_add(path, size, content) == c.collected(),
{
}

/// With no included patterns no file is ever collected.
pub proof fn lemma_empty_include_collects_nothing(
    c: Collector,
    path: Seq<char>,
    size: u64,
    content: Seq<char>,
)
    requires
        c.include_globs().len() == 0,
    ensures
        !c.file_admitted(path, size),
        c.after_add(path, size, content) == c.collected(),
{
}

/// Offering an unchanged file a second time leaves the collected files as
/// the first offer left them.
pub proof fn lemma_add_file_idempotent(
    before: Collector,
    after: Collector,
    path: Seq<char>,
    size: u64,
    content: Seq<char>,
)
    requires
        before.wf(),
        after.collected() == before.after_add(path, size, content),
        after.root() == before.root(),
        after.include_globs() == before.include_globs(),
        after.exclude_globs() == before.exclude_globs(),
        after.max_size() == before.max_size(),
    ensures
        after.after_add(path, size, content) == after.collected(),
{
    if before.file_admitted(path, size) {
        if let Some(rel) = key_of(before.root(), path) {
            lemma_inserted_twice(before.collected(), rel, content);
        }
    }
}

} // verus!
