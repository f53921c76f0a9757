//! Configuration of workspace walks.

use vstd::prelude::*;

use crate::server::options::{clone_strings, strings_view, strs_view, to_strings};

verus! {

/// What a workspace walk visits.
#[derive(Debug)]
pub struct WorkspaceWalkConfig {
    include_hidden_files: bool,
    respect_ignore_files: bool,
    ignore_filenames: Vec<String>,
    global_ignore_file: Option<String>,
}

/// The model of a [`WorkspaceWalkConfig`].
pub struct WorkspaceWalkConfigView {
    pub include_hidden_files: bool,
    pub respect_ignore_files: bool,
    pub ignore_filenames: Seq<Seq<char>>,
    pub global_ignore_file: Option<Seq<char>>,
}

impl View for WorkspaceWalkConfig {
    type V = WorkspaceWalkConfigView;

    closed spec fn view(&self) -> WorkspaceWalkConfigView {
        WorkspaceWalkConfigView {
            include_hidden_files: self.include_hidden_files,
            respect_ignore_files: self.respect_ignore_files,
            ignore_filenames: strings_view(self.ignore_filenames@),
            global_ignore_file: match self.global_ignore_file {
                Some(file) => Some(file@),
                None => None,
            },
        }
    }
}

impl Default for WorkspaceWalkConfig {
    /// Hidden entries skipped, ignore files honored, no custom ignore names
    /// and no global ignore file.
    fn default() -> (r: Self)
        ensures
            !r@.include_hidden_files,
            r@.respect_ignore_files,
            r@.ignore_filenames.len() == 0,
            r@.global_ignore_file is None,
    {
        let r = WorkspaceWalkConfig {
            include_hidden_files: false,
            respect_ignore_files: true,
            ignore_filenames: Vec::new(),
            global_ignore_file: None,
        };
        proof {
            assert(strings_view(r.ignore_filenames@) =~= Seq::<Seq<char>>::empty());
        }
        r
    }
}

impl WorkspaceWalkConfig {
    /// Whether hidden entries are visited.
    pub fn with_hidden_files(self, yes: bool) -> (r: Self)
        ensures
            r@.include_hidden_files == yes,
            r@.respect_ignore_files == self@.respect_ignore_files,
            r@.ignore_filenames == self@.ignore_filenames,
            r@.global_ignore_file == self@.global_ignore_file,
    {
        WorkspaceWalkConfig { include_hidden_files: yes, ..self }
    }

    /// Whether ignore files are honored.
    pub fn with_ignore_files(self, yes: bool) -> (r: Self)
        ensures
            r@.respect_ignore_files == yes,
            r@.include_hidden_files == self@.include_hidden_files,
            r@.ignore_filenames == self@.ignore_filenames,
            r@.global_ignore_file == self@.global_ignore_file,
    {
        WorkspaceWalkConfig { respect_ignore_files: yes, ..self }
    }

    /// Names of custom ignore files honored per directory.
    pub fn with_ignore_filenames(self, names: &[&str]) -> (r: Self)
        ensures
            r@.ignore_filenames == strs_view(names@),
            r@.include_hidden_files == self@.include_hidden_files,
            r@.respect_ignore_files == self@.respect_ignore_files,
            r@.global_ignore_file == self@.global_ignore_file,
    {
        WorkspaceWalkConfig { ignore_filenames: to_strings(names), ..self }
    }

    /// The global ignore file applied to every root, if any.
    pub fn with_global_ignore_file(self, file: Option<String>) -> (r: Self)
        ensures
            r@.global_ignore_file == match file {
                Some(f) => Some(f@),
                None => None,
            },
            r@.include_hidden_files == self@.include_hidden_files,
            r@.respect_ignore_files == self@.respect_ignore_files,
            r@.ignore_filenames == self@.ignore_filenames,
    {
        WorkspaceWalkConfig { global_ignore_file: file, ..self }
    }

    /// The switches a directory walker is configured with: the standard
    /// filters off, hidden entries skipped unless included, and every
    /// ignore-file family honored together or not at all, plus the custom
    /// ignore file names.
    pub fn walk_settings(&self) -> (r: WalkSettings)
        ensures
            r.standard_filters == false,
            r.hidden == !self@.include_hidden_files,
            r.parents == self@.respect_ignore_files,
            r.ignore == self@.respect_ignore_files,
            r.git_ignore == self@.respect_ignore_files,
            r.git_global == self@.respect_ignore_files,
            r.git_exclude == self@.respect_ignore_files,
            strings_view(r.custom_ignore_filenames@) == self@.ignore_filenames,
    {
        let respect = self.respect_ignore_files;
        WalkSettings {
            standard_filters: false,
            hidden: !self.include_hidden_files,
            parents: respect,
            ignore: respect,
            git_ignore: respect,
            git_global: respect,
            git_exclude: respect,
            custom_ignore_filenames: clone_strings(&self.ignore_filenames),
        }
    }

    /// The global ignore file, if any.
    pub fn global_ignore_file(&self) -> (r: Option<&String>)
        ensures
            match r {
                Some(f) => self@.global_ignore_file == Some(f@),
                None => self@.global_ignore_file is None,
            },
    {
        match &self.global_ignore_file {
            Some(file) => Some(file),
            None => None,
        }
    }
}

/// The switches of a directory walker, one per builder setting.
#[derive(Debug)]
pub struct WalkSettings {
    pub standard_filters: bool,
    pub hidden: bool,
    pub parents: bool,
    pub ignore: bool,
    pub git_ignore: bool,
    pub git_global: bool,
    pub git_exclude: bool,
    pub custom_ignore_filenames: Vec<String>,
}

/// A workspace walk over canonical roots.
#[derive(Debug)]
pub struct WorkspaceWalker {
    roots: Vec<String>,
    config: WorkspaceWalkConfig,
}

impl WorkspaceWalker {
    /// A walker over roots that have already been canonicalized.
    pub fn from_canonical_roots(roots: Vec<String>, config: WorkspaceWalkConfig) -> (r: Self)
        ensures
            r.roots_view() == strings_view(roots@),
            r.config_view() == config@,
    {
        WorkspaceWalker { roots, config }
    }

    /// The views of the walker's roots.
    pub closed spec fn roots_view(&self) -> Seq<Seq<char>> {
        strings_view(self.roots@)
    }

    /// The view of the walker's configuration.
    pub closed spec fn config_view(&self) -> WorkspaceWalkConfigView {
        self.config@
    }

    /// The canonical roots, in the order given.
    pub fn roots(&self) -> (r: &[String])
        ensures
            strings_view(r@) == self.roots_view(),
    {
        self.roots.as_slice()
    }

    /// The walk configuration.
    pub fn config(&self) -> (r: &WorkspaceWalkConfig)
        ensures
            r@ == self.config_view(),
    {
        &self.config
    }
}

} // verus!
