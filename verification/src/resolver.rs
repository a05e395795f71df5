//! Where sources come from: the module resolver interface, the file-based resolver, and
//! the store of the source text that pretty errors quote.
use vstd::prelude::*;
use crate::error::NbclError;

verus! {

/// Resolves the path an import names into the location of a module.
pub trait ModuleResolver {
    /// The location of the module that `path` names.
    fn find_target(&self, path: &str) -> Result<String, NbclError>;
}

/// A resolver that reads `import` paths relative to the directory of a file.
pub struct FileModuleResolver {
    pub file_path: String,
}

impl FileModuleResolver {
    /// A resolver relative to the file at `fpath`.
    pub fn new(fpath: String) -> (r: FileModuleResolver)
        ensures
            r.file_path@ == fpath@,
    {
        FileModuleResolver { file_path: fpath }
    }
}

/// The source text that error reports quote.
pub struct SourceStore {
    pub source: Option<String>,
}

impl SourceStore {
    /// An empty store.
    pub fn new() -> (r: SourceStore)
        ensures
            r.source is None,
    {
        SourceStore { source: None }
    }

    /// Keeps a copy of `source`.
    pub fn set_source(&mut self, source: &str)
        ensures
            final(self).source matches Some(s) && s@ == source@,
    {
        self.source = Some(source.to_string());
    }

    /// The kept source, if any.
    pub fn get_source(&self) -> (r: Option<String>)
        ensures
            match self.source {
                Some(s) => r matches Some(t) && t@ == s@,
                None => r is None,
            },
    {
        match &self.source {
            Some(s) => Some(s.clone()),
            None => None,
        }
    }

    /// Forgets the kept source.
    pub fn clear_source(&mut self)
        ensures
            final(self).source is None,
    {
        self.source = None;
    }
}

} // verus!
