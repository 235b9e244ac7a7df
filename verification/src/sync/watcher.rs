//! Local folder watcher for file-based sync.

use vstd::prelude::*;

verus! {

/// Watches a local directory for changes.
pub struct FolderWatcher {
    watch_path: String,
    active: bool,
}

impl FolderWatcher {
    /// The watched directory.
    pub closed spec fn watch_path(&self) -> Seq<char> {
        self.watch_path@
    }

    /// Whether the watcher is running.
    pub closed spec fn is_active(&self) -> bool {
        self.active
    }

    /// A stopped watcher for `path`.
    pub fn new(path: &str) -> (res: Self)
        ensures
            res.watch_path() == path@,
            !res.is_active(),
    {
        FolderWatcher { watch_path: path.to_string(), active: false }
    }

    /// Start watching.
    pub fn start(&mut self)
        ensures
            final(self).is_active(),
            final(self).watch_path() == old(self).watch_path(),
    {
        self.active = true;
    }

    /// Stop watching.
    pub fn stop(&mut self)
        ensures
            !final(self).is_active(),
            final(self).watch_path() == old(self).watch_path(),
    {
        self.active = false;
    }
}

} // verus!
