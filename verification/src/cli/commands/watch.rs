//! `watch`: which configuration the watcher runs with.

use vstd::prelude::*;

verus! {

/// Arguments of `watch`.
#[derive(Debug, Clone, PartialEq)]
pub struct WatchArgs {
    /// Directory to watch (no config file needed).
    pub path: Option<String>,
    /// Config file paths (repeatable; entries are merged).
    pub config: Vec<String>,
}

/// Where the watch configuration comes from.
#[derive(Debug, Clone, PartialEq)]
pub enum WatchConfigSource {
    /// The given config files, merged.
    Files,
    /// The given directory alone, watched recursively.
    Folder(String),
    /// The config file found in the user's config directory, if any, else
    /// the current directory.
    Discover,
}

impl WatchArgs {
    /// Where the configuration comes from: config files first, then a
    /// directory argument, then discovery.
    pub fn config_source(&self) -> (r: WatchConfigSource)
        ensures
            self.config.len() > 0 ==> r is Files,
            self.config.len() == 0 && self.path is Some ==> (r matches WatchConfigSource::Folder(p)
                && p@ == self.path->0@),
            self.config.len() == 0 && self.path is None ==> r is Discover,
    {
        if self.config.len() > 0 {
            WatchConfigSource::Files
        } else {
            match &self.path {
                Some(p) => WatchConfigSource::Folder(crate::text::copy_string(p)),
                None => WatchConfigSource::Discover,
            }
        }
    }
}

}
