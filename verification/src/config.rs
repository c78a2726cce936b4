//! The settings that a configuration file can hold.

use vstd::prelude::*;
use vstd::string::*;

verus! {

/// Where the index lies.
#[derive(Debug, Clone, PartialEq, Eq)]
pub struct Index {
    pub path: Option<String>,
}

/// Where the dictionary file lies, and where it can be fetched from.
#[derive(Debug, Clone, PartialEq, Eq)]
pub struct Jmdict {
    pub path: Option<String>,
    pub url: Option<String>,
}

/// The settings of the program.
#[derive(Debug, Clone, PartialEq, Eq)]
pub struct Config {
    pub index: Index,
    pub jmdict: Jmdict,
}

/// The text of a setting, where it is set.
pub open spec fn text_of(setting: Option<String>) -> Option<Seq<char>> {
    match setting {
        Some(text) => Some(text@),
        None => None,
    }
}

impl Index {
    /// Nothing is set.
    pub fn is_default(&self) -> (unset: bool)
        ensures
            unset == (self.path is None),
    {
        self.path.is_none()
    }
}

impl Jmdict {
    /// Nothing is set.
    pub fn is_default(&self) -> (unset: bool)
        ensures
            unset == (self.path is None && self.url is None),
    {
        self.path.is_none() && self.url.is_none()
    }
}

impl Config {
    /// The settings with nothing set.
    pub fn new() -> (config: Config)
        ensures
            config.index.path is None,
            config.jmdict.path is None,
            config.jmdict.url is None,
    {
        Config { index: Index { path: None }, jmdict: Jmdict { path: None, url: None } }
    }

    /// The path of the index: the one given on the command line, else the one of
    /// the settings, else `fallback`.
    pub fn index_path(&self, given: Option<String>, fallback: String) -> (path: String)
        ensures
            path@ == match (given, self.index.path) {
                (Some(given), _) => given@,
                (None, Some(set)) => set@,
                (None, None) => fallback@,
            },
    {
        match given {
            Some(given) => given,
            None => match &self.index.path {
                Some(set) => set.clone(),
                None => fallback,
            },
        }
    }

    /// The settings in effect: the index at `index_path`, and for the dictionary
    /// file what was given on the command line before what the settings hold.
    pub fn in_effect(
        self,
        index_path: String,
        jmdict_path: Option<String>,
        jmdict_url: Option<String>,
    ) -> (config: Config)
        ensures
            text_of(config.index.path) == Some(index_path@),
            text_of(config.jmdict.path) == if jmdict_path is Some {
                text_of(jmdict_path)
            } else {
                text_of(self.jmdict.path)
            },
            text_of(config.jmdict.url) == if jmdict_url is Some {
                text_of(jmdict_url)
            } else {
                text_of(self.jmdict.url)
            },
    {
        let path = match jmdict_path {
            Some(path) => Some(path),
            None => self.jmdict.path,
        };
        let url = match jmdict_url {
            Some(url) => Some(url),
            None => self.jmdict.url,
        };
        Config { index: Index { path: Some(index_path) }, jmdict: Jmdict { path, url } }
    }
}

} // verus!
