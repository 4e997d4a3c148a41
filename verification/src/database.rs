//! The store handle: where the collections live and how their files are named.

use vstd::prelude::*;
use vstd::string::StringExecFns;

verus! {

/// The extension of a collection file where none is asked for.
pub open spec fn default_extension() -> Seq<char> {
    seq!['c', 's', 'v']
}

/// The name of the file that holds `collection`: the collection's name, a
/// dot, the extension.
pub open spec fn file_name_of(collection: Seq<char>, extension: Seq<char>) -> Seq<char> {
    collection + seq!['.'] + extension
}

struct Config<PA> {
    path: PA,
    extension: String,
}

/// A Database provides methods to access data.
///
/// The configuration is set when the handle is made and never changes.
pub struct Database<PA> {
    config: Config<PA>,
}

impl<PA> Database<PA> {
    /// The base folder that the handle was made with.
    pub closed spec fn base(&self) -> PA {
        self.config.path
    }

    /// The extension of the handle's collection files.
    pub closed spec fn suffix(&self) -> Seq<char> {
        self.config.extension@
    }

    /// Create a new Database with a mandatory path and an optional file
    /// extension.
    pub fn new(path: PA, extension: Option<&str>) -> (db: Self)
        ensures
            db.base() == path,
            db.suffix() == match extension {
                Some(given) => given@,
                None => default_extension(),
            },
    {
        let extension = match extension {
            Some(given) => String::from_str(given),
            None => {
                proof {
                    reveal_strlit("csv");
                    assert("csv"@ =~= default_extension());
                }
                String::from_str("csv")
            },
        };
        Database { config: Config { path, extension } }
    }

    /// The base folder.
    pub fn path(&self) -> (path: &PA)
        ensures
            *path == self.base(),
    {
        &self.config.path
    }

    /// The extension of the collection files, without the dot.
    pub fn extension(&self) -> (extension: &str)
        ensures
            extension@ == self.suffix(),
    {
        self.config.extension.as_str()
    }

    /// The name of the file, inside the base folder, that holds `collection`.
    pub fn file_name(&self, collection: &str) -> (name: String)
        ensures
            name@ == file_name_of(collection@, self.suffix()),
    {
        let mut name = String::from_str(collection);
        name.append(".");
        name.append(self.config.extension.as_str());
        proof {
            reveal_strlit(".");
            assert("."@ =~= seq!['.']);
        }
        name
    }
}

} // verus!
