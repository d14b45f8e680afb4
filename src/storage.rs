//! Where the persisted blobs live.

use vstd::prelude::*;
use crate::text::{decimal_text, i64_text};
use crate::timestamp::current_time;

verus! {

/// A place that durably holds one text blob.
pub trait Storage {
    /// Replaces the whole blob with `data`, or says why it could not.
    fn save(&self, data: String) -> Result<(), String>;

    /// The blob, or why it could not be read (a missing blob included).
    fn load(&self) -> Result<String, String>;
}

/// A blob kept in a file at `path`.
pub struct FileStorage {
    path: String,
}

impl View for FileStorage {
    type V = Seq<char>;

    closed spec fn view(&self) -> Seq<char> {
        self.path@
    }
}

impl FileStorage {
    /// Storage at `path`, or, where none is given, at `temp/` followed by the
    /// current time in milliseconds since the epoch.
    pub fn new(path: Option<String>) -> (r: FileStorage)
        ensures
            match path {
                Some(p) => r@ == p@,
                None => exists|ms: int| r@ == "temp/"@ + decimal_text(ms),
            },
    {
        match path {
            Some(p) => FileStorage { path: p },
            None => FileStorage::at_millis(current_time().timestamp_millis()),
        }
    }

    /// Storage at `temp/` followed by `ms` in decimal.
    pub fn at_millis(ms: i64) -> (r: FileStorage)
        ensures
            r@ == "temp/"@ + decimal_text(ms as int),
    {
        let mut p = "temp/".to_owned();
        p.append(i64_text(ms).as_str());
        FileStorage { path: p }
    }

    /// The path of the file.
    pub fn path(&self) -> (r: &str)
        ensures
            r@ == self@,
    {
        self.path.as_str()
    }
}

} // verus!
