//! Access to XenStore: the read and write capabilities that the plugins use,
//! and their implementation over `xenstore-rs`.
use vstd::prelude::*;
use xenstore_rs::unix::XsUnix;

verus! {

/// The I/O error that XenStore operations report.
#[verifier::external_type_specification]
#[verifier::external_body]
pub struct ExIoError(std::io::Error);

/// The blocking XenStore client of `xenstore-rs`.
#[verifier::external_type_specification]
#[verifier::external_body]
pub struct ExXsUnix(XsUnix);

/// The characters of each string, in order.
pub open spec fn string_views(v: Seq<String>) -> Seq<Seq<char>> {
    v.map_values(|s: String| s@)
}

/// The children that a listing gave, or `None` when it failed.
pub open spec fn listing_view(r: Result<Vec<String>, std::io::Error>) -> Option<Seq<Seq<char>>> {
    match r {
        Ok(l) => Some(string_views(l@)),
        Err(_) => None,
    }
}

/// The value that a read gave, or `None` when it failed.
pub open spec fn value_view(r: Result<String, std::io::Error>) -> Option<Seq<char>> {
    match r {
        Ok(v) => Some(v@),
        Err(_) => None,
    }
}

/// Reading XenStore nodes.
pub trait XsRead {
    /// Whether listing the node at `path` can give the children `listing`
    /// (`None`: the listing fails). A store whose contents are not modelled
    /// allows every outcome.
    open spec fn may_list(&self, path: Seq<char>, listing: Option<Seq<Seq<char>>>) -> bool {
        true
    }

    /// Whether reading the node at `path` can give `value` (`None`: the
    /// read fails). A store whose contents are not modelled allows every
    /// outcome.
    open spec fn may_read(&self, path: Seq<char>, value: Option<Seq<char>>) -> bool {
        true
    }

    /// Lists the children of the node at `path`.
    fn directory(&self, path: &str) -> (r: Result<Vec<String>, std::io::Error>)
        ensures
            self.may_list(path@, listing_view(r)),
    ;

    /// Reads the value of the node at `path`.
    fn read(&self, path: &str) -> (r: Result<String, std::io::Error>)
        ensures
            self.may_read(path@, value_view(r)),
    ;
}

/// Writing XenStore nodes.
pub trait XsWrite {
    /// Writes `data` at `path`.
    fn write(&self, path: &str, data: &str) -> Result<(), std::io::Error>;

    /// Removes the node at `path`.
    fn rm(&self, path: &str) -> Result<(), std::io::Error>;
}

/// A change notification of a XenStore watch.
#[derive(Debug)]
pub struct XsWatchEntry {
    pub path: String,
    pub token: String,
}

/// Watching XenStore nodes for changes.
pub trait XsWatch: XsRead {
    /// Starts watching `path`; its changes are reported with `token`.
    fn watch(&self, path: &str, token: &str) -> Result<(), std::io::Error>;

    /// Waits for changes and returns those that came.
    fn read_watch(&self) -> Result<Vec<XsWatchEntry>, std::io::Error>;

    /// Returns a pending change, if there is one, without waiting.
    fn check_watch(&self) -> Result<Option<XsWatchEntry>, std::io::Error>;

    /// Stops watching `path` with `token`.
    fn unwatch(&self, path: &str, token: &str) -> Result<(), std::io::Error>;
}

/// Lists a directory through `xenstore_rs::Xs::directory`. What comes back
/// depends on the store: nothing is claimed of it.
#[verifier::external_body]
fn xs_unix_directory(xs: &XsUnix, path: &str) -> Result<Vec<String>, std::io::Error> {
    xenstore_rs::Xs::directory(xs, path).map(|entries| entries.into_iter().map(|e| e.into_string()).collect())
}

/// Reads a node through `xenstore_rs::Xs::read`. What comes back depends on
/// the store: nothing is claimed of it.
#[verifier::external_body]
fn xs_unix_read(xs: &XsUnix, path: &str) -> Result<String, std::io::Error> {
    xenstore_rs::Xs::read(xs, path).map(|value| value.into_string())
}

/// Writes a node through `xenstore_rs::Xs::write`; nothing is claimed of
/// the outcome.
#[verifier::external_body]
fn xs_unix_write(xs: &XsUnix, path: &str, data: &str) -> Result<(), std::io::Error> {
    xenstore_rs::Xs::write(xs, path, data)
}

/// Removes a node through `xenstore_rs::Xs::rm`; nothing is claimed of the
/// outcome.
#[verifier::external_body]
fn xs_unix_rm(xs: &XsUnix, path: &str) -> Result<(), std::io::Error> {
    xenstore_rs::Xs::rm(xs, path)
}

impl XsRead for XsUnix {
    /// The contents of the store are not modelled: every listing can come.
    open spec fn may_list(&self, path: Seq<char>, listing: Option<Seq<Seq<char>>>) -> bool {
        true
    }

    /// The contents of the store are not modelled: every value can come.
    open spec fn may_read(&self, path: Seq<char>, value: Option<Seq<char>>) -> bool {
        true
    }

    fn directory(&self, path: &str) -> Result<Vec<String>, std::io::Error> {
        xs_unix_directory(self, path)
    }

    fn read(&self, path: &str) -> Result<String, std::io::Error> {
        xs_unix_read(self, path)
    }
}

impl XsWrite for XsUnix {
    fn write(&self, path: &str, data: &str) -> Result<(), std::io::Error> {
        xs_unix_write(self, path, data)
    }

    fn rm(&self, path: &str) -> Result<(), std::io::Error> {
        xs_unix_rm(self, path)
    }
}

} // verus!
