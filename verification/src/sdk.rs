//! The artifact data model: descriptive SDK metadata and the record kept
//! for one remotely stored artifact.

use vstd::prelude::*;
use vstd::string::*;

verus! {

/// Descriptive metadata of one SDK artifact (identity and version).  It is
/// carried through unchanged and used only for display and for equality
/// comparison between two records of the same artifact.
pub struct SdkInfo {
    pub name: String,
    pub version: String,
}

impl SdkInfo {
    pub fn new(name: String, version: String) -> (r: SdkInfo)
        ensures
            r.name == name,
            r.version == version,
    {
        SdkInfo { name, version }
    }

    pub fn name(&self) -> (r: &str)
        ensures
            r@ == self.name@,
    {
        self.name.as_str()
    }

    pub fn version(&self) -> (r: &str)
        ensures
            r@ == self.version@,
    {
        self.version.as_str()
    }

    /// A one-line human-readable description, for the embedding program's
    /// progress messages.
    pub fn describe(&self) -> (r: String)
        ensures
            r@ == self.name@ + " "@ + self.version@,
    {
        let mut s = self.name.clone();
        s.append(" ");
        s.append(self.version.as_str());
        s
    }
}

impl Clone for SdkInfo {
    fn clone(&self) -> (r: Self)
        ensures
            r == *self,
    {
        SdkInfo { name: self.name.clone(), version: self.version.clone() }
    }
}

/// The stored name of an artifact with the trailing compression-suffix
/// character stripped: the canonical key under which the artifact is
/// tracked locally, and the filename written into the mirror directory.
pub open spec fn local_name_of(s: Seq<char>) -> Seq<char> {
    if s.len() > 0 && s.last() == 'z' {
        s.drop_last()
    } else {
        s
    }
}

/// The record kept for one remote artifact: the name under which it is
/// stored remotely, its metadata, its size and its content tag.  Size and
/// content tag serve only to detect that a same-named artifact changed.
pub struct RemoteSdk {
    pub filename: String,
    pub info: SdkInfo,
    pub size: u64,
    pub etag: String,
}

/// Two records describe the same unchanged artifact: every field agrees.
pub open spec fn record_matches(a: RemoteSdk, b: RemoteSdk) -> bool {
    &&& a.filename@ == b.filename@
    &&& a.info.name@ == b.info.name@
    &&& a.info.version@ == b.info.version@
    &&& a.size == b.size
    &&& a.etag@ == b.etag@
}

impl RemoteSdk {
    pub fn new(filename: String, info: SdkInfo, etag: String, size: u64) -> (r: RemoteSdk)
        ensures
            r.filename == filename,
            r.info == info,
            r.etag == etag,
            r.size == size,
    {
        RemoteSdk { filename, info, etag, size }
    }

    /// The name under which the artifact is stored remotely.
    pub fn filename(&self) -> (r: &str)
        ensures
            r@ == self.filename@,
    {
        self.filename.as_str()
    }

    /// The canonical local name: the stored name with one trailing
    /// compression-suffix character stripped, if present.
    pub fn local_filename(&self) -> (r: &str)
        ensures
            r@ == local_name_of(self.filename@),
    {
        let s = self.filename.as_str();
        let n = s.unicode_len();
        if n > 0 && s.get_char(n - 1) == 'z' {
            let t = s.substring_char(0, n - 1);
            proof {
                assert(t@ =~= local_name_of(self.filename@));
            }
            t
        } else {
            s
        }
    }

    pub fn info(&self) -> (r: &SdkInfo)
        ensures
            *r == self.info,
    {
        &self.info
    }

    /// Structural equality of two records, the test by which the
    /// reconciler decides whether a same-named artifact changed.
    pub fn same_record(&self, other: &RemoteSdk) -> (r: bool)
        ensures
            r == record_matches(*self, *other),
    {
        self.filename == other.filename && self.info.name == other.info.name
            && self.info.version == other.info.version && self.size == other.size
            && self.etag == other.etag
    }
}

impl Clone for RemoteSdk {
    fn clone(&self) -> (r: Self)
        ensures
            r == *self,
    {
        RemoteSdk {
            filename: self.filename.clone(),
            info: self.info.clone(),
            size: self.size,
            etag: self.etag.clone(),
        }
    }
}

} // verus!
