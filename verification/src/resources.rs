//! Resource-name handling: a root directory plus `/`-separated resource
//! names, and the validity check a loaded buffer must pass before it can
//! travel to the driver as a C string. Reading the files themselves is
//! left to the program around the library.

use vstd::prelude::*;
use vstd::string::StringExecFns;

verus! {

/// Why a resource could not be loaded.
#[derive(Debug)]
pub enum Error {
    /// The underlying read failed; carries the reported reason.
    Io(String),
    /// The file holds an interior nul byte and cannot become a C string.
    FileContainsNil,
    /// The location of the running executable could not be determined.
    FailedToGetExePath,
}

/// A resource root: absolute resource paths are formed by joining
/// `/`-separated resource names onto this directory.
pub struct Resources {
    root_path: String,
}

impl Resources {
    /// The root directory all resource names are resolved under.
    pub closed spec fn spec_root(&self) -> Seq<char> {
        self.root_path@
    }

    /// A resource root over the given directory.
    pub fn new(root_path: String) -> (r: Resources)
        ensures
            r.spec_root() == root_path@,
    {
        Resources { root_path }
    }

    /// The absolute path of a resource name: the name's `/`-separated
    /// parts joined under the root directory.
    pub fn to_abs_path(&self, rel_path: &str) -> (r: String)
        ensures
            r@ == self.spec_root() + "/"@ + rel_path@,
    {
        resource_name_to_path(self.root_path.as_str(), rel_path)
    }
}

/// Join a `/`-separated resource name onto a root directory.
pub fn resource_name_to_path(root_dir: &str, location: &str) -> (r: String)
    ensures
        r@ == root_dir@ + "/"@ + location@,
{
    let mut path = root_dir.to_owned();
    path.append("/");
    path.append(location);
    path
}

/// Whether a loaded buffer holds a nul byte, which no C string may carry.
pub fn buffer_has_nul(bytes: &[u8]) -> (r: bool)
    ensures
        r <==> exists|i: int| 0 <= i < bytes@.len() && bytes@[i] == 0u8,
{
    let mut i: usize = 0;
    while i < bytes.len()
        invariant
            i <= bytes@.len(),
            forall|j: int| 0 <= j < i ==> bytes@[j] != 0u8,
        decreases bytes@.len() - i,
    {
        if bytes[i] == 0 {
            return true;
        }
        i = i + 1;
    }
    false
}

} // verus!
