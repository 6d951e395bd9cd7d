//! Entries of project directories and the root the project's relative paths
//! are resolved against.

use vstd::prelude::*;

verus! {

/// Whether a directory entry is a file or a directory.
#[derive(PartialEq, Eq, Structural)]
pub enum FileKind {
    FILE,
    DIRECTORY,
}

/// One entry of a directory listing.
pub struct ReadDir {
    file_name: String,
    file_path: String,
    file_type: FileKind,
}

impl ReadDir {
    pub closed spec fn spec_name(&self) -> Seq<char> {
        self.file_name@
    }

    pub closed spec fn spec_path(&self) -> Seq<char> {
        self.file_path@
    }

    pub closed spec fn spec_is_dir(&self) -> bool {
        self.file_type == FileKind::DIRECTORY
    }

    pub fn new(file_name: String, file_path: String, file_type: FileKind) -> (r: ReadDir)
        ensures
            r.spec_name() == file_name@,
            r.spec_path() == file_path@,
            r.spec_is_dir() == (file_type == FileKind::DIRECTORY),
    {
        ReadDir { file_name, file_path, file_type }
    }

    pub fn get_path(&self) -> (r: String)
        ensures
            r@ == self.spec_path(),
    {
        self.file_path.clone()
    }

    pub fn get_name(&self) -> (r: String)
        ensures
            r@ == self.spec_name(),
    {
        self.file_name.clone()
    }

    pub fn is_dir(&self) -> (r: bool)
        ensures
            r == self.spec_is_dir(),
    {
        self.file_type == FileKind::DIRECTORY
    }
}

/// `std::path::Path::new(base).join(path)` as text: `path` appended to
/// `base` with the platform's separator, or `path` alone when it is absolute.
pub uninterp spec fn joined_path(base: Seq<char>, path: Seq<char>) -> Seq<char>;

/// Calls `std::path::Path::join` on `base` and `path` and returns the joined
/// path as text. Both inputs are UTF-8, so the conversion back loses nothing.
#[verifier::external_body]
fn path_join(base: &str, path: &str) -> (r: String)
    ensures
        r@ == joined_path(base@, path@),
{
    std::path::Path::new(base).join(path).to_string_lossy().into_owned()
}

/// Whether `std::path::Path` compares the two paths equal. It compares them
/// component by component, so repeated separators, a trailing separator and
/// `.` components other than a leading one make no difference.
pub uninterp spec fn same_path(a: Seq<char>, b: Seq<char>) -> bool;

/// Calls `==` on `std::path::Path::new(a)` and `std::path::Path::new(b)`.
/// `Path` is `Eq`, so a path compares equal to itself.
#[verifier::external_body]
pub(crate) fn paths_equal(a: &str, b: &str) -> (r: bool)
    ensures
        r == same_path(a@, b@),
        a@ == b@ ==> r,
{
    std::path::Path::new(a) == std::path::Path::new(b)
}

/// The directory of the open project, against which relative resource paths
/// are resolved; unset until the runner sets it.
pub struct FsRoot {
    root: Option<String>,
}

impl FsRoot {
    pub closed spec fn spec_root(&self) -> Option<Seq<char>> {
        match self.root {
            Some(r) => Some(r@),
            None => None,
        }
    }

    /// No root set.
    pub fn new() -> (r: FsRoot)
        ensures
            r.spec_root() is None,
    {
        FsRoot { root: None }
    }
}

/// Sets the project root.
pub fn set_fs_root(fs: &mut FsRoot, fs_root: &str)
    ensures
        final(fs).spec_root() == Some(fs_root@),
{
    fs.root = Some(String::from_str(fs_root));
}

/// The project root, which must have been set.
pub fn get_fs_root(fs: &FsRoot) -> (r: String)
    requires
        fs.spec_root() is Some,
    ensures
        Some(r@) == fs.spec_root(),
{
    fs.root.as_ref().unwrap().clone()
}

/// A path resolved against the project root: joined to it when a root is
/// set, unchanged otherwise.
pub fn get_full_path(fs: &FsRoot, file_path: String) -> (r: String)
    ensures
        r@ == (match fs.spec_root() {
            Some(root) => joined_path(root, file_path@),
            None => file_path@,
        }),
{
    match &fs.root {
        Some(root_path) => path_join(root_path.as_str(), file_path.as_str()),
        None => file_path,
    }
}

} // verus!
