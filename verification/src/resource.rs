//! Resources of a project: the handle of a resource, the map from guids to
//! resource files, the meta data kept beside each file, and the decisions of
//! the walk through the project folder that fills the map.

use std::marker::PhantomData;
use std::sync::Arc;
use vstd::hash_map::StringHashMap;
use vstd::prelude::*;

use crate::fs::ReadDir;

verus! {

/// A resource: its guid and the path of its file.
pub struct ResourceHandle {
    pub key: String,
    pub path: String,
}

impl ResourceHandle {
    pub fn new(key: String, path: String) -> (r: ResourceHandle)
        ensures
            r.key == key,
            r.path == path,
    {
        ResourceHandle { key, path }
    }
}

/// A typed reference to a resource by its guid.
pub struct Handle<T> {
    guid: String,
    marker: PhantomData<T>,
}

/// Whether a character is a lower-case hexadecimal digit.
pub open spec fn is_lower_hex(c: char) -> bool {
    ('0' <= c && c <= '9') || ('a' <= c && c <= 'f')
}

/// The text of a random (version 4) uuid in hyphenated lower-case form:
/// 36 characters, dashes at 8, 13, 18 and 23, the version digit `4` at 14,
/// hexadecimal digits elsewhere.
pub open spec fn is_v4_uuid_text(s: Seq<char>) -> bool {
    &&& s.len() == 36
    &&& forall|i: int| 0 <= i < 36 ==> (if i == 8 || i == 13 || i == 18 || i == 23 {
        #[trigger] s[i] == '-'
    } else {
        is_lower_hex(s[i])
    })
    &&& s[14] == '4'
}

/// Calls `uuid::Uuid::new_v4` and formats it with `to_string`. The uuid is
/// random (drawn from the operating system through `getrandom`, which panics
/// if no randomness can be had); its `Display` form is the hyphenated
/// lower-case text, and a version 4 uuid has `4` as its version digit.
#[verifier::external_body]
fn new_v4_uuid_string() -> (s: String)
    ensures
        is_v4_uuid_text(s@),
{
    uuid::Uuid::new_v4().to_string()
}

/// The contents of a resource's meta file.
pub struct MetaData {
    pub guid: String,
}

impl Default for MetaData {
    /// Meta data with a fresh random guid.
    fn default() -> (r: MetaData)
        ensures
            is_v4_uuid_text(r.guid@),
    {
        MetaData { guid: new_v4_uuid_string() }
    }
}

/// The suffix of meta files.
pub open spec fn meta_suffix() -> Seq<char> {
    seq!['.', 'm', 'e', 't', 'a']
}

/// A file of the project folder is a resource unless it is a meta file, a
/// hidden file, or the folder listing `files.json`.
pub open spec fn is_resource_file_name_spec(name: Seq<char>) -> bool {
    &&& !(name.len() >= 5 && name.subrange(name.len() - 5, name.len() as int) == meta_suffix())
    &&& !(name.len() >= 1 && name[0] == '.')
    &&& name != "files.json"@
}

/// Every file of the project folder is a resource except meta files, hidden
/// files and the folder listing: a name is a resource name exactly when it
/// does not end in ".meta", does not start with '.', and is not "files.json".
pub proof fn lemma_resource_file_names(name: Seq<char>)
    ensures
        is_resource_file_name_spec(name) <==> {
            &&& !(name.len() >= 5 && name.skip(name.len() - 5) == ".meta"@)
            &&& !(name.len() > 0 && name.first() == '.')
            &&& name != "files.json"@
        },
{
    reveal_strlit(".meta");
    if name.len() >= 5 {
        assert(name.skip(name.len() - 5) =~= name.subrange(name.len() - 5, name.len() as int));
        assert(".meta"@ =~= meta_suffix());
    }
}

/// Whether a file name names a resource (see `is_resource_file_name_spec`).
pub fn is_resource_file_name(name: &str) -> (r: bool)
    ensures
        r == is_resource_file_name_spec(name@),
        r <==> {
            &&& !(name@.len() >= 5 && name@.skip(name@.len() - 5) == ".meta"@)
            &&& !(name@.len() > 0 && name@.first() == '.')
            &&& name@ != "files.json"@
        },
{
    proof {
        lemma_resource_file_names(name@);
    }
    let n = name.unicode_len();
    let ends_with_meta = if n >= 5 {
        let a = name.get_char(n - 5);
        let b = name.get_char(n - 4);
        let c = name.get_char(n - 3);
        let d = name.get_char(n - 2);
        let e = name.get_char(n - 1);
        proof {
            let tail = name@.subrange(n - 5, n as int);
            if tail == meta_suffix() {
                assert(tail[0] == name@[n - 5]);
                assert(tail[1] == name@[n - 4]);
                assert(tail[2] == name@[n - 3]);
                assert(tail[3] == name@[n - 2]);
                assert(tail[4] == name@[n - 1]);
            }
            if a == '.' && b == 'm' && c == 'e' && d == 't' && e == 'a' {
                assert(tail =~= meta_suffix());
            }
        }
        a == '.' && b == 'm' && c == 'e' && d == 't' && e == 'a'
    } else {
        false
    };
    let hidden = n >= 1 && name.get_char(0) == '.';
    let listing = String::from_str("files.json");
    let is_listing = listing == String::from_str(name);
    !ends_with_meta && !hidden && !is_listing
}

/// The path of the meta file of the file at `file_path`.
pub fn meta_file_path(file_path: &str) -> (r: String)
    ensures
        r@ == file_path@ + ".meta"@,
{
    String::from_str(file_path).concat(".meta")
}

/// The map from resource guids to resource handles; every handle is stored
/// under its own guid.
pub struct ResourceManager {
    guid_to_filepath: StringHashMap<Arc<ResourceHandle>>,
}

impl ResourceManager {
    /// Every handle is stored under its own guid.
    #[verifier::type_invariant]
    closed spec fn keyed_by_own_guid(&self) -> bool {
        forall|g: Seq<char>| #[trigger] self.guid_to_filepath@.dom().contains(g) ==> self.guid_to_filepath@[g].key@ == g
    }

    /// For each guid, the guid and path of the handle it maps to.
    pub closed spec fn resources(&self) -> Map<Seq<char>, (Seq<char>, Seq<char>)> {
        self.guid_to_filepath@.map_values(|h: Arc<ResourceHandle>| (h.key@, h.path@))
    }

    /// The handle a guid maps to.
    pub closed spec fn handle_of(&self, guid: Seq<char>) -> ResourceHandle {
        *self.guid_to_filepath@[guid]
    }

    /// A mapped guid's handle is the one `resources` describes.
    pub proof fn lemma_handle_of(&self, guid: Seq<char>)
        requires
            self.resources().dom().contains(guid),
        ensures
            (self.handle_of(guid).key@, self.handle_of(guid).path@) == self.resources()[guid],
    {
    }

    /// A copy of the handle `guid` maps to.
    pub fn copy_handle(&self, guid: &String) -> (r: ResourceHandle)
        requires
            self.resources().dom().contains(guid@),
        ensures
            r == self.handle_of(guid@),
            r.key@ == guid@,
    {
        proof {
            use_type_invariant(self);
        }
        let h = self.guid_to_filepath.get(guid.as_str()).unwrap();
        ResourceHandle::new(h.key.clone(), h.path.clone())
    }

    /// An empty map.
    pub fn new() -> (r: ResourceManager)
        ensures
            r.resources() == Map::<Seq<char>, (Seq<char>, Seq<char>)>::empty(),
    {
        let r = ResourceManager { guid_to_filepath: StringHashMap::new() };
        assert(r.resources() =~= Map::<Seq<char>, (Seq<char>, Seq<char>)>::empty());
        r
    }

    /// Maps `guid` to a handle with that guid and `path`, replacing any
    /// handle the guid had.
    pub fn insert_resource(&mut self, guid: String, path: String)
        ensures
            final(self).resources() == old(self).resources().insert(guid@, (guid@, path@)),
    {
        proof {
            use_type_invariant(&*self);
        }
        let handle = ResourceHandle::new(guid.clone(), path);
        let mut map = StringHashMap::new();
        std::mem::swap(&mut map, &mut self.guid_to_filepath);
        map.insert(guid, Arc::new(handle));
        std::mem::swap(&mut map, &mut self.guid_to_filepath);
        assert(self.resources() =~= old(self).resources().insert(guid@, (guid@, path@)));
    }

    /// The handle of the resource with guid `key`, if any.
    pub fn get_resource(&self, key: String) -> (r: Option<&Arc<ResourceHandle>>)
        ensures
            match r {
                Some(h) => self.resources().dom().contains(key@) && (h.key@, h.path@) == self.resources()[key@],
                None => !self.resources().dom().contains(key@),
            },
            r matches Some(h) ==> h.key@ == key@,
    {
        proof {
            use_type_invariant(self);
        }
        self.guid_to_filepath.get(key.as_str())
    }
}

/// Looking a guid up after it was inserted gives the handle inserted for it;
/// other guids keep their handles.
pub proof fn lemma_get_after_insert(
    resources: Map<Seq<char>, (Seq<char>, Seq<char>)>,
    guid: Seq<char>,
    path: Seq<char>,
    other: Seq<char>,
)
    ensures
        resources.insert(guid, (guid, path)).dom().contains(guid),
        resources.insert(guid, (guid, path))[guid] == (guid, path),
        other != guid ==> resources.insert(guid, (guid, path)).dom().contains(other) == resources.dom().contains(
            other,
        ),
        other != guid && resources.dom().contains(other) ==> resources.insert(guid, (guid, path))[other]
            == resources[other],
{
}

/// Meta files and hidden files are never resources.
pub proof fn lemma_meta_and_hidden_files_are_not_resources(name: Seq<char>)
    ensures
        name.len() >= 5 && name.subrange(name.len() - 5, name.len() as int) == meta_suffix()
            ==> !is_resource_file_name_spec(name),
        name.len() >= 1 && name[0] == '.' ==> !is_resource_file_name_spec(name),
        !is_resource_file_name_spec("files.json"@),
{
}

/// What the walk through the project folder does with one directory entry.
pub enum EntryAction {
    /// Not a resource file: nothing to register.
    Skip,
    /// A resource file: read (creating it first when missing) the meta file
    /// at `meta_path`, then register its guid for `path`.
    Register { path: String, meta_path: String },
}

/// The state of the walk through the project folder: the directories still
/// to read (the last one is read next) and the resources found so far.
pub struct ResourceScan {
    traversal_stack: Vec<String>,
    found: ResourceManager,
}

impl ResourceScan {
    /// The directories still to read; the last is read next.
    pub closed spec fn pending(&self) -> Seq<Seq<char>> {
        self.traversal_stack@.map_values(|d: String| d@)
    }

    /// The resources registered so far.
    pub closed spec fn found(&self) -> Map<Seq<char>, (Seq<char>, Seq<char>)> {
        self.found.resources()
    }

    /// A walk that starts at the project root with no resource found.
    pub fn start(project_root: String) -> (r: ResourceScan)
        ensures
            r.pending() == seq![project_root@],
            r.found() == Map::<Seq<char>, (Seq<char>, Seq<char>)>::empty(),
    {
        let mut traversal_stack: Vec<String> = Vec::new();
        traversal_stack.push(project_root);
        let r = ResourceScan { traversal_stack, found: ResourceManager::new() };
        assert(r.pending() =~= seq![project_root@]);
        r
    }

    /// The next directory to read, taken off the stack; `None` when the walk
    /// is over.
    pub fn next_directory(&mut self) -> (r: Option<String>)
        ensures
            old(self).pending().len() == 0 ==> r is None && final(self).pending() == old(self).pending(),
            old(self).pending().len() > 0 ==> (r matches Some(d) && d@ == old(self).pending().last()
                && final(self).pending() == old(self).pending().drop_last()),
            final(self).found() == old(self).found(),
    {
        let r = self.traversal_stack.pop();
        proof {
            assert(self.pending() =~= old(self).pending().drop_last() || old(self).pending().len() == 0);
        }
        r
    }

    /// Decides what to do with one entry of the directory being read: a
    /// directory is put on the stack to be read later (most recent first), and
    /// a resource file is to be registered.
    pub fn visit_entry(&mut self, entry: &ReadDir) -> (r: EntryAction)
        ensures
            final(self).pending() == (if entry.spec_is_dir() {
                old(self).pending().push(entry.spec_path())
            } else {
                old(self).pending()
            }),
            final(self).found() == old(self).found(),
            is_resource_file_name_spec(entry.spec_name()) ==> (r matches EntryAction::Register { path, meta_path }
                && path@ == entry.spec_path() && meta_path@ == entry.spec_path() + ".meta"@),
            !is_resource_file_name_spec(entry.spec_name()) ==> r is Skip,
    {
        let file_name = entry.get_name();
        let file_path = entry.get_path();
        let action = if is_resource_file_name(file_name.as_str()) {
            let meta_path = meta_file_path(file_path.as_str());
            EntryAction::Register { path: file_path, meta_path }
        } else {
            EntryAction::Skip
        };
        if entry.is_dir() {
            self.traversal_stack.push(entry.get_path());
            proof {
                assert(self.pending() =~= old(self).pending().push(entry.spec_path()));
            }
        }
        action
    }

    /// Registers the guid read from the meta file of the resource at `path`.
    pub fn register(&mut self, guid: String, path: String)
        ensures
            final(self).found() == old(self).found().insert(guid@, (guid@, path@)),
            final(self).pending() == old(self).pending(),
    {
        self.found.insert_resource(guid, path);
    }

    /// The resources found, once the walk is over.
    pub fn finish(self) -> (r: ResourceManager)
        ensures
            r.resources() == self.found(),
    {
        self.found
    }
}

} // verus!
