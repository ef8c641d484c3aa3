use vstd::prelude::*;

use crate::libmount::error::AllocationError;

verus! {

/// One row of mount state, as a mathematical value.
pub ghost struct MountEntry {
    pub id: int,
    pub source: Option<Seq<char>>,
    pub root: Option<Seq<char>>,
    pub bindsrc: Option<Seq<char>>,
    pub target: Option<Seq<char>>,
    pub fstype: Option<Seq<char>>,
    pub options: Option<Seq<char>>,
}

impl MountEntry {
    /// The row in which every field is absent.
    pub open spec fn empty() -> MountEntry {
        MountEntry {
            id: 0,
            source: None,
            root: None,
            bindsrc: None,
            target: None,
            fstype: None,
            options: None,
        }
    }
}

/// What an optional string holds.
pub open spec fn text_view(text: Option<String>) -> Option<Seq<char>> {
    match text {
        Some(s) => Some(s@),
        None => None,
    }
}

pub(crate) fn text_clone(text: &Option<String>) -> (r: Option<String>)
    ensures
        r == *text,
{
    match text {
        Some(s) => Some(s.clone()),
        None => None,
    }
}

pub(crate) fn text_eq(a: &Option<String>, b: &Option<String>) -> (r: bool)
    ensures
        r == (text_view(*a) == text_view(*b)),
{
    match (a, b) {
        (Some(x), Some(y)) => *x == *y,
        (None, None) => true,
        _ => false,
    }
}

pub(crate) fn text_from(text: &str) -> (r: Option<String>)
    ensures
        text_view(r) == Some(text@),
{
    Some(text.to_owned())
}

/// One row of a mount table: what is mounted, where, and how. A row is
/// never changed once a table holds it. The root, the directory of a bind
/// mount and the mount point are what handlers mostly ask for; the source,
/// the options and the identifier are what two tables are compared by.
#[derive(Debug, PartialEq, Eq)]
pub struct FileSystem {
    id: i32,
    source: Option<String>,
    root: Option<String>,
    bindsrc: Option<String>,
    target: Option<String>,
    fstype: Option<String>,
    options: Option<String>,
}

impl View for FileSystem {
    type V = MountEntry;

    closed spec fn view(&self) -> MountEntry {
        MountEntry {
            id: self.id as int,
            source: text_view(self.source),
            root: text_view(self.root),
            bindsrc: text_view(self.bindsrc),
            target: text_view(self.target),
            fstype: text_view(self.fstype),
            options: text_view(self.options),
        }
    }
}

impl Clone for FileSystem {
    fn clone(&self) -> (r: Self)
        ensures
            r == *self,
    {
        FileSystem {
            id: self.id,
            source: text_clone(&self.source),
            root: text_clone(&self.root),
            bindsrc: text_clone(&self.bindsrc),
            target: text_clone(&self.target),
            fstype: text_clone(&self.fstype),
            options: text_clone(&self.options),
        }
    }
}

impl Default for FileSystem {
    fn default() -> (r: Self)
        ensures
            r@ == MountEntry::empty(),
    {
        FileSystem {
            id: 0,
            source: None,
            root: None,
            bindsrc: None,
            target: None,
            fstype: None,
            options: None,
        }
    }
}

impl FileSystem {
    /// A row in which every field is absent.
    pub fn new() -> (r: Result<Self, AllocationError<Self>>)
        ensures
            r is Ok,
            r->Ok_0@ == MountEntry::empty(),
    {
        Ok(FileSystem::default())
    }

    pub fn with_id(self, id: i32) -> (r: Self)
        ensures
            r@ == (MountEntry { id: id as int, ..self@ }),
    {
        FileSystem { id, ..self }
    }

    pub fn with_source(self, source: &str) -> (r: Self)
        ensures
            r@ == (MountEntry { source: Some(source@), ..self@ }),
    {
        FileSystem { source: text_from(source), ..self }
    }

    pub fn with_root(self, root: &str) -> (r: Self)
        ensures
            r@ == (MountEntry { root: Some(root@), ..self@ }),
    {
        FileSystem { root: text_from(root), ..self }
    }

    pub fn with_bindsrc(self, bindsrc: &str) -> (r: Self)
        ensures
            r@ == (MountEntry { bindsrc: Some(bindsrc@), ..self@ }),
    {
        FileSystem { bindsrc: text_from(bindsrc), ..self }
    }

    pub fn with_target(self, target: &str) -> (r: Self)
        ensures
            r@ == (MountEntry { target: Some(target@), ..self@ }),
    {
        FileSystem { target: text_from(target), ..self }
    }

    pub fn with_fstype(self, fstype: &str) -> (r: Self)
        ensures
            r@ == (MountEntry { fstype: Some(fstype@), ..self@ }),
    {
        FileSystem { fstype: text_from(fstype), ..self }
    }

    pub fn with_options(self, options: &str) -> (r: Self)
        ensures
            r@ == (MountEntry { options: Some(options@), ..self@ }),
    {
        FileSystem { options: text_from(options), ..self }
    }

    /// The identifier that the kernel gave the mount; 0 where the table
    /// carries none.
    pub fn id(&self) -> (r: i32)
        ensures
            r as int == self@.id,
    {
        self.id
    }

    /// The device, or whatever else is mounted.
    pub fn source(&self) -> (r: Option<&String>)
        ensures
            text_ref_view(r) == self@.source,
    {
        self.source.as_ref()
    }

    /// The directory of the mounted filesystem that serves as the root of
    /// the mount.
    pub fn root(&self) -> (r: Option<&String>)
        ensures
            text_ref_view(r) == self@.root,
    {
        self.root.as_ref()
    }

    /// The directory that a bind mount was made from.
    pub fn bindsrc(&self) -> (r: Option<&String>)
        ensures
            text_ref_view(r) == self@.bindsrc,
    {
        self.bindsrc.as_ref()
    }

    /// The mount point.
    pub fn target(&self) -> (r: Option<&String>)
        ensures
            text_ref_view(r) == self@.target,
    {
        self.target.as_ref()
    }

    /// The type of the filesystem.
    pub fn fstype(&self) -> (r: Option<&String>)
        ensures
            text_ref_view(r) == self@.fstype,
    {
        self.fstype.as_ref()
    }

    /// The options of the mount.
    pub fn options(&self) -> (r: Option<&String>)
        ensures
            text_ref_view(r) == self@.options,
    {
        self.options.as_ref()
    }

    /// Whether two rows stand for the same mount: the same source at the
    /// same mount point.
    pub fn paired(&self, other: &FileSystem) -> (r: bool)
        ensures
            r == spec_paired(self@, other@),
    {
        text_eq(&self.source, &other.source) && text_eq(&self.target, &other.target)
    }

    /// Whether two rows stand for the same mount with the same options.
    pub fn unchanged(&self, other: &FileSystem) -> (r: bool)
        ensures
            r == spec_unchanged(self@, other@),
    {
        self.paired(other) && text_eq(&self.options, &other.options)
    }

    /// Whether two rows may be one mount that was moved: the same source
    /// under the same identifier.
    pub fn relocated(&self, other: &FileSystem) -> (r: bool)
        ensures
            r == spec_relocated(self@, other@),
    {
        self.id == other.id && text_eq(&self.source, &other.source)
    }
}

/// What an optional borrowed string holds.
pub open spec fn text_ref_view(text: Option<&String>) -> Option<Seq<char>> {
    match text {
        Some(s) => Some(s@),
        None => None,
    }
}

/// Whether two rows stand for the same mount: the same source at the same
/// mount point. Absent fields are equal to each other.
pub open spec fn spec_paired(a: MountEntry, b: MountEntry) -> bool {
    a.source == b.source && a.target == b.target
}

/// Whether two rows stand for the same mount with the same options.
pub open spec fn spec_unchanged(a: MountEntry, b: MountEntry) -> bool {
    spec_paired(a, b) && a.options == b.options
}

/// Whether two rows may be one mount at two places: the same source under
/// the same identifier.
pub open spec fn spec_relocated(a: MountEntry, b: MountEntry) -> bool {
    a.id == b.id && a.source == b.source
}

} // verus!
