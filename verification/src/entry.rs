use vstd::prelude::*;

verus! {

/// The kind of a logical item inside an archive.
///
/// `Other` covers container-specific entry types (hard links, devices,
/// fifos, extension records) that this pipeline does not materialize.
#[derive(Clone, Copy, PartialEq, Eq, Structural, Debug)]
pub enum EntryKind {
    File,
    Directory,
    Symlink,
    Other,
}

/// One decoded archive entry: its declared path as raw bytes (untrusted),
/// the container's type byte for it, for symlinks the recorded target,
/// and for files the content.
#[derive(Debug)]
pub struct RawEntry {
    pub path: Vec<u8>,
    pub type_byte: u8,
    pub mode: u32,
    pub link: Option<Vec<u8>>,
    pub data: Vec<u8>,
}

/// The mathematical model of a `RawEntry`.
pub struct EntryData {
    pub path: Seq<u8>,
    pub type_byte: u8,
    pub mode: u32,
    pub link: Option<Seq<u8>>,
    pub data: Seq<u8>,
}

/// The kind a tar type byte declares: `0` is a regular file, `5` a
/// directory, `2` a symbolic link; every other byte is a kind this
/// pipeline does not materialize.
pub open spec fn kind_of_byte(b: u8) -> EntryKind {
    if b == 48u8 {
        EntryKind::File
    } else if b == 53u8 {
        EntryKind::Directory
    } else if b == 50u8 {
        EntryKind::Symlink
    } else {
        EntryKind::Other
    }
}

/// Classify a tar type byte.
pub fn entry_kind(b: u8) -> (k: EntryKind)
    ensures
        k == kind_of_byte(b),
{
    if b == 48u8 {
        EntryKind::File
    } else if b == 53u8 {
        EntryKind::Directory
    } else if b == 50u8 {
        EntryKind::Symlink
    } else {
        EntryKind::Other
    }
}

impl View for RawEntry {
    type V = EntryData;

    open spec fn view(&self) -> EntryData {
        EntryData {
            path: self.path@,
            type_byte: self.type_byte,
            mode: self.mode,
            link: self.link.deep_view(),
            data: self.data@,
        }
    }
}

/// One write the extraction pipeline has decided on: materialize `kind`
/// at the relative output path `path` (a component sequence) under the
/// output root, with the entry's Unix permission bits.
#[derive(Debug)]
pub struct Action {
    pub path: Vec<Vec<u8>>,
    pub kind: EntryKind,
    pub mode: u32,
    pub link: Option<Vec<u8>>,
    pub data: Vec<u8>,
}

/// The mathematical model of an `Action`.
pub struct ActionData {
    pub path: Seq<Seq<u8>>,
    pub kind: EntryKind,
    pub mode: u32,
    pub link: Option<Seq<u8>>,
    pub data: Seq<u8>,
}

impl View for Action {
    type V = ActionData;

    open spec fn view(&self) -> ActionData {
        ActionData {
            path: self.path.deep_view(),
            kind: self.kind,
            mode: self.mode,
            link: self.link.deep_view(),
            data: self.data@,
        }
    }
}

impl Action {
    /// The relative output path of this action as bytes, with `/`
    /// separators.
    pub fn rel_path(&self) -> (r: Vec<u8>)
        ensures
            r@ == crate::paths::join_path(self@.path),
    {
        crate::paths::join_path_exec(&self.path)
    }
}

} // verus!
