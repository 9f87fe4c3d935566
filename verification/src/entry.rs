use vstd::prelude::*;

verus! {

/// The type of one directory item. A symlink is reported as such even when
/// its target is a directory; the walker never follows symlinks.
#[derive(Clone, Copy, Debug, PartialEq, Eq, Structural)]
pub enum EntryKind {
    File,
    Directory,
    Symlink,
}

/// A name is hidden when its first character is `.`.
pub open spec fn spec_is_hidden(name: Seq<char>) -> bool {
    name.len() > 0 && name[0] == '.'
}

/// Immutable snapshot of one directory item: its name, its path as seen from
/// the traversal root, and its type.
#[derive(Debug)]
pub struct Entry {
    pub file_name: String,
    pub path: String,
    pub ty: EntryKind,
}

impl Entry {
    pub fn new(file_name: String, path: String, ty: EntryKind) -> (r: Entry)
        ensures
            r.file_name == file_name,
            r.path == path,
            r.ty == ty,
    {
        Entry { file_name, path, ty }
    }

    pub fn file_name(&self) -> (r: &String)
        ensures
            r == &self.file_name,
    {
        &self.file_name
    }

    pub fn file_type(&self) -> (r: EntryKind)
        ensures
            r == self.ty,
    {
        self.ty
    }

    pub fn path(&self) -> (r: &String)
        ensures
            r == &self.path,
    {
        &self.path
    }

    pub fn is_hidden(&self) -> (r: bool)
        ensures
            r == spec_is_hidden(self.file_name@),
    {
        let n = self.file_name.as_str();
        n.unicode_len() > 0 && n.get_char(0) == '.'
    }

    pub fn into_path(self) -> (r: String)
        ensures
            r == self.path,
    {
        self.path
    }
}

} // verus!
