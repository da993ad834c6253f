//! The control-file view of the session: one root directory holding one
//! regular file, whose reads return the result buffer and whose writes are
//! commands. These functions decide each filesystem event; the mounting
//! layer only carries their answers.
use vstd::prelude::*;
use crate::command::{Command, command_of, parse_command};
use crate::response::ResultBuffer;

verus! {

/// Inode of the root directory.
pub const ROOT_INO: u64 = 1;

/// Inode of the control file.
pub const FILE_INO: u64 = 2;

/// Block size reported for both nodes.
pub const BLOCK_SIZE: u32 = 512;

/// The control file's name, `mcfrier`, as bytes.
pub open spec fn file_name() -> Seq<u8> {
    seq![109u8, 99u8, 102u8, 114u8, 105u8, 101u8, 114u8]
}

/// A filesystem-level failure.
#[derive(Clone, Copy, Debug, PartialEq, Eq, Structural)]
pub enum FsError {
    /// No such node.
    NotFound,
    /// The write held no command.
    Io,
}

/// The kind of a node.
#[derive(Clone, Copy, Debug, PartialEq, Eq, Structural)]
pub enum NodeKind {
    Directory,
    RegularFile,
}

/// The attributes reported for a node; all times are the epoch.
#[derive(Clone, Copy, Debug, PartialEq, Eq, Structural)]
pub struct NodeAttr {
    pub ino: u64,
    pub size: u64,
    pub blocks: u64,
    pub kind: NodeKind,
    pub perm: u16,
    pub nlink: u32,
    pub uid: u32,
    pub gid: u32,
    pub blksize: u32,
}

/// One entry of a directory listing.
#[derive(Clone, Debug)]
pub struct DirEntry {
    pub ino: u64,
    pub offset: i64,
    pub kind: NodeKind,
    pub name: Vec<u8>,
}

/// The attributes of directory `ino`, owned by `uid` and `gid`.
pub open spec fn dir_attr_spec(ino: u64, uid: u32, gid: u32) -> NodeAttr {
    NodeAttr {
        ino,
        size: 0,
        blocks: 0,
        kind: NodeKind::Directory,
        perm: 0o755,
        nlink: 2,
        uid,
        gid,
        blksize: BLOCK_SIZE,
    }
}

/// The attributes of regular file `ino` of `size` bytes, owned by `uid` and
/// `gid`.
pub open spec fn file_attr_spec(ino: u64, size: u64, uid: u32, gid: u32) -> NodeAttr {
    NodeAttr {
        ino,
        size,
        blocks: 1,
        kind: NodeKind::RegularFile,
        perm: 0o666,
        nlink: 1,
        uid,
        gid,
        blksize: BLOCK_SIZE,
    }
}

/// The attributes of directory `ino`.
pub fn dir_attr(ino: u64, uid: u32, gid: u32) -> (r: NodeAttr)
    ensures
        r == dir_attr_spec(ino, uid, gid),
{
    NodeAttr {
        ino,
        size: 0,
        blocks: 0,
        kind: NodeKind::Directory,
        perm: 0o755,
        nlink: 2,
        uid,
        gid,
        blksize: BLOCK_SIZE,
    }
}

/// The attributes of regular file `ino` of `size` bytes.
pub fn file_attr(ino: u64, size: u64, uid: u32, gid: u32) -> (r: NodeAttr)
    ensures
        r == file_attr_spec(ino, size, uid, gid),
{
    NodeAttr {
        ino,
        size,
        blocks: 1,
        kind: NodeKind::RegularFile,
        perm: 0o666,
        nlink: 1,
        uid,
        gid,
        blksize: BLOCK_SIZE,
    }
}

fn is_file_name(name: &[u8]) -> (r: bool)
    ensures
        r == (name@ == file_name()),
{
    // "mcfrier"
    let expected: Vec<u8> = vec![109u8, 99u8, 102u8, 114u8, 105u8, 101u8, 114u8];
    assert(expected@ == file_name());
    if name.len() != expected.len() {
        return false;
    }
    let mut i: usize = 0;
    while i < name.len()
        invariant
            name@.len() == expected@.len(),
            expected@ == file_name(),
            i <= name@.len(),
            forall|k: int| 0 <= k < i ==> name@[k] == expected@[k],
        decreases name@.len() - i,
    {
        if name[i] != expected[i] {
            assert(name@[i as int] != file_name()[i as int]);
            return false;
        }
        i = i + 1;
    }
    assert(name@ =~= expected@);
    true
}

/// Looks up `name` in directory `parent`: only the control file in the root
/// exists, with the result buffer's length `size` as its size.
pub fn lookup_entry(parent: u64, name: &[u8], size: u64, uid: u32, gid: u32) -> (r: Result<
    NodeAttr,
    FsError,
>)
    ensures
        r == (if parent == ROOT_INO && name@ == file_name() {
            Ok::<NodeAttr, FsError>(file_attr_spec(FILE_INO, size, uid, gid))
        } else {
            Err::<NodeAttr, FsError>(FsError::NotFound)
        }),
{
    if parent == ROOT_INO && is_file_name(name) {
        Ok(file_attr(FILE_INO, size, uid, gid))
    } else {
        Err(FsError::NotFound)
    }
}

/// The attributes of node `ino`; `size` is the result buffer's length.
pub fn node_attr(ino: u64, size: u64, uid: u32, gid: u32) -> (r: Result<NodeAttr, FsError>)
    ensures
        r == (if ino == ROOT_INO {
            Ok::<NodeAttr, FsError>(dir_attr_spec(ROOT_INO, uid, gid))
        } else if ino == FILE_INO {
            Ok::<NodeAttr, FsError>(file_attr_spec(FILE_INO, size, uid, gid))
        } else {
            Err::<NodeAttr, FsError>(FsError::NotFound)
        }),
{
    if ino == ROOT_INO {
        Ok(dir_attr(ROOT_INO, uid, gid))
    } else if ino == FILE_INO {
        Ok(file_attr(FILE_INO, size, uid, gid))
    } else {
        Err(FsError::NotFound)
    }
}

/// Open flags of the control file: direct I/O, so that every read reaches
/// the buffer.
pub const OPEN_DIRECT_IO: u32 = 1;

/// Opens node `ino`: the control file always opens, with handle 0.
pub fn open_node(ino: u64) -> (r: Result<(u64, u32), FsError>)
    ensures
        r == (if ino == FILE_INO {
            Ok::<(u64, u32), FsError>((0u64, OPEN_DIRECT_IO))
        } else {
            Err::<(u64, u32), FsError>(FsError::NotFound)
        }),
{
    if ino == FILE_INO {
        Ok((0, OPEN_DIRECT_IO))
    } else {
        Err(FsError::NotFound)
    }
}

/// Reads node `ino` from `offset`: the control file yields the buffer's
/// bytes from there on, none at or past the end.
pub fn read_node(ino: u64, buffer: &ResultBuffer, offset: i64) -> (r: Result<Vec<u8>, FsError>)
    ensures
        ino != FILE_INO ==> r == Err::<Vec<u8>, FsError>(FsError::NotFound),
        ino == FILE_INO ==> r is Ok && r->Ok_0@ == (if (offset as u64) < buffer@.len() {
            buffer@.subrange(offset as u64 as int, buffer@.len() as int)
        } else {
            Seq::<u8>::empty()
        }),
{
    if ino == FILE_INO {
        Ok(buffer.read_at(offset))
    } else {
        Err(FsError::NotFound)
    }
}

/// The command that a write of `data` to node `ino` carries: none for
/// another node, nor for a payload with no word.
pub fn write_command(ino: u64, data: &[u8]) -> (r: Result<Command, FsError>)
    ensures
        r == (if ino != FILE_INO {
            Err::<Command, FsError>(FsError::NotFound)
        } else {
            match command_of(data@) {
                Ok(c) => Ok::<Command, FsError>(c),
                Err(_) => Err::<Command, FsError>(FsError::Io),
            }
        }),
{
    if ino != FILE_INO {
        return Err(FsError::NotFound);
    }
    match parse_command(data) {
        Ok(c) => Ok(c),
        Err(_) => Err(FsError::Io),
    }
}

/// The listing of the root from `offset`: self, parent and the control
/// file at offset 0, nothing after.
pub open spec fn listing_spec(offset: i64) -> Seq<(u64, i64, NodeKind, Seq<u8>)> {
    if offset == 0 {
        seq![
            (ROOT_INO, 0i64, NodeKind::Directory, seq![46u8]),
            (ROOT_INO, 1i64, NodeKind::Directory, seq![46u8, 46u8]),
            (FILE_INO, 2i64, NodeKind::RegularFile, file_name()),
        ]
    } else {
        Seq::empty()
    }
}

/// What `entries` say, as plain values.
pub open spec fn entries_view(entries: Seq<DirEntry>) -> Seq<(u64, i64, NodeKind, Seq<u8>)> {
    entries.map_values(|e: DirEntry| (e.ino, e.offset, e.kind, e.name@))
}

/// Lists directory `ino` from `offset`; only the root is a directory.
pub fn list_dir(ino: u64, offset: i64) -> (r: Result<Vec<DirEntry>, FsError>)
    ensures
        ino != ROOT_INO ==> r == Err::<Vec<DirEntry>, FsError>(FsError::NotFound),
        ino == ROOT_INO ==> r is Ok && entries_view(r->Ok_0@) == listing_spec(offset),
{
    if ino != ROOT_INO {
        return Err(FsError::NotFound);
    }
    let mut entries: Vec<DirEntry> = Vec::new();
    if offset == 0 {
        // ".", ".." and "mcfrier"
        entries.push(DirEntry { ino: ROOT_INO, offset: 0, kind: NodeKind::Directory, name: vec![46u8] });
        entries.push(
            DirEntry { ino: ROOT_INO, offset: 1, kind: NodeKind::Directory, name: vec![46u8, 46u8] },
        );
        let name: Vec<u8> = vec![109u8, 99u8, 102u8, 114u8, 105u8, 101u8, 114u8];
        entries.push(DirEntry { ino: FILE_INO, offset: 2, kind: NodeKind::RegularFile, name });
    }
    proof {
        if offset == 0 {
            assert(entries@[0].name@ =~= seq![46u8]);
            assert(entries@[1].name@ =~= seq![46u8, 46u8]);
            assert(entries@[2].name@ =~= file_name());
        }
    }
    assert(entries_view(entries@) =~= listing_spec(offset));
    Ok(entries)
}

} // verus!
