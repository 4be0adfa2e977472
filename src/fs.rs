//! File-system metadata and open options for a platform whose SDK offers
//! flat files only: no directories listing, links or permissions.
use vstd::prelude::*;

verus! {

/// Errors reported by the file-system layer.
#[derive(Clone, Copy, Debug, PartialEq, Eq, Structural)]
pub enum FsError {
    /// The platform offers no such operation.
    Unsupported,
    /// An argument was out of range (a seek before the start of the file).
    InvalidInput,
    /// The SDK handed back no file.
    NotFound,
    /// A raw error code of the SDK.
    Os(i32),
}

/// A point in time, as seconds and nanoseconds after the Unix epoch.
#[derive(Clone, Copy, Debug, PartialEq, Eq, Structural)]
pub struct SystemTime {
    pub secs: u64,
    pub nanos: u32,
}

impl SystemTime {
    /// The Unix epoch itself.
    pub fn unix_epoch() -> (r: SystemTime)
        ensures
            r.secs == 0 && r.nanos == 0,
    {
        SystemTime { secs: 0, nanos: 0 }
    }
}

/// The kinds of entries the platform knows.
#[derive(Clone, Copy, Debug, PartialEq, Eq, Structural, Hash)]
pub enum FileType {
    Dir,
    File,
}

impl FileType {
    pub fn is_dir(&self) -> (r: bool)
        ensures
            r == (*self == FileType::Dir),
    {
        match self {
            FileType::Dir => true,
            FileType::File => false,
        }
    }

    pub fn is_file(&self) -> (r: bool)
        ensures
            r == (*self == FileType::File),
    {
        match self {
            FileType::Dir => false,
            FileType::File => true,
        }
    }

    /// There are no symbolic links on this platform.
    pub fn is_symlink(&self) -> (r: bool)
        ensures
            !r,
    {
        false
    }
}

/// The entry type code of the SDK: 0 for a directory, 1 for a file.
pub open spec fn entry_type_of(code: u32) -> FileType {
    if code == 0 {
        FileType::Dir
    } else {
        FileType::File
    }
}

/// Maps the SDK's entry type code to a `FileType`; other codes are not entry types.
pub fn file_type_of_entry(code: u32) -> (r: FileType)
    requires
        code < 2,
    ensures
        r == entry_type_of(code),
{
    if code == 0 {
        FileType::Dir
    } else {
        FileType::File
    }
}

/// Permissions: the platform knows only the read-only flag.
#[derive(Clone, Copy, Debug, PartialEq, Eq, Structural)]
pub struct FilePermissions {
    read_only: bool,
}

impl FilePermissions {
    pub closed spec fn spec_readonly(&self) -> bool {
        self.read_only
    }

    pub fn readonly(&self) -> (r: bool)
        ensures
            r == self.spec_readonly(),
    {
        self.read_only
    }

    pub fn set_readonly(&mut self, readonly: bool)
        ensures
            final(self).spec_readonly() == readonly,
    {
        self.read_only = readonly;
    }
}

/// Metadata of an open file: its size and its kind.
#[derive(Clone, Copy, Debug)]
pub struct FileAttr {
    size: u64,
    file_type: FileType,
}

impl FileAttr {
    pub closed spec fn spec_size(&self) -> u64 {
        self.size
    }

    pub closed spec fn spec_file_type(&self) -> FileType {
        self.file_type
    }

    pub fn new(size: u64, file_type: FileType) -> (r: FileAttr)
        ensures
            r.spec_size() == size,
            r.spec_file_type() == file_type,
    {
        FileAttr { size, file_type }
    }

    pub fn size(&self) -> (r: u64)
        ensures
            r == self.spec_size(),
    {
        self.size
    }

    pub fn set_size(&mut self, size: u64)
        ensures
            final(self).spec_size() == size,
            final(self).spec_file_type() == old(self).spec_file_type(),
    {
        self.size = size;
    }

    /// Files are never read-only here.
    pub fn perm(&self) -> (r: FilePermissions)
        ensures
            !r.spec_readonly(),
    {
        FilePermissions { read_only: false }
    }

    pub fn file_type(&self) -> (r: FileType)
        ensures
            r == self.spec_file_type(),
    {
        self.file_type
    }

    /// The platform keeps no times: every file reports the epoch.
    pub fn modified(&self) -> (r: Result<SystemTime, FsError>)
        ensures
            r == Ok::<SystemTime, FsError>(SystemTime { secs: 0, nanos: 0 }),
    {
        Ok(SystemTime::unix_epoch())
    }

    pub fn accessed(&self) -> (r: Result<SystemTime, FsError>)
        ensures
            r == Ok::<SystemTime, FsError>(SystemTime { secs: 0, nanos: 0 }),
    {
        Ok(SystemTime::unix_epoch())
    }

    pub fn created(&self) -> (r: Result<SystemTime, FsError>)
        ensures
            r == Ok::<SystemTime, FsError>(SystemTime { secs: 0, nanos: 0 }),
    {
        Ok(SystemTime::unix_epoch())
    }
}


/// A directory listing. Listing is unsupported, so none is ever built: its
/// invariant cannot be met.
pub struct ReadDir {
    unbuilt: (),
}

impl ReadDir {
    #[verifier::type_invariant]
    spec fn exists_at_all(&self) -> bool {
        false
    }

    pub fn next(&mut self) -> (r: Option<Result<DirEntry, FsError>>) {
        proof {
            use_type_invariant(&*self);
        }
        None
    }
}

/// An entry of a directory listing; never built, like the listing itself.
pub struct DirEntry {
    unbuilt: (),
}

impl DirEntry {
    #[verifier::type_invariant]
    spec fn exists_at_all(&self) -> bool {
        false
    }

    pub fn path(&self) -> (r: String) {
        proof {
            use_type_invariant(self);
        }
        String::new()
    }

    pub fn file_name(&self) -> (r: String) {
        proof {
            use_type_invariant(self);
        }
        String::new()
    }

    pub fn metadata(&self) -> (r: Result<FileAttr, FsError>) {
        proof {
            use_type_invariant(self);
        }
        Err(FsError::Unsupported)
    }

    pub fn file_type(&self) -> (r: Result<FileType, FsError>) {
        proof {
            use_type_invariant(self);
        }
        Err(FsError::Unsupported)
    }
}

pub const READ_MODE: u64 = 1;
pub const WRITE_MODE: u64 = 2;
pub const APPEND_MODE: u64 = 4;

/// Options for opening a file: the SDK's mode flags and whether to truncate.
#[derive(Clone, Copy, Debug, PartialEq, Eq, Structural)]
pub struct OpenOptions {
    flags: u64,
    truncate: bool,
}

/// `flags` with the bits of `mode` set when `on`, cleared otherwise.
pub open spec fn with_mode(flags: u64, mode: u64, on: bool) -> u64 {
    if on {
        flags | mode
    } else {
        flags & !mode
    }
}

impl OpenOptions {
    pub closed spec fn spec_flags(&self) -> u64 {
        self.flags
    }

    pub closed spec fn spec_truncate(&self) -> bool {
        self.truncate
    }

    pub fn new() -> (r: OpenOptions)
        ensures
            r.spec_flags() == 0,
            !r.spec_truncate(),
    {
        OpenOptions { flags: 0, truncate: false }
    }

    /// The mode flags handed to the SDK when the file is opened.
    pub fn flags(&self) -> (r: u64)
        ensures
            r == self.spec_flags(),
    {
        self.flags
    }

    /// Whether the file is cut to length zero once opened.
    pub fn truncates(&self) -> (r: bool)
        ensures
            r == self.spec_truncate(),
    {
        self.truncate
    }

    /// Whether writes start at the end of the file.
    pub fn appends(&self) -> (r: bool)
        ensures
            r == (self.spec_flags() & APPEND_MODE != 0),
    {
        self.flags & APPEND_MODE != 0
    }

    pub fn read(&mut self, read: bool)
        ensures
            final(self).spec_flags() == with_mode(old(self).spec_flags(), READ_MODE, read),
            final(self).spec_truncate() == old(self).spec_truncate(),
    {
        if read {
            self.flags = self.flags | READ_MODE;
        } else {
            self.flags = self.flags & !READ_MODE;
        }
    }

    pub fn write(&mut self, write: bool)
        ensures
            final(self).spec_flags() == with_mode(old(self).spec_flags(), WRITE_MODE, write),
            final(self).spec_truncate() == old(self).spec_truncate(),
    {
        if write {
            self.flags = self.flags | WRITE_MODE;
        } else {
            self.flags = self.flags & !WRITE_MODE;
        }
    }

    pub fn append(&mut self, append: bool)
        ensures
            final(self).spec_flags() == with_mode(old(self).spec_flags(), APPEND_MODE, append),
            final(self).spec_truncate() == old(self).spec_truncate(),
    {
        if append {
            self.flags = self.flags | APPEND_MODE;
        } else {
            self.flags = self.flags & !APPEND_MODE;
        }
    }

    pub fn truncate(&mut self, truncate: bool)
        ensures
            final(self).spec_truncate() == truncate,
            final(self).spec_flags() == old(self).spec_flags(),
    {
        self.truncate = truncate;
    }

    /// Files are created on open as the SDK decides: the option changes nothing.
    pub fn create(&mut self, _create: bool)
        ensures
            *final(self) == *old(self),
    {
    }

    /// Creating a file exclusively is not supported: only turning it off is accepted.
    pub fn create_new(&mut self, create_new: bool)
        requires
            !create_new,
        ensures
            *final(self) == *old(self),
    {
    }
}

/// Builds directories; the platform cannot.
#[derive(Debug)]
pub struct DirBuilder {}

impl DirBuilder {
    pub fn new() -> (r: DirBuilder) {
        DirBuilder {  }
    }

    pub fn mkdir(&self, _p: &str) -> (r: Result<(), FsError>)
        ensures
            r == Err::<(), FsError>(FsError::Unsupported),
    {
        Err(FsError::Unsupported)
    }
}

/// Where a seek starts from.
#[derive(Clone, Copy, Debug, PartialEq, Eq, Structural)]
pub enum SeekFrom {
    Start(u64),
    End(i64),
    Current(i64),
}

/// The position a seek moves to from position `pos` in a file of recorded size
/// `size`, or `None` where the seek is refused. A seek from the end takes a
/// non-positive offset no larger in magnitude than the size, and lands that many
/// bytes past the recorded size.
pub open spec fn seek_target(pos: u64, size: u64, from: SeekFrom) -> Option<int> {
    match from {
        SeekFrom::Start(o) => Some(o as int),
        SeekFrom::Current(o) => {
            let t = pos + o;
            if t < 0 || t > u64::MAX {
                None
            } else {
                Some(t)
            }
        },
        SeekFrom::End(o) => {
            let t = size - o;
            if o > 0 || -o > size || t > u64::MAX {
                None
            } else {
                Some(t)
            }
        },
    }
}

/// What the library keeps of an open file besides the SDK's handle: the
/// position of the next read or write, and the file's metadata.
#[derive(Clone, Copy, Debug)]
pub struct FileState {
    pos: u64,
    attr: FileAttr,
}

impl FileState {
    pub closed spec fn spec_pos(&self) -> u64 {
        self.pos
    }

    pub closed spec fn spec_attr(&self) -> FileAttr {
        self.attr
    }

    /// The state of a file just opened with `opts`, given the size and the entry
    /// type code that the SDK reported: appending files start at their end.
    pub fn opened(size: u64, entry_type: u32, opts: &OpenOptions) -> (r: FileState)
        requires
            entry_type < 2,
        ensures
            r.spec_pos() == (if opts.spec_flags() & APPEND_MODE != 0 { size } else { 0 }),
            r.spec_attr().spec_size() == size,
            r.spec_attr().spec_file_type() == entry_type_of(entry_type),
    {
        let pos: u64 = if opts.appends() {
            size
        } else {
            0
        };
        FileState { pos, attr: FileAttr::new(size, file_type_of_entry(entry_type)) }
    }

    pub fn pos(&self) -> (r: u64)
        ensures
            r == self.spec_pos(),
    {
        self.pos
    }

    pub fn file_attr(&self) -> (r: FileAttr)
        ensures
            r == self.spec_attr(),
    {
        self.attr
    }

    /// Records that the file was cut or extended to `size` bytes.
    pub fn set_len(&mut self, size: u64)
        ensures
            final(self).spec_attr().spec_size() == size,
            final(self).spec_attr().spec_file_type() == old(self).spec_attr().spec_file_type(),
            final(self).spec_pos() == old(self).spec_pos(),
    {
        self.attr.set_size(size);
    }

    /// Records that `n` bytes were read at the current position.
    pub fn after_read(&mut self, n: u64)
        requires
            old(self).spec_pos() + n <= u64::MAX,
        ensures
            final(self).spec_pos() == old(self).spec_pos() + n,
            final(self).spec_attr() == old(self).spec_attr(),
    {
        self.pos = self.pos + n;
    }

    /// Records that `n` bytes were written at the current position: the file
    /// grows where the write went past its end.
    pub fn after_write(&mut self, n: u64)
        requires
            old(self).spec_pos() + n <= u64::MAX,
        ensures
            final(self).spec_pos() == old(self).spec_pos() + n,
            final(self).spec_attr().spec_size() == if old(self).spec_pos() + n > old(
                self,
            ).spec_attr().spec_size() {
                (old(self).spec_pos() + n) as u64
            } else {
                old(self).spec_attr().spec_size()
            },
            final(self).spec_attr().spec_file_type() == old(self).spec_attr().spec_file_type(),
    {
        self.pos = self.pos + n;
        if self.pos > self.attr.size() {
            self.attr.set_size(self.pos);
        }
    }

    /// Moves the position as `seek_target` says and returns it, or refuses with
    /// `InvalidInput` and leaves the position.
    #[verifier::rlimit(100)]
    pub fn seek(&mut self, from: SeekFrom) -> (r: Result<u64, FsError>)
        ensures
            final(self).spec_attr() == old(self).spec_attr(),
            match seek_target(old(self).spec_pos(), old(self).spec_attr().spec_size(), from) {
                Some(t) => r == Ok::<u64, FsError>(t as u64) && final(self).spec_pos() == t,
                None => r == Err::<u64, FsError>(FsError::InvalidInput) && final(self).spec_pos()
                    == old(self).spec_pos(),
            },
    {
        match from {
            SeekFrom::Start(o) => {
                self.pos = o;
            },
            SeekFrom::Current(o) => {
                if o < 0 {
                    let back: u64 = if o == i64::MIN {
                        0x8000_0000_0000_0000u64
                    } else {
                        (-o) as u64
                    };
                    if back > self.pos {
                        return Err(FsError::InvalidInput);
                    }
                    self.pos = self.pos - back;
                } else {
                    if o as u64 > u64::MAX - self.pos {
                        return Err(FsError::InvalidInput);
                    }
                    self.pos = self.pos + o as u64;
                }
            },
            SeekFrom::End(o) => {
                let size = self.attr.size();
                if o > 0 {
                    return Err(FsError::InvalidInput);
                }
                let back: u64 = if o == i64::MIN {
                    0x8000_0000_0000_0000u64
                } else {
                    (-o) as u64
                };
                if back > size || back > u64::MAX - size {
                    return Err(FsError::InvalidInput);
                }
                self.pos = size + back;
            },
        }
        Ok(self.pos)
    }
}

pub fn readdir(_p: &str) -> (r: Result<ReadDir, FsError>)
    ensures
        r matches Err(FsError::Unsupported),
{
    Err(FsError::Unsupported)
}

pub fn unlink(_p: &str) -> (r: Result<(), FsError>)
    ensures
        r == Err::<(), FsError>(FsError::Unsupported),
{
    Err(FsError::Unsupported)
}

pub fn rename(_old: &str, _new: &str) -> (r: Result<(), FsError>)
    ensures
        r == Err::<(), FsError>(FsError::Unsupported),
{
    Err(FsError::Unsupported)
}

/// Permissions are not stored: setting them succeeds and does nothing.
pub fn set_perm(_p: &str, _perm: FilePermissions) -> (r: Result<(), FsError>)
    ensures
        r == Ok::<(), FsError>(()),
{
    Ok(())
}

pub fn rmdir(_p: &str) -> (r: Result<(), FsError>)
    ensures
        r == Err::<(), FsError>(FsError::Unsupported),
{
    Err(FsError::Unsupported)
}

pub fn remove_dir_all(_path: &str) -> (r: Result<(), FsError>)
    ensures
        r == Err::<(), FsError>(FsError::Unsupported),
{
    Err(FsError::Unsupported)
}

pub fn readlink(_p: &str) -> (r: Result<String, FsError>)
    ensures
        r matches Err(FsError::Unsupported),
{
    Err(FsError::Unsupported)
}

pub fn symlink(_src: &str, _dst: &str) -> (r: Result<(), FsError>)
    ensures
        r == Err::<(), FsError>(FsError::Unsupported),
{
    Err(FsError::Unsupported)
}

pub fn link(_src: &str, _dst: &str) -> (r: Result<(), FsError>)
    ensures
        r == Err::<(), FsError>(FsError::Unsupported),
{
    Err(FsError::Unsupported)
}

pub fn lstat(_p: &str) -> (r: Result<FileAttr, FsError>)
    ensures
        r matches Err(FsError::Unsupported),
{
    Err(FsError::Unsupported)
}

pub fn canonicalize(_p: &str) -> (r: Result<String, FsError>)
    ensures
        r matches Err(FsError::Unsupported),
{
    Err(FsError::Unsupported)
}

pub fn copy(_from: &str, _to: &str) -> (r: Result<u64, FsError>)
    ensures
        r == Err::<u64, FsError>(FsError::Unsupported),
{
    Err(FsError::Unsupported)
}

} // verus!
