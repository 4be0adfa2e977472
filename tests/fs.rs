use mir_dump::fs::{
    canonicalize, copy, file_type_of_entry, link, lstat, readdir, readlink, remove_dir_all, rename,
    rmdir, set_perm, symlink, unlink, DirBuilder, FileAttr, FileState, FileType, FsError,
    OpenOptions, SeekFrom, SystemTime,
};

#[test]
fn open_options_flags() {
    let mut o = OpenOptions::new();
    assert_eq!(o.flags(), 0);
    o.read(true);
    o.write(true);
    assert_eq!(o.flags(), 3);
    o.append(true);
    assert_eq!(o.flags(), 7);
    assert!(o.appends());
    o.read(false);
    assert_eq!(o.flags(), 6);
    o.append(false);
    assert!(!o.appends());
    o.truncate(true);
    assert!(o.truncates());
    o.create(true);
    o.create_new(false);
    assert_eq!(o.flags(), 2);
}

#[test]
fn file_types_and_attrs() {
    assert!(FileType::Dir.is_dir() && !FileType::Dir.is_file());
    assert!(FileType::File.is_file() && !FileType::File.is_symlink());
    assert_eq!(file_type_of_entry(0), FileType::Dir);
    assert_eq!(file_type_of_entry(1), FileType::File);
    let mut a = FileAttr::new(10, FileType::File);
    assert_eq!(a.size(), 10);
    a.set_size(3);
    assert_eq!(a.size(), 3);
    assert!(!a.perm().readonly());
    assert_eq!(a.modified(), Ok(SystemTime::unix_epoch()));
    assert_eq!(a.accessed(), Ok(SystemTime { secs: 0, nanos: 0 }));
    assert_eq!(a.created(), Ok(SystemTime::unix_epoch()));
    let mut p = a.perm();
    p.set_readonly(true);
    assert!(p.readonly());
}

#[test]
fn unsupported_operations() {
    assert!(matches!(readdir("a"), Err(FsError::Unsupported)));
    assert_eq!(unlink("a"), Err(FsError::Unsupported));
    assert_eq!(rename("a", "b"), Err(FsError::Unsupported));
    assert_eq!(rmdir("a"), Err(FsError::Unsupported));
    assert_eq!(remove_dir_all("a"), Err(FsError::Unsupported));
    assert!(matches!(readlink("a"), Err(FsError::Unsupported)));
    assert_eq!(symlink("a", "b"), Err(FsError::Unsupported));
    assert_eq!(link("a", "b"), Err(FsError::Unsupported));
    assert!(matches!(lstat("a"), Err(FsError::Unsupported)));
    assert!(matches!(canonicalize("a"), Err(FsError::Unsupported)));
    assert_eq!(copy("a", "b"), Err(FsError::Unsupported));
    assert_eq!(DirBuilder::new().mkdir("a"), Err(FsError::Unsupported));
    let p = FileAttr::new(0, FileType::File).perm();
    assert_eq!(set_perm("a", p), Ok(()));
}

#[test]
fn file_state_positions() {
    let mut o = OpenOptions::new();
    o.write(true);
    let mut s = FileState::opened(100, 1, &o);
    assert_eq!(s.pos(), 0);
    assert_eq!(s.file_attr().file_type(), FileType::File);
    o.append(true);
    let a = FileState::opened(100, 0, &o);
    assert_eq!(a.pos(), 100);
    assert_eq!(a.file_attr().file_type(), FileType::Dir);
    s.after_write(150);
    assert_eq!(s.pos(), 150);
    assert_eq!(s.file_attr().size(), 150);
    s.after_read(10);
    assert_eq!(s.pos(), 160);
    assert_eq!(s.file_attr().size(), 150);
    s.set_len(0);
    assert_eq!(s.file_attr().size(), 0);
    assert_eq!(s.pos(), 160);
}

#[test]
fn seeking() {
    let o = OpenOptions::new();
    let mut s = FileState::opened(10, 1, &o);
    assert_eq!(s.seek(SeekFrom::Start(4)), Ok(4));
    assert_eq!(s.seek(SeekFrom::Current(3)), Ok(7));
    assert_eq!(s.seek(SeekFrom::Current(-7)), Ok(0));
    assert_eq!(s.seek(SeekFrom::Current(-1)), Err(FsError::InvalidInput));
    assert_eq!(s.pos(), 0);
    assert_eq!(s.seek(SeekFrom::End(1)), Err(FsError::InvalidInput));
    assert_eq!(s.seek(SeekFrom::End(-11)), Err(FsError::InvalidInput));
    assert_eq!(s.seek(SeekFrom::End(-3)), Ok(13));
    assert_eq!(s.seek(SeekFrom::End(0)), Ok(10));
    assert_eq!(s.seek(SeekFrom::Current(i64::MIN)), Err(FsError::InvalidInput));
    let mut big = FileState::opened(0, 1, &o);
    assert_eq!(big.seek(SeekFrom::Start(u64::MAX)), Ok(u64::MAX));
    assert_eq!(big.seek(SeekFrom::Current(1)), Err(FsError::InvalidInput));
}
