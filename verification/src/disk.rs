//! A model of the file system that the requests of this library are carried
//! out on: which files exist, what they hold and which directories exist.
//!
//! The model knows a file or a directory by the characters of its path. It
//! takes two different texts for two different places, and so knows nothing
//! of links or of `.` and `..`. A directory is known by its path with a
//! separator at the end; the empty path, the directory that relative paths
//! start from, always exists.
use crate::options::OpenOptions;
use crate::paths::directory_spec;
use vstd::prelude::*;

verus! {

/// Why an operation of the model fails.
pub enum DiskError {
    /// The file to create is there already.
    AlreadyExists,
    /// The file to take, or the directory that is to hold a file, is missing.
    NotFound,
    /// The path names a directory where a file is asked for.
    IsADirectory,
    /// A file stands where a directory is asked for.
    NotADirectory,
    /// The options ask for a file to be created that cannot be written.
    InvalidInput,
}

/// The state of the file system.
pub struct Disk {
    /// What each file holds.
    pub files: Map<Seq<char>, Seq<u8>>,
    /// The directories, each with a separator at its end.
    pub dirs: Set<Seq<char>>,
}

/// The path by which the model knows the directory `path`: `path` itself,
/// with a separator at its end unless it is empty or has one.
pub open spec fn dir_key(path: Seq<char>) -> Seq<char> {
    if path.len() == 0 || path.last() == '/' {
        path
    } else {
        path.push('/')
    }
}

/// `dir` is `below` or one of the directories above it: a prefix of `below`
/// that ends in a separator.
pub open spec fn is_ancestor_or_self(dir: Seq<char>, below: Seq<char>) -> bool {
    &&& 0 < dir.len() <= below.len()
    &&& dir.last() == '/'
    &&& below.take(dir.len() as int) == dir
}

/// `path` can name a file: it does not end where a directory's path ends.
pub open spec fn names_file(path: Seq<char>) -> bool {
    path.len() > 0 && path.last() != '/'
}

impl Disk {
    /// The directory known by `key` exists.
    pub open spec fn has_dir(self, key: Seq<char>) -> bool {
        key.len() == 0 || self.dirs.contains(key)
    }

    /// What the file at `path` holds, if there is one.
    pub open spec fn read(self, path: Seq<char>) -> Option<Seq<u8>> {
        if self.files.contains_key(path) {
            Some(self.files[path])
        } else {
            None
        }
    }

    /// A file stands at `dir` or at a directory above it.
    pub open spec fn file_in_the_way(self, dir: Seq<char>) -> bool {
        exists|above: Seq<char>| #[trigger]
            is_ancestor_or_self(above, dir_key(dir)) && self.files.contains_key(above.drop_last())
    }

    /// Creates the directory `dir` with every directory above it that is
    /// missing. Directories that exist are no error.
    pub open spec fn create_dir_all(self, dir: Seq<char>) -> Result<Disk, DiskError> {
        if self.file_in_the_way(dir) {
            Err(DiskError::NotADirectory)
        } else {
            Ok(
                Disk {
                    dirs: Set::new(
                        |d: Seq<char>|
                            self.dirs.contains(d) || is_ancestor_or_self(d, dir_key(dir)),
                    ),
                    ..self
                },
            )
        }
    }

    /// Opens `path` with `options` that ask for a new file: the file is
    /// created empty, and the opening fails where it exists.
    pub open spec fn open_new(self, path: Seq<char>, options: OpenOptions) -> Result<
        Disk,
        DiskError,
    > {
        if !options.writable() {
            Err(DiskError::InvalidInput)
        } else if !names_file(path) {
            Err(DiskError::IsADirectory)
        } else if !self.has_dir(directory_spec(path)) {
            Err(DiskError::NotFound)
        } else if self.files.contains_key(path) || self.dirs.contains(dir_key(path)) {
            Err(DiskError::AlreadyExists)
        } else {
            Ok(Disk { files: self.files.insert(path, Seq::empty()), ..self })
        }
    }

    /// Writes `data` to the end of the file at `path` through its handle.
    pub open spec fn write(self, path: Seq<char>, data: Seq<u8>) -> Disk {
        if self.files.contains_key(path) {
            Disk { files: self.files.insert(path, self.files[path] + data), ..self }
        } else {
            self
        }
    }

    /// Renames the file `from` to `to` in one step. A file at `to` is
    /// replaced.
    pub open spec fn rename(self, from: Seq<char>, to: Seq<char>) -> Result<Disk, DiskError> {
        if !self.files.contains_key(from) {
            Err(DiskError::NotFound)
        } else if !names_file(to) || self.dirs.contains(dir_key(to)) {
            Err(DiskError::IsADirectory)
        } else if !self.has_dir(directory_spec(to)) {
            Err(DiskError::NotFound)
        } else {
            Ok(Disk { files: self.files.remove(from).insert(to, self.files[from]), ..self })
        }
    }

    /// Removes the file at `path`.
    pub open spec fn remove_file(self, path: Seq<char>) -> Result<Disk, DiskError> {
        if !self.files.contains_key(path) {
            Err(DiskError::NotFound)
        } else {
            Ok(Disk { files: self.files.remove(path), ..self })
        }
    }
}

} // verus!
