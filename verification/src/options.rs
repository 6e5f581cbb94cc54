//! The modes in which a file is opened.
use vstd::prelude::*;

verus! {

/// How a file is to be opened: one flag for each mode that the file system
/// knows. A fresh value has every flag off.
#[derive(Clone, Copy, Debug, PartialEq, Eq, Structural)]
pub struct OpenOptions {
    pub read: bool,
    pub write: bool,
    pub append: bool,
    pub truncate: bool,
    pub create: bool,
    pub create_new: bool,
}

impl OpenOptions {
    /// The options of a file that is created by its opening and must not
    /// exist before: `options` with `create_new` and `truncate` switched on.
    pub open spec fn exclusive_spec(options: OpenOptions) -> OpenOptions {
        OpenOptions { create_new: true, truncate: true, ..options }
    }

    /// Read and write access, nothing else.
    pub open spec fn read_write_spec() -> OpenOptions {
        OpenOptions {
            read: true,
            write: true,
            append: false,
            truncate: false,
            create: false,
            create_new: false,
        }
    }

    /// Whether a file opened with these options can be written to.
    pub open spec fn writable(self) -> bool {
        self.write || self.append
    }

    /// Options with every flag off.
    pub fn new() -> (options: Self)
        ensures
            options == (OpenOptions {
                read: false,
                write: false,
                append: false,
                truncate: false,
                create: false,
                create_new: false,
            }),
    {
        OpenOptions {
            read: false,
            write: false,
            append: false,
            truncate: false,
            create: false,
            create_new: false,
        }
    }

    /// Sets read access.
    pub fn read(self, read: bool) -> (options: Self)
        ensures
            options == (OpenOptions { read, ..self }),
    {
        OpenOptions { read, ..self }
    }

    /// Sets write access.
    pub fn write(self, write: bool) -> (options: Self)
        ensures
            options == (OpenOptions { write, ..self }),
    {
        OpenOptions { write, ..self }
    }

    /// Sets append mode.
    pub fn append(self, append: bool) -> (options: Self)
        ensures
            options == (OpenOptions { append, ..self }),
    {
        OpenOptions { append, ..self }
    }

    /// Sets truncation of an existing file.
    pub fn truncate(self, truncate: bool) -> (options: Self)
        ensures
            options == (OpenOptions { truncate, ..self }),
    {
        OpenOptions { truncate, ..self }
    }

    /// Sets creation of a missing file.
    pub fn create(self, create: bool) -> (options: Self)
        ensures
            options == (OpenOptions { create, ..self }),
    {
        OpenOptions { create, ..self }
    }

    /// Sets exclusive creation: the opening fails where the file exists.
    pub fn create_new(self, create_new: bool) -> (options: Self)
        ensures
            options == (OpenOptions { create_new, ..self }),
    {
        OpenOptions { create_new, ..self }
    }
}

} // verus!
