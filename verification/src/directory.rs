//! The root under which files are created, with the run id that marks the
//! temporary files of this run.
use crate::disk::{Disk, DiskError};
use crate::file::{OpenRequest, OverlayFile};
use crate::options::OpenOptions;
use crate::paths::{directory_of, directory_spec, join, join_spec};
use crate::run_id::{generate_run_id, is_generated_run_id};
use vstd::prelude::*;

verus! {

/// The root of a managed tree of files.
pub struct OverlayDirectory {
    pub base_path: String,
    pub run_id: String,
}

/// What has to happen before a managed file exists under a directory:
/// `directory` is created with every ancestor that is missing, then `open`
/// is carried out.
pub struct CreateRequest {
    pub directory: String,
    pub open: OpenRequest,
}

impl CreateRequest {
    /// The request for the file `path` under `base` in the run `run_id`: the
    /// file lies at `path` resolved under `base`, and the directory to create
    /// is the one that holds it.
    pub open spec fn matches(
        &self,
        base: Seq<char>,
        run_id: Seq<char>,
        path: Seq<char>,
        options: OpenOptions,
    ) -> bool {
        &&& self.directory@ == directory_spec(join_spec(base, path))
        &&& self.open.matches(join_spec(base, path), run_id, options)
    }

    /// The disk after the request has been carried out: the directory has
    /// been created, then the temporary path has been opened. The first
    /// failure ends it.
    pub open spec fn perform(&self, disk: Disk) -> Result<Disk, DiskError> {
        match disk.create_dir_all(self.directory@) {
            Ok(ready) => self.open.perform(ready),
            Err(error) => Err(error),
        }
    }
}

impl OverlayDirectory {
    /// Makes the directory under `base_path` with a fresh random run id.
    /// `created` is what creating `base_path`, with every ancestor that was
    /// missing, returned: its error is handed on as it is.
    pub fn new<E>(base_path: String, created: Result<(), E>) -> (result: Result<Self, E>)
        ensures
            match created {
                Ok(_) => result matches Ok(directory) && directory.base_path@ == base_path@
                    && is_generated_run_id(directory.run_id@),
                Err(error) => result == Err::<Self, E>(error),
            },
    {
        let run_id = generate_run_id();
        match created {
            Ok(_) => Ok(OverlayDirectory { base_path, run_id }),
            Err(error) => Err(error),
        }
    }

    /// The directory that has to exist before the file at `path` is opened.
    fn create_folder_for_file(path: &str) -> (directory: String)
        ensures
            directory@ == directory_spec(path@),
    {
        directory_of(path)
    }

    /// Requests a file at `path` under this directory that can be read and
    /// written.
    pub fn create_file_for_write(&self, path: &str) -> (request: CreateRequest)
        ensures
            request.matches(self.base_path@, self.run_id@, path@, OpenOptions::read_write_spec()),
            request.open.wf(),
    {
        let path = join(self.base_path.as_str(), path);
        let directory = Self::create_folder_for_file(path.as_str());
        let open = OverlayFile::<()>::create_for_write(path, self.run_id.clone());
        CreateRequest { directory, open }
    }

    /// Requests a file at `path` under this directory, to be opened with
    /// `options` and created by its opening.
    pub fn create(&self, path: &str, options: OpenOptions) -> (request: CreateRequest)
        ensures
            request.matches(self.base_path@, self.run_id@, path@, options),
            request.open.wf(),
    {
        let path = join(self.base_path.as_str(), path);
        let directory = Self::create_folder_for_file(path.as_str());
        let open = OverlayFile::<()>::create(path, self.run_id.clone(), options);
        CreateRequest { directory, open }
    }
}

} // verus!
