//! One write in flight: from the opening of its temporary file to its commit
//! or its abandonment.
use crate::disk::{Disk, DiskError};
use crate::options::OpenOptions;
use crate::paths::{tmp_path_of, tmp_path_spec};
use vstd::prelude::*;

verus! {

/// What has to be opened before a managed file exists: the temporary path,
/// with the options to open it with, and the names that the file will keep.
pub struct OpenRequest {
    pub path: String,
    pub run_id: String,
    pub tmp_path: String,
    pub options: OpenOptions,
}

/// A write in flight. `file` holds the open handle of the temporary file
/// until the write is committed or abandoned, and nothing afterwards.
pub struct OverlayFile<H> {
    pub tmp_path: String,
    pub run_id: String,
    pub path: String,
    pub file: Option<H>,
}

/// What commits a write: `file` is closed first, then `from` is renamed to
/// `to` in one step.
pub struct Commit<H> {
    pub file: H,
    pub from: String,
    pub to: String,
}

/// What abandons a write: `file` is closed first, then `tmp_path` is removed.
pub struct Cleanup<H> {
    pub file: H,
    pub tmp_path: String,
}

impl OpenRequest {
    /// The temporary path is the one derived from the final path and the run
    /// id, and the file is created by the opening and by nothing else.
    pub open spec fn wf(&self) -> bool {
        &&& self.tmp_path@ == tmp_path_spec(self.path@, self.run_id@)
        &&& self.options.create_new
        &&& self.options.truncate
    }

    /// The request for `path` under `run_id` with `options`.
    pub open spec fn matches(&self, path: Seq<char>, run_id: Seq<char>, options: OpenOptions) -> bool {
        &&& self.path@ == path
        &&& self.run_id@ == run_id
        &&& self.tmp_path@ == tmp_path_spec(path, run_id)
        &&& self.options == OpenOptions::exclusive_spec(options)
    }

    /// The disk after the request has been carried out: the temporary path
    /// has been opened with the options of the request.
    pub open spec fn perform(&self, disk: Disk) -> Result<Disk, DiskError> {
        disk.open_new(self.tmp_path@, self.options)
    }

    /// Turns the request into the managed file once the temporary path has
    /// been opened. `outcome` is what the opening returned: its handle goes
    /// into the file, its error is handed on as it is.
    pub fn opened<H, E>(self, outcome: Result<H, E>) -> (result: Result<OverlayFile<H>, E>)
        ensures
            match outcome {
                Ok(handle) => result matches Ok(file) && file.path@ == self.path@ && file.run_id@
                    == self.run_id@ && file.tmp_path@ == self.tmp_path@ && file.file == Some(
                    handle,
                ) && (self.wf() ==> file.wf()),
                Err(error) => result == Err::<OverlayFile<H>, E>(error),
            },
    {
        match outcome {
            Ok(handle) => Ok(
                OverlayFile {
                    path: self.path,
                    file: Some(handle),
                    tmp_path: self.tmp_path,
                    run_id: self.run_id,
                },
            ),
            Err(error) => Err(error),
        }
    }
}

impl<H> Commit<H> {
    /// The disk after the commit has been carried out.
    pub open spec fn perform(&self, disk: Disk) -> Result<Disk, DiskError> {
        disk.rename(self.from@, self.to@)
    }
}

impl<H> Cleanup<H> {
    /// The disk after the cleanup has been carried out.
    pub open spec fn perform(&self, disk: Disk) -> Result<Disk, DiskError> {
        disk.remove_file(self.tmp_path@)
    }
}

impl<H> OverlayFile<H> {
    /// The temporary path is the one derived from the final path and the run id.
    pub open spec fn wf(&self) -> bool {
        self.tmp_path@ == tmp_path_spec(self.path@, self.run_id@)
    }

    /// The write is still in flight: neither committed nor abandoned.
    pub open spec fn is_active(&self) -> bool {
        self.file is Some
    }

    /// Requests a file at `path` that can be read and written.
    pub fn create_for_write(path: String, run_id: String) -> (request: OpenRequest)
        ensures
            request.matches(path@, run_id@, OpenOptions::read_write_spec()),
            request.wf(),
    {
        let options = OpenOptions::new().write(true).read(true);
        Self::create(path, run_id, options)
    }

    /// Requests a file at `path`. Whatever `options` say of creation, the
    /// temporary file is created by its opening, which fails where it exists.
    pub fn create(path: String, run_id: String, options: OpenOptions) -> (request: OpenRequest)
        ensures
            request.matches(path@, run_id@, options),
            request.wf(),
    {
        let options = options.create_new(true).truncate(true);
        let tmp_path = tmp_path_of(path.as_str(), run_id.as_str());
        OpenRequest { path, run_id, tmp_path, options }
    }

    /// Ends the write by publishing it. The handle leaves the file, so that
    /// it is closed before the rename from the temporary to the final path.
    pub fn commit(self) -> (commit: Commit<H>)
        requires
            self.is_active(),
        ensures
            Some(commit.file) == self.file,
            commit.from@ == self.tmp_path@,
            commit.to@ == self.path@,
    {
        let OverlayFile { tmp_path, run_id: _, path, file } = self;
        Commit { file: file.unwrap(), from: tmp_path, to: path }
    }

    /// The open handle, for reading and writing.
    pub fn file(&mut self) -> (handle: &mut H)
        requires
            old(self).is_active(),
        ensures
            Some(*handle) == old(self).file,
            final(self).file == Some(*final(handle)),
            final(self).tmp_path == old(self).tmp_path,
            final(self).run_id == old(self).run_id,
            final(self).path == old(self).path,
            old(self).wf() ==> final(self).wf(),
    {
        self.file.as_mut().unwrap()
    }

    /// Ends the write without publishing it. Where the write is in flight,
    /// the handle leaves the file together with the temporary path that is
    /// to be removed; where it has ended already, nothing is left to do.
    pub fn abandon(&mut self) -> (cleanup: Option<Cleanup<H>>)
        ensures
            final(self).file is None,
            final(self).tmp_path == old(self).tmp_path,
            final(self).run_id == old(self).run_id,
            final(self).path == old(self).path,
            old(self).wf() ==> final(self).wf(),
            match cleanup {
                Some(c) => old(self).file == Some(c.file) && c.tmp_path@ == old(self).tmp_path@,
                None => old(self).file is None,
            },
    {
        match self.file.take() {
            Some(handle) => Some(Cleanup { file: handle, tmp_path: self.tmp_path.clone() }),
            None => None,
        }
    }
}

} // verus!
