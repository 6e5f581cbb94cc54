//! What holds of the names that this library derives, and of the requests
//! that it issues when they are carried out on the model of the file system.
use crate::directory::CreateRequest;
use crate::disk::{dir_key, is_ancestor_or_self, names_file, Disk, DiskError};
use crate::file::{Cleanup, Commit, OpenRequest, OverlayFile};
use crate::options::OpenOptions;
use crate::run_id::is_generated_run_id;
use crate::paths::{
    directory_len, directory_spec, join_spec, lemma_directory_len, lemma_directory_len_unique,
    tmp_path_spec, tmp_suffix,
};
use vstd::prelude::*;

verus! {

/// No separator occurs in `text`.
pub open spec fn separator_free(text: Seq<char>) -> bool {
    forall|i: int| 0 <= i < text.len() ==> #[trigger] text[i] != '/'
}

/// What is added to a final path to make its temporary path under `run_id`.
pub open spec fn tmp_ending(run_id: Seq<char>) -> Seq<char> {
    if run_id.len() == 0 {
        tmp_suffix()
    } else {
        seq!['.'] + run_id + tmp_suffix()
    }
}

/// A temporary path is its final path followed by an ending that depends on
/// the run id alone, is never empty and closes with the suffix; so the
/// temporary path differs from the final path and can name a file.
pub proof fn lemma_tmp_path_shape(path: Seq<char>, run_id: Seq<char>)
    ensures
        tmp_path_spec(path, run_id) == path + tmp_ending(run_id),
        tmp_path_spec(path, run_id).len() == path.len() + tmp_ending(run_id).len(),
        tmp_ending(run_id).len() == if run_id.len() == 0 {
            4
        } else {
            run_id.len() + 5
        },
        tmp_path_spec(path, run_id).last() == 'p',
        tmp_path_spec(path, run_id) != path,
        names_file(tmp_path_spec(path, run_id)),
{
    assert(tmp_path_spec(path, run_id) =~= path + tmp_ending(run_id));
}

/// Under one final path, two run ids give one temporary path only where
/// they are one id: sessions with different ids never share a temporary
/// file for the same destination.
pub proof fn lemma_tmp_path_tells_run_ids_apart(path: Seq<char>, first: Seq<char>, second: Seq<char>)
    requires
        tmp_path_spec(path, first) == tmp_path_spec(path, second),
    ensures
        first == second,
{
    lemma_tmp_path_shape(path, first);
    lemma_tmp_path_shape(path, second);
    let a = tmp_path_spec(path, first);
    let b = tmp_path_spec(path, second);
    assert(first.len() == second.len());
    assert forall|i: int| 0 <= i < first.len() implies first[i] == second[i] by {
        assert(a[path.len() + 1 + i] == first[i]);
        assert(b[path.len() + 1 + i] == second[i]);
    }
    assert(first =~= second);
}

/// Under one run id, two final paths give one temporary path only where
/// they are one path: writes to different destinations never share a
/// temporary file.
pub proof fn lemma_tmp_path_tells_paths_apart(first: Seq<char>, second: Seq<char>, run_id: Seq<char>)
    requires
        tmp_path_spec(first, run_id) == tmp_path_spec(second, run_id),
    ensures
        first == second,
{
    lemma_tmp_path_shape(first, run_id);
    lemma_tmp_path_shape(second, run_id);
    let a = tmp_path_spec(first, run_id);
    let b = tmp_path_spec(second, run_id);
    assert(first.len() == second.len());
    assert forall|i: int| 0 <= i < first.len() implies first[i] == second[i] by {
        assert(a[i] == first[i]);
        assert(b[i] == second[i]);
    }
    assert(first =~= second);
}

/// With a run id that holds no separator, as every generated one, the
/// temporary file lies in the directory of its final path.
pub proof fn lemma_tmp_path_same_directory(path: Seq<char>, run_id: Seq<char>)
    requires
        separator_free(run_id),
    ensures
        directory_spec(tmp_path_spec(path, run_id)) == directory_spec(path),
{
    lemma_tmp_path_shape(path, run_id);
    lemma_directory_len(path);
    let tmp = tmp_path_spec(path, run_id);
    let n = directory_len(path) as int;
    assert forall|j: int| n <= j < tmp.len() implies tmp[j] != '/' by {
        if j < path.len() {
            assert(tmp[j] == path[j]);
        } else if run_id.len() == 0 {
            assert(tmp[j] == tmp_suffix()[j - path.len()]);
        } else if j == path.len() {
            assert(tmp[j] == '.');
        } else if j < path.len() + 1 + run_id.len() {
            assert(tmp[j] == run_id[j - path.len() - 1]);
        } else {
            assert(tmp[j] == tmp_suffix()[j - path.len() - 1 - run_id.len()]);
        }
    }
    if n > 0 {
        assert(tmp[n - 1] == path[n - 1]);
    }
    lemma_directory_len_unique(tmp, n);
    assert(tmp.take(n) =~= path.take(n));
}

/// The disk after the temporary file of `path` under `run_id` has been opened
/// with `options`, made exclusive as every request of this library is.
pub open spec fn opened(disk: Disk, path: Seq<char>, run_id: Seq<char>, options: OpenOptions) -> Result<
    Disk,
    DiskError,
> {
    disk.open_new(tmp_path_spec(path, run_id), OpenOptions::exclusive_spec(options))
}

/// The disk after `data` has been written through the handle of the
/// temporary file.
pub open spec fn written(disk: Disk, path: Seq<char>, run_id: Seq<char>, data: Seq<u8>) -> Disk {
    disk.write(tmp_path_spec(path, run_id), data)
}

/// The disk after the write to `path` under `run_id` has been committed.
pub open spec fn committed(disk: Disk, path: Seq<char>, run_id: Seq<char>) -> Result<
    Disk,
    DiskError,
> {
    disk.rename(tmp_path_spec(path, run_id), path)
}

/// The disk after the write to `path` under `run_id` has been abandoned.
pub open spec fn abandoned(disk: Disk, path: Seq<char>, run_id: Seq<char>) -> Result<
    Disk,
    DiskError,
> {
    disk.remove_file(tmp_path_spec(path, run_id))
}

/// Whether the final path can take a file: it names one, no directory
/// stands there, and the directory that is to hold it exists.
pub open spec fn can_publish(disk: Disk, path: Seq<char>) -> bool {
    &&& names_file(path)
    &&& !disk.dirs.contains(dir_key(path))
    &&& disk.has_dir(directory_spec(path))
}

/// Writing in two parts is writing the whole.
pub proof fn lemma_write_appends(disk: Disk, path: Seq<char>, first: Seq<u8>, second: Seq<u8>)
    ensures
        disk.write(path, first).write(path, second) == disk.write(path, first + second),
{
    if disk.files.contains_key(path) {
        assert((disk.files[path] + first) + second =~= disk.files[path] + (first + second));
        assert(disk.write(path, first).write(path, second).files =~= disk.write(
            path,
            first + second,
        ).files);
    }
}

/// While a write is in flight, the final path is as it was before the write
/// began, whatever has been written: nobody sees a partial file there.
pub proof fn lemma_write_in_flight_is_invisible(
    disk: Disk,
    path: Seq<char>,
    run_id: Seq<char>,
    options: OpenOptions,
    data: Seq<u8>,
)
    requires
        opened(disk, path, run_id, options) is Ok,
    ensures
        ({
            let active = written(opened(disk, path, run_id, options)->Ok_0, path, run_id, data);
            &&& active.read(tmp_path_spec(path, run_id)) == Some(data)
            &&& active.dirs == disk.dirs
            &&& forall|other: Seq<char>|
                other != tmp_path_spec(path, run_id) ==> active.read(other) == disk.read(other)
        }),
{
    lemma_tmp_path_shape(path, run_id);
    assert(Seq::<u8>::empty() + data =~= data);
}

/// A file that is created, written and committed holds at its final path
/// exactly what was written, and its temporary path is gone. Every other
/// file and every directory is as before. The commit succeeds exactly where
/// the final path can take a file.
pub proof fn lemma_commit_publishes(
    disk: Disk,
    path: Seq<char>,
    run_id: Seq<char>,
    options: OpenOptions,
    data: Seq<u8>,
)
    requires
        opened(disk, path, run_id, options) is Ok,
    ensures
        ({
            let active = written(opened(disk, path, run_id, options)->Ok_0, path, run_id, data);
            match committed(active, path, run_id) {
                Ok(after) => {
                    &&& can_publish(disk, path)
                    &&& after.read(path) == Some(data)
                    &&& after.read(tmp_path_spec(path, run_id)) is None
                    &&& after.dirs == disk.dirs
                    &&& forall|other: Seq<char>|
                        other != path && other != tmp_path_spec(path, run_id) ==> after.read(other)
                            == disk.read(other)
                },
                Err(_) => !can_publish(disk, path),
            }
        }),
{
    lemma_tmp_path_shape(path, run_id);
    lemma_write_in_flight_is_invisible(disk, path, run_id, options, data);
}

/// A file that is created, written and abandoned leaves the disk exactly as
/// it was before: the final path is absent where it was absent and holds
/// what it held where it was there, and the temporary path is gone. The
/// removal of the temporary file never fails.
pub proof fn lemma_abandon_restores(
    disk: Disk,
    path: Seq<char>,
    run_id: Seq<char>,
    options: OpenOptions,
    data: Seq<u8>,
)
    requires
        opened(disk, path, run_id, options) is Ok,
    ensures
        ({
            let active = written(opened(disk, path, run_id, options)->Ok_0, path, run_id, data);
            &&& abandoned(active, path, run_id) == Ok::<Disk, DiskError>(disk)
            &&& disk.read(tmp_path_spec(path, run_id)) is None
        }),
{
    let active = written(opened(disk, path, run_id, options)->Ok_0, path, run_id, data);
    let after = abandoned(active, path, run_id)->Ok_0;
    assert(after.files =~= disk.files);
}

/// After a commit the same final path can be written again under the same
/// run id: the temporary file of the first write is not in the way, the
/// second commit succeeds, and the final path then holds what the second
/// write wrote.
pub proof fn lemma_commit_twice(
    disk: Disk,
    path: Seq<char>,
    run_id: Seq<char>,
    options: OpenOptions,
    first: Seq<u8>,
    second: Seq<u8>,
)
    requires
        opened(disk, path, run_id, options) is Ok,
        committed(
            written(opened(disk, path, run_id, options)->Ok_0, path, run_id, first),
            path,
            run_id,
        ) is Ok,
    ensures
        ({
            let once = committed(
                written(opened(disk, path, run_id, options)->Ok_0, path, run_id, first),
                path,
                run_id,
            )->Ok_0;
            let again = opened(once, path, run_id, options);
            &&& again is Ok
            &&& committed(written(again->Ok_0, path, run_id, second), path, run_id) matches Ok(
                twice,
            ) && twice.read(path) == Some(second) && twice.read(tmp_path_spec(path, run_id))
                is None
        }),
{
    lemma_tmp_path_shape(path, run_id);
    lemma_commit_publishes(disk, path, run_id, options, first);
    let once = committed(
        written(opened(disk, path, run_id, options)->Ok_0, path, run_id, first),
        path,
        run_id,
    )->Ok_0;
    assert(once.read(tmp_path_spec(path, run_id)) is None);
    assert(opened(once, path, run_id, options) is Ok);
    lemma_commit_publishes(once, path, run_id, options, second);
}

/// While a write is in flight, a second request for the same final path
/// under the same run id is refused because its temporary file exists,
/// whatever has been written meanwhile. The refusal changes nothing, so the
/// first write commits as if nobody had asked.
pub proof fn lemma_second_create_is_refused(
    disk: Disk,
    path: Seq<char>,
    run_id: Seq<char>,
    options: OpenOptions,
    data: Seq<u8>,
    second_options: OpenOptions,
)
    requires
        opened(disk, path, run_id, options) is Ok,
    ensures
        ({
            let active = written(opened(disk, path, run_id, options)->Ok_0, path, run_id, data);
            &&& second_options.writable() ==> opened(active, path, run_id, second_options) == Err::<
                Disk,
                DiskError,
            >(DiskError::AlreadyExists)
            &&& opened(active, path, run_id, second_options) is Err
            &&& can_publish(disk, path) ==> (committed(active, path, run_id) matches Ok(after)
                && after.read(path) == Some(data))
        }),
{
    lemma_tmp_path_shape(path, run_id);
    lemma_commit_publishes(disk, path, run_id, options, data);
}

/// Two runs with different ids that write to one final path do not meet at
/// their temporary files: while the first write is in flight, the second
/// opens exactly where it would have opened without the first.
pub proof fn lemma_run_ids_do_not_collide(
    disk: Disk,
    path: Seq<char>,
    first_id: Seq<char>,
    second_id: Seq<char>,
    options: OpenOptions,
    data: Seq<u8>,
)
    requires
        first_id != second_id,
        opened(disk, path, first_id, options) is Ok,
    ensures
        ({
            let active = written(opened(disk, path, first_id, options)->Ok_0, path, first_id, data);
            &&& opened(active, path, second_id, options) is Ok <==> opened(
                disk,
                path,
                second_id,
                options,
            ) is Ok
            &&& opened(active, path, second_id, options) matches Ok(both) ==> both.read(
                tmp_path_spec(path, first_id),
            ) == Some(data)
        }),
{
    lemma_tmp_path_shape(path, first_id);
    lemma_tmp_path_shape(path, second_id);
    if tmp_path_spec(path, first_id) == tmp_path_spec(path, second_id) {
        lemma_tmp_path_tells_run_ids_apart(path, first_id, second_id);
    }
    lemma_write_in_flight_is_invisible(disk, path, first_id, options, data);
}

/// Where two runs with different ids commit to one final path, the commit
/// that comes last decides what the path holds; the earlier content is
/// replaced without a trace.
pub proof fn lemma_last_commit_wins(
    disk: Disk,
    path: Seq<char>,
    first_id: Seq<char>,
    second_id: Seq<char>,
    first: Seq<u8>,
    second: Seq<u8>,
)
    requires
        first_id != second_id,
        disk.read(tmp_path_spec(path, first_id)) == Some(first),
        disk.read(tmp_path_spec(path, second_id)) == Some(second),
        committed(disk, path, first_id) is Ok,
    ensures
        committed(committed(disk, path, first_id)->Ok_0, path, second_id) matches Ok(after)
            && after.read(path) == Some(second) && after.read(tmp_path_spec(path, first_id))
            is None && after.read(tmp_path_spec(path, second_id)) is None,
{
    lemma_tmp_path_shape(path, first_id);
    lemma_tmp_path_shape(path, second_id);
    if tmp_path_spec(path, first_id) == tmp_path_spec(path, second_id) {
        lemma_tmp_path_tells_run_ids_apart(path, first_id, second_id);
    }
}

/// Creating a directory creates it and every directory above it, keeps the
/// directories that were there and touches no file. It fails only where a
/// file stands in the way.
pub proof fn lemma_create_dir_all_makes_every_ancestor(disk: Disk, dir: Seq<char>)
    ensures
        match disk.create_dir_all(dir) {
            Ok(after) => {
                &&& !disk.file_in_the_way(dir)
                &&& after.has_dir(dir_key(dir))
                &&& after.files == disk.files
                &&& forall|above: Seq<char>| #[trigger]
                    is_ancestor_or_self(above, dir_key(dir)) ==> after.dirs.contains(above)
                &&& forall|other: Seq<char>|
                    disk.dirs.contains(other) ==> after.dirs.contains(other)
            },
            Err(error) => error == DiskError::NotADirectory && disk.file_in_the_way(dir),
        },
{
    let key = dir_key(dir);
    if key.len() > 0 {
        assert(key.take(key.len() as int) =~= key);
        assert(is_ancestor_or_self(key, key));
    }
}

/// Creating a directory a second time succeeds and changes nothing:
/// directories that exist are no error.
pub proof fn lemma_create_dir_all_idempotent(disk: Disk, dir: Seq<char>)
    requires
        disk.create_dir_all(dir) is Ok,
    ensures
        disk.create_dir_all(dir)->Ok_0.create_dir_all(dir) == disk.create_dir_all(dir),
{
    let once = disk.create_dir_all(dir)->Ok_0;
    assert(!once.file_in_the_way(dir)) by {
        if once.file_in_the_way(dir) {
            let above = choose|above: Seq<char>| #[trigger]
                is_ancestor_or_self(above, dir_key(dir)) && once.files.contains_key(
                    above.drop_last(),
                );
            assert(is_ancestor_or_self(above, dir_key(dir)) && disk.files.contains_key(
                above.drop_last(),
            ));
        }
    }
    let twice = once.create_dir_all(dir)->Ok_0;
    assert(twice.dirs =~= once.dirs);
}

/// The directory of a path is the path of a directory as the model knows
/// it: empty, or with a separator at its end.
pub proof fn lemma_directory_is_key(path: Seq<char>)
    ensures
        dir_key(directory_spec(path)) == directory_spec(path),
{
    lemma_directory_len(path);
}

/// Once the directory of a final path has been created, the temporary file
/// of a run id without separators can be opened for writing unless it, or a
/// directory of its name, exists: the opening never fails for a missing
/// directory, however deep the path lies.
pub proof fn lemma_create_directory_then_open(
    disk: Disk,
    path: Seq<char>,
    run_id: Seq<char>,
    options: OpenOptions,
)
    requires
        separator_free(run_id),
        OpenOptions::exclusive_spec(options).writable(),
        disk.create_dir_all(directory_spec(path)) is Ok,
    ensures
        ({
            let ready = disk.create_dir_all(directory_spec(path))->Ok_0;
            let tmp = tmp_path_spec(path, run_id);
            &&& ready.has_dir(directory_spec(tmp))
            &&& match opened(ready, path, run_id, options) {
                Ok(_) => !disk.files.contains_key(tmp) && !ready.dirs.contains(dir_key(tmp)),
                Err(error) => error == DiskError::AlreadyExists && (disk.files.contains_key(tmp)
                    || ready.dirs.contains(dir_key(tmp))),
            }
        }),
{
    lemma_tmp_path_shape(path, run_id);
    lemma_tmp_path_same_directory(path, run_id);
    lemma_directory_is_key(path);
    lemma_create_dir_all_makes_every_ancestor(disk, directory_spec(path));
}

/// A path resolved under a base that does not start with a separator lies
/// under that base: it is the base, one separator unless the base is empty
/// or ends in one, and the path.
pub proof fn lemma_join_layout(base: Seq<char>, path: Seq<char>)
    requires
        path.len() == 0 || path[0] != '/',
    ensures
        base.len() > 0 && base.last() != '/' ==> join_spec(base, path) == base + seq!['/'] + path,
        base.len() == 0 || base.last() == '/' ==> join_spec(base, path) == base + path,
        join_spec(base, path).len() >= base.len(),
        join_spec(base, path).take(base.len() as int) == base,
{
    assert(join_spec(base, path).take(base.len() as int) =~= base);
}

/// Creating the directory of a file that lies under a base creates the base
/// too, where the file's path is relative and not empty: every directory
/// between the base and the file is made on the way.
pub proof fn lemma_create_request_makes_base(disk: Disk, base: Seq<char>, path: Seq<char>)
    requires
        path.len() > 0,
        path[0] != '/',
        disk.create_dir_all(directory_spec(join_spec(base, path))) is Ok,
    ensures
        disk.create_dir_all(directory_spec(join_spec(base, path)))->Ok_0.has_dir(dir_key(base)),
{
    let full = join_spec(base, path);
    let dir = directory_spec(full);
    lemma_join_layout(base, path);
    lemma_directory_len(full);
    lemma_directory_is_key(full);
    lemma_create_dir_all_makes_every_ancestor(disk, dir);
    let key = dir_key(base);
    if key.len() > 0 {
        // the separator that ends the base's key occurs in the full path
        assert(full.take(key.len() as int) =~= key);
        assert(full[key.len() - 1] == '/');
        assert(directory_len(full) >= key.len()) by {
            if directory_len(full) < key.len() {
                assert(full[key.len() - 1] != '/');
            }
        }
        assert(dir.take(key.len() as int) =~= key);
        assert(is_ancestor_or_self(key, dir));
    }
}

/// Carrying out the request for a file opens its temporary path, made
/// exclusive.
pub proof fn lemma_open_request_performs(
    request: OpenRequest,
    disk: Disk,
    path: Seq<char>,
    run_id: Seq<char>,
    options: OpenOptions,
)
    requires
        request.matches(path, run_id, options),
    ensures
        request.perform(disk) == opened(disk, path, run_id, options),
{
}

/// Carrying out the request for a file under a directory creates the
/// directory that holds the file, then opens the temporary path.
pub proof fn lemma_create_request_performs(
    request: CreateRequest,
    disk: Disk,
    base: Seq<char>,
    run_id: Seq<char>,
    path: Seq<char>,
    options: OpenOptions,
)
    requires
        request.matches(base, run_id, path, options),
    ensures
        request.perform(disk) == match disk.create_dir_all(
            directory_spec(join_spec(base, path)),
        ) {
            Ok(ready) => opened(ready, join_spec(base, path), run_id, options),
            Err(error) => Err(error),
        },
{
}

/// Carrying out the commit of a well-formed file renames its temporary path
/// to its final path; carrying out its cleanup removes the temporary path.
pub proof fn lemma_end_of_write_performs<H>(
    file: OverlayFile<H>,
    commit: Commit<H>,
    cleanup: Cleanup<H>,
    disk: Disk,
)
    requires
        file.wf(),
        commit.from@ == file.tmp_path@,
        commit.to@ == file.path@,
        cleanup.tmp_path@ == file.tmp_path@,
    ensures
        commit.perform(disk) == committed(disk, file.path@, file.run_id@),
        cleanup.perform(disk) == abandoned(disk, file.path@, file.run_id@),
{
}

/// A generated run id holds no separator, so the temporary files of a
/// directory with such an id lie beside their final paths.
pub proof fn lemma_generated_run_id_is_separator_free(run_id: Seq<char>)
    requires
        is_generated_run_id(run_id),
    ensures
        separator_free(run_id),
{
}

/// The request for a file under a directory, carried out for a run id
/// without separators and options that allow writing, fails in two cases
/// only: a file stands where a directory has to be, or the temporary path
/// is taken. Otherwise the temporary file exists afterwards and is empty,
/// every directory down to the one that holds it exists, and no other file
/// has changed.
pub proof fn lemma_create_request_outcome(
    request: CreateRequest,
    disk: Disk,
    base: Seq<char>,
    run_id: Seq<char>,
    path: Seq<char>,
    options: OpenOptions,
)
    requires
        request.matches(base, run_id, path, options),
        separator_free(run_id),
        OpenOptions::exclusive_spec(options).writable(),
    ensures
        ({
            let full = join_spec(base, path);
            let tmp = tmp_path_spec(full, run_id);
            match request.perform(disk) {
                Ok(after) => {
                    &&& !disk.file_in_the_way(directory_spec(full))
                    &&& disk.read(tmp) is None
                    &&& after.read(tmp) == Some(Seq::<u8>::empty())
                    &&& after.has_dir(directory_spec(full))
                    &&& after.has_dir(directory_spec(tmp))
                    &&& forall|other: Seq<char>| other != tmp ==> after.read(other) == disk.read(other)
                },
                Err(error) => {
                    ||| error == DiskError::NotADirectory && disk.file_in_the_way(directory_spec(full))
                    ||| error == DiskError::AlreadyExists && !disk.file_in_the_way(
                        directory_spec(full),
                    )
                },
            }
        }),
{
    let full = join_spec(base, path);
    lemma_create_request_performs(request, disk, base, run_id, path, options);
    lemma_create_dir_all_makes_every_ancestor(disk, directory_spec(full));
    if disk.create_dir_all(directory_spec(full)) is Ok {
        lemma_create_directory_then_open(disk, full, run_id, options);
        lemma_directory_is_key(full);
    }
}

} // verus!
