use overlay::paths::{directory_of, join, tmp_path_of, TMP_FILE_SUFFIX};
use overlay::run_id::{generate_run_id, RUN_ID_LEN};
use overlay::{Opam, OpamError, OpenOptions, OverlayDirectory, OverlayFile};

fn read_write() -> OpenOptions {
    OpenOptions {
        read: true,
        write: true,
        append: false,
        truncate: false,
        create: false,
        create_new: false,
    }
}

#[test]
fn tmp_path_without_run_id() {
    assert_eq!(tmp_path_of("dir/test.bin", ""), "dir/test.bin.tmp");
    assert_eq!(tmp_path_of("", ""), ".tmp");
}

#[test]
fn tmp_path_with_run_id() {
    assert_eq!(tmp_path_of("dir/test.bin", "2333"), "dir/test.bin.2333.tmp");
    assert_eq!(tmp_path_of("/a/b", "x"), "/a/b.x.tmp");
}

#[test]
fn tmp_path_keeps_unicode() {
    assert_eq!(tmp_path_of("d\u{e9}p\u{f4}t/\u{4e2d}", "\u{3b1}"), "d\u{e9}p\u{f4}t/\u{4e2d}.\u{3b1}.tmp");
}

#[test]
fn tmp_suffix_value() {
    assert_eq!(TMP_FILE_SUFFIX, ".tmp");
}

#[test]
fn tmp_path_tells_run_ids_apart() {
    assert_ne!(tmp_path_of("a/b", "one"), tmp_path_of("a/b", "two"));
    assert_ne!(tmp_path_of("a/b", ""), tmp_path_of("a/b", "tmp"));
    assert_ne!(tmp_path_of("a/b", "x"), "a/b");
}

#[test]
fn tmp_path_tells_paths_apart() {
    assert_ne!(tmp_path_of("a/b", "id"), tmp_path_of("a/c", "id"));
}

#[test]
fn join_relative_path() {
    assert_eq!(join("data/opam", "repo"), "data/opam/repo");
    assert_eq!(join("/tmp/overlay/test", "233/2333/233333.zip"), "/tmp/overlay/test/233/2333/233333.zip");
}

#[test]
fn join_base_with_separator() {
    assert_eq!(join("data/", "repo"), "data/repo");
    assert_eq!(join("/", "repo"), "/repo");
}

#[test]
fn join_empty_base() {
    assert_eq!(join("", "repo"), "repo");
    assert_eq!(join("", ""), "");
}

#[test]
fn join_empty_path() {
    assert_eq!(join("data", ""), "data/");
    assert_eq!(join("data/", ""), "data/");
}

#[test]
fn join_absolute_path() {
    assert_eq!(join("data", "/etc/passwd"), "/etc/passwd");
    assert_eq!(join("", "/"), "/");
}

#[test]
fn join_agrees_with_std_path() {
    let cases = [
        ("data/opam", "repo"),
        ("data/", "a/b/c.dat"),
        ("", "x"),
        ("base", ""),
        ("base", "/abs"),
        ("/", "x"),
        ("a//", "b"),
        ("a/.", "./b"),
    ];
    for (base, path) in cases.iter() {
        let expected = std::path::Path::new(base).join(path);
        assert_eq!(join(base, path), expected.to_str().unwrap());
    }
}

#[test]
fn directory_of_nested_path() {
    assert_eq!(directory_of("a/b/c.dat"), "a/b/");
    assert_eq!(directory_of("/tmp/test/233/2333/233333.zip"), "/tmp/test/233/2333/");
}

#[test]
fn directory_of_bare_name() {
    assert_eq!(directory_of("c.dat"), "");
    assert_eq!(directory_of(""), "");
}

#[test]
fn directory_of_root_and_trailing_separator() {
    assert_eq!(directory_of("/c.dat"), "/");
    assert_eq!(directory_of("a/b/"), "a/b/");
    assert_eq!(directory_of("/"), "/");
}

#[test]
fn directory_of_unicode_path() {
    assert_eq!(directory_of("d\u{e9}p\u{f4}t/\u{4e2d}\u{6587}/f"), "d\u{e9}p\u{f4}t/\u{4e2d}\u{6587}/");
}

#[test]
fn directory_of_agrees_with_std_path() {
    let cases = ["a/b/c.dat", "c.dat", "/c.dat", "data/opam/archive/md5/ab/abcdef", "x/y"];
    for path in cases.iter() {
        let expected = std::path::Path::new(path).with_file_name("");
        assert_eq!(directory_of(path), expected.to_str().unwrap());
    }
}

#[test]
fn open_options_start_empty() {
    let options = OpenOptions::new();
    assert!(!options.read && !options.write && !options.append);
    assert!(!options.truncate && !options.create && !options.create_new);
}

#[test]
fn open_options_builders_set_one_flag() {
    let none = OpenOptions::new();
    assert_eq!(none.read(true), OpenOptions { read: true, ..none });
    assert_eq!(none.write(true), OpenOptions { write: true, ..none });
    assert_eq!(none.append(true), OpenOptions { append: true, ..none });
    assert_eq!(none.truncate(true), OpenOptions { truncate: true, ..none });
    assert_eq!(none.create(true), OpenOptions { create: true, ..none });
    assert_eq!(none.create_new(true), OpenOptions { create_new: true, ..none });
    assert_eq!(none.read(true).read(false), none);
}

#[test]
fn create_for_write_requests_exclusive_read_write() {
    let request = OverlayFile::<u32>::create_for_write("dir/test.bin".to_string(), "".to_string());
    assert_eq!(request.path, "dir/test.bin");
    assert_eq!(request.run_id, "");
    assert_eq!(request.tmp_path, "dir/test.bin.tmp");
    assert_eq!(
        request.options,
        OpenOptions { create_new: true, truncate: true, ..read_write() }
    );
}

#[test]
fn create_forces_exclusive_creation() {
    let asked = OpenOptions::new().append(true).create(true);
    let request = OverlayFile::<u32>::create("f".to_string(), "2333".to_string(), asked);
    assert_eq!(request.tmp_path, "f.2333.tmp");
    assert_eq!(
        request.options,
        OpenOptions {
            read: false,
            write: false,
            append: true,
            truncate: true,
            create: true,
            create_new: true,
        }
    );
    let refused = OpenOptions::new().write(true).create_new(false).truncate(false);
    let request = OverlayFile::<u32>::create("f".to_string(), "".to_string(), refused);
    assert!(request.options.create_new && request.options.truncate);
}

#[test]
fn opened_keeps_handle_and_names() {
    let request = OverlayFile::<u32>::create_for_write("dir/test.bin".to_string(), "id".to_string());
    let file = request.opened::<u32, String>(Ok(7)).unwrap();
    assert_eq!(file.file, Some(7));
    assert_eq!(file.path, "dir/test.bin");
    assert_eq!(file.tmp_path, "dir/test.bin.id.tmp");
    assert_eq!(file.run_id, "id");
}

#[test]
fn opened_hands_error_on() {
    let request = OverlayFile::<u32>::create_for_write("dir/test.bin".to_string(), "".to_string());
    let result = request.opened::<u32, String>(Err("already exists".to_string()));
    match result {
        Ok(_) => panic!("an error must not open a file"),
        Err(error) => assert_eq!(error, "already exists"),
    }
}

#[test]
fn commit_renames_temporary_to_final() {
    let request = OverlayFile::<u32>::create_for_write("dir/test.bin".to_string(), "2333".to_string());
    let file = request.opened::<u32, ()>(Ok(41)).unwrap();
    let commit = file.commit();
    assert_eq!(commit.file, 41);
    assert_eq!(commit.from, "dir/test.bin.2333.tmp");
    assert_eq!(commit.to, "dir/test.bin");
}

#[test]
fn abandon_removes_temporary_once() {
    let request = OverlayFile::<u32>::create_for_write("dir/test.bin".to_string(), "".to_string());
    let mut file = request.opened::<u32, ()>(Ok(5)).unwrap();
    let cleanup = file.abandon().unwrap();
    assert_eq!(cleanup.file, 5);
    assert_eq!(cleanup.tmp_path, "dir/test.bin.tmp");
    assert_eq!(file.file, None);
    assert_eq!(file.path, "dir/test.bin");
    assert_eq!(file.tmp_path, "dir/test.bin.tmp");
    assert!(file.abandon().is_none());
    assert!(file.abandon().is_none());
}

#[test]
fn file_gives_the_handle_for_writing() {
    let request = OverlayFile::<Vec<u8>>::create_for_write("f".to_string(), "".to_string());
    let mut file = request.opened::<Vec<u8>, ()>(Ok(Vec::new())).unwrap();
    file.file().extend_from_slice(b"2333333");
    file.file().push(b'!');
    assert_eq!(file.file, Some(b"2333333!".to_vec()));
    assert_eq!(file.tmp_path, "f.tmp");
    let commit = file.commit();
    assert_eq!(commit.file, b"2333333!".to_vec());
}

#[test]
fn directory_new_generates_run_id() {
    let directory = OverlayDirectory::new::<String>("data/opam".to_string(), Ok(())).unwrap();
    assert_eq!(directory.base_path, "data/opam");
    assert_eq!(directory.run_id.chars().count(), 8);
    assert!(directory.run_id.chars().all(|c| c.is_ascii_alphanumeric()));
}

#[test]
fn directory_new_hands_error_on() {
    let result = OverlayDirectory::new("data/opam".to_string(), Err(13));
    match result {
        Ok(_) => panic!("an error must not make a directory"),
        Err(error) => assert_eq!(error, 13),
    }
}

#[test]
fn generated_run_id_is_alphanumeric() {
    assert_eq!(RUN_ID_LEN, 8);
    let mut seen = Vec::new();
    for _ in 0..50 {
        let run_id = generate_run_id();
        assert_eq!(run_id.len(), 8);
        assert!(run_id.bytes().all(|b| b.is_ascii_alphanumeric()));
        seen.push(run_id);
    }
    seen.sort();
    seen.dedup();
    assert!(seen.len() > 1);
}

#[test]
fn directory_create_file_for_write_request() {
    let directory = OverlayDirectory {
        base_path: "/tmp/overlay/test".to_string(),
        run_id: "Ab3dEf9h".to_string(),
    };
    let request = directory.create_file_for_write("233/2333/233333.zip");
    assert_eq!(request.directory, "/tmp/overlay/test/233/2333/");
    assert_eq!(request.open.path, "/tmp/overlay/test/233/2333/233333.zip");
    assert_eq!(request.open.tmp_path, "/tmp/overlay/test/233/2333/233333.zip.Ab3dEf9h.tmp");
    assert_eq!(request.open.run_id, "Ab3dEf9h");
    assert_eq!(
        request.open.options,
        OpenOptions { create_new: true, truncate: true, ..read_write() }
    );
}

#[test]
fn directory_create_request_with_options() {
    let directory = OverlayDirectory { base_path: "base".to_string(), run_id: "".to_string() };
    let request = directory.create("a/b/c.dat", OpenOptions::new().write(true));
    assert_eq!(request.directory, "base/a/b/");
    assert_eq!(request.open.path, "base/a/b/c.dat");
    assert_eq!(request.open.tmp_path, "base/a/b/c.dat.tmp");
    assert_eq!(
        request.open.options,
        OpenOptions {
            read: false,
            write: true,
            append: false,
            truncate: true,
            create: false,
            create_new: true,
        }
    );
    let flat = directory.create_file_for_write("repo");
    assert_eq!(flat.directory, "base/");
    assert_eq!(flat.open.path, "base/repo");
}

#[test]
fn opam_addresses() {
    let opam = Opam {
        repo: "http://localhost".to_string(),
        base_path: "data/opam".to_string(),
        archive_url: "https://mirrors.sjtug.sjtu.edu.cn/opam-cache".to_string(),
    };
    assert_eq!(opam.repo_url(), "http://localhost/repo");
    assert_eq!(opam.index_url(), "http://localhost/index.tar.gz");
    assert_eq!(
        opam.archive_source("md5/ab/abcdef"),
        "https://mirrors.sjtug.sjtu.edu.cn/opam-cache/md5/ab/abcdef"
    );
    assert_eq!(Opam::archive_file("md5/ab/abcdef"), "archive/md5/ab/abcdef");
}

#[test]
fn opam_cache_path() {
    assert_eq!(
        Opam::cache_path("md5=0123456789abcdef"),
        Some("md5/01/0123456789abcdef".to_string())
    );
    assert_eq!(Opam::cache_path("md5=ab"), Some("md5/ab/ab".to_string()));
    assert_eq!(Opam::cache_path("md5=\u{e9}x"), Some("md5/\u{e9}/\u{e9}x".to_string()));
    assert_eq!(Opam::cache_path("md\u{e9}=abcd"), Some("md5/=a/=abcd".to_string()));
}

#[test]
fn opam_cache_path_too_short_or_cut_inside_character() {
    assert_eq!(Opam::cache_path(""), None);
    assert_eq!(Opam::cache_path("md5"), None);
    assert_eq!(Opam::cache_path("md5="), None);
    assert_eq!(Opam::cache_path("md5=a"), None);
    assert_eq!(Opam::cache_path("md5\u{e9}abcd"), None);
    assert_eq!(Opam::cache_path("md5=a\u{e9}cd"), None);
}

#[test]
fn opam_error_shows_quoted_message() {
    let error = OpamError::new("failed to decode \"x\"".to_string());
    assert_eq!(error.message(), "failed to decode \"x\"");
    assert_eq!(error.to_string(), "\"failed to decode \\\"x\\\"\"");
    assert_eq!(OpamError::new("boom".to_string()).to_string(), "\"boom\"");
    assert_eq!(error.clone().message(), error.message());
}

#[test]
fn opam_package_files() {
    assert!(Opam::is_package_file("packages/foo/foo.1.0/opam"));
    assert!(Opam::is_package_file("/opam"));
    assert!(Opam::is_package_file("\u{4e2d}/opam"));
    assert!(!Opam::is_package_file("opam"));
    assert!(!Opam::is_package_file("packages/foo/foo.1.0/opam/"));
    assert!(!Opam::is_package_file("packages/foo/foo.1.0/url"));
    assert!(!Opam::is_package_file("packages/xopam"));
    assert!(!Opam::is_package_file(""));
}
