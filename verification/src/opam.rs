//! Where the parts of an opam repository are fetched from and where its
//! archives are kept.
use vstd::prelude::*;
use vstd::string::*;
use vstd::utf8::*;

verus! {

/// `message` as `{:?}` formats a string: between double quotes, with the
/// characters that cannot stand there escaped.
pub uninterp spec fn debug_text(message: Seq<char>) -> Seq<char>;

/// An error with a message.
#[derive(Clone, Debug)]
pub struct OpamError(String);

/// The mirror of one opam repository.
pub struct Opam {
    pub repo: String,
    pub base_path: String,
    pub archive_url: String,
}

/// Formats `message` with `{:?}` through `format!`, that is through the
/// implementation of `std::fmt::Debug` for `str`. The result depends on the
/// characters of the message alone.
#[verifier::external_body]
fn debug_format(message: &str) -> (text: String)
    ensures
        text@ == debug_text(message@),
{
    format!("{:?}", message)
}

impl OpamError {
    /// The message of the error.
    pub closed spec fn message_spec(&self) -> Seq<char> {
        self.0@
    }

    /// An error with the given message.
    pub fn new(message: String) -> (error: Self)
        ensures
            error.message_spec() == message@,
    {
        OpamError(message)
    }

    /// The message of the error.
    pub fn message(&self) -> (message: &str)
        ensures
            message@ == self.message_spec(),
    {
        self.0.as_str()
    }

    /// The error as it is shown: its message between quotes.
    pub fn to_string(&self) -> (text: String)
        ensures
            text@ == debug_text(self.message_spec()),
    {
        debug_format(self.0.as_str())
    }
}

/// What is left of a checksum after its first four bytes, the name of the
/// algorithm and the sign that follows it.
pub open spec fn checksum_digest(checksum: Seq<char>) -> Seq<u8> {
    encode_utf8(checksum).subrange(4, encode_utf8(checksum).len() as int)
}

/// The checksum can be cut after its fourth byte, and what is left after
/// its second: both cuts lie inside the text and between two characters.
pub open spec fn has_cache_path(checksum: Seq<char>) -> bool {
    &&& encode_utf8(checksum).len() >= 4
    &&& is_char_boundary(encode_utf8(checksum), 4)
    &&& checksum_digest(checksum).len() >= 2
    &&& is_char_boundary(checksum_digest(checksum), 2)
}

/// Where the archive with the given checksum lies in the cache: under
/// `md5`, in a directory named by the first two bytes of the digest, in a
/// file named by the digest.
pub open spec fn cache_path_spec(checksum: Seq<char>) -> Seq<char> {
    "md5/"@ + decode_utf8(checksum_digest(checksum).subrange(0, 2)) + "/"@ + decode_utf8(
        checksum_digest(checksum),
    )
}

/// The entry of an index at `path` describes a package: it is a file named
/// `opam` inside some directory.
pub open spec fn is_package_file_spec(path: Seq<char>) -> bool {
    path.len() >= 5 && path.subrange(path.len() - 5, path.len() as int) == "/opam"@
}

impl Opam {
    /// Whether the entry of an index at `path` describes a package.
    pub fn is_package_file(path: &str) -> (found: bool)
        ensures
            found == is_package_file_spec(path@),
    {
        let n = path.unicode_len();
        if n < 5 {
            return false;
        }
        let name = String::from_str(path.substring_char(n - 5, n));
        name == String::from_str("/opam")
    }

    /// The address of the repository's description.
    pub fn repo_url(&self) -> (url: String)
        ensures
            url@ == self.repo@ + "/repo"@,
    {
        self.repo.clone().concat("/repo")
    }

    /// The address of the repository's index.
    pub fn index_url(&self) -> (url: String)
        ensures
            url@ == self.repo@ + "/index.tar.gz"@,
    {
        self.repo.clone().concat("/index.tar.gz")
    }

    /// Where the archive with the given checksum lies in the cache, where
    /// the checksum is long enough to say.
    pub fn cache_path(checksum: &str) -> (path: Option<String>)
        ensures
            path is Some <==> has_cache_path(checksum@),
            path matches Some(p) ==> p@ == cache_path_spec(checksum@),
    {
        broadcast use encode_utf8_valid_utf8, encode_utf8_decode_utf8;

        if checksum.as_bytes().len() < 4 || !checksum.is_char_boundary(4) {
            return None;
        }
        let (_, digest) = checksum.split_at(4);
        assert(digest.spec_bytes() == checksum_digest(checksum@));
        if digest.as_bytes().len() < 2 || !digest.is_char_boundary(2) {
            return None;
        }
        let (head, _) = digest.split_at(2);
        assert(head@ == decode_utf8(head.spec_bytes()));
        assert(digest@ == decode_utf8(digest.spec_bytes()));
        let mut path = String::from_str("md5/");
        path.append(head);
        path.append("/");
        path.append(digest);
        Some(path)
    }

    /// The file under the base path that keeps the archive at `cache_path`.
    pub fn archive_file(cache_path: &str) -> (path: String)
        ensures
            path@ == "archive/"@ + cache_path@,
    {
        String::from_str("archive/").concat(cache_path)
    }

    /// The address that the archive at `cache_path` is fetched from.
    pub fn archive_source(&self, cache_path: &str) -> (url: String)
        ensures
            url@ == self.archive_url@ + "/"@ + cache_path@,
    {
        self.archive_url.clone().concat("/").concat(cache_path)
    }
}

} // verus!
