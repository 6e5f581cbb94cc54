//! Names of files and directories, as sequences of characters.
//!
//! Components are separated by `/`. A path that starts with `/` is absolute.
use vstd::prelude::*;
use vstd::std_specs::iter::IteratorSpec;
use vstd::string::*;

verus! {

/// The suffix that marks a temporary file.
pub const TMP_FILE_SUFFIX: &'static str = ".tmp";

/// The characters of [`TMP_FILE_SUFFIX`].
pub open spec fn tmp_suffix() -> Seq<char> {
    seq!['.', 't', 'm', 'p']
}

/// The temporary path that belongs to `path` under `run_id`: the path itself,
/// then a dot and the run id unless the id is empty, then the suffix.
pub open spec fn tmp_path_spec(path: Seq<char>, run_id: Seq<char>) -> Seq<char> {
    if run_id.len() == 0 {
        path + tmp_suffix()
    } else {
        path + seq!['.'] + run_id + tmp_suffix()
    }
}

/// `path` resolved under `base`: an absolute `path` stands for itself;
/// otherwise it follows `base`, with one separator between them unless
/// `base` is empty or already ends in one.
pub open spec fn join_spec(base: Seq<char>, path: Seq<char>) -> Seq<char> {
    if path.len() > 0 && path[0] == '/' {
        path
    } else if base.len() == 0 || base.last() == '/' {
        base + path
    } else {
        base + seq!['/'] + path
    }
}

/// How many characters of `path` lie before the name of its last component,
/// that is up to and including the last separator; 0 where there is none.
pub open spec fn directory_len(path: Seq<char>) -> nat
    decreases path.len(),
{
    if path.len() == 0 {
        0
    } else if path.last() == '/' {
        path.len()
    } else {
        directory_len(path.drop_last())
    }
}

/// The directory that holds `path`: all of `path` up to and including its
/// last separator. It is empty for a bare file name.
pub open spec fn directory_spec(path: Seq<char>) -> Seq<char> {
    path.take(directory_len(path) as int)
}

/// `directory_len` marks the last separator: the character before it is a
/// separator and none follows.
pub proof fn lemma_directory_len(path: Seq<char>)
    ensures
        directory_len(path) <= path.len(),
        directory_len(path) > 0 ==> path[directory_len(path) - 1] == '/',
        forall|j: int| directory_len(path) <= j < path.len() ==> path[j] != '/',
    decreases path.len(),
{
    if path.len() > 0 && path.last() != '/' {
        let front = path.drop_last();
        lemma_directory_len(front);
        assert forall|j: int| directory_len(path) <= j < path.len() implies path[j] != '/' by {
            if j < front.len() {
                assert(front[j] == path[j]);
            }
        }
    }
}

/// A prefix of `path` that ends in a separator, with no separator after it,
/// has the length `directory_len(path)`.
pub proof fn lemma_directory_len_unique(path: Seq<char>, n: int)
    requires
        0 <= n <= path.len(),
        n > 0 ==> path[n - 1] == '/',
        forall|j: int| n <= j < path.len() ==> path[j] != '/',
    ensures
        directory_len(path) == n,
    decreases path.len(),
{
    if path.len() > 0 && path.last() != '/' {
        lemma_directory_len_unique(path.drop_last(), n);
    }
}

/// Derives the temporary path for `path` under `run_id`.
pub fn tmp_path_of(path: &str, run_id: &str) -> (tmp: String)
    ensures
        tmp@ == tmp_path_spec(path@, run_id@),
{
    let mut tmp = String::from_str(path);
    if !run_id.is_empty() {
        tmp.append(".");
        tmp.append(run_id);
    }
    tmp.append(TMP_FILE_SUFFIX);
    proof {
        reveal_strlit(".");
        reveal_strlit(".tmp");
        assert("."@ =~= seq!['.']);
        assert(".tmp"@ =~= tmp_suffix());
    }
    tmp
}

/// Whether `text` ends in a separator.
fn ends_with_separator(text: &str) -> (ends: bool)
    ensures
        ends == (text@.len() > 0 && text@.last() == '/'),
{
    let n = text.unicode_len();
    n > 0 && text.get_char(n - 1) == '/'
}

/// Whether `text` starts with a separator.
fn starts_with_separator(text: &str) -> (starts: bool)
    ensures
        starts == (text@.len() > 0 && text@[0] == '/'),
{
    !text.is_empty() && text.get_char(0) == '/'
}

/// Resolves `path` under `base`.
pub fn join(base: &str, path: &str) -> (joined: String)
    ensures
        joined@ == join_spec(base@, path@),
{
    if starts_with_separator(path) {
        String::from_str(path)
    } else {
        let mut joined = String::from_str(base);
        if !base.is_empty() && !ends_with_separator(base) {
            joined.append("/");
            proof {
                reveal_strlit("/");
                assert("/"@ =~= seq!['/']);
            }
        }
        joined.append(path);
        joined
    }
}

/// The directory that holds `path`.
pub fn directory_of(path: &str) -> (directory: String)
    ensures
        directory@ == directory_spec(path@),
{
    let n = path.unicode_len();
    let mut end: usize = 0;
    let mut i: usize = 0;
    let mut chars = path.chars();
    while i < n
        invariant
            n == path@.len(),
            i <= n,
            end <= i,
            chars.obeys_prophetic_iter_laws(),
            chars.remaining() == path@.skip(i as int),
            end > 0 ==> path@[end - 1] == '/',
            forall|j: int| end <= j < i ==> path@[j] != '/',
        decreases n - i,
    {
        let next = chars.next();
        i = i + 1;
        match next {
            Some(c) => {
                if c == '/' {
                    end = i;
                }
            },
            None => {},
        }
    }
    proof {
        lemma_directory_len_unique(path@, end as int);
    }
    String::from_str(path.substring_char(0, end))
}

} // verus!
