//! The token that tells the temporary files of one run from those of another.
use rand::Rng;
use vstd::prelude::*;

verus! {

/// The number of characters in a generated run id.
pub const RUN_ID_LEN: usize = 8;

/// An ASCII letter or digit.
pub open spec fn is_alphanumeric(c: char) -> bool {
    ('0' <= c && c <= '9') || ('a' <= c && c <= 'z') || ('A' <= c && c <= 'Z')
}

/// A text made of ASCII letters and digits only.
pub open spec fn all_alphanumeric(text: Seq<char>) -> bool {
    forall|i: int| 0 <= i < text.len() ==> is_alphanumeric(#[trigger] text[i])
}

/// What a generated run id looks like: `RUN_ID_LEN` ASCII letters and digits.
pub open spec fn is_generated_run_id(text: Seq<char>) -> bool {
    text.len() == RUN_ID_LEN && all_alphanumeric(text)
}

/// `String::push` appends the character to the end of the string.
pub assume_specification[ String::push ](text: &mut String, c: char)
    ensures
        final(text)@ == old(text)@.push(c),
;

/// Draws one character from the thread's random generator through
/// `rand::Rng::sample` with `rand::distributions::Alphanumeric`. The
/// distribution picks from a table of the upper-case letters, the lower-case
/// letters and the digits, so whatever is drawn is one of them; nothing is
/// claimed of which. `rand::thread_rng` panics where the operating system
/// cannot seed the generator.
#[verifier::external_body]
fn sample_alphanumeric() -> (c: char)
    ensures
        is_alphanumeric(c),
{
    rand::thread_rng().sample(rand::distributions::Alphanumeric)
}

/// A fresh run id: `RUN_ID_LEN` random letters and digits.
pub fn generate_run_id() -> (run_id: String)
    ensures
        is_generated_run_id(run_id@),
{
    let mut run_id = String::new();
    let mut drawn: usize = 0;
    while drawn < RUN_ID_LEN
        invariant
            drawn <= RUN_ID_LEN,
            run_id@.len() == drawn,
            all_alphanumeric(run_id@),
        decreases RUN_ID_LEN - drawn,
    {
        let c = sample_alphanumeric();
        run_id.push(c);
        drawn = drawn + 1;
    }
    run_id
}

} // verus!
