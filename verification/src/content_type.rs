//! The MIME type a file is uploaded with, guessed from its name.

use vstd::prelude::*;

use crate::report::after_last_slash;

verus! {

/// The first MIME type that `mime_guess2`'s database lists for the
/// extension of the file name `name` (as `mime_guess2::from_path(name)
/// .first()` finds it), rendered as text; nothing when the name has no
/// extension or the extension is unknown.
pub uninterp spec fn guessed_mime(name: Seq<char>) -> Option<Seq<char>>;

pub open spec fn text_option_view(o: Option<String>) -> Option<Seq<char>> {
    match o {
        Some(s) => Some(s@),
        None => None,
    }
}

/// Looks `filename` up with `mime_guess2::from_path(..).first()`. Trusted:
/// the result is [`guessed_mime`] of the name, which depends on the name
/// alone (a lookup by the extension of the path's final component in a
/// fixed table, with no disk access). When the part after the last `/` is
/// a proper final component (neither empty nor `.`), only that part counts,
/// and when it holds no `.` there is no extension, so no guess; a name with
/// no `.` at all has no guess either.
#[verifier::external_body]
fn guess_mime(filename: &str) -> (guess: Option<String>)
    ensures
        text_option_view(guess) == guessed_mime(filename@),
        !filename@.contains('.') ==> guess is None,
        after_last_slash(filename@).len() > 0 && after_last_slash(filename@) != seq!['.']
            ==> text_option_view(guess) == guessed_mime(after_last_slash(filename@)),
        after_last_slash(filename@).len() > 0 && !after_last_slash(filename@).contains('.')
            ==> guess is None,
{
    match mime_guess2::from_path(filename).first() {
        Some(m) => Some(m.to_string()),
        None => None,
    }
}

/// `application/octet-stream`, the type of data of unknown kind.
pub open spec fn octet_stream() -> Seq<char> {
    seq![
        'a', 'p', 'p', 'l', 'i', 'c', 'a', 't', 'i', 'o', 'n', '/', 'o', 'c', 't', 'e', 't', '-',
        's', 't', 'r', 'e', 'a', 'm',
    ]
}

/// The content type for a guess: the guess itself, or
/// `application/octet-stream` when there is none.
pub open spec fn content_type_for(guess: Option<Seq<char>>) -> Seq<char> {
    match guess {
        Some(m) => m,
        None => octet_stream(),
    }
}

/// The content type for a guess (see [`content_type_for`]).
pub fn content_type_or_default(guess: Option<String>) -> (ct: String)
    ensures
        ct@ == content_type_for(text_option_view(guess)),
        guess matches Some(m) ==> ct@ == m@,
        guess is None ==> ct@ == "application/octet-stream"@,
{
    match guess {
        Some(m) => m,
        None => {
            let ct = String::from_str("application/octet-stream");
            proof {
                reveal_strlit("application/octet-stream");
            }
            assert(ct@ =~= octet_stream());
            assert(ct@ == "application/octet-stream"@);
            ct
        },
    }
}

/// Detect the MIME type of a file from its name; unknown or missing
/// extensions give `application/octet-stream`.
pub fn detect(filename: &str) -> (ct: String)
    ensures
        ct@ == content_type_for(guessed_mime(filename@)),
        guessed_mime(filename@) matches Some(m) ==> ct@ == m,
        guessed_mime(filename@) is None ==> ct@ == "application/octet-stream"@,
        !filename@.contains('.') ==> ct@ == octet_stream(),
        after_last_slash(filename@).len() > 0 && !after_last_slash(filename@).contains('.') ==> ct@
            == octet_stream(),
{
    let guess = guess_mime(filename);
    proof {
        reveal_strlit("application/octet-stream");
    }
    content_type_or_default(guess)
}

} // verus!
