use vstd::prelude::*;
use std::time::Instant;
use crate::text::{ascii_lower, is_ascii_text};

verus! {

/// Position of the last `/` in `p`, or -1 when there is none.
pub open spec fn last_slash(p: Seq<char>) -> int
    decreases p.len(),
{
    if p.len() == 0 {
        -1
    } else if p.last() == '/' {
        p.len() - 1
    } else {
        last_slash(p.drop_last())
    }
}

pub proof fn lemma_last_slash(p: Seq<char>)
    ensures
        -1 <= last_slash(p) < p.len(),
    decreases p.len(),
{
    if p.len() > 0 {
        lemma_last_slash(p.drop_last());
    }
}

/// What `Path::file_name` gives for a Unix path: the last piece between slashes that is
/// neither empty nor `.`; none when there is no such piece or when it is `..`.
pub open spec fn path_file_name(p: Seq<char>) -> Option<Seq<char>>
    decreases p.len(),
{
    let k = last_slash(p);
    let piece = p.skip(k + 1);
    if piece.len() == 0 || piece == seq!['.'] {
        if k < 0 {
            None
        } else {
            proof {
                lemma_last_slash(p);
            }
            path_file_name(p.take(k))
        }
    } else if piece == seq!['.', '.'] {
        None
    } else {
        Some(piece)
    }
}

/// What `Path::parent` gives for a path: the path without its last component (none for a root
/// or an empty path).
pub uninterp spec fn path_parent(p: Seq<char>) -> Option<Seq<char>>;

/// What `str::to_lowercase` gives: the Unicode lower-case mapping of each character.
pub uninterp spec fn unicode_lowercase(s: Seq<char>) -> Seq<char>;

/// `Path::new(p).file_name()`, as text: on Unix, the last component of the path when it is a
/// name (see [`path_file_name`]). A component of a `&str` path is valid UTF-8, so the
/// conversion keeps it whole.
#[verifier::external_body]
pub(crate) fn file_name_of(p: &str) -> (r: Option<String>)
    ensures
        match r {
            Some(s) => path_file_name(p@) == Some(s@),
            None => path_file_name(p@) is None,
        },
{
    std::path::Path::new(p).file_name().and_then(|n| n.to_str()).map(|n| n.to_string())
}

/// `Path::new(p).parent()`, as text. Its result is named `path_parent`; nothing more is stated
/// of it.
#[verifier::external_body]
pub(crate) fn parent_of(p: &str) -> (r: Option<String>)
    ensures
        match r {
            Some(s) => path_parent(p@) == Some(s@),
            None => path_parent(p@) is None,
        },
{
    std::path::Path::new(p).parent().map(|q| q.to_string_lossy().into_owned())
}

/// `str::to_lowercase`. Its result is named `unicode_lowercase`; the Unicode tables it follows
/// are not written out here. Two facts are stated of it: the empty text lowers to the empty
/// text, and an ASCII text lowers character by character, `A`-`Z` to `a`-`z` (the Unicode
/// lower-case mapping that the function documents maps ASCII characters so, as
/// `str::to_ascii_lowercase` does).
#[verifier::external_body]
pub(crate) fn to_lowercase(s: &str) -> (r: String)
    ensures
        r@ == unicode_lowercase(s@),
        s@.len() == 0 ==> r@.len() == 0,
        is_ascii_text(s@) ==> r@ == ascii_lower(s@),
{
    s.to_lowercase()
}

/// `String::pop`: removes and returns the last character, if any.
#[verifier::external_body]
pub(crate) fn pop_char(s: &mut String) -> (r: Option<char>)
    ensures
        old(s)@.len() == 0 ==> r is None && final(s)@ == old(s)@,
        old(s)@.len() > 0 ==> r == Some(old(s)@.last()) && final(s)@ == old(s)@.drop_last(),
{
    s.pop()
}

#[verifier::external_type_specification]
#[verifier::external_body]
pub struct ExInstant(Instant);

/// `Instant::now()`. Nothing is stated of the time it reads.
#[verifier::external_body]
pub(crate) fn now() -> (t: Instant) {
    Instant::now()
}

/// `Instant::elapsed`, in nanoseconds. Nothing is stated of the time it reads.
#[verifier::external_body]
pub(crate) fn elapsed_nanos(t: &Instant) -> (n: u128) {
    t.elapsed().as_nanos()
}

} // verus!
