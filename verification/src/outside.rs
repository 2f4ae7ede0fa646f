//! The calls that the library makes into std and into outside crates where
//! Verus has no specification of its own. Each function here makes one call
//! and converts its arguments and result; its contract is taken on trust.
use crate::text::contains;
use vstd::prelude::*;

verus! {

/// What `std::path::Path::extension` gives for a path, as characters. It is a
/// function of the path alone (on the platform the library is built for).
pub uninterp spec fn path_extension_of(path: Seq<char>) -> Option<Seq<char>>;

/// What `std::path::Path::strip_prefix` gives for a path and a base, as
/// characters: the path below the base, or `None` where the base is no
/// prefix of the path (compared part by part). It is a function of the two
/// paths alone (on the platform the library is built for).
pub uninterp spec fn path_below_of(path: Seq<char>, base: Seq<char>) -> Option<Seq<char>>;

/// What `str::to_lowercase` gives for a string (Unicode lowercase mapping).
pub uninterp spec fn lowercase_of(s: Seq<char>) -> Seq<char>;

/// Whether `glob::Pattern::new` accepts a pattern.
pub uninterp spec fn glob_compiles(pattern: Seq<char>) -> bool;

/// Whether the pattern compiled from `pattern` matches the path
/// (`glob::Pattern::matches`, default match options).
pub uninterp spec fn glob_matches_of(pattern: Seq<char>, path: Seq<char>) -> bool;

#[verifier::external_type_specification]
#[verifier::external_body]
pub struct ExGlobPattern(glob::Pattern);

/// Whether every character of `s` is ASCII.
pub open spec fn is_ascii_text(s: Seq<char>) -> bool {
    forall|i: int| 0 <= i < s.len() ==> (#[trigger] s[i] as u32) < 128
}

/// `c` with an ASCII capital letter replaced by its small letter.
pub open spec fn ascii_lower_char(c: char) -> char {
    if 65 <= (c as u32) <= 90 {
        ((c as u32) + 32) as char
    } else {
        c
    }
}

/// `s` with every ASCII capital letter replaced by its small letter.
pub open spec fn ascii_lowercase(s: Seq<char>) -> Seq<char> {
    s.map_values(|c: char| ascii_lower_char(c))
}

/// The view of an optional string.
pub open spec fn opt_string_view(s: Option<String>) -> Option<Seq<char>> {
    match s {
        Some(x) => Some(x@),
        None => None,
    }
}

/// Calls `std::path::Path::extension` on `path`. The contract claims that the
/// result, converted to a `String`, is `path_extension_of(path@)`; since the
/// path is valid UTF-8, so is any extension of it, and `to_str` cannot fail.
/// It also claims what the documentation gives: a path without a `.` has no
/// extension, and an extension is the part of the file name after its last
/// `.`, so it holds no `.` and no `/`, and the path holds it after a `.`.
/// Which parts of a path make its file name is not stated.
#[verifier::external_body]
pub(crate) fn path_extension(path: &str) -> (r: Option<String>)
    ensures
        opt_string_view(r) == path_extension_of(path@),
        !path@.contains('.') ==> r is None,
        r matches Some(e) ==> !e@.contains('.') && !e@.contains('/') && contains(
            path@,
            seq!['.'] + e@,
        ),
{
    match std::path::Path::new(path).extension() {
        Some(ext) => match ext.to_str() {
            Some(text) => Some(text.to_string()),
            None => None,
        },
        None => None,
    }
}

/// Calls `std::path::Path::strip_prefix` on `path` with `base`. The contract
/// claims that the result, converted to a `String`, is
/// `path_below_of(path@, base@)`, `None` where the call fails; since both
/// paths are valid UTF-8, so is what remains, and `to_str` cannot fail.
#[verifier::external_body]
pub(crate) fn path_below(path: &str, base: &str) -> (r: Option<String>)
    ensures
        opt_string_view(r) == path_below_of(path@, base@),
{
    match std::path::Path::new(path).strip_prefix(base) {
        Ok(rest) => match rest.to_str() {
            Some(text) => Some(text.to_string()),
            None => None,
        },
        Err(_) => None,
    }
}

/// Calls `str::to_lowercase`. The contract claims that the result is
/// `lowercase_of(s@)`, and that on ASCII text it maps `A`–`Z` to `a`–`z` and
/// leaves every other character as it is (the Unicode lowercase mapping of
/// the ASCII characters).
#[verifier::external_body]
pub(crate) fn lowercase(s: &str) -> (r: String)
    ensures
        r@ == lowercase_of(s@),
        is_ascii_text(s@) ==> r@ == ascii_lowercase(s@),
{
    s.to_lowercase()
}

/// Calls `glob::Pattern::new`. The contract claims that it succeeds exactly
/// where `glob_compiles(pattern@)` holds; the compiled pattern itself is
/// opaque.
#[verifier::external_body]
fn compile_glob(pattern: &str) -> (r: Option<glob::Pattern>)
    ensures
        r is Some <==> glob_compiles(pattern@),
{
    glob::Pattern::new(pattern).ok()
}

/// A glob pattern, compiled, with the text it was compiled from. Only `new`
/// builds one, so `compiled` is always the compilation of `source`.
pub struct GlobPattern {
    source: String,
    compiled: glob::Pattern,
}

impl View for GlobPattern {
    type V = Seq<char>;

    /// The text of the pattern.
    closed spec fn view(&self) -> Seq<char> {
        self.source@
    }
}

impl GlobPattern {
    /// Compiles `pattern`; `None` where it is no valid glob pattern.
    pub fn new(pattern: &str) -> (r: Option<GlobPattern>)
        ensures
            r is Some <==> glob_compiles(pattern@),
            r matches Some(g) ==> g@ == pattern@,
    {
        match compile_glob(pattern) {
            Some(compiled) => Some(GlobPattern { source: pattern.to_owned(), compiled }),
            None => None,
        }
    }

    /// Calls `glob::Pattern::matches` on the compiled pattern. The contract
    /// claims that the result is `glob_matches_of(self@, path@)`, which rests
    /// on `compiled` being the compilation of `source`.
    #[verifier::external_body]
    pub(crate) fn matches(&self, path: &str) -> (r: bool)
        ensures
            r == glob_matches_of(self@, path@),
    {
        self.compiled.matches(path)
    }
}

/// Collects characters into a `String` (`FromIterator<char>`). The contract
/// claims that the string holds exactly these characters, in order.
#[verifier::external_body]
pub(crate) fn string_from_chars(chars: &Vec<char>) -> (r: String)
    ensures
        r@ == chars@,
{
    chars.iter().collect()
}

} // verus!
