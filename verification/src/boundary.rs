//! Where this crate meets code that Verus has not read.
//!
//! Every contract in this module is taken on faith: each item names the
//! function it stands for and says what is claimed of it. Everything else in
//! the crate is proved from these claims.

use vstd::prelude::*;

verus! {

/// One entry met while walking a directory tree.
pub struct TreeEntry {
    /// The entry's path, the walk's root included.
    pub path: String,
    /// Whether the entry is a directory.
    pub is_dir: bool,
}

/// The text that `str::to_uppercase` makes of `s`. The mapping follows the
/// Unicode tables that std carries and may change the length of a text, so
/// it is named here, not written out.
pub uninterp spec fn uppercase(s: Seq<char>) -> Seq<char>;

/// `str::to_uppercase` of std: the result depends on the characters of `s`
/// alone.
pub assume_specification[ str::to_uppercase ](s: &str) -> (r: String)
    ensures
        r@ == uppercase(s@),
;

/// `String::push` of std: appends `ch` to the end of the string.
pub assume_specification[ String::push ](s: &mut String, ch: char)
    ensures
        final(s)@ == old(s)@.push(ch),
;

/// `glob::PatternError`: what `glob` reports of a pattern it cannot compile.
#[verifier::external_type_specification]
#[verifier::external_body]
pub struct ExPatternError(glob::PatternError);

/// Whether `glob::glob_with` refuses `pattern` as malformed. It compiles the
/// pattern, and each of its path components, before it reads anything from
/// disk, so the refusal depends on the characters of the pattern alone.
pub uninterp spec fn malformed_pattern(pattern: Seq<char>) -> bool;

/// `glob::glob_with` under `glob::MatchOptions::new()`: the paths on disk
/// that match `pattern`, each as text. Paths that could not be read are left
/// out. Nothing is claimed of the paths: they depend on what the disk holds.
/// The call fails exactly when the pattern is malformed.
#[verifier::external_body]
pub(crate) fn glob_paths(pattern: &str) -> (found: Result<Vec<String>, glob::PatternError>)
    ensures
        found is Err <==> malformed_pattern(pattern@),
{
    match glob::glob_with(pattern, glob::MatchOptions::new()) {
        Ok(paths) => Ok(
            paths.filter_map(|p| p.ok()).map(|p| p.to_string_lossy().into_owned()).collect(),
        ),
        Err(e) => Err(e),
    }
}

/// `walkdir::WalkDir::new(root)`, walked to its end: every entry below
/// `root`, and `root` itself, in the order of the walk. Entries that could
/// not be read are left out. Nothing is claimed of the entries: they depend
/// on what the disk holds.
#[verifier::external_body]
pub(crate) fn walk_tree(root: &str) -> (entries: Vec<TreeEntry>)
{
    walkdir::WalkDir::new(root)
        .into_iter()
        .filter_map(|e| e.ok())
        .map(|e| TreeEntry {
            path: e.path().to_string_lossy().into_owned(),
            is_dir: e.file_type().is_dir(),
        })
        .collect()
}

/// A number below one hundred as two decimal digits.
pub open spec fn two_digits(n: nat) -> Seq<char> {
    seq![crate::text::digit(n / 10), crate::text::digit(n % 10)]
}

/// A time of day as `HH:MM:SS`.
pub open spec fn clock_text(hour: nat, min: nat, sec: nat) -> Seq<char> {
    two_digits(hour) + seq![':'] + two_digits(min) + seq![':'] + two_digits(sec)
}

/// `chrono::NaiveTime::from_hms`, printed with `format("%H:%M:%S")`: hour,
/// minute and second, each as two digits with a leading zero where needed.
/// `from_hms` panics on an hour of 24 or more and on a minute or second of 60
/// or more.
#[verifier::external_body]
pub(crate) fn clock_string(hour: u32, min: u32, sec: u32) -> (r: String)
    requires
        hour < 24,
        min < 60,
        sec < 60,
    ensures
        r@ == clock_text(hour as nat, min as nat, sec as nat),
{
    #[allow(deprecated)]
    let time = chrono::NaiveTime::from_hms(hour, min, sec);
    time.format("%H:%M:%S").to_string()
}

} // verus!
