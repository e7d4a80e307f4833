//! Folder names and the titles derived from them.
use vstd::prelude::*;
use vstd::string::*;

verus! {

#[verifier::external_type_specification]
#[verifier::external_body]
pub struct ExRegex(regex::Regex);

/// Pattern of a numbered folder name: one or more ASCII decimal digits,
/// then `_`.
pub const NUMBERED_PREFIX: &'static str = "^[0-9]+_";

pub open spec fn is_digit(c: char) -> bool {
    '0' <= c && c <= '9'
}

/// Length of the run of decimal digits that `s` starts with.
pub open spec fn digit_run(s: Seq<char>) -> nat
    decreases s.len(),
{
    if s.len() > 0 && is_digit(s[0]) {
        1 + digit_run(s.drop_first())
    } else {
        0
    }
}

/// `s` starts with at least one digit followed by `_`.
pub open spec fn has_numbered_prefix(s: Seq<char>) -> bool {
    0 < digit_run(s) < s.len() && s[digit_run(s) as int] == '_'
}

/// The folder projection: `s` without its leading digits and the `_` after them.
pub open spec fn strip_numbered_prefix(s: Seq<char>) -> Seq<char> {
    if has_numbered_prefix(s) {
        s.subrange(digit_run(s) as int + 1, s.len() as int)
    } else {
        s
    }
}

/// Every `_` of `s` turned into a space.
pub open spec fn spaced(s: Seq<char>) -> Seq<char> {
    s.map_values(|c: char| if c == '_' { ' ' } else { c })
}

/// The title projection of a folder name.
pub open spec fn clean_title(s: Seq<char>) -> Seq<char> {
    spaced(strip_numbered_prefix(s))
}

/// A book title derived from a folder name: `_` and `-` become spaces.
pub open spec fn derived_title(s: Seq<char>) -> Seq<char> {
    s.map_values(|c: char| if c == '_' || c == '-' { ' ' } else { c })
}

/// Relies on str::replace with a one-character pattern: each occurrence of
/// `from` is replaced by `to`, every other character is kept in place.
#[verifier::external_body]
pub(crate) fn replace_char(s: &str, from: char, to: char) -> (r: String)
    ensures
        r@ == s@.map_values(|c: char| if c == from { to } else { c }),
{
    let mut buf = [0u8; 4];
    s.replace(from, to.encode_utf8(&mut buf))
}

/// Recognises and strips the numbered prefix of folder names. The field is
/// private and `new` is the only constructor, so the regex held is always
/// the one compiled from `NUMBERED_PREFIX`.
pub struct NameNormalizer {
    prefix: regex::Regex,
}

/// Relies on regex::Regex::new, which compiles a valid pattern without error.
#[verifier::external_body]
fn compile_pattern(pattern: &str) -> (r: regex::Regex)
    requires
        pattern@ == NUMBERED_PREFIX@,
{
    regex::Regex::new(pattern).unwrap()
}

impl NameNormalizer {
    pub fn new() -> (r: NameNormalizer) {
        NameNormalizer { prefix: compile_pattern(NUMBERED_PREFIX) }
    }

    /// Relies on regex::Regex::is_match for the pattern `^[0-9]+_`, the only
    /// one a `NameNormalizer` holds.
    #[verifier::external_body]
    pub(crate) fn is_numbered(&self, name: &str) -> (r: bool)
        ensures
            r == has_numbered_prefix(name@),
    {
        self.prefix.is_match(name)
    }

    /// Relies on regex::Regex::replace for the pattern `^[0-9]+_`, the only
    /// one a `NameNormalizer` holds: the first match, if any, is removed.
    #[verifier::external_body]
    pub(crate) fn strip_prefix(&self, name: &str) -> (r: String)
        ensures
            r@ == strip_numbered_prefix(name@),
    {
        self.prefix.replace(name, "").into_owned()
    }
}

/// The display title of a chapter or section folder: the numbered prefix is
/// removed and the remaining `_` become spaces.
pub fn clean_name(norm: &NameNormalizer, name: &str) -> (r: String)
    ensures
        r@ == clean_title(name@),
{
    let stripped = norm.strip_prefix(name);
    replace_char(stripped.as_str(), '_', ' ')
}

/// The title a book gets from its folder name.
pub fn default_title(base_dir: &str) -> (r: String)
    ensures
        r@ == derived_title(base_dir@),
{
    let a = replace_char(base_dir, '_', ' ');
    let b = replace_char(a.as_str(), '-', ' ');
    assert(b@ =~= derived_title(base_dir@));
    b
}

/// The marker that ends the name of every book folder.
pub const BOOK_SUFFIX: &'static str = "-Bacon";

/// `s` ends with `suffix`.
pub open spec fn ends_with(s: Seq<char>, suffix: Seq<char>) -> bool {
    suffix.len() <= s.len() && s.subrange(s.len() - suffix.len(), s.len() as int) == suffix
}

/// `s` without `suffix`, if it ends with it.
pub open spec fn without_suffix(s: Seq<char>, suffix: Seq<char>) -> Seq<char> {
    if ends_with(s, suffix) {
        s.subrange(0, s.len() - suffix.len())
    } else {
        s
    }
}

/// Whether `s` ends with `suffix`.
pub fn has_suffix(s: &str, suffix: &str) -> (r: bool)
    ensures
        r == ends_with(s@, suffix@),
{
    let ls = s.unicode_len();
    let lx = suffix.unicode_len();
    if lx > ls {
        return false;
    }
    let off = ls - lx;
    let mut i: usize = 0;
    while i < lx
        invariant
            ls == s@.len(),
            lx == suffix@.len(),
            off == ls - lx,
            i <= lx,
            forall|k: int| 0 <= k < i ==> s@[off + k] == suffix@[k],
        decreases lx - i,
    {
        if s.get_char(off + i) != suffix.get_char(i) {
            assert(s@.subrange(off as int, ls as int)[i as int] != suffix@[i as int]);
            return false;
        }
        i = i + 1;
    }
    assert(s@.subrange(off as int, ls as int) =~= suffix@);
    true
}

/// Whether the folder `name` holds a book.
pub fn is_book_folder(name: &str) -> (r: bool)
    ensures
        r == ends_with(name@, BOOK_SUFFIX@),
{
    has_suffix(name, BOOK_SUFFIX)
}

/// The name of a book folder without the book marker.
pub fn book_stem(name: &str) -> (r: String)
    ensures
        r@ == without_suffix(name@, BOOK_SUFFIX@),
{
    if has_suffix(name, BOOK_SUFFIX) {
        let ls = name.unicode_len();
        let lx = BOOK_SUFFIX.unicode_len();
        String::from_str(name.substring_char(0, ls - lx))
    } else {
        String::from_str(name)
    }
}

/// Whether a chapter folder name carries the numbered prefix.
pub fn is_numbered_chapter(norm: &NameNormalizer, name: &str) -> (r: bool)
    ensures
        r == has_numbered_prefix(name@),
{
    norm.is_numbered(name)
}

} // verus!
