//! The names of dated reports, and where their archived copies go.

use vstd::prelude::*;
use vstd::string::StringExecFns;

verus! {

/// Why a path cannot be archived.
#[derive(Debug, Clone, Copy, PartialEq, Eq, Structural)]
pub enum ArchiveError {
    /// The file name does not start with eight digits and end in `.txt`.
    BadFileName,
}

pub open spec fn is_digit(c: char) -> bool {
    '0' <= c && c <= '9'
}

/// The first eight characters of `s` are digits.
pub open spec fn has_date_prefix(s: Seq<char>) -> bool {
    &&& s.len() >= 8
    &&& forall|i: int| 0 <= i < 8 ==> #[trigger] is_digit(s[i])
}

/// `s` ends with `.txt`.
pub open spec fn has_txt_suffix(s: Seq<char>) -> bool {
    let n = s.len() as int;
    &&& n >= 4
    &&& s[n - 4] == '.'
    &&& s[n - 3] == 't'
    &&& s[n - 2] == 'x'
    &&& s[n - 1] == 't'
}

/// A name that an archive directory can be derived from: eight digits,
/// then anything, then `.txt`.
pub open spec fn is_archivable_name(s: Seq<char>) -> bool {
    s.len() >= 12 && has_date_prefix(s) && has_txt_suffix(s)
}

/// The name of a dated report: exactly eight digits followed by `.txt`.
pub open spec fn is_dated_name(s: Seq<char>) -> bool {
    s.len() == 12 && has_date_prefix(s) && has_txt_suffix(s)
}

/// `Archive/YYYY/MM`, where `YYYY` and `MM` are the first four and the next
/// two characters of `name`.
pub open spec fn archive_subdir(name: Seq<char>) -> Seq<char> {
    seq!['A', 'r', 'c', 'h', 'i', 'v', 'e', '/'] + name.subrange(0, 4) + seq!['/'] + name.subrange(
        4,
        6,
    )
}

fn is_digit_char(c: char) -> (r: bool)
    ensures
        r == is_digit(c),
{
    '0' <= c && c <= '9'
}

fn date_prefix_ok(s: &str) -> (r: bool)
    requires
        s@.len() >= 8,
    ensures
        r == has_date_prefix(s@),
{
    let mut i: usize = 0;
    while i < 8
        invariant
            s@.len() >= 8,
            i <= 8,
            forall|j: int| 0 <= j < i ==> #[trigger] is_digit(s@[j]),
        decreases 8 - i,
    {
        if !is_digit_char(s.get_char(i)) {
            return false;
        }
        i = i + 1;
    }
    true
}

fn txt_suffix_ok(s: &str) -> (r: bool)
    ensures
        r == has_txt_suffix(s@),
{
    let n = s.unicode_len();
    if n < 4 {
        return false;
    }
    s.get_char(n - 4) == '.' && s.get_char(n - 3) == 't' && s.get_char(n - 2) == 'x'
        && s.get_char(n - 1) == 't'
}

/// Whether `name` is the name of a dated report (`YYYYMMDD.txt`).
pub fn is_dated_report_name(name: &str) -> (r: bool)
    ensures
        r == is_dated_name(name@),
{
    let n = name.unicode_len();
    n == 12 && date_prefix_ok(name) && txt_suffix_ok(name)
}

/// The archive directory, relative to the base directory, of the report
/// named `file_name`: `20200826.txt` goes to `Archive/2020/08`.
/// Only the positions count: a month `13` is taken as it stands.
pub fn generate_partial_path_for_archive_dir(file_name: &str) -> (r: Result<String, ArchiveError>)
    ensures
        r is Ok <==> is_archivable_name(file_name@),
        r matches Ok(p) ==> p@ == archive_subdir(file_name@),
{
    let n = file_name.unicode_len();
    if n < 12 || !date_prefix_ok(file_name) || !txt_suffix_ok(file_name) {
        return Err(ArchiveError::BadFileName);
    }
    let mut r = "Archive/".to_owned();
    r.append(file_name.substring_char(0, 4));
    r.append("/");
    r.append(file_name.substring_char(4, 6));
    proof {
        reveal_strlit("Archive/");
        reveal_strlit("/");
    }
    assert(r@ =~= archive_subdir(file_name@));
    Ok(r)
}

} // verus!
