//! The work on one candidate and on a whole tree, apart from the file
//! system calls themselves.
use vstd::prelude::*;
use vstd::string::*;
use crate::classify::{is_media_file, is_media_spec};
use crate::path::{file_name, file_name_of, join_of, parent_of};
use crate::text::str_eq;
use crate::plan::{
    already_in_place,
    candidate_of,
    destination_dir,
    destination_dir_of,
    first_free,
    get_unique_file_path,
    planned_path,
    taken_set,
};
use crate::resolve::ResolvedDate;
use crate::date::{lemma_near_mid_month, local_reading_fits, valid_stamp, Stamp};

verus! {

/// A path names a file: its last component is neither empty, `.` nor `..`.
pub open spec fn has_file_name(p: Seq<char>) -> bool {
    file_name_of(p).len() > 0 && file_name_of(p) != "."@ && file_name_of(p) != ".."@
}

/// Where a candidate goes.
#[derive(Debug)]
pub enum Plan {
    /// The file already sits in the folder for its date.
    AlreadyInPlace,
    /// The source path has no file name to keep.
    InvalidFilename,
    /// Create `dir` and move the file to `path`.
    MoveTo { dir: String, path: String },
}

/// The folder for `date` under `dest_base`, and within it a path for the
/// file at `source` that none of `existing` (the paths already in that
/// folder) holds; or `AlreadyInPlace` when `source` is directly in that
/// folder; or else `InvalidFilename` when `source` has no file name.
pub fn plan_destination(
    source: &str,
    dest_base: &str,
    date: &ResolvedDate,
    existing: &Vec<String>,
) -> (r: Plan)
    requires
        1 <= date.stamp.month <= 12,
        existing@.len() < u64::MAX,
    ensures
        ({
            let dir = destination_dir_of(
                dest_base@,
                date.stamp.year as int,
                date.stamp.month as int,
            );
            let wanted = join_of(dir, file_name_of(source@));
            match r {
                Plan::AlreadyInPlace => parent_of(source@) == dir,
                Plan::InvalidFilename => parent_of(source@) != dir && !has_file_name(source@),
                Plan::MoveTo { dir: d, path: p } => parent_of(source@) != dir && has_file_name(
                    source@,
                ) && d@ == dir
                    && exists|n: nat|
                    first_free(wanted, taken_set(existing@), n) && p@ == candidate_of(wanted, n),
            }
        }),
{
    let dir = destination_dir(dest_base, &date.stamp);
    if already_in_place(source, dir.as_str()) {
        return Plan::AlreadyInPlace;
    }
    let name = file_name(source);
    if name.unicode_len() == 0 || str_eq(name, ".") || str_eq(name, "..") {
        return Plan::InvalidFilename;
    }
    let wanted = planned_path(dir.as_str(), source);
    let path = get_unique_file_path(wanted.as_str(), existing);
    Plan::MoveTo { dir, path }
}

/// How many of `paths` name media files.
pub open spec fn media_count(paths: Seq<String>) -> nat
    decreases paths.len(),
{
    if paths.len() == 0 {
        0
    } else {
        media_count(paths.drop_last()) + if is_media_spec(paths.last()@) {
            1nat
        } else {
            0nat
        }
    }
}

/// Counts the media files among the files of a tree.
pub fn count_media_files(paths: &Vec<String>) -> (r: usize)
    ensures
        r == media_count(paths@),
{
    let mut n: usize = 0;
    let mut i: usize = 0;
    while i < paths.len()
        invariant
            i <= paths@.len(),
            n == media_count(paths@.subrange(0, i as int)),
            n <= i,
        decreases paths@.len() - i,
    {
        assert(paths@.subrange(0, i + 1).drop_last() =~= paths@.subrange(0, i as int));
        if is_media_file(paths[i].as_str()) {
            n = n + 1;
        }
        i = i + 1;
    }
    assert(paths@.subrange(0, i as int) =~= paths@);
    n
}

/// A date written without an offset for a day between the 2nd and the 27th
/// keeps its year and month when read as local time, whatever the time zone,
/// and so gets the folder of its written year and month.
pub proof fn lemma_written_month_decides_folder(
    parsed: (Stamp, Option<i32>),
    local: Stamp,
    base: Seq<char>,
)
    requires
        valid_stamp(parsed.0),
        parsed.1 is None,
        2 <= parsed.0.day <= 27,
        local_reading_fits(parsed, local),
    ensures
        local.year == parsed.0.year,
        local.month == parsed.0.month,
        destination_dir_of(base, local.year as int, local.month as int) == destination_dir_of(
            base,
            parsed.0.year as int,
            parsed.0.month as int,
        ),
{
    if local != parsed.0 {
        lemma_near_mid_month(parsed.0, local);
    }
}

} // verus!
