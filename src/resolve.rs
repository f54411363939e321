//! Choosing a capture date: the metadata fields in priority order, then the
//! file's modification time.
use vstd::prelude::*;
use vstd::string::*;
use crate::stats::Origin;
use crate::date::{local_reading_fits, is_trim_of, parse_exif_date, parse_spec, stamp_in_range, trim_text, Stamp};

verus! {

/// How many metadata fields are tried.
pub const DATE_FIELD_COUNT: usize = 4;

/// The metadata fields, in the order in which they are tried.
pub open spec fn date_field_of(i: int) -> Seq<char> {
    if i == 0 {
        "DateTimeOriginal"@
    } else if i == 1 {
        "CreateDate"@
    } else if i == 2 {
        "DateTime"@
    } else {
        "FileModifyDate"@
    }
}

pub fn date_field(i: usize) -> (r: &'static str)
    requires
        i < DATE_FIELD_COUNT,
    ensures
        r@ == date_field_of(i as int),
{
    if i == 0 {
        "DateTimeOriginal"
    } else if i == 1 {
        "CreateDate"
    } else if i == 2 {
        "DateTime"
    } else {
        "FileModifyDate"
    }
}

/// The tool's argument that selects field `i`: the name after a `-`.
pub fn tag_argument(i: usize) -> (r: String)
    requires
        i < DATE_FIELD_COUNT,
    ensures
        r@ == seq!['-'] + date_field_of(i as int),
{
    proof {
        reveal_strlit("-");
    }
    let mut r = String::from_str("-");
    r.append(date_field(i));
    r
}

/// The local date in what the tool printed for one field: the text is
/// trimmed, and empty or unreadable text gives `None`.
pub fn date_from_tool_output(raw: &str) -> (r: Option<Stamp>)
    ensures
        forall|t: Seq<char>| is_trim_of(t, raw@) && parse_spec(t) is None ==> r is None,
        forall|t: Seq<char>|
            #![trigger is_trim_of(t, raw@)]
            is_trim_of(t, raw@) && parse_spec(t) is Some ==> (r matches Some(l)
                && local_reading_fits(parse_spec(t)->0, l)),
        r matches Some(l) ==> stamp_in_range(l),
{
    let t = trim_text(raw);
    let r = parse_exif_date(t);
    proof {
        assert forall|u: Seq<char>| is_trim_of(u, raw@) implies u == t@ by {
            lemma_trim_unique(u, t@, raw@);
        }
    }
    r
}

proof fn lemma_trim_unique(u: Seq<char>, v: Seq<char>, t: Seq<char>)
    requires
        is_trim_of(u, t),
        is_trim_of(v, t),
    ensures
        u == v,
{
    let (a1, b1) = choose|a: int, b: int|
        0 <= a <= b <= t.len() && u == t.subrange(a, b) && (forall|k: int|
            0 <= k < a ==> crate::date::is_white_space(#[trigger] t[k])) && (forall|k: int|
            b <= k < t.len() ==> crate::date::is_white_space(#[trigger] t[k])) && (a < b
            ==> !crate::date::is_white_space(t[a]) && !crate::date::is_white_space(t[b - 1])) && (
        a == b ==> a == t.len());
    let (a2, b2) = choose|a: int, b: int|
        0 <= a <= b <= t.len() && v == t.subrange(a, b) && (forall|k: int|
            0 <= k < a ==> crate::date::is_white_space(#[trigger] t[k])) && (forall|k: int|
            b <= k < t.len() ==> crate::date::is_white_space(#[trigger] t[k])) && (a < b
            ==> !crate::date::is_white_space(t[a]) && !crate::date::is_white_space(t[b - 1])) && (
        a == b ==> a == t.len());
    if a1 < b1 && a2 < b2 {
        assert(a1 == a2);
        assert(b1 == b2);
    }
}

/// Where a resolved date came from.
#[derive(Clone, Copy, Debug, PartialEq, Eq, Structural)]
pub enum DateSource {
    /// The metadata field of this index (see `date_field`).
    Metadata(usize),
    /// The file's modification time.
    Fallback,
}

#[derive(Clone, Copy, Debug)]
pub struct ResolvedDate {
    pub stamp: Stamp,
    pub source: DateSource,
}

impl ResolvedDate {
    /// The counter that this date's source falls under.
    pub fn origin(&self) -> (r: Origin)
        ensures
            r == (if self.source is Fallback {
                Origin::Fallback
            } else {
                Origin::Metadata
            }),
    {
        match self.source {
            DateSource::Metadata(_) => Origin::Metadata,
            DateSource::Fallback => Origin::Fallback,
        }
    }
}

/// Index of the first field that gave a date.
pub open spec fn first_reading(readings: Seq<Option<Stamp>>) -> Option<int>
    decreases readings.len(),
{
    if readings.len() == 0 {
        None
    } else if readings[0] is Some {
        Some(0)
    } else {
        match first_reading(readings.drop_first()) {
            Some(i) => Some(i + 1),
            None => None,
        }
    }
}

proof fn lemma_first_reading(readings: Seq<Option<Stamp>>)
    ensures
        match first_reading(readings) {
            Some(i) => 0 <= i < readings.len() && readings[i] is Some && forall|j: int|
                0 <= j < i ==> readings[j] is None,
            None => forall|j: int| 0 <= j < readings.len() ==> readings[j] is None,
        },
    decreases readings.len(),
{
    if readings.len() > 0 && readings[0] is None {
        lemma_first_reading(readings.drop_first());
        assert forall|j: int| 0 < j < readings.len() implies readings[j] == readings.drop_first()[j
            - 1] by {}
    }
}

/// Whether no field gave a date, so that the modification time is needed.
pub fn needs_fallback(readings: &Vec<Option<Stamp>>) -> (r: bool)
    ensures
        r == (first_reading(readings@) is None),
{
    proof {
        lemma_first_reading(readings@);
    }
    let mut i: usize = 0;
    while i < readings.len()
        invariant
            i <= readings@.len(),
            forall|j: int| 0 <= j < i ==> readings@[j] is None,
        decreases readings@.len() - i,
    {
        if readings[i].is_some() {
            proof {
                lemma_first_reading(readings@);
                assert(readings@[i as int] is Some);
            }
            return false;
        }
        i = i + 1;
    }
    true
}

/// Whether the tool is asked for another field: fewer than all fields were
/// asked and none of them gave a date. The next field to ask is the one at
/// index `readings.len()`.
pub fn should_query_next(readings: &Vec<Option<Stamp>>) -> (r: bool)
    ensures
        r == (readings@.len() < DATE_FIELD_COUNT && first_reading(readings@) is None),
{
    readings.len() < DATE_FIELD_COUNT && needs_fallback(readings)
}

/// The date of a file from what the metadata fields gave, in priority
/// order (`None` for a field that was absent, empty or unreadable, or whose
/// lookup failed): the first field that gave a date, else the modification
/// time `modified`. `None` only when no field gave a date and the
/// modification time could not be read.
pub fn resolve_date(readings: &Vec<Option<Stamp>>, modified: Option<Stamp>) -> (r: Option<
    ResolvedDate,
>)
    ensures
        match first_reading(readings@) {
            Some(i) => r matches Some(d) && d.source == DateSource::Metadata(i as usize)
                && readings@[i] == Some(d.stamp),
            None => match modified {
                Some(m) => r matches Some(d) && d.source == DateSource::Fallback && d.stamp == m,
                None => r is None,
            },
        },
        (forall|j: int| 0 <= j < readings@.len() ==> readings@[j] is None) ==> (r matches Some(d)
            ==> d.source == DateSource::Fallback),
{
    proof {
        lemma_first_reading(readings@);
    }
    let mut i: usize = 0;
    while i < readings.len()
        invariant
            i <= readings@.len(),
            forall|j: int| 0 <= j < i ==> readings@[j] is None,
        decreases readings@.len() - i,
    {
        if let Some(s) = readings[i] {
            proof {
                lemma_first_reading(readings@);
                assert(first_reading(readings@) == Some(i as int));
            }
            return Some(ResolvedDate { stamp: s, source: DateSource::Metadata(i) });
        }
        i = i + 1;
    }
    match modified {
        Some(m) => Some(ResolvedDate { stamp: m, source: DateSource::Fallback }),
        None => None,
    }
}

} // verus!
