//! Where a file goes: `<base>/<year>/<month name>/<name>`, with a numeric
//! suffix when that name is already taken.
use vstd::prelude::*;
use vstd::string::*;
use crate::date::Stamp;
use crate::path::{
    extension,
    extension_of,
    file_name,
    file_name_of,
    join,
    join_of,
    parent,
    parent_of,
    stem,
    stem_of,
};
use crate::path::trim_path_end;
use crate::text::{lemma_rfind_bounds, rfind, str_eq};
use vstd::set_lib::lemma_len_subset;

verus! {

pub open spec fn digit_char(d: int) -> char {
    if d == 0 {
        '0'
    } else if d == 1 {
        '1'
    } else if d == 2 {
        '2'
    } else if d == 3 {
        '3'
    } else if d == 4 {
        '4'
    } else if d == 5 {
        '5'
    } else if d == 6 {
        '6'
    } else if d == 7 {
        '7'
    } else if d == 8 {
        '8'
    } else {
        '9'
    }
}

/// Decimal digits of `n`, most significant first, without leading zeros.
pub open spec fn dec(n: nat) -> Seq<char>
    decreases n,
{
    if n < 10 {
        seq![digit_char(n as int)]
    } else {
        dec(n / 10).push(digit_char((n % 10) as int))
    }
}

/// A year as `i32::to_string` writes it.
pub open spec fn year_text_of(y: int) -> Seq<char> {
    if y < 0 {
        seq!['-'] + dec((-y) as nat)
    } else {
        dec(y as nat)
    }
}

pub open spec fn month_name_of(m: int) -> Seq<char> {
    if m == 1 {
        "January"@
    } else if m == 2 {
        "February"@
    } else if m == 3 {
        "March"@
    } else if m == 4 {
        "April"@
    } else if m == 5 {
        "May"@
    } else if m == 6 {
        "June"@
    } else if m == 7 {
        "July"@
    } else if m == 8 {
        "August"@
    } else if m == 9 {
        "September"@
    } else if m == 10 {
        "October"@
    } else if m == 11 {
        "November"@
    } else {
        "December"@
    }
}

fn digit_text(d: u64) -> (r: &'static str)
    requires
        d < 10,
    ensures
        r@ == seq![digit_char(d as int)],
{
    proof {
        reveal_strlit("0");
        reveal_strlit("1");
        reveal_strlit("2");
        reveal_strlit("3");
        reveal_strlit("4");
        reveal_strlit("5");
        reveal_strlit("6");
        reveal_strlit("7");
        reveal_strlit("8");
        reveal_strlit("9");
    }
    let r = if d == 0 {
        "0"
    } else if d == 1 {
        "1"
    } else if d == 2 {
        "2"
    } else if d == 3 {
        "3"
    } else if d == 4 {
        "4"
    } else if d == 5 {
        "5"
    } else if d == 6 {
        "6"
    } else if d == 7 {
        "7"
    } else if d == 8 {
        "8"
    } else {
        "9"
    };
    assert(r@ =~= seq![digit_char(d as int)]);
    r
}

/// `n` in decimal.
pub fn decimal(n: u64) -> (r: String)
    ensures
        r@ == dec(n as nat),
    decreases n,
{
    if n < 10 {
        String::from_str(digit_text(n))
    } else {
        let mut r = decimal(n / 10);
        r.append(digit_text(n % 10));
        r
    }
}

pub fn year_text(y: i32) -> (r: String)
    ensures
        r@ == year_text_of(y as int),
{
    if y < 0 {
        proof {
            reveal_strlit("-");
        }
        let mut r = String::from_str("-");
        let digits = decimal((-(y as i64)) as u64);
        r.append(digits.as_str());
        r
    } else {
        decimal(y as u64)
    }
}

/// Full English name of month `m`.
pub fn month_name(m: u32) -> (r: &'static str)
    requires
        1 <= m <= 12,
    ensures
        r@ == month_name_of(m as int),
{
    if m == 1 {
        "January"
    } else if m == 2 {
        "February"
    } else if m == 3 {
        "March"
    } else if m == 4 {
        "April"
    } else if m == 5 {
        "May"
    } else if m == 6 {
        "June"
    } else if m == 7 {
        "July"
    } else if m == 8 {
        "August"
    } else if m == 9 {
        "September"
    } else if m == 10 {
        "October"
    } else if m == 11 {
        "November"
    } else {
        "December"
    }
}

pub open spec fn destination_dir_of(base: Seq<char>, year: int, month: int) -> Seq<char> {
    join_of(join_of(base, year_text_of(year)), month_name_of(month))
}

/// The folder for a date: `<dest_base>/<year>/<month name>`.
pub fn destination_dir(dest_base: &str, date: &Stamp) -> (r: String)
    requires
        1 <= date.month <= 12,
    ensures
        r@ == destination_dir_of(dest_base@, date.year as int, date.month as int),
{
    let y = year_text(date.year);
    let d = join(dest_base, y.as_str());
    join(d.as_str(), month_name(date.month))
}

/// Whether the file at `source` already sits directly in `dest_dir`.
pub fn already_in_place(source: &str, dest_dir: &str) -> (r: bool)
    ensures
        r == (parent_of(source@) == dest_dir@),
{
    let p = parent(source);
    str_eq(p.as_str(), dest_dir)
}

/// The path for `filename` inside `dest_dir`.
pub fn planned_path(dest_dir: &str, source: &str) -> (r: String)
    ensures
        r@ == join_of(dest_dir@, file_name_of(source@)),
{
    join(dest_dir, file_name(source))
}

/// The stem of the last component, or `file` where there is no name.
pub open spec fn stem_or_default(p: Seq<char>) -> Seq<char> {
    if file_name_of(p).len() == 0 {
        "file"@
    } else {
        stem_of(file_name_of(p))
    }
}

/// The name of the `n`-th alternative: `<stem>_<n>.<ext>`, or
/// `<stem>_<n>` when the extension is missing or empty.
pub open spec fn suffixed_name(p: Seq<char>, n: nat) -> Seq<char> {
    let base = stem_or_default(p) + seq!['_'] + dec(n);
    match extension_of(file_name_of(p)) {
        Some(e) => if e.len() == 0 {
            base
        } else {
            base + seq!['.'] + e
        },
        None => base,
    }
}

/// The `n`-th path tried for `p`: `p` itself for 0, else the suffixed name
/// beside it.
pub open spec fn candidate_of(p: Seq<char>, n: nat) -> Seq<char> {
    if n == 0 {
        p
    } else {
        join_of(parent_of(p), suffixed_name(p, n))
    }
}

pub fn candidate_path(original: &str, n: u64) -> (r: String)
    ensures
        r@ == candidate_of(original@, n as nat),
{
    if n == 0 {
        return String::from_str(original);
    }
    let name = file_name(original);
    let mut s = if name.unicode_len() == 0 {
        proof {
            reveal_strlit("file");
        }
        String::from_str("file")
    } else {
        String::from_str(stem(name))
    };
    proof {
        reveal_strlit("_");
        reveal_strlit(".");
    }
    s.append("_");
    let digits = decimal(n);
    s.append(digits.as_str());
    match extension(name) {
        Some(e) => {
            if e.unicode_len() != 0 {
                s.append(".");
                s.append(e);
            }
        },
        None => {},
    }
    assert(s@ =~= suffixed_name(original@, n as nat));
    let dir = parent(original);
    join(dir.as_str(), s.as_str())
}

proof fn lemma_dec_len(n: nat)
    ensures
        dec(n).len() >= 1,
        n >= 10 ==> dec(n).len() >= 2,
    decreases n,
{
    if n >= 10 {
        lemma_dec_len(n / 10);
    }
}

proof fn lemma_digit_char_injective(a: int, b: int)
    requires
        0 <= a < 10,
        0 <= b < 10,
        digit_char(a) == digit_char(b),
    ensures
        a == b,
{
}

proof fn lemma_dec_injective(a: nat, b: nat)
    requires
        dec(a) == dec(b),
    ensures
        a == b,
    decreases a,
{
    lemma_dec_len(a);
    lemma_dec_len(b);
    if a >= 10 && b >= 10 {
        assert(dec(a).drop_last() =~= dec(a / 10));
        assert(dec(b).drop_last() =~= dec(b / 10));
        lemma_dec_injective(a / 10, b / 10);
        assert(dec(a).last() == digit_char((a % 10) as int));
        assert(dec(b).last() == digit_char((b % 10) as int));
        lemma_digit_char_injective((a % 10) as int, (b % 10) as int);
    } else if a < 10 && b < 10 {
        assert(dec(a)[0] == digit_char(a as int));
        assert(dec(b)[0] == digit_char(b as int));
        lemma_digit_char_injective(a as int, b as int);
    }
}

/// Distinct suffix numbers give distinct paths.
proof fn lemma_candidates_distinct(p: Seq<char>, a: nat, b: nat)
    requires
        a >= 1,
        b >= 1,
        a != b,
    ensures
        candidate_of(p, a) != candidate_of(p, b),
{
    let par = parent_of(p);
    let q: Seq<char> = if par.len() == 0 {
        Seq::empty()
    } else if par.last() == '/' {
        par
    } else {
        par + seq!['/']
    };
    let s = stem_or_default(p) + seq!['_'];
    let t: Seq<char> = match extension_of(file_name_of(p)) {
        Some(e) => if e.len() == 0 {
            Seq::empty()
        } else {
            seq!['.'] + e
        },
        None => Seq::empty(),
    };
    assert(candidate_of(p, a) =~= q + s + dec(a) + t);
    assert(candidate_of(p, b) =~= q + s + dec(b) + t);
    if candidate_of(p, a) == candidate_of(p, b) {
        let lo: int = (q.len() + s.len()) as int;
        assert(dec(a).len() == dec(b).len());
        assert(dec(a) =~= candidate_of(p, a).subrange(lo, lo + dec(a).len() as int));
        assert(dec(b) =~= candidate_of(p, b).subrange(lo, lo + dec(b).len() as int));
        lemma_dec_injective(a, b);
    }
}

/// The paths named by a list of strings.
pub open spec fn taken_set(existing: Seq<String>) -> Set<Seq<char>> {
    existing.map_values(|s: String| s@).to_set()
}

/// `n` is the first suffix number whose path for `p` is not taken.
pub open spec fn first_free(p: Seq<char>, taken: Set<Seq<char>>, n: nat) -> bool {
    &&& !taken.contains(candidate_of(p, n))
    &&& forall|m: nat| m < n ==> taken.contains(#[trigger] candidate_of(p, m))
}

fn contains_text(existing: &Vec<String>, s: &str) -> (r: bool)
    ensures
        r == taken_set(existing@).contains(s@),
{
    let ghost ex = existing@.map_values(|x: String| x@);
    let mut i: usize = 0;
    while i < existing.len()
        invariant
            i <= existing@.len(),
            ex == existing@.map_values(|x: String| x@),
            forall|j: int| 0 <= j < i ==> ex[j] != s@,
        decreases existing@.len() - i,
    {
        if str_eq(existing[i].as_str(), s) {
            assert(ex[i as int] == s@);
            return true;
        }
        i = i + 1;
    }
    assert(!ex.contains(s@));
    false
}

/// A path for `original_path` that none of `existing` holds: the path
/// itself when free, else the first free of `<stem>_1.<ext>`,
/// `<stem>_2.<ext>`, ... beside it.
pub fn get_unique_file_path(original_path: &str, existing: &Vec<String>) -> (r: String)
    requires
        existing@.len() < u64::MAX,
    ensures
        exists|n: nat| first_free(original_path@, taken_set(existing@), n) && r@ == candidate_of(
            original_path@,
            n,
        ),
{
    let ghost p = original_path@;
    let ghost taken = taken_set(existing@);
    let k: u64 = existing.len() as u64;
    let mut n: u64 = 0;
    loop
        invariant
            n <= k + 1,
            k == existing@.len(),
            k < u64::MAX,
            p == original_path@,
            taken == taken_set(existing@),
            forall|m: nat| m < n ==> taken.contains(#[trigger] candidate_of(p, m)),
        decreases k + 1 - n,
    {
        let c = candidate_path(original_path, n);
        if !contains_text(existing, c.as_str()) {
            assert(first_free(p, taken, n as nat));
            return c;
        }
        if n == k + 1 {
            proof {
                let cs = Seq::new((k + 1) as nat, |j: int| candidate_of(p, (j + 1) as nat));
                assert forall|i: int, j: int| 0 <= i < cs.len() && 0 <= j < cs.len() && i != j
                    implies cs[i] != cs[j] by {
                    lemma_candidates_distinct(p, (i + 1) as nat, (j + 1) as nat);
                }
                assert(cs.no_duplicates());
                cs.unique_seq_to_set();
                let ex = existing@.map_values(|x: String| x@);
                ex.lemma_cardinality_of_set();
                assert forall|x: Seq<char>| cs.to_set().contains(x) implies ex.to_set().contains(
                    x,
                ) by {
                    let j = choose|j: int| 0 <= j < cs.len() && cs[j] == x;
                    assert(taken.contains(candidate_of(p, (j + 1) as nat)));
                }
                lemma_len_subset(cs.to_set(), ex.to_set());
            }
            return c;
        }
        n = n + 1;
    }
}

/// Planning twice, the second time with the first result taken, gives two
/// different paths, neither of which was taken before.
pub proof fn lemma_plans_never_collide(p: Seq<char>, taken: Set<Seq<char>>, first: Seq<char>, second: Seq<char>)
    requires
        exists|n: nat| first_free(p, taken, n) && first == candidate_of(p, n),
        exists|n: nat| first_free(p, taken.insert(first), n) && second == candidate_of(p, n),
    ensures
        !taken.contains(first),
        !taken.contains(second),
        first != second,
{
}

/// A file placed at a name (other than `.`) inside a folder has that folder
/// as its parent:
/// once moved to its planned path (suffixed or not), planning the same file
/// for the same date finds it already in place.
pub proof fn lemma_placed_file_is_in_place(dir: Seq<char>, name: Seq<char>)
    requires
        dir.len() > 0,
        dir.last() != '/',
        name.len() > 0,
        name != seq!['.'],
        forall|i: int| 0 <= i < name.len() ==> name[i] != '/',
    ensures
        parent_of(join_of(dir, name)) == dir,
{
    let s = join_of(dir, name);
    assert(s =~= dir + seq!['/'] + name);
    assert(s.last() == name.last());
    if name.last() == '.' && s[s.len() - 2] == '/' {
        if name.len() >= 2 {
            assert(s[s.len() - 2] == name[name.len() - 2]);
        } else {
            assert(name =~= seq!['.']);
        }
    }
    assert(trim_path_end(s) == s);
    lemma_rfind_bounds(s, '/');
    let r = rfind(s, '/');
    assert(s[dir.len() as int] == '/');
    if r > dir.len() {
        assert(s[r] == name[r - dir.len() - 1]);
    }
    assert(r == dir.len());
    assert(s.subrange(0, r) =~= dir);
}

} // verus!
