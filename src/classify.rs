//! Deciding by extension whether a path names a supported media file.
use vstd::prelude::*;
use vstd::string::*;
use crate::path::{extension, extension_of, file_name, file_name_of};
use crate::path::trim_path_end;
use crate::text::{lemma_rfind_bounds, rfind, str_eq};

verus! {

/// What `str::to_lowercase` returns for a string.
pub uninterp spec fn lower_of(s: Seq<char>) -> Seq<char>;

pub open spec fn lower_ascii_char(c: char) -> char {
    if 'A' <= c && c <= 'Z' {
        ((c as u32) + 32) as char
    } else {
        c
    }
}

pub open spec fn is_ascii_seq(s: Seq<char>) -> bool {
    forall|i: int| 0 <= i < s.len() ==> (s[i] as u32) < 128
}

pub open spec fn ascii_lower(s: Seq<char>) -> Seq<char> {
    s.map_values(|c: char| lower_ascii_char(c))
}

/// Relies on `str::to_lowercase`: the result depends on the characters alone,
/// and on ASCII text it maps `A`..`Z` to `a`..`z` and keeps every other character.
#[verifier::external_body]
fn lowercase(s: &str) -> (r: String)
    ensures
        r@ == lower_of(s@),
        is_ascii_seq(s@) ==> r@ == ascii_lower(s@),
{
    s.to_lowercase()
}

/// The allow-list of lower-case media extensions.
pub open spec fn supported_extension(e: Seq<char>) -> bool {
    ||| e == "jpg"@
    ||| e == "jpeg"@
    ||| e == "png"@
    ||| e == "tiff"@
    ||| e == "tif"@
    ||| e == "raw"@
    ||| e == "cr2"@
    ||| e == "nef"@
    ||| e == "arw"@
    ||| e == "dng"@
    ||| e == "mp4"@
    ||| e == "mov"@
    ||| e == "avi"@
    ||| e == "mkv"@
    ||| e == "wmv"@
    ||| e == "m4v"@
    ||| e == "3gp"@
    ||| e == "webm"@
    ||| e == "webp"@
    ||| e == "gif"@
}

pub open spec fn is_media_spec(p: Seq<char>) -> bool {
    match extension_of(file_name_of(p)) {
        Some(e) => supported_extension(lower_of(e)),
        None => false,
    }
}

fn is_supported_extension(e: &str) -> (r: bool)
    ensures
        r == supported_extension(e@),
{
    str_eq(e, "jpg") || str_eq(e, "jpeg") || str_eq(e, "png") || str_eq(e, "tiff")
        || str_eq(e, "tif") || str_eq(e, "raw") || str_eq(e, "cr2") || str_eq(e, "nef")
        || str_eq(e, "arw") || str_eq(e, "dng") || str_eq(e, "mp4") || str_eq(e, "mov")
        || str_eq(e, "avi") || str_eq(e, "mkv") || str_eq(e, "wmv") || str_eq(e, "m4v")
        || str_eq(e, "3gp") || str_eq(e, "webm") || str_eq(e, "webp") || str_eq(e, "gif")
}

/// Whether the last component of `filename` carries a supported media
/// extension, compared after lower-casing. On an ASCII extension this is
/// membership of its ASCII lower-case form, so every letter case of a listed
/// extension is accepted and nothing else is; without an extension the
/// answer is `false`.
pub fn is_media_file(filename: &str) -> (r: bool)
    ensures
        r == is_media_spec(filename@),
        extension_of(file_name_of(filename@)) is None ==> !r,
        forall|e: Seq<char>|
            extension_of(file_name_of(filename@)) == Some(e) && is_ascii_seq(e) ==> r
                == supported_extension(#[trigger] ascii_lower(e)),
{
    let name = file_name(filename);
    match extension(name) {
        Some(ext) => {
            let lowered = lowercase(ext);
            is_supported_extension(lowered.as_str())
        },
        None => false,
    }
}

/// A name written `<stem>.<ext>`, with a stem free of `/` and an extension
/// free of `/` and `.`, has `ext` as its extension; so, by the contract of
/// `is_media_file`, such a name is media exactly when the ASCII lower-case
/// form of an ASCII `ext` is on the allow-list, in whatever letter case `ext`
/// is written.
pub proof fn lemma_extension_of_name(stem: Seq<char>, ext: Seq<char>)
    requires
        stem.len() > 0,
        ext.len() > 0,
        forall|i: int| 0 <= i < stem.len() ==> stem[i] != '/',
        forall|i: int| 0 <= i < ext.len() ==> ext[i] != '/' && ext[i] != '.',
    ensures
        extension_of(file_name_of(stem + seq!['.'] + ext)) == Some(ext),
{
    let s = stem + seq!['.'] + ext;
    assert(s.last() == ext.last());
    assert(s.last() != '.');
    assert(trim_path_end(s) == s);
    lemma_rfind_bounds(s, '/');
    if rfind(s, '/') >= 0 {
        let r = rfind(s, '/');
        if r < stem.len() {
            assert(s[r] == stem[r]);
        } else if r > stem.len() {
            assert(s[r] == ext[r - stem.len() - 1]);
        }
    }
    assert(file_name_of(s) =~= s);
    lemma_rfind_bounds(s, '.');
    let d = rfind(s, '.');
    assert(s[stem.len() as int] == '.');
    if d > stem.len() {
        assert(s[d] == ext[d - stem.len() - 1]);
    }
    assert(d == stem.len());
    assert(s.subrange(d + 1, s.len() as int) =~= ext);
}

} // verus!
