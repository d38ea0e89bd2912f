//! Finding the annotated image for a logical image name among the files of a
//! run's output directory, when the detection stage may have changed its
//! extension.
use vstd::prelude::*;
use crate::names::{split_name_ext, stem_of};
use crate::workspace::DirEntry;

verus! {

/// The extensions tried, in this order, when a name is not found as given.
pub open spec fn image_ext(k: int) -> Seq<char> {
    if k == 0 {
        "jpg"@
    } else if k == 1 {
        "jpeg"@
    } else if k == 2 {
        "png"@
    } else if k == 3 {
        "webp"@
    } else {
        "bmp"@
    }
}

/// How many extensions are tried.
pub const IMAGE_EXT_COUNT: usize = 5;

fn image_ext_name(k: usize) -> (r: String)
    requires
        k < IMAGE_EXT_COUNT,
    ensures
        r@ == image_ext(k as int),
{
    if k == 0 {
        String::from_str("jpg")
    } else if k == 1 {
        String::from_str("jpeg")
    } else if k == 2 {
        String::from_str("png")
    } else if k == 3 {
        String::from_str("webp")
    } else {
        String::from_str("bmp")
    }
}

/// Some entry of the listing, of any kind, is called `name`.
pub open spec fn present(entries: Seq<DirEntry>, name: Seq<char>) -> bool {
    exists|i: int| 0 <= i < entries.len() && (#[trigger] entries[i]).name@ == name
}

/// Index of the last `/` in `s`, or -1 when there is none.
pub open spec fn last_slash(s: Seq<char>) -> int
    decreases s.len(),
{
    if s.len() == 0 {
        -1
    } else if s.last() == '/' {
        s.len() - 1
    } else {
        last_slash(s.drop_last())
    }
}

/// The last component of a path: what follows its last `/`.
pub open spec fn base_name(s: Seq<char>) -> Seq<char> {
    s.subrange(last_slash(s) + 1, s.len() as int)
}

/// `s` can name a file: it is not empty, `.` or `..`.
pub open spec fn is_entry_name(s: Seq<char>) -> bool {
    &&& s.len() > 0
    &&& s != seq!['.']
    &&& s != seq!['.', '.']
}

/// The name exists as it is given. A name with a directory part reaches
/// below the listing, so whether it exists is told separately.
pub open spec fn found_as_given(name: Seq<char>, entries: Seq<DirEntry>, nested_found: bool) -> bool {
    if last_slash(name) >= 0 {
        nested_found
    } else {
        present(entries, name)
    }
}

/// `stem.ext` for the extension at position `k`.
pub open spec fn with_image_ext(stem: Seq<char>, k: int) -> Seq<char> {
    stem + seq!['.'] + image_ext(k)
}

/// The first `stem.ext`, for the extensions from position `k` on, that the
/// listing holds.
pub open spec fn first_with_ext(entries: Seq<DirEntry>, stem: Seq<char>, k: int) -> Option<
    Seq<char>,
>
    decreases 5 - k,
{
    if k < 0 || k >= 5 {
        None
    } else if present(entries, with_image_ext(stem, k)) {
        Some(with_image_ext(stem, k))
    } else {
        first_with_ext(entries, stem, k + 1)
    }
}

/// The name of the first regular file of the listing whose stem is `stem`.
pub open spec fn first_with_stem(entries: Seq<DirEntry>, stem: Seq<char>) -> Option<Seq<char>>
    decreases entries.len(),
{
    if entries.len() == 0 {
        None
    } else if entries[0].is_file && stem_of(entries[0].name@) == stem {
        Some(entries[0].name@)
    } else {
        first_with_stem(entries.drop_first(), stem)
    }
}

/// Where the image called `name` is found: under `name` itself; else under
/// the stem of its last component with one of the image extensions, the
/// first in their order; else the first regular file with that stem; else
/// nowhere. A name whose last component is empty, `.` or `..` has no stem.
pub open spec fn locate(name: Seq<char>, entries: Seq<DirEntry>, nested_found: bool) -> Option<
    Seq<char>,
> {
    if found_as_given(name, entries, nested_found) {
        Some(name)
    } else if !is_entry_name(base_name(name)) {
        None
    } else if first_with_ext(entries, stem_of(base_name(name)), 0) is Some {
        first_with_ext(entries, stem_of(base_name(name)), 0)
    } else {
        first_with_stem(entries, stem_of(base_name(name)))
    }
}

pub open spec fn opt_view(r: Option<String>) -> Option<Seq<char>> {
    match r {
        Some(s) => Some(s@),
        None => None,
    }
}

fn is_present(entries: &Vec<DirEntry>, name: &String) -> (r: bool)
    ensures
        r == present(entries@, name@),
{
    let mut i: usize = 0;
    while i < entries.len()
        invariant
            i <= entries@.len(),
            forall|j: int| 0 <= j < i ==> entries@[j].name@ != name@,
        decreases entries@.len() - i,
    {
        if entries[i].name == *name {
            assert(entries@[i as int].name@ == name@);
            return true;
        }
        i = i + 1;
    }
    false
}

proof fn lemma_last_slash(s: Seq<char>, k: int)
    requires
        -1 <= k < s.len(),
        k >= 0 ==> s[k] == '/',
        forall|j: int| k < j < s.len() ==> s[j] != '/',
    ensures
        last_slash(s) == k,
    decreases s.len(),
{
    if s.len() > 0 && s.last() != '/' {
        lemma_last_slash(s.drop_last(), k);
    }
}

/// Whether `s` has a directory part, and its last component.
fn split_base(s: &String) -> (r: (bool, String))
    ensures
        r.0 == (last_slash(s@) >= 0),
        r.1@ == base_name(s@),
{
    let n = s.as_str().unicode_len();
    let mut i: usize = n;
    while i > 0 && s.as_str().get_char(i - 1) != '/'
        invariant
            i <= n,
            n == s@.len(),
            forall|j: int| i <= j < n ==> s@[j] != '/',
        decreases i,
    {
        i = i - 1;
    }
    proof {
        lemma_last_slash(s@, i - 1);
    }
    (i > 0, String::from_str(s.as_str().substring_char(i, n)))
}

fn entry_name(s: &String) -> (r: bool)
    ensures
        r == is_entry_name(s@),
{
    let n = s.as_str().unicode_len();
    if n == 0 {
        return false;
    }
    let first = s.as_str().get_char(0);
    if n == 1 && first == '.' {
        assert(s@ =~= seq!['.']);
        return false;
    }
    if n == 2 && first == '.' && s.as_str().get_char(1) == '.' {
        assert(s@ =~= seq!['.', '.']);
        return false;
    }
    assert(s@ != seq!['.'] && s@ != seq!['.', '.']) by {
        if n == 1 {
            assert(s@ =~= seq![first]);
        }
        if n == 2 {
            assert(s@[0] == first);
        }
    }
    true
}

/// Finds the file of a run's output directory, given as its listing in
/// listing order, that shows the image called `filename`; `None` means that
/// no preview is available. `nested_found` tells whether `filename` exists
/// under the directory; it is consulted only for a name with a directory
/// part, which the listing cannot show.
pub fn find_bbox_image_path(filename: &String, entries: &Vec<DirEntry>, nested_found: bool) -> (r:
    Option<String>)
    ensures
        opt_view(r) == locate(filename@, entries@, nested_found),
{
    let (nested, base) = split_base(filename);
    let as_given = if nested {
        nested_found
    } else {
        is_present(entries, filename)
    };
    if as_given {
        return Some(filename.clone());
    }
    if !entry_name(&base) {
        return None;
    }
    let (stem, _ext) = split_name_ext(base.as_str());
    let mut k: usize = 0;
    while k < IMAGE_EXT_COUNT
        invariant
            k <= 5,
            stem@ == stem_of(base_name(filename@)),
            is_entry_name(base_name(filename@)),
            !found_as_given(filename@, entries@, nested_found),
            first_with_ext(entries@, stem@, 0) == first_with_ext(entries@, stem@, k as int),
        decreases 5 - k,
    {
        let mut cand = stem.clone();
        crate::text::push_char(&mut cand, '.');
        cand.append(image_ext_name(k).as_str());
        assert(cand@ =~= with_image_ext(stem@, k as int));
        if is_present(entries, &cand) {
            assert(first_with_ext(entries@, stem@, k as int) == Some(cand@));
            return Some(cand);
        }
        k = k + 1;
    }
    assert(first_with_ext(entries@, stem@, 5) is None);
    assert(entries@.subrange(0, entries@.len() as int) =~= entries@);
    let mut i: usize = 0;
    while i < entries.len()
        invariant
            i <= entries@.len(),
            stem@ == stem_of(base_name(filename@)),
            is_entry_name(base_name(filename@)),
            !found_as_given(filename@, entries@, nested_found),
            first_with_ext(entries@, stem@, 0) is None,
            first_with_stem(entries@, stem@) == first_with_stem(
                entries@.subrange(i as int, entries@.len() as int),
                stem@,
            ),
        decreases entries@.len() - i,
    {
        let ghost rest = entries@.subrange(i as int, entries@.len() as int);
        assert(rest.drop_first() =~= entries@.subrange(i + 1, entries@.len() as int));
        assert(rest[0] == entries@[i as int]);
        if entries[i].is_file {
            let (s, _e) = split_name_ext(entries[i].name.as_str());
            if s == stem {
                assert(first_with_stem(rest, stem@) == Some(entries@[i as int].name@));
                return Some(entries[i].name.clone());
            }
        }
        i = i + 1;
    }
    assert(entries@.subrange(i as int, entries@.len() as int).len() == 0);
    None
}

/// A name that exists as it is given is found as it is, whatever else the
/// directory holds.
pub proof fn lemma_exact_name_first(name: Seq<char>, entries: Seq<DirEntry>, nested_found: bool)
    requires
        found_as_given(name, entries, nested_found),
    ensures
        locate(name, entries, nested_found) == Some(name),
{
}

proof fn lemma_stem_match_found(entries: Seq<DirEntry>, stem: Seq<char>, i: int)
    requires
        0 <= i < entries.len(),
        entries[i].is_file,
        stem_of(entries[i].name@) == stem,
    ensures
        first_with_stem(entries, stem) is Some,
    decreases entries.len(),
{
    if !(entries[0].is_file && stem_of(entries[0].name@) == stem) {
        lemma_stem_match_found(entries.drop_first(), stem, i - 1);
    }
}

/// When the directory holds a regular file whose stem is the stem of the
/// name's last component, something is found, whatever its extension.
pub proof fn lemma_same_stem_is_found(
    name: Seq<char>,
    entries: Seq<DirEntry>,
    nested_found: bool,
    i: int,
)
    requires
        is_entry_name(base_name(name)),
        0 <= i < entries.len(),
        entries[i].is_file,
        stem_of(entries[i].name@) == stem_of(base_name(name)),
    ensures
        locate(name, entries, nested_found) is Some,
{
    lemma_stem_match_found(entries, stem_of(base_name(name)), i);
}

} // verus!
