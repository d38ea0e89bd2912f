//! Collision-free destination names inside a directory.
use vstd::prelude::*;
use vstd::seq_lib::seq_to_set_is_finite;
use crate::text::{views, decimal, push_char, push_decimal, lemma_decimal_injective};

verus! {

/// Index of the last `.` in `s`, or -1 when there is none.
pub open spec fn last_dot(s: Seq<char>) -> int
    decreases s.len(),
{
    if s.len() == 0 {
        -1
    } else if s.last() == '.' {
        s.len() - 1
    } else {
        last_dot(s.drop_last())
    }
}

/// A file name splits into stem and extension when it has a `.` after its
/// first character; `..` names the parent directory and never splits.
pub open spec fn splits(s: Seq<char>) -> bool {
    last_dot(s) > 0 && s != seq!['.', '.']
}

/// The file name without its extension.
pub open spec fn stem_of(s: Seq<char>) -> Seq<char> {
    if splits(s) {
        s.subrange(0, last_dot(s))
    } else {
        s
    }
}

/// The extension of a file name with its leading `.`, or empty.
pub open spec fn ext_of(s: Seq<char>) -> Seq<char> {
    if splits(s) {
        s.subrange(last_dot(s), s.len() as int)
    } else {
        seq![]
    }
}

proof fn lemma_last_dot(s: Seq<char>, k: int)
    requires
        -1 <= k < s.len(),
        k >= 0 ==> s[k] == '.',
        forall|j: int| k < j < s.len() ==> s[j] != '.',
    ensures
        last_dot(s) == k,
    decreases s.len(),
{
    if s.len() > 0 && s.last() != '.' {
        lemma_last_dot(s.drop_last(), k);
    }
}

/// Splits a file name into its stem and its extension (with the dot), as
/// `Path::file_stem` and `Path::extension` do for a single path component.
pub fn split_name_ext(name: &str) -> (r: (String, String))
    ensures
        r.0@ == stem_of(name@),
        r.1@ == ext_of(name@),
{
    let n = name.unicode_len();
    let mut i: usize = n;
    while i > 0 && name.get_char(i - 1) != '.'
        invariant
            i <= n,
            n == name@.len(),
            forall|j: int| i <= j < n ==> name@[j] != '.',
        decreases i,
    {
        i = i - 1;
    }
    proof {
        if i > 0 {
            lemma_last_dot(name@, i - 1);
        } else {
            lemma_last_dot(name@, -1);
        }
    }
    let parent = n == 2 && name.get_char(0) == '.' && name.get_char(1) == '.';
    if parent {
        assert(name@ =~= seq!['.', '.']);
    } else {
        assert(name@ != seq!['.', '.']);
    }
    if i > 1 && !parent {
        let stem = String::from_str(name.substring_char(0, i - 1));
        let ext = String::from_str(name.substring_char(i - 1, n));
        (stem, ext)
    } else {
        (String::from_str(name), String::new())
    }
}

/// `name` is already claimed in this pass or present in the directory.
pub open spec fn taken(claimed: Seq<String>, existing: Seq<String>, name: Seq<char>) -> bool {
    views(claimed).contains(name) || views(existing).contains(name)
}

/// Every name that is claimed or present.
pub open spec fn taken_set(claimed: Seq<String>, existing: Seq<String>) -> Set<Seq<char>> {
    views(claimed).to_set().union(views(existing).to_set())
}

/// `stem_<n>ext`.
pub open spec fn numbered_name(stem: Seq<char>, ext: Seq<char>, n: nat) -> Seq<char> {
    stem + seq!['_'] + decimal(n) + ext
}

/// `r` is the name chosen for `base`: `base` itself when it is free, else
/// `stem_<k>ext` for the least `k >= 1` that is free.
pub open spec fn is_resolution(
    base: Seq<char>,
    claimed: Seq<String>,
    existing: Seq<String>,
    r: Seq<char>,
) -> bool {
    &&& !taken(claimed, existing, r)
    &&& !taken(claimed, existing, base) ==> r == base
    &&& taken(claimed, existing, base) ==> exists|k: nat|
        k >= 1 && r == #[trigger] numbered_name(stem_of(base), ext_of(base), k) && forall|j: nat|
            1 <= j < k ==> taken(claimed, existing, #[trigger] numbered_name(stem_of(base), ext_of(base), j))
}

/// Different numbers give different numbered names.
pub proof fn lemma_numbered_injective(stem: Seq<char>, ext: Seq<char>, a: nat, b: nat)
    requires
        numbered_name(stem, ext, a) == numbered_name(stem, ext, b),
    ensures
        a == b,
{
    let x = numbered_name(stem, ext, a);
    let y = numbered_name(stem, ext, b);
    assert(x.len() == stem.len() + 1 + decimal(a).len() + ext.len());
    assert(y.len() == stem.len() + 1 + decimal(b).len() + ext.len());
    let lo: int = stem.len() + 1int;
    let hi: int = lo + decimal(a).len();
    assert(x.subrange(lo, hi) =~= decimal(a));
    assert(y.subrange(lo, hi) =~= decimal(b));
    lemma_decimal_injective(a, b);
}

/// Whether `v` holds a string equal to `s`.
pub fn contains_name(v: &Vec<String>, s: &String) -> (r: bool)
    ensures
        r == views(v@).contains(s@),
{
    let mut i: usize = 0;
    while i < v.len()
        invariant
            i <= v.len(),
            forall|j: int| 0 <= j < i ==> v@[j]@ != s@,
        decreases v.len() - i,
    {
        if v[i] == *s {
            assert(views(v@)[i as int] == s@);
            return true;
        }
        i = i + 1;
    }
    proof {
        if views(v@).contains(s@) {
            let j = choose|j: int| 0 <= j < views(v@).len() && views(v@)[j] == s@;
            assert(v@[j]@ == s@);
        }
    }
    false
}

fn numbered(stem: &String, ext: &String, n: u128) -> (r: String)
    ensures
        r@ == numbered_name(stem@, ext@, n as nat),
{
    let mut r = stem.clone();
    push_char(&mut r, '_');
    push_decimal(&mut r, n);
    r.append(ext.as_str());
    assert(r@ =~= numbered_name(stem@, ext@, n as nat));
    r
}

/// Chooses a name for `base` that is neither claimed in the current pass nor
/// present in the directory: `base` itself when it is free, else the stem
/// followed by `_1`, `_2`, ... and the extension, the first that is free.
pub fn resolve_unique_name(base: &String, claimed: &Vec<String>, existing: &Vec<String>) -> (r:
    String)
    ensures
        is_resolution(base@, claimed@, existing@, r@),
{
    if !contains_name(claimed, base) && !contains_name(existing, base) {
        return base.clone();
    }
    let (stem, ext) = split_name_ext(base.as_str());
    let ghost t = taken_set(claimed@, existing@);
    proof {
        seq_to_set_is_finite(views(claimed@));
        seq_to_set_is_finite(views(existing@));
        views(claimed@).lemma_cardinality_of_set();
        views(existing@).lemma_cardinality_of_set();
        vstd::set_lib::lemma_len_union(views(claimed@).to_set(), views(existing@).to_set());
    }
    let ghost mut remaining = t;
    let claimed_len = claimed.len();
    let existing_len = existing.len();
    let mut counter: u128 = 1;
    loop
        invariant
            stem@ == stem_of(base@),
            ext@ == ext_of(base@),
            taken(claimed@, existing@, base@),
            t == taken_set(claimed@, existing@),
            t.finite(),
            t.len() <= claimed_len + existing_len,
            claimed_len == claimed@.len(),
            existing_len == existing@.len(),
            remaining.subset_of(t),
            remaining.finite(),
            1 <= counter,
            counter - 1 + remaining.len() == t.len(),
            forall|j: nat|
                1 <= j < counter ==> taken(claimed@, existing@, #[trigger] numbered_name(stem@, ext@, j)),
            forall|x: Seq<char>|
                t.contains(x) && !remaining.contains(x) ==> exists|j: nat|
                    1 <= j < counter && x == #[trigger] numbered_name(stem@, ext@, j),
        decreases remaining.len(),
    {
        let candidate = numbered(&stem, &ext, counter);
        if !contains_name(claimed, &candidate) && !contains_name(existing, &candidate) {
            assert(candidate@ == numbered_name(stem_of(base@), ext_of(base@), counter as nat));
            return candidate;
        }
        let ghost c = candidate@;
        proof {
            assert(t.contains(c));
            if !remaining.contains(c) {
                let j = choose|j: nat| 1 <= j < counter && c == #[trigger] numbered_name(stem@, ext@, j);
                lemma_numbered_injective(stem@, ext@, j, counter as nat);
            }
            remaining = remaining.remove(c);
            assert forall|x: Seq<char>| t.contains(x) && !remaining.contains(x) implies exists|j: nat|
                1 <= j < counter + 1 && x == #[trigger] numbered_name(stem@, ext@, j) by {
                if x == c {
                    assert(x == numbered_name(stem@, ext@, counter as nat));
                } else {
                    let j = choose|j: nat| 1 <= j < counter && x == #[trigger] numbered_name(stem@, ext@, j);
                    assert(x == numbered_name(stem@, ext@, j));
                }
            }
        }
        assert(counter as int <= t.len());
        counter = counter + 1;
    }
}

/// The names claimed during one staging pass, and the names that were in the
/// staging directory when the pass began.
pub struct StagingPass {
    pub existing: Vec<String>,
    pub claimed: Vec<String>,
}

impl StagingPass {
    /// No two claimed names are equal, and none was in the directory.
    pub open spec fn wf(&self) -> bool {
        &&& forall|i: int, j: int|
            0 <= i < j < self.claimed@.len() ==> self.claimed@[i]@ != self.claimed@[j]@
        &&& forall|i: int|
            0 <= i < self.claimed@.len() ==> !views(self.existing@).contains(
                #[trigger] self.claimed@[i]@,
            )
    }

    /// A pass over a directory that already holds `existing`.
    pub fn new(existing: Vec<String>) -> (r: Self)
        ensures
            r.wf(),
            r.existing == existing,
            r.claimed@.len() == 0,
    {
        StagingPass { existing, claimed: Vec::new() }
    }

    /// The name under which a source named `base` is to be copied.
    pub fn destination_for(&self, base: &String) -> (r: String)
        ensures
            is_resolution(base@, self.claimed@, self.existing@, r@),
    {
        resolve_unique_name(base, &self.claimed, &self.existing)
    }

    /// Records that a file was copied under `name`; a name that is already
    /// taken is refused and leaves the pass unchanged.
    pub fn commit(&mut self, name: String) -> (added: bool)
        requires
            old(self).wf(),
        ensures
            final(self).wf(),
            added == !taken(old(self).claimed@, old(self).existing@, name@),
            final(self).existing == old(self).existing,
            final(self).claimed@ == if added {
                old(self).claimed@.push(name)
            } else {
                old(self).claimed@
            },
    {
        if contains_name(&self.claimed, &name) || contains_name(&self.existing, &name) {
            return false;
        }
        proof {
            assert forall|i: int| 0 <= i < self.claimed@.len() implies self.claimed@[i]@ != name@ by {
                assert(views(self.claimed@)[i] == self.claimed@[i]@);
            }
        }
        self.claimed.push(name);
        true
    }

    /// How many files were copied in this pass.
    pub fn staged_count(&self) -> (r: usize)
        ensures
            r == self.claimed@.len(),
    {
        self.claimed.len()
    }
}

/// The destination names of a staging pass in which every copy succeeds:
/// one name per source, no two equal, none already in the directory, each
/// the resolution of its source's name against the names before it.
pub fn stage_names(bases: &Vec<String>, existing: &Vec<String>) -> (r: Vec<String>)
    ensures
        r@.len() == bases@.len(),
        forall|i: int, j: int| 0 <= i < j < r@.len() ==> r@[i]@ != r@[j]@,
        forall|i: int| 0 <= i < r@.len() ==> !views(existing@).contains(#[trigger] r@[i]@),
        forall|i: int|
            0 <= i < r@.len() ==> is_resolution(
                #[trigger] bases@[i]@,
                r@.subrange(0, i),
                existing@,
                r@[i]@,
            ),
{
    let mut pass = StagingPass::new(existing.clone());
    let mut i: usize = 0;
    while i < bases.len()
        invariant
            i <= bases@.len(),
            pass.wf(),
            pass.existing@ == existing@,
            pass.claimed@.len() == i,
            forall|k: int|
                0 <= k < i ==> is_resolution(
                    #[trigger] bases@[k]@,
                    pass.claimed@.subrange(0, k),
                    existing@,
                    pass.claimed@[k]@,
                ),
        decreases bases@.len() - i,
    {
        let name = pass.destination_for(&bases[i]);
        let ghost before = pass.claimed@;
        let added = pass.commit(name);
        assert(added);
        assert(before.subrange(0, i as int) =~= before);
        assert forall|k: int| 0 <= k < i + 1 implies is_resolution(
            #[trigger] bases@[k]@,
            pass.claimed@.subrange(0, k),
            existing@,
            pass.claimed@[k]@,
        ) by {
            assert(pass.claimed@.subrange(0, k) =~= before.subrange(0, k) || k == i);
            if k < i {
                assert(pass.claimed@.subrange(0, k) =~= before.subrange(0, k));
            } else {
                assert(pass.claimed@.subrange(0, k) =~= before);
            }
        }
        i = i + 1;
    }
    pass.claimed
}

} // verus!
