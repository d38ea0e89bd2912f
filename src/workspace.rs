//! The run's directories: path composition, what clearing the staging
//! directory removes, and where the sources of a run come from.
use vstd::prelude::*;
use crate::text::views;

verus! {

/// One entry directly inside a directory, as a listing reports it.
pub struct DirEntry {
    pub name: String,
    pub is_file: bool,
}

/// `b` under `a`, joined with `/`; an absolute `b` stands alone, and no
/// separator is doubled.
pub open spec fn join(a: Seq<char>, b: Seq<char>) -> Seq<char> {
    if b.len() > 0 && b[0] == '/' {
        b
    } else if a.len() == 0 {
        b
    } else if a.last() == '/' {
        a + b
    } else {
        a + seq!['/'] + b
    }
}

/// Joins the path `b` onto the directory `a`.
pub fn join_path(a: &String, b: &String) -> (r: String)
    ensures
        r@ == join(a@, b@),
{
    let an = a.as_str().unicode_len();
    let bn = b.as_str().unicode_len();
    if bn > 0 && b.as_str().get_char(0) == '/' {
        b.clone()
    } else if an == 0 {
        b.clone()
    } else if a.as_str().get_char(an - 1) == '/' {
        let r = a.clone();
        r.concat(b.as_str())
    } else {
        let mut r = a.clone();
        crate::text::push_char(&mut r, '/');
        r.append(b.as_str());
        assert(r@ =~= a@ + seq!['/'] + b@);
        r
    }
}

/// The names of the regular files of a listing, in listing order.
pub open spec fn file_names(entries: Seq<DirEntry>) -> Seq<Seq<char>>
    decreases entries.len(),
{
    if entries.len() == 0 {
        seq![]
    } else if entries.last().is_file {
        file_names(entries.drop_last()).push(entries.last().name@)
    } else {
        file_names(entries.drop_last())
    }
}

/// What a listing holds once its regular files are deleted: the other
/// entries, subdirectories among them, in their order.
pub open spec fn after_clear(entries: Seq<DirEntry>) -> Seq<DirEntry>
    decreases entries.len(),
{
    if entries.len() == 0 {
        seq![]
    } else if entries.last().is_file {
        after_clear(entries.drop_last())
    } else {
        after_clear(entries.drop_last()).push(entries.last())
    }
}

/// The files that clearing the staging directory deletes: every regular
/// file directly inside it, and nothing else.
pub fn files_to_clear(entries: &Vec<DirEntry>) -> (r: Vec<String>)
    ensures
        views(r@) == file_names(entries@),
{
    let mut r: Vec<String> = Vec::new();
    let mut i: usize = 0;
    while i < entries.len()
        invariant
            i <= entries@.len(),
            views(r@) == file_names(entries@.subrange(0, i as int)),
        decreases entries@.len() - i,
    {
        let ghost before = r@;
        assert(entries@.subrange(0, i + 1).drop_last() =~= entries@.subrange(0, i as int));
        if entries[i].is_file {
            r.push(entries[i].name.clone());
            assert(views(r@) =~= views(before).push(entries@[i as int].name@));
        }
        i = i + 1;
    }
    assert(entries@.subrange(0, entries@.len() as int) =~= entries@);
    r
}

/// Clearing keeps every entry that is not a regular file and leaves no
/// regular file behind; clearing again deletes nothing and changes nothing.
pub proof fn lemma_clear_idempotent(entries: Seq<DirEntry>)
    ensures
        file_names(after_clear(entries)) == Seq::<Seq<char>>::empty(),
        after_clear(after_clear(entries)) == after_clear(entries),
        forall|i: int|
            0 <= i < entries.len() && !entries[i].is_file ==> after_clear(entries).contains(
                #[trigger] entries[i],
            ),
        forall|i: int|
            0 <= i < after_clear(entries).len() ==> !(#[trigger] after_clear(entries)[i]).is_file,
    decreases entries.len(),
{
    if entries.len() > 0 {
        let rest = entries.drop_last();
        lemma_clear_idempotent(rest);
        let c = after_clear(rest);
        if !entries.last().is_file {
            let d = c.push(entries.last());
            assert(d.drop_last() =~= c);
            assert(file_names(d) == file_names(c));
            assert(after_clear(d) == after_clear(c).push(entries.last()));
            assert forall|i: int|
                0 <= i < entries.len() && !entries[i].is_file implies d.contains(
                    #[trigger] entries[i],
                ) by {
                if i < entries.len() - 1 {
                    assert(rest[i] == entries[i]);
                    let k = choose|k: int| 0 <= k < c.len() && c[k] == rest[i];
                    assert(d[k] == entries[i]);
                } else {
                    assert(d[c.len() as int] == entries[i]);
                }
            }
        } else {
            assert forall|i: int|
                0 <= i < entries.len() && !entries[i].is_file implies c.contains(
                    #[trigger] entries[i],
                ) by {
                assert(rest[i] == entries[i]);
            }
        }
    }
}

/// How deleting one file of the staging directory went.
pub enum Removal {
    Deleted,
    /// The file was gone before it could be deleted.
    Vanished,
    Failed(String),
}

/// Clearing succeeds unless a deletion failed for a reason other than the
/// file having vanished; the error is the first such failure.
pub fn clearing_result(removals: &Vec<Removal>) -> (r: Result<(), String>)
    ensures
        r is Ok <==> forall|i: int| 0 <= i < removals@.len() ==> !(removals@[i] is Failed),
        r matches Err(m) ==> exists|i: int|
            0 <= i < removals@.len() && removals@[i] == Removal::Failed(m) && forall|j: int|
                0 <= j < i ==> !(removals@[j] is Failed),
{
    let mut i: usize = 0;
    while i < removals.len()
        invariant
            i <= removals@.len(),
            forall|j: int| 0 <= j < i ==> !(removals@[j] is Failed),
        decreases removals@.len() - i,
    {
        if let Removal::Failed(m) = &removals[i] {
            return Err(m.clone());
        }
        i = i + 1;
    }
    Ok(())
}

/// The sources of a run: the files handed in, in their order, or when none
/// were, the regular files directly inside the persistent input directory,
/// in listing order.
pub fn collect_sources(pending: &Vec<String>, input_dir: &String, listing: &Vec<DirEntry>) -> (r:
    Vec<String>)
    ensures
        pending@.len() > 0 ==> r@ == pending@,
        pending@.len() == 0 ==> views(r@) == file_names(listing@).map_values(
            |n: Seq<char>| join(input_dir@, n),
        ),
{
    if pending.len() > 0 {
        return pending.clone();
    }
    let names = files_to_clear(listing);
    let mut r: Vec<String> = Vec::new();
    let mut i: usize = 0;
    while i < names.len()
        invariant
            i <= names@.len(),
            views(r@) == views(names@).subrange(0, i as int).map_values(
                |n: Seq<char>| join(input_dir@, n),
            ),
        decreases names@.len() - i,
    {
        let p = join_path(input_dir, &names[i]);
        let ghost before = r@;
        r.push(p);
        assert(views(r@) =~= views(before).push(p@));
        assert(views(names@)[i as int] == names@[i as int]@);
        assert(views(r@) =~= views(names@).subrange(0, i + 1).map_values(
            |n: Seq<char>| join(input_dir@, n),
        ));
        i = i + 1;
    }
    assert(views(names@).subrange(0, names@.len() as int) =~= views(names@));
    r
}

} // verus!
