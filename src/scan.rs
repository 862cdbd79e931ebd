use vstd::prelude::*;

verus! {

/// The suffix that names a marker file: a download into the directory that
/// holds it was interrupted or failed.
pub open spec fn marker_suffix() -> Seq<char> {
    seq!['.', 'l', 'a', 's', 't', 'U', 'p', 'd', 'a', 't', 'e', 'd']
}

/// Whether `name` ends with the marker suffix.
pub open spec fn is_marker_name(name: Seq<char>) -> bool {
    name.len() >= marker_suffix().len()
        && name.subrange(name.len() - marker_suffix().len(), name.len() as int) == marker_suffix()
}

fn marker_suffix_chars() -> (r: Vec<char>)
    ensures
        r@ == marker_suffix(),
{
    let r = vec!['.', 'l', 'a', 's', 't', 'U', 'p', 'd', 'a', 't', 'e', 'd'];
    assert(r@ =~= marker_suffix());
    r
}

/// Tells whether an entry's final name component marks a failed download.
pub fn is_marker(name: &str) -> (r: bool)
    ensures
        r == is_marker_name(name@),
{
    let suffix = marker_suffix_chars();
    let n = name.unicode_len();
    let k = suffix.len();
    if n < k {
        return false;
    }
    let start = n - k;
    let mut i: usize = 0;
    while i < k
        invariant
            k == suffix@.len(),
            suffix@ == marker_suffix(),
            n == name@.len(),
            start == n - k,
            i <= k,
            forall|j: int| 0 <= j < i ==> name@[start + j] == suffix@[j],
        decreases k - i,
    {
        if name.get_char(start + i) != suffix[i] {
            assert(name@.subrange(start as int, n as int)[i as int] != marker_suffix()[i as int]);
            return false;
        }
        i = i + 1;
    }
    assert(name@.subrange(start as int, n as int) =~= marker_suffix());
    true
}

/// One entry met by the walk: its final name component, and the directory
/// that holds it (none for the root of a file system).
pub struct EntryModel {
    pub name: Seq<char>,
    pub parent: Option<Seq<char>>,
}

/// Whether the entry marks the directory that holds it for removal.
pub open spec fn marks_parent(e: EntryModel) -> bool {
    is_marker_name(e.name) && e.parent is Some
}

/// The entries of `entries` that mark their parent, in order.
pub open spec fn marker_entries(entries: Seq<EntryModel>) -> Seq<EntryModel> {
    entries.filter(|e: EntryModel| marks_parent(e))
}

/// The directories to remove after a walk that met `entries`, in the order in
/// which their markers were met: the parent of each marker entry.
pub open spec fn candidates_of(entries: Seq<EntryModel>) -> Seq<Seq<char>> {
    marker_entries(entries).map_values(|e: EntryModel| e.parent->0)
}

} // verus!
