//! What holds of listings.
use vstd::prelude::*;
use crate::storage::plain_files;

verus! {

/// What is listed of a directory's entries are the files among them, in their
/// order.
pub proof fn law_only_files_are_listed(entries: Seq<(Seq<char>, bool)>)
    ensures
        plain_files(entries) == entries.filter(|e: (Seq<char>, bool)| e.1).map_values(
            |e: (Seq<char>, bool)| e.0,
        ),
    decreases entries.len(),
{
    reveal(Seq::filter);
    let keep = |e: (Seq<char>, bool)| e.1;
    let name = |e: (Seq<char>, bool)| e.0;
    if entries.len() > 0 {
        law_only_files_are_listed(entries.drop_last());
        let rest = entries.drop_last().filter(keep);
        if entries.last().1 {
            assert(rest.push(entries.last()).map_values(name) =~= rest.map_values(name).push(
                entries.last().0,
            ));
        }
    } else {
        assert(entries.filter(keep).map_values(name) =~= Seq::empty());
    }
}

} // verus!
