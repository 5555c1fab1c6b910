//! What the app keeps in files: how a directory is listed.
use vstd::prelude::*;
use crate::library::names_view;
use crate::text::{chars_of, text_le, texts_in_order};

pub mod laws;

verus! {

/// What a directory holds: a name for each entry, and whether it is a plain
/// file.
pub open spec fn entries_view(entries: Seq<(String, bool)>) -> Seq<(Seq<char>, bool)> {
    entries.map_values(|e: (String, bool)| (e.0@, e.1))
}

/// The names of a directory's plain files, in the order they came.
pub open spec fn plain_files(entries: Seq<(Seq<char>, bool)>) -> Seq<Seq<char>>
    decreases entries.len(),
{
    if entries.len() == 0 {
        Seq::empty()
    } else if entries.last().1 {
        plain_files(entries.drop_last()).push(entries.last().0)
    } else {
        plain_files(entries.drop_last())
    }
}

/// A list with one more name, behind everything that comes before it or is
/// level with it.
pub open spec fn filed(names: Seq<Seq<char>>, n: Seq<char>) -> Seq<Seq<char>>
    decreases names.len(),
{
    if names.len() == 0 || text_le(names.last(), n) {
        names.push(n)
    } else {
        filed(names.drop_last(), n).push(names.last())
    }
}

/// Names in order.
pub open spec fn by_name(names: Seq<Seq<char>>) -> Seq<Seq<char>>
    decreases names.len(),
{
    if names.len() == 0 {
        names
    } else {
        filed(by_name(names.drop_last()), names.last())
    }
}

fn file_name(names: &mut Vec<String>, n: String)
    ensures
        names_view(final(names)@) == filed(names_view(old(names)@), n@),
{
    let ghost all = names_view(names@);
    let ghost nv = n@;
    let chars = chars_of(n.as_str());
    let mut i: usize = names.len();
    proof {
        assert(all.take(i as int) =~= all);
        assert(filed(all, nv) + all.skip(i as int) =~= filed(all, nv));
    }
    while i > 0
        invariant
            i <= names@.len(),
            names@ == old(names)@,
            all == names_view(names@),
            nv == n@,
            chars@ == nv,
            filed(all.take(i as int), nv) + all.skip(i as int) == filed(all, nv),
        ensures
            i <= names@.len(),
            filed(all.take(i as int), nv) == all.take(i as int).push(nv),
            filed(all.take(i as int), nv) + all.skip(i as int) == filed(all, nv),
        decreases i,
    {
        let before = chars_of(names[i - 1].as_str());
        proof {
            assert(all.take(i as int).last() == names@[i - 1]@);
        }
        if texts_in_order(before.as_slice(), chars.as_slice()) {
            break;
        }
        proof {
            let upto = all.take(i as int);
            assert(upto.drop_last() =~= all.take(i - 1));
            assert(filed(all.take(i - 1), nv).push(all[i - 1]) + all.skip(i as int) =~= filed(
                all.take(i - 1),
                nv,
            ) + all.skip(i - 1));
        }
        i = i - 1;
    }
    names.insert(i, n);
    proof {
        assert(names_view(names@) =~= all.take(i as int).push(nv) + all.skip(i as int));
    }
}

/// A directory's plain files, sorted by name.
pub fn list_files(entries: &Vec<(String, bool)>) -> (files: Vec<String>)
    ensures
        names_view(files@) == by_name(plain_files(entries_view(entries@))),
{
    let ghost all = entries_view(entries@);
    let mut files: Vec<String> = Vec::new();
    let mut i: usize = 0;
    proof {
        assert(names_view(files@) =~= by_name(plain_files(all.take(0))));
    }
    while i < entries.len()
        invariant
            i <= entries@.len(),
            all == entries_view(entries@),
            names_view(files@) == by_name(plain_files(all.take(i as int))),
        decreases entries@.len() - i,
    {
        proof {
            let upto = all.take(i + 1);
            assert(upto.drop_last() =~= all.take(i as int));
            assert(upto.last() == (entries@[i as int].0@, entries@[i as int].1));
            let names = plain_files(all.take(i as int)).push(upto.last().0);
            assert(names.drop_last() =~= plain_files(all.take(i as int)));
        }
        if entries[i].1 {
            file_name(&mut files, entries[i].0.clone());
        }
        i = i + 1;
    }
    assert(all.take(i as int) =~= all);
    files
}

/// Any two names of a list stand in order.
pub open spec fn in_name_order(names: Seq<Seq<char>>) -> bool {
    forall|i: int, j: int|
        0 <= i < j < names.len() ==> text_le(#[trigger] names[i], #[trigger] names[j])
}

proof fn lemma_filed(names: Seq<Seq<char>>, n: Seq<char>)
    requires
        in_name_order(names),
    ensures
        in_name_order(filed(names, n)),
        filed(names, n).to_multiset() == names.to_multiset().insert(n),
        forall|i: int|
            0 <= i < filed(names, n).len() ==> #[trigger] filed(names, n)[i] == n
                || names.contains(filed(names, n)[i]),
    decreases names.len(),
{
    broadcast use vstd::seq_lib::group_to_multiset_ensures;

    let l = filed(names, n);
    if names.len() == 0 || text_le(names.last(), n) {
        assert forall|i: int, j: int| 0 <= i < j < l.len() implies text_le(
            #[trigger] l[i],
            #[trigger] l[j],
        ) by {
            if j == names.len() && i < names.len() - 1 {
                assert(text_le(names[i], names[names.len() - 1]));
                crate::text::lemma_text_le_trans(names[i], names.last(), n);
            }
        }
        assert forall|i: int| 0 <= i < l.len() implies #[trigger] l[i] == n || names.contains(
            l[i],
        ) by {
            if i < names.len() {
                assert(names[i] == l[i]);
            }
        }
    } else {
        let head = names.drop_last();
        let last = names.last();
        lemma_filed(head, n);
        crate::text::lemma_text_le_total(last, n);
        let m = filed(head, n);
        assert(names =~= head.push(last));
        assert forall|i: int, j: int| 0 <= i < j < l.len() implies text_le(
            #[trigger] l[i],
            #[trigger] l[j],
        ) by {
            if j < m.len() {
                assert(text_le(m[i], m[j]));
            } else if m[i] != n {
                assert(head.contains(m[i]));
                let k = choose|k: int| 0 <= k < head.len() && head[k] == m[i];
                assert(text_le(names[k], names[names.len() - 1]));
            }
        }
        assert forall|i: int| 0 <= i < l.len() implies #[trigger] l[i] == n || names.contains(
            l[i],
        ) by {
            if i < m.len() {
                if m[i] != n {
                    assert(head.contains(m[i]));
                    let k = choose|k: int| 0 <= k < head.len() && head[k] == m[i];
                    assert(names[k] == l[i]);
                }
            } else {
                assert(names[names.len() - 1] == l[i]);
            }
        }
        assert(l.to_multiset() =~= names.to_multiset().insert(n));
    }
}

/// Putting names in order keeps exactly the names there were.
pub proof fn law_a_listing_is_every_file_in_order(names: Seq<Seq<char>>)
    ensures
        in_name_order(by_name(names)),
        by_name(names).to_multiset() == names.to_multiset(),
    decreases names.len(),
{
    broadcast use vstd::seq_lib::group_to_multiset_ensures;

    if names.len() > 0 {
        law_a_listing_is_every_file_in_order(names.drop_last());
        lemma_filed(by_name(names.drop_last()), names.last());
        assert(names =~= names.drop_last().push(names.last()));
        assert(by_name(names).to_multiset() =~= names.to_multiset());
    }
}

} // verus!
