//! Laws of the settings store.

use vstd::prelude::*;
use crate::settings::{
    loaded, occurrences, with_folder, without_folder, AppSettings, SettingsFile, SettingsView,
};

verus! {

proof fn lemma_absent_occurs_never(list: Seq<Seq<char>>, p: Seq<char>)
    ensures
        !list.contains(p) <==> occurrences(list, p) == 0,
    decreases list.len(),
{
    if list.len() > 0 {
        lemma_absent_occurs_never(list.drop_last(), p);
        if list.drop_last().contains(p) {
            let i = choose|i: int| 0 <= i < list.drop_last().len() && list.drop_last()[i] == p;
            assert(list[i] == p);
        }
        if list.last() == p {
            assert(list[list.len() - 1] == p);
        }
        if list.contains(p) && list.last() != p {
            let i = choose|i: int| 0 <= i < list.len() && list[i] == p;
            assert(list.drop_last()[i] == p);
        }
    }
}

/// Adding a folder twice has the effect of adding it once; afterwards the
/// list holds it, and a list that held it at most once holds it exactly once.
pub proof fn lemma_add_folder_twice(list: Seq<Seq<char>>, p: Seq<char>)
    ensures
        with_folder(with_folder(list, p), p) == with_folder(list, p),
        with_folder(list, p).contains(p),
        occurrences(list, p) <= 1 ==> occurrences(with_folder(with_folder(list, p), p), p) == 1,
{
    let once = with_folder(list, p);
    if !list.contains(p) {
        assert(list.push(p).drop_last() =~= list);
        assert(once[once.len() - 1] == p);
    }
    assert(once.contains(p));
    lemma_absent_occurs_never(list, p);
    lemma_absent_occurs_never(once, p);
}

/// Removing a folder that the list does not hold leaves the list as it was.
pub proof fn lemma_remove_absent_folder(list: Seq<Seq<char>>, p: Seq<char>)
    requires
        !list.contains(p),
    ensures
        without_folder(list, p) == list,
    decreases list.len(),
{
    if list.len() > 0 {
        assert(list[list.len() - 1] != p);
        if list.drop_last().contains(p) {
            let i = choose|i: int| 0 <= i < list.drop_last().len() && list.drop_last()[i] == p;
            assert(list[i] == p);
        }
        lemma_remove_absent_folder(list.drop_last(), p);
        assert(list.drop_last().push(list.last()) =~= list);
    }
}

/// Loading the record that was saved gives back that record, whatever the
/// store held before.
pub proof fn lemma_save_then_load(saved: AppSettings, current: SettingsView)
    ensures
        loaded(current, SettingsFile::Parsed(saved)) == saved@,
{
}

} // verus!
