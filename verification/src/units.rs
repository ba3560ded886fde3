//! Grid units: the tokens that a word is compared and displayed by. A unit is a
//! string that holds one letter, or one component of a decomposed syllable.

use vstd::prelude::*;

verus! {

/// A grid unit as a plain value: the characters of one letter.
pub type Unit = Seq<char>;

/// Whether `unit` is one of `units`.
pub fn contains_unit(units: &Vec<String>, unit: &String) -> (found: bool)
    ensures
        found == units.deep_view().contains(unit@),
{
    let mut i: usize = 0;
    while i < units.len()
        invariant
            i <= units.len(),
            forall|j: int| 0 <= j < i ==> units.deep_view()[j] != unit@,
        decreases units.len() - i,
    {
        if units[i] == *unit {
            assert(units.deep_view()[i as int] == unit@);
            return true;
        }
        i += 1;
    }
    false
}

/// Whether `a` and `b` hold the same units in the same order.
pub fn units_equal(a: &Vec<String>, b: &Vec<String>) -> (same: bool)
    ensures
        same == (a.deep_view() == b.deep_view()),
{
    if a.len() != b.len() {
        assert(a.deep_view().len() != b.deep_view().len());
        return false;
    }
    let mut i: usize = 0;
    while i < a.len()
        invariant
            i <= a.len(),
            a.len() == b.len(),
            forall|j: int| 0 <= j < i ==> a.deep_view()[j] == b.deep_view()[j],
        decreases a.len() - i,
    {
        if a[i] != b[i] {
            assert(a.deep_view()[i as int] != b.deep_view()[i as int]);
            return false;
        }
        i += 1;
    }
    assert(a.deep_view() =~= b.deep_view());
    true
}

} // verus!
