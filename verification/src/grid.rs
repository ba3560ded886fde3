//! The letter grid of a round: the distinct units of the target word, filled
//! up with distractor letters of the alphabet and shuffled.

use crate::units::{contains_unit, Unit};
use rand::rngs::StdRng;
use vstd::prelude::*;
use vstd::seq_lib::*;

verus! {

/// How many grid slots a round has when nothing else is configured.
pub const GAME_GRID_SIZE: usize = 12;

/// The units of `source` that do not occur in `taken`, each once, in the order
/// of their first occurrence.
pub open spec fn fresh_units(source: Seq<Unit>, taken: Seq<Unit>) -> Seq<Unit>
    decreases source.len(),
{
    if source.len() == 0 {
        Seq::empty()
    } else {
        let before = fresh_units(source.drop_last(), taken);
        let unit = source.last();
        if taken.contains(unit) || before.contains(unit) {
            before
        } else {
            before.push(unit)
        }
    }
}

/// The distinct units of a target, each at its first occurrence.
pub open spec fn distinct_of(target: Seq<Unit>) -> Seq<Unit> {
    fresh_units(target, Seq::empty())
}

/// How many distractors a grid of `grid_size` slots still needs once `held`
/// units are on it.
pub open spec fn distractors_needed(grid_size: int, held: int) -> int {
    if grid_size > held {
        grid_size - held
    } else {
        0
    }
}

/// How many distractors end up on the grid: as many as are needed, or all the
/// alphabet can supply where that is fewer.
pub open spec fn distractors_used(target: Seq<Unit>, alphabet: Seq<Unit>, grid_size: int) -> int {
    let needed = distractors_needed(grid_size, distinct_of(target).len() as int);
    let supply = fresh_units(alphabet, target).len() as int;
    if needed < supply {
        needed
    } else {
        supply
    }
}

/// What makes `grid` a grid for `target` over `alphabet`: it holds no unit
/// twice, it holds every unit of the target, all else on it comes from the
/// alphabet, and it is filled up to `grid_size` as far as the alphabet allows.
pub open spec fn is_grid_for(
    grid: Seq<Unit>,
    target: Seq<Unit>,
    alphabet: Seq<Unit>,
    grid_size: int,
) -> bool {
    &&& grid.no_duplicates()
    &&& forall|u: Unit| target.contains(u) ==> grid.contains(u)
    &&& forall|u: Unit| grid.contains(u) ==> target.contains(u) || alphabet.contains(u)
    &&& grid.len() == distinct_of(target).len() + distractors_used(target, alphabet, grid_size)
}

/// `fresh_units` keeps exactly the units of `source` that are not in `taken`,
/// and keeps none of them twice.
pub proof fn lemma_fresh_units(source: Seq<Unit>, taken: Seq<Unit>)
    ensures
        fresh_units(source, taken).no_duplicates(),
        fresh_units(source, taken).len() <= source.len(),
        forall|u: Unit|
            fresh_units(source, taken).contains(u) <==> source.contains(u) && !taken.contains(u),
    decreases source.len(),
{
    let kept = fresh_units(source, taken);
    if source.len() > 0 {
        let front = source.drop_last();
        let before = fresh_units(front, taken);
        let unit = source.last();
        lemma_fresh_units(front, taken);
        assert forall|u: Unit| kept.contains(u) <==> source.contains(u) && !taken.contains(
            u,
        ) by {
            if source.contains(u) {
                let i = choose|i: int| 0 <= i < source.len() && source[i] == u;
                if i < front.len() {
                    assert(front[i] == u);
                }
            }
            if front.contains(u) {
                let i = choose|i: int| 0 <= i < front.len() && front[i] == u;
                assert(source[i] == u);
            }
            assert(source[source.len() - 1] == unit);
            if kept.contains(u) && kept != before {
                let i = choose|i: int| 0 <= i < kept.len() && kept[i] == u;
                if i < before.len() {
                    assert(before[i] == u);
                }
            }
            if before.contains(u) {
                let i = choose|i: int| 0 <= i < before.len() && before[i] == u;
                assert(kept[i] == u);
            }
            if kept != before {
                assert(kept[kept.len() - 1] == unit);
            }
        }
    }
}

/// Two sequences with the same elements, counted, hold duplicates or not alike.
proof fn lemma_rearranged_no_duplicates(a: Seq<Unit>, b: Seq<Unit>)
    requires
        a.to_multiset() == b.to_multiset(),
        a.no_duplicates(),
    ensures
        b.no_duplicates(),
        b.len() == a.len(),
        forall|u: Unit| a.contains(u) <==> b.contains(u),
{
    broadcast use group_to_multiset_ensures;

    a.lemma_multiset_has_no_duplicates();
    b.lemma_multiset_has_no_duplicates_conv();
    assert(a.len() == a.to_multiset().len());
    assert(b.len() == b.to_multiset().len());
    assert forall|u: Unit| a.contains(u) <==> b.contains(u) by {
        assert(a.contains(u) <==> a.to_multiset().count(u) > 0);
        assert(b.contains(u) <==> b.to_multiset().count(u) > 0);
    }
}

/// The units of `source` that are not in `taken`, each once, in the order of
/// their first occurrence.
pub fn fresh(source: &Vec<String>, taken: &Vec<String>) -> (kept: Vec<String>)
    ensures
        kept.deep_view() == fresh_units(source.deep_view(), taken.deep_view()),
{
    let mut kept: Vec<String> = Vec::new();
    let mut i: usize = 0;
    assert(source.deep_view().take(0) =~= Seq::<Unit>::empty());
    assert(kept.deep_view() =~= Seq::<Unit>::empty());
    while i < source.len()
        invariant
            i <= source.len(),
            kept.deep_view() == fresh_units(source.deep_view().take(i as int), taken.deep_view()),
        decreases source.len() - i,
    {
        let ghost before = kept.deep_view();
        let ghost upto = source.deep_view().take(i + 1);
        assert(upto.drop_last() =~= source.deep_view().take(i as int));
        assert(upto.last() == source[i as int]@);
        if !contains_unit(taken, &source[i]) && !contains_unit(&kept, &source[i]) {
            kept.push(source[i].clone());
            assert(kept.deep_view() =~= before.push(source[i as int]@));
        }
        i += 1;
    }
    assert(source.deep_view().take(source.len() as int) =~= source.deep_view());
    kept
}

/// The distinct units of `units`, each at its first occurrence: a word with a
/// repeated letter needs that letter on the grid once.
pub fn distinct_units(units: &Vec<String>) -> (kept: Vec<String>)
    ensures
        kept.deep_view() == distinct_of(units.deep_view()),
{
    let nothing: Vec<String> = Vec::new();
    assert(nothing.deep_view() =~= Seq::<Unit>::empty());
    fresh(units, &nothing)
}

/// `rand::rngs::StdRng`, the random source that grids are shuffled with.
/// Nothing is known of what it holds or yields.
#[verifier::external_type_specification]
#[verifier::external_body]
pub struct ExStdRng(StdRng);

/// `rand::seq::SliceRandom::shuffle` on the vector's slice. The call moves the
/// elements about by swapping and does nothing else to them: whatever the
/// generator yields, the vector afterwards holds the same units as before,
/// each as often as before. Nothing is claimed of their order.
#[verifier::external_body]
fn shuffle(units: &mut Vec<String>, rng: &mut StdRng)
    ensures
        final(units).deep_view().to_multiset() == old(units).deep_view().to_multiset(),
{
    rand::seq::SliceRandom::shuffle(units.as_mut_slice(), rng);
}

/// The grid before its last shuffle: the units in `own`, followed by the first
/// units of `spare` as far as `grid_size` leaves room for them.
pub open spec fn laid_out(own: Seq<Unit>, spare: Seq<Unit>, grid_size: int) -> Seq<Unit> {
    let needed = distractors_needed(grid_size, own.len() as int);
    own + spare.take(
        if needed < spare.len() {
            needed
        } else {
            spare.len() as int
        },
    )
}

/// Lays the grid out before its last shuffle: the distinct units of the
/// target, followed by the first distractors of `spare` as far as `grid_size`
/// leaves room for them.
pub fn assemble(own: Vec<String>, spare: &Vec<String>, grid_size: usize) -> (grid: Vec<String>)
    ensures
        grid.deep_view() == laid_out(own.deep_view(), spare.deep_view(), grid_size as int),
{
    let mut grid = own;
    let needed: usize = if grid_size > grid.len() {
        grid_size - grid.len()
    } else {
        0
    };
    let used: usize = if needed < spare.len() {
        needed
    } else {
        spare.len()
    };
    let ghost start = grid.deep_view();
    let mut i: usize = 0;
    assert(grid.deep_view() =~= start + spare.deep_view().take(0));
    while i < used
        invariant
            i <= used <= spare.len(),
            grid.deep_view() == start + spare.deep_view().take(i as int),
        decreases used - i,
    {
        let ghost before = grid.deep_view();
        grid.push(spare[i].clone());
        assert(grid.deep_view() =~= before.push(spare[i as int]@));
        assert(spare.deep_view().take(i + 1) =~= spare.deep_view().take(i as int).push(
            spare[i as int]@,
        ));
        i += 1;
    }
    grid
}

/// Builds the grid of a round. Duplicates in the target collapse to one grid
/// entry each; the alphabet's letters that the target does not use are
/// shuffled and the first of them fill the grid up to `grid_size`; the whole is
/// shuffled once more. An alphabet too small to fill the grid leaves it
/// shorter. Which distractors are picked and where each unit lands is up to
/// `rng`; everything else is fixed by the contract.
pub fn build(
    target_units: &Vec<String>,
    alphabet: &Vec<String>,
    grid_size: usize,
    rng: &mut StdRng,
) -> (grid: Vec<String>)
    ensures
        is_grid_for(
            grid.deep_view(),
            target_units.deep_view(),
            alphabet.deep_view(),
            grid_size as int,
        ),
        grid.deep_view().no_duplicates(),
        forall|u: Unit| target_units.deep_view().contains(u) ==> grid.deep_view().contains(u),
{
    let ghost target = target_units.deep_view();
    let ghost letters = alphabet.deep_view();
    let own = distinct_units(target_units);
    let mut spare = fresh(alphabet, target_units);
    let ghost supply = spare.deep_view();
    shuffle(&mut spare, rng);
    let ghost mixed = spare.deep_view();
    let ghost own_units = own.deep_view();
    let mut grid = assemble(own, &spare, grid_size);
    let ghost laid = grid.deep_view();
    shuffle(&mut grid, rng);
    proof {
        let used = distractors_used(target, letters, grid_size as int);
        lemma_fresh_units(target, Seq::empty());
        lemma_fresh_units(letters, target);
        lemma_rearranged_no_duplicates(supply, mixed);
        let picked = mixed.take(used);
        assert forall|i: int, j: int|
            0 <= i < own_units.len() && 0 <= j < picked.len() implies own_units[i] != picked[j] by {
            assert(target.contains(own_units[i]));
            assert(supply.contains(mixed[j]));
        }
        lemma_no_dup_in_concat(own_units, picked);
        lemma_rearranged_no_duplicates(laid, grid.deep_view());
        assert forall|u: Unit| target.contains(u) implies grid.deep_view().contains(u) by {
            assert(own_units.contains(u));
            let i = choose|i: int| 0 <= i < own_units.len() && own_units[i] == u;
            assert(laid[i] == u);
        }
        assert forall|u: Unit| grid.deep_view().contains(u) implies target.contains(u)
            || letters.contains(u) by {
            assert(laid.contains(u));
            let i = choose|i: int| 0 <= i < laid.len() && laid[i] == u;
            if i < own_units.len() {
                assert(own_units.contains(own_units[i]));
            } else {
                assert(mixed.contains(mixed[i - own_units.len()]));
            }
        }
    }
    grid
}

} // verus!
