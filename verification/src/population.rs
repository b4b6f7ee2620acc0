//! Which species a population holds, and how many of them.

use vstd::prelude::*;

use crate::species::{spec_species_index, Species};

verus! {

/// The number of `true` entries in a sequence of flags.
pub open spec fn spec_count_present(flags: Seq<bool>) -> nat
    decreases flags.len(),
{
    if flags.len() == 0 {
        0
    } else {
        spec_count_present(flags.drop_last()) + if flags.last() { 1nat } else { 0nat }
    }
}

/// The presence of each of the five species in a population: entry `i`
/// tells whether the species of canonical index `i` has a positive count.
#[derive(Debug, Clone, Copy, PartialEq, Eq)]
pub struct SpeciesPresence {
    present: [bool; 5],
}

impl View for SpeciesPresence {
    type V = Seq<bool>;

    closed spec fn view(&self) -> Seq<bool> {
        self.present@
    }
}

proof fn lemma_count_present_bounded(flags: Seq<bool>)
    ensures
        spec_count_present(flags) <= flags.len(),
        spec_count_present(flags) == flags.len() <==> (forall|i: int|
            0 <= i < flags.len() ==> #[trigger] flags[i]),
    decreases flags.len(),
{
    if flags.len() > 0 {
        lemma_count_present_bounded(flags.drop_last());
        if spec_count_present(flags) == flags.len() {
            assert forall|i: int| 0 <= i < flags.len() implies #[trigger] flags[i] by {
                if i < flags.len() - 1 {
                    assert(flags.drop_last()[i] == flags[i]);
                }
            }
        }
        if forall|i: int| 0 <= i < flags.len() ==> #[trigger] flags[i] {
            assert forall|i: int| 0 <= i < flags.drop_last().len() implies #[trigger] flags.drop_last()[i] by {
                assert(flags[i]);
            }
        }
    }
}

impl SpeciesPresence {
    /// A presence record holds exactly one flag per species.
    pub proof fn lemma_len(&self)
        ensures
            self@.len() == 5,
    {
    }

    /// Builds the presence record from one flag per species, in canonical order.
    pub fn new(present: [bool; 5]) -> (r: Self)
        ensures
            r@ == present@,
    {
        SpeciesPresence { present }
    }

    /// Returns whether the given species is present.
    pub fn is_present(&self, species: Species) -> (r: bool)
        ensures
            r == self@[spec_species_index(species) as int],
    {
        self.present[species.index()]
    }

    /// Returns the number of species with a non-zero population.
    pub fn species_richness(&self) -> (r: usize)
        ensures
            r == spec_count_present(self@),
            r <= 5,
    {
        let mut count: usize = 0;
        let mut i: usize = 0;
        while i < 5
            invariant
                i <= 5,
                self@.len() == 5,
                count == spec_count_present(self@.take(i as int)),
                count <= i,
            decreases 5 - i,
        {
            assert(self@.take(i as int + 1).drop_last() =~= self@.take(i as int));
            if self.present[i] {
                count = count + 1;
            }
            i = i + 1;
        }
        assert(self@.take(5) =~= self@);
        count
    }

    /// Returns true if every species has a positive count.
    pub fn all_species_present(&self) -> (r: bool)
        ensures
            r == (forall|i: int| 0 <= i < 5 ==> #[trigger] self@[i]),
    {
        let mut i: usize = 0;
        while i < 5
            invariant
                i <= 5,
                self@.len() == 5,
                forall|j: int| 0 <= j < i ==> #[trigger] self@[j],
            decreases 5 - i,
        {
            if !self.present[i] {
                return false;
            }
            i = i + 1;
        }
        true
    }
}

proof fn lemma_count_present_set(flags: Seq<bool>, i: int)
    requires
        0 <= i < flags.len(),
        !flags[i],
    ensures
        spec_count_present(flags.update(i, true)) == spec_count_present(flags) + 1,
    decreases flags.len(),
{
    let u = flags.update(i, true);
    if i == flags.len() - 1 {
        assert(u.drop_last() =~= flags.drop_last());
    } else {
        assert(u.drop_last() =~= flags.drop_last().update(i, true));
        lemma_count_present_set(flags.drop_last(), i);
    }
}

proof fn lemma_count_present_none(flags: Seq<bool>)
    requires
        forall|i: int| 0 <= i < flags.len() ==> !#[trigger] flags[i],
    ensures
        spec_count_present(flags) == 0,
    decreases flags.len(),
{
    if flags.len() > 0 {
        assert(!flags[flags.len() - 1]);
        assert forall|i: int| 0 <= i < flags.drop_last().len() implies !#[trigger] flags.drop_last()[i] by {
            assert(!flags[i]);
        }
        lemma_count_present_none(flags.drop_last());
    }
}

/// Law: species richness counts the species that are present. With no
/// species present it is zero, and marking one more species as present
/// raises it by exactly one.
pub proof fn lemma_richness_counts_present(flags: Seq<bool>, i: int)
    ensures
        (forall|j: int| 0 <= j < flags.len() ==> !#[trigger] flags[j]) ==> spec_count_present(flags) == 0,
        0 <= i < flags.len() && !flags[i] ==> spec_count_present(flags.update(i, true))
            == spec_count_present(flags) + 1,
{
    if forall|j: int| 0 <= j < flags.len() ==> !#[trigger] flags[j] {
        lemma_count_present_none(flags);
    }
    if 0 <= i < flags.len() && !flags[i] {
        lemma_count_present_set(flags, i);
    }
}

/// Law: a population has all five species exactly when its species richness
/// is five, and its richness never exceeds five.
pub proof fn lemma_all_present_iff_full_richness(p: SpeciesPresence)
    ensures
        spec_count_present(p@) <= 5,
        (forall|i: int| 0 <= i < 5 ==> #[trigger] p@[i]) <==> spec_count_present(p@) == 5,
{
    lemma_count_present_bounded(p@);
}

} // verus!
