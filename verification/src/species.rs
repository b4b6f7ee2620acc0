//! The five stable strategy species and their canonical ordering.

use vstd::prelude::*;

verus! {

/// The five stable strategy species that coexist in agent populations.
///
/// Each species occupies a distinct ecological niche defined by its
/// entropy profile, signal strength, and reward characteristics.
#[derive(Debug, Clone, Copy, PartialEq, Eq, Structural, Hash)]
pub enum Species {
    /// Generalist: broad search, high variance, weak signal extraction.
    Explorer,
    /// Social adapter: mirrors opponent strategy, context-dependent rewards.
    Diplomat,
    /// Specialist: low entropy, high precision, rare but high-value hits.
    Marksman,
    /// Local optimizer: follows gradients, exploits until diminishing returns.
    Climber,
    /// Rare-event seeker: maximizes diversity, thrives on sparse rewards.
    Prospector,
}

/// The canonical position of a species: Explorer, Diplomat, Marksman,
/// Climber, Prospector.
pub open spec fn spec_species_index(s: Species) -> nat {
    match s {
        Species::Explorer => 0,
        Species::Diplomat => 1,
        Species::Marksman => 2,
        Species::Climber => 3,
        Species::Prospector => 4,
    }
}

/// The species in canonical order.
pub open spec fn spec_all_species() -> Seq<Species> {
    seq![
        Species::Explorer,
        Species::Diplomat,
        Species::Marksman,
        Species::Climber,
        Species::Prospector,
    ]
}

/// The display name of a species.
pub open spec fn spec_species_name(s: Species) -> Seq<char> {
    match s {
        Species::Explorer => "Explorer"@,
        Species::Diplomat => "Diplomat"@,
        Species::Marksman => "Marksman"@,
        Species::Climber => "Climber"@,
        Species::Prospector => "Prospector"@,
    }
}

/// The description of the niche a species occupies.
pub open spec fn spec_niche_description(s: Species) -> Seq<char> {
    match s {
        Species::Explorer => "Generalist: broad search, high entropy, weak signal"@,
        Species::Diplomat => "Adapter: mirrors opponents, context-dependent strategy"@,
        Species::Marksman => "Specialist: low entropy, high precision, rare high-value hits"@,
        Species::Climber => "Optimizer: gradient-following, diminishing returns awareness"@,
        Species::Prospector => "Seeker: sparse rewards, maximum diversity exploration"@,
    }
}

impl Species {
    /// Returns all five species, in canonical order.
    pub fn all() -> (r: &'static [Species])
        ensures
            r@ == spec_all_species(),
            r@ == seq![
                Species::Explorer,
                Species::Diplomat,
                Species::Marksman,
                Species::Climber,
                Species::Prospector,
            ],
    {
        &[
            Species::Explorer,
            Species::Diplomat,
            Species::Marksman,
            Species::Climber,
            Species::Prospector,
        ]
    }

    /// Returns the canonical index (0-4) of this species.
    pub fn index(&self) -> (r: usize)
        ensures
            r == spec_species_index(*self),
            *self == Species::Explorer ==> r == 0,
            *self == Species::Diplomat ==> r == 1,
            *self == Species::Marksman ==> r == 2,
            *self == Species::Climber ==> r == 3,
            *self == Species::Prospector ==> r == 4,
    {
        match self {
            Species::Explorer => 0,
            Species::Diplomat => 1,
            Species::Marksman => 2,
            Species::Climber => 3,
            Species::Prospector => 4,
        }
    }
}

impl Species {
    /// Returns the display name of this species, such as "Explorer".
    pub fn name(&self) -> (r: String)
        ensures
            r@ == spec_species_name(*self),
    {
        match self {
            Species::Explorer => "Explorer".to_owned(),
            Species::Diplomat => "Diplomat".to_owned(),
            Species::Marksman => "Marksman".to_owned(),
            Species::Climber => "Climber".to_owned(),
            Species::Prospector => "Prospector".to_owned(),
        }
    }

    /// Returns a human-readable description of this species' niche.
    pub fn niche_description(&self) -> (r: &'static str)
        ensures
            r@ == spec_niche_description(*self),
    {
        match self {
            Species::Explorer => "Generalist: broad search, high entropy, weak signal",
            Species::Diplomat => "Adapter: mirrors opponents, context-dependent strategy",
            Species::Marksman => "Specialist: low entropy, high precision, rare high-value hits",
            Species::Climber => "Optimizer: gradient-following, diminishing returns awareness",
            Species::Prospector => "Seeker: sparse rewards, maximum diversity exploration",
        }
    }
}

/// Law: the canonical index is a bijection between the species and 0..5,
/// and `Species::all` lists every species at its own index.
pub proof fn lemma_species_index_bijection(s: Species, t: Species, i: int)
    ensures
        spec_species_index(s) < 5,
        spec_all_species().len() == 5,
        spec_all_species()[spec_species_index(s) as int] == s,
        0 <= i < 5 ==> spec_species_index(spec_all_species()[i]) == i,
        spec_species_index(s) == spec_species_index(t) ==> s == t,
{
}

/// Law: the canonical order is Explorer, Diplomat, Marksman, Climber,
/// Prospector, at indices 0 to 4; and the names and niche descriptions are
/// the ones each species is known by.
pub proof fn lemma_canonical_order()
    ensures
        spec_species_index(Species::Explorer) == 0,
        spec_species_index(Species::Diplomat) == 1,
        spec_species_index(Species::Marksman) == 2,
        spec_species_index(Species::Climber) == 3,
        spec_species_index(Species::Prospector) == 4,
        spec_all_species() =~= seq![
            Species::Explorer,
            Species::Diplomat,
            Species::Marksman,
            Species::Climber,
            Species::Prospector,
        ],
        spec_species_name(Species::Explorer) == "Explorer"@,
        spec_species_name(Species::Diplomat) == "Diplomat"@,
        spec_species_name(Species::Marksman) == "Marksman"@,
        spec_species_name(Species::Climber) == "Climber"@,
        spec_species_name(Species::Prospector) == "Prospector"@,
        spec_niche_description(Species::Explorer) == "Generalist: broad search, high entropy, weak signal"@,
        spec_niche_description(Species::Diplomat) == "Adapter: mirrors opponents, context-dependent strategy"@,
        spec_niche_description(Species::Marksman) == "Specialist: low entropy, high precision, rare high-value hits"@,
        spec_niche_description(Species::Climber) == "Optimizer: gradient-following, diminishing returns awareness"@,
        spec_niche_description(Species::Prospector) == "Seeker: sparse rewards, maximum diversity exploration"@,
{
}

} // verus!
