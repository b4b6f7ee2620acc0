use strategy_ecology::TransferResult::{Negative, Neutral, Positive};
use strategy_ecology::{
    keystone_score, rank_keystones, CrossDomainTransfer, EcologicalResilience, Species,
    SpeciesPresence, TransferResult,
};

// ─── Species tests ────────────────────────────────────────────

#[test]
fn species_all_returns_five() {
    assert_eq!(Species::all().len(), 5);
}

#[test]
fn species_display_names() {
    assert_eq!(Species::Explorer.name(), "Explorer");
    assert_eq!(Species::Diplomat.name(), "Diplomat");
    assert_eq!(Species::Marksman.name(), "Marksman");
    assert_eq!(Species::Climber.name(), "Climber");
    assert_eq!(Species::Prospector.name(), "Prospector");
}

#[test]
fn species_indices_are_unique() {
    let indices: Vec<usize> = Species::all().iter().map(|s| s.index()).collect();
    let mut sorted = indices.clone();
    sorted.sort();
    assert_eq!(sorted, vec![0, 1, 2, 3, 4]);
}

#[test]
fn species_all_in_canonical_order() {
    for (i, s) in Species::all().iter().enumerate() {
        assert_eq!(s.index(), i);
        assert_eq!(Species::all()[s.index()], *s);
    }
    assert_eq!(Species::all()[0], Species::Explorer);
    assert_eq!(Species::all()[4], Species::Prospector);
}

#[test]
fn species_niche_descriptions() {
    assert_eq!(
        Species::Explorer.niche_description(),
        "Generalist: broad search, high entropy, weak signal"
    );
    assert_eq!(
        Species::Prospector.niche_description(),
        "Seeker: sparse rewards, maximum diversity exploration"
    );
    assert_eq!(
        Species::Marksman.niche_description(),
        "Specialist: low entropy, high precision, rare high-value hits"
    );
}

// ─── Presence tests ───────────────────────────────────────────

#[test]
fn presence_richness_full() {
    let p = SpeciesPresence::new([true; 5]);
    assert_eq!(p.species_richness(), 5);
    assert!(p.all_species_present());
}

#[test]
fn presence_richness_partial() {
    let p = SpeciesPresence::new([true, false, true, false, true]);
    assert_eq!(p.species_richness(), 3);
    assert!(!p.all_species_present());
    assert!(p.is_present(Species::Marksman));
    assert!(!p.is_present(Species::Diplomat));
}

#[test]
fn presence_richness_empty() {
    let p = SpeciesPresence::new([false; 5]);
    assert_eq!(p.species_richness(), 0);
    assert!(!p.all_species_present());
}

#[test]
fn presence_one_missing_is_not_all_present() {
    let p = SpeciesPresence::new([true, true, true, true, false]);
    assert_eq!(p.species_richness(), 4);
    assert!(!p.all_species_present());
}

// ─── Resilience schedule tests ────────────────────────────────

#[test]
fn resilience_schedule_cycles_templates() {
    let templates = [[0.5f64; 5], [0.1, 0.8, 0.8, 0.8, 0.8], [1.5, 0.3, 0.3, 1.5, 0.3]];
    let schedule = EcologicalResilience::perturbation_schedule(&templates, 7);
    assert_eq!(schedule.len(), 7);
    assert_eq!(schedule[0], templates[0]);
    assert_eq!(schedule[3], templates[0]);
    assert_eq!(schedule[4], templates[1]);
    assert_eq!(schedule[6], templates[0]);
}

#[test]
fn resilience_schedule_twenty_from_ten() {
    let templates: Vec<u32> = (0..10).collect();
    let schedule = EcologicalResilience::perturbation_schedule(&templates, 20);
    assert_eq!(schedule.len(), 20);
    for (k, t) in schedule.iter().enumerate() {
        assert_eq!(*t, (k % 10) as u32);
    }
}

#[test]
fn resilience_schedule_without_templates_is_empty() {
    let templates: [u8; 0] = [];
    assert!(EcologicalResilience::perturbation_schedule(&templates, 5).is_empty());
}

// ─── Keystone tests ───────────────────────────────────────────

#[test]
fn keystone_score_counts_loss_twice() {
    let full = SpeciesPresence::new([true; 5]);
    let three = SpeciesPresence::new([true, false, true, false, true]);
    assert_eq!(keystone_score(&full, &three), 4);
    assert_eq!(keystone_score(&three, &full), 2);
    assert_eq!(keystone_score(&full, &full), 0);
    assert_eq!(keystone_score(&full, &SpeciesPresence::new([false; 5])), 10);
}

#[test]
fn keystone_ranking_sorted_and_stable() {
    let baseline = SpeciesPresence::new([true, true, true, true, false]);
    let outcomes = vec![
        SpeciesPresence::new([true; 5]),                         // gain 1 -> 1
        SpeciesPresence::new([true, false, false, true, false]), // loss 2 -> 4
        SpeciesPresence::new([true, true, true, true, false]),   // equal -> 0
        SpeciesPresence::new([true, true, true, false, false]),  // loss 1 -> 2
        SpeciesPresence::new([false, true, true, true, true]),   // equal -> 0
        SpeciesPresence::new([true, true, false, false, false]), // loss 2 -> 4
    ];
    let ranking = rank_keystones(&baseline, &outcomes);
    assert_eq!(ranking, vec![(1, 4), (5, 4), (3, 2), (0, 1), (2, 0), (4, 0)]);
    for i in 1..ranking.len() {
        assert!(ranking[i].1 <= ranking[i - 1].1);
    }
}

#[test]
fn keystone_ranking_empty() {
    let baseline = SpeciesPresence::new([true; 5]);
    assert!(rank_keystones(&baseline, &Vec::new()).is_empty());
}

// ─── Cross-domain transfer tests ──────────────────────────────

#[test]
fn transfer_result_display() {
    assert_eq!(TransferResult::Neutral.label(), "NEUTRAL");
    assert_eq!(TransferResult::Positive.label(), "POSITIVE");
    assert_eq!(TransferResult::Negative.label(), "NEGATIVE");
}

#[test]
fn transfer_battery_pairs_of_five_domains() {
    let pairs = CrossDomainTransfer::battery_pairs(5);
    assert_eq!(
        pairs,
        vec![
            (0, 1),
            (0, 2),
            (0, 3),
            (0, 4),
            (1, 2),
            (1, 3),
            (1, 4),
            (2, 3),
            (2, 4),
            (3, 4)
        ]
    );
}

#[test]
fn transfer_battery_pairs_small() {
    assert!(CrossDomainTransfer::battery_pairs(0).is_empty());
    assert!(CrossDomainTransfer::battery_pairs(1).is_empty());
    assert_eq!(CrossDomainTransfer::battery_pairs(2), vec![(0, 1)]);
}

#[test]
fn transfer_majority_prefers_neutral_on_tie() {
    assert_eq!(CrossDomainTransfer::majority_result(&[Positive, Neutral]), Neutral);
    assert_eq!(CrossDomainTransfer::majority_result(&[Negative, Neutral]), Neutral);
    assert_eq!(CrossDomainTransfer::majority_result(&[]), Neutral);
}

#[test]
fn transfer_majority_positive_over_negative_on_tie() {
    assert_eq!(
        CrossDomainTransfer::majority_result(&[Positive, Negative, Negative, Positive, Neutral]),
        Positive
    );
}

#[test]
fn transfer_majority_most_frequent() {
    assert_eq!(
        CrossDomainTransfer::majority_result(&[Negative, Neutral, Negative, Positive, Negative]),
        Negative
    );
    assert_eq!(
        CrossDomainTransfer::majority_result(&[Positive, Positive, Neutral]),
        Positive
    );
    assert_eq!(CrossDomainTransfer::majority_result(&[Neutral; 10]), Neutral);
}
