//! Tests of the achievement catalog and unlock rules.

use std::collections::HashSet;

use insiculous_snake::achievements::{
    achievement_catalog, chaos_feast_id, death_achievement, display_sections, food_achievements,
    AchievementId, FEAST_LENGTH, LENGTH_MILESTONES, QUICK_SNACK_WINDOW_MS,
};
use insiculous_snake::chaos::ChaosMode;
use insiculous_snake::rules::DeathCause;

#[test]
fn register_all_adds_nine() {
    assert_eq!(achievement_catalog().len(), 9);
}

#[test]
fn chaos_feast_id_maps_each_mode() {
    assert_eq!(chaos_feast_id(ChaosMode::Normal), AchievementId::FeastNormal);
    assert_eq!(chaos_feast_id(ChaosMode::Insane), AchievementId::FeastInsane);
    assert_eq!(chaos_feast_id(ChaosMode::Ridiculous), AchievementId::FeastRidiculous);
    assert_eq!(chaos_feast_id(ChaosMode::Insiculous), AchievementId::FeastInsiculous);
}

#[test]
fn display_sections_cover_every_registered_achievement() {
    let catalog = achievement_catalog();
    let shown: HashSet<&str> = display_sections()
        .iter()
        .flat_map(|s| s.ids.iter().map(|a| a.id()))
        .collect();

    for ach in &catalog {
        assert!(
            shown.contains(ach.id()),
            "{} registered but not in DISPLAY_SECTIONS",
            ach.id()
        );
    }
    assert_eq!(shown.len(), catalog.len(), "DISPLAY_SECTIONS has duplicates or extras");
}

#[test]
fn every_id_is_registered() {
    let catalog = achievement_catalog();
    for id in [
        "length_10", "length_20", "length_35",
        "feast_normal", "feast_insane", "feast_ridiculous", "feast_insiculous",
        "ouroboros", "quick_snack",
    ] {
        assert!(catalog.iter().any(|a| a.id() == id), "{} not registered", id);
    }
}

#[test]
fn milestone_ids_stay_in_sync_with_constants() {
    // The milestone lengths and the growth ids go together in the unlock
    // rule: three of each.
    assert_eq!(LENGTH_MILESTONES.len(), 3);
}

#[test]
fn achievement_texts_match_the_registry() {
    assert_eq!(AchievementId::Length10.id(), "length_10");
    assert_eq!(AchievementId::Length20.name(), "Long Boi");
    assert_eq!(AchievementId::FeastRidiculous.name(), "Portal Gourmand");
    assert_eq!(AchievementId::FeastInsane.description(), "Reach length 15 in Insane mode.");
    assert_eq!(
        AchievementId::QuickSnack.description(),
        "Eat a food within 1.5 seconds of the previous one."
    );
    let titles: Vec<&str> = display_sections().iter().map(|s| s.title).collect();
    assert_eq!(titles, vec!["Growth", "Feasts (length 15 per mode)", "Quirks"]);
}

#[test]
fn food_achievements_follow_length_mode_and_pace() {
    // Short snake, first meal: nothing.
    assert!(food_achievements(4, ChaosMode::Normal, 1, 0).is_empty());
    // Length 10 unlocks the first milestone only.
    assert_eq!(food_achievements(10, ChaosMode::Normal, 7, 5000), vec![AchievementId::Length10]);
    // Feast length in Insane mode adds that mode's feast.
    assert_eq!(
        food_achievements(FEAST_LENGTH, ChaosMode::Insane, 12, 5000),
        vec![AchievementId::Length10, AchievementId::FeastInsane]
    );
    // Everything at once, with a quick second-or-later meal.
    assert_eq!(
        food_achievements(35, ChaosMode::Insiculous, 32, QUICK_SNACK_WINDOW_MS),
        vec![
            AchievementId::Length10,
            AchievementId::Length20,
            AchievementId::Length35,
            AchievementId::FeastInsiculous,
            AchievementId::QuickSnack,
        ]
    );
    // Just outside the window, or the very first meal: no Quick Snack.
    assert!(food_achievements(5, ChaosMode::Normal, 2, QUICK_SNACK_WINDOW_MS + 1).is_empty());
    assert!(food_achievements(4, ChaosMode::Normal, 1, 10).is_empty());
    assert_eq!(food_achievements(5, ChaosMode::Normal, 2, 10), vec![AchievementId::QuickSnack]);
}

#[test]
fn only_a_self_bite_earns_ouroboros() {
    assert_eq!(death_achievement(DeathCause::SelfBite), Some(AchievementId::Ouroboros));
    assert_eq!(death_achievement(DeathCause::Wall), None);
    assert_eq!(death_achievement(DeathCause::OtherSnake), None);
    assert_eq!(death_achievement(DeathCause::HeadOn), None);
}
