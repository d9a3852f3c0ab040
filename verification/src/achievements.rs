//! Snake achievement definitions and unlock rules.
//!
//! Growth and feast achievements unlock when a snake eats in single player;
//! Ouroboros unlocks on a self-bite death.
use vstd::prelude::*;

use crate::chaos::ChaosMode;
use crate::rules::DeathCause;

verus! {

/// Lengths that earn the growth achievements.
pub const LENGTH_MILESTONES: [usize; 3] = [10, 20, 35];

/// Length that earns the per-mode "feast" achievement.
pub const FEAST_LENGTH: usize = 15;

/// Eating this many milliseconds after the previous food (or sooner) earns
/// Quick Snack.
pub const QUICK_SNACK_WINDOW_MS: u32 = 1500;

/// Every Snake achievement.
#[derive(Clone, Copy, Debug, PartialEq, Eq, Structural)]
pub enum AchievementId {
    Length10,
    Length20,
    Length35,
    FeastNormal,
    FeastInsane,
    FeastRidiculous,
    FeastInsiculous,
    Ouroboros,
    QuickSnack,
}

/// The saved id string of an achievement.
pub open spec fn id_text(a: AchievementId) -> Seq<char> {
    match a {
        AchievementId::Length10 => "length_10"@,
        AchievementId::Length20 => "length_20"@,
        AchievementId::Length35 => "length_35"@,
        AchievementId::FeastNormal => "feast_normal"@,
        AchievementId::FeastInsane => "feast_insane"@,
        AchievementId::FeastRidiculous => "feast_ridiculous"@,
        AchievementId::FeastInsiculous => "feast_insiculous"@,
        AchievementId::Ouroboros => "ouroboros"@,
        AchievementId::QuickSnack => "quick_snack"@,
    }
}

/// The display name of an achievement.
pub open spec fn name_text(a: AchievementId) -> Seq<char> {
    match a {
        AchievementId::Length10 => "Garden Snake"@,
        AchievementId::Length20 => "Long Boi"@,
        AchievementId::Length35 => "Absolute Unit"@,
        AchievementId::FeastNormal => "Classic Feast"@,
        AchievementId::FeastInsane => "Speed Eater"@,
        AchievementId::FeastRidiculous => "Portal Gourmand"@,
        AchievementId::FeastInsiculous => "Insiculous Devourer"@,
        AchievementId::Ouroboros => "Ouroboros"@,
        AchievementId::QuickSnack => "Quick Snack"@,
    }
}

/// The description of an achievement.
pub open spec fn description_text(a: AchievementId) -> Seq<char> {
    match a {
        AchievementId::Length10 => "Reach length 10."@,
        AchievementId::Length20 => "Reach length 20."@,
        AchievementId::Length35 => "Reach length 35."@,
        AchievementId::FeastNormal => "Reach length 15 in Normal mode."@,
        AchievementId::FeastInsane => "Reach length 15 in Insane mode."@,
        AchievementId::FeastRidiculous => "Reach length 15 in Ridiculous mode."@,
        AchievementId::FeastInsiculous => "Reach length 15 in Insiculous mode."@,
        AchievementId::Ouroboros => "Bite your own tail."@,
        AchievementId::QuickSnack => "Eat a food within 1.5 seconds of the previous one."@,
    }
}

impl AchievementId {
    /// The saved id string of this achievement.
    pub fn id(self) -> (s: &'static str)
        ensures
            s@ == id_text(self),
    {
        match self {
            AchievementId::Length10 => "length_10",
            AchievementId::Length20 => "length_20",
            AchievementId::Length35 => "length_35",
            AchievementId::FeastNormal => "feast_normal",
            AchievementId::FeastInsane => "feast_insane",
            AchievementId::FeastRidiculous => "feast_ridiculous",
            AchievementId::FeastInsiculous => "feast_insiculous",
            AchievementId::Ouroboros => "ouroboros",
            AchievementId::QuickSnack => "quick_snack",
        }
    }

    /// The display name of this achievement.
    pub fn name(self) -> (s: &'static str)
        ensures
            s@ == name_text(self),
    {
        match self {
            AchievementId::Length10 => "Garden Snake",
            AchievementId::Length20 => "Long Boi",
            AchievementId::Length35 => "Absolute Unit",
            AchievementId::FeastNormal => "Classic Feast",
            AchievementId::FeastInsane => "Speed Eater",
            AchievementId::FeastRidiculous => "Portal Gourmand",
            AchievementId::FeastInsiculous => "Insiculous Devourer",
            AchievementId::Ouroboros => "Ouroboros",
            AchievementId::QuickSnack => "Quick Snack",
        }
    }

    /// The description of this achievement.
    pub fn description(self) -> (s: &'static str)
        ensures
            s@ == description_text(self),
    {
        match self {
            AchievementId::Length10 => "Reach length 10.",
            AchievementId::Length20 => "Reach length 20.",
            AchievementId::Length35 => "Reach length 35.",
            AchievementId::FeastNormal => "Reach length 15 in Normal mode.",
            AchievementId::FeastInsane => "Reach length 15 in Insane mode.",
            AchievementId::FeastRidiculous => "Reach length 15 in Ridiculous mode.",
            AchievementId::FeastInsiculous => "Reach length 15 in Insiculous mode.",
            AchievementId::Ouroboros => "Bite your own tail.",
            AchievementId::QuickSnack => "Eat a food within 1.5 seconds of the previous one.",
        }
    }
}


/// Every achievement, in registration order.
pub open spec fn catalog_spec() -> Seq<AchievementId> {
    seq![
        AchievementId::Length10,
        AchievementId::Length20,
        AchievementId::Length35,
        AchievementId::FeastNormal,
        AchievementId::FeastInsane,
        AchievementId::FeastRidiculous,
        AchievementId::FeastInsiculous,
        AchievementId::Ouroboros,
        AchievementId::QuickSnack,
    ]
}

/// Every Snake achievement, in the order they are registered.
pub fn achievement_catalog() -> (v: Vec<AchievementId>)
    ensures
        v@ == catalog_spec(),
{
    let v = vec![
        AchievementId::Length10,
        AchievementId::Length20,
        AchievementId::Length35,
        AchievementId::FeastNormal,
        AchievementId::FeastInsane,
        AchievementId::FeastRidiculous,
        AchievementId::FeastInsiculous,
        AchievementId::Ouroboros,
        AchievementId::QuickSnack,
    ];
    assert(v@ =~= catalog_spec());
    v
}

/// A header and the achievements listed under it on the achievements page.
pub struct DisplaySection {
    pub title: &'static str,
    pub ids: Vec<AchievementId>,
}

/// The header titles of the achievements page, in order.
pub open spec fn section_titles() -> Seq<Seq<char>> {
    seq!["Growth"@, "Feasts (length 15 per mode)"@, "Quirks"@]
}

/// The achievements listed under each header of the achievements page.
pub open spec fn section_ids() -> Seq<Seq<AchievementId>> {
    seq![
        seq![AchievementId::Length10, AchievementId::Length20, AchievementId::Length35],
        seq![
            AchievementId::FeastNormal,
            AchievementId::FeastInsane,
            AchievementId::FeastRidiculous,
            AchievementId::FeastInsiculous,
        ],
        seq![AchievementId::Ouroboros, AchievementId::QuickSnack],
    ]
}

/// Grouped display order for the achievements page.
pub fn display_sections() -> (v: Vec<DisplaySection>)
    ensures
        v@.len() == 3,
        forall|i: int|
            0 <= i < 3 ==> (#[trigger] v@[i]).title@ == section_titles()[i] && v@[i].ids@
                == section_ids()[i],
{
    let growth = vec![AchievementId::Length10, AchievementId::Length20, AchievementId::Length35];
    let feasts = vec![
        AchievementId::FeastNormal,
        AchievementId::FeastInsane,
        AchievementId::FeastRidiculous,
        AchievementId::FeastInsiculous,
    ];
    let quirks = vec![AchievementId::Ouroboros, AchievementId::QuickSnack];
    assert(growth@ =~= section_ids()[0]);
    assert(feasts@ =~= section_ids()[1]);
    assert(quirks@ =~= section_ids()[2]);
    let v = vec![
        DisplaySection { title: "Growth", ids: growth },
        DisplaySection { title: "Feasts (length 15 per mode)", ids: feasts },
        DisplaySection { title: "Quirks", ids: quirks },
    ];
    v
}

/// The achievements page lists every registered achievement exactly once: its
/// sections, read in order, are the registration list, which holds no
/// duplicates and names every achievement.
pub proof fn lemma_display_sections_cover_catalog()
    ensures
        section_ids()[0] + section_ids()[1] + section_ids()[2] == catalog_spec(),
        catalog_spec().no_duplicates(),
        forall|a: AchievementId| catalog_spec().contains(a),
{
    assert(section_ids()[0] + section_ids()[1] + section_ids()[2] =~= catalog_spec());
    let c = catalog_spec();
    assert forall|a: AchievementId| c.contains(a) by {
        match a {
            AchievementId::Length10 => assert(c[0] == a),
            AchievementId::Length20 => assert(c[1] == a),
            AchievementId::Length35 => assert(c[2] == a),
            AchievementId::FeastNormal => assert(c[3] == a),
            AchievementId::FeastInsane => assert(c[4] == a),
            AchievementId::FeastRidiculous => assert(c[5] == a),
            AchievementId::FeastInsiculous => assert(c[6] == a),
            AchievementId::Ouroboros => assert(c[7] == a),
            AchievementId::QuickSnack => assert(c[8] == a),
        }
    }
}

/// The feast achievement of a chaos mode.
pub open spec fn feast_of(mode: ChaosMode) -> AchievementId {
    match mode {
        ChaosMode::Normal => AchievementId::FeastNormal,
        ChaosMode::Insane => AchievementId::FeastInsane,
        ChaosMode::Ridiculous => AchievementId::FeastRidiculous,
        ChaosMode::Insiculous => AchievementId::FeastInsiculous,
    }
}

/// The feast achievement earned by reaching `FEAST_LENGTH` in `mode`.
pub fn chaos_feast_id(mode: ChaosMode) -> (a: AchievementId)
    ensures
        a == feast_of(mode),
{
    match mode {
        ChaosMode::Normal => AchievementId::FeastNormal,
        ChaosMode::Insane => AchievementId::FeastInsane,
        ChaosMode::Ridiculous => AchievementId::FeastRidiculous,
        ChaosMode::Insiculous => AchievementId::FeastInsiculous,
    }
}

/// The one-element sequence `[a]` when `cond` holds, else the empty sequence.
pub open spec fn when(cond: bool, a: AchievementId) -> Seq<AchievementId> {
    if cond {
        seq![a]
    } else {
        Seq::empty()
    }
}

/// The achievements a single-player meal unlocks, in unlock order: the growth
/// milestones reached, the mode's feast at `FEAST_LENGTH`, and Quick Snack
/// when this is at least the second meal and came within the window.
pub open spec fn food_unlocks(
    length: int,
    mode: ChaosMode,
    foods_eaten: int,
    since_last_eat_ms: int,
) -> Seq<AchievementId> {
    when(length >= 10, AchievementId::Length10) + when(length >= 20, AchievementId::Length20)
        + when(length >= 35, AchievementId::Length35) + when(
        length >= FEAST_LENGTH,
        feast_of(mode),
    ) + when(
        foods_eaten >= 2 && since_last_eat_ms <= QUICK_SNACK_WINDOW_MS,
        AchievementId::QuickSnack,
    )
}

/// Achievements to unlock after a single-player meal. `length` is the snake's
/// length after growing, `foods_eaten` counts this meal, and
/// `since_last_eat_ms` is the time since the previous meal.
pub fn food_achievements(
    length: usize,
    mode: ChaosMode,
    foods_eaten: u32,
    since_last_eat_ms: u32,
) -> (v: Vec<AchievementId>)
    ensures
        v@ == food_unlocks(length as int, mode, foods_eaten as int, since_last_eat_ms as int),
{
    let mut v: Vec<AchievementId> = Vec::new();
    let milestones = [AchievementId::Length10, AchievementId::Length20, AchievementId::Length35];
    let mut i: usize = 0;
    while i < 3
        invariant
            0 <= i <= 3,
            milestones@ == seq![AchievementId::Length10, AchievementId::Length20, AchievementId::Length35],
            LENGTH_MILESTONES@ == seq![10usize, 20usize, 35usize],
            v@ == (if i >= 1 { when(length >= 10, AchievementId::Length10) } else { Seq::empty() })
                + (if i >= 2 { when(length >= 20, AchievementId::Length20) } else { Seq::empty() })
                + (if i >= 3 { when(length >= 35, AchievementId::Length35) } else { Seq::empty() }),
        decreases 3 - i,
    {
        let ghost before = v@;
        if length >= LENGTH_MILESTONES[i] {
            v.push(milestones[i]);
        }
        proof {
            if i == 0 {
                assert(v@ =~= when(length >= 10, AchievementId::Length10) + Seq::<AchievementId>::empty() + Seq::<AchievementId>::empty());
            } else if i == 1 {
                assert(v@ =~= when(length >= 10, AchievementId::Length10) + when(length >= 20, AchievementId::Length20) + Seq::<AchievementId>::empty());
            } else {
                assert(v@ =~= when(length >= 10, AchievementId::Length10) + when(length >= 20, AchievementId::Length20) + when(length >= 35, AchievementId::Length35));
            }
        }
        i = i + 1;
    }
    let ghost growth = v@;
    if length >= FEAST_LENGTH {
        v.push(chaos_feast_id(mode));
    }
    assert(v@ =~= growth + when(length >= FEAST_LENGTH, feast_of(mode)));
    let ghost fed = v@;
    if foods_eaten >= 2 && since_last_eat_ms <= QUICK_SNACK_WINDOW_MS {
        v.push(AchievementId::QuickSnack);
    }
    assert(v@ =~= fed + when(
        foods_eaten >= 2 && since_last_eat_ms <= QUICK_SNACK_WINDOW_MS,
        AchievementId::QuickSnack,
    ));
    v
}

/// The achievement a single-player death unlocks: Ouroboros for biting your
/// own tail, nothing otherwise.
pub fn death_achievement(cause: DeathCause) -> (a: Option<AchievementId>)
    ensures
        a == (if cause == DeathCause::SelfBite {
            Some(AchievementId::Ouroboros)
        } else {
            None
        }),
{
    if cause == DeathCause::SelfBite {
        Some(AchievementId::Ouroboros)
    } else {
        None
    }
}


/// What one of the five slots of a meal's unlock list holds.
proof fn lemma_when_contains(cond: bool, a: AchievementId, b: AchievementId)
    ensures
        (when(cond, a).contains(b)) <==> cond && a == b,
{
    if cond {
        assert(when(cond, a)[0] == a);
    }
}

/// Each chaos mode has its own feast: Classic Feast for Normal, Speed Eater
/// for Insane, Portal Gourmand for Ridiculous and Insiculous Devourer for
/// Insiculous, and no two modes share one.
pub proof fn lemma_each_mode_has_its_own_feast(mode: ChaosMode, other: ChaosMode)
    ensures
        mode == ChaosMode::Normal ==> feast_of(mode) == AchievementId::FeastNormal,
        mode == ChaosMode::Insane ==> feast_of(mode) == AchievementId::FeastInsane,
        mode == ChaosMode::Ridiculous ==> feast_of(mode) == AchievementId::FeastRidiculous,
        mode == ChaosMode::Insiculous ==> feast_of(mode) == AchievementId::FeastInsiculous,
        mode != other ==> feast_of(mode) != feast_of(other),
{
}

/// A meal unlocks exactly these achievements: each growth milestone the
/// length has reached, the feast of the mode being played once the length
/// reaches `FEAST_LENGTH` (never another mode's feast), and Quick Snack when
/// this is at least the second meal and came within the window; nothing else,
/// and nothing twice.
pub proof fn lemma_meal_unlocks_the_modes_feast(
    length: int,
    mode: ChaosMode,
    foods_eaten: int,
    since_last_eat_ms: int,
)
    ensures
        forall|a: AchievementId|
            #![trigger food_unlocks(length, mode, foods_eaten, since_last_eat_ms).contains(a)]
            food_unlocks(length, mode, foods_eaten, since_last_eat_ms).contains(a) <==> (a
                == AchievementId::Length10 && length >= 10 || a == AchievementId::Length20 && length
                >= 20 || a == AchievementId::Length35 && length >= 35 || a == feast_of(mode)
                && length >= 15 || a == AchievementId::QuickSnack && foods_eaten >= 2
                && since_last_eat_ms <= 1500),
        length >= 15 ==> food_unlocks(length, mode, foods_eaten, since_last_eat_ms).contains(
            feast_of(mode),
        ),
        forall|other: ChaosMode|
            other != mode ==> !food_unlocks(length, mode, foods_eaten, since_last_eat_ms).contains(
                #[trigger] feast_of(other),
            ),
        food_unlocks(length, mode, foods_eaten, since_last_eat_ms).no_duplicates(),
{
    broadcast use vstd::seq_lib::lemma_seq_concat_contains_all_elements;

    let s1 = when(length >= 10, AchievementId::Length10);
    let s2 = when(length >= 20, AchievementId::Length20);
    let s3 = when(length >= 35, AchievementId::Length35);
    let s4 = when(length >= FEAST_LENGTH, feast_of(mode));
    let s5 = when(
        foods_eaten >= 2 && since_last_eat_ms <= QUICK_SNACK_WINDOW_MS,
        AchievementId::QuickSnack,
    );
    let all = food_unlocks(length, mode, foods_eaten, since_last_eat_ms);
    assert(all == s1 + s2 + s3 + s4 + s5);
    assert forall|a: AchievementId| #[trigger] all.contains(a) <==> (a == AchievementId::Length10
        && length >= 10 || a == AchievementId::Length20 && length >= 20 || a
        == AchievementId::Length35 && length >= 35 || a == feast_of(mode) && length >= 15 || a
        == AchievementId::QuickSnack && foods_eaten >= 2 && since_last_eat_ms <= 1500) by {
        lemma_when_contains(length >= 10, AchievementId::Length10, a);
        lemma_when_contains(length >= 20, AchievementId::Length20, a);
        lemma_when_contains(length >= 35, AchievementId::Length35, a);
        lemma_when_contains(length >= FEAST_LENGTH, feast_of(mode), a);
        lemma_when_contains(
            foods_eaten >= 2 && since_last_eat_ms <= QUICK_SNACK_WINDOW_MS,
            AchievementId::QuickSnack,
            a,
        );
        assert((s1 + s2 + s3 + s4 + s5).contains(a) <==> (s1 + s2 + s3 + s4).contains(a)
            || s5.contains(a));
        assert((s1 + s2 + s3 + s4).contains(a) <==> (s1 + s2 + s3).contains(a) || s4.contains(a));
        assert((s1 + s2 + s3).contains(a) <==> (s1 + s2).contains(a) || s3.contains(a));
        assert((s1 + s2).contains(a) <==> s1.contains(a) || s2.contains(a));
    }
    assert forall|other: ChaosMode| other != mode implies !all.contains(
        #[trigger] feast_of(other),
    ) by {
        lemma_each_mode_has_its_own_feast(mode, other);
    }
    assert forall|i: int, j: int| 0 <= i < all.len() && 0 <= j < all.len() && i != j implies all[i]
        != all[j] by {
        let a = s1 + s2 + s3 + s4;
        assert(all == a + s5);
    }
}

} // verus!
