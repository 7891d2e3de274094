//! The catalog of features and the registry that holds them.
//!
//! The rules of each feature are fixed; the files that they work on lie
//! under an installation root that the user picks. Whenever the root
//! changes, every feature is rebuilt: its operations are dropped and entered
//! again with the paths under the new root.

use vstd::prelude::*;
use crate::components::{
    add_all_from, cleared, fresh, texts, well_formed, Charism, CharismView, Delete, Pitho,
    PithoView, Replace,
};
use crate::error::{raised, CustomError, ErrorKind};
use crate::store::{FileStore, StoreView};
use crate::utils::{join_path, joined};

verus! {

pub const ROOM_MANAGER: &'static str = "RoomManager.lua";

pub const FISHING_DATA: &'static str = "FishingData.lua";

pub const TRAIT_DATA: &'static str = "TraitData.lua";

pub const STORE_DATA: &'static str = "StoreData.lua";

pub const TRAIT_SCRIPTS: &'static str = "TraitScripts.lua";

pub const FISHING_ELIGIBLE: &'static str = r"and IsFishingEligible\( currentRun, currentRoom \)";

pub const WEIGHT: &'static str = r"Weight = 0.05";

pub const WEIGHT_HEAVY: &'static str = "Weight = 10";

pub const FAKE_DUNKS: &'static str = r"NumFakeDunks.*?\},";

pub const FAKE_DUNKS_NONE: &'static str = "NumFakeDunks = { Min = 0, Max = 0 },";

pub const GOOD_INTERVAL: &'static str = r"GoodInterval.*?,";

pub const GOOD_INTERVAL_LONG: &'static str = "GoodInterval = 3,";

pub const PERFECT_INTERVAL: &'static str = r"PerfectInterval.*?,";

pub const PERFECT_INTERVAL_LONG: &'static str = "PerfectInterval = 1,";

pub const CHAMBER_THRESHOLDS: &'static str = r"ChamberThresholds.*?\},";

pub const CHAMBER_THRESHOLDS_ONE: &'static str = "ChamberThresholds =  { 1, 1 },";

pub const COST_AMOUNT: &'static str = r"CostAmount = ";

pub const COST_AMOUNT_NEGATIVE: &'static str = "CostAmount = -";

pub const LEGENDARY_TABLE: &'static str = r"elseif rarityTable.Legendary.*?then";

pub const HEROIC_TABLE: &'static str = "elseif rarityTable.Heroic[upgradeData.ItemName] then";

pub const LEGENDARY_CHANCE: &'static str =
    r"if validRarities.Legendary and lootData.RarityChances.Legendary and RandomChance\( lootData.RarityChances.Legendary \)";

pub const LEGENDARY_ALWAYS: &'static str = "if validRarities.Legendary";

pub const HEROIC_CHANCE: &'static str =
    r"elseif validRarities.Heroic and lootData.RarityChances.Heroic and RandomChance\( lootData.RarityChances.Heroic \)";

pub const HEROIC_ALWAYS: &'static str = "elseif validRarities.Heroic";

pub const RARE_BRANCH: &'static str = r"\tif validRarities.Rare.*?\n.*?\n.*?\)";

pub const HEROIC_FIRST: &'static str = r#"        if validRarities.Heroic  then
            chosenRarity = "Heroic"
            chosenUpgrade = GetRandomValue( rarityTable.Heroic )"#;

pub const HEROIC_BRANCH: &'static str = r#"elseif validRarities.Heroic.*?\n.*?\n.*?\)"#;

pub const RARE_SECOND: &'static str = r#"elseif validRarities.Rare and lootData.RarityChances.Rare then
            chosenRarity = "Rare"
            chosenUpgrade = GetRandomValue( rarityTable.Rare )"#;

/// The features of the catalog.
#[derive(Debug, Clone, Copy, PartialEq, Eq, Structural)]
pub enum FeatureId {
    AlwaysFishingPoint,
    CatchBetterFish,
    EasierToPickUp,
    GifitTraitQuickUpgrade,
    FreeStoreExchange,
    AlwaysHeroRaityTrait,
}

/// One rule of a feature: in the file `file_name` under the installation
/// root, every match of `from` is replaced by `to`, or deleted where there
/// is no `to`.
pub struct Rule {
    pub file_name: &'static str,
    pub from: &'static str,
    pub to: Option<&'static str>,
}

/// The rules of each feature, in the order in which they are applied.
pub open spec fn rules_of(feature: FeatureId) -> Seq<Rule> {
    match feature {
        FeatureId::AlwaysFishingPoint => seq![
            Rule { file_name: ROOM_MANAGER, from: FISHING_ELIGIBLE, to: None },
        ],
        FeatureId::CatchBetterFish => seq![
            Rule { file_name: FISHING_DATA, from: WEIGHT, to: Some(WEIGHT_HEAVY) },
        ],
        FeatureId::EasierToPickUp => seq![
            Rule { file_name: FISHING_DATA, from: FAKE_DUNKS, to: Some(FAKE_DUNKS_NONE) },
            Rule { file_name: FISHING_DATA, from: GOOD_INTERVAL, to: Some(GOOD_INTERVAL_LONG) },
            Rule { file_name: FISHING_DATA, from: PERFECT_INTERVAL, to: Some(PERFECT_INTERVAL_LONG) },
        ],
        FeatureId::GifitTraitQuickUpgrade => seq![
            Rule { file_name: TRAIT_DATA, from: CHAMBER_THRESHOLDS, to: Some(CHAMBER_THRESHOLDS_ONE) },
        ],
        FeatureId::FreeStoreExchange => seq![
            Rule { file_name: STORE_DATA, from: COST_AMOUNT, to: Some(COST_AMOUNT_NEGATIVE) },
        ],
        FeatureId::AlwaysHeroRaityTrait => seq![
            Rule { file_name: TRAIT_SCRIPTS, from: LEGENDARY_TABLE, to: Some(HEROIC_TABLE) },
            Rule { file_name: TRAIT_SCRIPTS, from: LEGENDARY_CHANCE, to: Some(LEGENDARY_ALWAYS) },
            Rule { file_name: TRAIT_SCRIPTS, from: HEROIC_CHANCE, to: Some(HEROIC_ALWAYS) },
            Rule { file_name: TRAIT_SCRIPTS, from: RARE_BRANCH, to: Some(HEROIC_FIRST) },
            Rule { file_name: TRAIT_SCRIPTS, from: HEROIC_BRANCH, to: Some(RARE_SECOND) },
        ],
    }
}

/// The rules of a feature.
pub fn rules(feature: FeatureId) -> (list: Vec<Rule>)
    ensures
        list@ == rules_of(feature),
{
    let list = match feature {
        FeatureId::AlwaysFishingPoint => vec![
            Rule { file_name: ROOM_MANAGER, from: FISHING_ELIGIBLE, to: None },
        ],
        FeatureId::CatchBetterFish => vec![
            Rule { file_name: FISHING_DATA, from: WEIGHT, to: Some(WEIGHT_HEAVY) },
        ],
        FeatureId::EasierToPickUp => vec![
            Rule { file_name: FISHING_DATA, from: FAKE_DUNKS, to: Some(FAKE_DUNKS_NONE) },
            Rule { file_name: FISHING_DATA, from: GOOD_INTERVAL, to: Some(GOOD_INTERVAL_LONG) },
            Rule { file_name: FISHING_DATA, from: PERFECT_INTERVAL, to: Some(PERFECT_INTERVAL_LONG) },
        ],
        FeatureId::GifitTraitQuickUpgrade => vec![
            Rule { file_name: TRAIT_DATA, from: CHAMBER_THRESHOLDS, to: Some(CHAMBER_THRESHOLDS_ONE) },
        ],
        FeatureId::FreeStoreExchange => vec![
            Rule { file_name: STORE_DATA, from: COST_AMOUNT, to: Some(COST_AMOUNT_NEGATIVE) },
        ],
        FeatureId::AlwaysHeroRaityTrait => vec![
            Rule { file_name: TRAIT_SCRIPTS, from: LEGENDARY_TABLE, to: Some(HEROIC_TABLE) },
            Rule { file_name: TRAIT_SCRIPTS, from: LEGENDARY_CHANCE, to: Some(LEGENDARY_ALWAYS) },
            Rule { file_name: TRAIT_SCRIPTS, from: HEROIC_CHANCE, to: Some(HEROIC_ALWAYS) },
            Rule { file_name: TRAIT_SCRIPTS, from: RARE_BRANCH, to: Some(HEROIC_FIRST) },
            Rule { file_name: TRAIT_SCRIPTS, from: HEROIC_BRANCH, to: Some(RARE_SECOND) },
        ],
    };
    assert(list@ =~= rules_of(feature));
    list
}

/// The operation that a rule stands for under the installation root `root`.
pub open spec fn op_of(root: Seq<char>, rule: Rule) -> PithoView {
    match rule.to {
        Some(to) => PithoView::Replace {
            file_path: joined(root, rule.file_name@),
            from: rule.from@,
            to: to@,
        },
        None => PithoView::Delete { file_path: joined(root, rule.file_name@), from: rule.from@ },
    }
}

/// The operations that a list of rules stands for under `root`.
pub open spec fn ops_of(root: Seq<char>, list: Seq<Rule>) -> Seq<PithoView> {
    Seq::new(list.len(), |i: int| op_of(root, list[i]))
}

/// How a rebuild ended, held against what it had to do.
pub open spec fn built(
    r: Result<(), CustomError>,
    charism: CharismView,
    store: StoreView,
    outcome: (CharismView, StoreView, Option<ErrorKind>),
) -> bool {
    &&& charism == outcome.0
    &&& store == outcome.1
    &&& match outcome.2 {
        None => r is Ok,
        Some(kind) => r matches Err(e) && e@ == raised(kind),
    }
}

/// Enters the rules of `list` into `charism`, with their paths under `root`.
fn install(charism: &mut Charism, root: &str, list: &Vec<Rule>, store: &mut FileStore) -> (r: Result<
    (),
    CustomError,
>)
    ensures
        built(
            r,
            final(charism)@,
            final(store)@,
            add_all_from(old(charism)@, old(store)@, ops_of(root@, list@), 0),
        ),
        well_formed(old(charism)@) ==> well_formed(final(charism)@),
{
    let ghost ops = ops_of(root@, list@);
    let mut i: usize = 0;
    while i < list.len()
        invariant
            i <= list.len(),
            ops == ops_of(root@, list@),
            add_all_from(old(charism)@, old(store)@, ops, 0) == add_all_from(
                charism@,
                store@,
                ops,
                i as int,
            ),
            well_formed(old(charism)@) ==> well_formed(charism@),
        decreases list.len() - i,
    {
        let rule = &list[i];
        let path = join_path(root, rule.file_name);
        let pitho = match rule.to {
            Some(to) => Pitho::Replace(Replace::new(path, rule.from, to)),
            None => Pitho::Delete(Delete::new(path, rule.from)),
        };
        assert(pitho@ == ops[i as int]);
        match charism.add(pitho, store) {
            Ok(()) => {},
            Err(e) => {
                return Err(e);
            },
        }
        i = i + 1;
    }
    Ok(())
}

/// The registry: the features of the catalog, and the installation root
/// that their paths are resolved against.
pub struct Assemble {
    pub always_fishing_point_charism: Charism,
    pub catch_better_fish_charism: Charism,
    pub easier_to_pick_up_charism: Charism,
    pub gifit_trait_quick_upgrade_charism: Charism,
    pub free_store_exchange_charism: Charism,
    pub always_hero_raity_trait_charism: Charism,
    pub hades_path: String,
}

/// The mathematical value of the registry: its features in the order of the
/// catalog, and the root.
pub struct AssembleView {
    pub features: Seq<CharismView>,
    pub hades_path: Seq<char>,
}

/// The place of a feature in the catalog.
pub open spec fn place_of(feature: FeatureId) -> int {
    match feature {
        FeatureId::AlwaysFishingPoint => 0,
        FeatureId::CatchBetterFish => 1,
        FeatureId::EasierToPickUp => 2,
        FeatureId::GifitTraitQuickUpgrade => 3,
        FeatureId::FreeStoreExchange => 4,
        FeatureId::AlwaysHeroRaityTrait => 5,
    }
}

/// The feature at a place of the catalog.
pub open spec fn feature_at(place: int) -> FeatureId {
    if place <= 0 {
        FeatureId::AlwaysFishingPoint
    } else if place == 1 {
        FeatureId::CatchBetterFish
    } else if place == 2 {
        FeatureId::EasierToPickUp
    } else if place == 3 {
        FeatureId::GifitTraitQuickUpgrade
    } else if place == 4 {
        FeatureId::FreeStoreExchange
    } else {
        FeatureId::AlwaysHeroRaityTrait
    }
}

/// The group, the name and the description of a feature of the catalog.
pub open spec fn label_of(feature: FeatureId) -> (Seq<char>, Seq<char>, Seq<char>) {
    match feature {
        FeatureId::AlwaysFishingPoint => (
            "Fishing"@,
            "Always Fishing Point"@,
            "Always eligible to fish."@,
        ),
        FeatureId::CatchBetterFish => (
            "Fishing"@,
            "Catch Better Fish"@,
            "Increase biomefish weight."@,
        ),
        FeatureId::EasierToPickUp => (
            "Fishing"@,
            "Easier To Pick Up"@,
            "Increase fishing success."@,
        ),
        FeatureId::GifitTraitQuickUpgrade => (
            "GifitTrait"@,
            "GifitTrait Quick Upgrade"@,
            "Change chamber thresholds to one."@,
        ),
        FeatureId::FreeStoreExchange => (
            "FreeStore"@,
            "Free Store Exchange"@,
            "Modify the broker cost amount to negative."@,
        ),
        FeatureId::AlwaysHeroRaityTrait => (
            "HeroRarity"@,
            "Always Hero Raity Trait"@,
            "Always hero raity trait."@,
        ),
    }
}

/// The registry as it is made: the features of the catalog without
/// operations, and an empty root.
pub open spec fn fresh_registry() -> AssembleView {
    AssembleView {
        features: Seq::new(
            6,
            |place: int|
                fresh(
                    label_of(feature_at(place)).0,
                    label_of(feature_at(place)).1,
                    label_of(feature_at(place)).2,
                ),
        ),
        hades_path: Seq::empty(),
    }
}

impl View for Assemble {
    type V = AssembleView;

    open spec fn view(&self) -> AssembleView {
        AssembleView {
            features: seq![
                self.always_fishing_point_charism@,
                self.catch_better_fish_charism@,
                self.easier_to_pick_up_charism@,
                self.gifit_trait_quick_upgrade_charism@,
                self.free_store_exchange_charism@,
                self.always_hero_raity_trait_charism@,
            ],
            hades_path: self.hades_path@,
        }
    }
}

/// What entering the rules of `feature` does to the registry and the store:
/// the feature gains its operations, with their paths under the root, up to
/// the first one that is refused.
pub open spec fn assemble_outcome(a: AssembleView, s: StoreView, feature: FeatureId) -> (
    AssembleView,
    StoreView,
    Option<ErrorKind>,
) {
    let place = place_of(feature);
    let (c, saved, failure) = add_all_from(
        a.features[place],
        s,
        ops_of(a.hades_path, rules_of(feature)),
        0,
    );
    (AssembleView { features: a.features.update(place, c), ..a }, saved, failure)
}

/// What entering the rules of the features from `place` on does, in the
/// order of the catalog; the first refusal ends the run.
pub open spec fn assemble_from(a: AssembleView, s: StoreView, place: int) -> (
    AssembleView,
    StoreView,
    Option<ErrorKind>,
)
    decreases 6 - place,
{
    if place < 0 || place >= 6 {
        (a, s, None)
    } else {
        let (next, saved, failure) = assemble_outcome(a, s, feature_at(place));
        if failure is Some {
            (next, saved, failure)
        } else {
            assemble_from(next, saved, place + 1)
        }
    }
}

/// What rebuilding the registry does: every feature is cleared, then the
/// rules of each are entered anew under the root.
pub open spec fn rebuild_outcome(a: AssembleView, s: StoreView) -> (
    AssembleView,
    StoreView,
    Option<ErrorKind>,
) {
    assemble_from(
        AssembleView { features: a.features.map_values(|c: CharismView| cleared(c)), ..a },
        s,
        0,
    )
}

/// The files that the rules of the features from `place` on work on under
/// `root`, in the order of the catalog, one entry for each rule.
pub open spec fn targets_from(root: Seq<char>, place: int) -> Seq<Seq<char>>
    decreases 6 - place,
{
    if place < 0 || place >= 6 {
        Seq::empty()
    } else {
        ops_of(root, rules_of(feature_at(place))).map_values(|op: PithoView| op.path())
            + targets_from(root, place + 1)
    }
}

/// How a call on the registry ended, held against what it had to do.
pub open spec fn assembled(
    r: Result<(), CustomError>,
    registry: AssembleView,
    store: StoreView,
    outcome: (AssembleView, StoreView, Option<ErrorKind>),
) -> bool {
    &&& registry == outcome.0
    &&& store == outcome.1
    &&& match outcome.2 {
        None => r is Ok,
        Some(kind) => r matches Err(e) && e@ == raised(kind),
    }
}

impl Assemble {
    /// The registry with the features of the catalog, none of them with an
    /// operation yet, and with an empty root.
    pub fn new() -> (a: Self)
        ensures
            a@ == fresh_registry(),
    {
        let a = Assemble {
            always_fishing_point_charism: Charism::new(
                "Fishing",
                "Always Fishing Point",
                "Always eligible to fish.",
            ),
            catch_better_fish_charism: Charism::new(
                "Fishing",
                "Catch Better Fish",
                "Increase biomefish weight.",
            ),
            easier_to_pick_up_charism: Charism::new(
                "Fishing",
                "Easier To Pick Up",
                "Increase fishing success.",
            ),
            gifit_trait_quick_upgrade_charism: Charism::new(
                "GifitTrait",
                "GifitTrait Quick Upgrade",
                "Change chamber thresholds to one.",
            ),
            free_store_exchange_charism: Charism::new(
                "FreeStore",
                "Free Store Exchange",
                "Modify the broker cost amount to negative.",
            ),
            always_hero_raity_trait_charism: Charism::new(
                "HeroRarity",
                "Always Hero Raity Trait",
                "Always hero raity trait.",
            ),
            hades_path: String::new(),
        };
        assert(a@.features =~= fresh_registry().features);
        a
    }

    /// Sets the installation root. The features keep their operations, with
    /// the paths of the old root, until they are rebuilt.
    pub fn set_hades_path(&mut self, hades_path: String)
        ensures
            final(self)@ == (AssembleView { hades_path: hades_path@, ..old(self)@ }),
    {
        self.hades_path = hades_path;
    }

    /// The feature of the catalog that `feature` names.
    pub fn feature(&self, feature: FeatureId) -> (charism: &Charism)
        ensures
            charism@ == self@.features[place_of(feature)],
    {
        match feature {
            FeatureId::AlwaysFishingPoint => &self.always_fishing_point_charism,
            FeatureId::CatchBetterFish => &self.catch_better_fish_charism,
            FeatureId::EasierToPickUp => &self.easier_to_pick_up_charism,
            FeatureId::GifitTraitQuickUpgrade => &self.gifit_trait_quick_upgrade_charism,
            FeatureId::FreeStoreExchange => &self.free_store_exchange_charism,
            FeatureId::AlwaysHeroRaityTrait => &self.always_hero_raity_trait_charism,
        }
    }

    /// The files that a rebuild is going to touch, one entry for each rule
    /// of the catalog.
    pub fn target_paths(&self) -> (paths: Vec<String>)
        ensures
            texts(paths@) == targets_from(self@.hades_path, 0),
    {
        let features = [
            FeatureId::AlwaysFishingPoint,
            FeatureId::CatchBetterFish,
            FeatureId::EasierToPickUp,
            FeatureId::GifitTraitQuickUpgrade,
            FeatureId::FreeStoreExchange,
            FeatureId::AlwaysHeroRaityTrait,
        ];
        let ghost root = self@.hades_path;
        let mut paths: Vec<String> = Vec::new();
        let mut place: usize = 0;
        assert(texts(paths@) =~= Seq::<Seq<char>>::empty());
        while place < 6
            invariant
                place <= 6,
                root == self@.hades_path,
                features@.len() == 6,
                forall|i: int| 0 <= i < 6 ==> #[trigger] features@[i] == feature_at(i),
                targets_from(root, 0) == texts(paths@) + targets_from(root, place as int),
            decreases 6 - place,
        {
            let list = rules(features[place]);
            let ghost before = texts(paths@);
            let ghost ops = ops_of(root, list@);
            let mut i: usize = 0;
            while i < list.len()
                invariant
                    i <= list.len(),
                    root == self@.hades_path,
                    ops == ops_of(root, list@),
                    texts(paths@) == before + ops.map_values(|op: PithoView| op.path()).take(
                        i as int,
                    ),
                decreases list.len() - i,
            {
                let ghost listed = texts(paths@);
                paths.push(join_path(self.hades_path.as_str(), list[i].file_name));
                proof {
                    let files = ops.map_values(|op: PithoView| op.path());
                    assert(ops[i as int] == op_of(root, list@[i as int]));
                    assert(files[i as int] == joined(root, list@[i as int].file_name@));
                    assert(texts(paths@) =~= listed.push(files[i as int]));
                    assert(files.take(i + 1) =~= files.take(i as int).push(files[i as int]));
                    assert(texts(paths@) =~= before + files.take(i + 1));
                }
                i = i + 1;
            }
            assert(ops.map_values(|op: PithoView| op.path()).take(i as int) =~= ops.map_values(
                |op: PithoView| op.path(),
            ));
            assert(targets_from(root, 0) =~= texts(paths@) + targets_from(root, place + 1));
            place = place + 1;
        }
        assert(texts(paths@) + targets_from(root, 6) =~= texts(paths@));
        paths
    }

    /// Enters the rules of the feature "Always Fishing Point" into it, with their files
    /// under the root that is set.
    pub fn assemble_always_fishing_point(&mut self, store: &mut FileStore) -> (r: Result<
        (),
        CustomError,
    >)
        ensures
            assembled(
                r,
                final(self)@,
                final(store)@,
                assemble_outcome(old(self)@, old(store)@, FeatureId::AlwaysFishingPoint),
            ),
    {
        let list = rules(FeatureId::AlwaysFishingPoint);
        let r = install(
            &mut self.always_fishing_point_charism,
            self.hades_path.as_str(),
            &list,
            store,
        );
        assert(self@.features =~= old(self)@.features.update(
            0,
            self.always_fishing_point_charism@,
        ));
        r
    }

    /// Enters the rules of the feature "Catch Better Fish" into it, with their files
    /// under the root that is set.
    pub fn assemble_catch_better_fish(&mut self, store: &mut FileStore) -> (r: Result<
        (),
        CustomError,
    >)
        ensures
            assembled(
                r,
                final(self)@,
                final(store)@,
                assemble_outcome(old(self)@, old(store)@, FeatureId::CatchBetterFish),
            ),
    {
        let list = rules(FeatureId::CatchBetterFish);
        let r = install(
            &mut self.catch_better_fish_charism,
            self.hades_path.as_str(),
            &list,
            store,
        );
        assert(self@.features =~= old(self)@.features.update(1, self.catch_better_fish_charism@));
        r
    }

    /// Enters the rules of the feature "Easier To Pick Up" into it, with their files
    /// under the root that is set.
    pub fn assemble_easier_to_pick_up(&mut self, store: &mut FileStore) -> (r: Result<
        (),
        CustomError,
    >)
        ensures
            assembled(
                r,
                final(self)@,
                final(store)@,
                assemble_outcome(old(self)@, old(store)@, FeatureId::EasierToPickUp),
            ),
    {
        let list = rules(FeatureId::EasierToPickUp);
        let r = install(
            &mut self.easier_to_pick_up_charism,
            self.hades_path.as_str(),
            &list,
            store,
        );
        assert(self@.features =~= old(self)@.features.update(2, self.easier_to_pick_up_charism@));
        r
    }

    /// Enters the rules of the feature "GifitTrait Quick Upgrade" into it, with their files
    /// under the root that is set.
    pub fn assemble_gifit_trait_quick_upgrade(&mut self, store: &mut FileStore) -> (r: Result<
        (),
        CustomError,
    >)
        ensures
            assembled(
                r,
                final(self)@,
                final(store)@,
                assemble_outcome(old(self)@, old(store)@, FeatureId::GifitTraitQuickUpgrade),
            ),
    {
        let list = rules(FeatureId::GifitTraitQuickUpgrade);
        let r = install(
            &mut self.gifit_trait_quick_upgrade_charism,
            self.hades_path.as_str(),
            &list,
            store,
        );
        assert(self@.features =~= old(self)@.features.update(
            3,
            self.gifit_trait_quick_upgrade_charism@,
        ));
        r
    }

    /// Enters the rules of the feature "Free Store Exchange" into it, with their files
    /// under the root that is set.
    pub fn assemble_free_store_exchange(&mut self, store: &mut FileStore) -> (r: Result<
        (),
        CustomError,
    >)
        ensures
            assembled(
                r,
                final(self)@,
                final(store)@,
                assemble_outcome(old(self)@, old(store)@, FeatureId::FreeStoreExchange),
            ),
    {
        let list = rules(FeatureId::FreeStoreExchange);
        let r = install(
            &mut self.free_store_exchange_charism,
            self.hades_path.as_str(),
            &list,
            store,
        );
        assert(self@.features =~= old(self)@.features.update(
            4,
            self.free_store_exchange_charism@,
        ));
        r
    }

    /// Enters the rules of the feature "Always Hero Raity Trait" into it, with their files
    /// under the root that is set.
    pub fn assemble_always_hero_raity_trait(&mut self, store: &mut FileStore) -> (r: Result<
        (),
        CustomError,
    >)
        ensures
            assembled(
                r,
                final(self)@,
                final(store)@,
                assemble_outcome(old(self)@, old(store)@, FeatureId::AlwaysHeroRaityTrait),
            ),
    {
        let list = rules(FeatureId::AlwaysHeroRaityTrait);
        let r = install(
            &mut self.always_hero_raity_trait_charism,
            self.hades_path.as_str(),
            &list,
            store,
        );
        assert(self@.features =~= old(self)@.features.update(
            5,
            self.always_hero_raity_trait_charism@,
        ));
        r
    }

    /// Rebuilds every feature for the root that is set: the operations of
    /// each are dropped and entered anew. A file that is to be touched and
    /// can not be backed up ends the run; the features behind it are left
    /// without operations.
    pub fn assemble_all(&mut self, store: &mut FileStore) -> (r: Result<(), CustomError>)
        ensures
            assembled(r, final(self)@, final(store)@, rebuild_outcome(old(self)@, old(store)@)),
    {
        self.always_fishing_point_charism.clear();
        self.catch_better_fish_charism.clear();
        self.easier_to_pick_up_charism.clear();
        self.gifit_trait_quick_upgrade_charism.clear();
        self.free_store_exchange_charism.clear();
        self.always_hero_raity_trait_charism.clear();
        proof {
            assert(self@.features =~= old(self)@.features.map_values(
                |c: CharismView| cleared(c),
            ));
            reveal_with_fuel(assemble_from, 7);
        }
        match self.assemble_always_fishing_point(store) {
            Ok(()) => {},
            Err(e) => {
                return Err(e);
            },
        }
        match self.assemble_catch_better_fish(store) {
            Ok(()) => {},
            Err(e) => {
                return Err(e);
            },
        }
        match self.assemble_easier_to_pick_up(store) {
            Ok(()) => {},
            Err(e) => {
                return Err(e);
            },
        }
        match self.assemble_gifit_trait_quick_upgrade(store) {
            Ok(()) => {},
            Err(e) => {
                return Err(e);
            },
        }
        match self.assemble_free_store_exchange(store) {
            Ok(()) => {},
            Err(e) => {
                return Err(e);
            },
        }
        self.assemble_always_hero_raity_trait(store)
    }
}

impl Default for Assemble {
    fn default() -> (a: Assemble)
        ensures
            a@ == fresh_registry(),
    {
        Assemble::new()
    }
}

} // verus!
