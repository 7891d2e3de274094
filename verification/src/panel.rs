//! The switchboard: which features are switched on, and what a switch does.
//!
//! A front end shows one checkbox for each feature and one for rolling
//! everything back. It hands each event to the switchboard together with
//! the store, and shows what comes back.

use vstd::prelude::*;
use crate::assemble::{
    feature_at, fresh_registry, place_of, rebuild_outcome, Assemble, AssembleView, FeatureId,
};
use crate::components::{
    apply_events, apply_outcome, ends, reports, rollback_events, rollback_outcome, Event,
    EventView,
};
use crate::error::{raised, CustomError, ErrorKind};
use crate::store::{FileStore, StoreView};

verus! {

/// The state of the front end.
pub struct Pannel {
    pub always_fishing_point_checkbox: bool,
    pub catch_better_fish_checkbox: bool,
    pub easier_to_pick_up_checkbox: bool,
    pub gifit_trait_quick_upgrade_checkbox: bool,
    pub free_store_exchange_checkbox: bool,
    pub always_hero_raity_trait_checkbox: bool,
    pub rollback_checkbox: bool,
    pub assemble: Assemble,
    pub hades_path: String,
    /// What the switches have reported and the front end has not yet taken.
    pub journal: Vec<Event>,
}

/// The mathematical value of the switchboard: the checkboxes of the
/// features in the order of the catalog, the checkbox for rolling back, the
/// registry, the root as shown, and the events that wait to be taken.
pub struct PannelView {
    pub checked: Seq<bool>,
    pub rollback_checkbox: bool,
    pub assemble: AssembleView,
    pub hades_path: Seq<char>,
    pub journal: Seq<EventView>,
}

impl View for Pannel {
    type V = PannelView;

    open spec fn view(&self) -> PannelView {
        PannelView {
            checked: seq![
                self.always_fishing_point_checkbox,
                self.catch_better_fish_checkbox,
                self.easier_to_pick_up_checkbox,
                self.gifit_trait_quick_upgrade_checkbox,
                self.free_store_exchange_checkbox,
                self.always_hero_raity_trait_checkbox,
            ],
            rollback_checkbox: self.rollback_checkbox,
            assemble: self.assemble@,
            hades_path: self.hades_path@,
            journal: reports(self.journal@),
        }
    }
}

/// What one feature's rollback came to when everything was rolled back.
pub struct Report {
    pub feature: FeatureId,
    pub failure: Option<ErrorKind>,
}

/// What switching `feature` to `value` does to the store: on, the feature
/// is applied; off, it is rolled back.
pub open spec fn switch_outcome(p: PannelView, s: StoreView, value: bool, feature: FeatureId) -> (
    StoreView,
    Option<ErrorKind>,
) {
    let charism = p.assemble.features[place_of(feature)];
    if value {
        apply_outcome(charism, s)
    } else {
        rollback_outcome(charism, s)
    }
}

/// What switching `feature` to `value` reports: the events of the apply,
/// or those of the rollback that ends the feature's use.
pub open spec fn switch_events(p: PannelView, s: StoreView, value: bool, feature: FeatureId) -> Seq<
    EventView,
> {
    let charism = p.assemble.features[place_of(feature)];
    if value {
        apply_events(charism, s)
    } else {
        rollback_events(charism, s, true)
    }
}

/// The switchboard after `feature` was switched to `value`: its checkbox is
/// set only where the feature was applied with success, the checkbox for
/// rolling back is cleared, and the events of the run are entered in the
/// journal.
pub open spec fn switched(
    p: PannelView,
    s: StoreView,
    value: bool,
    feature: FeatureId,
) -> PannelView {
    PannelView {
        checked: p.checked.update(
            place_of(feature),
            value && switch_outcome(p, s, value, feature).1 is None,
        ),
        rollback_checkbox: false,
        journal: p.journal + switch_events(p, s, value, feature),
        ..p
    }
}

/// What rolling back the features from `place` on that are switched on
/// does, in the order of the catalog. A rollback that fails does not keep
/// the others from being tried. `told` holds what was reported so far.
pub open spec fn rollback_checked_from(
    p: PannelView,
    s: StoreView,
    place: int,
    told: Seq<Report>,
) -> (PannelView, StoreView, Seq<Report>)
    decreases 6 - place,
{
    if place < 0 || place >= 6 {
        (p, s, told)
    } else if p.checked[place] {
        let feature = feature_at(place);
        let outcome = switch_outcome(p, s, false, feature);
        rollback_checked_from(
            switched(p, s, false, feature),
            outcome.0,
            place + 1,
            told.push(Report { feature, failure: outcome.1 }),
        )
    } else {
        rollback_checked_from(p, s, place + 1, told)
    }
}

/// The switchboard at the start: nothing switched on, no root picked.
pub open spec fn fresh_pannel() -> PannelView {
    PannelView {
        checked: Seq::new(6, |i: int| false),
        rollback_checkbox: false,
        assemble: fresh_registry(),
        hades_path: Seq::empty(),
        journal: Seq::empty(),
    }
}

impl Pannel {
    /// The switchboard at the start: nothing switched on, no root picked.
    pub fn new() -> (p: Pannel)
        ensures
            p@ == fresh_pannel(),
    {
        let p = Pannel {
            always_fishing_point_checkbox: false,
            catch_better_fish_checkbox: false,
            easier_to_pick_up_checkbox: false,
            gifit_trait_quick_upgrade_checkbox: false,
            free_store_exchange_checkbox: false,
            always_hero_raity_trait_checkbox: false,
            rollback_checkbox: false,
            assemble: Assemble::new(),
            hades_path: String::new(),
            journal: Vec::new(),
        };
        assert(p@.checked =~= Seq::new(6, |i: int| false));
        assert(p@.journal =~= Seq::<EventView>::empty());
        p
    }

    /// Whether the checkbox of `feature` is set.
    pub fn is_checked(&self, feature: FeatureId) -> (b: bool)
        ensures
            b == self@.checked[place_of(feature)],
    {
        match feature {
            FeatureId::AlwaysFishingPoint => self.always_fishing_point_checkbox,
            FeatureId::CatchBetterFish => self.catch_better_fish_checkbox,
            FeatureId::EasierToPickUp => self.easier_to_pick_up_checkbox,
            FeatureId::GifitTraitQuickUpgrade => self.gifit_trait_quick_upgrade_checkbox,
            FeatureId::FreeStoreExchange => self.free_store_exchange_checkbox,
            FeatureId::AlwaysHeroRaityTrait => self.always_hero_raity_trait_checkbox,
        }
    }

    fn set_checked(&mut self, feature: FeatureId, value: bool)
        ensures
            final(self)@ == (PannelView {
                checked: old(self)@.checked.update(place_of(feature), value),
                ..old(self)@
            }),
    {
        match feature {
            FeatureId::AlwaysFishingPoint => {
                self.always_fishing_point_checkbox = value;
            },
            FeatureId::CatchBetterFish => {
                self.catch_better_fish_checkbox = value;
            },
            FeatureId::EasierToPickUp => {
                self.easier_to_pick_up_checkbox = value;
            },
            FeatureId::GifitTraitQuickUpgrade => {
                self.gifit_trait_quick_upgrade_checkbox = value;
            },
            FeatureId::FreeStoreExchange => {
                self.free_store_exchange_checkbox = value;
            },
            FeatureId::AlwaysHeroRaityTrait => {
                self.always_hero_raity_trait_checkbox = value;
            },
        }
        assert(self@.checked =~= old(self)@.checked.update(place_of(feature), value));
    }

    /// Hands out the events that the switches have reported since they were
    /// last taken, in the order in which they happened.
    pub fn take_journal(&mut self) -> (events: Vec<Event>)
        ensures
            reports(events@) == old(self)@.journal,
            final(self)@ == (PannelView { journal: Seq::empty(), ..old(self)@ }),
    {
        let mut events: Vec<Event> = Vec::new();
        std::mem::swap(&mut events, &mut self.journal);
        assert(reports(self.journal@) =~= Seq::<EventView>::empty());
        events
    }

    /// A root was picked: it is shown, and a registry made anew is rebuilt
    /// for it. The checkboxes stay as they are.
    pub fn folder_picked(&mut self, path: &str, store: &mut FileStore) -> (r: Result<
        (),
        CustomError,
    >)
        ensures
            ({
                let outcome = rebuild_outcome(
                    AssembleView { hades_path: path@, ..fresh_registry() },
                    old(store)@,
                );
                &&& final(self)@ == (PannelView {
                    assemble: outcome.0,
                    hades_path: path@,
                    ..old(self)@
                })
                &&& final(store)@ == outcome.1
                &&& match outcome.2 {
                    None => r is Ok,
                    Some(kind) => r matches Err(e) && e@ == raised(kind),
                }
            }),
    {
        self.hades_path = path.to_owned();
        self.assemble = Assemble::new();
        self.assemble.set_hades_path(path.to_owned());
        self.assemble.assemble_all(store)
    }

    /// Switches `feature` to `value`: on, the feature is applied; off, it is
    /// rolled back. The checkbox is set only where the feature was applied
    /// with success.
    pub fn checkbox_selector(&mut self, value: bool, feature: FeatureId, store: &mut FileStore) -> (r:
        Result<(), CustomError>)
        ensures
            ends(r, final(store)@, switch_outcome(old(self)@, old(store)@, value, feature)),
            final(self)@ == switched(old(self)@, old(store)@, value, feature),
    {
        self.rollback_checkbox = false;
        let r = if value {
            self.assemble.feature(feature).apply_logged(store, &mut self.journal)
        } else {
            self.assemble.feature(feature).rollback_logged(store, true, &mut self.journal)
        };
        let stays = value && r.is_ok();
        self.set_checked(feature, stays);
        r
    }

    /// The checkbox of `feature` was clicked. Without a root nothing is
    /// done and `None` comes back; otherwise the feature is switched.
    pub fn feature_checked(&mut self, value: bool, feature: FeatureId, store: &mut FileStore) -> (r:
        Option<Result<(), CustomError>>)
        ensures
            old(self)@.hades_path.len() == 0 ==> r is None && final(self)@ == old(self)@
                && final(store)@ == old(store)@,
            old(self)@.hades_path.len() != 0 ==> r is Some && ends(
                r->0,
                final(store)@,
                switch_outcome(old(self)@, old(store)@, value, feature),
            ) && final(self)@ == switched(old(self)@, old(store)@, value, feature),
    {
        if self.hades_path.as_str().is_empty() {
            return None;
        }
        Some(self.checkbox_selector(value, feature, store))
    }

    /// The checkbox for rolling back was set to `value`. Set, it rolls back
    /// every feature that is switched on, in the order of the catalog, and
    /// clears their checkboxes; each of these rollbacks clears the checkbox
    /// for rolling back again.
    pub fn rollback_checked(&mut self, value: bool, store: &mut FileStore) -> (reports: Vec<Report>)
        ensures
            !value ==> reports@.len() == 0 && final(store)@ == old(store)@ && final(self)@ == (
            PannelView { rollback_checkbox: false, ..old(self)@ }),
            value ==> (final(self)@, final(store)@, reports@) == rollback_checked_from(
                PannelView { rollback_checkbox: true, ..old(self)@ },
                old(store)@,
                0,
                Seq::empty(),
            ),
    {
        self.rollback_checkbox = value;
        let mut reports: Vec<Report> = Vec::new();
        if !value {
            return reports;
        }
        let features = [
            FeatureId::AlwaysFishingPoint,
            FeatureId::CatchBetterFish,
            FeatureId::EasierToPickUp,
            FeatureId::GifitTraitQuickUpgrade,
            FeatureId::FreeStoreExchange,
            FeatureId::AlwaysHeroRaityTrait,
        ];
        let ghost start = self@;
        let ghost before = store@;
        let mut place: usize = 0;
        assert(reports@ =~= Seq::<Report>::empty());
        while place < 6
            invariant
                place <= 6,
                features@.len() == 6,
                forall|i: int| 0 <= i < 6 ==> #[trigger] features@[i] == feature_at(i),
                self@.checked.len() == 6,
                rollback_checked_from(start, before, 0, Seq::empty()) == rollback_checked_from(
                    self@,
                    store@,
                    place as int,
                    reports@,
                ),
            decreases 6 - place,
        {
            let feature = features[place];
            if self.is_checked(feature) {
                let failure = match self.checkbox_selector(false, feature, store) {
                    Ok(()) => None,
                    Err(e) => Some(e.kind),
                };
                reports.push(Report { feature, failure });
            }
            place = place + 1;
        }
        reports
    }
}

impl Default for Pannel {
    fn default() -> (p: Pannel)
        ensures
            p@ == fresh_pannel(),
    {
        Pannel::new()
    }
}

} // verus!
