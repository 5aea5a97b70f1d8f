//! A widget for a group of dimmers that are steered together.
//!
//! The group keeps the latest reading under each of its keys. The level of
//! the group is the mean of its four dimmers; the mean itself is worked out
//! by whoever lights the scene.

use vstd::prelude::*;
use crate::events::{LightLevel, LightLevelView, LightModification, SceneEventView, SceneModificationEvent};
use crate::reading::{is_decimal, is_decimal_text};
use crate::text::{owned, str_equal};
use crate::widget_settings::SceneModification;

verus! {

/// A group of dimmers.
#[derive(Debug)]
pub struct DimmerGroup {
    dimmer1: String,
    dimmer1up: String,
    dimmer2: String,
    dimmer2up: String,
    colortemp1: String,
    colortemp2: String,
    all: String,
    allup: String,
    alldown: String,
    allcolortemp: String,
}

/// A `DimmerGroup` over character sequences. Each field is a decimal
/// reading: the dimmers in percent, the colour temperatures in kelvin.
pub struct DimmerGroupView {
    pub dimmer1: Seq<char>,
    pub dimmer1up: Seq<char>,
    pub dimmer2: Seq<char>,
    pub dimmer2up: Seq<char>,
    pub colortemp1: Seq<char>,
    pub colortemp2: Seq<char>,
    pub all: Seq<char>,
    pub allup: Seq<char>,
    pub alldown: Seq<char>,
    pub allcolortemp: Seq<char>,
}

/// What a group holds after an update: a decimal reading under one of the
/// keys of the group is kept under that key; anything else changes nothing.
pub open spec fn dimmer_group_after(
    g: DimmerGroupView,
    key: Seq<char>,
    new_state: Seq<char>,
) -> DimmerGroupView {
    if !is_decimal(new_state) {
        g
    } else if key == "dimmer1"@ {
        DimmerGroupView { dimmer1: new_state, ..g }
    } else if key == "dimmer1up"@ {
        DimmerGroupView { dimmer1up: new_state, ..g }
    } else if key == "dimmer2"@ {
        DimmerGroupView { dimmer2: new_state, ..g }
    } else if key == "dimmer2up"@ {
        DimmerGroupView { dimmer2up: new_state, ..g }
    } else if key == "colortemp1"@ {
        DimmerGroupView { colortemp1: new_state, ..g }
    } else if key == "colortemp2"@ {
        DimmerGroupView { colortemp2: new_state, ..g }
    } else if key == "all"@ {
        DimmerGroupView { all: new_state, ..g }
    } else if key == "allup"@ {
        DimmerGroupView { allup: new_state, ..g }
    } else if key == "alldown"@ {
        DimmerGroupView { alldown: new_state, ..g }
    } else if key == "allcolortemp"@ {
        DimmerGroupView { allcolortemp: new_state, ..g }
    } else {
        g
    }
}

/// The readings whose mean is the level of the group: its four dimmers.
pub open spec fn group_levels(g: DimmerGroupView) -> Seq<Seq<char>> {
    seq![g.dimmer1, g.dimmer1up, g.dimmer2, g.dimmer2up]
}

/// The scene modifications of a group for an entity: under `Energy` the
/// light of the entity follows the mean of the four dimmers; nothing
/// otherwise.
pub open spec fn dimmer_group_scene(
    g: DimmerGroupView,
    entity_name: Seq<char>,
    modification: SceneModification,
) -> Seq<SceneEventView> {
    match modification {
        SceneModification::Energy(_) => seq![
            SceneEventView::Light { entity_name, level: LightLevelView::Mean(group_levels(g)) },
        ],
        _ => Seq::empty(),
    }
}

/// A group whose readings are all `0`.
pub open spec fn dimmer_group_new() -> DimmerGroupView {
    DimmerGroupView {
        dimmer1: "0"@,
        dimmer1up: "0"@,
        dimmer2: "0"@,
        dimmer2up: "0"@,
        colortemp1: "0"@,
        colortemp2: "0"@,
        all: "0"@,
        allup: "0"@,
        alldown: "0"@,
        allcolortemp: "0"@,
    }
}

impl View for DimmerGroup {
    type V = DimmerGroupView;

    closed spec fn view(&self) -> DimmerGroupView {
        DimmerGroupView {
            dimmer1: self.dimmer1@,
            dimmer1up: self.dimmer1up@,
            dimmer2: self.dimmer2@,
            dimmer2up: self.dimmer2up@,
            colortemp1: self.colortemp1@,
            colortemp2: self.colortemp2@,
            all: self.all@,
            allup: self.allup@,
            alldown: self.alldown@,
            allcolortemp: self.allcolortemp@,
        }
    }
}

impl Default for DimmerGroup {
    /// A group whose readings are all `0`.
    fn default() -> (g: DimmerGroup)
        ensures
            g@ == dimmer_group_new(),
    {
        DimmerGroup::new()
    }
}

impl DimmerGroup {
    /// A group whose readings are all `0`.
    pub fn new() -> (g: DimmerGroup)
        ensures
            g@ == dimmer_group_new(),
    {
        DimmerGroup {
            dimmer1: owned("0"),
            dimmer1up: owned("0"),
            dimmer2: owned("0"),
            dimmer2up: owned("0"),
            colortemp1: owned("0"),
            colortemp2: owned("0"),
            all: owned("0"),
            allup: owned("0"),
            alldown: owned("0"),
            allcolortemp: owned("0"),
        }
    }

    /// The readings of the four dimmers, in percent.
    pub fn levels(&self) -> (r: Vec<String>)
        ensures
            r.deep_view() == group_levels(self@),
    {
        let mut levels: Vec<String> = Vec::new();
        levels.push(self.dimmer1.clone());
        levels.push(self.dimmer1up.clone());
        levels.push(self.dimmer2.clone());
        levels.push(self.dimmer2up.clone());
        assert(levels.deep_view() =~= group_levels(self@));
        levels
    }

    /// The readings of the upper dimmers, in percent.
    pub fn upper_levels(&self) -> (r: Vec<String>)
        ensures
            r.deep_view() == seq![self@.dimmer1up, self@.dimmer2up],
    {
        let mut levels: Vec<String> = Vec::new();
        levels.push(self.dimmer1up.clone());
        levels.push(self.dimmer2up.clone());
        assert(levels.deep_view() =~= seq![self@.dimmer1up, self@.dimmer2up]);
        levels
    }

    /// The readings of the lower dimmers, in percent.
    pub fn lower_levels(&self) -> (r: Vec<String>)
        ensures
            r.deep_view() == seq![self@.dimmer1, self@.dimmer2],
    {
        let mut levels: Vec<String> = Vec::new();
        levels.push(self.dimmer1.clone());
        levels.push(self.dimmer2.clone());
        assert(levels.deep_view() =~= seq![self@.dimmer1, self@.dimmer2]);
        levels
    }

    /// The readings of the colour temperatures, in kelvin.
    pub fn color_temperatures(&self) -> (r: Vec<String>)
        ensures
            r.deep_view() == seq![self@.colortemp1, self@.colortemp2],
    {
        let mut readings: Vec<String> = Vec::new();
        readings.push(self.colortemp1.clone());
        readings.push(self.colortemp2.clone());
        assert(readings.deep_view() =~= seq![self@.colortemp1, self@.colortemp2]);
        readings
    }

    /// Takes a decimal reading under one of the keys of the group.
    pub fn state_changed(&mut self, state_key: &str, new_state: &str)
        ensures
            final(self)@ == dimmer_group_after(old(self)@, state_key@, new_state@),
    {
        if !is_decimal_text(new_state) {
            return ;
        }
        if str_equal(state_key, "dimmer1") {
            self.dimmer1 = owned(new_state);
        } else if str_equal(state_key, "dimmer1up") {
            self.dimmer1up = owned(new_state);
        } else if str_equal(state_key, "dimmer2") {
            self.dimmer2 = owned(new_state);
        } else if str_equal(state_key, "dimmer2up") {
            self.dimmer2up = owned(new_state);
        } else if str_equal(state_key, "colortemp1") {
            self.colortemp1 = owned(new_state);
        } else if str_equal(state_key, "colortemp2") {
            self.colortemp2 = owned(new_state);
        } else if str_equal(state_key, "all") {
            self.all = owned(new_state);
        } else if str_equal(state_key, "allup") {
            self.allup = owned(new_state);
        } else if str_equal(state_key, "alldown") {
            self.alldown = owned(new_state);
        } else if str_equal(state_key, "allcolortemp") {
            self.allcolortemp = owned(new_state);
        }
    }

    /// The scene modifications that follow from the state of the group.
    pub fn state_to_blender(&self, entity_name: &String, modification: SceneModification) -> (r:
        Vec<SceneModificationEvent>)
        ensures
            r.deep_view() == dimmer_group_scene(self@, entity_name@, modification),
    {
        let mut events: Vec<SceneModificationEvent> = Vec::new();
        match modification {
            SceneModification::Energy(_) => {
                let event = SceneModificationEvent::LightModification(
                    LightModification {
                        entity_name: entity_name.clone(),
                        illuminance_percentage: LightLevel::Mean(self.levels()),
                    },
                );
                events.push(event);
                assert(events.deep_view() =~= seq![event.deep_view()]);
            },
            _ => {
                assert(events.deep_view() =~= Seq::<SceneEventView>::empty());
            },
        }
        events
    }
}

} // verus!
