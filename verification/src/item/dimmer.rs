//! A widget for a light that can be dimmed.

use vstd::prelude::*;
use crate::config::SmartHomeItemInternal;
use crate::events::{LightLevel, LightLevelView, LightModification, SceneEventView, SceneModificationEvent};
use crate::item::NotificationStatus;
use crate::item::switch::{lit_notification, notification_if_lit};
use crate::reading::{is_decimal, is_decimal_text, parse_u8, unsigned_number};
use crate::table::Table;
use crate::text::{owned, str_equal};
use crate::ui::{ButtonColor, ButtonColorView, SimpleButton, SimpleButtonView};
use crate::widget_settings::SceneModification;

verus! {

/// The key under which a dimmer gets its colour temperature.
pub const KEY_COLORTEMP: &'static str = "colortemp";

/// A dimmer.
#[derive(Debug)]
pub struct Dimmer {
    state: bool,
    value: u8,
    toggling: bool,
    color_temperature: Option<String>,
    has_color_temperature: bool,
}

/// A `Dimmer` over character sequences.
pub struct DimmerView {
    /// Whether the light is on.
    pub state: bool,
    /// How far the light is turned up.
    pub value: u8,
    /// Whether a change was asked for and is not confirmed yet.
    pub toggling: bool,
    /// The colour temperature, as a decimal reading.
    pub color_temperature: Option<Seq<char>>,
    /// Whether one of the bindings brings the colour temperature.
    pub has_color_temperature: bool,
}

/// The level that a state gives: the whole number up to 255 that it writes,
/// else 100 for `ON` and 0 for anything else.
pub open spec fn dimmer_level(new_state: Seq<char>) -> u8 {
    match unsigned_number(new_state, 255) {
        Some(v) => v as u8,
        None => if new_state == "ON"@ {
            100u8
        } else {
            0u8
        },
    }
}

/// What a dimmer holds after an update: the key `colortemp` brings the colour
/// temperature, kept where it is a decimal reading and dropped otherwise;
/// any other key brings the level, and the light is on unless the level is 0.
pub open spec fn dimmer_after(d: DimmerView, key: Seq<char>, new_state: Seq<char>) -> DimmerView {
    if key == "colortemp"@ {
        DimmerView {
            color_temperature: if is_decimal(new_state) {
                Some(new_state)
            } else {
                None
            },
            ..d
        }
    } else {
        DimmerView {
            value: dimmer_level(new_state),
            state: dimmer_level(new_state) != 0,
            toggling: false,
            ..d
        }
    }
}

/// The share of full intensity that a dimmer asks for: nothing while it is
/// off, else its level and at least 10 percent.
pub open spec fn dimmer_percent(d: DimmerView) -> u8 {
    if d.state {
        if d.value < 10 {
            10u8
        } else {
            d.value
        }
    } else {
        0u8
    }
}

/// The scene modifications of a dimmer for an entity: under `Energy` the
/// light of the entity follows the level; nothing otherwise.
pub open spec fn dimmer_scene(
    d: DimmerView,
    entity_name: Seq<char>,
    modification: SceneModification,
) -> Seq<SceneEventView> {
    match modification {
        SceneModification::Energy(_) => seq![
            SceneEventView::Light { entity_name, level: LightLevelView::Percent(dimmer_percent(d)) },
        ],
        _ => Seq::empty(),
    }
}

/// Whether one of the bindings has the key `colortemp`.
pub open spec fn binds_color_temperature(bindings: Seq<(Seq<char>, Seq<char>)>) -> bool {
    exists|i: int| 0 <= i < bindings.len() && (#[trigger] bindings[i]).1 == "colortemp"@
}

/// The button of a dimmer: the light bulb in yellow, with the commands `100`
/// and `0`.
pub open spec fn dimmer_button(d: DimmerView) -> SimpleButtonView {
    SimpleButtonView {
        state: d.state,
        milliampere: None,
        icon: "1F4A1"@,
        on_color: ButtonColorView::DarkYellow,
        on_command: Some("100"@),
        off_command: Some("0"@),
    }
}

/// A dimmer that is off.
pub open spec fn dimmer_new(has_color_temperature: bool) -> DimmerView {
    DimmerView {
        state: false,
        value: 0,
        toggling: false,
        color_temperature: None,
        has_color_temperature,
    }
}

impl View for Dimmer {
    type V = DimmerView;

    closed spec fn view(&self) -> DimmerView {
        DimmerView {
            state: self.state,
            value: self.value,
            toggling: self.toggling,
            color_temperature: self.color_temperature.deep_view(),
            has_color_temperature: self.has_color_temperature,
        }
    }
}

impl Dimmer {
    /// A dimmer that is off, for a widget with the given bindings.
    pub fn new(config: &Table<SmartHomeItemInternal>) -> (d: Dimmer)
        ensures
            d@ == dimmer_new(binds_color_temperature(config.deep_view())),
    {
        let ghost bindings = config.deep_view();
        let mut has_color_temperature = false;
        let n = config.len();
        let mut i: usize = 0;
        while i < n
            invariant
                n == config.entries().len(),
                bindings == config.deep_view(),
                i <= n,
                has_color_temperature == (exists|k: int|
                    0 <= k < i && (#[trigger] bindings[k]).1 == "colortemp"@),
            decreases n - i,
        {
            assert(bindings[i as int].1 == config.entries()[i as int].1.key@);
            if str_equal(config.value(i).key.as_str(), "colortemp") {
                has_color_temperature = true;
            }
            i += 1;
        }
        Dimmer {
            state: false,
            value: 0,
            toggling: false,
            color_temperature: None,
            has_color_temperature,
        }
    }

    /// Whether the light is on.
    pub fn is_on(&self) -> (b: bool)
        ensures
            b == self@.state,
    {
        self.state
    }

    /// How far the light is turned up.
    pub fn value(&self) -> (v: u8)
        ensures
            v == self@.value,
    {
        self.value
    }

    /// The colour temperature, as a decimal reading.
    pub fn color_temperature(&self) -> (r: &Option<String>)
        ensures
            r.deep_view() == self@.color_temperature,
    {
        &self.color_temperature
    }

    /// Whether one of the bindings brings the colour temperature.
    pub fn has_color_temperature(&self) -> (b: bool)
        ensures
            b == self@.has_color_temperature,
    {
        self.has_color_temperature
    }

    /// Takes the colour temperature under the key `colortemp`, and the level
    /// under any other key.
    pub fn state_changed(&mut self, key: &str, new_state: &str)
        ensures
            final(self)@ == dimmer_after(old(self)@, key@, new_state@),
    {
        if str_equal(key, "colortemp") {
            self.color_temperature = if is_decimal_text(new_state) {
                Some(owned(new_state))
            } else {
                None
            };
        } else {
            match parse_u8(new_state) {
                Some(t) => {
                    self.value = t;
                },
                None => {
                    if str_equal(new_state, "ON") {
                        self.value = 100;
                    } else {
                        self.value = 0;
                    }
                },
            }
            self.state = self.value != 0;
            self.toggling = false;
        }
    }

    /// The scene modifications that follow from the state of the dimmer.
    pub fn state_to_blender(&self, entity_name: &String, modification: SceneModification) -> (r:
        Vec<SceneModificationEvent>)
        ensures
            r.deep_view() == dimmer_scene(self@, entity_name@, modification),
    {
        let mut events: Vec<SceneModificationEvent> = Vec::new();
        match modification {
            SceneModification::Energy(_) => {
                let percent: u8 = if self.state {
                    if self.value < 10 {
                        10
                    } else {
                        self.value
                    }
                } else {
                    0
                };
                let event = SceneModificationEvent::LightModification(
                    LightModification {
                        entity_name: entity_name.clone(),
                        illuminance_percentage: LightLevel::Percent(percent),
                    },
                );
                events.push(event);
                assert(events.deep_view() =~= seq![event.deep_view()]);
            },
            _ => {
                assert(events.deep_view() =~= Seq::<SceneEventView>::empty());
            },
        }
        events
    }

    /// The alert of the dimmer: one while its level is above 0.
    pub fn get_notification_status(&self) -> (r: Option<NotificationStatus>)
        ensures
            r.deep_view() == lit_notification(self@.value > 0),
    {
        notification_if_lit(self.value > 0)
    }

    /// The button that stands for the dimmer.
    pub fn button(&self) -> (b: SimpleButton)
        ensures
            b.deep_view() == dimmer_button(self@),
    {
        SimpleButton {
            state: self.state,
            milliampere: None,
            icon: owned("1F4A1"),
            on_color: ButtonColor::DarkYellow,
            on_command: Some(owned("100")),
            off_command: Some(owned("0")),
        }
    }
}

} // verus!
