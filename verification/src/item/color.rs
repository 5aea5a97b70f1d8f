//! A widget for a coloured light.
//!
//! The light reports its colour as hue, saturation and brightness, three
//! decimal readings with commas between them.

use vstd::prelude::*;
use crate::events::{LightLevel, LightLevelView, LightModification, SceneEventView, SceneModificationEvent};
use crate::item::NotificationStatus;
use crate::item::switch::{lit_notification, notification_if_lit};
use crate::reading::{is_decimal, is_decimal_text, is_zero_decimal, is_zero_text};
use crate::text::{owned, split, split_on};
use crate::ui::{ButtonColor, ButtonColorView, SimpleButton, SimpleButtonView};
use crate::widget_settings::SceneModification;

verus! {

/// A coloured light.
#[derive(Debug)]
pub struct Color {
    hue: String,
    saturation: String,
    brightness: String,
    has_color: bool,
}

/// A `Color` over character sequences.
pub struct ColorView {
    /// The hue in degrees, a decimal reading.
    pub hue: Seq<char>,
    /// The saturation in percent, a decimal reading.
    pub saturation: Seq<char>,
    /// The brightness in percent, a decimal reading.
    pub brightness: Seq<char>,
    /// Whether the latest state gave a colour.
    pub has_color: bool,
}

/// A component of a colour as it is kept: the text where it is a decimal
/// reading, else `0`.
pub open spec fn component(t: Seq<char>) -> Seq<char> {
    if is_decimal(t) {
        t
    } else {
        "0"@
    }
}

/// What a colour holds after an update: a state of three parts between
/// commas gives the three components; any other state leaves them and says
/// that no colour is known.
pub open spec fn color_after(c: ColorView, new_state: Seq<char>) -> ColorView {
    let parts = split_on(new_state, ',');
    if parts.len() == 3 {
        ColorView {
            hue: component(parts[0]),
            saturation: component(parts[1]),
            brightness: component(parts[2]),
            has_color: true,
        }
    } else {
        ColorView { has_color: false, ..c }
    }
}

/// Whether the light is on: its brightness is not a number with only zeros
/// for digits.
pub open spec fn color_lit(c: ColorView) -> bool {
    !is_zero_decimal(c.brightness)
}

/// The scene modifications of a coloured light for an entity: under `Energy`
/// the light of the entity follows the brightness; nothing otherwise.
pub open spec fn color_scene(
    c: ColorView,
    entity_name: Seq<char>,
    modification: SceneModification,
) -> Seq<SceneEventView> {
    match modification {
        SceneModification::Energy(_) => seq![
            SceneEventView::Light { entity_name, level: LightLevelView::Reading(c.brightness) },
        ],
        _ => Seq::empty(),
    }
}

/// The button of a coloured light: the light bulb, in the colour of the
/// light where one is known and in yellow otherwise.
pub open spec fn color_button(c: ColorView) -> SimpleButtonView {
    SimpleButtonView {
        state: color_lit(c),
        milliampere: None,
        icon: "1F4A1"@,
        on_color: if c.has_color {
            ButtonColorView::Hsb(c.hue, c.saturation)
        } else {
            ButtonColorView::DarkYellow
        },
        on_command: None,
        off_command: None,
    }
}

/// A coloured light that is dark and has no colour yet.
pub open spec fn color_new() -> ColorView {
    ColorView { hue: "0"@, saturation: "0"@, brightness: "0"@, has_color: false }
}

impl View for Color {
    type V = ColorView;

    closed spec fn view(&self) -> ColorView {
        ColorView {
            hue: self.hue@,
            saturation: self.saturation@,
            brightness: self.brightness@,
            has_color: self.has_color,
        }
    }
}

/// A component of a colour as it is kept.
fn read_component(t: &str) -> (r: String)
    ensures
        r@ == component(t@),
{
    if is_decimal_text(t) {
        owned(t)
    } else {
        owned("0")
    }
}

impl Color {
    /// A coloured light that is dark and has no colour yet.
    pub fn new() -> (c: Color)
        ensures
            c@ == color_new(),
    {
        Color { hue: owned("0"), saturation: owned("0"), brightness: owned("0"), has_color: false }
    }

    /// The hue in degrees, a decimal reading.
    pub fn hue(&self) -> (r: &String)
        ensures
            r@ == self@.hue,
    {
        &self.hue
    }

    /// The saturation in percent, a decimal reading.
    pub fn saturation(&self) -> (r: &String)
        ensures
            r@ == self@.saturation,
    {
        &self.saturation
    }

    /// The brightness in percent, a decimal reading.
    pub fn brightness(&self) -> (r: &String)
        ensures
            r@ == self@.brightness,
    {
        &self.brightness
    }

    /// Whether the latest state gave a colour.
    pub fn has_color(&self) -> (b: bool)
        ensures
            b == self@.has_color,
    {
        self.has_color
    }

    /// Takes hue, saturation and brightness from the new state, whatever the
    /// key.
    pub fn state_changed(&mut self, _key: &str, new_state: &str)
        ensures
            final(self)@ == color_after(old(self)@, new_state@),
    {
        let parts = split(new_state, ',');
        assert(parts.deep_view().len() == parts@.len());
        if parts.len() == 3 {
            assert(parts.deep_view()[0] == parts@[0]@);
            assert(parts.deep_view()[1] == parts@[1]@);
            assert(parts.deep_view()[2] == parts@[2]@);
            self.hue = read_component(parts[0]);
            self.saturation = read_component(parts[1]);
            self.brightness = read_component(parts[2]);
            self.has_color = true;
        } else {
            self.has_color = false;
        }
    }

    /// Whether the light is on.
    pub fn is_lit(&self) -> (b: bool)
        ensures
            b == color_lit(self@),
    {
        !is_zero_text(self.brightness.as_str())
    }

    /// The alert of the light: one while it is on.
    pub fn get_notification_status(&self) -> (r: Option<NotificationStatus>)
        ensures
            r.deep_view() == lit_notification(color_lit(self@)),
    {
        notification_if_lit(self.is_lit())
    }

    /// The scene modifications that follow from the state of the light.
    pub fn state_to_blender(&self, entity_name: &String, modification: SceneModification) -> (r:
        Vec<SceneModificationEvent>)
        ensures
            r.deep_view() == color_scene(self@, entity_name@, modification),
    {
        let mut events: Vec<SceneModificationEvent> = Vec::new();
        match modification {
            SceneModification::Energy(_) => {
                let event = SceneModificationEvent::LightModification(
                    LightModification {
                        entity_name: entity_name.clone(),
                        illuminance_percentage: LightLevel::Reading(self.brightness.clone()),
                    },
                );
                events.push(event);
                assert(events.deep_view() =~= seq![event.deep_view()]);
            },
            _ => {
                assert(events.deep_view() =~= Seq::<SceneEventView>::empty());
            },
        }
        events
    }

    /// The button that stands for the light.
    pub fn button(&self) -> (b: SimpleButton)
        ensures
            b.deep_view() == color_button(self@),
    {
        SimpleButton {
            state: self.is_lit(),
            milliampere: None,
            icon: owned("1F4A1"),
            on_color: if self.has_color {
                ButtonColor::Hsb(self.hue.clone(), self.saturation.clone())
            } else {
                ButtonColor::DarkYellow
            },
            on_command: None,
            off_command: None,
        }
    }
}

} // verus!
