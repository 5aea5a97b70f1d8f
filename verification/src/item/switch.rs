//! A widget for something that is on or off.

use vstd::prelude::*;
use crate::errors::{DeviceModelError, DeviceModelErrorView};
use crate::events::{LightLevel, LightLevelView, LightModification, SceneEventView, SceneModificationEvent};
use crate::item::{NotificationStatus, NotificationView, configuration_error, configuration_failure};
use crate::json::{Json, JsonValue};
use crate::text::{owned, str_equal};
use crate::ui::{ButtonColor, ButtonColorView, SimpleButton, SimpleButtonView};
use crate::widget_settings::SceneModification;

verus! {

/// The configuration of a switch: its icon, and a label.
#[derive(Debug)]
pub struct SwitchConfig {
    icon: String,
    label: Option<String>,
}

/// A `SwitchConfig` over character sequences.
pub struct SwitchConfigView {
    pub icon: Seq<char>,
    pub label: Option<Seq<char>>,
}

impl DeepView for SwitchConfig {
    type V = SwitchConfigView;

    closed spec fn deep_view(&self) -> SwitchConfigView {
        SwitchConfigView { icon: self.icon@, label: self.label.deep_view() }
    }
}

/// The switch configuration that a document holds: an object with the text
/// `icon` and, if it has a `label` that is not null, a text there.
pub open spec fn switch_config_of(doc: Json) -> Option<SwitchConfigView> {
    match (doc.text_member("icon"@), doc.optional_text_member("label"@)) {
        (Some(icon), Some(label)) => Some(SwitchConfigView { icon, label }),
        _ => None,
    }
}

impl SwitchConfig {
    /// Reads a switch configuration from a document.
    pub fn from_json(doc: &JsonValue) -> (r: Option<SwitchConfig>)
        ensures
            r.deep_view() == switch_config_of(doc@),
    {
        match (doc.text_member("icon"), doc.optional_text_member("label")) {
            (Some(icon), Some(label)) => Some(SwitchConfig { icon: icon.clone(), label }),
            _ => None,
        }
    }
}

/// A switch.
#[derive(Debug)]
pub struct Switch {
    state: bool,
    toggling: bool,
    milliampere: Option<String>,
    icon: String,
    icon_given: bool,
    label: Option<String>,
}

/// A `Switch` over character sequences.
pub struct SwitchView {
    /// Whether the switch is on.
    pub state: bool,
    /// Whether a change was asked for and is not confirmed yet.
    pub toggling: bool,
    /// The latest reading of the current, in milliampere.
    pub milliampere: Option<Seq<char>>,
    pub icon: Seq<char>,
    /// Whether the icon comes from the configuration.
    pub icon_given: bool,
    pub label: Option<Seq<char>>,
}

/// What a switch holds after an update: the key `miliampere` brings a
/// reading of the current; under any other key the switch is on unless the
/// state is `OFF`, and no change is pending any more.
pub open spec fn switch_after(s: SwitchView, key: Seq<char>, new_state: Seq<char>) -> SwitchView {
    if key == "miliampere"@ {
        SwitchView { milliampere: Some(new_state), ..s }
    } else {
        SwitchView { state: new_state != "OFF"@, toggling: false, ..s }
    }
}

/// What a switch holds after it read a configuration.
pub open spec fn switch_configured(s: SwitchView, c: SwitchConfigView) -> SwitchView {
    SwitchView { icon: c.icon, icon_given: true, label: c.label, ..s }
}

/// The scene modifications of a switch for an entity: under `Energy` the
/// light of the entity is fully on or off with the switch; nothing otherwise.
pub open spec fn switch_scene(
    s: SwitchView,
    entity_name: Seq<char>,
    modification: SceneModification,
) -> Seq<SceneEventView> {
    match modification {
        SceneModification::Energy(_) => seq![
            SceneEventView::Light {
                entity_name,
                level: LightLevelView::Percent(
                    if s.state {
                        100u8
                    } else {
                        0u8
                    },
                ),
            },
        ],
        _ => Seq::empty(),
    }
}

/// The alert of a widget that is on: yellow, priority 1, one notification.
pub open spec fn lit_notification(on: bool) -> Option<NotificationView> {
    if on {
        Some(NotificationView { color: "yellow"@, priority: 1, num: 1 })
    } else {
        None
    }
}

/// The alert of a widget that is on.
pub fn notification_if_lit(on: bool) -> (r: Option<NotificationStatus>)
    ensures
        r.deep_view() == lit_notification(on),
{
    if on {
        Some(NotificationStatus { color: owned("yellow"), priority: 1, num: 1 })
    } else {
        None
    }
}

/// The button of a switch: green with a configured icon, yellow with the
/// light bulb, and with the plain commands `ON` and `OFF`.
pub open spec fn switch_button(s: SwitchView) -> SimpleButtonView {
    SimpleButtonView {
        state: s.state,
        milliampere: s.milliampere,
        icon: s.icon,
        on_color: if s.icon_given {
            ButtonColorView::DarkGreen
        } else {
            ButtonColorView::DarkYellow
        },
        on_command: None,
        off_command: None,
    }
}

/// A switch that is off, with the light bulb as its icon.
pub open spec fn switch_new() -> SwitchView {
    SwitchView {
        state: false,
        toggling: false,
        milliampere: None,
        icon: "1F4A1"@,
        icon_given: false,
        label: None,
    }
}

impl View for Switch {
    type V = SwitchView;

    closed spec fn view(&self) -> SwitchView {
        SwitchView {
            state: self.state,
            toggling: self.toggling,
            milliampere: self.milliampere.deep_view(),
            icon: self.icon@,
            icon_given: self.icon_given,
            label: self.label.deep_view(),
        }
    }
}

impl Switch {
    /// A switch that is off, with the light bulb as its icon.
    pub fn new() -> (s: Switch)
        ensures
            s@ == switch_new(),
    {
        Switch {
            state: false,
            toggling: false,
            milliampere: None,
            icon: owned("1F4A1"),
            icon_given: false,
            label: None,
        }
    }

    /// Whether the switch is on.
    pub fn is_on(&self) -> (b: bool)
        ensures
            b == self@.state,
    {
        self.state
    }

    /// The latest reading of the current, in milliampere.
    pub fn milliampere(&self) -> (r: &Option<String>)
        ensures
            r.deep_view() == self@.milliampere,
    {
        &self.milliampere
    }

    /// Reads icon and label from the configuration. A document that holds no
    /// switch configuration is refused and changes nothing.
    pub fn set_configuration(&mut self, config: &JsonValue) -> (r: Result<(), DeviceModelError>)
        ensures
            match r {
                Ok(_) => switch_config_of(config@) is Some && final(self)@ == switch_configured(
                    old(self)@,
                    switch_config_of(config@).unwrap(),
                ),
                Err(e) => switch_config_of(config@) is None && final(self)@ == old(self)@ && e@
                    == DeviceModelErrorView::ConfigurationMalformed(configuration_failure()),
            },
    {
        match SwitchConfig::from_json(config) {
            Some(c) => {
                self.icon = c.icon;
                self.icon_given = true;
                self.label = c.label;
                Ok(())
            },
            None => Err(configuration_error()),
        }
    }

    /// Takes a reading of the current under the key `miliampere`, and the
    /// state of the switch under any other key.
    pub fn state_changed(&mut self, key: &str, new_state: &str)
        ensures
            final(self)@ == switch_after(old(self)@, key@, new_state@),
    {
        if str_equal(key, "miliampere") {
            self.milliampere = Some(owned(new_state));
        } else {
            self.state = !str_equal(new_state, "OFF");
            self.toggling = false;
        }
    }

    /// The scene modifications that follow from the state of the switch.
    pub fn state_to_blender(&self, entity_name: &String, modification: SceneModification) -> (r:
        Vec<SceneModificationEvent>)
        ensures
            r.deep_view() == switch_scene(self@, entity_name@, modification),
    {
        let mut events: Vec<SceneModificationEvent> = Vec::new();
        match modification {
            SceneModification::Energy(_) => {
                let event = SceneModificationEvent::LightModification(
                    LightModification {
                        entity_name: entity_name.clone(),
                        illuminance_percentage: LightLevel::Percent(
                            if self.state {
                                100
                            } else {
                                0
                            },
                        ),
                    },
                );
                events.push(event);
                assert(events.deep_view() =~= seq![event.deep_view()]);
            },
            _ => {
                assert(events.deep_view() =~= Seq::<SceneEventView>::empty());
            },
        }
        events
    }

    /// The alert of the switch: one while it is on.
    pub fn get_notification_status(&self) -> (r: Option<NotificationStatus>)
        ensures
            r.deep_view() == lit_notification(self@.state),
    {
        notification_if_lit(self.state)
    }

    /// The button that stands for the switch.
    pub fn button(&self) -> (b: SimpleButton)
        ensures
            b.deep_view() == switch_button(self@),
    {
        let milliampere = match &self.milliampere {
            Some(m) => Some(m.clone()),
            None => None,
        };
        SimpleButton {
            state: self.state,
            milliampere,
            icon: self.icon.clone(),
            on_color: if self.icon_given {
                ButtonColor::DarkGreen
            } else {
                ButtonColor::DarkYellow
            },
            on_command: None,
            off_command: None,
        }
    }
}

} // verus!
