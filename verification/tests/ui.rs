use smarthome_model::emoji::{COFFEE_MACHINE, LIGHT_BULB};
use smarthome_model::openhab::{RequestedStateChangeFromWidget, WidgetInteraction};
use smarthome_model::ui::{fullscreen_interactions, simple_button_interactions};
use smarthome_model::widget_settings::WidgetRenderSetting;

fn setting() -> WidgetRenderSetting {
    WidgetRenderSetting {
        top: "50".to_string(),
        left: "50".to_string(),
        id: "floorplan_lamp".to_string(),
        label: None,
        widget_name: "lamp".to_string(),
    }
}

fn change(value: &str) -> RequestedStateChangeFromWidget {
    RequestedStateChangeFromWidget { key: "lamp".to_string(), value: value.to_string() }
}

fn requests(
    interactions: &Vec<WidgetInteraction>,
) -> Vec<(Option<RequestedStateChangeFromWidget>, Option<bool>)> {
    interactions
        .iter()
        .map(|i| match i {
            WidgetInteraction::StateChange(r) => (Some(r.clone()), None),
            WidgetInteraction::FullscreenRequest(b) => (None, Some(*b)),
        })
        .collect()
}

#[test]
fn click_asks_for_the_other_state() {
    let on = simple_button_interactions(&setting(), true, true, false, None, None);
    assert_eq!(requests(&on), vec![(Some(change("OFF")), None)]);
    let off = simple_button_interactions(&setting(), false, true, false, None, None);
    assert_eq!(requests(&off), vec![(Some(change("ON")), None)]);
    let dimmer_on = simple_button_interactions(&setting(), true, true, false, Some("100"), Some("0"));
    assert_eq!(requests(&dimmer_on), vec![(Some(change("0")), None)]);
    let dimmer_off =
        simple_button_interactions(&setting(), false, true, false, Some("100"), Some("0"));
    assert_eq!(requests(&dimmer_off), vec![(Some(change("100")), None)]);
}

#[test]
fn secondary_click_asks_for_fullscreen() {
    let both = simple_button_interactions(&setting(), false, true, true, None, None);
    assert_eq!(requests(&both), vec![(Some(change("ON")), None), (None, Some(true))]);
    let secondary = simple_button_interactions(&setting(), true, false, true, None, None);
    assert_eq!(requests(&secondary), vec![(None, Some(true))]);
    let none = simple_button_interactions(&setting(), true, false, false, None, None);
    assert!(none.is_empty());
}

#[test]
fn close_leaves_fullscreen() {
    assert_eq!(fullscreen_interactions(true), vec![WidgetInteraction::FullscreenRequest(false)]);
    assert_eq!(requests(&fullscreen_interactions(true)), vec![(None, Some(false))]);
    assert!(fullscreen_interactions(false).is_empty());
}

#[test]
fn icon_codes() {
    assert_eq!(LIGHT_BULB, "1F4A1");
    assert_eq!(COFFEE_MACHINE, "E150");
}
