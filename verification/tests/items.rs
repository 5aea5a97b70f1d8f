use smarthome_model::config::SmartHomeItemInternal;
use smarthome_model::errors::DeviceModelError;
use smarthome_model::events::{LightLevel, LightModification, SceneModificationEvent, SunModification};
use smarthome_model::item::climate::{Climate, ClimateConfig};
use smarthome_model::item::color::Color;
use smarthome_model::item::dimmer::Dimmer;
use smarthome_model::item::dimmer_group::DimmerGroup;
use smarthome_model::item::switch::{Switch, SwitchConfig};
use smarthome_model::item::{
    Calendar, Music, MusicConfig, NotificationStatus, Number, Scene, SceneConfig, Text, Widget,
};
use smarthome_model::json::parse_json;
use smarthome_model::plot::PlotType;
use smarthome_model::table::Table;
use smarthome_model::ui::ButtonColor;
use smarthome_model::widget_settings::SceneModification;

fn light(entity: &str, level: LightLevel) -> SceneModificationEvent {
    SceneModificationEvent::LightModification(LightModification {
        entity_name: entity.to_string(),
        illuminance_percentage: level,
    })
}

fn yellow() -> Option<NotificationStatus> {
    Some(NotificationStatus { color: "yellow".to_string(), priority: 1, num: 1 })
}

fn malformed() -> DeviceModelError {
    DeviceModelError::ConfigurationMalformed("Failed to parse config for item".to_string())
}

#[test]
fn number_keeps_the_latest_reading() {
    let mut n = Number::new();
    assert_eq!(n.value(), "0");
    n.state_changed("any", "130.75 W");
    assert_eq!(n.value(), "130.75");
    n.state_changed("any", "NULL");
    assert_eq!(n.value(), "130.75");
    n.state_changed("any", "");
    assert_eq!(n.value(), "130.75");
    n.state_changed("any", " 5");
    assert_eq!(n.value(), "130.75");
    n.state_changed("any", "-3");
    assert_eq!(n.value(), "-3");
}

#[test]
fn text_takes_every_state() {
    let mut t = Text::new();
    assert_eq!(t.value(), &None);
    t.state_changed("any", "hello");
    assert_eq!(t.value(), &Some("hello".to_string()));
    t.state_changed("other", "");
    assert_eq!(t.value(), &Some("".to_string()));
}

#[test]
fn calendar_takes_event_and_time() {
    let mut c = Calendar::new();
    assert_eq!(c.event(), &None);
    assert_eq!(c.time(), &None);
    c.state_changed("event", "Dentist");
    c.state_changed("time", "10:30");
    c.state_changed("place", "Town");
    assert_eq!(c.event(), &Some("Dentist".to_string()));
    assert_eq!(c.time(), &Some("10:30".to_string()));
}

fn music_config() -> &'static str {
    "{\"devices\": [[\"Kitchen\", \"RINCON_1\"]], \"id\": \"RINCON_1\", \"radios\": [], \"playlists\": [[\"Jazz\", \"pl1\"]]}"
}

#[test]
fn music_config_is_read_from_a_document() {
    let c = MusicConfig::from_json(&parse_json(music_config()).unwrap()).unwrap();
    assert_eq!(c.id(), "RINCON_1");
    assert!(MusicConfig::from_json(&parse_json("{\"id\": \"x\"}").unwrap()).is_none());
    assert!(MusicConfig::from_json(
        &parse_json("{\"devices\": [[\"a\"]], \"id\": \"x\", \"radios\": [], \"playlists\": []}")
            .unwrap()
    )
    .is_none());
}

#[test]
fn music_slider_needs_a_playing_standalone_player_with_an_image() {
    let mut m = Music::new();
    assert!(m.is_standalone());
    assert!(m.is_stopped());
    assert_eq!(m.render_slider(), None);
    assert_eq!(m.set_configuration(&parse_json(music_config()).unwrap()), Ok(()));
    assert!(!m.is_standalone());
    m.state_changed("coordinator", "RINCON_1");
    assert!(m.is_standalone());
    m.state_changed("state", "PLAYING");
    assert!(!m.is_stopped());
    assert_eq!(m.render_slider(), None);
    m.state_changed("image", "http://cover");
    assert_eq!(m.render_slider(), Some(("slider-music".to_string(), 100)));
    m.state_changed("state", "PAUSED_PLAYBACK");
    assert!(m.is_stopped());
    assert_eq!(m.render_slider(), None);
    m.state_changed("state", "PLAYING");
    m.state_changed("image", "");
    assert_eq!(m.render_slider(), None);
    m.state_changed("image", "x");
    m.state_changed("coordinator", "RINCON_2");
    assert_eq!(m.render_slider(), None);
    m.state_changed("state", "STOPPED");
    assert!(m.is_stopped());
    m.state_changed("state", "");
    assert!(m.is_stopped());
}

#[test]
fn music_parse_drops_the_empty_state() {
    let m = Music::new();
    assert_eq!(m.parse("x"), Some("x".to_string()));
    assert_eq!(m.parse(""), None);
}

#[test]
fn music_refuses_a_malformed_configuration() {
    let mut m = Music::new();
    assert_eq!(m.set_configuration(&parse_json("{}").unwrap()), Err(malformed()));
    assert!(m.is_standalone());
}

#[test]
fn scene_reads_its_scenes() {
    let doc = parse_json("{\"scenes\": [[\"Evening\", \"scene_1\", \"moon\"]]}").unwrap();
    assert!(SceneConfig::from_json(&doc).is_some());
    let mut s = Scene::new();
    assert_eq!(s.set_configuration(&doc), Ok(()));
    s.state_changed("any", "thing");
    assert_eq!(
        s.set_configuration(&parse_json("{\"scenes\": [[\"a\", \"b\"]]}").unwrap()),
        Err(malformed())
    );
    assert_eq!(s.set_configuration(&parse_json("[]").unwrap()), Err(malformed()));
}

#[test]
fn switch_follows_its_state() {
    let mut s = Switch::new();
    assert!(!s.is_on());
    assert_eq!(s.get_notification_status(), None);
    s.state_changed("switch", "ON");
    assert!(s.is_on());
    assert_eq!(s.get_notification_status(), yellow());
    s.state_changed("switch", "OFF");
    assert!(!s.is_on());
    s.state_changed("switch", "anything");
    assert!(s.is_on());
    s.state_changed("miliampere", "OFF");
    assert!(s.is_on());
    assert_eq!(s.milliampere(), &Some("OFF".to_string()));
    s.state_changed("miliampere", "431");
    assert_eq!(s.milliampere(), &Some("431".to_string()));
}

#[test]
fn switch_drives_the_light_of_an_entity() {
    let mut s = Switch::new();
    let entity = "Lamp.001".to_string();
    assert_eq!(
        s.state_to_blender(&entity, SceneModification::Energy(400)),
        vec![light("Lamp.001", LightLevel::Percent(0))]
    );
    s.state_changed("switch", "ON");
    assert_eq!(
        s.state_to_blender(&entity, SceneModification::Energy(400)),
        vec![light("Lamp.001", LightLevel::Percent(100))]
    );
    assert_eq!(s.state_to_blender(&entity, SceneModification::Sun()), vec![]);
    assert_eq!(s.state_to_blender(&entity, SceneModification::Color()), vec![]);
}

#[test]
fn switch_button_shows_the_configured_icon_in_green() {
    let mut s = Switch::new();
    let b = s.button();
    assert!(!b.state);
    assert_eq!(b.icon, "1F4A1");
    assert_eq!(b.on_color, ButtonColor::DarkYellow);
    assert_eq!(b.on_command, None);
    assert_eq!(b.off_command, None);
    let doc = parse_json("{\"icon\": \"E150\", \"label\": \"Coffee\"}").unwrap();
    assert!(SwitchConfig::from_json(&doc).is_some());
    assert_eq!(s.set_configuration(&doc), Ok(()));
    s.state_changed("miliampere", "12");
    s.state_changed("x", "ON");
    let b = s.button();
    assert!(b.state);
    assert_eq!(b.icon, "E150");
    assert_eq!(b.on_color, ButtonColor::DarkGreen);
    assert_eq!(b.milliampere, Some("12".to_string()));
    assert_eq!(s.set_configuration(&parse_json("{\"label\": \"x\"}").unwrap()), Err(malformed()));
    assert_eq!(
        s.set_configuration(&parse_json("{\"icon\": \"E150\", \"label\": 5}").unwrap()),
        Err(malformed())
    );
    assert_eq!(s.set_configuration(&parse_json("{\"icon\": \"1F4A1\"}").unwrap()), Ok(()));
    assert_eq!(s.button().icon, "1F4A1");
    assert_eq!(s.button().on_color, ButtonColor::DarkGreen);
}

fn bindings(keys: &[(&str, &str)]) -> Table<SmartHomeItemInternal> {
    let mut t = Table::new();
    for (item, key) in keys {
        t.insert(item.to_string(), SmartHomeItemInternal { key: key.to_string() });
    }
    t
}

#[test]
fn dimmer_knows_whether_it_has_a_colour_temperature() {
    assert!(!Dimmer::new(&bindings(&[])).has_color_temperature());
    assert!(!Dimmer::new(&bindings(&[("Lamp", "Lamp")])).has_color_temperature());
    assert!(Dimmer::new(&bindings(&[("Lamp", "Lamp"), ("Lamp_CT", "colortemp")]))
        .has_color_temperature());
    assert!(!Dimmer::new(&bindings(&[("colortemp", "x")])).has_color_temperature());
}

#[test]
fn dimmer_takes_levels_and_words() {
    let mut d = Dimmer::new(&bindings(&[]));
    assert_eq!(d.value(), 0);
    assert!(!d.is_on());
    d.state_changed("dimmer", "42");
    assert_eq!(d.value(), 42);
    assert!(d.is_on());
    d.state_changed("dimmer", "0");
    assert!(!d.is_on());
    d.state_changed("dimmer", "ON");
    assert_eq!(d.value(), 100);
    d.state_changed("dimmer", "OFF");
    assert_eq!(d.value(), 0);
    d.state_changed("dimmer", "255");
    assert_eq!(d.value(), 255);
    d.state_changed("dimmer", "256");
    assert_eq!(d.value(), 0);
    d.state_changed("dimmer", "+7");
    assert_eq!(d.value(), 7);
    d.state_changed("dimmer", "7.5");
    assert_eq!(d.value(), 0);
    assert_eq!(d.get_notification_status(), None);
    d.state_changed("dimmer", "1");
    assert_eq!(d.get_notification_status(), yellow());
}

#[test]
fn dimmer_keeps_a_readable_colour_temperature() {
    let mut d = Dimmer::new(&bindings(&[]));
    d.state_changed("dimmer", "50");
    d.state_changed("colortemp", "2700.5");
    assert_eq!(d.color_temperature(), &Some("2700.5".to_string()));
    assert_eq!(d.value(), 50);
    d.state_changed("colortemp", "warm");
    assert_eq!(d.color_temperature(), &None);
}

#[test]
fn dimmer_light_is_at_least_ten_percent_when_on() {
    let mut d = Dimmer::new(&bindings(&[]));
    let entity = "Lamp".to_string();
    let energy = SceneModification::Energy(400);
    assert_eq!(d.state_to_blender(&entity, energy), vec![light("Lamp", LightLevel::Percent(0))]);
    d.state_changed("dimmer", "3");
    assert_eq!(d.state_to_blender(&entity, energy), vec![light("Lamp", LightLevel::Percent(10))]);
    d.state_changed("dimmer", "10");
    assert_eq!(d.state_to_blender(&entity, energy), vec![light("Lamp", LightLevel::Percent(10))]);
    d.state_changed("dimmer", "64");
    assert_eq!(d.state_to_blender(&entity, energy), vec![light("Lamp", LightLevel::Percent(64))]);
    assert_eq!(d.state_to_blender(&entity, SceneModification::Array()), vec![]);
    let b = d.button();
    assert!(b.state);
    assert_eq!(b.on_command, Some("100".to_string()));
    assert_eq!(b.off_command, Some("0".to_string()));
    assert_eq!(b.icon, "1F4A1");
    assert_eq!(b.on_color, ButtonColor::DarkYellow);
    assert_eq!(b.milliampere, None);
}

#[test]
fn dimmer_group_keeps_readings_under_its_keys() {
    let mut g = DimmerGroup::new();
    assert_eq!(g.levels(), vec!["0", "0", "0", "0"]);
    g.state_changed("dimmer1", "50");
    g.state_changed("dimmer1up", "25.5");
    g.state_changed("dimmer2", "ON");
    g.state_changed("dimmer2up", "100");
    g.state_changed("unknown", "7");
    g.state_changed("colortemp1", "2700");
    g.state_changed("colortemp2", "warm");
    assert_eq!(g.levels(), vec!["50", "25.5", "0", "100"]);
    assert_eq!(g.upper_levels(), vec!["25.5", "100"]);
    assert_eq!(g.lower_levels(), vec!["50", "0"]);
    assert_eq!(g.color_temperatures(), vec!["2700", "0"]);
    let entity = "Lamp".to_string();
    assert_eq!(
        g.state_to_blender(&entity, SceneModification::Energy(400)),
        vec![light(
            "Lamp",
            LightLevel::Mean(vec![
                "50".to_string(),
                "25.5".to_string(),
                "0".to_string(),
                "100".to_string()
            ])
        )]
    );
    assert_eq!(g.state_to_blender(&entity, SceneModification::Color()), vec![]);
}

#[test]
fn color_takes_three_components() {
    let mut c = Color::new();
    assert!(!c.has_color());
    assert!(!c.is_lit());
    assert_eq!(c.get_notification_status(), None);
    c.state_changed("any", "240,100,50");
    assert!(c.has_color());
    assert_eq!(c.hue(), "240");
    assert_eq!(c.saturation(), "100");
    assert_eq!(c.brightness(), "50");
    assert!(c.is_lit());
    assert_eq!(c.get_notification_status(), yellow());
    c.state_changed("any", "ON");
    assert!(!c.has_color());
    assert_eq!(c.brightness(), "50");
    c.state_changed("any", "10,x,0.0");
    assert!(c.has_color());
    assert_eq!(c.hue(), "10");
    assert_eq!(c.saturation(), "0");
    assert_eq!(c.brightness(), "0.0");
    assert!(!c.is_lit());
    c.state_changed("any", "1,2,3,4");
    assert!(!c.has_color());
    c.state_changed("any", "1,2");
    assert!(!c.has_color());
}

#[test]
fn color_drives_light_and_button() {
    let mut c = Color::new();
    let entity = "Lamp".to_string();
    c.state_changed("any", "120,80,35.5");
    assert_eq!(
        c.state_to_blender(&entity, SceneModification::Energy(400)),
        vec![light("Lamp", LightLevel::Reading("35.5".to_string()))]
    );
    assert_eq!(c.state_to_blender(&entity, SceneModification::Sun()), vec![]);
    let b = c.button();
    assert!(b.state);
    assert_eq!(b.on_color, ButtonColor::Hsb("120".to_string(), "80".to_string()));
    c.state_changed("any", "OFF");
    assert_eq!(c.button().on_color, ButtonColor::DarkYellow);
    assert_eq!(c.button().icon, "1F4A1");
}

#[test]
fn climate_reads_values_without_units() {
    let c = Climate::new();
    assert_eq!(c.parse("21.5 \u{b0}C"), Some("21.5".to_string()));
    assert_eq!(c.parse("180 \u{b0}"), Some("180".to_string()));
    assert_eq!(c.parse("10000 lx"), Some("10000".to_string()));
    assert_eq!(c.parse("12 km/h"), Some("12".to_string()));
    assert_eq!(c.parse("130.75 W"), Some("130.75".to_string()));
    assert_eq!(c.parse("  7  "), Some("7".to_string()));
    assert_eq!(c.parse("NULL"), None);
    assert_eq!(c.parse(""), None);
    assert_eq!(c.parse("12 %"), None);
}

#[test]
fn climate_sets_and_clears_readings() {
    let mut c = Climate::new();
    assert_eq!(c.illuminance(), &None);
    c.state_changed("illuminance", "20000 lx");
    c.state_changed("temperature", "21.5 \u{b0}C");
    c.state_changed("humidity", "45");
    c.state_changed("unknown", "1");
    assert_eq!(c.illuminance(), &Some("20000".to_string()));
    assert_eq!(c.temperature(), &Some("21.5".to_string()));
    assert_eq!(c.humidity(), &Some("45".to_string()));
    c.state_changed("temperature", "NULL");
    assert_eq!(c.temperature(), &None);
}

#[test]
fn climate_sets_the_sun_once_illuminance_is_known() {
    let mut c = Climate::new();
    let entity = "Sun".to_string();
    assert_eq!(c.state_to_blender(&entity, SceneModification::Sun()), vec![]);
    c.state_changed("azimuth", "200 \u{b0}");
    assert_eq!(c.state_to_blender(&entity, SceneModification::Sun()), vec![]);
    c.state_changed("illuminance", "21807.2 lx");
    assert_eq!(
        c.state_to_blender(&entity, SceneModification::Sun()),
        vec![SceneModificationEvent::SunModification(SunModification {
            illuminance: "21807.2".to_string(),
            elevation: None,
            azimuth: Some("200".to_string()),
        })]
    );
    assert_eq!(c.state_to_blender(&entity, SceneModification::Energy(400)), vec![]);
    c.state_changed("illuminance", "dark");
    assert_eq!(c.state_to_blender(&entity, SceneModification::Sun()), vec![]);
}

#[test]
fn climate_reads_its_configuration() {
    let doc = parse_json(
        "{\"sunMapping\": [[0, 0], [30000, 15]], \"worldMapping\": [[0, 0.03]], \"environment\": {\"Lamp\": [[0, 1.5]]}}",
    )
    .unwrap();
    assert!(ClimateConfig::from_json(&doc).is_some());
    let mut c = Climate::new();
    assert_eq!(c.set_configuration(&doc), Ok(()));
    assert_eq!(c.set_configuration(&parse_json("{\"sunMapping\": []}").unwrap()), Err(malformed()));
    c.set_smarthome_items(&bindings(&[("Outdoor_Lux", "illuminance")]));
}

#[test]
fn climate_is_drawn_anew_after_five_minutes() {
    let now = instant::Instant::now();
    let mut c = Climate::new_at(now);
    assert!(!c.do_render_at(0, now));
    assert!(!c.do_render_at(300_000_000_000, now));
    assert!(c.do_render_at(300_000_000_001, now));
    assert!(!c.do_render());
}

#[test]
fn widgets_dispatch_by_kind() {
    let now = instant::Instant::now();
    let mut w = Widget::Switch(Switch::new());
    w.state_changed_at("x", "ON", now);
    assert_eq!(w.get_notification_status(), yellow());
    assert_eq!(w.render_slider(), None);
    assert_eq!(w.get_plot_type("x"), PlotType::LinePlot);
    assert!(w.button().is_some());
    assert_eq!(
        w.state_to_blender(&"L".to_string(), SceneModification::Energy(400)),
        vec![light("L", LightLevel::Percent(100))]
    );
    assert_eq!(w.set_configuration(&parse_json("{}").unwrap()), Err(malformed()));

    let mut n = Widget::Number(Number::new());
    n.state_changed("x", "12 W");
    n.initial_state("x", "13 W");
    assert_eq!(n.set_configuration(&parse_json("[1]").unwrap()), Ok(()));
    n.set_smarthome_items(&bindings(&[("a", "b")]));
    assert_eq!(n.get_notification_status(), None);
    assert!(n.button().is_none());
    assert_eq!(n.state_to_blender(&"L".to_string(), SceneModification::Energy(400)), vec![]);
    match n {
        Widget::Number(n) => assert_eq!(n.value(), "13"),
        _ => panic!("kind changed"),
    }

    let mut t = Widget::Text(Text::new());
    t.initial_state_at("x", "hello", now);
    match t {
        Widget::Text(t) => assert_eq!(t.value(), &Some("hello".to_string())),
        _ => panic!("kind changed"),
    }
}
