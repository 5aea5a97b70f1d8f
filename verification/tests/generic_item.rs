use smarthome_model::config::SmartHomeItemInternal;
use smarthome_model::errors::DeviceModelError;
use smarthome_model::item::car::CarConfig;
use smarthome_model::item::contact::ContactConfig;
use smarthome_model::item::energy_monitor::{EnergyMonitorConfig, PowerMeter};
use smarthome_model::item::generic_item::{
    generic_init_map, generic_render_slider, generic_translate_value, ConfigSlot, DisplayValue,
    GenericConfig, GenericItem, NotificationSlot, SliderSlot, SummarySlot, TranslateSlot,
    INTERNAL_STATE_PREFIX,
};
use smarthome_model::item::laundry::LaundryConfig;
use smarthome_model::item::light_auto::LightAutoConfig;
use smarthome_model::item::robot::RobotConfig;
use smarthome_model::item::{car, contact, energy_monitor, laundry, light_auto, robot};
use smarthome_model::item::{NotificationStatus, Widget};
use smarthome_model::json::{parse_json, JsonValue};
use smarthome_model::table::Table;
use std::time::Duration;

fn text(s: &str) -> JsonValue {
    JsonValue::Text(s.to_string())
}

#[test]
fn first_state_has_no_time_of_change() {
    let now = instant::Instant::now();
    let mut item = GenericItem::new();
    assert!(item.entry("Temp1").is_none());
    item.state_changed_at("Temp1", "21.5", now);
    let entry = item.entry("Temp1").unwrap();
    assert_eq!(entry.value, "21.5");
    assert_eq!(entry.changed, None);
    assert_eq!(item.value("Temp1"), Some(&"21.5".to_string()));
    assert_eq!(item.first_value(), Some(&"21.5".to_string()));
}

#[test]
fn changed_state_is_stamped_and_repeated_state_is_not() {
    let first = instant::Instant::now();
    let second = first + Duration::from_secs(5);
    let third = first + Duration::from_secs(9);
    let mut item = GenericItem::new();
    item.state_changed_at("Temp1", "21.5", first);
    item.state_changed_at("Temp1", "21.5", second);
    assert_eq!(item.entry("Temp1").unwrap().changed, None);
    item.state_changed_at("Temp1", "22.0", second);
    assert_eq!(item.entry("Temp1").unwrap().value, "22.0");
    assert_eq!(item.entry("Temp1").unwrap().changed, Some(second));
    item.state_changed_at("Temp1", "22.0", third);
    assert_eq!(item.entry("Temp1").unwrap().changed, Some(second));
    item.state_changed_at("Temp1", "23.0", third);
    assert_eq!(item.entry("Temp1").unwrap().changed, Some(third));
    item.state_changed_at("Other", "1", third);
    assert_eq!(item.entry("Other").unwrap().changed, None);
    assert_eq!(item.entry("Temp1").unwrap().changed, Some(third));
    assert_eq!(item.first_value(), Some(&"23.0".to_string()));
}

#[test]
fn state_changed_reads_the_clock() {
    let mut item = GenericItem::new();
    item.state_changed("k", "a");
    assert_eq!(item.entry("k").unwrap().changed, None);
    item.state_changed("k", "b");
    let stamp = item.entry("k").unwrap().changed;
    assert!(stamp.is_some());
    item.state_changed("k", "b");
    assert_eq!(item.entry("k").unwrap().changed, stamp);
}

#[test]
fn initial_state_clears_the_time_of_change() {
    let now = instant::Instant::now();
    let mut item = GenericItem::new();
    item.state_changed_at("k", "a", now);
    item.state_changed_at("k", "b", now);
    assert!(item.entry("k").unwrap().changed.is_some());
    item.initial_state("k", "c");
    assert_eq!(item.entry("k").unwrap().value, "c");
    assert_eq!(item.entry("k").unwrap().changed, None);
}

#[test]
fn bindings_are_kept_by_item_name() {
    let mut bindings = Table::new();
    bindings.insert("Desk_Power".to_string(), SmartHomeItemInternal { key: "power".to_string() });
    bindings.insert("Desk".to_string(), SmartHomeItemInternal { key: "Desk".to_string() });
    let mut item = GenericItem::new();
    item.set_smarthome_items(&bindings);
    assert_eq!(item.key_of_item("Desk_Power"), Some(&"power".to_string()));
    assert_eq!(item.key_of_item("Desk"), Some(&"Desk".to_string()));
    assert_eq!(item.key_of_item("power"), None);
}

#[test]
fn default_rules() {
    let item = GenericItem::new();
    assert_eq!(generic_translate_value("k", "ON"), DisplayValue::Flag(true));
    assert_eq!(generic_translate_value("k", "OFF"), DisplayValue::Flag(false));
    assert_eq!(generic_translate_value("k", "on"), DisplayValue::Text("on".to_string()));
    assert_eq!(item.translate("k", "ON"), DisplayValue::Flag(true));
    assert_eq!(generic_init_map(&item), vec![]);
    assert_eq!(item.init_map(), vec![]);
    assert_eq!(generic_render_slider(&item), None);
    assert_eq!(item.render_slider(), None);
    assert_eq!(item.get_notification_status(), None);
    assert_eq!(INTERNAL_STATE_PREFIX, "@");
}

#[test]
fn untyped_widget_accepts_any_configuration() {
    let mut item = GenericItem::new();
    assert_eq!(item.set_configuration(&parse_json("[1, 2]").unwrap()), Ok(()));
    assert!(item.config().is_none());
}

#[test]
fn rules_can_be_chosen() {
    let mut item = GenericItem::with_custom_functions(
        ConfigSlot::Untyped,
        TranslateSlot::EnergyMonitor,
        SummarySlot::Generic,
        SliderSlot::Car,
    );
    assert_eq!(item.render_slider(), Some(("slider-car".to_string(), 10)));
    assert_eq!(item.translate("x", "1.5"), DisplayValue::Fixed("1.5".to_string(), 1));
    item.with_init_f(SummarySlot::Contact);
    assert_eq!(item.init_map(), vec![("is_closed".to_string(), JsonValue::Bool(true))]);
    item.with_notification_f(NotificationSlot::Contact);
    item.state_changed("door", "OPEN");
    assert!(item.get_notification_status().is_some());
}

#[test]
fn contact_is_closed_until_its_key_says_otherwise() {
    let mut c = contact::new();
    assert!(contact::is_closed(&c));
    assert_eq!(c.render_slider(), None);
    assert_eq!(c.get_notification_status(), None);
    assert_eq!(c.init_map(), vec![("is_closed".to_string(), JsonValue::Bool(true))]);
    c.state_changed("door", "OPEN");
    assert!(!contact::is_closed(&c));
    assert_eq!(c.render_slider(), Some(("slider-door".to_string(), 200)));
    assert_eq!(
        c.get_notification_status(),
        Some(NotificationStatus { color: "red".to_string(), priority: 2, num: 1 })
    );
    assert_eq!(c.init_map(), vec![("is_closed".to_string(), JsonValue::Bool(false))]);
    c.state_changed("door", "CLOSED");
    assert!(contact::is_closed(&c));
    assert_eq!(contact::render_slider(&c), None);
    assert_eq!(contact::get_notification_status(&c), None);
    assert_eq!(contact::init_map(&c), vec![("is_closed".to_string(), JsonValue::Bool(true))]);
    assert!(ContactConfig::from_json(&parse_json("{}").unwrap()).is_some());
    assert!(ContactConfig::from_json(&parse_json("[]").unwrap()).is_none());
    assert_eq!(c.set_configuration(&parse_json("{\"x\": 1}").unwrap()), Ok(()));
    assert!(matches!(c.config(), Some(GenericConfig::Contact(_))));
    assert!(matches!(
        c.set_configuration(&parse_json("1").unwrap()),
        Err(DeviceModelError::ConfigurationMalformed(_))
    ));
}

#[test]
fn laundry_shows_its_slider_while_active() {
    let mut l = laundry::new();
    assert_eq!(l.render_slider(), None);
    assert_eq!(l.init_map(), vec![]);
    l.state_changed("active", "ON");
    assert_eq!(l.render_slider(), Some(("slider-laundry".to_string(), 15)));
    l.state_changed("active", "OFF");
    assert_eq!(l.render_slider(), None);
    assert!(LaundryConfig::from_json(&parse_json("{}").unwrap()).is_none());
    assert_eq!(l.set_configuration(&parse_json("{\"image\": \"washer.png\"}").unwrap()), Ok(()));
    assert_eq!(l.init_map(), vec![("image".to_string(), text("washer.png"))]);
    assert_eq!(laundry::init_map(&l), vec![("image".to_string(), text("washer.png"))]);
    assert_eq!(laundry::render_slider(&l), None);
}

#[test]
fn light_automation_summary() {
    let mut l = light_auto::new();
    assert_eq!(l.init_map(), vec![("d_auto_on".to_string(), JsonValue::Bool(false))]);
    l.state_changed("disable_auto", "OFF");
    assert_eq!(l.init_map(), vec![("d_auto_on".to_string(), JsonValue::Bool(true))]);
    l.state_changed("disable_auto", "ON");
    l.state_changed("lux_set", "150");
    assert_eq!(
        light_auto::init_map(&l),
        vec![
            ("d_auto_on".to_string(), JsonValue::Bool(false)),
            ("lux_set_is_equal_150".to_string(), JsonValue::Bool(true))
        ]
    );
    assert_eq!(l.render_slider(), None);
    assert!(LightAutoConfig::from_json(&parse_json("{}").unwrap()).is_some());
    assert!(LightAutoConfig::from_json(&parse_json("null").unwrap()).is_none());
}

#[test]
fn car_shows_odometer_in_kilometres() {
    assert_eq!(
        car::translated("odometer", "12345 m", None),
        DisplayValue::Kilometres("12345".to_string())
    );
    assert_eq!(
        car::translate_value("odometer", "12345.6 m"),
        DisplayValue::Kilometres("12345.6".to_string())
    );
    assert_eq!(
        car::translate_value("odometer", "far away"),
        DisplayValue::Text("far away".to_string())
    );
    assert_eq!(car::translate_value("doors", "ON"), DisplayValue::Flag(true));
    assert_eq!(car::translate_value("doors", "locked"), DisplayValue::Text("locked".to_string()));
}

#[test]
fn car_shows_the_time_since_the_last_event() {
    assert_eq!(
        car::translated("eventstamp", "2024-01-01T00:00:00Z", Some("2 hours ago".to_string())),
        DisplayValue::Text("2 hours ago".to_string())
    );
    assert_eq!(
        car::translated("eventstamp", "yesterday", None),
        DisplayValue::Text("yesterday".to_string())
    );
    assert_eq!(
        car::translate_value("eventstamp", "yesterday"),
        DisplayValue::Text("yesterday".to_string())
    );
    match car::translate_value("eventstamp", "2001-02-03T04:05:06Z") {
        DisplayValue::Text(t) => {
            assert_ne!(t, "2001-02-03T04:05:06Z");
            assert!(t.ends_with("years ago"), "{}", t);
        }
        other => panic!("unexpected {:?}", other),
    }
}

#[test]
fn car_summary_and_slider() {
    let mut c = car::new();
    assert_eq!(c.render_slider(), Some(("slider-car".to_string(), 10)));
    assert_eq!(car::render_slider(&c), Some(("slider-car".to_string(), 10)));
    assert_eq!(c.init_map(), vec![]);
    assert!(CarConfig::from_json(&parse_json("{\"image\": 1}").unwrap()).is_none());
    assert_eq!(c.set_configuration(&parse_json("{\"image\": \"car.png\"}").unwrap()), Ok(()));
    assert_eq!(car::init_map(&c), vec![("image".to_string(), text("car.png"))]);
    assert_eq!(c.translate("odometer", "1000 m"), DisplayValue::Kilometres("1000".to_string()));
}

#[test]
fn energy_monitor_shows_readings_with_fixed_digits() {
    assert_eq!(
        energy_monitor::translate_value("l1_strom", "1.234"),
        DisplayValue::Fixed("1.234".to_string(), 2)
    );
    assert_eq!(
        energy_monitor::translate_value("leistung", "701"),
        DisplayValue::Fixed("701".to_string(), 1)
    );
    assert_eq!(energy_monitor::translate_value("l1_strom", "ON"), DisplayValue::Flag(true));
    assert_eq!(
        energy_monitor::translate_value("l1_strom", "n.a."),
        DisplayValue::Text("n.a.".to_string())
    );
    let e = energy_monitor::new();
    assert_eq!(e.translate("x_strom", "2"), DisplayValue::Fixed("2".to_string(), 2));
    assert_eq!(energy_monitor::NUM_HIGHEST, 3);
    assert_eq!(energy_monitor::DEFAULT_VOLTAGE, 230);
}

#[test]
fn energy_monitor_reads_its_power_meters() {
    let doc = parse_json(
        "{\"powerMeters\": [{\"name\": \"desk\", \"label\": \"Desk\"}, {\"name\": \"tv\", \"label\": \"TV\", \"unit\": \"mA\"}]}",
    )
    .unwrap();
    let config = EnergyMonitorConfig::from_json(&doc).unwrap();
    assert_eq!(config.power_meters.len(), 2);
    assert_eq!(config.power_meters[0].name, "desk");
    assert_eq!(config.power_meters[0].unit, None);
    assert_eq!(config.power_meters[1].label, "TV");
    assert_eq!(config.power_meters[1].unit, Some("mA".to_string()));
    assert!(EnergyMonitorConfig::from_json(&parse_json("{}").unwrap()).is_none());
    assert!(EnergyMonitorConfig::from_json(
        &parse_json("{\"powerMeters\": [{\"name\": \"desk\"}]}").unwrap()
    )
    .is_none());
    assert!(PowerMeter::from_json(&parse_json("{\"name\": \"a\", \"label\": \"b\"}").unwrap())
        .is_some());
    let mut e = energy_monitor::new();
    assert_eq!(e.set_configuration(&doc), Ok(()));
    assert!(matches!(e.config(), Some(GenericConfig::EnergyMonitor(_))));
}

fn robot_config() -> JsonValue {
    parse_json(
        "{\"image\": \"robot.png\", \"pmapId\": \"map7\", \"userPmapId\": \"user7\", \"rooms\": {\"Bath\": \"3\", \"Kitchen\": \"7\"}, \"regions\": {\"Sofa\": \"12\"}}",
    )
    .unwrap()
}

fn row(name: &str, id: &str, selected: bool) -> JsonValue {
    JsonValue::List(vec![text(name), text(id), JsonValue::Bool(selected)])
}

#[test]
fn robot_summary_lists_places_and_selection() {
    let mut r = robot::new();
    assert_eq!(r.init_map(), vec![]);
    assert!(RobotConfig::from_json(&robot_config()).is_some());
    assert!(RobotConfig::from_json(&parse_json("{\"image\": \"x\"}").unwrap()).is_none());
    assert_eq!(r.set_configuration(&robot_config()), Ok(()));
    assert_eq!(
        r.init_map(),
        vec![
            ("image".to_string(), text("robot.png")),
            ("is_home".to_string(), JsonValue::Bool(false)),
            (
                "rooms".to_string(),
                JsonValue::List(vec![row("Bath", "3", false), row("Kitchen", "7", false)])
            ),
            ("regions".to_string(), JsonValue::List(vec![row("Sofa", "12", false)])),
            ("has_selection".to_string(), JsonValue::Bool(false)),
            ("clean_command".to_string(), text("cleanRegions:map7;;user7")),
        ]
    );
    r.state_changed("phase", "charge");
    r.state_changed("@select_Kitchen", "true");
    r.state_changed("@select_Sofa", "true");
    r.state_changed("@select_Bath", "false");
    assert_eq!(
        robot::init_map(&r),
        vec![
            ("image".to_string(), text("robot.png")),
            ("is_home".to_string(), JsonValue::Bool(true)),
            (
                "rooms".to_string(),
                JsonValue::List(vec![row("Bath", "3", false), row("Kitchen", "7", true)])
            ),
            ("regions".to_string(), JsonValue::List(vec![row("Sofa", "12", true)])),
            ("has_selection".to_string(), JsonValue::Bool(true)),
            ("clean_command".to_string(), text("cleanRegions:map7;7,12;user7")),
        ]
    );
}

#[test]
fn robot_slider_shows_while_away_from_the_dock() {
    let mut r = robot::new();
    assert_eq!(r.render_slider(), None);
    r.state_changed("phase", "run");
    assert_eq!(r.render_slider(), Some(("slider-robot".to_string(), 20)));
    r.state_changed("phase", "charge");
    assert_eq!(robot::render_slider(&r), None);
    assert_eq!(
        robot::join(&vec!["a".to_string(), "b".to_string(), "c".to_string()], ","),
        "a,b,c"
    );
    assert_eq!(robot::join(&vec![], ","), "");
    assert_eq!(robot::join(&vec!["a".to_string()], ","), "a");
}

#[test]
fn generic_widgets_take_initial_states_without_a_stamp() {
    let now = instant::Instant::now();
    let mut w = Widget::Generic(laundry::new());
    w.state_changed_at("active", "ON", now);
    w.state_changed_at("active", "OFF", now);
    w.initial_state_at("active", "ON", now);
    assert_eq!(w.render_slider(), Some(("slider-laundry".to_string(), 15)));
    match &w {
        Widget::Generic(g) => assert_eq!(g.entry("active").unwrap().changed, None),
        _ => panic!("kind changed"),
    }
}
