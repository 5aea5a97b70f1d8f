use smarthome_model::config::{Item, ItemConfiguration, SmartHomeItem, ViewConfiguration};
use smarthome_model::device_model::DeviceModel;
use smarthome_model::errors::DeviceModelError;
use smarthome_model::events::{LightLevel, LightModification, SceneModificationEvent};
use smarthome_model::item::Widget;
use smarthome_model::json::parse_json;
use smarthome_model::openhab::{
    RequestedStateChange, RequestedStateChangeFromWidget, WidgetInteraction,
};
use std::time::Duration;

fn item(kind: &str, bindings: &[(&str, Option<&str>)]) -> Item {
    let mut item = Item::new(kind.to_string());
    for (name, key) in bindings {
        item.smarthome_items
            .insert(name.to_string(), SmartHomeItem { key: key.map(|k| k.to_string()) });
    }
    item
}

fn placed(mut item: Item, top: &str, left: &str) -> Item {
    item.top = Some(top.to_string());
    item.left = Some(left.to_string());
    item
}

fn configuration(views: Vec<(&str, Vec<(&str, Item)>)>) -> ItemConfiguration {
    let mut configuration = ItemConfiguration::new();
    for (view_name, widgets) in views {
        let mut view = ViewConfiguration::new();
        for (widget_name, item) in widgets {
            view.items.insert(widget_name.to_string(), item);
        }
        configuration.views.insert(view_name.to_string(), view);
    }
    configuration
}

fn model(views: Vec<(&str, Vec<(&str, Item)>)>) -> DeviceModel {
    let mut model = DeviceModel::new();
    assert_eq!(model.parse(&configuration(views)), Ok(()));
    model
}

fn light(entity: &str, level: LightLevel) -> SceneModificationEvent {
    SceneModificationEvent::LightModification(LightModification {
        entity_name: entity.to_string(),
        illuminance_percentage: level,
    })
}

fn pair(a: &str, b: &str) -> (String, String) {
    (a.to_string(), b.to_string())
}

#[test]
fn new_model_is_empty() {
    let model = DeviceModel::new();
    assert!(!model.is_initialized());
    assert_eq!(model.current_view(), &None);
    assert_eq!(model.fullscreen_widget(), &None);
    assert_eq!(model.view_count(), 0);
    assert_eq!(model.widget_count(), 0);
    assert!(model.get_items().is_empty());
    assert_eq!(model.render_begin(), Err(DeviceModelError::NoViewSelected(())));
}

#[test]
fn parse_registers_widgets_views_and_items() {
    let model = model(vec![
        (
            "floorplan",
            vec![
                ("lamp", item("Switch", &[])),
                (
                    "desk",
                    item("Switch", &[("Desk_Switch", None), ("Desk_Power", Some("miliampere"))]),
                ),
            ],
        ),
        ("cellar", vec![("heater", item("Dimmer", &[("Desk_Power", Some("power"))]))]),
    ]);
    assert!(model.is_initialized());
    assert_eq!(model.current_view(), &Some("floorplan".to_string()));
    assert_eq!(model.view_count(), 2);
    assert_eq!(model.widget_count(), 3);
    assert_eq!(
        model.widgets_of_view("floorplan"),
        Some(&vec!["lamp".to_string(), "desk".to_string()])
    );
    assert_eq!(model.widgets_of_view("cellar"), Some(&vec!["heater".to_string()]));
    assert_eq!(model.widgets_of_view("attic"), None);
    assert_eq!(model.get_items(), vec!["lamp", "Desk_Switch", "Desk_Power"]);
    assert_eq!(model.subscribers("lamp"), Some(&vec![pair("lamp", "lamp")]));
    assert_eq!(model.subscribers("Desk_Switch"), Some(&vec![pair("desk", "Desk_Switch")]));
    assert_eq!(
        model.subscribers("Desk_Power"),
        Some(&vec![pair("desk", "miliampere"), pair("heater", "power")])
    );
    assert_eq!(model.subscribers("desk"), None);
    for name in ["lamp", "desk", "heater"] {
        assert!(model.widget(name).is_some());
        assert!(model.settings(name).is_some());
    }
    assert!(model.widget("Desk_Switch").is_none());
    assert_eq!(model.settings("lamp").unwrap().item_list.items, vec![pair("lamp", "lamp")]);
    assert_eq!(
        model.settings("desk").unwrap().item_list.items,
        vec![pair("Desk_Switch", "Desk_Switch"), pair("miliampere", "Desk_Power")]
    );
}

#[test]
fn every_referenced_item_has_its_subscribers() {
    let views = vec![
        (
            "floorplan",
            vec![
                ("a", item("Switch", &[("I1", None), ("I2", Some("k2"))])),
                ("b", item("Text", &[("I2", None), ("I3", Some("k3"))])),
            ],
        ),
        ("second", vec![("c", item("Number", &[("I1", Some("x"))])), ("d", item("Color", &[]))]),
    ];
    let expected = [
        ("I1", "a", "I1"),
        ("I2", "a", "k2"),
        ("I2", "b", "I2"),
        ("I3", "b", "k3"),
        ("I1", "c", "x"),
        ("d", "d", "d"),
    ];
    let model = model(views);
    for (item_name, widget, key) in expected {
        let subscribers = model.subscribers(item_name).unwrap();
        assert!(subscribers.contains(&pair(widget, key)), "{} -> {}", item_name, widget);
        assert!(model.get_items().iter().any(|i| i.as_str() == item_name));
    }
    assert_eq!(model.widget_count(), 4);
}

#[test]
fn kind_tags_select_the_widget_kinds() {
    let kinds = [
        "Color", "Switch", "Dimmer", "DimmerGroup", "Contact", "Text", "Calendar", "Climate",
        "Music", "Scene", "Car", "Robot", "EnergyMonitor", "Laundry", "LightAuto", "Number",
        "Blind", "NoSuchKind", "",
    ];
    let now = instant::Instant::now();
    for kind in kinds {
        let widget = DeviceModel::init_widget(kind, &Item::new(kind.to_string()), now);
        let matches_kind = match (kind, &widget) {
            ("Color", Widget::Color(_)) => true,
            ("Switch", Widget::Switch(_)) => true,
            ("Dimmer", Widget::Dimmer(_)) => true,
            ("DimmerGroup", Widget::DimmerGroup(_)) => true,
            ("Text", Widget::Number(_)) => true,
            ("Calendar", Widget::Number(_)) => true,
            ("Climate", Widget::Climate(_)) => true,
            ("Music", Widget::Number(_)) => true,
            ("Scene", Widget::Number(_)) => true,
            ("Contact", Widget::Generic(_)) => true,
            ("Car", Widget::Generic(_)) => true,
            ("Robot", Widget::Generic(_)) => true,
            ("EnergyMonitor", Widget::Generic(_)) => true,
            ("Laundry", Widget::Generic(_)) => true,
            ("LightAuto", Widget::Generic(_)) => true,
            ("Number", Widget::Number(_)) => true,
            ("Blind", Widget::Number(_)) => true,
            ("NoSuchKind", Widget::Number(_)) => true,
            ("", Widget::Number(_)) => true,
            _ => false,
        };
        assert!(matches_kind, "{}", kind);
    }
    let dimmer = DeviceModel::init_widget(
        "Dimmer",
        &item("Dimmer", &[("Lamp_CT", Some("colortemp"))]),
        now,
    );
    match dimmer {
        Widget::Dimmer(d) => assert!(d.has_color_temperature()),
        _ => panic!("not a dimmer"),
    }
    match DeviceModel::init_widget("Contact", &Item::new("Contact".to_string()), now) {
        Widget::Generic(g) => {
            assert_eq!(g.init_map().len(), 1);
        }
        _ => panic!("not generic"),
    }
}

#[test]
fn parsing_twice_fails() {
    let mut model = DeviceModel::new();
    let c = configuration(vec![("floorplan", vec![("lamp", item("Switch", &[]))])]);
    assert_eq!(model.parse(&c), Ok(()));
    assert_eq!(model.parse(&c), Err(DeviceModelError::AlreadyInitialized));
    assert_eq!(model.parse(&ItemConfiguration::new()), Err(DeviceModelError::AlreadyInitialized));
    assert_eq!(model.widget_count(), 1);
}

#[test]
fn two_unbound_widgets_of_one_name_fail() {
    let mut model = DeviceModel::new();
    let c = configuration(vec![
        ("floorplan", vec![("lamp", item("Switch", &[]))]),
        ("cellar", vec![("lamp", item("Dimmer", &[]))]),
    ]);
    assert_eq!(
        model.parse(&c),
        Err(DeviceModelError::DuplicateImplicitBinding("lamp".to_string()))
    );
    assert!(!model.is_initialized());
    assert_eq!(model.current_view(), &None);
    assert_eq!(model.widget_count(), 0);
    assert!(model.get_items().is_empty());
}

#[test]
fn unbound_widget_named_like_a_bound_item_fails() {
    let mut model = DeviceModel::new();
    let c = configuration(vec![(
        "floorplan",
        vec![("desk", item("Switch", &[("lamp", None)])), ("lamp", item("Switch", &[]))],
    )]);
    assert_eq!(
        model.parse(&c),
        Err(DeviceModelError::DuplicateImplicitBinding("lamp".to_string()))
    );
    let mut model = DeviceModel::new();
    let c = configuration(vec![(
        "floorplan",
        vec![("lamp", item("Switch", &[])), ("desk", item("Switch", &[("lamp", Some("x"))]))],
    )]);
    assert_eq!(model.parse(&c), Ok(()));
    assert_eq!(model.subscribers("lamp"), Some(&vec![pair("lamp", "lamp"), pair("desk", "x")]));
}

#[test]
fn malformed_widget_configuration_fails() {
    let mut bad = item("Switch", &[]);
    bad.template_conf = parse_json("{\"label\": \"no icon\"}");
    let mut model = DeviceModel::new();
    assert_eq!(
        model.parse(&configuration(vec![("floorplan", vec![("lamp", bad)])])),
        Err(DeviceModelError::ConfigurationMalformed("Failed to parse config for item".to_string()))
    );
    assert!(!model.is_initialized());

    let mut good = item("Switch", &[]);
    good.template_conf = parse_json("{\"icon\": \"E150\"}");
    let mut ignored = item("Dimmer", &[]);
    ignored.template_conf = parse_json("[\"anything\"]");
    let mut model = DeviceModel::new();
    assert_eq!(
        model.parse(&configuration(vec![("floorplan", vec![("lamp", good), ("dim", ignored)])])),
        Ok(())
    );
}

#[test]
fn unreadable_position_fails() {
    let mut model = DeviceModel::new();
    let c = configuration(vec![(
        "floorplan",
        vec![("lamp", placed(item("Switch", &[]), "top", "10%"))],
    )]);
    assert_eq!(
        model.parse(&c),
        Err(DeviceModelError::ConfigurationMalformed(
            "Failed to parse coordinates for lamp".to_string()
        ))
    );
    let mut half = item("Switch", &[]);
    half.top = Some("nonsense".to_string());
    let mut model = DeviceModel::new();
    assert_eq!(model.parse(&configuration(vec![("floorplan", vec![("lamp", half)])])), Ok(()));
    assert!(model.settings("lamp").unwrap().render_settings.is_none());
}

#[test]
fn unknown_scene_tag_fails() {
    let mut bad = item("Switch", &[]);
    bad.blender_items.insert("Lamp.001".to_string(), vec!["Hidden".to_string()]);
    let mut model = DeviceModel::new();
    assert_eq!(
        model.parse(&configuration(vec![("floorplan", vec![("lamp", bad)])])),
        Err(DeviceModelError::ConfigurationMalformed(
            "Unsupported scene configuration for lamp".to_string()
        ))
    );
}

#[test]
fn update_of_unknown_item_fails_and_changes_nothing() {
    let mut model = model(vec![("floorplan", vec![("lamp", item("Switch", &[("Lamp", None)]))])]);
    for _ in 0..3 {
        assert_eq!(
            model.state_changed("Unknown", "ON"),
            Err(DeviceModelError::ItemNotFound("Unknown".to_string()))
        );
        assert_eq!(
            model.state_changed("lamp", "ON"),
            Err(DeviceModelError::ItemNotFound("lamp".to_string()))
        );
    }
    match model.widget("lamp").unwrap() {
        Widget::Switch(s) => assert!(!s.is_on()),
        _ => panic!("not a switch"),
    }
    assert_eq!(model.widget_count(), 1);
    let mut empty = DeviceModel::new();
    assert_eq!(
        empty.state_changed("Lamp", "ON"),
        Err(DeviceModelError::ItemNotFound("Lamp".to_string()))
    );
}

#[test]
fn update_reaches_the_widget_under_its_key() {
    let mut model = model(vec![(
        "floorplan",
        vec![("desk", item("Switch", &[("Desk_Power", Some("miliampere")), ("Desk", None)]))],
    )]);
    assert_eq!(model.state_changed("Desk_Power", "OFF"), Ok(vec![]));
    match model.widget("desk").unwrap() {
        Widget::Switch(s) => {
            assert_eq!(s.milliampere(), &Some("OFF".to_string()));
            assert!(!s.is_on());
        }
        _ => panic!("not a switch"),
    }
    assert_eq!(model.state_changed("Desk", "ON"), Ok(vec![]));
    match model.widget("desk").unwrap() {
        Widget::Switch(s) => assert!(s.is_on()),
        _ => panic!("not a switch"),
    }
}

#[test]
fn explicit_key_is_used_in_the_state_store() {
    let mut model = model(vec![(
        "floorplan",
        vec![("washer", item("Laundry", &[("WashingMachinePower", Some("active"))]))],
    )]);
    assert_eq!(model.state_changed("WashingMachinePower", "ON"), Ok(vec![]));
    match model.widget("washer").unwrap() {
        Widget::Generic(g) => {
            assert_eq!(g.value("active"), Some(&"ON".to_string()));
            assert_eq!(g.value("WashingMachinePower"), None);
            assert_eq!(g.key_of_item("WashingMachinePower"), Some(&"active".to_string()));
            assert_eq!(g.render_slider(), Some(("slider-laundry".to_string(), 15)));
        }
        _ => panic!("not generic"),
    }
}

#[test]
fn generic_widget_keeps_state_and_time_of_change() {
    let mut model =
        model(vec![("floorplan", vec![("temperature", item("Contact", &[("Temp1", None)]))])]);
    let first = instant::Instant::now();
    let second = first + Duration::from_secs(60);
    let third = first + Duration::from_secs(120);
    assert_eq!(model.state_changed_at("Temp1", "21.5", first), Ok(vec![]));
    let entry = |model: &DeviceModel| match model.widget("temperature").unwrap() {
        Widget::Generic(g) => {
            let e = g.entry("Temp1").unwrap();
            (e.value.clone(), e.changed)
        }
        _ => panic!("not generic"),
    };
    assert_eq!(entry(&model), ("21.5".to_string(), None));
    assert_eq!(model.state_changed_at("Temp1", "22.0", second), Ok(vec![]));
    assert_eq!(entry(&model), ("22.0".to_string(), Some(second)));
    assert_eq!(model.state_changed_at("Temp1", "22.0", third), Ok(vec![]));
    assert_eq!(entry(&model), ("22.0".to_string(), Some(second)));
    assert_eq!(model.state_changed("Temp1", "23.0"), Ok(vec![]));
    let (value, changed) = entry(&model);
    assert_eq!(value, "23.0");
    assert!(changed.is_some());
    assert_ne!(changed, Some(second));
}

#[test]
fn update_yields_scene_modifications() {
    let mut lamp = item("Switch", &[("Lamp", None)]);
    lamp.blender_items
        .insert("Lamp.001".to_string(), vec!["Energy".to_string(), "Color".to_string()]);
    lamp.blender_items.insert("Lamp.002".to_string(), vec!["Energy".to_string()]);
    let mut dimmer = item("Dimmer", &[("Lamp", Some("level"))]);
    dimmer.blender_items.insert("Spot".to_string(), vec!["Energy".to_string()]);
    let mut model = model(vec![("floorplan", vec![("lamp", lamp), ("dimmer", dimmer)])]);
    assert_eq!(
        model.state_changed("Lamp", "ON"),
        Ok(vec![
            light("Lamp.001", LightLevel::Percent(100)),
            light("Lamp.002", LightLevel::Percent(100)),
            light("Spot", LightLevel::Percent(100)),
        ])
    );
    assert_eq!(
        model.state_changed("Lamp", "5"),
        Ok(vec![
            light("Lamp.001", LightLevel::Percent(100)),
            light("Lamp.002", LightLevel::Percent(100)),
            light("Spot", LightLevel::Percent(10)),
        ])
    );
    assert_eq!(
        model.state_changed("Lamp", "OFF"),
        Ok(vec![
            light("Lamp.001", LightLevel::Percent(0)),
            light("Lamp.002", LightLevel::Percent(0)),
            light("Spot", LightLevel::Percent(0)),
        ])
    );
}

#[test]
fn backend_messages_are_parsed_and_delivered() {
    let mut lamp = item("Switch", &[("Lamp", None)]);
    lamp.blender_items.insert("Lamp.001".to_string(), vec!["Energy".to_string()]);
    let mut model = model(vec![("floorplan", vec![("lamp", lamp)])]);
    assert_eq!(
        model.backend_state_changed(
            "openhab/items/Lamp/state",
            "{\"type\":\"OnOff\",\"value\":\"ON\"}"
        ),
        Ok(vec![light("Lamp.001", LightLevel::Percent(100))])
    );
    assert_eq!(
        model.backend_state_changed_at(
            "openhab/items/Lamp/statechanged",
            "{\"status\":\"OFF\",\"statusDetail\":\"\"}",
            instant::Instant::now()
        ),
        Ok(vec![light("Lamp.001", LightLevel::Percent(0))])
    );
    assert_eq!(
        model.backend_state_changed(
            "openhab/items/Other/state",
            "{\"type\":\"OnOff\",\"value\":\"ON\"}"
        ),
        Err(DeviceModelError::ItemNotFound("Other".to_string()))
    );
    assert!(matches!(
        model.backend_state_changed("openhab/items/Lamp", "{\"type\":\"OnOff\",\"value\":\"ON\"}"),
        Err(DeviceModelError::ParserError(_))
    ));
    assert!(matches!(
        model.backend_state_changed("openhab/items/Lamp/state", "ON"),
        Err(DeviceModelError::ParserError(_))
    ));
}

#[test]
fn render_needs_the_selected_view() {
    let model = model(vec![("cellar", vec![("lamp", item("Switch", &[]))])]);
    assert_eq!(model.current_view(), &Some("floorplan".to_string()));
    assert_eq!(model.render_begin(), Err(DeviceModelError::ViewNotFound("floorplan".to_string())));
}

#[test]
fn render_draws_placed_widgets_only() {
    let mut labelled = placed(item("Switch", &[("Lamp", None)]), "25%", "75.5%");
    labelled.label = Some("Lamp".to_string());
    let model = model(vec![(
        "floorplan",
        vec![("lamp", labelled), ("meter", item("Number", &[("Power", None)]))],
    )]);
    assert_eq!(model.render_begin(), Ok(&vec!["lamp".to_string(), "meter".to_string()]));
    let target = model.render_target("lamp").unwrap().unwrap();
    assert_eq!(target.settings.top, "25");
    assert_eq!(target.settings.left, "75.5");
    assert_eq!(target.settings.id, "floorplan_lamp");
    assert_eq!(target.settings.label, Some("Lamp".to_string()));
    assert_eq!(target.settings.widget_name, "lamp");
    assert!(!target.fullscreen);
    assert!(matches!(target.widget, Widget::Switch(_)));
    assert!(model.render_target("meter").unwrap().is_none());
    assert!(matches!(
        model.render_target("ghost"),
        Err(DeviceModelError::WidgetSettingsNotFound(_))
    ));
}

#[test]
fn interactions_become_commands_and_fullscreen_changes() {
    let mut model = model(vec![(
        "floorplan",
        vec![
            ("desk", placed(item("Switch", &[("Desk_Switch", Some("desk"))]), "1", "2")),
            ("lamp", placed(item("Switch", &[]), "3", "4")),
        ],
    )]);
    let mut requests: Vec<RequestedStateChange> = Vec::new();
    let interactions = vec![
        WidgetInteraction::StateChange(RequestedStateChangeFromWidget {
            key: "desk".to_string(),
            value: "OFF".to_string(),
        }),
        WidgetInteraction::FullscreenRequest(true),
    ];
    assert_eq!(model.apply_interactions("desk", &interactions, &mut requests), Ok(vec![]));
    assert_eq!(
        requests,
        vec![RequestedStateChange { item: "Desk_Switch".to_string(), value: "OFF".to_string() }]
    );
    assert_eq!(model.fullscreen_widget(), &Some("desk".to_string()));
    assert!(model.render_target("desk").unwrap().unwrap().fullscreen);
    assert!(!model.render_target("lamp").unwrap().unwrap().fullscreen);

    let close = vec![WidgetInteraction::FullscreenRequest(false)];
    assert_eq!(model.apply_interactions("lamp", &close, &mut requests), Ok(vec![]));
    assert_eq!(model.fullscreen_widget(), &None);
    assert_eq!(requests.len(), 1);
}

#[test]
fn interaction_under_an_unknown_key_is_dropped() {
    let mut model = model(vec![(
        "floorplan",
        vec![("desk", placed(item("Switch", &[("Desk_Switch", Some("switch"))]), "1", "2"))],
    )]);
    let unknown =
        RequestedStateChangeFromWidget { key: "desk".to_string(), value: "ON".to_string() };
    let known =
        RequestedStateChangeFromWidget { key: "switch".to_string(), value: "OFF".to_string() };
    let interactions = vec![
        WidgetInteraction::FullscreenRequest(true),
        WidgetInteraction::StateChange(unknown.clone()),
        WidgetInteraction::StateChange(known),
        WidgetInteraction::FullscreenRequest(false),
    ];
    let mut requests: Vec<RequestedStateChange> = Vec::new();
    assert_eq!(
        model.apply_interactions("desk", &interactions, &mut requests),
        Ok(vec![DeviceModelError::KeyNotFound(unknown)])
    );
    assert_eq!(
        requests,
        vec![RequestedStateChange { item: "Desk_Switch".to_string(), value: "OFF".to_string() }]
    );
    assert_eq!(model.fullscreen_widget(), &None);
}

#[test]
fn interactions_of_an_unknown_widget_fail() {
    let mut model =
        model(vec![("floorplan", vec![("desk", placed(item("Switch", &[]), "1", "2"))])]);
    let interactions = vec![WidgetInteraction::FullscreenRequest(true)];
    let mut requests: Vec<RequestedStateChange> = Vec::new();
    assert_eq!(
        model.apply_interactions("ghost", &interactions, &mut requests),
        Err(DeviceModelError::WidgetSettingsNotFound("ghost".to_string()))
    );
    assert!(requests.is_empty());
    assert_eq!(model.fullscreen_widget(), &None);
}

#[test]
fn unbound_widget_subscribes_under_its_own_name() {
    let mut model = DeviceModel::new();
    assert_eq!(
        model.parse_smarthome_items_for_widget("desk", &item("Switch", &[("A", Some("a"))])),
        Ok(())
    );
    assert_eq!(model.parse_smarthome_items_for_widget("own", &item("Switch", &[])), Ok(()));
    assert_eq!(model.subscribers("own"), Some(&vec![pair("own", "own")]));
    assert_eq!(model.subscribers("A"), Some(&vec![pair("desk", "a")]));
    assert_eq!(model.get_items(), vec!["A", "own"]);
    assert_eq!(
        model.parse_smarthome_items_for_widget("own", &item("Switch", &[])),
        Err(DeviceModelError::DuplicateImplicitBinding("own".to_string()))
    );
    assert_eq!(model.subscribers("own"), Some(&vec![pair("own", "own")]));
    assert_eq!(
        model.parse_smarthome_items_for_widget("A", &item("Switch", &[])),
        Err(DeviceModelError::DuplicateImplicitBinding("A".to_string()))
    );
}

#[test]
fn subscribers_are_kept_in_the_order_of_subscription() {
    let mut model = DeviceModel::new();
    assert_eq!(
        model.parse_smarthome_items_for_widget("desk", &item("Switch", &[("A", Some("a"))])),
        Ok(())
    );
    assert_eq!(
        model.parse_smarthome_items_for_widget("lamp", &item("Switch", &[("A", None)])),
        Ok(())
    );
    assert_eq!(model.subscribers("A"), Some(&vec![pair("desk", "a"), pair("lamp", "A")]));
    assert_eq!(
        model.state_changed("A", "ON"),
        Err(DeviceModelError::WidgetNotFound("desk".to_string()))
    );
}
