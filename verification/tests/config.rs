use smarthome_model::config::{
    binding_key, smart_home_item_to_internal, Item, ItemConfiguration, SmartHomeItem,
    ViewConfiguration,
};
use smarthome_model::table::Table;
use smarthome_model::view::View;

fn binding(key: Option<&str>) -> SmartHomeItem {
    SmartHomeItem { key: key.map(|k| k.to_string()) }
}

fn item(kind: &str, bindings: &[(&str, Option<&str>)]) -> Item {
    let mut item = Item::new(kind.to_string());
    for (name, key) in bindings {
        item.smarthome_items.insert(name.to_string(), binding(*key));
    }
    item
}

#[test]
fn keys_default_to_the_item_name() {
    let mut bindings: Table<SmartHomeItem> = Table::new();
    bindings.insert("Desk_Power".to_string(), binding(Some("power")));
    bindings.insert("Desk_Switch".to_string(), binding(None));
    let internal = smart_home_item_to_internal(&bindings);
    assert_eq!(internal.len(), 2);
    assert_eq!(internal.key(0), "Desk_Power");
    assert_eq!(internal.value(0).key, "power");
    assert_eq!(internal.key(1), "Desk_Switch");
    assert_eq!(internal.value(1).key, "Desk_Switch");
    assert_eq!(binding_key(&"N".to_string(), &binding(None)), "N");
    assert_eq!(binding_key(&"N".to_string(), &binding(Some("K"))), "K");
    assert_eq!(smart_home_item_to_internal(&Table::new()).len(), 0);
}

#[test]
fn template_defaults_to_basic_light() {
    let mut i = Item::new("Switch".to_string());
    assert_eq!(i.get_template(), "basic-light");
    i.template = Some("basic-door".to_string());
    assert_eq!(i.get_template(), "basic-door");
}

#[test]
fn new_configuration_entries_are_empty() {
    let i = Item::new("Dimmer".to_string());
    assert_eq!(i.item_type, "Dimmer");
    assert!(i.smarthome_items.is_empty());
    assert!(i.blender_items.is_empty());
    assert!(i.top.is_none() && i.left.is_none() && i.label.is_none());
    assert!(i.template_conf.is_none() && i.energy_max.is_none() && i.show_mobile.is_none());
    let v = ViewConfiguration::new();
    assert_eq!(v.order, 0);
    assert!(v.items.is_empty());
    assert!(v.blender_hide.is_empty());
    let c = ItemConfiguration::new();
    assert!(c.views.is_empty());
    assert!(c.zooms.is_empty());
}

#[test]
fn widget_for_item_is_the_first_in_configuration_order() {
    let mut first = ViewConfiguration::new();
    first.items.insert("lamp".to_string(), item("Switch", &[("Lamp_Switch", None)]));
    first.items.insert(
        "desk".to_string(),
        item("Switch", &[("Desk_Power", Some("power")), ("Shared", Some("a"))]),
    );
    let mut second = ViewConfiguration::new();
    second.items.insert("other".to_string(), item("Switch", &[("Shared", Some("b"))]));
    let mut configuration = ItemConfiguration::new();
    configuration.views.insert("floorplan".to_string(), first);
    configuration.views.insert("cellar".to_string(), second);

    assert_eq!(
        configuration.get_widget_for_item("Lamp_Switch"),
        Some(("lamp".to_string(), "Lamp_Switch".to_string()))
    );
    assert_eq!(
        configuration.get_widget_for_item("Desk_Power"),
        Some(("desk".to_string(), "power".to_string()))
    );
    assert_eq!(
        configuration.get_widget_for_item("Shared"),
        Some(("desk".to_string(), "a".to_string()))
    );
    assert_eq!(configuration.get_widget_for_item("Unknown"), None);
    assert_eq!(configuration.get_widget_for_item("lamp"), None);
}

#[test]
fn view_record_holds_its_widgets() {
    let view = View {
        image: None,
        label: Some("Ground floor".to_string()),
        blender_camera: None,
        static_image: None,
        blender_hide: vec![],
        ui_elements: vec!["lamp".to_string()],
        order: 1,
    };
    assert_eq!(view.ui_elements, vec!["lamp".to_string()]);
    assert_eq!(view.order, 1);
}
