use smarthome_model::config::{Item, SmartHomeItem};
use smarthome_model::table::Table;
use smarthome_model::widget_settings::{
    SceneModification, WidgetItemList, WidgetRenderSetting, WidgetSceneModifications,
    MAX_ILLUMINATION,
};

#[test]
fn item_list_of_a_widget_without_bindings_is_its_own_name() {
    let item = Item::new("Switch".to_string());
    let list = WidgetItemList::from_widget_config("lamp", &item);
    assert_eq!(list.items, vec![("lamp".to_string(), "lamp".to_string())]);
}

#[test]
fn item_list_pairs_each_key_with_its_item() {
    let mut item = Item::new("Switch".to_string());
    item.smarthome_items
        .insert("Desk_Power".to_string(), SmartHomeItem { key: Some("power".to_string()) });
    item.smarthome_items.insert("Desk_Switch".to_string(), SmartHomeItem { key: None });
    let list = WidgetItemList::from_widget_config("desk", &item);
    assert_eq!(
        list.items,
        vec![
            ("power".to_string(), "Desk_Power".to_string()),
            ("Desk_Switch".to_string(), "Desk_Switch".to_string())
        ]
    );
}

#[test]
fn render_settings_need_both_coordinates() {
    let mut item = Item::new("Switch".to_string());
    assert!(WidgetRenderSetting::from_widget_config("floorplan", "lamp", &item).is_none());
    item.top = Some("12.5%".to_string());
    assert!(WidgetRenderSetting::from_widget_config("floorplan", "lamp", &item).is_none());
    item.left = Some("40%".to_string());
    item.label = Some("Lamp".to_string());
    let setting = WidgetRenderSetting::from_widget_config("floorplan", "lamp", &item).unwrap();
    assert_eq!(setting.top, "12.5");
    assert_eq!(setting.left, "40");
    assert_eq!(setting.id, "floorplan_lamp");
    assert_eq!(setting.label, Some("Lamp".to_string()));
    assert_eq!(setting.widget_name, "lamp");
}

#[test]
fn scene_modifications_are_named_by_tags() {
    assert_eq!(SceneModification::from_tag("Energy"), Some(SceneModification::Energy(400)));
    assert_eq!(MAX_ILLUMINATION, 400);
    assert_eq!(SceneModification::from_tag("Color"), Some(SceneModification::Color()));
    assert_eq!(SceneModification::from_tag("Array"), Some(SceneModification::Array()));
    assert_eq!(SceneModification::from_tag("Sun"), Some(SceneModification::Sun()));
    assert_eq!(SceneModification::from_tag("Hidden"), None);
    assert_eq!(SceneModification::from_tag("energy"), None);
    assert_eq!(SceneModification::from_widget_config("Sun"), SceneModification::Sun());
    assert_eq!(SceneModification::from_widget_config("Energy"), SceneModification::Energy(400));
}

#[test]
fn scene_modifications_of_a_widget() {
    let mut tags: Table<Vec<String>> = Table::new();
    tags.insert("Lamp.001".to_string(), vec!["Energy".to_string(), "Color".to_string()]);
    tags.insert("Sun".to_string(), vec!["Sun".to_string()]);
    tags.insert("Nothing".to_string(), vec![]);
    let modifications = WidgetSceneModifications::from_widget_config(&tags);
    assert_eq!(modifications.config.len(), 3);
    assert_eq!(modifications.config.key(0), "Lamp.001");
    assert_eq!(
        modifications.config.get("Lamp.001"),
        Some(&vec![SceneModification::Energy(400), SceneModification::Color()])
    );
    assert_eq!(modifications.config.get("Sun"), Some(&vec![SceneModification::Sun()]));
    assert_eq!(modifications.config.get("Nothing"), Some(&vec![]));

    tags.insert("Bad".to_string(), vec!["Sun".to_string(), "Hidden".to_string()]);
    assert!(WidgetSceneModifications::try_from_widget_config(&tags).is_none());
}
