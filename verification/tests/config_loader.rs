use smarthome_model::config::{ItemConfiguration, SmartHomeItem, ViewConfiguration};
use smarthome_model::config_loader::{
    load_configuration, read_list_member, read_order, read_table_member, FromJson,
};
use smarthome_model::device_model::DeviceModel;
use smarthome_model::errors::DeviceModelError;
use smarthome_model::json::{parse_json, JsonValue};
use smarthome_model::reading::parse_i32;
use smarthome_model::table::Table;

fn malformed() -> DeviceModelError {
    DeviceModelError::ConfigurationMalformed("Failed to parse the configuration".to_string())
}

const DOCUMENT: &str = r#"{
  "views": {
    "floorplan": {
      "image": "floorplan.png",
      "label": "Ground floor",
      "order": 2,
      "default": true,
      "blenderCamera": "Camera.001",
      "blenderHide": ["Roof", "Ceiling"],
      "staticImage": null,
      "items": {
        "desk": {
          "blenderItems": {"Lamp.001": ["Energy", "Color"]},
          "itemType": "Switch",
          "template": "basic-light",
          "templateConf": {"icon": "E150", "label": "Desk"},
          "energyMax": 12.5,
          "top": "25%",
          "left": "40.5%",
          "smarthomeItems": {"Desk_Switch": {}, "Desk_Power": {"key": "miliampere"}},
          "label": "Desk",
          "showMobile": false,
          "unknown": [1, 2, 3]
        },
        "lamp": {"itemType": "Dimmer"}
      }
    },
    "cellar": {}
  },
  "zooms": {"house": {"kitchen": [0, 0.5, 10, 20.25]}}
}"#;

#[test]
fn configuration_is_read_from_its_document() {
    let configuration = load_configuration(DOCUMENT).unwrap();
    assert_eq!(configuration.views.len(), 2);
    let floorplan = configuration.views.get("floorplan").unwrap();
    assert_eq!(floorplan.image, Some("floorplan.png".to_string()));
    assert_eq!(floorplan.label, Some("Ground floor".to_string()));
    assert_eq!(floorplan.order, 2);
    assert_eq!(floorplan.default, Some(true));
    assert_eq!(floorplan.blender_camera, Some("Camera.001".to_string()));
    assert_eq!(floorplan.blender_hide, vec!["Roof".to_string(), "Ceiling".to_string()]);
    assert_eq!(floorplan.static_image, None);
    assert_eq!(floorplan.items.len(), 2);

    let desk = floorplan.items.get("desk").unwrap();
    assert_eq!(desk.item_type, "Switch");
    assert_eq!(desk.template, Some("basic-light".to_string()));
    assert_eq!(desk.energy_max, Some("12.5".to_string()));
    assert_eq!(desk.top, Some("25%".to_string()));
    assert_eq!(desk.left, Some("40.5%".to_string()));
    assert_eq!(desk.label, Some("Desk".to_string()));
    assert_eq!(desk.show_mobile, Some(false));
    assert_eq!(
        desk.blender_items.get("Lamp.001"),
        Some(&vec!["Energy".to_string(), "Color".to_string()])
    );
    assert_eq!(desk.smarthome_items.len(), 2);
    assert_eq!(desk.smarthome_items.get("Desk_Switch").unwrap().key, None);
    assert_eq!(
        desk.smarthome_items.get("Desk_Power").unwrap().key,
        Some("miliampere".to_string())
    );
    assert_eq!(
        desk.template_conf.as_ref().unwrap().text_member("icon"),
        Some(&"E150".to_string())
    );

    let lamp = floorplan.items.get("lamp").unwrap();
    assert_eq!(lamp.item_type, "Dimmer");
    assert!(lamp.smarthome_items.is_empty());
    assert!(lamp.blender_items.is_empty());
    assert!(lamp.template_conf.is_none());
    assert!(lamp.top.is_none());

    let cellar = configuration.views.get("cellar").unwrap();
    assert_eq!(cellar.order, 0);
    assert!(cellar.items.is_empty());
    assert!(cellar.blender_hide.is_empty());

    let kitchen = configuration.zooms.get("house").unwrap().get("kitchen").unwrap();
    assert_eq!(
        kitchen,
        &("0".to_string(), "0.5".to_string(), "10".to_string(), "20.25".to_string())
    );
}

#[test]
fn loaded_configuration_builds_a_model() {
    let configuration = load_configuration(DOCUMENT).unwrap();
    let mut model = DeviceModel::new();
    assert_eq!(model.parse(&configuration), Ok(()));
    assert_eq!(model.widget_count(), 2);
    assert_eq!(model.view_count(), 2);
    let mut items: Vec<String> = model.get_items().into_iter().cloned().collect();
    items.sort();
    assert_eq!(items, vec!["Desk_Power", "Desk_Switch", "lamp"]);
    assert_eq!(
        model.subscribers("Desk_Power"),
        Some(&vec![("desk".to_string(), "miliampere".to_string())])
    );
    let target = model.render_target("desk").unwrap().unwrap();
    assert_eq!(target.settings.top, "25");
    assert_eq!(target.settings.left, "40.5");
    assert_eq!(target.widget.button().unwrap().icon, "E150");
}

#[test]
fn missing_members_have_defaults() {
    let configuration = load_configuration("{}").unwrap();
    assert!(configuration.views.is_empty());
    assert!(configuration.zooms.is_empty());
    let configuration = load_configuration("{\"views\": {\"a\": {\"order\": -7}}}").unwrap();
    assert_eq!(configuration.views.get("a").unwrap().order, -7);
}

#[test]
fn malformed_documents_fail_the_load() {
    let documents = [
        "",
        "not json",
        "[]",
        "null",
        "{\"views\": []}",
        "{\"views\": {\"a\": 1}}",
        "{\"views\": {\"a\": {\"order\": \"1\"}}}",
        "{\"views\": {\"a\": {\"order\": 1.5}}}",
        "{\"views\": {\"a\": {\"order\": 4294967296}}}",
        "{\"views\": {\"a\": {\"order\": null}}}",
        "{\"views\": {\"a\": {\"blenderHide\": \"Roof\"}}}",
        "{\"views\": {\"a\": {\"blenderHide\": [1]}}}",
        "{\"views\": {\"a\": {\"image\": 5}}}",
        "{\"views\": {\"a\": {\"default\": \"yes\"}}}",
        "{\"views\": {\"a\": {\"items\": {\"w\": {}}}}}",
        "{\"views\": {\"a\": {\"items\": {\"w\": {\"itemType\": 1}}}}}",
        "{\"views\": {\"a\": {\"items\": {\"w\": {\"itemType\": \"Switch\", \"top\": 5}}}}}",
        "{\"views\": {\"a\": {\"items\": {\"w\": {\"itemType\": \"Switch\", \"energyMax\": \"5\"}}}}}",
        "{\"views\": {\"a\": {\"items\": {\"w\": {\"itemType\": \"Switch\", \"smarthomeItems\": []}}}}}",
        "{\"views\": {\"a\": {\"items\": {\"w\": {\"itemType\": \"Switch\", \"smarthomeItems\": {\"I\": null}}}}}}",
        "{\"views\": {\"a\": {\"items\": {\"w\": {\"itemType\": \"Switch\", \"smarthomeItems\": {\"I\": {\"key\": 1}}}}}}}",
        "{\"views\": {\"a\": {\"items\": {\"w\": {\"itemType\": \"Switch\", \"blenderItems\": {\"L\": \"Energy\"}}}}}}",
        "{\"zooms\": {\"house\": {\"kitchen\": [0, 1, 2]}}}",
        "{\"zooms\": {\"house\": {\"kitchen\": [0, 1, 2, \"3\"]}}}",
        "{\"zooms\": {\"house\": []}}",
    ];
    for document in documents {
        assert_eq!(load_configuration(document).err(), Some(malformed()), "{}", document);
    }
}

#[test]
fn members_are_read_one_by_one() {
    let doc = parse_json("{\"order\": 3, \"list\": [\"a\"], \"table\": {\"x\": {\"key\": \"k\"}}}")
        .unwrap();
    assert_eq!(read_order(&doc), Some(3));
    assert_eq!(read_order(&parse_json("{}").unwrap()), Some(0));
    assert_eq!(read_list_member(&doc, "list"), Some(vec!["a".to_string()]));
    assert_eq!(read_list_member(&doc, "missing"), Some(vec![]));
    assert_eq!(read_list_member(&doc, "order"), None);
    let table: Table<SmartHomeItem> = read_table_member(&doc, "table").unwrap();
    assert_eq!(table.get("x").unwrap().key, Some("k".to_string()));
    assert!(read_table_member::<SmartHomeItem>(&doc, "missing").unwrap().is_empty());
    assert!(read_table_member::<SmartHomeItem>(&doc, "list").is_none());
    assert!(SmartHomeItem::from_json(&JsonValue::Null).is_none());
    assert!(ViewConfiguration::from_json(&parse_json("{}").unwrap()).is_some());
    assert!(ItemConfiguration::from_json(&parse_json("[]").unwrap()).is_none());
    assert_eq!(
        parse_json("{\"a\": [1, {\"b\": null}]}").unwrap().copy(),
        parse_json("{\"a\": [1, {\"b\": null}]}").unwrap()
    );
}

#[test]
fn signed_numbers_are_read_like_std_reads_them() {
    let samples = [
        "0", "-0", "+0", "7", "-7", "+7", "2147483647", "2147483648", "-2147483648",
        "-2147483649", "", "-", "+", "--1", "-+1", "+-1", "1.0", " 1", "0007", "-0007", "1e3",
    ];
    for s in samples {
        assert_eq!(parse_i32(s), s.parse::<i32>().ok(), "{:?}", s);
    }
}
