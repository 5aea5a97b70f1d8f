use smarthome_model::errors::DeviceModelError;
use smarthome_model::openhab::{
    item_of_state_url, parse_open_hab_state, parse_payload, parse_topic, RequestedStateChange,
    RequestedStateChangeFromWidget,
};
use smarthome_model::widget_settings::WidgetItemList;

#[test]
fn test_parse_topic() {
    assert_eq!(
        parse_topic("openhab/items/WashingMachinePower/state"),
        Ok("WashingMachinePower")
    );
}

#[test]
fn parse_topic_accepts_every_state_suffix() {
    assert_eq!(parse_topic("openhab/items/A/statechanged"), Ok("A"));
    assert_eq!(parse_topic("openhab/items/A/stateupdated"), Ok("A"));
    assert_eq!(parse_topic("openhab/items/A/status"), Ok("A"));
    assert_eq!(parse_topic("openhab/items/A/state/more"), Ok("A"));
    assert_eq!(parse_topic("openhab/items//state"), Ok(""));
}

#[test]
fn parse_topic_rejects_short_topic() {
    assert_eq!(
        parse_topic("openhab/items/Lamp"),
        Err(DeviceModelError::ParserError(
            "Failed to parse topic from openhab/items/Lamp".to_string()
        ))
    );
    assert!(matches!(parse_topic(""), Err(DeviceModelError::ParserError(_))));
}

#[test]
fn parse_topic_rejects_wrong_suffix_or_second_segment() {
    assert!(matches!(
        parse_topic("openhab/items/Lamp/command"),
        Err(DeviceModelError::ParserError(_))
    ));
    assert!(matches!(
        parse_topic("openhab/things/Lamp/state"),
        Err(DeviceModelError::ParserError(_))
    ));
    assert!(matches!(
        parse_topic("items/Lamp/state/x"),
        Err(DeviceModelError::ParserError(_))
    ));
    assert!(matches!(
        parse_topic("a/b/items/Lamp/state"),
        Err(DeviceModelError::ParserError(_))
    ));
}

#[test]
fn parse_topic_accepts_any_first_segment() {
    assert_eq!(parse_topic("smarthome/items/Lamp/state"), Ok("Lamp"));
    assert_eq!(parse_topic("/items/Lamp/status"), Ok("Lamp"));
    assert_eq!(parse_topic("items/items/items/stateupdated"), Ok("items"));
}

#[test]
fn payload_with_type_and_value() {
    assert_eq!(
        parse_payload("{\"type\":\"Quantity\",\"value\":\"130.75 W\"}"),
        Ok("130.75 W".to_string())
    );
}

#[test]
fn payload_with_status() {
    assert_eq!(
        parse_payload("{\"status\":\"CLOSED\",\"statusDetail\":\"\"}"),
        Ok("CLOSED".to_string())
    );
}

#[test]
fn payload_of_neither_shape() {
    assert_eq!(
        parse_payload("{\"value\":\"1\"}"),
        Err(DeviceModelError::ParserError(
            "Failed to parse payload {\"value\":\"1\"} to OpenHabSimplePayload in parse_open_hab_state"
                .to_string()
        ))
    );
    assert!(matches!(parse_payload("not json"), Err(DeviceModelError::ParserError(_))));
    assert!(matches!(
        parse_payload("{\"type\":\"Quantity\",\"value\":5}"),
        Err(DeviceModelError::ParserError(_))
    ));
    assert!(matches!(
        parse_payload("{\"status\":\"CLOSED\"}"),
        Err(DeviceModelError::ParserError(_))
    ));
}

#[test]
fn first_payload_shape_wins() {
    assert_eq!(
        parse_payload(
            "{\"type\":\"T\",\"value\":\"V\",\"status\":\"S\",\"statusDetail\":\"D\"}"
        ),
        Ok("V".to_string())
    );
}

#[test]
fn message_with_topic_and_payload() {
    assert_eq!(
        parse_open_hab_state(
            "openhab/items/DeskPower/state",
            "{\"type\":\"Quantity\",\"value\":\"130.75 W\"}"
        ),
        Ok(("DeskPower", "130.75 W".to_string()))
    );
}

#[test]
fn message_with_bad_payload_reports_the_payload() {
    assert_eq!(
        parse_open_hab_state("nonsense", "{}"),
        Err(DeviceModelError::ParserError(
            "Failed to parse payload {} to OpenHabSimplePayload in parse_open_hab_state"
                .to_string()
        ))
    );
}

#[test]
fn message_with_bad_topic_reports_the_topic() {
    assert_eq!(
        parse_open_hab_state("nonsense", "{\"status\":\"ON\",\"statusDetail\":\"\"}"),
        Err(DeviceModelError::ParserError("Failed to parse topic from nonsense".to_string()))
    );
}

#[test]
fn widget_request_is_translated_by_key() {
    let list = WidgetItemList {
        items: vec![
            ("power".to_string(), "Desk_Power".to_string()),
            ("switch".to_string(), "Desk_Switch".to_string()),
        ],
    };
    let request =
        RequestedStateChangeFromWidget { key: "switch".to_string(), value: "ON".to_string() };
    assert_eq!(
        RequestedStateChange::from_widget_request(&request, &list),
        Ok(RequestedStateChange { item: "Desk_Switch".to_string(), value: "ON".to_string() })
    );
}

#[test]
fn widget_request_with_unknown_key_fails() {
    let list = WidgetItemList { items: vec![("power".to_string(), "Desk_Power".to_string())] };
    let request =
        RequestedStateChangeFromWidget { key: "switch".to_string(), value: "ON".to_string() };
    assert_eq!(
        RequestedStateChange::from_widget_request(&request, &list),
        Err(DeviceModelError::KeyNotFound(request.clone()))
    );
}

#[test]
fn state_request_address_names_its_item() {
    let addresses = [
        "http://192.168.178.20:8080/rest/items/OutdoorTemperature/state",
        "http://192.168.178.20:8080/rest/items/zimmer_2_steckdose",
        "/state",
        "state",
        "",
        "a/state",
        "a//state",
        "a/b/state/state",
        "\u{b0}/x\u{b0}/state",
    ];
    for address in addresses {
        let expected = address.strip_suffix("/state").and_then(|item| item.split("/").last());
        assert_eq!(item_of_state_url(address), expected, "{}", address);
    }
    assert_eq!(
        item_of_state_url("http://host/rest/items/OutdoorTemperature/state"),
        Some("OutdoorTemperature")
    );
    assert_eq!(item_of_state_url("http://host/rest/items/OutdoorTemperature"), None);
}
