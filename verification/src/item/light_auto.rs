//! The automatic control of a light, made of the generic widget.

use vstd::prelude::*;
use crate::item::generic_item::{
    generic_new,
    ConfigSlot, GenericItem, GenericItemView, SliderSlot, SummarySlot, TranslateSlot,
    stored_value,
};
use crate::json::{Json, JsonValue};
use crate::text::{concatenate, owned, str_equal};

verus! {

/// The configuration of a light automation: it has no settings.
#[derive(Debug)]
pub struct LightAutoConfig {}

/// Whether a document holds a light automation configuration: any object
/// does.
pub open spec fn light_auto_config_of(doc: Json) -> bool {
    doc is Object
}

impl LightAutoConfig {
    /// Reads a light automation configuration from a document.
    pub fn from_json(doc: &JsonValue) -> (r: Option<LightAutoConfig>)
        ensures
            r is Some == light_auto_config_of(doc@),
    {
        match doc {
            JsonValue::Object(_) => Some(LightAutoConfig {  }),
            _ => None,
        }
    }
}

/// The summary of a light automation: whether the automation is on, which it
/// is when the key `disable_auto` says `OFF`; and, where a threshold is
/// stored under `lux_set`, a flag that names it.
pub open spec fn light_auto_summary(v: GenericItemView) -> Seq<(Seq<char>, Json)> {
    let auto_on = stored_value(v.state, "disable_auto"@) == Some("OFF"@);
    let head = seq![("d_auto_on"@, Json::Bool(auto_on))];
    match stored_value(v.state, "lux_set"@) {
        Some(lux) => head.push(("lux_set_is_equal_"@ + lux, Json::Bool(true))),
        None => head,
    }
}

/// The summary of a light automation.
pub fn init_map(generic_item: &GenericItem) -> (map: Vec<(String, JsonValue)>)
    ensures
        map.deep_view() == light_auto_summary(generic_item@),
{
    let auto_on = match generic_item.value("disable_auto") {
        Some(state) => str_equal(state.as_str(), "OFF"),
        None => false,
    };
    let mut map: Vec<(String, JsonValue)> = Vec::new();
    map.push((owned("d_auto_on"), JsonValue::Bool(auto_on)));
    assert(map.deep_view() =~= seq![("d_auto_on"@, Json::Bool(auto_on))]);
    match generic_item.value("lux_set") {
        Some(lux_set_is) => {
            let ghost before = map.deep_view();
            let name = concatenate("lux_set_is_equal_", lux_set_is.as_str());
            map.push((name, JsonValue::Bool(true)));
            assert(map.deep_view() =~= before.push((name@, Json::Bool(true))));
        },
        None => {},
    }
    map
}

/// A light automation widget.
pub fn new() -> (d: GenericItem)
    ensures
        d@ == generic_new(
            ConfigSlot::LightAuto,
            TranslateSlot::Generic,
            SummarySlot::LightAuto,
            SliderSlot::Generic,
            None,
        ),
{
    GenericItem::with_custom_functions(
        ConfigSlot::LightAuto,
        TranslateSlot::Generic,
        SummarySlot::LightAuto,
        SliderSlot::Generic,
    )
}

} // verus!
