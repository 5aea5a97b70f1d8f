//! A washing machine or dryer, made of the generic widget.

use vstd::prelude::*;
use crate::item::generic_item::{
    generic_new,
    ConfigSlot, GenericConfig, GenericConfigView, GenericItem, GenericItemView, SliderSlot,
    SummarySlot, TranslateSlot, stored_value,
};
use crate::json::{Json, JsonValue};
use crate::text::{owned, str_equal};

verus! {

/// The configuration of a laundry widget: the image to show.
#[derive(Debug)]
pub struct LaundryConfig {
    pub image: String,
}

/// A `LaundryConfig` over character sequences.
pub struct LaundryConfigView {
    pub image: Seq<char>,
}

impl DeepView for LaundryConfig {
    type V = LaundryConfigView;

    open spec fn deep_view(&self) -> LaundryConfigView {
        LaundryConfigView { image: self.image@ }
    }
}

/// The laundry configuration that a document holds: an object with the text
/// `image`.
pub open spec fn laundry_config_of(doc: Json) -> Option<LaundryConfigView> {
    match doc.text_member("image"@) {
        Some(image) => Some(LaundryConfigView { image }),
        None => None,
    }
}

impl LaundryConfig {
    /// Reads a laundry configuration from a document.
    pub fn from_json(doc: &JsonValue) -> (r: Option<LaundryConfig>)
        ensures
            r.deep_view() == laundry_config_of(doc@),
    {
        match doc.text_member("image") {
            Some(image) => Some(LaundryConfig { image: image.clone() }),
            None => None,
        }
    }
}

/// The summary of a laundry widget: its image, once it is configured.
pub open spec fn laundry_summary(v: GenericItemView) -> Seq<(Seq<char>, Json)> {
    match v.config {
        Some(GenericConfigView::Laundry(c)) => seq![("image"@, Json::Text(c.image))],
        _ => Seq::empty(),
    }
}

/// The slider of a laundry widget: shown with priority 15 while the key
/// `active` says `ON`.
pub open spec fn laundry_slider(v: GenericItemView) -> Option<(Seq<char>, usize)> {
    if stored_value(v.state, "active"@) == Some("ON"@) {
        Some(("slider-laundry"@, 15usize))
    } else {
        None
    }
}

/// The summary of a laundry widget.
pub fn init_map(generic_item: &GenericItem) -> (map: Vec<(String, JsonValue)>)
    ensures
        map.deep_view() == laundry_summary(generic_item@),
{
    let mut map: Vec<(String, JsonValue)> = Vec::new();
    match generic_item.config() {
        Some(GenericConfig::Laundry(config)) => {
            map.push((owned("image"), JsonValue::Text(config.image.clone())));
            assert(map.deep_view() =~= laundry_summary(generic_item@));
        },
        _ => {
            assert(map.deep_view() =~= laundry_summary(generic_item@));
        },
    }
    map
}

/// The slider of a laundry widget.
pub fn render_slider(generic_item: &GenericItem) -> (r: Option<(String, usize)>)
    ensures
        r.deep_view() == laundry_slider(generic_item@),
{
    match generic_item.value("active") {
        Some(state) => {
            if str_equal(state.as_str(), "ON") {
                Some((owned("slider-laundry"), 15))
            } else {
                None
            }
        },
        None => None,
    }
}

/// A laundry widget.
pub fn new() -> (d: GenericItem)
    ensures
        d@ == generic_new(
            ConfigSlot::Laundry,
            TranslateSlot::Generic,
            SummarySlot::Laundry,
            SliderSlot::Laundry,
            None,
        ),
{
    GenericItem::with_custom_functions(
        ConfigSlot::Laundry,
        TranslateSlot::Generic,
        SummarySlot::Laundry,
        SliderSlot::Laundry,
    )
}

} // verus!
