//! A door or window contact, made of the generic widget.

use vstd::prelude::*;
use crate::item::{NotificationStatus, NotificationView};
use crate::item::generic_item::{
    generic_new,
    ConfigSlot, GenericItem, GenericItemView, NotificationSlot, SliderSlot, SummarySlot,
    TranslateSlot,
};
use crate::json::{Json, JsonValue};
use crate::text::{owned, str_equal};

verus! {

/// The configuration of a contact: it has no settings.
#[derive(Debug)]
pub struct ContactConfig {}

/// Whether a document holds a contact configuration: any object does.
pub open spec fn contact_config_of(doc: Json) -> bool {
    doc is Object
}

impl ContactConfig {
    /// Reads a contact configuration from a document.
    pub fn from_json(doc: &JsonValue) -> (r: Option<ContactConfig>)
        ensures
            r is Some == contact_config_of(doc@),
    {
        match doc {
            JsonValue::Object(_) => Some(ContactConfig {  }),
            _ => None,
        }
    }
}

/// Whether the contact is closed: its first key says `CLOSED`, or nothing is
/// known yet.
pub open spec fn contact_is_closed(v: GenericItemView) -> bool {
    v.state.len() == 0 || v.state[0].1.value == "CLOSED"@
}

/// The summary of a contact: whether it is closed.
pub open spec fn contact_summary(v: GenericItemView) -> Seq<(Seq<char>, Json)> {
    seq![("is_closed"@, Json::Bool(contact_is_closed(v)))]
}

/// The slider of a contact: shown with priority 200 while it is open.
pub open spec fn contact_slider(v: GenericItemView) -> Option<(Seq<char>, usize)> {
    if !contact_is_closed(v) {
        Some(("slider-door"@, 200usize))
    } else {
        None
    }
}

/// The alert of a contact: red with priority 2 while it is open.
pub open spec fn contact_notification(v: GenericItemView) -> Option<NotificationView> {
    if !contact_is_closed(v) {
        Some(NotificationView { color: "red"@, priority: 2, num: 1 })
    } else {
        None
    }
}

/// Whether the contact is closed.
pub fn is_closed(generic_item: &GenericItem) -> (b: bool)
    ensures
        b == contact_is_closed(generic_item@),
{
    match generic_item.first_value() {
        Some(value) => str_equal(value.as_str(), "CLOSED"),
        None => true,
    }
}

/// The summary of a contact.
pub fn init_map(generic_item: &GenericItem) -> (map: Vec<(String, JsonValue)>)
    ensures
        map.deep_view() == contact_summary(generic_item@),
{
    let mut map: Vec<(String, JsonValue)> = Vec::new();
    let closed = is_closed(generic_item);
    map.push((owned("is_closed"), JsonValue::Bool(closed)));
    assert(map.deep_view() =~= contact_summary(generic_item@));
    map
}

/// The slider of a contact.
pub fn render_slider(generic_item: &GenericItem) -> (r: Option<(String, usize)>)
    ensures
        r.deep_view() == contact_slider(generic_item@),
{
    if !is_closed(generic_item) {
        Some((owned("slider-door"), 200))
    } else {
        None
    }
}

/// The alert of a contact.
pub fn get_notification_status(generic_item: &GenericItem) -> (r: Option<NotificationStatus>)
    ensures
        r.deep_view() == contact_notification(generic_item@),
{
    if !is_closed(generic_item) {
        Some(NotificationStatus { color: owned("red"), priority: 2, num: 1 })
    } else {
        None
    }
}

/// A contact widget.
pub fn new() -> (d: GenericItem)
    ensures
        d@ == generic_new(
            ConfigSlot::Contact,
            TranslateSlot::Generic,
            SummarySlot::Contact,
            SliderSlot::Contact,
            Some(NotificationSlot::Contact),
        ),
{
    let mut d = GenericItem::with_custom_functions(
        ConfigSlot::Contact,
        TranslateSlot::Generic,
        SummarySlot::Contact,
        SliderSlot::Contact,
    );
    d.with_notification_f(NotificationSlot::Contact);
    d
}

} // verus!
