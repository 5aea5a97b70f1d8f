//! Reads the configuration from its JSON document.
//!
//! The document is an object with the members `views` and `zooms`. Every
//! member that may be missing has a default: no text, order 0, an empty
//! list, an empty table. A member of the wrong type fails the whole load.

use vstd::prelude::*;
use crate::config::{
    Item, ItemConfiguration, ItemConfigurationView, ItemView, SmartHomeItem, ViewConfiguration,
    ViewConfigurationView, ZoomRectangle, ZoomRectangleView,
};
use crate::errors::{DeviceModelError, DeviceModelErrorView};
use crate::json::{Json, JsonValue, json_document, parse_json};
use crate::reading::{parse_i32, signed_number};
use crate::table::{Table, lemma_with_entry_deep, with_entry};
use crate::text::owned;

verus! {

/// A value that can be read from a JSON document.
pub trait FromJson: Sized + DeepView {
    /// What a document holds, or `None` where it does not have the shape.
    spec fn spec_from_json(doc: Json) -> Option<<Self as DeepView>::V>;

    /// Whether every table inside the value holds each name once.
    spec fn well_formed(&self) -> bool;

    /// Reads the value from a document.
    fn from_json(doc: &JsonValue) -> (r: Option<Self>)
        ensures
            r.deep_view() == Self::spec_from_json(doc@),
            r matches Some(value) ==> value.well_formed(),
    ;
}

/// The table that the first `n` members of an object give: each member read
/// as a `T` and bound to its name, in order. One member that is no `T` fails
/// the table.
pub open spec fn entries_of<T: FromJson>(members: Seq<(Seq<char>, Json)>, n: nat) -> Option<
    Seq<(Seq<char>, T::V)>,
>
    decreases n,
{
    if n == 0 {
        Some(Seq::empty())
    } else {
        match (entries_of::<T>(members, (n - 1) as nat), T::spec_from_json(members[n - 1].1)) {
            (Some(before), Some(value)) => Some(with_entry(before, members[n - 1].0, value)),
            _ => None,
        }
    }
}

/// The table under the member `name` of a document: empty where the member
/// is missing, and read from the members of the object that stands there.
pub open spec fn table_member<T: FromJson>(doc: Json, name: Seq<char>) -> Option<
    Seq<(Seq<char>, T::V)>,
> {
    match doc.member(name) {
        None => Some(Seq::empty()),
        Some(Json::Object(members)) => entries_of::<T>(members, members.len()),
        Some(_) => None,
    }
}

/// The list of texts under the member `name` of a document: empty where the
/// member is missing.
pub open spec fn list_member(doc: Json, name: Seq<char>) -> Option<Seq<Seq<char>>> {
    match doc.member(name) {
        None => Some(Seq::empty()),
        Some(list) => list.texts(),
    }
}

/// The order of a view: 0 where the member `order` is missing, else the
/// whole number that stands there.
pub open spec fn order_member(doc: Json) -> Option<i32> {
    match doc.member("order"@) {
        None => Some(0i32),
        Some(Json::Number(text)) => match signed_number(text) {
            Some(v) => Some(v as i32),
            None => None,
        },
        Some(_) => None,
    }
}

impl<T: FromJson> FromJson for Table<T> {
    open spec fn spec_from_json(doc: Json) -> Option<Seq<(Seq<char>, T::V)>> {
        match doc {
            Json::Object(members) => entries_of::<T>(members, members.len()),
            _ => None,
        }
    }

    open spec fn well_formed(&self) -> bool {
        &&& self.wf()
        &&& forall|i: int|
            0 <= i < self.entries().len() ==> (#[trigger] self.entries()[i]).1.well_formed()
    }

    fn from_json(doc: &JsonValue) -> (r: Option<Self>) {
        let members = match doc.as_object() {
            Some(m) => m,
            None => {
                return None;
            },
        };
        let ghost all = members.deep_view();
        let n = members.len();
        let mut table: Table<T> = Table::new();
        let mut i: usize = 0;
        assert(table.deep_view() =~= Seq::empty());
        while i < n
            invariant
                n == members@.len(),
                all == members.deep_view(),
                doc@ == Json::Object(all),
                i <= n,
                entries_of::<T>(all, i as nat) == Some(table.deep_view()),
                table.well_formed(),
            decreases n - i,
        {
            assert(all[i as int] == (members@[i as int].0@, members@[i as int].1@));
            match T::from_json(&members[i].1) {
                None => {
                    proof {
                        lemma_entries_of_stays::<T>(all, (i + 1) as nat, n as nat);
                    }
                    return None;
                },
                Some(value) => {
                    let ghost before = table;
                    table.insert(members[i].0.clone(), value);
                    proof {
                        lemma_with_entry_deep(before, table, members@[i as int].0@, value);
                        crate::table::lemma_position_of(before.entries(), members@[i as int].0@);
                        assert forall|k: int| 0 <= k < table.entries().len() implies (
                        #[trigger] table.entries()[k]).1.well_formed() by {
                            if k < before.entries().len() && table.entries()[k].1 != value {
                                assert(before.entries()[k].1.well_formed());
                            }
                        }
                    }
                },
            }
            i += 1;
        }
        Some(table)
    }
}

/// Once a member failed a table, the members that follow change nothing.
pub proof fn lemma_entries_of_stays<T: FromJson>(members: Seq<(Seq<char>, Json)>, k: nat, n: nat)
    requires
        k <= n,
        entries_of::<T>(members, k) is None,
    ensures
        entries_of::<T>(members, n) is None,
    decreases n,
{
    if k < n {
        lemma_entries_of_stays::<T>(members, k, (n - 1) as nat);
    }
}

/// Reads the table under the member `name` of a document.
pub fn read_table_member<T: FromJson>(doc: &JsonValue, name: &str) -> (r: Option<Table<T>>)
    ensures
        r.deep_view() == table_member::<T>(doc@, name@),
        r matches Some(table) ==> table.well_formed(),
{
    match doc.member(name) {
        None => {
            let table: Table<T> = Table::new();
            assert(table.deep_view() =~= Seq::empty());
            Some(table)
        },
        Some(value) => {
            match value {
                JsonValue::Object(_) => {},
                _ => {
                    return None;
                },
            }
            Table::<T>::from_json(value)
        },
    }
}

/// Reads the list of texts under the member `name` of a document.
pub fn read_list_member(doc: &JsonValue, name: &str) -> (r: Option<Vec<String>>)
    ensures
        r.deep_view() == list_member(doc@, name@),
{
    match doc.member(name) {
        None => {
            let list: Vec<String> = Vec::new();
            assert(list.deep_view() =~= Seq::empty());
            Some(list)
        },
        Some(value) => value.texts(),
    }
}

/// Reads the order of a view from its document.
pub fn read_order(doc: &JsonValue) -> (r: Option<i32>)
    ensures
        r == order_member(doc@),
{
    match doc.member("order") {
        None => Some(0),
        Some(JsonValue::Number(text)) => parse_i32(text.as_str()),
        Some(_) => None,
    }
}

impl FromJson for SmartHomeItem {
    /// A binding is an object; its member `key`, if it has one that is not
    /// null, is a text.
    open spec fn spec_from_json(doc: Json) -> Option<Option<Seq<char>>> {
        if doc is Object {
            doc.optional_text_member("key"@)
        } else {
            None
        }
    }

    open spec fn well_formed(&self) -> bool {
        true
    }

    fn from_json(doc: &JsonValue) -> (r: Option<Self>) {
        match doc {
            JsonValue::Object(_) => match doc.optional_text_member("key") {
                Some(key) => Some(SmartHomeItem { key }),
                None => None,
            },
            _ => None,
        }
    }
}

/// A list of texts as a member of a table.
impl FromJson for Vec<String> {
    open spec fn spec_from_json(doc: Json) -> Option<Seq<Seq<char>>> {
        doc.texts()
    }

    open spec fn well_formed(&self) -> bool {
        true
    }

    fn from_json(doc: &JsonValue) -> (r: Option<Self>) {
        doc.texts()
    }
}

/// A rectangle is a list of four numbers.
impl FromJson for ZoomRectangle {
    open spec fn spec_from_json(doc: Json) -> Option<ZoomRectangleView> {
        doc.number_quad()
    }

    open spec fn well_formed(&self) -> bool {
        true
    }

    fn from_json(doc: &JsonValue) -> (r: Option<Self>) {
        doc.number_quad()
    }
}

impl FromJson for Item {
    /// The configuration of a widget is an object with the text `itemType`.
    /// Its tables `blenderItems` and `smarthomeItems` may be missing, and so
    /// may `template`, `templateConf`, `energyMax`, `top`, `left`, `label`
    /// and `showMobile`.
    open spec fn spec_from_json(doc: Json) -> Option<ItemView> {
        match (
            table_member::<Vec<String>>(doc, "blenderItems"@),
            doc.text_member("itemType"@),
            doc.optional_text_member("template"@),
            doc.optional_number_member("energyMax"@),
            doc.optional_text_member("top"@),
            doc.optional_text_member("left"@),
            table_member::<SmartHomeItem>(doc, "smarthomeItems"@),
            doc.optional_text_member("label"@),
            doc.optional_bool_member("showMobile"@),
        ) {
            (
                Some(blender_items),
                Some(item_type),
                Some(template),
                Some(energy_max),
                Some(top),
                Some(left),
                Some(smarthome_items),
                Some(label),
                Some(show_mobile),
            ) => Some(
                ItemView {
                    blender_items,
                    item_type,
                    template,
                    template_conf: doc.optional_member("templateConf"@),
                    energy_max,
                    top,
                    left,
                    smarthome_items,
                    label,
                    show_mobile,
                },
            ),
            _ => None,
        }
    }

    open spec fn well_formed(&self) -> bool {
        self.wf()
    }

    fn from_json(doc: &JsonValue) -> (r: Option<Self>) {
        let blender_items = read_table_member::<Vec<String>>(doc, "blenderItems");
        let item_type = doc.text_member("itemType");
        let template = doc.optional_text_member("template");
        let energy_max = doc.optional_number_member("energyMax");
        let top = doc.optional_text_member("top");
        let left = doc.optional_text_member("left");
        let smarthome_items = read_table_member::<SmartHomeItem>(doc, "smarthomeItems");
        let label = doc.optional_text_member("label");
        let show_mobile = doc.optional_bool_member("showMobile");
        match (
            blender_items,
            item_type,
            template,
            energy_max,
            top,
            left,
            smarthome_items,
            label,
            show_mobile,
        ) {
            (
                Some(blender_items),
                Some(item_type),
                Some(template),
                Some(energy_max),
                Some(top),
                Some(left),
                Some(smarthome_items),
                Some(label),
                Some(show_mobile),
            ) => {
                let template_conf = match doc.optional_member("templateConf") {
                    Some(conf) => Some(conf.copy()),
                    None => None,
                };
                Some(
                    Item {
                        blender_items,
                        item_type: item_type.clone(),
                        template,
                        template_conf,
                        energy_max,
                        top,
                        left,
                        smarthome_items,
                        label,
                        show_mobile,
                    },
                )
            },
            _ => None,
        }
    }
}

impl FromJson for ViewConfiguration {
    /// The configuration of a view is an object. Its table `items` and its
    /// list `blenderHide` may be missing, and so may `order`, `image`,
    /// `label`, `default`, `blenderCamera` and `staticImage`.
    open spec fn spec_from_json(doc: Json) -> Option<ViewConfigurationView> {
        match (
            doc.optional_text_member("image"@),
            doc.optional_text_member("label"@),
            order_member(doc),
            doc.optional_bool_member("default"@),
            doc.optional_text_member("blenderCamera"@),
            list_member(doc, "blenderHide"@),
            doc.optional_text_member("staticImage"@),
            table_member::<Item>(doc, "items"@),
        ) {
            (
                Some(image),
                Some(label),
                Some(order),
                Some(default),
                Some(blender_camera),
                Some(blender_hide),
                Some(static_image),
                Some(items),
            ) => if doc is Object {
                Some(
                    ViewConfigurationView {
                        image,
                        label,
                        order,
                        default,
                        blender_camera,
                        blender_hide,
                        static_image,
                        items,
                    },
                )
            } else {
                None
            },
            _ => None,
        }
    }

    open spec fn well_formed(&self) -> bool {
        self.wf()
    }

    fn from_json(doc: &JsonValue) -> (r: Option<Self>) {
        match doc {
            JsonValue::Object(_) => {},
            _ => {
                return None;
            },
        }
        match (
            doc.optional_text_member("image"),
            doc.optional_text_member("label"),
            read_order(doc),
            doc.optional_bool_member("default"),
            doc.optional_text_member("blenderCamera"),
            read_list_member(doc, "blenderHide"),
            doc.optional_text_member("staticImage"),
            read_table_member::<Item>(doc, "items"),
        ) {
            (
                Some(image),
                Some(label),
                Some(order),
                Some(default),
                Some(blender_camera),
                Some(blender_hide),
                Some(static_image),
                Some(items),
            ) => Some(
                ViewConfiguration {
                    image,
                    label,
                    order,
                    default,
                    blender_camera,
                    blender_hide,
                    static_image,
                    items,
                },
            ),
            _ => None,
        }
    }
}

impl FromJson for ItemConfiguration {
    /// The configuration is an object. Its tables `views` and `zooms` may be
    /// missing.
    open spec fn spec_from_json(doc: Json) -> Option<ItemConfigurationView> {
        match (
            table_member::<ViewConfiguration>(doc, "views"@),
            table_member::<Table<ZoomRectangle>>(doc, "zooms"@),
        ) {
            (Some(views), Some(zooms)) => if doc is Object {
                Some(ItemConfigurationView { views, zooms })
            } else {
                None
            },
            _ => None,
        }
    }

    open spec fn well_formed(&self) -> bool {
        self.wf()
    }

    fn from_json(doc: &JsonValue) -> (r: Option<Self>) {
        match doc {
            JsonValue::Object(_) => {},
            _ => {
                return None;
            },
        }
        match (
            read_table_member::<ViewConfiguration>(doc, "views"),
            read_table_member::<Table<ZoomRectangle>>(doc, "zooms"),
        ) {
            (Some(views), Some(zooms)) => Some(ItemConfiguration { views, zooms }),
            _ => None,
        }
    }
}

/// The configuration that a text holds: the text is a JSON document, and the
/// document has the shape of a configuration.
pub open spec fn configuration_of(text: Seq<char>) -> Option<ItemConfigurationView> {
    match json_document(text) {
        Some(doc) => ItemConfiguration::spec_from_json(doc),
        None => None,
    }
}

/// The message of the failure to read a configuration.
pub open spec fn load_failure() -> Seq<char> {
    "Failed to parse the configuration"@
}

/// Reads the configuration from the text of its JSON document. A text that
/// is no document, or a document that has not the shape of a configuration,
/// fails the load.
pub fn load_configuration(text: &str) -> (r: Result<ItemConfiguration, DeviceModelError>)
    ensures
        match r {
            Ok(configuration) => configuration_of(text@) == Some(configuration.deep_view())
                && configuration.wf(),
            Err(e) => configuration_of(text@) is None && e@
                == DeviceModelErrorView::ConfigurationMalformed(load_failure()),
        },
{
    let configuration = match parse_json(text) {
        Some(doc) => ItemConfiguration::from_json(&doc),
        None => None,
    };
    match configuration {
        Some(c) => Ok(c),
        None => Err(
            DeviceModelError::ConfigurationMalformed(owned("Failed to parse the configuration")),
        ),
    }
}

} // verus!
