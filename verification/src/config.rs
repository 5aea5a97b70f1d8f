//! The declarative configuration: views, the widgets of each view, and for
//! each widget its kind, its placement, its bindings to external items and
//! the scene entities it drives.

use vstd::prelude::*;
use crate::json::{Json, JsonValue};
use crate::table::{Table, position_of, lemma_position_of};
use crate::text::{first_some, lemma_first_some_stays};

verus! {

/// A binding of a widget to an external item as the configuration gives it.
/// The key is optional; without one the widget knows the item by its name.
#[derive(Clone, Debug)]
pub struct SmartHomeItem {
    pub key: Option<String>,
}

/// A binding with its key resolved.
#[derive(Clone, Debug)]
pub struct SmartHomeItemInternal {
    pub key: String,
}

impl DeepView for SmartHomeItem {
    type V = Option<Seq<char>>;

    open spec fn deep_view(&self) -> Option<Seq<char>> {
        self.key.deep_view()
    }
}

impl DeepView for SmartHomeItemInternal {
    type V = Seq<char>;

    open spec fn deep_view(&self) -> Seq<char> {
        self.key@
    }
}

/// The key of a binding: its override, or the external item name.
pub open spec fn resolved_key(binding: (Seq<char>, Option<Seq<char>>)) -> Seq<char> {
    match binding.1 {
        Some(key) => key,
        None => binding.0,
    }
}

/// The bindings with every key resolved, in the same order under the same
/// external item names.
pub open spec fn internal_bindings(bindings: Seq<(Seq<char>, Option<Seq<char>>)>) -> Seq<
    (Seq<char>, Seq<char>),
> {
    Seq::new(bindings.len(), |i: int| (bindings[i].0, resolved_key(bindings[i])))
}

/// An owned copy of the key that a binding resolves to.
pub fn binding_key(item_name: &String, binding: &SmartHomeItem) -> (key: String)
    ensures
        key@ == resolved_key((item_name@, binding.deep_view())),
{
    match &binding.key {
        Some(k) => k.clone(),
        None => item_name.clone(),
    }
}

/// Resolves the key of every binding.
pub fn smart_home_item_to_internal(i: &Table<SmartHomeItem>) -> (map: Table<SmartHomeItemInternal>)
    ensures
        map.deep_view() == internal_bindings(i.deep_view()),
        i.wf() ==> map.wf(),
{
    let mut resolved: Vec<SmartHomeItemInternal> = Vec::new();
    let n = i.len();
    let mut k: usize = 0;
    while k < n
        invariant
            n == i.entries().len(),
            k <= n,
            resolved@.len() == k,
            forall|j: int|
                0 <= j < k ==> (#[trigger] resolved@[j]).key@ == resolved_key(i.deep_view()[j]),
        decreases n - k,
    {
        let key = binding_key(i.key(k), i.value(k));
        resolved.push(SmartHomeItemInternal { key });
        k += 1;
    }
    let map = i.with_values(resolved);
    assert(map.deep_view() =~= internal_bindings(i.deep_view()));
    map
}

/// The configuration of one widget.
#[derive(Debug)]
pub struct Item {
    /// Scene entities that follow this widget, each with the tags of the
    /// modifications to derive for it.
    pub blender_items: Table<Vec<String>>,
    /// Tag of the widget kind.
    pub item_type: String,
    pub template: Option<String>,
    /// Configuration of the widget's own, read by the widget kind.
    pub template_conf: Option<JsonValue>,
    /// Upper bound of the energy scale, as decimal text.
    pub energy_max: Option<String>,
    /// Vertical position on screen, a percentage as text.
    pub top: Option<String>,
    /// Horizontal position on screen, a percentage as text.
    pub left: Option<String>,
    /// External items bound to this widget, by external item name.
    pub smarthome_items: Table<SmartHomeItem>,
    pub label: Option<String>,
    pub show_mobile: Option<bool>,
}

/// An `Item` over character sequences.
pub struct ItemView {
    pub blender_items: Seq<(Seq<char>, Seq<Seq<char>>)>,
    pub item_type: Seq<char>,
    pub template: Option<Seq<char>>,
    pub template_conf: Option<Json>,
    pub energy_max: Option<Seq<char>>,
    pub top: Option<Seq<char>>,
    pub left: Option<Seq<char>>,
    pub smarthome_items: Seq<(Seq<char>, Option<Seq<char>>)>,
    pub label: Option<Seq<char>>,
    pub show_mobile: Option<bool>,
}

impl DeepView for Item {
    type V = ItemView;

    open spec fn deep_view(&self) -> ItemView {
        ItemView {
            blender_items: self.blender_items.deep_view(),
            item_type: self.item_type@,
            template: self.template.deep_view(),
            template_conf: self.template_conf.deep_view(),
            energy_max: self.energy_max.deep_view(),
            top: self.top.deep_view(),
            left: self.left.deep_view(),
            smarthome_items: self.smarthome_items.deep_view(),
            label: self.label.deep_view(),
            show_mobile: self.show_mobile,
        }
    }
}

impl Item {
    /// A widget configuration of the given kind with nothing else set.
    pub fn new(item_type: String) -> (item: Item)
        ensures
            item.item_type == item_type,
            item.blender_items.entries().len() == 0,
            item.smarthome_items.entries().len() == 0,
            item.template is None,
            item.template_conf is None,
            item.energy_max is None,
            item.top is None,
            item.left is None,
            item.label is None,
            item.show_mobile is None,
            item.wf(),
    {
        Item {
            blender_items: Table::new(),
            item_type,
            template: None,
            template_conf: None,
            energy_max: None,
            top: None,
            left: None,
            smarthome_items: Table::new(),
            label: None,
            show_mobile: None,
        }
    }

    /// Each of the two tables holds a name once.
    pub open spec fn wf(&self) -> bool {
        self.blender_items.wf() && self.smarthome_items.wf()
    }

    /// The bindings as `(external item name, optional key)` pairs.
    pub open spec fn bindings(&self) -> Seq<(Seq<char>, Option<Seq<char>>)> {
        self.smarthome_items.deep_view()
    }

    /// The key under which this widget knows `item_name`, if it is bound.
    pub open spec fn key_for_item(&self, item_name: Seq<char>) -> Option<Seq<char>> {
        let i = position_of(self.bindings(), item_name);
        if 0 <= i < self.bindings().len() {
            Some(resolved_key(self.bindings()[i]))
        } else {
            None
        }
    }

    /// The name of the template: the configured one, or `basic-light`.
    pub fn get_template(&self) -> (name: String)
        ensures
            name@ == match self.template {
                Some(t) => t@,
                None => "basic-light"@,
            },
    {
        match &self.template {
            Some(t) => t.clone(),
            None => String::from_str("basic-light"),
        }
    }
}

/// The configuration of one view: how it is shown and which widgets it holds.
#[derive(Debug)]
pub struct ViewConfiguration {
    pub image: Option<String>,
    pub label: Option<String>,
    pub order: i32,
    pub default: Option<bool>,
    pub blender_camera: Option<String>,
    pub blender_hide: Vec<String>,
    pub static_image: Option<String>,
    /// The widgets of the view, by widget name.
    pub items: Table<Item>,
}

/// A `ViewConfiguration` over character sequences.
pub struct ViewConfigurationView {
    pub image: Option<Seq<char>>,
    pub label: Option<Seq<char>>,
    pub order: i32,
    pub default: Option<bool>,
    pub blender_camera: Option<Seq<char>>,
    pub blender_hide: Seq<Seq<char>>,
    pub static_image: Option<Seq<char>>,
    pub items: Seq<(Seq<char>, ItemView)>,
}

impl DeepView for ViewConfiguration {
    type V = ViewConfigurationView;

    open spec fn deep_view(&self) -> ViewConfigurationView {
        ViewConfigurationView {
            image: self.image.deep_view(),
            label: self.label.deep_view(),
            order: self.order,
            default: self.default,
            blender_camera: self.blender_camera.deep_view(),
            blender_hide: self.blender_hide.deep_view(),
            static_image: self.static_image.deep_view(),
            items: self.items.deep_view(),
        }
    }
}

impl ViewConfiguration {
    /// A view without widgets, with order 0 and nothing else set.
    pub fn new() -> (view: ViewConfiguration)
        ensures
            view.items.entries().len() == 0,
            view.order == 0,
            view.blender_hide@.len() == 0,
            view.image is None,
            view.label is None,
            view.default is None,
            view.blender_camera is None,
            view.static_image is None,
            view.wf(),
    {
        ViewConfiguration {
            image: None,
            label: None,
            order: 0,
            default: None,
            blender_camera: None,
            blender_hide: Vec::new(),
            static_image: None,
            items: Table::new(),
        }
    }

    /// The view holds each widget name once and each widget is well formed.
    pub open spec fn wf(&self) -> bool {
        &&& self.items.wf()
        &&& forall|i: int|
            0 <= i < self.items.entries().len() ==> (#[trigger] self.items.entries()[i]).1.wf()
    }

    /// The first widget of this view bound to `item_name`, with the key under
    /// which it knows the item.
    pub open spec fn widget_for_item(&self, item_name: Seq<char>) -> Option<
        (Seq<char>, Seq<char>),
    > {
        let widgets = self.items.entries();
        first_some(
            widgets.len(),
            |w: int|
                match widgets[w].1.key_for_item(item_name) {
                    Some(key) => Some((widgets[w].0, key)),
                    None => None,
                },
        )
    }
}

/// A rectangle `(x0, y0, x1, y1)` of a zoom group, each coordinate as decimal
/// text.
pub type ZoomRectangle = (String, String, String, String);

/// The whole configuration: the views by name, and the zoom groups.
#[derive(Debug)]
pub struct ItemConfiguration {
    pub views: Table<ViewConfiguration>,
    pub zooms: Table<Table<ZoomRectangle>>,
}

/// A `ZoomRectangle` over character sequences.
pub type ZoomRectangleView = (Seq<char>, Seq<char>, Seq<char>, Seq<char>);

/// An `ItemConfiguration` over character sequences.
pub struct ItemConfigurationView {
    pub views: Seq<(Seq<char>, ViewConfigurationView)>,
    pub zooms: Seq<(Seq<char>, Seq<(Seq<char>, ZoomRectangleView)>)>,
}

impl DeepView for ItemConfiguration {
    type V = ItemConfigurationView;

    open spec fn deep_view(&self) -> ItemConfigurationView {
        ItemConfigurationView { views: self.views.deep_view(), zooms: self.zooms.deep_view() }
    }
}

impl ItemConfiguration {
    /// A configuration without views and zoom groups.
    pub fn new() -> (configuration: ItemConfiguration)
        ensures
            configuration.views.entries().len() == 0,
            configuration.zooms.entries().len() == 0,
            configuration.wf(),
    {
        ItemConfiguration { views: Table::new(), zooms: Table::new() }
    }

    /// Each view name stands once and each view is well formed.
    pub open spec fn wf(&self) -> bool {
        &&& self.views.wf()
        &&& forall|i: int|
            0 <= i < self.views.entries().len() ==> (#[trigger] self.views.entries()[i]).1.wf()
    }

    /// No two widgets of the configuration have the same name, in one view
    /// or in two.
    pub open spec fn unique_widget_names(&self) -> bool {
        let views = self.views.entries();
        forall|v1: int, w1: int, v2: int, w2: int|
            0 <= v1 < views.len() && 0 <= w1 < views[v1].1.items.entries().len() && 0 <= v2
                < views.len() && 0 <= w2 < views[v2].1.items.entries().len() && (v1 != v2 || w1
                != w2) ==> (#[trigger] views[v1].1.items.entries()[w1]).0 != (
            #[trigger] views[v2].1.items.entries()[w2]).0
    }

    /// The first widget bound to `item_name`, going through the views, the
    /// widgets of each view and the bindings of each widget in configuration
    /// order, with the key under which that widget knows the item.
    pub open spec fn spec_widget_for_item(&self, item_name: Seq<char>) -> Option<
        (Seq<char>, Seq<char>),
    > {
        let views = self.views.entries();
        first_some(views.len(), |v: int| views[v].1.widget_for_item(item_name))
    }

    /// Returns the widget name and key for the given item, if it exists.
    ///
    /// If several widgets are bound to the item, the first one in
    /// configuration order is returned.
    pub fn get_widget_for_item(&self, item_name: &str) -> (r: Option<(String, String)>)
        ensures
            r.deep_view() == self.spec_widget_for_item(item_name@),
    {
        let ghost views = self.views.entries();
        let ghost per_view = |v: int| views[v].1.widget_for_item(item_name@);
        let n = self.views.len();
        let mut v: usize = 0;
        while v < n
            invariant
                n == self.views.entries().len(),
                views == self.views.entries(),
                per_view == |v: int| views[v].1.widget_for_item(item_name@),
                v <= n,
                first_some(v as nat, per_view) is None,
            decreases n - v,
        {
            let view = self.views.value(v);
            let ghost widgets = view.items.entries();
            let ghost per_widget = |w: int|
                match widgets[w].1.key_for_item(item_name@) {
                    Some(key) => Some((widgets[w].0, key)),
                    None => None,
                };
            let m = view.items.len();
            let mut w: usize = 0;
            while w < m
                invariant
                    m == view.items.entries().len(),
                    widgets == view.items.entries(),
                    per_widget == |w: int|
                        match widgets[w].1.key_for_item(item_name@) {
                            Some(key) => Some((widgets[w].0, key)),
                            None => None,
                        },
                    w <= m,
                    first_some(w as nat, per_widget) is None,
                    n == self.views.entries().len(),
                    views == self.views.entries(),
                    per_view == |v: int| views[v].1.widget_for_item(item_name@),
                    v < n,
                    *view == views[v as int].1,
                    first_some(v as nat, per_view) is None,
                decreases m - w,
            {
                let item = view.items.value(w);
                proof {
                    crate::table::lemma_lookup_deep(item.smarthome_items, item_name@);
                    lemma_position_of(item.smarthome_items.entries(), item_name@);
                }
                match item.smarthome_items.find(item_name) {
                    Some(b) => {
                        let name = item.smarthome_items.key(b);
                        let key = binding_key(name, item.smarthome_items.value(b));
                        let widget_name = view.items.key(w).clone();
                        proof {
                            assert(per_widget(w as int) == Some((widget_name@, key@)));
                            assert(first_some((w + 1) as nat, per_widget) == Some(
                                (widget_name@, key@),
                            ));
                            lemma_first_some_stays((w + 1) as nat, m as nat, per_widget);
                            assert(per_view(v as int) == Some((widget_name@, key@)));
                            assert(first_some((v + 1) as nat, per_view) == Some(
                                (widget_name@, key@),
                            ));
                            lemma_first_some_stays((v + 1) as nat, n as nat, per_view);
                        }
                        return Some((widget_name, key));
                    },
                    None => {
                        proof {
                            assert(per_widget(w as int) is None);
                        }
                    },
                }
                w += 1;
            }
            proof {
                assert(per_view(v as int) is None);
            }
            v += 1;
        }
        None
    }
}

} // verus!
