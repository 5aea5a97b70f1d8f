//! Per-widget settings derived from the configuration: how a widget is placed
//! on screen, which external item stands behind each of its keys, and which
//! scene modifications it drives.

use vstd::prelude::*;
use crate::config::{Item, binding_key, resolved_key};
use crate::table::Table;
use crate::text::{concatenate, remove_char, str_equal, without};

verus! {

/// How a widget is placed and labelled when it is drawn.
#[derive(Debug)]
pub struct WidgetRenderSetting {
    /// Vertical position: the configured percentage without its `%` sign.
    /// The widget is drawn at the negated value.
    pub top: String,
    /// Horizontal position: the configured percentage without its `%` sign.
    pub left: String,
    /// An identity for the widget that is stable across frames: the view
    /// name, an underscore and the widget name.
    pub id: String,
    /// An optional label. Depending on the widget, it may or may not be drawn.
    pub label: Option<String>,
    /// The name of the widget.
    pub widget_name: String,
}

/// A `WidgetRenderSetting` over character sequences.
pub struct RenderSettingView {
    pub top: Seq<char>,
    pub left: Seq<char>,
    pub id: Seq<char>,
    pub label: Option<Seq<char>>,
    pub widget_name: Seq<char>,
}

impl DeepView for WidgetRenderSetting {
    type V = RenderSettingView;

    open spec fn deep_view(&self) -> RenderSettingView {
        RenderSettingView {
            top: self.top@,
            left: self.left@,
            id: self.id@,
            label: self.label.deep_view(),
            widget_name: self.widget_name@,
        }
    }
}

/// The render settings of widget `widget_name` of view `view_name`: present
/// where the configuration gives both coordinates.
pub open spec fn render_setting_of(
    view_name: Seq<char>,
    widget_name: Seq<char>,
    top: Option<Seq<char>>,
    left: Option<Seq<char>>,
    label: Option<Seq<char>>,
) -> Option<RenderSettingView> {
    match (top, left) {
        (Some(t), Some(l)) => Some(
            RenderSettingView {
                top: without(t, '%'),
                left: without(l, '%'),
                id: view_name + "_"@ + widget_name,
                label,
                widget_name,
            },
        ),
        _ => None,
    }
}

impl WidgetRenderSetting {
    /// The render settings of a widget, from its configuration. A widget
    /// without a position has none and is never drawn.
    pub fn from_widget_config(view_name: &str, widget_name: &str, widget_config: &Item) -> (r:
        Option<Self>)
        ensures
            r.deep_view() == render_setting_of(
                view_name@,
                widget_name@,
                widget_config.top.deep_view(),
                widget_config.left.deep_view(),
                widget_config.label.deep_view(),
            ),
    {
        match (&widget_config.top, &widget_config.left) {
            (Some(top), Some(left)) => {
                let head = concatenate(view_name, "_");
                let label = match &widget_config.label {
                    Some(l) => Some(l.clone()),
                    None => None,
                };
                Some(
                    WidgetRenderSetting {
                        top: remove_char(top.as_str(), '%'),
                        left: remove_char(left.as_str(), '%'),
                        id: concatenate(head.as_str(), widget_name),
                        label,
                        widget_name: crate::text::owned(widget_name),
                    },
                )
            },
            _ => None,
        }
    }
}

/// The items assigned to one widget, as `(key, external item name)` pairs.
///
/// The list answers which external item a widget means when it asks for a
/// state change under one of its keys. It is never empty.
#[derive(Debug)]
pub struct WidgetItemList {
    pub items: Vec<(String, String)>,
}

impl View for WidgetItemList {
    type V = Seq<(Seq<char>, Seq<char>)>;

    open spec fn view(&self) -> Seq<(Seq<char>, Seq<char>)> {
        self.items.deep_view()
    }
}

/// The `(key, external item name)` pairs of a widget named `widget_name`
/// whose configuration declares `bindings`: one pair per binding, with the
/// external item name standing in for a key that is not given; and the single
/// pair `(widget_name, widget_name)` when there is no binding at all.
pub open spec fn item_pairs(
    widget_name: Seq<char>,
    bindings: Seq<(Seq<char>, Option<Seq<char>>)>,
) -> Seq<(Seq<char>, Seq<char>)> {
    if bindings.len() == 0 {
        seq![(widget_name, widget_name)]
    } else {
        Seq::new(bindings.len(), |i: int| (resolved_key(bindings[i]), bindings[i].0))
    }
}

impl WidgetItemList {
    /// The item list of a widget, from its configuration.
    ///
    /// The list always has at least one entry: a widget without an explicit
    /// binding is bound to the item that has the widget's own name.
    pub fn from_widget_config(widget_name: &str, widget_config: &Item) -> (list: Self)
        ensures
            list@ == item_pairs(widget_name@, widget_config.bindings()),
            list@.len() >= 1,
    {
        let bindings = &widget_config.smarthome_items;
        let ghost all = item_pairs(widget_name@, widget_config.bindings());
        let mut items: Vec<(String, String)> = Vec::new();
        let n = bindings.len();
        let mut i: usize = 0;
        while i < n
            invariant
                n == bindings.entries().len(),
                bindings == &widget_config.smarthome_items,
                i <= n,
                items.deep_view() =~= Seq::new(
                    i as nat,
                    |k: int|
                        (resolved_key(widget_config.bindings()[k]), widget_config.bindings()[k].0),
                ),
            decreases n - i,
        {
            let item_name = bindings.key(i);
            let key = binding_key(item_name, bindings.value(i));
            let ghost before = items.deep_view();
            items.push((key, item_name.clone()));
            proof {
                assert(widget_config.bindings()[i as int] == (
                    item_name@,
                    bindings.entries()[i as int].1.deep_view(),
                ));
                assert(items.deep_view() =~= before.push((key@, item_name@)));
            }
            i += 1;
        }
        if items.len() < 1 {
            let ghost before = items.deep_view();
            items.push((crate::text::owned(widget_name), crate::text::owned(widget_name)));
            assert(items.deep_view() =~= before.push((widget_name@, widget_name@)));
            assert(items.deep_view() =~= all);
        } else {
            assert(items.deep_view().len() == items@.len());
            assert(items.deep_view() =~= all);
        }
        WidgetItemList { items }
    }
}

/// Upper bound of the illumination scale that `Energy` carries.
pub const MAX_ILLUMINATION: i32 = 400;

/// The kinds of scene modification that a widget can drive.
#[derive(Clone, Copy, Debug, PartialEq, Eq)]
pub enum SceneModification {
    /// The light energy of an entity, with the upper bound of the scale.
    Energy(i32),
    Color(),
    Array(),
    Sun(),
}

impl DeepView for SceneModification {
    type V = SceneModification;

    open spec fn deep_view(&self) -> SceneModification {
        *self
    }
}

/// The scene modification that a configuration tag names, if any.
pub open spec fn modification_of(tag: Seq<char>) -> Option<SceneModification> {
    if tag == "Energy"@ {
        Some(SceneModification::Energy(MAX_ILLUMINATION))
    } else if tag == "Color"@ {
        Some(SceneModification::Color())
    } else if tag == "Array"@ {
        Some(SceneModification::Array())
    } else if tag == "Sun"@ {
        Some(SceneModification::Sun())
    } else {
        None
    }
}

impl SceneModification {
    /// The scene modification that a configuration tag names; `None` for a
    /// tag that names none.
    pub fn from_tag(tag: &str) -> (r: Option<Self>)
        ensures
            r == modification_of(tag@),
    {
        if str_equal(tag, "Energy") {
            Some(SceneModification::Energy(MAX_ILLUMINATION))
        } else if str_equal(tag, "Color") {
            Some(SceneModification::Color())
        } else if str_equal(tag, "Array") {
            Some(SceneModification::Array())
        } else if str_equal(tag, "Sun") {
            Some(SceneModification::Sun())
        } else {
            None
        }
    }

    /// The scene modification that a configuration tag names.
    pub fn from_widget_config(string_representation: &str) -> (r: Self)
        requires
            modification_of(string_representation@) is Some,
        ensures
            Some(r) == modification_of(string_representation@),
    {
        match SceneModification::from_tag(string_representation) {
            Some(m) => m,
            None => SceneModification::Color(),
        }
    }
}

/// The scene modifications that a widget drives, by scene entity.
#[derive(Debug)]
pub struct WidgetSceneModifications {
    pub config: Table<Vec<SceneModification>>,
}

/// Whether every tag of every entity names a scene modification.
pub open spec fn tags_known(config: Seq<(Seq<char>, Seq<Seq<char>>)>) -> bool {
    forall|i: int, j: int|
        0 <= i < config.len() && 0 <= j < config[i].1.len() ==> modification_of(
            #[trigger] config[i].1[j],
        ) is Some
}

/// The scene modifications named by the tags, entity by entity and tag by
/// tag in the same order.
pub open spec fn modifications_of(config: Seq<(Seq<char>, Seq<Seq<char>>)>) -> Seq<
    (Seq<char>, Seq<SceneModification>),
> {
    Seq::new(
        config.len(),
        |i: int|
            (
                config[i].0,
                Seq::new(config[i].1.len(), |j: int| modification_of(config[i].1[j]).unwrap()),
            ),
    )
}

impl DeepView for WidgetSceneModifications {
    type V = Seq<(Seq<char>, Seq<SceneModification>)>;

    open spec fn deep_view(&self) -> Seq<(Seq<char>, Seq<SceneModification>)> {
        self.config.deep_view()
    }
}

impl WidgetSceneModifications {
    /// Reads the scene modifications of a widget from the tags of its
    /// configuration; `None` where a tag names no scene modification.
    pub fn try_from_widget_config(config: &Table<Vec<String>>) -> (r: Option<Self>)
        ensures
            match r {
                Some(m) => tags_known(config.deep_view()) && m.deep_view() == modifications_of(
                    config.deep_view(),
                ),
                None => !tags_known(config.deep_view()),
            },
    {
        let ghost tags = config.deep_view();
        let ghost all = modifications_of(tags);
        let mut lists: Vec<Vec<SceneModification>> = Vec::new();
        let n = config.len();
        let mut i: usize = 0;
        while i < n
            invariant
                n == config.entries().len(),
                tags == config.deep_view(),
                all == modifications_of(tags),
                i <= n,
                lists@.len() == i,
                forall|a: int| 0 <= a < i ==> (#[trigger] lists@[a])@ == all[a].1,
                forall|a: int, b: int|
                    0 <= a < i && 0 <= b < tags[a].1.len() ==> modification_of(
                        #[trigger] tags[a].1[b],
                    ) is Some,
            decreases n - i,
        {
            let names = config.value(i);
            assert(tags[i as int].1 == names.deep_view());
            let m = names.len();
            let mut modifications: Vec<SceneModification> = Vec::new();
            let mut j: usize = 0;
            while j < m
                invariant
                    m == names@.len(),
                    names.deep_view() == tags[i as int].1,
                    tags == config.deep_view(),
                    i < n,
                    n == tags.len(),
                    j <= m,
                    modifications@.len() == j,
                    forall|b: int|
                        0 <= b < j ==> Some(#[trigger] modifications@[b]) == modification_of(
                            tags[i as int].1[b],
                        ),
                decreases m - j,
            {
                assert(names.deep_view()[j as int] == names@[j as int]@);
                match SceneModification::from_tag(names[j].as_str()) {
                    Some(modification) => {
                        modifications.push(modification);
                    },
                    None => {
                        assert(names.deep_view().len() == m);
                        assert(modification_of(tags[i as int].1[j as int]) is None);
                        return None;
                    },
                }
                j += 1;
            }
            proof {
                assert(names.deep_view().len() == m);
                assert forall|b: int| 0 <= b < tags[i as int].1.len() implies modification_of(
                    #[trigger] tags[i as int].1[b],
                ) is Some by {
                    assert(Some(modifications@[b]) == modification_of(tags[i as int].1[b]));
                }
                assert(modifications@ =~= all[i as int].1) by {
                    assert forall|b: int| 0 <= b < m implies modifications@[b] == #[trigger] all[i as int].1[b] by {
                        assert(Some(modifications@[b]) == modification_of(tags[i as int].1[b]));
                    }
                }
            }
            lists.push(modifications);
            i += 1;
        }
        let table = config.with_values(lists);
        proof {
            assert(table.deep_view() =~= all) by {
                assert forall|a: int| 0 <= a < n implies #[trigger] table.deep_view()[a] == all[a] by {
                    assert(table.entries()[a].1 == lists@[a]);
                    assert(lists@[a].deep_view() =~= lists@[a]@);
                }
            }
        }
        Some(WidgetSceneModifications { config: table })
    }

    /// Reads the scene modifications of a widget from the tags of its
    /// configuration.
    pub fn from_widget_config(config: &Table<Vec<String>>) -> (r: Self)
        requires
            tags_known(config.deep_view()),
        ensures
            r.deep_view() == modifications_of(config.deep_view()),
    {
        match WidgetSceneModifications::try_from_widget_config(config) {
            Some(m) => m,
            None => WidgetSceneModifications { config: Table::new() },
        }
    }
}

/// Everything the device model keeps about one widget besides its state.
#[derive(Debug)]
pub struct WidgetSettings {
    /// How to draw the widget; `None` for a widget that is never drawn.
    pub render_settings: Option<WidgetRenderSetting>,
    /// The external item behind each key of the widget.
    pub item_list: WidgetItemList,
    /// The scene modifications that follow the widget's state.
    pub scene_modifications: WidgetSceneModifications,
}

/// `WidgetSettings` over character sequences.
pub struct SettingsView {
    pub render_settings: Option<RenderSettingView>,
    pub item_list: Seq<(Seq<char>, Seq<char>)>,
    pub scene_modifications: Seq<(Seq<char>, Seq<SceneModification>)>,
}

impl DeepView for WidgetSettings {
    type V = SettingsView;

    open spec fn deep_view(&self) -> SettingsView {
        SettingsView {
            render_settings: self.render_settings.deep_view(),
            item_list: self.item_list@,
            scene_modifications: self.scene_modifications.deep_view(),
        }
    }
}

} // verus!
