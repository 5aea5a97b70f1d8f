//! The device model: the registry of widgets, the settings of each widget,
//! and the tables that route state updates from external items to widgets
//! and requests of widgets back to external items.

use vstd::prelude::*;
use crate::clock::current_instant;
use crate::config::{Item, ItemConfiguration, ViewConfiguration, binding_key, internal_bindings, resolved_key, smart_home_item_to_internal};
use crate::errors::{DeviceModelError, DeviceModelErrorView};
use crate::events::{SceneEventView, SceneModificationEvent};
use crate::item::{
    Number, Widget, WidgetView, configuration_failure, widget_after, widget_bound,
    widget_configured, widget_scene,
};
use crate::item::climate::{Climate, climate_empty};
use crate::item::color::{Color, color_new};
use crate::item::dimmer::{Dimmer, binds_color_temperature, dimmer_new};
use crate::item::dimmer_group::{DimmerGroup, dimmer_group_new};
use crate::item::generic_item::{
    ConfigSlot, NotificationSlot, SliderSlot, SummarySlot, TranslateSlot, generic_new,
};
use crate::item::switch::{Switch, switch_new};
use crate::reading::{is_decimal, is_decimal_text};
use crate::text::{remove_char, without};
use crate::widget_settings::{item_pairs, modifications_of, render_setting_of, tags_known};
use crate::openhab::{
    RequestedStateChange, StateChangeView, WidgetInteraction, WidgetInteractionView, command_for,
    message_state, parse_open_hab_state,
};
use crate::table::{
    Table, has_key, keys_of, lemma_lookup_deep, lemma_position_of, lemma_update_deep,
    lemma_with_entry_deep, lookup, with_entry,
};
use crate::text::{concatenate, owned, str_equal};
use crate::widget_settings::{
    SceneModification, SettingsView, WidgetItemList, WidgetRenderSetting, WidgetSceneModifications,
    WidgetSettings,
};

verus! {

/// The device model.
#[derive(Debug)]
pub struct DeviceModel {
    /// Whether a configuration was parsed.
    initialized: bool,
    /// The names of the widgets of each view.
    views: Table<Vec<String>>,
    /// The widgets by name.
    widgets: Table<Widget>,
    /// The settings of each widget. Every widget has an item list; it has
    /// render settings only if it is drawn.
    widget_settings: Table<WidgetSettings>,
    /// The view that is shown.
    current_view: Option<String>,
    /// For each external item, the widgets that follow it, each with the key
    /// under which it knows the item.
    smart_home_items: Table<Vec<(String, String)>>,
    /// The widget that is shown in fullscreen, if any.
    fullscreen_widget: Option<String>,
}

/// A `DeviceModel` over character sequences.
pub struct DeviceModelView {
    pub initialized: bool,
    pub views: Seq<(Seq<char>, Seq<Seq<char>>)>,
    pub widgets: Seq<(Seq<char>, WidgetView)>,
    pub widget_settings: Seq<(Seq<char>, SettingsView)>,
    pub current_view: Option<Seq<char>>,
    pub smart_home_items: Seq<(Seq<char>, Seq<(Seq<char>, Seq<char>)>)>,
    pub fullscreen_widget: Option<Seq<char>>,
}

impl View for DeviceModel {
    type V = DeviceModelView;

    closed spec fn view(&self) -> DeviceModelView {
        DeviceModelView {
            initialized: self.initialized,
            views: self.views.deep_view(),
            widgets: self.widgets.deep_view(),
            widget_settings: self.widget_settings.deep_view(),
            current_view: self.current_view.deep_view(),
            smart_home_items: self.smart_home_items.deep_view(),
            fullscreen_widget: self.fullscreen_widget.deep_view(),
        }
    }
}

/// The model before a configuration is parsed: no view, no widget, no
/// subscriber, nothing selected.
pub open spec fn empty_model() -> DeviceModelView {
    DeviceModelView {
        initialized: false,
        views: Seq::empty(),
        widgets: Seq::empty(),
        widget_settings: Seq::empty(),
        current_view: None,
        smart_home_items: Seq::empty(),
        fullscreen_widget: None,
    }
}

/// The widgets of the view that is shown, or why nothing can be shown.
pub open spec fn widgets_shown(m: DeviceModelView) -> Result<Seq<Seq<char>>, DeviceModelErrorView> {
    match m.current_view {
        None => Err(DeviceModelErrorView::NoViewSelected),
        Some(view) => match lookup(m.views, view) {
            None => Err(DeviceModelErrorView::ViewNotFound(view)),
            Some(widgets) => Ok(widgets),
        },
    }
}

/// What is needed to draw a widget.
pub struct RenderTarget<'a> {
    /// Where and under which name the widget is drawn.
    pub settings: &'a WidgetRenderSetting,
    /// The widget.
    pub widget: &'a Widget,
    /// Whether the fullscreen view of the widget is drawn too.
    pub fullscreen: bool,
}

/// A `RenderTarget` over character sequences.
pub struct RenderTargetView {
    pub settings: crate::widget_settings::RenderSettingView,
    pub widget: WidgetView,
    pub fullscreen: bool,
}

impl<'a> DeepView for RenderTarget<'a> {
    type V = RenderTargetView;

    open spec fn deep_view(&self) -> RenderTargetView {
        RenderTargetView {
            settings: self.settings.deep_view(),
            widget: self.widget@,
            fullscreen: self.fullscreen,
        }
    }
}

/// What is to be drawn for a widget: nothing for a widget without render
/// settings; else the widget at its place, with its fullscreen view if it is
/// the widget in fullscreen. A widget without a settings record, or with
/// render settings and no widget behind them, is a failure.
pub open spec fn render_target_of(m: DeviceModelView, widget_name: Seq<char>) -> Result<
    Option<RenderTargetView>,
    DeviceModelErrorView,
> {
    match lookup(m.widget_settings, widget_name) {
        None => Err(DeviceModelErrorView::WidgetSettingsNotFound(widget_name)),
        Some(settings) => match settings.render_settings {
            None => Ok(None),
            Some(render_settings) => match lookup(m.widgets, widget_name) {
                None => Err(DeviceModelErrorView::WidgetNotFound(widget_name)),
                Some(widget) => Ok(
                    Some(
                        RenderTargetView {
                            settings: render_settings,
                            widget,
                            fullscreen: m.fullscreen_widget == Some(widget_name),
                        },
                    ),
                ),
            },
        },
    }
}

/// The name of the view that is shown once a configuration is parsed.
pub open spec fn first_view() -> Seq<char> {
    "floorplan"@
}

/// The widget that a kind tag stands for, for a configuration with the given
/// bindings, made at the moment `now`. The tags are `Color`, `Switch`,
/// `Dimmer`, `DimmerGroup`, `Contact`, `Climate`, `Car`, `Robot`,
/// `EnergyMonitor`, `Laundry` and `LightAuto`; any other tag stands for the
/// number widget.
pub open spec fn widget_of_kind(
    kind: Seq<char>,
    bindings: Seq<(Seq<char>, Seq<char>)>,
    now: instant::Instant,
) -> WidgetView {
    if kind == "Color"@ {
        WidgetView::Color(color_new())
    } else if kind == "Switch"@ {
        WidgetView::Switch(switch_new())
    } else if kind == "Dimmer"@ {
        WidgetView::Dimmer(dimmer_new(binds_color_temperature(bindings)))
    } else if kind == "DimmerGroup"@ {
        WidgetView::DimmerGroup(dimmer_group_new())
    } else if kind == "Contact"@ {
        WidgetView::Generic(
            generic_new(
                ConfigSlot::Contact,
                TranslateSlot::Generic,
                SummarySlot::Contact,
                SliderSlot::Contact,
                Some(NotificationSlot::Contact),
            ),
        )
    } else if kind == "Climate"@ {
        WidgetView::Climate(climate_empty(now))
    } else if kind == "Car"@ {
        WidgetView::Generic(
            generic_new(
                ConfigSlot::Car,
                TranslateSlot::Car,
                SummarySlot::Car,
                SliderSlot::Car,
                None,
            ),
        )
    } else if kind == "Robot"@ {
        WidgetView::Generic(
            generic_new(
                ConfigSlot::Robot,
                TranslateSlot::Generic,
                SummarySlot::Robot,
                SliderSlot::Robot,
                None,
            ),
        )
    } else if kind == "EnergyMonitor"@ {
        WidgetView::Generic(
            generic_new(
                ConfigSlot::EnergyMonitor,
                TranslateSlot::EnergyMonitor,
                SummarySlot::Generic,
                SliderSlot::Generic,
                None,
            ),
        )
    } else if kind == "Laundry"@ {
        WidgetView::Generic(
            generic_new(
                ConfigSlot::Laundry,
                TranslateSlot::Generic,
                SummarySlot::Laundry,
                SliderSlot::Laundry,
                None,
            ),
        )
    } else if kind == "LightAuto"@ {
        WidgetView::Generic(
            generic_new(
                ConfigSlot::LightAuto,
                TranslateSlot::Generic,
                SummarySlot::LightAuto,
                SliderSlot::Generic,
                None,
            ),
        )
    } else {
        WidgetView::Number("0"@)
    }
}

/// The widget that a configuration entry stands for: the widget of its kind,
/// after it read the entry's configuration for the widget, if there is one,
/// and learned its bindings. A configuration that the widget refuses is a
/// failure.
pub open spec fn registered_widget(item: Item, now: instant::Instant) -> Result<
    WidgetView,
    DeviceModelErrorView,
> {
    let bindings = internal_bindings(item.bindings());
    let fresh = widget_of_kind(item.item_type@, bindings, now);
    let configured = match item.template_conf {
        Some(doc) => widget_configured(fresh, doc@),
        None => Some(fresh),
    };
    match configured {
        None => Err(DeviceModelErrorView::ConfigurationMalformed(configuration_failure())),
        Some(w) => Ok(widget_bound(w, bindings)),
    }
}

/// Whether a position can be used: both coordinates, without their `%`, are
/// decimal readings.
pub open spec fn position_readable(top: Seq<char>, left: Seq<char>) -> bool {
    is_decimal(without(top, '%')) && is_decimal(without(left, '%'))
}

/// The message of the failure to read the position of a widget.
pub open spec fn position_failure(widget_name: Seq<char>) -> Seq<char> {
    "Failed to parse coordinates for "@ + widget_name
}

/// The message of the failure to read the scene modifications of a widget.
pub open spec fn scene_failure(widget_name: Seq<char>) -> Seq<char> {
    "Unsupported scene configuration for "@ + widget_name
}

/// The settings that a configuration entry gives to its widget. A position
/// that cannot be read is a failure, and so is a tag that names no scene
/// modification.
pub open spec fn registered_settings(
    view_name: Seq<char>,
    widget_name: Seq<char>,
    item: Item,
) -> Result<SettingsView, DeviceModelErrorView> {
    if item.top is Some && item.left is Some && !position_readable(
        item.top.unwrap()@,
        item.left.unwrap()@,
    ) {
        Err(DeviceModelErrorView::ConfigurationMalformed(position_failure(widget_name)))
    } else if !tags_known(item.blender_items.deep_view()) {
        Err(DeviceModelErrorView::ConfigurationMalformed(scene_failure(widget_name)))
    } else {
        Ok(
            SettingsView {
                render_settings: render_setting_of(
                    view_name,
                    widget_name,
                    item.top.deep_view(),
                    item.left.deep_view(),
                    item.label.deep_view(),
                ),
                item_list: item_pairs(widget_name, item.bindings()),
                scene_modifications: modifications_of(item.blender_items.deep_view()),
            },
        )
    }
}

/// The subscribers of an external item, or none.
pub open spec fn subscribers_of(
    subscribers: Seq<(Seq<char>, Seq<(Seq<char>, Seq<char>)>)>,
    item_name: Seq<char>,
) -> Seq<(Seq<char>, Seq<char>)> {
    match lookup(subscribers, item_name) {
        Some(list) => list,
        None => Seq::empty(),
    }
}

/// The subscriber table after the widget `widget_name` subscribed to the
/// items of its first `n` bindings: under each item it is added behind the
/// subscribers that are there, with the key of the binding.
pub open spec fn subscribed(
    subscribers: Seq<(Seq<char>, Seq<(Seq<char>, Seq<char>)>)>,
    widget_name: Seq<char>,
    bindings: Seq<(Seq<char>, Option<Seq<char>>)>,
    n: nat,
) -> Seq<(Seq<char>, Seq<(Seq<char>, Seq<char>)>)>
    decreases n,
{
    if n == 0 {
        subscribers
    } else {
        let before = subscribed(subscribers, widget_name, bindings, (n - 1) as nat);
        let binding = bindings[n - 1];
        with_entry(
            before,
            binding.0,
            subscribers_of(before, binding.0).push((widget_name, resolved_key(binding))),
        )
    }
}

/// The subscriber table after a widget subscribed to its items. A widget
/// without bindings subscribes to the item that has its own name, under its
/// own name as the key; that item must not have a subscriber yet.
pub open spec fn subscribers_with(
    subscribers: Seq<(Seq<char>, Seq<(Seq<char>, Seq<char>)>)>,
    widget_name: Seq<char>,
    bindings: Seq<(Seq<char>, Option<Seq<char>>)>,
) -> Result<Seq<(Seq<char>, Seq<(Seq<char>, Seq<char>)>)>, DeviceModelErrorView> {
    if bindings.len() == 0 {
        if has_key(subscribers, widget_name) {
            Err(DeviceModelErrorView::DuplicateImplicitBinding(widget_name))
        } else {
            Ok(with_entry(subscribers, widget_name, seq![(widget_name, widget_name)]))
        }
    } else {
        Ok(subscribed(subscribers, widget_name, bindings, bindings.len()))
    }
}

/// The model after the widget `widget_name` of the view `view_name` was
/// registered: the widget stands in the registry, its settings in the
/// settings table, both under its name, and it subscribed to its items.
pub open spec fn with_widget(
    m: DeviceModelView,
    view_name: Seq<char>,
    widget_name: Seq<char>,
    item: Item,
    now: instant::Instant,
) -> Result<DeviceModelView, DeviceModelErrorView> {
    match registered_widget(item, now) {
        Err(e) => Err(e),
        Ok(widget) => match registered_settings(view_name, widget_name, item) {
            Err(e) => Err(e),
            Ok(settings) => match subscribers_with(m.smart_home_items, widget_name, item.bindings()) {
                Err(e) => Err(e),
                Ok(subscribers) => Ok(
                    DeviceModelView {
                        widgets: with_entry(m.widgets, widget_name, widget),
                        widget_settings: with_entry(m.widget_settings, widget_name, settings),
                        smart_home_items: subscribers,
                        ..m
                    },
                ),
            },
        },
    }
}

/// The model after the first `n` widgets of a view were registered, in
/// order, unless a failure stopped the work.
pub open spec fn with_widgets(
    m: DeviceModelView,
    view_name: Seq<char>,
    widgets: Seq<(Seq<char>, Item)>,
    n: nat,
    now: instant::Instant,
) -> Result<DeviceModelView, DeviceModelErrorView>
    decreases n,
{
    if n == 0 {
        Ok(m)
    } else {
        match with_widgets(m, view_name, widgets, (n - 1) as nat, now) {
            Err(e) => Err(e),
            Ok(before) => with_widget(before, view_name, widgets[n - 1].0, widgets[n - 1].1, now),
        }
    }
}

/// The model after a view was registered: its widgets are registered, and
/// the view table holds their names in configuration order.
pub open spec fn with_view(
    m: DeviceModelView,
    view_name: Seq<char>,
    view: ViewConfiguration,
    now: instant::Instant,
) -> Result<DeviceModelView, DeviceModelErrorView> {
    let widgets = view.items.entries();
    match with_widgets(m, view_name, widgets, widgets.len(), now) {
        Err(e) => Err(e),
        Ok(before) => Ok(
            DeviceModelView { views: with_entry(before.views, view_name, keys_of(widgets)), ..before },
        ),
    }
}

/// The model after the first `n` views were registered, in order, unless a
/// failure stopped the work.
pub open spec fn with_views(
    m: DeviceModelView,
    views: Seq<(Seq<char>, ViewConfiguration)>,
    n: nat,
    now: instant::Instant,
) -> Result<DeviceModelView, DeviceModelErrorView>
    decreases n,
{
    if n == 0 {
        Ok(m)
    } else {
        match with_views(m, views, (n - 1) as nat, now) {
            Err(e) => Err(e),
            Ok(before) => with_view(before, views[n - 1].0, views[n - 1].1, now),
        }
    }
}

/// The model that parsing a configuration at the moment `now` gives. A model
/// that has a view selected was parsed before, which is a failure. Else the
/// default view is selected and every view of the configuration is
/// registered with its widgets, starting from empty tables.
pub open spec fn parsed(
    m: DeviceModelView,
    configuration: ItemConfiguration,
    now: instant::Instant,
) -> Result<DeviceModelView, DeviceModelErrorView> {
    if m.current_view is Some {
        Err(DeviceModelErrorView::AlreadyInitialized)
    } else {
        let start = DeviceModelView {
            current_view: Some(first_view()),
            fullscreen_widget: m.fullscreen_widget,
            ..empty_model()
        };
        let views = configuration.views.entries();
        match with_views(start, views, views.len(), now) {
            Err(e) => Err(e),
            Ok(routed) => Ok(DeviceModelView { initialized: true, ..routed }),
        }
    }
}

/// Whether a step that changes the model went as expected: it succeeded and
/// left the expected model, or it failed with the expected failure.
pub open spec fn agrees(
    r: Result<(), DeviceModelError>,
    after: DeviceModelView,
    expected: Result<DeviceModelView, DeviceModelErrorView>,
) -> bool {
    match (r, expected) {
        (Ok(_), Ok(m)) => after == m,
        (Err(e), Err(x)) => e@ == x,
        _ => false,
    }
}

/// The scene modifications of a widget for one entity: those of the first
/// `n` kinds of modification, in order.
pub open spec fn entity_events(
    w: WidgetView,
    entity: Seq<char>,
    modifications: Seq<SceneModification>,
    n: nat,
) -> Seq<SceneEventView>
    decreases n,
{
    if n == 0 {
        Seq::empty()
    } else {
        entity_events(w, entity, modifications, (n - 1) as nat) + widget_scene(
            w,
            entity,
            modifications[n - 1],
        )
    }
}

/// The scene modifications of a widget: those for the first `n` entities
/// that it drives, in order.
pub open spec fn scene_events(
    w: WidgetView,
    scene: Seq<(Seq<char>, Seq<SceneModification>)>,
    n: nat,
) -> Seq<SceneEventView>
    decreases n,
{
    if n == 0 {
        Seq::empty()
    } else {
        scene_events(w, scene, (n - 1) as nat) + entity_events(
            w,
            scene[n - 1].0,
            scene[n - 1].1,
            scene[n - 1].1.len(),
        )
    }
}

/// A model together with what came of a state update: the scene
/// modifications, or the failure that stopped the work.
pub struct Delivery {
    pub model: DeviceModelView,
    pub outcome: Result<Seq<SceneEventView>, DeviceModelErrorView>,
}

/// A state delivered to one subscriber, a widget with the key under which it
/// knows the item: the widget takes the state under that key, and the scene
/// modifications that its settings ask for are added to `events`. A
/// subscriber without a widget stops the work; one without a settings
/// record stops it after the widget has taken the state.
pub open spec fn delivered_to(
    m: DeviceModelView,
    events: Seq<SceneEventView>,
    subscriber: (Seq<char>, Seq<char>),
    new_state: Seq<char>,
    now: instant::Instant,
) -> Delivery {
    match lookup(m.widgets, subscriber.0) {
        None => Delivery {
            model: m,
            outcome: Err(DeviceModelErrorView::WidgetNotFound(subscriber.0)),
        },
        Some(widget) => {
            let updated = widget_after(widget, subscriber.1, new_state, now);
            let model = DeviceModelView {
                widgets: with_entry(m.widgets, subscriber.0, updated),
                ..m
            };
            match lookup(m.widget_settings, subscriber.0) {
                None => Delivery {
                    model,
                    outcome: Err(DeviceModelErrorView::WidgetSettingsNotFound(subscriber.0)),
                },
                Some(settings) => Delivery {
                    model,
                    outcome: Ok(
                        events + scene_events(
                            updated,
                            settings.scene_modifications,
                            settings.scene_modifications.len(),
                        ),
                    ),
                },
            }
        },
    }
}

/// A state delivered to the first `n` subscribers, in order, until a failure
/// stops the work.
pub open spec fn delivered(
    m: DeviceModelView,
    subscribers: Seq<(Seq<char>, Seq<char>)>,
    n: nat,
    new_state: Seq<char>,
    now: instant::Instant,
) -> Delivery
    decreases n,
{
    if n == 0 {
        Delivery { model: m, outcome: Ok(Seq::empty()) }
    } else {
        let before = delivered(m, subscribers, (n - 1) as nat, new_state, now);
        match before.outcome {
            Err(_) => before,
            Ok(events) => delivered_to(before.model, events, subscribers[n - 1], new_state, now),
        }
    }
}

/// What a state update of an external item at the moment `now` leads to: the
/// state is delivered to every subscriber of the item, in order; an item
/// without subscribers is a failure and changes nothing.
pub open spec fn state_changed_result(
    m: DeviceModelView,
    item_name: Seq<char>,
    new_state: Seq<char>,
    now: instant::Instant,
) -> Delivery {
    match lookup(m.smart_home_items, item_name) {
        None => Delivery { model: m, outcome: Err(DeviceModelErrorView::ItemNotFound(item_name)) },
        Some(subscribers) => delivered(m, subscribers, subscribers.len(), new_state, now),
    }
}

/// What an update that arrives as a message of the backend leads to: a
/// message that cannot be read is a failure and changes nothing.
pub open spec fn backend_state_changed_result(
    m: DeviceModelView,
    topic: Seq<char>,
    payload: Seq<char>,
    now: instant::Instant,
) -> Delivery {
    match message_state(topic, payload) {
        Err(e) => Delivery { model: m, outcome: Err(e) },
        Ok((item, state)) => state_changed_result(m, item, state, now),
    }
}

/// The view of the outcome of a state update.
pub open spec fn outcome_view(r: Result<Vec<SceneModificationEvent>, DeviceModelError>) -> Result<
    Seq<SceneEventView>,
    DeviceModelErrorView,
> {
    match r {
        Ok(events) => Ok(events.deep_view()),
        Err(e) => Err(e@),
    }
}

/// Once a failure has stopped the registration of the widgets of a view, the
/// widgets that follow change nothing.
pub proof fn lemma_with_widgets_stays(
    m: DeviceModelView,
    view_name: Seq<char>,
    widgets: Seq<(Seq<char>, Item)>,
    k: nat,
    n: nat,
    now: instant::Instant,
)
    requires
        k <= n,
        with_widgets(m, view_name, widgets, k, now) is Err,
    ensures
        with_widgets(m, view_name, widgets, n, now) == with_widgets(m, view_name, widgets, k, now),
    decreases n,
{
    if k < n {
        lemma_with_widgets_stays(m, view_name, widgets, k, (n - 1) as nat, now);
    }
}

/// Once a failure has stopped the registration of the views, the views that
/// follow change nothing.
pub proof fn lemma_with_views_stays(
    m: DeviceModelView,
    views: Seq<(Seq<char>, ViewConfiguration)>,
    k: nat,
    n: nat,
    now: instant::Instant,
)
    requires
        k <= n,
        with_views(m, views, k, now) is Err,
    ensures
        with_views(m, views, n, now) == with_views(m, views, k, now),
    decreases n,
{
    if k < n {
        lemma_with_views_stays(m, views, k, (n - 1) as nat, now);
    }
}

/// Once a failure has stopped the delivery of a state, the subscribers that
/// follow change nothing.
pub proof fn lemma_delivered_stays(
    m: DeviceModelView,
    subscribers: Seq<(Seq<char>, Seq<char>)>,
    k: nat,
    n: nat,
    new_state: Seq<char>,
    now: instant::Instant,
)
    requires
        k <= n,
        delivered(m, subscribers, k, new_state, now).outcome is Err,
    ensures
        delivered(m, subscribers, n, new_state, now) == delivered(
            m,
            subscribers,
            k,
            new_state,
            now,
        ),
    decreases n,
{
    if k < n {
        lemma_delivered_stays(m, subscribers, k, (n - 1) as nat, new_state, now);
    }
}

/// Adds the scene modifications of a widget, as its settings ask for them, to
/// `out`.
fn add_scene_changes(
    widget: &Widget,
    settings: &WidgetSettings,
    out: &mut Vec<SceneModificationEvent>,
)
    ensures
        final(out).deep_view() == old(out).deep_view() + scene_events(
            widget@,
            settings.deep_view().scene_modifications,
            settings.deep_view().scene_modifications.len(),
        ),
{
    let ghost start = out.deep_view();
    let ghost scene = settings.deep_view().scene_modifications;
    let table = &settings.scene_modifications.config;
    let n = table.len();
    let mut i: usize = 0;
    proof {
        assert(start + scene_events(widget@, scene, 0) =~= start);
    }
    while i < n
        invariant
            n == table.entries().len(),
            table == &settings.scene_modifications.config,
            scene == settings.deep_view().scene_modifications,
            scene == table.deep_view(),
            i <= n,
            out.deep_view() == start + scene_events(widget@, scene, i as nat),
        decreases n - i,
    {
        let entity = table.key(i);
        let modifications = table.value(i);
        let ghost kinds = scene[i as int].1;
        let ghost base = out.deep_view();
        proof {
            assert(scene[i as int] == (entity@, modifications.deep_view()));
            assert(modifications.deep_view() =~= modifications@);
            assert(base + entity_events(widget@, entity@, kinds, 0) =~= base);
        }
        let m = modifications.len();
        let mut j: usize = 0;
        while j < m
            invariant
                m == modifications@.len(),
                kinds == modifications@,
                j <= m,
                out.deep_view() == base + entity_events(widget@, entity@, kinds, j as nat),
            decreases m - j,
        {
            let mut events = widget.state_to_blender(entity, modifications[j]);
            let ghost before = out.deep_view();
            let ghost added = events.deep_view();
            out.append(&mut events);
            proof {
                assert(out.deep_view() =~= before + added);
                assert(before + added =~= base + (entity_events(widget@, entity@, kinds, j as nat)
                    + added));
            }
            j += 1;
        }
        proof {
            assert(base + entity_events(widget@, entity@, kinds, m as nat) =~= start + (
            scene_events(widget@, scene, i as nat) + entity_events(
                widget@,
                entity@,
                kinds,
                kinds.len(),
            )));
        }
        i += 1;
    }
}

/// Where the interactions of a widget lead: the widget in fullscreen, the
/// commands for the backend, and the failures of the requests that were
/// dropped.
pub struct Applied {
    pub fullscreen_widget: Option<Seq<char>>,
    pub requests: Seq<StateChangeView>,
    pub failures: Seq<DeviceModelErrorView>,
}

/// The first `n` interactions of the widget `widget_name` applied in order: a
/// state change adds the command for the item behind its key, a fullscreen
/// request puts the widget into fullscreen or takes whatever is there out of
/// it. A state change under a key that the widget has no item for is
/// dropped: its failure is noted, and the work goes on.
pub open spec fn interactions_applied(
    start: Applied,
    widget_name: Seq<char>,
    items: Seq<(Seq<char>, Seq<char>)>,
    interactions: Seq<WidgetInteractionView>,
    n: nat,
) -> Applied
    decreases n,
{
    if n == 0 {
        start
    } else {
        let before = interactions_applied(start, widget_name, items, interactions, (n - 1) as nat);
        match interactions[n - 1] {
            WidgetInteractionView::StateChange(request) => match command_for(request, items) {
                Ok(command) => Applied { requests: before.requests.push(command), ..before },
                Err(e) => Applied { failures: before.failures.push(e), ..before },
            },
            WidgetInteractionView::FullscreenRequest(enable) => Applied {
                fullscreen_widget: if enable {
                    Some(widget_name)
                } else {
                    None
                },
                ..before
            },
        }
    }
}

/// Where the interactions of the widget `widget_name` lead from the model
/// `m` and the commands `requests`. A widget without a settings record is a
/// failure of the whole step.
pub open spec fn interactions_result(
    m: DeviceModelView,
    requests: Seq<StateChangeView>,
    widget_name: Seq<char>,
    interactions: Seq<WidgetInteractionView>,
) -> Result<Applied, DeviceModelErrorView> {
    match lookup(m.widget_settings, widget_name) {
        None => Err(DeviceModelErrorView::WidgetSettingsNotFound(widget_name)),
        Some(settings) => Ok(
            interactions_applied(
                Applied {
                    fullscreen_widget: m.fullscreen_widget,
                    requests,
                    failures: Seq::empty(),
                },
                widget_name,
                settings.item_list,
                interactions,
                interactions.len(),
            ),
        ),
    }
}

impl DeviceModel {
    /// A device model without a configuration.
    pub fn new() -> (model: DeviceModel)
        ensures
            model@ == empty_model(),
    {
        let model = DeviceModel {
            initialized: false,
            views: Table::new(),
            widgets: Table::new(),
            widget_settings: Table::new(),
            current_view: None,
            smart_home_items: Table::new(),
            fullscreen_widget: None,
        };
        assert(model.views.deep_view() =~= Seq::empty());
        assert(model.widgets.deep_view() =~= Seq::empty());
        assert(model.widget_settings.deep_view() =~= Seq::empty());
        assert(model.smart_home_items.deep_view() =~= Seq::empty());
        model
    }

    /// Whether a configuration was parsed.
    pub fn is_initialized(&self) -> (b: bool)
        ensures
            b == self@.initialized,
    {
        self.initialized
    }

    /// The name of the view that is shown.
    pub fn current_view(&self) -> (r: &Option<String>)
        ensures
            r.deep_view() == self@.current_view,
    {
        &self.current_view
    }

    /// The name of the widget that is shown in fullscreen.
    pub fn fullscreen_widget(&self) -> (r: &Option<String>)
        ensures
            r.deep_view() == self@.fullscreen_widget,
    {
        &self.fullscreen_widget
    }

    /// Number of views.
    pub fn view_count(&self) -> (n: usize)
        ensures
            n == self@.views.len(),
    {
        self.views.len()
    }

    /// Number of widgets.
    pub fn widget_count(&self) -> (n: usize)
        ensures
            n == self@.widgets.len(),
    {
        self.widgets.len()
    }

    /// The names of the widgets of a view.
    pub fn widgets_of_view(&self, view_name: &str) -> (r: Option<&Vec<String>>)
        ensures
            r.deep_view() == lookup(self@.views, view_name@),
    {
        proof {
            lemma_lookup_deep(self.views, view_name@);
        }
        self.views.get(view_name)
    }

    /// The widget of the given name.
    pub fn widget(&self, widget_name: &str) -> (r: Option<&Widget>)
        ensures
            r.deep_view() == lookup(self@.widgets, widget_name@),
    {
        proof {
            lemma_lookup_deep(self.widgets, widget_name@);
        }
        self.widgets.get(widget_name)
    }

    /// The settings of the widget of the given name.
    pub fn settings(&self, widget_name: &str) -> (r: Option<&WidgetSettings>)
        ensures
            r.deep_view() == lookup(self@.widget_settings, widget_name@),
    {
        proof {
            lemma_lookup_deep(self.widget_settings, widget_name@);
        }
        self.widget_settings.get(widget_name)
    }

    /// The widgets that follow an external item, each with the key under
    /// which it knows the item.
    pub fn subscribers(&self, item_name: &str) -> (r: Option<&Vec<(String, String)>>)
        ensures
            r.deep_view() == lookup(self@.smart_home_items, item_name@),
    {
        proof {
            lemma_lookup_deep(self.smart_home_items, item_name@);
        }
        self.smart_home_items.get(item_name)
    }

    /// The names of all external items that some widget follows.
    pub fn get_items(&self) -> (items: Vec<&String>)
        ensures
            items.deep_view() == keys_of(self@.smart_home_items),
    {
        let n = self.smart_home_items.len();
        let mut items: Vec<&String> = Vec::new();
        let mut i: usize = 0;
        while i < n
            invariant
                n == self.smart_home_items.entries().len(),
                i <= n,
                items@.len() == i,
                forall|k: int|
                    0 <= k < i ==> (#[trigger] items@[k])@ == self.smart_home_items.entries()[k].0,
            decreases n - i,
        {
            items.push(self.smart_home_items.key(i));
            i += 1;
        }
        assert(items.deep_view() =~= keys_of(self@.smart_home_items));
        items
    }

    /// The widget that a kind tag stands for, for a widget with the given
    /// configuration, made at the moment `now`.
    pub fn init_widget(widget_type: &str, widget_config: &Item, now: instant::Instant) -> (w:
        Widget)
        ensures
            w@ == widget_of_kind(widget_type@, internal_bindings(widget_config.bindings()), now),
    {
        if str_equal(widget_type, "Color") {
            Widget::Color(Color::new())
        } else if str_equal(widget_type, "Switch") {
            Widget::Switch(Switch::new())
        } else if str_equal(widget_type, "Dimmer") {
            Widget::Dimmer(Dimmer::new(&smart_home_item_to_internal(&widget_config.smarthome_items)))
        } else if str_equal(widget_type, "DimmerGroup") {
            Widget::DimmerGroup(DimmerGroup::new())
        } else if str_equal(widget_type, "Contact") {
            Widget::Generic(crate::item::contact::new())
        } else if str_equal(widget_type, "Climate") {
            Widget::Climate(Climate::new_at(now))
        } else if str_equal(widget_type, "Car") {
            Widget::Generic(crate::item::car::new())
        } else if str_equal(widget_type, "Robot") {
            Widget::Generic(crate::item::robot::new())
        } else if str_equal(widget_type, "EnergyMonitor") {
            Widget::Generic(crate::item::energy_monitor::new())
        } else if str_equal(widget_type, "Laundry") {
            Widget::Generic(crate::item::laundry::new())
        } else if str_equal(widget_type, "LightAuto") {
            Widget::Generic(crate::item::light_auto::new())
        } else {
            Widget::Number(Number::new())
        }
    }

    /// Subscribes a widget to the external items of its bindings: under each
    /// item it is added behind the subscribers that are there, with the key
    /// of the binding. A widget without bindings subscribes to the item that
    /// has its own name; if that item has a subscriber already, this fails
    /// and changes nothing.
    pub fn parse_smarthome_items_for_widget(&mut self, widget_name: &str, widget_config: &Item) -> (r:
        Result<(), DeviceModelError>)
        ensures
            match subscribers_with(
                old(self)@.smart_home_items,
                widget_name@,
                widget_config.bindings(),
            ) {
                Ok(subscribers) => r is Ok && final(self)@ == (DeviceModelView {
                    smart_home_items: subscribers,
                    ..old(self)@
                }),
                Err(x) => r is Err && r->Err_0@ == x && final(self)@ == old(self)@,
            },
    {
        let ghost start = self@;
        let ghost bindings = widget_config.bindings();
        let table = &widget_config.smarthome_items;
        let n = table.len();
        if n == 0 {
            proof {
                lemma_lookup_deep(self.smart_home_items, widget_name@);
            }
            if self.smart_home_items.contains_key(widget_name) {
                return Err(DeviceModelError::DuplicateImplicitBinding(owned(widget_name)));
            }
            let ghost before = self.smart_home_items;
            let mut list: Vec<(String, String)> = Vec::new();
            list.push((owned(widget_name), owned(widget_name)));
            assert(list.deep_view() =~= seq![(widget_name@, widget_name@)]);
            self.smart_home_items.insert(owned(widget_name), list);
            proof {
                lemma_with_entry_deep(
                    before,
                    self.smart_home_items,
                    widget_name@,
                    list,
                );
            }
            return Ok(());
        }
        let mut i: usize = 0;
        while i < n
            invariant
                n == table.entries().len(),
                table == &widget_config.smarthome_items,
                bindings == widget_config.bindings(),
                start == old(self)@,
                n > 0,
                i <= n,
                self@ == (DeviceModelView {
                    smart_home_items: subscribed(
                        start.smart_home_items,
                        widget_name@,
                        bindings,
                        i as nat,
                    ),
                    ..start
                }),
            decreases n - i,
        {
            let item_name = table.key(i);
            let key = binding_key(item_name, table.value(i));
            let ghost before = self.smart_home_items;
            let ghost known = self@.smart_home_items;
            proof {
                assert(bindings[i as int] == (item_name@, table.entries()[i as int].1.deep_view()));
                lemma_lookup_deep(before, item_name@);
                lemma_position_of(before.entries(), item_name@);
            }
            match self.smart_home_items.find(item_name.as_str()) {
                Some(p) => {
                    let ghost earlier = before.entries()[p as int].1.deep_view();
                    let list = self.smart_home_items.value_mut(p);
                    list.push((owned(widget_name), key));
                    proof {
                        let grown = self.smart_home_items.entries()[p as int].1;
                        assert(grown.deep_view() =~= earlier.push((widget_name@, key@)));
                        lemma_update_deep(
                            before,
                            self.smart_home_items,
                            p as int,
                            grown,
                        );
                        assert(known[p as int].1 == earlier);
                        assert(subscribers_of(known, item_name@) == earlier);
                    }
                },
                None => {
                    let mut list: Vec<(String, String)> = Vec::new();
                    list.push((owned(widget_name), key));
                    proof {
                        assert(list.deep_view() =~= Seq::<(Seq<char>, Seq<char>)>::empty().push(
                            (widget_name@, key@),
                        ));
                    }
                    self.smart_home_items.insert(item_name.clone(), list);
                    proof {
                        lemma_with_entry_deep(
                            before,
                            self.smart_home_items,
                            item_name@,
                            list,
                        );
                    }
                },
            }
            i += 1;
        }
        Ok(())
    }

    /// Registers one widget of a view: the widget of its kind is made,
    /// configured and told its bindings; its settings are derived; and it
    /// subscribes to its items. After a failure the model is of no use.
    fn register_widget(
        &mut self,
        view_name: &str,
        widget_name: &str,
        widget_config: &Item,
        now: instant::Instant,
    ) -> (r: Result<(), DeviceModelError>)
        ensures
            agrees(
                r,
                final(self)@,
                with_widget(old(self)@, view_name@, widget_name@, *widget_config, now),
            ),
    {
        let bindings = smart_home_item_to_internal(&widget_config.smarthome_items);
        let mut widget = DeviceModel::init_widget(widget_config.item_type.as_str(), widget_config, now);
        match &widget_config.template_conf {
            Some(template_conf) => {
                match widget.set_configuration(template_conf) {
                    Err(e) => {
                        return Err(e);
                    },
                    Ok(_) => {},
                }
            },
            None => {},
        }
        widget.set_smarthome_items(&bindings);
        assert(Ok::<WidgetView, DeviceModelErrorView>(widget@) == registered_widget(
            *widget_config,
            now,
        ));
        match (&widget_config.top, &widget_config.left) {
            (Some(top), Some(left)) => {
                let top = remove_char(top.as_str(), '%');
                let left = remove_char(left.as_str(), '%');
                if !(is_decimal_text(top.as_str()) && is_decimal_text(left.as_str())) {
                    return Err(
                        DeviceModelError::ConfigurationMalformed(
                            concatenate("Failed to parse coordinates for ", widget_name),
                        ),
                    );
                }
            },
            _ => {},
        }
        let scene_modifications = match WidgetSceneModifications::try_from_widget_config(
            &widget_config.blender_items,
        ) {
            Some(m) => m,
            None => {
                return Err(
                    DeviceModelError::ConfigurationMalformed(
                        concatenate("Unsupported scene configuration for ", widget_name),
                    ),
                );
            },
        };
        let settings = WidgetSettings {
            render_settings: WidgetRenderSetting::from_widget_config(
                view_name,
                widget_name,
                widget_config,
            ),
            item_list: WidgetItemList::from_widget_config(widget_name, widget_config),
            scene_modifications,
        };
        assert(Ok::<SettingsView, DeviceModelErrorView>(settings.deep_view())
            == registered_settings(view_name@, widget_name@, *widget_config));
        match self.parse_smarthome_items_for_widget(widget_name, widget_config) {
            Err(e) => {
                return Err(e);
            },
            Ok(_) => {},
        }
        let ghost registry = self.widgets;
        let ghost records = self.widget_settings;
        self.widgets.insert(owned(widget_name), widget);
        self.widget_settings.insert(owned(widget_name), settings);
        proof {
            lemma_with_entry_deep(
                registry,
                self.widgets,
                widget_name@,
                widget,
            );
            lemma_with_entry_deep(
                records,
                self.widget_settings,
                widget_name@,
                settings,
            );
        }
        Ok(())
    }

    /// Registers one view with its widgets. After a failure the model is of
    /// no use.
    fn register_view(
        &mut self,
        view_name: &str,
        view: &ViewConfiguration,
        now: instant::Instant,
    ) -> (r: Result<(), DeviceModelError>)
        ensures
            agrees(r, final(self)@, with_view(old(self)@, view_name@, *view, now)),
    {
        let ghost start = self@;
        let ghost widgets = view.items.entries();
        let mut widgets_of_view: Vec<String> = Vec::new();
        let n = view.items.len();
        let mut i: usize = 0;
        while i < n
            invariant
                n == view.items.entries().len(),
                widgets == view.items.entries(),
                start == old(self)@,
                i <= n,
                widgets_of_view@.len() == i,
                forall|k: int| 0 <= k < i ==> (#[trigger] widgets_of_view@[k])@ == widgets[k].0,
                with_widgets(start, view_name@, widgets, i as nat, now) == Ok::<
                    DeviceModelView,
                    DeviceModelErrorView,
                >(self@),
            decreases n - i,
        {
            let widget_name = view.items.key(i);
            let widget_config = view.items.value(i);
            widgets_of_view.push(widget_name.clone());
            match self.register_widget(view_name, widget_name.as_str(), widget_config, now) {
                Err(e) => {
                    proof {
                        lemma_with_widgets_stays(
                            start,
                            view_name@,
                            widgets,
                            (i + 1) as nat,
                            n as nat,
                            now,
                        );
                    }
                    return Err(e);
                },
                Ok(_) => {},
            }
            i += 1;
        }
        let ghost table = self.views;
        assert(widgets_of_view.deep_view() =~= keys_of(widgets));
        self.views.insert(owned(view_name), widgets_of_view);
        proof {
            lemma_with_entry_deep(
                table,
                self.views,
                view_name@,
                widgets_of_view,
            );
        }
        Ok(())
    }

    /// Builds the model from a configuration, as of the moment `now`: one
    /// widget for each configured widget, its settings, the widgets of each
    /// view, and for each external item the widgets that follow it. The
    /// default view is selected.
    ///
    /// A model is built once: parsing again is a failure. So is a
    /// configuration that a widget refuses, a position or a scene tag that
    /// cannot be read, and a widget without bindings whose name is already
    /// subscribed to. A failure leaves the model as it was.
    pub fn parse_at(&mut self, configuration: &ItemConfiguration, now: instant::Instant) -> (r:
        Result<(), DeviceModelError>)
        ensures
            agrees(r, final(self)@, parsed(old(self)@, *configuration, now)),
            r is Err ==> final(self)@ == old(self)@,
    {
        if self.current_view.is_some() {
            return Err(DeviceModelError::AlreadyInitialized);
        }
        let mut fresh = DeviceModel::new();
        fresh.current_view = Some(owned("floorplan"));
        fresh.fullscreen_widget = match &self.fullscreen_widget {
            Some(f) => Some(f.clone()),
            None => None,
        };
        let ghost start = fresh@;
        let ghost views = configuration.views.entries();
        let n = configuration.views.len();
        let mut i: usize = 0;
        while i < n
            invariant
                n == configuration.views.entries().len(),
                views == configuration.views.entries(),
                i <= n,
                self@ == old(self)@,
                old(self)@.current_view is None,
                start == (DeviceModelView {
                    current_view: Some(first_view()),
                    fullscreen_widget: old(self)@.fullscreen_widget,
                    ..empty_model()
                }),
                with_views(start, views, i as nat, now) == Ok::<
                    DeviceModelView,
                    DeviceModelErrorView,
                >(fresh@),
            decreases n - i,
        {
            let view_name = configuration.views.key(i);
            let view = configuration.views.value(i);
            match fresh.register_view(view_name.as_str(), view, now) {
                Err(e) => {
                    proof {
                        lemma_with_views_stays(start, views, (i + 1) as nat, n as nat, now);
                    }
                    return Err(e);
                },
                Ok(_) => {},
            }
            i += 1;
        }
        fresh.initialized = true;
        *self = fresh;
        Ok(())
    }

    /// Builds the model from a configuration: one widget for each configured
    /// widget, its settings, the widgets of each view, and for each external
    /// item the widgets that follow it. The default view is selected.
    ///
    /// A model is built once: parsing again is a failure. So is a
    /// configuration that a widget refuses, a position or a scene tag that
    /// cannot be read, and a widget without bindings whose name is already
    /// subscribed to. A failure leaves the model as it was.
    pub fn parse(&mut self, configuration: &ItemConfiguration) -> (r: Result<(), DeviceModelError>)
        ensures
            exists|now: instant::Instant|
                agrees(r, final(self)@, #[trigger] parsed(old(self)@, *configuration, now)),
            r is Err ==> final(self)@ == old(self)@,
    {
        let now = current_instant();
        self.parse_at(configuration, now)
    }

    /// Takes the state of an external item as it is at the moment `now`:
    /// every widget that follows the item gets the state under its key for
    /// the item, and the scene modifications that follow from the new state
    /// of those widgets are returned.
    pub fn state_changed_at(&mut self, item_name: &str, state: &str, now: instant::Instant) -> (r:
        Result<Vec<SceneModificationEvent>, DeviceModelError>)
        ensures
            final(self)@ == state_changed_result(old(self)@, item_name@, state@, now).model,
            outcome_view(r) == state_changed_result(old(self)@, item_name@, state@, now).outcome,
    {
        let ghost start = self@;
        let mut scene_changes: Vec<SceneModificationEvent> = Vec::new();
        proof {
            lemma_lookup_deep(self.smart_home_items, item_name@);
        }
        let subscribers = match self.smart_home_items.get(item_name) {
            None => {
                return Err(DeviceModelError::ItemNotFound(owned(item_name)));
            },
            Some(s) => s,
        };
        let ghost all = subscribers.deep_view();
        let n = subscribers.len();
        let mut i: usize = 0;
        proof {
            assert(scene_changes.deep_view() =~= Seq::<SceneEventView>::empty());
        }
        while i < n
            invariant
                n == subscribers@.len(),
                all == subscribers.deep_view(),
                start == old(self)@,
                state_changed_result(start, item_name@, state@, now) == delivered(
                    start,
                    all,
                    n as nat,
                    state@,
                    now,
                ),
                i <= n,
                delivered(start, all, i as nat, state@, now) == (Delivery {
                    model: self@,
                    outcome: Ok(scene_changes.deep_view()),
                }),
            decreases n - i,
        {
            let widget_name = &subscribers[i].0;
            let key = &subscribers[i].1;
            let ghost before = self@;
            let ghost registry = self.widgets;
            proof {
                assert(all[i as int] == (widget_name@, key@));
                lemma_lookup_deep(self.widgets, widget_name@);
                lemma_lookup_deep(self.widget_settings, widget_name@);
                lemma_position_of(self.widgets.entries(), widget_name@);
            }
            let position = match self.widgets.find(widget_name.as_str()) {
                None => {
                    proof {
                        lemma_delivered_stays(start, all, (i + 1) as nat, n as nat, state@, now);
                    }
                    return Err(DeviceModelError::WidgetNotFound(widget_name.clone()));
                },
                Some(p) => p,
            };
            let widget = self.widgets.value_mut(position);
            widget.state_changed_at(key.as_str(), state, now);
            proof {
                let updated = self.widgets.entries()[position as int].1;
                lemma_update_deep(registry, self.widgets, position as int, updated);
                assert(self.widgets.deep_view() == with_entry(
                    before.widgets,
                    widget_name@,
                    updated@,
                ));
            }
            let widget_settings = match self.widget_settings.get(widget_name.as_str()) {
                None => {
                    proof {
                        lemma_delivered_stays(start, all, (i + 1) as nat, n as nat, state@, now);
                    }
                    return Err(DeviceModelError::WidgetSettingsNotFound(widget_name.clone()));
                },
                Some(s) => s,
            };
            add_scene_changes(self.widgets.value(position), widget_settings, &mut scene_changes);
            i += 1;
        }
        Ok(scene_changes)
    }

    /// Takes the state of an external item: every widget that follows the
    /// item gets the state under its key for the item, and the scene
    /// modifications that follow from the new state of those widgets are
    /// returned. An item that no widget follows is a failure and changes
    /// nothing.
    pub fn state_changed(&mut self, item_name: &str, state: &str) -> (r: Result<
        Vec<SceneModificationEvent>,
        DeviceModelError,
    >)
        ensures
            exists|now: instant::Instant|
                {
                    &&& final(self)@ == (#[trigger] state_changed_result(
                        old(self)@,
                        item_name@,
                        state@,
                        now,
                    )).model
                    &&& outcome_view(r) == state_changed_result(
                        old(self)@,
                        item_name@,
                        state@,
                        now,
                    ).outcome
                },
    {
        let now = current_instant();
        self.state_changed_at(item_name, state, now)
    }

    /// Takes a state update as it arrives from the backend at the moment
    /// `now`: a topic that names the item, and a payload that holds its
    /// state.
    pub fn backend_state_changed_at(
        &mut self,
        topic: &str,
        payload: &str,
        now: instant::Instant,
    ) -> (r: Result<Vec<SceneModificationEvent>, DeviceModelError>)
        ensures
            final(self)@ == backend_state_changed_result(old(self)@, topic@, payload@, now).model,
            outcome_view(r) == backend_state_changed_result(
                old(self)@,
                topic@,
                payload@,
                now,
            ).outcome,
    {
        match parse_open_hab_state(topic, payload) {
            Err(e) => Err(e),
            Ok((item_name, state)) => self.state_changed_at(item_name, state.as_str(), now),
        }
    }

    /// Takes a state update as it arrives from the backend: a topic that
    /// names the item, and a payload that holds its state.
    pub fn backend_state_changed(&mut self, topic: &str, payload: &str) -> (r: Result<
        Vec<SceneModificationEvent>,
        DeviceModelError,
    >)
        ensures
            exists|now: instant::Instant|
                {
                    &&& final(self)@ == (#[trigger] backend_state_changed_result(
                        old(self)@,
                        topic@,
                        payload@,
                        now,
                    )).model
                    &&& outcome_view(r) == backend_state_changed_result(
                        old(self)@,
                        topic@,
                        payload@,
                        now,
                    ).outcome
                },
    {
        let now = current_instant();
        self.backend_state_changed_at(topic, payload, now)
    }

    /// The first step of drawing a frame: the names of the widgets of the
    /// view that is shown, in the order in which they are drawn.
    pub fn render_begin(&self) -> (r: Result<&Vec<String>, DeviceModelError>)
        ensures
            match r {
                Ok(widgets) => widgets_shown(self@) == Ok::<Seq<Seq<char>>, DeviceModelErrorView>(
                    widgets.deep_view(),
                ),
                Err(e) => widgets_shown(self@) == Err::<Seq<Seq<char>>, DeviceModelErrorView>(e@),
            },
    {
        match &self.current_view {
            None => Err(DeviceModelError::NoViewSelected(())),
            Some(current_view) => {
                proof {
                    lemma_lookup_deep(self.views, current_view@);
                }
                match self.views.get(current_view.as_str()) {
                    None => Err(DeviceModelError::ViewNotFound(current_view.clone())),
                    Some(widgets) => Ok(widgets),
                }
            },
        }
    }

    /// The step of drawing a frame that is taken for each widget: what is to
    /// be drawn for it.
    pub fn render_target(&self, widget_name: &str) -> (r: Result<
        Option<RenderTarget<'_>>,
        DeviceModelError,
    >)
        ensures
            match r {
                Ok(target) => render_target_of(self@, widget_name@) == Ok::<
                    Option<RenderTargetView>,
                    DeviceModelErrorView,
                >(target.deep_view()),
                Err(e) => render_target_of(self@, widget_name@) == Err::<
                    Option<RenderTargetView>,
                    DeviceModelErrorView,
                >(e@),
            },
    {
        proof {
            lemma_lookup_deep(self.widget_settings, widget_name@);
            lemma_lookup_deep(self.widgets, widget_name@);
        }
        match self.widget_settings.get(widget_name) {
            None => Err(DeviceModelError::WidgetSettingsNotFound(owned(widget_name))),
            Some(widget_settings) => match &widget_settings.render_settings {
                None => Ok(None),
                Some(render_settings) => match self.widgets.get(widget_name) {
                    None => Err(DeviceModelError::WidgetNotFound(owned(widget_name))),
                    Some(widget) => {
                        let fullscreen = match &self.fullscreen_widget {
                            Some(f) => str_equal(f.as_str(), widget_name),
                            None => false,
                        };
                        Ok(Some(RenderTarget { settings: render_settings, widget, fullscreen }))
                    },
                },
            },
        }
    }

    /// The step of drawing a frame that follows the drawing of a widget: the
    /// interactions that the drawing returned are applied in order. Each
    /// state change becomes a command in `requests`, addressed to the
    /// external item behind the key; each fullscreen request changes the
    /// widget in fullscreen. A state change under a key that the widget has
    /// no item for is dropped, and its failure is returned with those of the
    /// other dropped requests. A widget without a settings record fails the
    /// step and changes nothing.
    pub fn apply_interactions(
        &mut self,
        widget_name: &str,
        interactions: &Vec<WidgetInteraction>,
        requests: &mut Vec<RequestedStateChange>,
    ) -> (r: Result<Vec<DeviceModelError>, DeviceModelError>)
        ensures
            match interactions_result(
                old(self)@,
                old(requests).deep_view(),
                widget_name@,
                interactions.deep_view(),
            ) {
                Ok(applied) => {
                    &&& r matches Ok(failures) && failures.deep_view() == applied.failures
                    &&& final(self)@ == (DeviceModelView {
                        fullscreen_widget: applied.fullscreen_widget,
                        ..old(self)@
                    })
                    &&& final(requests).deep_view() == applied.requests
                },
                Err(x) => {
                    &&& r matches Err(e) && e@ == x
                    &&& final(self)@ == old(self)@
                    &&& final(requests).deep_view() == old(requests).deep_view()
                },
            },
    {
        proof {
            lemma_lookup_deep(self.widget_settings, widget_name@);
        }
        let ghost start = Applied {
            fullscreen_widget: self@.fullscreen_widget,
            requests: requests.deep_view(),
            failures: Seq::empty(),
        };
        let ghost model = self@;
        let ghost all = interactions.deep_view();
        let widget_settings = match self.widget_settings.get(widget_name) {
            None => {
                return Err(DeviceModelError::WidgetSettingsNotFound(owned(widget_name)));
            },
            Some(s) => s,
        };
        let ghost items = widget_settings.item_list@;
        let mut failures: Vec<DeviceModelError> = Vec::new();
        assert(failures.deep_view() =~= Seq::<DeviceModelErrorView>::empty());
        let n = interactions.len();
        let mut i: usize = 0;
        while i < n
            invariant
                n == interactions@.len(),
                all == interactions.deep_view(),
                items == widget_settings.item_list@,
                i <= n,
                model == old(self)@,
                self.initialized == model.initialized,
                self.views.deep_view() == model.views,
                self.widgets.deep_view() == model.widgets,
                self.widget_settings.deep_view() == model.widget_settings,
                self.current_view.deep_view() == model.current_view,
                self.smart_home_items.deep_view() == model.smart_home_items,
                interactions_applied(start, widget_name@, items, all, i as nat) == (Applied {
                    fullscreen_widget: self.fullscreen_widget.deep_view(),
                    requests: requests.deep_view(),
                    failures: failures.deep_view(),
                }),
            decreases n - i,
        {
            assert(all[i as int] == interactions@[i as int]@);
            match &interactions[i] {
                WidgetInteraction::StateChange(state_change) => {
                    let command = RequestedStateChange::from_widget_request(
                        state_change,
                        &widget_settings.item_list,
                    );
                    match command {
                        Ok(c) => {
                            let ghost before = requests.deep_view();
                            requests.push(c);
                            assert(requests.deep_view() =~= before.push(c@));
                        },
                        Err(e) => {
                            let ghost before = failures.deep_view();
                            failures.push(e);
                            assert(failures.deep_view() =~= before.push(e@));
                        },
                    }
                },
                WidgetInteraction::FullscreenRequest(enable) => {
                    if *enable {
                        self.fullscreen_widget = Some(owned(widget_name));
                    } else {
                        self.fullscreen_widget = None;
                    }
                },
            }
            i += 1;
        }
        Ok(failures)
    }
}

impl Default for DeviceModel {
    /// A device model without a configuration.
    fn default() -> (model: DeviceModel)
        ensures
            model@ == empty_model(),
    {
        DeviceModel::new()
    }
}

} // verus!
