//! The widget that most kinds are made of: a store of the latest state under
//! each key, each with the time of its last change, and a choice of rules for
//! what is shown from it.

use vstd::prelude::*;
use crate::clock::current_instant;
use crate::config::SmartHomeItemInternal;
use crate::errors::{DeviceModelError, DeviceModelErrorView};
use crate::item::{NotificationStatus, NotificationView, configuration_error, configuration_failure};
use crate::item::car::{CarConfig, CarConfigView, car_config_of};
use crate::item::contact::{ContactConfig, contact_config_of};
use crate::item::energy_monitor::{EnergyMonitorConfig, EnergyMonitorConfigView, energy_monitor_config_of};
use crate::item::laundry::{LaundryConfig, LaundryConfigView, laundry_config_of};
use crate::item::light_auto::{LightAutoConfig, light_auto_config_of};
use crate::item::robot::{RobotConfig, RobotConfigView, robot_config_of};
use crate::json::{Json, JsonValue};
use crate::table::{Table, lemma_lookup_deep, lemma_with_entry_deep, lookup, with_entry};
use crate::text::{owned, str_equal};

verus! {

/// Keys that start with this prefix hold state of the widget's own, which no
/// external item stands behind.
pub const INTERNAL_STATE_PREFIX: &'static str = "@";

/// The latest state under a key, with the time of its last change.
#[derive(Debug)]
pub struct StateEntry {
    pub value: String,
    /// When the state last changed; `None` as long as it has not changed
    /// since it was first seen.
    pub changed: Option<instant::Instant>,
}

/// A `StateEntry` over character sequences.
pub struct StateEntryView {
    pub value: Seq<char>,
    pub changed: Option<instant::Instant>,
}

impl DeepView for StateEntry {
    type V = StateEntryView;

    open spec fn deep_view(&self) -> StateEntryView {
        StateEntryView { value: self.value@, changed: self.changed }
    }
}

/// How a raw state is shown.
#[derive(Debug, PartialEq)]
pub enum DisplayValue {
    /// On or off.
    Flag(bool),
    /// The text as it is.
    Text(String),
    /// A distance in metres, given as a decimal reading, to be shown in whole
    /// kilometres.
    Kilometres(String),
    /// A decimal reading to be shown with the given number of digits behind
    /// the point.
    Fixed(String, u8),
}

/// A `DisplayValue` over character sequences.
pub enum DisplayValueView {
    Flag(bool),
    Text(Seq<char>),
    Kilometres(Seq<char>),
    Fixed(Seq<char>, u8),
}

impl DeepView for DisplayValue {
    type V = DisplayValueView;

    open spec fn deep_view(&self) -> DisplayValueView {
        match self {
            DisplayValue::Flag(b) => DisplayValueView::Flag(*b),
            DisplayValue::Text(t) => DisplayValueView::Text(t@),
            DisplayValue::Kilometres(r) => DisplayValueView::Kilometres(r@),
            DisplayValue::Fixed(r, d) => DisplayValueView::Fixed(r@, *d),
        }
    }
}

/// The rule by which a raw state is shown.
#[derive(Clone, Copy, Debug, PartialEq, Eq)]
pub enum TranslateSlot {
    Generic,
    Car,
    EnergyMonitor,
}

/// The rule by which the summary of a widget is made.
#[derive(Clone, Copy, Debug, PartialEq, Eq)]
pub enum SummarySlot {
    Generic,
    Contact,
    Laundry,
    LightAuto,
    Robot,
    Car,
}

/// The rule by which a widget decides on its slider.
#[derive(Clone, Copy, Debug, PartialEq, Eq)]
pub enum SliderSlot {
    Generic,
    Contact,
    Laundry,
    Robot,
    Car,
}

/// The rule by which a widget raises an alert.
#[derive(Clone, Copy, Debug, PartialEq, Eq)]
pub enum NotificationSlot {
    Contact,
}

/// The kind of configuration that a widget reads.
#[derive(Clone, Copy, Debug, PartialEq, Eq)]
pub enum ConfigSlot {
    /// The widget keeps no configuration and accepts any document.
    Untyped,
    Contact,
    Robot,
    EnergyMonitor,
    Laundry,
    LightAuto,
    Car,
}

/// The configuration that a widget keeps.
#[derive(Debug)]
pub enum GenericConfig {
    Contact(ContactConfig),
    Robot(RobotConfig),
    EnergyMonitor(EnergyMonitorConfig),
    Laundry(LaundryConfig),
    LightAuto(LightAutoConfig),
    Car(CarConfig),
}

/// A `GenericConfig` over character sequences.
pub enum GenericConfigView {
    Contact,
    Robot(RobotConfigView),
    EnergyMonitor(EnergyMonitorConfigView),
    Laundry(LaundryConfigView),
    LightAuto,
    Car(CarConfigView),
}

impl DeepView for GenericConfig {
    type V = GenericConfigView;

    open spec fn deep_view(&self) -> GenericConfigView {
        match self {
            GenericConfig::Contact(_) => GenericConfigView::Contact,
            GenericConfig::Robot(c) => GenericConfigView::Robot(c.deep_view()),
            GenericConfig::EnergyMonitor(c) => GenericConfigView::EnergyMonitor(c.deep_view()),
            GenericConfig::Laundry(c) => GenericConfigView::Laundry(c.deep_view()),
            GenericConfig::LightAuto(_) => GenericConfigView::LightAuto,
            GenericConfig::Car(c) => GenericConfigView::Car(c.deep_view()),
        }
    }
}

/// The configuration of kind `slot` that a document holds. `Some(None)` says
/// that the document is accepted and nothing is kept.
pub open spec fn generic_config_of(slot: ConfigSlot, doc: Json) -> Option<Option<GenericConfigView>> {
    match slot {
        ConfigSlot::Untyped => Some(None),
        ConfigSlot::Contact => if contact_config_of(doc) {
            Some(Some(GenericConfigView::Contact))
        } else {
            None
        },
        ConfigSlot::Robot => match robot_config_of(doc) {
            Some(c) => Some(Some(GenericConfigView::Robot(c))),
            None => None,
        },
        ConfigSlot::EnergyMonitor => match energy_monitor_config_of(doc) {
            Some(c) => Some(Some(GenericConfigView::EnergyMonitor(c))),
            None => None,
        },
        ConfigSlot::Laundry => match laundry_config_of(doc) {
            Some(c) => Some(Some(GenericConfigView::Laundry(c))),
            None => None,
        },
        ConfigSlot::LightAuto => if light_auto_config_of(doc) {
            Some(Some(GenericConfigView::LightAuto))
        } else {
            None
        },
        ConfigSlot::Car => match car_config_of(doc) {
            Some(c) => Some(Some(GenericConfigView::Car(c))),
            None => None,
        },
    }
}

/// Reads the configuration of kind `slot` from a document.
pub fn read_generic_config(slot: ConfigSlot, doc: &JsonValue) -> (r: Option<Option<GenericConfig>>)
    ensures
        r.deep_view() == generic_config_of(slot, doc@),
{
    match slot {
        ConfigSlot::Untyped => Some(None),
        ConfigSlot::Contact => match ContactConfig::from_json(doc) {
            Some(c) => Some(Some(GenericConfig::Contact(c))),
            None => None,
        },
        ConfigSlot::Robot => match RobotConfig::from_json(doc) {
            Some(c) => Some(Some(GenericConfig::Robot(c))),
            None => None,
        },
        ConfigSlot::EnergyMonitor => match EnergyMonitorConfig::from_json(doc) {
            Some(c) => Some(Some(GenericConfig::EnergyMonitor(c))),
            None => None,
        },
        ConfigSlot::Laundry => match LaundryConfig::from_json(doc) {
            Some(c) => Some(Some(GenericConfig::Laundry(c))),
            None => None,
        },
        ConfigSlot::LightAuto => match LightAutoConfig::from_json(doc) {
            Some(c) => Some(Some(GenericConfig::LightAuto(c))),
            None => None,
        },
        ConfigSlot::Car => match CarConfig::from_json(doc) {
            Some(c) => Some(Some(GenericConfig::Car(c))),
            None => None,
        },
    }
}

/// A widget made of a state store and a choice of rules.
#[derive(Debug)]
pub struct GenericItem {
    state: Table<StateEntry>,
    items: Table<String>,
    config: Option<GenericConfig>,
    config_slot: ConfigSlot,
    translate_f: TranslateSlot,
    init_f: SummarySlot,
    render_slider_f: SliderSlot,
    notification_f: Option<NotificationSlot>,
}

/// A `GenericItem` over character sequences.
pub struct GenericItemView {
    /// The latest state under each key, in the order in which the keys were
    /// first seen.
    pub state: Seq<(Seq<char>, StateEntryView)>,
    /// The key under which the widget knows each external item, by external
    /// item name.
    pub items: Seq<(Seq<char>, Seq<char>)>,
    pub config: Option<GenericConfigView>,
    pub config_slot: ConfigSlot,
    pub translate_f: TranslateSlot,
    pub init_f: SummarySlot,
    pub render_slider_f: SliderSlot,
    pub notification_f: Option<NotificationSlot>,
}

/// The state stored under `key`.
pub open spec fn stored_value(state: Seq<(Seq<char>, StateEntryView)>, key: Seq<char>) -> Option<
    Seq<char>,
> {
    match lookup(state, key) {
        Some(entry) => Some(entry.value),
        None => None,
    }
}

/// The entry for a state that arrives under a key: a first state has no time
/// of change, a repeated state keeps the time it had, and a new state is
/// stamped with `now`.
pub open spec fn entry_after(
    previous: Option<StateEntryView>,
    new_state: Seq<char>,
    now: instant::Instant,
) -> StateEntryView {
    match previous {
        None => StateEntryView { value: new_state, changed: None },
        Some(old) => if old.value == new_state {
            old
        } else {
            StateEntryView { value: new_state, changed: Some(now) }
        },
    }
}

/// The store after a state arrived under a key at the moment `now`.
pub open spec fn store_after(
    state: Seq<(Seq<char>, StateEntryView)>,
    key: Seq<char>,
    new_state: Seq<char>,
    now: instant::Instant,
) -> Seq<(Seq<char>, StateEntryView)> {
    with_entry(state, key, entry_after(lookup(state, key), new_state, now))
}

/// The store after an initial state was set under a key: it has no time of
/// change.
pub open spec fn store_initial(
    state: Seq<(Seq<char>, StateEntryView)>,
    key: Seq<char>,
    new_state: Seq<char>,
) -> Seq<(Seq<char>, StateEntryView)> {
    with_entry(state, key, StateEntryView { value: new_state, changed: None })
}

/// The keys by external item name after the first `n` of the bindings were
/// taken in, one after the other.
pub open spec fn items_with(
    items: Seq<(Seq<char>, Seq<char>)>,
    bindings: Seq<(Seq<char>, Seq<char>)>,
    n: nat,
) -> Seq<(Seq<char>, Seq<char>)>
    decreases n,
{
    if n == 0 {
        items
    } else {
        with_entry(
            items_with(items, bindings, (n - 1) as nat),
            bindings[n - 1].0,
            bindings[n - 1].1,
        )
    }
}

/// How a raw state is shown by default: `ON` and `OFF` as flags, anything
/// else as it is.
pub open spec fn generic_translation(input: Seq<char>) -> DisplayValueView {
    if input == "ON"@ {
        DisplayValueView::Flag(true)
    } else if input == "OFF"@ {
        DisplayValueView::Flag(false)
    } else {
        DisplayValueView::Text(input)
    }
}

/// Shows a raw state by the default rule.
pub fn generic_translate_value(_key: &str, input: &str) -> (r: DisplayValue)
    ensures
        r.deep_view() == generic_translation(input@),
{
    if str_equal(input, "ON") {
        DisplayValue::Flag(true)
    } else if str_equal(input, "OFF") {
        DisplayValue::Flag(false)
    } else {
        DisplayValue::Text(owned(input))
    }
}

/// The summary by the default rule: empty.
pub fn generic_init_map(_item: &GenericItem) -> (r: Vec<(String, JsonValue)>)
    ensures
        r.deep_view() == Seq::<(Seq<char>, Json)>::empty(),
{
    let r: Vec<(String, JsonValue)> = Vec::new();
    assert(r.deep_view() =~= Seq::<(Seq<char>, Json)>::empty());
    r
}

/// The slider by the default rule: none.
pub fn generic_render_slider(_item: &GenericItem) -> (r: Option<(String, usize)>)
    ensures
        r is None,
{
    None
}

/// The summary of a widget.
pub open spec fn summary_of(v: GenericItemView) -> Seq<(Seq<char>, Json)> {
    match v.init_f {
        SummarySlot::Generic => Seq::empty(),
        SummarySlot::Contact => crate::item::contact::contact_summary(v),
        SummarySlot::Laundry => crate::item::laundry::laundry_summary(v),
        SummarySlot::LightAuto => crate::item::light_auto::light_auto_summary(v),
        SummarySlot::Robot => crate::item::robot::robot_summary(v),
        SummarySlot::Car => crate::item::car::car_summary(v),
    }
}

/// The slider of a widget, with its priority.
pub open spec fn slider_of(v: GenericItemView) -> Option<(Seq<char>, usize)> {
    match v.render_slider_f {
        SliderSlot::Generic => None,
        SliderSlot::Contact => crate::item::contact::contact_slider(v),
        SliderSlot::Laundry => crate::item::laundry::laundry_slider(v),
        SliderSlot::Robot => crate::item::robot::robot_slider(v),
        SliderSlot::Car => crate::item::car::car_slider(),
    }
}

/// The alert of a widget.
pub open spec fn notification_of(v: GenericItemView) -> Option<NotificationView> {
    match v.notification_f {
        None => None,
        Some(NotificationSlot::Contact) => crate::item::contact::contact_notification(v),
    }
}

/// A widget with an empty store and the given rules.
pub open spec fn generic_new(
    config_slot: ConfigSlot,
    translate_f: TranslateSlot,
    init_f: SummarySlot,
    render_slider_f: SliderSlot,
    notification_f: Option<NotificationSlot>,
) -> GenericItemView {
    GenericItemView {
        state: Seq::empty(),
        items: Seq::empty(),
        config: None,
        config_slot,
        translate_f,
        init_f,
        render_slider_f,
        notification_f,
    }
}

impl View for GenericItem {
    type V = GenericItemView;

    closed spec fn view(&self) -> GenericItemView {
        GenericItemView {
            state: self.state.deep_view(),
            items: self.items.deep_view(),
            config: self.config.deep_view(),
            config_slot: self.config_slot,
            translate_f: self.translate_f,
            init_f: self.init_f,
            render_slider_f: self.render_slider_f,
            notification_f: self.notification_f,
        }
    }
}

impl Default for GenericItem {
    /// A widget with an empty store and the default rules.
    fn default() -> (item: GenericItem)
        ensures
            item@ == generic_new(
                ConfigSlot::Untyped,
                TranslateSlot::Generic,
                SummarySlot::Generic,
                SliderSlot::Generic,
                None,
            ),
    {
        GenericItem::new()
    }
}

impl GenericItem {
    /// A widget with an empty store and the default rules.
    pub fn new() -> (item: Self)
        ensures
            item@ == generic_new(
                ConfigSlot::Untyped,
                TranslateSlot::Generic,
                SummarySlot::Generic,
                SliderSlot::Generic,
                None,
            ),
    {
        GenericItem::with_custom_functions(
            ConfigSlot::Untyped,
            TranslateSlot::Generic,
            SummarySlot::Generic,
            SliderSlot::Generic,
        )
    }

    /// A widget with an empty store, a kind of configuration and the three
    /// rules that every kind chooses.
    pub fn with_custom_functions(
        config_slot: ConfigSlot,
        f: TranslateSlot,
        init_f: SummarySlot,
        render_slider_f: SliderSlot,
    ) -> (item: Self)
        ensures
            item@ == generic_new(config_slot, f, init_f, render_slider_f, None),
    {
        let item = GenericItem {
            state: Table::new(),
            items: Table::new(),
            config: None,
            config_slot,
            translate_f: f,
            init_f,
            render_slider_f,
            notification_f: None,
        };
        assert(item.state.deep_view() =~= Seq::empty());
        assert(item.items.deep_view() =~= Seq::empty());
        item
    }

    /// Chooses the rule for alerts, and hands the widget back for more
    /// choices.
    pub fn with_notification_f(&mut self, f: NotificationSlot) -> (r: &mut Self)
        ensures
            r@ == (GenericItemView { notification_f: Some(f), ..old(self)@ }),
            *final(self) == *final(r),
    {
        self.notification_f = Some(f);
        self
    }

    /// Chooses the rule for the summary, and hands the widget back for more
    /// choices.
    pub fn with_init_f(&mut self, f: SummarySlot) -> (r: &mut Self)
        ensures
            r@ == (GenericItemView { init_f: f, ..old(self)@ }),
            *final(self) == *final(r),
    {
        self.init_f = f;
        self
    }

    /// The entry stored under `key`.
    pub fn entry(&self, key: &str) -> (r: Option<&StateEntry>)
        ensures
            r.deep_view() == lookup(self@.state, key@),
    {
        proof {
            lemma_lookup_deep(self.state, key@);
        }
        self.state.get(key)
    }

    /// The state stored under `key`.
    pub fn value(&self, key: &str) -> (r: Option<&String>)
        ensures
            r.deep_view() == stored_value(self@.state, key@),
    {
        match self.entry(key) {
            Some(e) => Some(&e.value),
            None => None,
        }
    }

    /// The state of the key that was seen first.
    pub fn first_value(&self) -> (r: Option<&String>)
        ensures
            r.deep_view() == if self@.state.len() > 0 {
                Some(self@.state[0].1.value)
            } else {
                None
            },
    {
        if self.state.len() > 0 {
            Some(&self.state.value(0).value)
        } else {
            None
        }
    }

    /// The configuration that the widget keeps.
    pub fn config(&self) -> (r: &Option<GenericConfig>)
        ensures
            r.deep_view() == self@.config,
    {
        &self.config
    }

    /// The key under which the widget knows the external item `item_name`.
    pub fn key_of_item(&self, item_name: &str) -> (r: Option<&String>)
        ensures
            r.deep_view() == lookup(self@.items, item_name@),
    {
        proof {
            lemma_lookup_deep(self.items, item_name@);
        }
        self.items.get(item_name)
    }

    /// Reads the widget's configuration. A document that does not hold the
    /// kind of configuration that the widget reads is refused and changes
    /// nothing.
    pub fn set_configuration(&mut self, config: &JsonValue) -> (r: Result<(), DeviceModelError>)
        ensures
            match r {
                Ok(_) => generic_config_of(old(self)@.config_slot, config@) is Some && final(self)@
                    == (GenericItemView {
                    config: generic_config_of(old(self)@.config_slot, config@).unwrap(),
                    ..old(self)@
                }),
                Err(e) => generic_config_of(old(self)@.config_slot, config@) is None
                    && final(self)@ == old(self)@
                    && e@ == DeviceModelErrorView::ConfigurationMalformed(configuration_failure()),
            },
    {
        match read_generic_config(self.config_slot, config) {
            Some(c) => {
                self.config = c;
                Ok(())
            },
            None => Err(configuration_error()),
        }
    }

    /// Takes note of the key under which the widget knows each of its
    /// external items.
    pub fn set_smarthome_items(&mut self, items: &Table<SmartHomeItemInternal>)
        ensures
            final(self)@ == (GenericItemView {
                items: items_with(
                    old(self)@.items,
                    items.deep_view(),
                    items.deep_view().len(),
                ),
                ..old(self)@
            }),
    {
        let ghost bindings = items.deep_view();
        let ghost start = self@;
        let n = items.len();
        let mut i: usize = 0;
        while i < n
            invariant
                n == items.entries().len(),
                bindings == items.deep_view(),
                i <= n,
                self@ == (GenericItemView {
                    items: items_with(start.items, bindings, i as nat),
                    ..start
                }),
            decreases n - i,
        {
            let ghost before = self.items;
            let name = items.key(i);
            let key = items.value(i).key.clone();
            proof {
                assert(bindings[i as int] == (name@, key@));
                lemma_lookup_deep(before, name@);
            }
            self.items.insert(name.clone(), key);
            proof {
                lemma_with_entry_deep(before, self.items, name@, key);
            }
            i += 1;
        }
    }

    /// Takes the state that arrived under a key at the moment `now`.
    pub fn state_changed_at(&mut self, item_key: &str, new_state: &str, now: instant::Instant)
        ensures
            final(self)@ == (GenericItemView {
                state: store_after(old(self)@.state, item_key@, new_state@, now),
                ..old(self)@
            }),
    {
        let ghost before = self.state;
        proof {
            lemma_lookup_deep(before, item_key@);
        }
        let changed = match self.state.get(item_key) {
            Some(old_val) => {
                if str_equal(old_val.value.as_str(), new_state) {
                    old_val.changed
                } else {
                    Some(now)
                }
            },
            None => None,
        };
        let entry = StateEntry { value: owned(new_state), changed };
        self.state.insert(owned(item_key), entry);
        proof {
            lemma_with_entry_deep(before, self.state, item_key@, entry);
        }
    }

    /// Takes the state that arrived under a key. A state that differs from
    /// the one stored is stamped with the present moment.
    pub fn state_changed(&mut self, item_key: &str, new_state: &str)
        ensures
            exists|now: instant::Instant|
                final(self)@ == (GenericItemView {
                    state: #[trigger] store_after(old(self)@.state, item_key@, new_state@, now),
                    ..old(self)@
                }),
    {
        let now = current_instant();
        self.state_changed_at(item_key, new_state, now);
    }

    /// Sets the state under a key as the one that the item had from the
    /// start: no time of change is kept for it.
    pub fn initial_state(&mut self, item_key: &str, new_state: &str)
        ensures
            final(self)@ == (GenericItemView {
                state: store_initial(old(self)@.state, item_key@, new_state@),
                ..old(self)@
            }),
    {
        let ghost before = self.state;
        let entry = StateEntry { value: owned(new_state), changed: None };
        self.state.insert(owned(item_key), entry);
        proof {
            lemma_with_entry_deep(before, self.state, item_key@, entry);
        }
    }

    /// The slider that the widget contributes, with its priority.
    pub fn render_slider(&self) -> (r: Option<(String, usize)>)
        ensures
            r.deep_view() == slider_of(self@),
    {
        match self.render_slider_f {
            SliderSlot::Generic => generic_render_slider(self),
            SliderSlot::Contact => crate::item::contact::render_slider(self),
            SliderSlot::Laundry => crate::item::laundry::render_slider(self),
            SliderSlot::Robot => crate::item::robot::render_slider(self),
            SliderSlot::Car => crate::item::car::render_slider(self),
        }
    }

    /// The alert that the widget raises.
    pub fn get_notification_status(&self) -> (r: Option<NotificationStatus>)
        ensures
            r.deep_view() == notification_of(self@),
    {
        match self.notification_f {
            None => None,
            Some(NotificationSlot::Contact) => crate::item::contact::get_notification_status(self),
        }
    }

    /// The summary of the widget: what a template needs to show it.
    pub fn init_map(&self) -> (r: Vec<(String, JsonValue)>)
        ensures
            r.deep_view() == summary_of(self@),
    {
        match self.init_f {
            SummarySlot::Generic => generic_init_map(self),
            SummarySlot::Contact => crate::item::contact::init_map(self),
            SummarySlot::Laundry => crate::item::laundry::init_map(self),
            SummarySlot::LightAuto => crate::item::light_auto::init_map(self),
            SummarySlot::Robot => crate::item::robot::init_map(self),
            SummarySlot::Car => crate::item::car::init_map(self),
        }
    }

    /// Shows a raw state by the widget's rule. What a car shows for the time
    /// of its last event depends on the present moment.
    pub fn translate(&self, key: &str, input: &str) -> (r: DisplayValue)
        ensures
            match self@.translate_f {
                TranslateSlot::Generic => r.deep_view() == generic_translation(input@),
                TranslateSlot::EnergyMonitor => r.deep_view()
                    == crate::item::energy_monitor::energy_translation(key@, input@),
                TranslateSlot::Car => exists|humanized: Option<Seq<char>>|
                    r.deep_view() == #[trigger] crate::item::car::car_translation(
                        key@,
                        input@,
                        humanized,
                    ) && (humanized is Some <==> crate::item::car::is_humanized(key@, input@)),
            },
    {
        match self.translate_f {
            TranslateSlot::Generic => generic_translate_value(key, input),
            TranslateSlot::EnergyMonitor => crate::item::energy_monitor::translate_value(
                key,
                input,
            ),
            TranslateSlot::Car => crate::item::car::translate_value(key, input),
        }
    }
}

} // verus!
