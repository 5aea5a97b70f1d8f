//! An energy monitor, made of the generic widget.
//!
//! The monitor keeps the readings and says how each is to be shown. Sums of
//! readings, and the slider that depends on one, are arithmetic on decimal
//! readings and are not made here.

use vstd::prelude::*;
use crate::item::generic_item::{
    generic_new,
    ConfigSlot, DisplayValue, DisplayValueView, GenericItem, SliderSlot, SummarySlot,
    TranslateSlot, generic_translate_value, generic_translation,
};
use crate::json::{Json, JsonValue};
use crate::reading::{is_decimal, is_decimal_text};
use crate::text::{ends_with, has_suffix, owned};

verus! {

/// How many of the highest power meters are shown.
pub const NUM_HIGHEST: usize = 3;

/// The voltage by which a current is turned into a power.
pub const DEFAULT_VOLTAGE: usize = 230;

/// A power meter: the key of its reading, its label, and the unit of the
/// reading where it is not watts.
#[derive(Debug)]
pub struct PowerMeter {
    pub name: String,
    pub label: String,
    pub unit: Option<String>,
}

/// A `PowerMeter` over character sequences.
pub struct PowerMeterView {
    pub name: Seq<char>,
    pub label: Seq<char>,
    pub unit: Option<Seq<char>>,
}

impl DeepView for PowerMeter {
    type V = PowerMeterView;

    open spec fn deep_view(&self) -> PowerMeterView {
        PowerMeterView { name: self.name@, label: self.label@, unit: self.unit.deep_view() }
    }
}

/// The power meter that a document holds: an object with the texts `name`
/// and `label` and, if it has a `unit` that is not null, a text there.
pub open spec fn power_meter_of(doc: Json) -> Option<PowerMeterView> {
    match (doc.text_member("name"@), doc.text_member("label"@), doc.optional_text_member("unit"@)) {
        (Some(name), Some(label), Some(unit)) => Some(PowerMeterView { name, label, unit }),
        _ => None,
    }
}

impl PowerMeter {
    /// Reads a power meter from a document.
    pub fn from_json(doc: &JsonValue) -> (r: Option<PowerMeter>)
        ensures
            r.deep_view() == power_meter_of(doc@),
    {
        match (doc.text_member("name"), doc.text_member("label"), doc.optional_text_member("unit")) {
            (Some(name), Some(label), Some(unit)) => Some(
                PowerMeter { name: name.clone(), label: label.clone(), unit },
            ),
            _ => None,
        }
    }
}

/// The configuration of an energy monitor: its power meters.
#[derive(Debug)]
pub struct EnergyMonitorConfig {
    pub power_meters: Vec<PowerMeter>,
}

/// An `EnergyMonitorConfig` over character sequences.
pub struct EnergyMonitorConfigView {
    pub power_meters: Seq<PowerMeterView>,
}

impl DeepView for EnergyMonitorConfig {
    type V = EnergyMonitorConfigView;

    open spec fn deep_view(&self) -> EnergyMonitorConfigView {
        EnergyMonitorConfigView { power_meters: self.power_meters.deep_view() }
    }
}

/// The energy monitor configuration that a document holds: an object whose
/// member `powerMeters` is a list of power meters.
pub open spec fn energy_monitor_config_of(doc: Json) -> Option<EnergyMonitorConfigView> {
    match doc.member("powerMeters"@) {
        Some(Json::List(items)) => if forall|i: int|
            0 <= i < items.len() ==> power_meter_of(#[trigger] items[i]) is Some {
            Some(
                EnergyMonitorConfigView {
                    power_meters: Seq::new(items.len(), |i: int| power_meter_of(items[i]).unwrap()),
                },
            )
        } else {
            None
        },
        _ => None,
    }
}

impl EnergyMonitorConfig {
    /// Reads an energy monitor configuration from a document.
    pub fn from_json(doc: &JsonValue) -> (r: Option<EnergyMonitorConfig>)
        ensures
            r.deep_view() == energy_monitor_config_of(doc@),
    {
        let member = match doc.member("powerMeters") {
            Some(m) => m,
            None => {
                return None;
            },
        };
        match member.as_list() {
            None => None,
            Some(items) => {
                let ghost list = items.deep_view();
                let n = items.len();
                let mut meters: Vec<PowerMeter> = Vec::new();
                let mut i: usize = 0;
                while i < n
                    invariant
                        n == items@.len(),
                        list == items.deep_view(),
                        doc@.member("powerMeters"@) == Some(Json::List(list)),
                        i <= n,
                        meters@.len() == i,
                        forall|k: int|
                            0 <= k < i ==> power_meter_of(list[k]) == Some(
                                #[trigger] meters@[k].deep_view(),
                            ),
                    decreases n - i,
                {
                    assert(list[i as int] == items@[i as int]@);
                    match PowerMeter::from_json(&items[i]) {
                        Some(meter) => {
                            meters.push(meter);
                        },
                        None => {
                            assert(power_meter_of(list[i as int]) is None);
                            return None;
                        },
                    }
                    i += 1;
                }
                proof {
                    assert forall|k: int| 0 <= k < list.len() implies power_meter_of(
                        #[trigger] list[k],
                    ) is Some by {
                        assert(power_meter_of(list[k]) == Some(meters@[k].deep_view()));
                    }
                    assert(meters.deep_view() =~= Seq::new(
                        list.len(),
                        |k: int| power_meter_of(list[k]).unwrap(),
                    )) by {
                        assert forall|k: int| 0 <= k < list.len() implies #[trigger] meters.deep_view()[k]
                            == power_meter_of(list[k]).unwrap() by {
                            assert(power_meter_of(list[k]) == Some(meters@[k].deep_view()));
                        }
                    }
                }
                Some(EnergyMonitorConfig { power_meters: meters })
            },
        }
    }
}

/// How an energy monitor shows a raw state: a decimal reading with two
/// digits behind the point under a key that ends in `strom`, with one digit
/// under any other key; anything else by the default rule.
pub open spec fn energy_translation(key: Seq<char>, input: Seq<char>) -> DisplayValueView {
    if is_decimal(input) {
        DisplayValueView::Fixed(
            input,
            if has_suffix(key, "strom"@) {
                2u8
            } else {
                1u8
            },
        )
    } else {
        generic_translation(input)
    }
}

/// Shows a raw state of an energy monitor.
pub fn translate_value(key: &str, input: &str) -> (r: DisplayValue)
    ensures
        r.deep_view() == energy_translation(key@, input@),
{
    if is_decimal_text(input) {
        if ends_with(key, "strom") {
            DisplayValue::Fixed(owned(input), 2)
        } else {
            DisplayValue::Fixed(owned(input), 1)
        }
    } else {
        generic_translate_value(key, input)
    }
}

/// An energy monitor widget.
pub fn new() -> (d: GenericItem)
    ensures
        d@ == generic_new(
            ConfigSlot::EnergyMonitor,
            TranslateSlot::EnergyMonitor,
            SummarySlot::Generic,
            SliderSlot::Generic,
            None,
        ),
{
    GenericItem::with_custom_functions(
        ConfigSlot::EnergyMonitor,
        TranslateSlot::EnergyMonitor,
        SummarySlot::Generic,
        SliderSlot::Generic,
    )
}

} // verus!
