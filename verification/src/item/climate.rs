//! A widget for the climate in and around the house.

use vstd::prelude::*;
use crate::clock::{current_instant, elapsed_nanos};
use crate::config::SmartHomeItemInternal;
use crate::errors::{DeviceModelError, DeviceModelErrorView};
use crate::events::{SceneEventView, SceneModificationEvent, SunModification};
use crate::item::{configuration_error, configuration_failure};
use crate::json::{Json, JsonValue};
use crate::reading::{is_decimal, is_decimal_text};
use crate::table::{Table, lemma_lookup_deep, lemma_with_entry_deep, with_entry};
use crate::text::{remove_all, remove_pattern, str_equal, trim, trimmed};
use crate::widget_settings::SceneModification;

verus! {

/// The configuration of a climate widget: how illuminance maps to the energy
/// of the sun and to the colour of the world, and for each light of the
/// surroundings how illuminance maps to its energy. A mapping is a list of
/// pairs of numbers, each as decimal text.
#[derive(Debug)]
pub struct ClimateConfig {
    sun_mapping: Vec<(String, String)>,
    world_mapping: Vec<(String, String)>,
    environment: Vec<(String, Vec<(String, String)>)>,
}

/// A `ClimateConfig` over character sequences.
pub struct ClimateConfigView {
    pub sun_mapping: Seq<(Seq<char>, Seq<char>)>,
    pub world_mapping: Seq<(Seq<char>, Seq<char>)>,
    pub environment: Seq<(Seq<char>, Seq<(Seq<char>, Seq<char>)>)>,
}

impl DeepView for ClimateConfig {
    type V = ClimateConfigView;

    closed spec fn deep_view(&self) -> ClimateConfigView {
        ClimateConfigView {
            sun_mapping: self.sun_mapping.deep_view(),
            world_mapping: self.world_mapping.deep_view(),
            environment: self.environment.deep_view(),
        }
    }
}

/// The climate configuration that a document holds: an object with the
/// mappings `sunMapping` and `worldMapping` and the object `environment`,
/// whose members are all mappings.
pub open spec fn climate_config_of(doc: Json) -> Option<ClimateConfigView> {
    match (doc.member("sunMapping"@), doc.member("worldMapping"@), doc.member("environment"@)) {
        (Some(s), Some(w), Some(e)) => match (
            s.number_pairs(),
            w.number_pairs(),
            e.number_pair_entries(),
        ) {
            (Some(sun_mapping), Some(world_mapping), Some(environment)) => Some(
                ClimateConfigView { sun_mapping, world_mapping, environment },
            ),
            _ => None,
        },
        _ => None,
    }
}

impl ClimateConfig {
    /// Reads a climate configuration from a document.
    pub fn from_json(doc: &JsonValue) -> (r: Option<ClimateConfig>)
        ensures
            r.deep_view() == climate_config_of(doc@),
    {
        match (doc.member("sunMapping"), doc.member("worldMapping"), doc.member("environment")) {
            (Some(s), Some(w), Some(e)) => match (
                s.number_pairs(),
                w.number_pairs(),
                e.number_pair_entries(),
            ) {
                (Some(sun_mapping), Some(world_mapping), Some(environment)) => Some(
                    ClimateConfig { sun_mapping, world_mapping, environment },
                ),
                _ => None,
            },
            _ => None,
        }
    }
}

/// A climate widget.
#[derive(Debug)]
pub struct Climate {
    humidity: Option<String>,
    temperature: Option<String>,
    set_temperature: Option<String>,
    co2: Option<String>,
    pm10: Option<String>,
    purity: Option<String>,
    illuminance: Option<String>,
    azimuth: Option<String>,
    wind: Option<String>,
    elevation: Option<String>,
    corona: Option<String>,
    icp: Option<String>,
    energy: Option<String>,
    power: Option<String>,
    last_update: instant::Instant,
    items: Table<String>,
    config: Option<ClimateConfig>,
}

/// A `Climate` over character sequences. Each reading is a decimal reading
/// without its unit.
pub struct ClimateView {
    pub humidity: Option<Seq<char>>,
    pub temperature: Option<Seq<char>>,
    pub set_temperature: Option<Seq<char>>,
    pub co2: Option<Seq<char>>,
    pub pm10: Option<Seq<char>>,
    pub purity: Option<Seq<char>>,
    pub illuminance: Option<Seq<char>>,
    pub azimuth: Option<Seq<char>>,
    pub wind: Option<Seq<char>>,
    pub elevation: Option<Seq<char>>,
    pub corona: Option<Seq<char>>,
    pub icp: Option<Seq<char>>,
    pub energy: Option<Seq<char>>,
    pub power: Option<Seq<char>>,
    /// When the widget was last drawn anew.
    pub last_update: instant::Instant,
    /// The external item behind each key.
    pub items: Seq<(Seq<char>, Seq<char>)>,
    pub config: Option<ClimateConfigView>,
}

/// A state without the units that readings of the climate come with: degrees
/// Celsius, degrees, lux, kilometres per hour and watts; and without the
/// whitespace around what is left.
pub open spec fn without_units(state: Seq<char>) -> Seq<char> {
    trimmed(
        remove_all(
            remove_all(
                remove_all(remove_all(remove_all(state, "\u{b0}C"@), "\u{b0}"@), "lx"@),
                "km/h"@,
            ),
            "W"@,
        ),
    )
}

/// The reading that a state gives: the state without units where that is a
/// decimal reading.
pub open spec fn climate_reading(state: Seq<char>) -> Option<Seq<char>> {
    if is_decimal(without_units(state)) {
        Some(without_units(state))
    } else {
        None
    }
}

/// What a climate widget holds after an update: each known key sets its
/// reading, or clears it where the state gives none; any other key changes
/// nothing.
pub open spec fn climate_after(c: ClimateView, key: Seq<char>, new_state: Seq<char>) -> ClimateView {
    let r = climate_reading(new_state);
    if key == "humidity"@ {
        ClimateView { humidity: r, ..c }
    } else if key == "purity"@ {
        ClimateView { purity: r, ..c }
    } else if key == "co2"@ {
        ClimateView { co2: r, ..c }
    } else if key == "pm10"@ {
        ClimateView { pm10: r, ..c }
    } else if key == "temperature"@ {
        ClimateView { temperature: r, ..c }
    } else if key == "set-temperature"@ {
        ClimateView { set_temperature: r, ..c }
    } else if key == "illuminance"@ {
        ClimateView { illuminance: r, ..c }
    } else if key == "corona"@ {
        ClimateView { corona: r, ..c }
    } else if key == "icp"@ {
        ClimateView { icp: r, ..c }
    } else if key == "power"@ {
        ClimateView { power: r, ..c }
    } else if key == "energy"@ {
        ClimateView { energy: r, ..c }
    } else if key == "azimuth"@ {
        ClimateView { azimuth: r, ..c }
    } else if key == "wind"@ {
        ClimateView { wind: r, ..c }
    } else if key == "elevation"@ {
        ClimateView { elevation: r, ..c }
    } else {
        c
    }
}

/// The items by key after the first `n` of the bindings, given by external
/// item name, were taken in, one after the other.
pub open spec fn items_by_key(
    items: Seq<(Seq<char>, Seq<char>)>,
    bindings: Seq<(Seq<char>, Seq<char>)>,
    n: nat,
) -> Seq<(Seq<char>, Seq<char>)>
    decreases n,
{
    if n == 0 {
        items
    } else {
        with_entry(
            items_by_key(items, bindings, (n - 1) as nat),
            bindings[n - 1].1,
            bindings[n - 1].0,
        )
    }
}

/// The scene modifications of a climate widget: under `Sun`, once the
/// illuminance is known, the sun is set to it, with elevation and azimuth as
/// far as they are known; nothing otherwise.
pub open spec fn climate_scene(c: ClimateView, modification: SceneModification) -> Seq<
    SceneEventView,
> {
    match (c.illuminance, modification) {
        (Some(illuminance), SceneModification::Sun()) => seq![
            SceneEventView::Sun { illuminance, elevation: c.elevation, azimuth: c.azimuth },
        ],
        _ => Seq::empty(),
    }
}

/// A climate widget that knows nothing, last drawn at `now`.
pub open spec fn climate_empty(now: instant::Instant) -> ClimateView {
    ClimateView {
        humidity: None,
        temperature: None,
        set_temperature: None,
        co2: None,
        pm10: None,
        purity: None,
        illuminance: None,
        azimuth: None,
        wind: None,
        elevation: None,
        corona: None,
        icp: None,
        energy: None,
        power: None,
        last_update: now,
        items: Seq::empty(),
        config: None,
    }
}

/// The nanoseconds after which a climate widget is drawn anew: five minutes.
pub const REDRAW_AFTER_NANOS: u128 = 300_000_000_000;

impl View for Climate {
    type V = ClimateView;

    closed spec fn view(&self) -> ClimateView {
        ClimateView {
            humidity: self.humidity.deep_view(),
            temperature: self.temperature.deep_view(),
            set_temperature: self.set_temperature.deep_view(),
            co2: self.co2.deep_view(),
            pm10: self.pm10.deep_view(),
            purity: self.purity.deep_view(),
            illuminance: self.illuminance.deep_view(),
            azimuth: self.azimuth.deep_view(),
            wind: self.wind.deep_view(),
            elevation: self.elevation.deep_view(),
            corona: self.corona.deep_view(),
            icp: self.icp.deep_view(),
            energy: self.energy.deep_view(),
            power: self.power.deep_view(),
            last_update: self.last_update,
            items: self.items.deep_view(),
            config: self.config.deep_view(),
        }
    }
}

/// A copy of an optional text.
fn copy_of(t: &Option<String>) -> (r: Option<String>)
    ensures
        r.deep_view() == t.deep_view(),
{
    match t {
        Some(s) => Some(s.clone()),
        None => None,
    }
}

impl Climate {
    /// The reading that a state gives.
    pub fn parse(&self, state: &str) -> (r: Option<String>)
        ensures
            r.deep_view() == climate_reading(state@),
    {
        proof {
            reveal_strlit("\u{b0}C");
            reveal_strlit("\u{b0}");
            reveal_strlit("lx");
            reveal_strlit("km/h");
            reveal_strlit("W");
        }
        let state = remove_pattern(state, "\u{b0}C");
        let state = remove_pattern(state.as_str(), "\u{b0}");
        let state = remove_pattern(state.as_str(), "lx");
        let state = remove_pattern(state.as_str(), "km/h");
        let state = remove_pattern(state.as_str(), "W");
        let state = trim(state.as_str());
        if is_decimal_text(state.as_str()) {
            Some(state)
        } else {
            None
        }
    }

    /// A climate widget that knows nothing yet, last drawn at `now`.
    pub fn new_at(now: instant::Instant) -> (c: Climate)
        ensures
            c@ == climate_empty(now),
    {
        let c = Climate {
            humidity: None,
            temperature: None,
            set_temperature: None,
            co2: None,
            pm10: None,
            purity: None,
            illuminance: None,
            corona: None,
            icp: None,
            energy: None,
            power: None,
            azimuth: None,
            wind: None,
            elevation: None,
            last_update: now,
            items: Table::new(),
            config: None,
        };
        assert(c.items.deep_view() =~= Seq::empty());
        c
    }

    /// A climate widget that knows nothing yet, last drawn at the present
    /// moment.
    pub fn new() -> (c: Climate)
        ensures
            c@ == climate_empty(c@.last_update),
    {
        Climate::new_at(current_instant())
    }

    /// Whether the widget is to be drawn anew, given the nanoseconds that
    /// have passed since it last was and the present moment: it is after
    /// more than five minutes, and that moment is then noted.
    pub fn do_render_at(&mut self, elapsed: u128, now: instant::Instant) -> (due: bool)
        ensures
            due == (elapsed > REDRAW_AFTER_NANOS),
            final(self)@ == if due {
                ClimateView { last_update: now, ..old(self)@ }
            } else {
                old(self)@
            },
    {
        if elapsed > REDRAW_AFTER_NANOS {
            self.last_update = now;
            true
        } else {
            false
        }
    }

    /// Whether the widget is to be drawn anew: it is when it was last drawn
    /// more than five minutes ago, and the moment is then noted.
    pub fn do_render(&mut self) -> (due: bool)
        ensures
            !due ==> final(self)@ == old(self)@,
            due ==> final(self)@ == (ClimateView {
                last_update: final(self)@.last_update,
                ..old(self)@
            }),
    {
        let elapsed = elapsed_nanos(&self.last_update);
        let now = current_instant();
        self.do_render_at(elapsed, now)
    }

    /// The illuminance in lux, a decimal reading.
    pub fn illuminance(&self) -> (r: &Option<String>)
        ensures
            r.deep_view() == self@.illuminance,
    {
        &self.illuminance
    }

    /// The temperature in degrees Celsius, a decimal reading.
    pub fn temperature(&self) -> (r: &Option<String>)
        ensures
            r.deep_view() == self@.temperature,
    {
        &self.temperature
    }

    /// The relative humidity, a decimal reading.
    pub fn humidity(&self) -> (r: &Option<String>)
        ensures
            r.deep_view() == self@.humidity,
    {
        &self.humidity
    }

    /// Reads the widget's configuration. A document that holds no climate
    /// configuration is refused and changes nothing.
    pub fn set_configuration(&mut self, config: &JsonValue) -> (r: Result<(), DeviceModelError>)
        ensures
            match r {
                Ok(_) => climate_config_of(config@) is Some && final(self)@ == (ClimateView {
                    config: climate_config_of(config@),
                    ..old(self)@
                }),
                Err(e) => climate_config_of(config@) is None && final(self)@ == old(self)@ && e@
                    == DeviceModelErrorView::ConfigurationMalformed(configuration_failure()),
            },
    {
        match ClimateConfig::from_json(config) {
            Some(c) => {
                self.config = Some(c);
                Ok(())
            },
            None => Err(configuration_error()),
        }
    }

    /// Takes note of the external item behind each key.
    pub fn set_smarthome_items(&mut self, config: &Table<SmartHomeItemInternal>)
        ensures
            final(self)@ == (ClimateView {
                items: items_by_key(
                    old(self)@.items,
                    config.deep_view(),
                    config.deep_view().len(),
                ),
                ..old(self)@
            }),
    {
        let ghost bindings = config.deep_view();
        let ghost start = self@;
        let n = config.len();
        let mut i: usize = 0;
        while i < n
            invariant
                n == config.entries().len(),
                bindings == config.deep_view(),
                i <= n,
                self@ == (ClimateView { items: items_by_key(start.items, bindings, i as nat), ..start }),
            decreases n - i,
        {
            let ghost before = self.items;
            let item = config.key(i);
            let key = config.value(i).key.clone();
            proof {
                assert(bindings[i as int] == (item@, key@));
                lemma_lookup_deep(before, key@);
            }
            let name = item.clone();
            self.items.insert(key, name);
            proof {
                lemma_with_entry_deep(before, self.items, key@, name);
            }
            i += 1;
        }
    }

    /// Takes the reading under the key that names one of the fields.
    pub fn state_changed(&mut self, state_key: &str, new_state: &str)
        ensures
            final(self)@ == climate_after(old(self)@, state_key@, new_state@),
    {
        let reading = self.parse(new_state);
        if str_equal(state_key, "humidity") {
            self.humidity = reading;
        } else if str_equal(state_key, "purity") {
            self.purity = reading;
        } else if str_equal(state_key, "co2") {
            self.co2 = reading;
        } else if str_equal(state_key, "pm10") {
            self.pm10 = reading;
        } else if str_equal(state_key, "temperature") {
            self.temperature = reading;
        } else if str_equal(state_key, "set-temperature") {
            self.set_temperature = reading;
        } else if str_equal(state_key, "illuminance") {
            self.illuminance = reading;
        } else if str_equal(state_key, "corona") {
            self.corona = reading;
        } else if str_equal(state_key, "icp") {
            self.icp = reading;
        } else if str_equal(state_key, "power") {
            self.power = reading;
        } else if str_equal(state_key, "energy") {
            self.energy = reading;
        } else if str_equal(state_key, "azimuth") {
            self.azimuth = reading;
        } else if str_equal(state_key, "wind") {
            self.wind = reading;
        } else if str_equal(state_key, "elevation") {
            self.elevation = reading;
        }
    }

    /// The scene modifications that follow from the state of the climate.
    pub fn state_to_blender(&self, _blender_item: &String, modification: SceneModification) -> (r:
        Vec<SceneModificationEvent>)
        ensures
            r.deep_view() == climate_scene(self@, modification),
    {
        let mut events: Vec<SceneModificationEvent> = Vec::new();
        match (&self.illuminance, modification) {
            (Some(illuminance), SceneModification::Sun()) => {
                let event = SceneModificationEvent::SunModification(
                    SunModification {
                        illuminance: illuminance.clone(),
                        elevation: copy_of(&self.elevation),
                        azimuth: copy_of(&self.azimuth),
                    },
                );
                events.push(event);
                assert(events.deep_view() =~= seq![event.deep_view()]);
            },
            _ => {
                assert(events.deep_view() =~= Seq::<SceneEventView>::empty());
            },
        }
        events
    }
}

} // verus!
