//! A car, made of the generic widget.

use vstd::prelude::*;
use crate::item::generic_item::{
    generic_new,
    ConfigSlot, DisplayValue, DisplayValueView, GenericConfig, GenericConfigView, GenericItem,
    GenericItemView, SliderSlot, SummarySlot, TranslateSlot, generic_translate_value,
    generic_translation,
};
use crate::json::{Json, JsonValue};
use crate::reading::{is_decimal, is_decimal_text};
use crate::text::{owned, remove_all, remove_pattern, str_equal};

verus! {

/// The configuration of a car widget: the image to show.
#[derive(Debug)]
pub struct CarConfig {
    pub image: String,
}

/// A `CarConfig` over character sequences.
pub struct CarConfigView {
    pub image: Seq<char>,
}

impl DeepView for CarConfig {
    type V = CarConfigView;

    open spec fn deep_view(&self) -> CarConfigView {
        CarConfigView { image: self.image@ }
    }
}

/// The car configuration that a document holds: an object with the text
/// `image`.
pub open spec fn car_config_of(doc: Json) -> Option<CarConfigView> {
    match doc.text_member("image"@) {
        Some(image) => Some(CarConfigView { image }),
        None => None,
    }
}

impl CarConfig {
    /// Reads a car configuration from a document.
    pub fn from_json(doc: &JsonValue) -> (r: Option<CarConfig>)
        ensures
            r.deep_view() == car_config_of(doc@),
    {
        match doc.text_member("image") {
            Some(image) => Some(CarConfig { image: image.clone() }),
            None => None,
        }
    }
}

/// How a car shows a raw state. The odometer comes in metres, as a decimal
/// reading followed by ` m`, and is shown in kilometres; the time of the last
/// event is shown as the time that has passed since, `humanized`, where it
/// could be told; an odometer or a time that cannot be read is shown as it
/// is, and so is every other state by the default rule.
pub open spec fn car_translation(
    key: Seq<char>,
    input: Seq<char>,
    humanized: Option<Seq<char>>,
) -> DisplayValueView {
    if key == "odometer"@ {
        if is_decimal(remove_all(input, " m"@)) {
            DisplayValueView::Kilometres(remove_all(input, " m"@))
        } else {
            DisplayValueView::Text(input)
        }
    } else if key == "eventstamp"@ {
        match humanized {
            Some(h) => DisplayValueView::Text(h),
            None => DisplayValueView::Text(input),
        }
    } else {
        generic_translation(input)
    }
}

/// Whether chrono reads `stamp` as a moment: whether `str::parse` at
/// chrono's `DateTime<Utc>` succeeds on it.
pub uninterp spec fn reads_as_moment(stamp: Seq<char>) -> bool;

/// `str::parse` at chrono's `DateTime<Utc>`, then chrono_humanize's
/// `HumanTime::to_text_en` on the time from that moment to now: a rough
/// English phrase for the time passed since `stamp`, and nothing exactly
/// where chrono does not read `stamp` as a moment. The phrase depends on the
/// present moment; nothing is claimed of it.
#[verifier::external_body]
fn humanize_since(stamp: &str) -> (r: Option<String>)
    ensures
        r is Some <==> reads_as_moment(stamp@),
{
    let then = stamp.parse::<chrono::DateTime<chrono::Utc>>().ok()?;
    let passed = chrono::Utc::now() - then;
    Some(
        chrono_humanize::HumanTime::from(passed).to_text_en(
            chrono_humanize::Accuracy::Rough,
            chrono_humanize::Tense::Past,
        ),
    )
}

/// Shows a raw state of a car, given the phrase for the time passed since the
/// state where the state is a moment.
pub fn translated(key: &str, input: &str, humanized: Option<String>) -> (r: DisplayValue)
    ensures
        r.deep_view() == car_translation(key@, input@, humanized.deep_view()),
{
    if str_equal(key, "odometer") {
        proof {
            reveal_strlit(" m");
        }
        let metres = remove_pattern(input, " m");
        if is_decimal_text(metres.as_str()) {
            DisplayValue::Kilometres(metres)
        } else {
            DisplayValue::Text(owned(input))
        }
    } else if str_equal(key, "eventstamp") {
        match humanized {
            Some(h) => DisplayValue::Text(h),
            None => DisplayValue::Text(owned(input)),
        }
    } else {
        generic_translate_value(key, input)
    }
}

/// Whether a phrase for the time passed is made for a state: it is for a
/// state under the key `eventstamp` that chrono reads as a moment.
pub open spec fn is_humanized(key: Seq<char>, input: Seq<char>) -> bool {
    key == "eventstamp"@ && reads_as_moment(input)
}

/// Shows a raw state of a car. The time of the last event is shown as a
/// phrase for the time passed since, which depends on the present moment; a
/// time that chrono does not read is shown as it is.
pub fn translate_value(key: &str, input: &str) -> (r: DisplayValue)
    ensures
        exists|humanized: Option<Seq<char>>|
            r.deep_view() == #[trigger] car_translation(key@, input@, humanized) && (humanized
                is Some <==> is_humanized(key@, input@)),
        !is_humanized(key@, input@) ==> r.deep_view() == car_translation(key@, input@, None),
{
    let humanized = if str_equal(key, "eventstamp") {
        humanize_since(input)
    } else {
        None
    };
    let r = translated(key, input, humanized);
    assert(r.deep_view() == car_translation(key@, input@, humanized.deep_view()));
    r
}

/// The summary of a car: its image, once it is configured.
pub open spec fn car_summary(v: GenericItemView) -> Seq<(Seq<char>, Json)> {
    match v.config {
        Some(GenericConfigView::Car(c)) => seq![("image"@, Json::Text(c.image))],
        _ => Seq::empty(),
    }
}

/// The slider of a car: always shown, with priority 10.
pub open spec fn car_slider() -> Option<(Seq<char>, usize)> {
    Some(("slider-car"@, 10usize))
}

/// The summary of a car.
pub fn init_map(generic_item: &GenericItem) -> (map: Vec<(String, JsonValue)>)
    ensures
        map.deep_view() == car_summary(generic_item@),
{
    let mut map: Vec<(String, JsonValue)> = Vec::new();
    match generic_item.config() {
        Some(GenericConfig::Car(config)) => {
            map.push((owned("image"), JsonValue::Text(config.image.clone())));
            assert(map.deep_view() =~= car_summary(generic_item@));
        },
        _ => {
            assert(map.deep_view() =~= car_summary(generic_item@));
        },
    }
    map
}

/// The slider of a car.
pub fn render_slider(_generic_item: &GenericItem) -> (r: Option<(String, usize)>)
    ensures
        r.deep_view() == car_slider(),
{
    Some((owned("slider-car"), 10))
}

/// A car widget.
pub fn new() -> (d: GenericItem)
    ensures
        d@ == generic_new(
            ConfigSlot::Car,
            TranslateSlot::Car,
            SummarySlot::Car,
            SliderSlot::Car,
            None,
        ),
{
    GenericItem::with_custom_functions(
        ConfigSlot::Car,
        TranslateSlot::Car,
        SummarySlot::Car,
        SliderSlot::Car,
    )
}

} // verus!
