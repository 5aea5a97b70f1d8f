//! A cleaning robot, made of the generic widget.

use vstd::prelude::*;
use crate::item::generic_item::{
    generic_new,
    ConfigSlot, GenericConfig, GenericConfigView, GenericItem, GenericItemView, SliderSlot,
    StateEntryView, SummarySlot, TranslateSlot, stored_value,
};
use crate::json::{Json, JsonValue};
use crate::text::{concatenate, owned, str_equal};

verus! {

/// The configuration of a robot: its image, the map it cleans on, and the
/// rooms and regions of that map, each as `(name, id)`.
#[derive(Debug)]
pub struct RobotConfig {
    image: String,
    pmap_id: String,
    user_pmap_id: String,
    rooms: Vec<(String, String)>,
    regions: Vec<(String, String)>,
}

/// A `RobotConfig` over character sequences.
pub struct RobotConfigView {
    pub image: Seq<char>,
    pub pmap_id: Seq<char>,
    pub user_pmap_id: Seq<char>,
    pub rooms: Seq<(Seq<char>, Seq<char>)>,
    pub regions: Seq<(Seq<char>, Seq<char>)>,
}

impl DeepView for RobotConfig {
    type V = RobotConfigView;

    closed spec fn deep_view(&self) -> RobotConfigView {
        RobotConfigView {
            image: self.image@,
            pmap_id: self.pmap_id@,
            user_pmap_id: self.user_pmap_id@,
            rooms: self.rooms.deep_view(),
            regions: self.regions.deep_view(),
        }
    }
}

/// The robot configuration that a document holds: an object with the texts
/// `image`, `pmapId` and `userPmapId` and the objects `rooms` and `regions`,
/// whose members are all texts.
pub open spec fn robot_config_of(doc: Json) -> Option<RobotConfigView> {
    match (
        doc.text_member("image"@),
        doc.text_member("pmapId"@),
        doc.text_member("userPmapId"@),
        doc.member("rooms"@),
        doc.member("regions"@),
    ) {
        (Some(image), Some(pmap_id), Some(user_pmap_id), Some(rooms), Some(regions)) => match (
            rooms.text_entries(),
            regions.text_entries(),
        ) {
            (Some(rooms), Some(regions)) => Some(
                RobotConfigView { image, pmap_id, user_pmap_id, rooms, regions },
            ),
            _ => None,
        },
        _ => None,
    }
}

impl RobotConfig {
    /// Reads a robot configuration from a document.
    pub fn from_json(doc: &JsonValue) -> (r: Option<RobotConfig>)
        ensures
            r.deep_view() == robot_config_of(doc@),
    {
        match (
            doc.text_member("image"),
            doc.text_member("pmapId"),
            doc.text_member("userPmapId"),
            doc.member("rooms"),
            doc.member("regions"),
        ) {
            (Some(image), Some(pmap_id), Some(user_pmap_id), Some(rooms), Some(regions)) => match (
                rooms.text_entries(),
                regions.text_entries(),
            ) {
                (Some(rooms), Some(regions)) => Some(
                    RobotConfig {
                        image: image.clone(),
                        pmap_id: pmap_id.clone(),
                        user_pmap_id: user_pmap_id.clone(),
                        rooms,
                        regions,
                    },
                ),
                _ => None,
            },
            _ => None,
        }
    }
}

/// Whether the place `name` is selected for cleaning: the widget's own key
/// `@select_` followed by the name says `true`.
pub open spec fn is_selected(state: Seq<(Seq<char>, StateEntryView)>, name: Seq<char>) -> bool {
    stored_value(state, "@select_"@ + name) == Some("true"@)
}

/// The places as rows of name, id and whether the place is selected.
pub open spec fn place_rows(
    state: Seq<(Seq<char>, StateEntryView)>,
    places: Seq<(Seq<char>, Seq<char>)>,
) -> Seq<Json> {
    Seq::new(
        places.len(),
        |i: int|
            Json::List(
                seq![
                    Json::Text(places[i].0),
                    Json::Text(places[i].1),
                    Json::Bool(is_selected(state, places[i].0)),
                ],
            ),
    )
}

/// The ids of the selected places among the first `n`, in order.
pub open spec fn selected_ids(
    state: Seq<(Seq<char>, StateEntryView)>,
    places: Seq<(Seq<char>, Seq<char>)>,
    n: nat,
) -> Seq<Seq<char>>
    decreases n,
{
    if n == 0 {
        Seq::empty()
    } else if is_selected(state, places[n - 1].0) {
        selected_ids(state, places, (n - 1) as nat).push(places[n - 1].1)
    } else {
        selected_ids(state, places, (n - 1) as nat)
    }
}

/// The first `n` parts, with `sep` between each two.
pub open spec fn joined(parts: Seq<Seq<char>>, sep: Seq<char>, n: nat) -> Seq<char>
    decreases n,
{
    if n == 0 {
        Seq::empty()
    } else if n == 1 {
        parts[0]
    } else {
        joined(parts, sep, (n - 1) as nat) + sep + parts[n - 1]
    }
}

/// The ids of all selected places: the rooms, then the regions.
pub open spec fn selection(v: GenericItemView, c: RobotConfigView) -> Seq<Seq<char>> {
    selected_ids(v.state, c.rooms, c.rooms.len()) + selected_ids(
        v.state,
        c.regions,
        c.regions.len(),
    )
}

/// The command that sends the robot to the selected places.
pub open spec fn clean_command(v: GenericItemView, c: RobotConfigView) -> Seq<char> {
    "cleanRegions:"@ + c.pmap_id + ";"@ + joined(selection(v, c), ","@, selection(v, c).len())
        + ";"@ + c.user_pmap_id
}

/// Whether the robot is at its dock: the key `phase` says `charge`.
pub open spec fn robot_is_home(v: GenericItemView) -> bool {
    stored_value(v.state, "phase"@) == Some("charge"@)
}

/// The summary of a robot, once it is configured: its image, whether it is at
/// its dock, the rooms and the regions with their selection, whether
/// anything is selected, and the command for cleaning the selection.
pub open spec fn robot_summary(v: GenericItemView) -> Seq<(Seq<char>, Json)> {
    match v.config {
        Some(GenericConfigView::Robot(c)) => seq![
            ("image"@, Json::Text(c.image)),
            ("is_home"@, Json::Bool(robot_is_home(v))),
            ("rooms"@, Json::List(place_rows(v.state, c.rooms))),
            ("regions"@, Json::List(place_rows(v.state, c.regions))),
            ("has_selection"@, Json::Bool(selection(v, c).len() > 0)),
            ("clean_command"@, Json::Text(clean_command(v, c))),
        ],
        _ => Seq::empty(),
    }
}

/// The slider of a robot: shown with priority 20 while a phase is known and
/// it is not `charge`.
pub open spec fn robot_slider(v: GenericItemView) -> Option<(Seq<char>, usize)> {
    match stored_value(v.state, "phase"@) {
        Some(phase) => if phase != "charge"@ {
            Some(("slider-robot"@, 20usize))
        } else {
            None
        },
        None => None,
    }
}

/// The parts with `sep` between each two.
pub fn join(parts: &Vec<String>, sep: &str) -> (r: String)
    ensures
        r@ == joined(parts.deep_view(), sep@, parts.deep_view().len()),
{
    let ghost all = parts.deep_view();
    let n = parts.len();
    let mut out = String::new();
    let mut i: usize = 0;
    while i < n
        invariant
            n == parts@.len(),
            all == parts.deep_view(),
            i <= n,
            out@ == joined(all, sep@, i as nat),
        decreases n - i,
    {
        assert(all[i as int] == parts@[i as int]@);
        if i > 0 {
            out.append(sep);
        }
        out.append(parts[i].as_str());
        proof {
            if i == 0 {
                assert(out@ =~= all[0]);
            }
        }
        i += 1;
    }
    out
}

/// The rows of the places, and the ids of the selected ones appended to
/// `selection`.
fn translate_places(
    generic_item: &GenericItem,
    places: &Vec<(String, String)>,
    selection: &mut Vec<String>,
) -> (rows: Vec<JsonValue>)
    ensures
        rows.deep_view() == place_rows(generic_item@.state, places.deep_view()),
        final(selection).deep_view() == old(selection).deep_view() + selected_ids(
            generic_item@.state,
            places.deep_view(),
            places.deep_view().len(),
        ),
{
    let ghost state = generic_item@.state;
    let ghost all = places.deep_view();
    let ghost start = selection.deep_view();
    let n = places.len();
    let mut rows: Vec<JsonValue> = Vec::new();
    let mut i: usize = 0;
    proof {
        assert(start + selected_ids(state, all, 0) =~= start);
    }
    while i < n
        invariant
            n == places@.len(),
            all == places.deep_view(),
            state == generic_item@.state,
            i <= n,
            rows@.len() == i,
            forall|k: int| 0 <= k < i ==> (#[trigger] rows@[k])@ == place_rows(state, all)[k],
            selection.deep_view() == start + selected_ids(state, all, i as nat),
        decreases n - i,
    {
        assert(all[i as int] == (places@[i as int].0@, places@[i as int].1@));
        let name = &places[i].0;
        let id = &places[i].1;
        let key = concatenate("@select_", name.as_str());
        let selected = match generic_item.value(key.as_str()) {
            Some(s) => str_equal(s.as_str(), "true"),
            None => false,
        };
        if selected {
            let ghost before = selection.deep_view();
            selection.push(id.clone());
            proof {
                assert(selection.deep_view() =~= before.push(id@));
                assert(before.push(id@) =~= start + selected_ids(state, all, i as nat).push(id@));
            }
        }
        let mut cells: Vec<JsonValue> = Vec::new();
        cells.push(JsonValue::Text(name.clone()));
        cells.push(JsonValue::Text(id.clone()));
        cells.push(JsonValue::Bool(selected));
        let row = JsonValue::List(cells);
        proof {
            crate::json::lemma_list_view(row);
            assert(row@->List_0 =~= seq![
                Json::Text(name@),
                Json::Text(id@),
                Json::Bool(selected),
            ]);
        }
        rows.push(row);
        i += 1;
    }
    assert(rows.deep_view() =~= place_rows(state, all));
    rows
}

/// The summary of a robot.
pub fn init_map(generic_item: &GenericItem) -> (map: Vec<(String, JsonValue)>)
    ensures
        map.deep_view() == robot_summary(generic_item@),
{
    let is_home = match generic_item.value("phase") {
        Some(state) => str_equal(state.as_str(), "charge"),
        None => false,
    };
    let mut map: Vec<(String, JsonValue)> = Vec::new();
    match generic_item.config() {
        Some(GenericConfig::Robot(config)) => {
            let ghost v = generic_item@;
            let ghost c = config.deep_view();
            let mut selection: Vec<String> = Vec::new();
            assert(selection.deep_view() =~= Seq::<Seq<char>>::empty());
            let rooms = translate_places(generic_item, &config.rooms, &mut selection);
            let regions = translate_places(generic_item, &config.regions, &mut selection);
            assert(selection.deep_view() =~= crate::item::robot::selection(v, c));
            let has_selection = selection.len() > 0;
            let command_string = join(&selection, ",");
            let head = concatenate("cleanRegions:", config.pmap_id.as_str());
            let head = concatenate(head.as_str(), ";");
            let head = concatenate(head.as_str(), command_string.as_str());
            let head = concatenate(head.as_str(), ";");
            let clean = concatenate(head.as_str(), config.user_pmap_id.as_str());
            assert(clean@ =~= clean_command(v, c));
            let rooms = JsonValue::List(rooms);
            let regions = JsonValue::List(regions);
            proof {
                crate::json::lemma_list_view(rooms);
                crate::json::lemma_list_view(regions);
                assert(rooms@->List_0 =~= place_rows(v.state, c.rooms));
                assert(regions@->List_0 =~= place_rows(v.state, c.regions));
            }
            map.push((owned("image"), JsonValue::Text(config.image.clone())));
            map.push((owned("is_home"), JsonValue::Bool(is_home)));
            map.push((owned("rooms"), rooms));
            map.push((owned("regions"), regions));
            map.push((owned("has_selection"), JsonValue::Bool(has_selection)));
            map.push((owned("clean_command"), JsonValue::Text(clean)));
            assert(map.deep_view() =~= robot_summary(v));
        },
        _ => {
            assert(map.deep_view() =~= robot_summary(generic_item@));
        },
    }
    map
}

/// The slider of a robot.
pub fn render_slider(generic_item: &GenericItem) -> (r: Option<(String, usize)>)
    ensures
        r.deep_view() == robot_slider(generic_item@),
{
    match generic_item.value("phase") {
        Some(state) => {
            if !str_equal(state.as_str(), "charge") {
                Some((owned("slider-robot"), 20))
            } else {
                None
            }
        },
        None => None,
    }
}

/// A robot widget.
pub fn new() -> (d: GenericItem)
    ensures
        d@ == generic_new(
            ConfigSlot::Robot,
            TranslateSlot::Generic,
            SummarySlot::Robot,
            SliderSlot::Robot,
            None,
        ),
{
    GenericItem::with_custom_functions(
        ConfigSlot::Robot,
        TranslateSlot::Generic,
        SummarySlot::Robot,
        SliderSlot::Robot,
    )
}

} // verus!
