//! Widgets: what every widget kind can do, and the kinds that keep plain
//! values.

use vstd::prelude::*;
use crate::clock::current_instant;
use crate::config::SmartHomeItemInternal;
use crate::errors::{DeviceModelError, DeviceModelErrorView};
use crate::events::{SceneEventView, SceneModificationEvent};
use crate::item::climate::{Climate, ClimateView, climate_after, climate_config_of, climate_scene, items_by_key};
use crate::item::color::{Color, ColorView, color_after, color_button, color_lit, color_scene};
use crate::item::dimmer::{Dimmer, DimmerView, dimmer_after, dimmer_button, dimmer_scene};
use crate::item::dimmer_group::{DimmerGroup, DimmerGroupView, dimmer_group_after, dimmer_group_scene};
use crate::item::generic_item::{
    GenericItem, GenericItemView, generic_config_of, items_with, notification_of, slider_of,
    store_after, store_initial,
};
use crate::item::switch::{
    Switch, SwitchView, lit_notification, switch_after, switch_button, switch_config_of,
    switch_configured, switch_scene,
};
use crate::json::{Json, JsonValue};
use crate::plot::PlotType;
use crate::reading::{is_decimal, is_decimal_text, parse_u32, unsigned_number};
use crate::table::Table;
use crate::text::{owned, split, split_on, str_equal};
use crate::ui::{SimpleButton, SimpleButtonView};
use crate::widget_settings::SceneModification;

pub mod car;
pub mod climate;
pub mod color;
pub mod contact;
pub mod dimmer;
pub mod dimmer_group;
pub mod energy_monitor;
pub mod generic_item;
pub mod laundry;
pub mod light_auto;
pub mod robot;
pub mod switch;

verus! {

/// An alert that a widget raises for summary surfaces.
#[derive(Debug, PartialEq)]
pub struct NotificationStatus {
    /// Any colour name; it is handed on as it is.
    pub color: String,
    /// 0 means nothing; a higher number is more urgent.
    pub priority: u8,
    /// Number of notifications of this kind.
    pub num: u32,
}

/// A `NotificationStatus` over character sequences.
pub struct NotificationView {
    pub color: Seq<char>,
    pub priority: u8,
    pub num: u32,
}

impl DeepView for NotificationStatus {
    type V = NotificationView;

    open spec fn deep_view(&self) -> NotificationView {
        NotificationView { color: self.color@, priority: self.priority, num: self.num }
    }
}

/// The message of the failure to read a widget's own configuration.
pub open spec fn configuration_failure() -> Seq<char> {
    "Failed to parse config for item"@
}

/// The failure to read a widget's own configuration.
pub fn configuration_error() -> (e: DeviceModelError)
    ensures
        e@ == DeviceModelErrorView::ConfigurationMalformed(configuration_failure()),
{
    DeviceModelError::ConfigurationMalformed(owned("Failed to parse config for item"))
}

/// A widget for a numeric item: it keeps the latest reading.
#[derive(Debug)]
pub struct Number {
    value: String,
}

/// What a `Number` holds after an update: the first space-separated token of
/// the new state where that is a decimal reading, else what it held.
pub open spec fn number_after(value: Seq<char>, new_state: Seq<char>) -> Seq<char> {
    let token = split_on(new_state, ' ')[0];
    if is_decimal(token) {
        token
    } else {
        value
    }
}

impl View for Number {
    type V = Seq<char>;

    closed spec fn view(&self) -> Seq<char> {
        self.value@
    }
}

impl Number {
    /// A number widget that holds `0`.
    pub fn new() -> (n: Number)
        ensures
            n@ == "0"@,
    {
        Number { value: owned("0") }
    }

    /// The latest reading, as decimal text.
    pub fn value(&self) -> (v: &String)
        ensures
            v@ == self@,
    {
        &self.value
    }

    /// Takes the number at the start of `new_state`, which may be followed by
    /// a space and a unit. A state that starts with no number is ignored.
    pub fn state_changed(&mut self, _key: &str, new_state: &str)
        ensures
            final(self)@ == number_after(old(self)@, new_state@),
    {
        let tokens = split(new_state, ' ');
        proof {
            crate::text::lemma_split_on_not_empty(new_state@, ' ');
            assert(tokens.deep_view().len() == tokens@.len());
            assert(tokens.deep_view()[0] == tokens@[0]@);
        }
        if is_decimal_text(tokens[0]) {
            self.value = owned(tokens[0]);
        }
    }
}

/// A widget that shows the text of an item.
#[derive(Debug)]
pub struct Text {
    value: Option<String>,
}

impl View for Text {
    type V = Option<Seq<char>>;

    closed spec fn view(&self) -> Option<Seq<char>> {
        self.value.deep_view()
    }
}

impl Text {
    /// A text widget that holds nothing yet.
    pub fn new() -> (t: Text)
        ensures
            t@ is None,
    {
        Text { value: None }
    }

    /// The text that the widget holds.
    pub fn value(&self) -> (v: &Option<String>)
        ensures
            v.deep_view() == self@,
    {
        &self.value
    }

    /// Takes the new state as the text, whatever the key.
    pub fn state_changed(&mut self, _key: &str, new_state: &str)
        ensures
            final(self)@ == Some(new_state@),
    {
        self.value = Some(owned(new_state));
    }
}

/// A widget that shows the next calendar entry.
#[derive(Debug)]
pub struct Calendar {
    event: Option<String>,
    time: Option<String>,
}

/// A `Calendar` over character sequences.
pub struct CalendarView {
    pub event: Option<Seq<char>>,
    pub time: Option<Seq<char>>,
}

/// What a calendar holds after an update: the keys `event` and `time` set
/// their field, any other key changes nothing.
pub open spec fn calendar_after(c: CalendarView, key: Seq<char>, new_state: Seq<char>) -> CalendarView {
    if key == "event"@ {
        CalendarView { event: Some(new_state), ..c }
    } else if key == "time"@ {
        CalendarView { time: Some(new_state), ..c }
    } else {
        c
    }
}

/// A calendar that holds nothing.
pub open spec fn calendar_new() -> CalendarView {
    CalendarView { event: None, time: None }
}

impl View for Calendar {
    type V = CalendarView;

    closed spec fn view(&self) -> CalendarView {
        CalendarView { event: self.event.deep_view(), time: self.time.deep_view() }
    }
}

impl Calendar {
    /// A calendar widget that holds nothing yet.
    pub fn new() -> (c: Calendar)
        ensures
            c@ == calendar_new(),
    {
        Calendar { event: None, time: None }
    }

    /// What the next entry is about.
    pub fn event(&self) -> (v: &Option<String>)
        ensures
            v.deep_view() == self@.event,
    {
        &self.event
    }

    /// When the next entry starts.
    pub fn time(&self) -> (v: &Option<String>)
        ensures
            v.deep_view() == self@.time,
    {
        &self.time
    }

    /// Takes the new state under the keys `event` and `time`.
    pub fn state_changed(&mut self, state_key: &str, new_state: &str)
        ensures
            final(self)@ == calendar_after(old(self)@, state_key@, new_state@),
    {
        if str_equal(state_key, "event") {
            self.event = Some(owned(new_state));
        } else if str_equal(state_key, "time") {
            self.time = Some(owned(new_state));
        }
    }
}

/// The configuration of a music widget.
#[derive(Debug)]
pub struct MusicConfig {
    /// The players, each as a row of two texts.
    devices: Vec<Vec<String>>,
    /// The player that this widget stands for.
    id: String,
    /// The radio stations, each as a row of two texts.
    radios: Vec<Vec<String>>,
    /// The playlists, each as a row of two texts.
    playlists: Vec<Vec<String>>,
}

/// A `MusicConfig` over character sequences.
pub struct MusicConfigView {
    pub devices: Seq<Seq<Seq<char>>>,
    pub id: Seq<char>,
    pub radios: Seq<Seq<Seq<char>>>,
    pub playlists: Seq<Seq<Seq<char>>>,
}

/// The music configuration that a document holds: an object with the text
/// `id` and the lists `devices`, `radios` and `playlists`, each a list of
/// rows of two texts.
pub open spec fn music_config_of(doc: Json) -> Option<MusicConfigView> {
    match (doc.member("devices"@), doc.text_member("id"@), doc.member("radios"@), doc.member(
        "playlists"@,
    )) {
        (Some(d), Some(id), Some(r), Some(p)) => match (
            d.text_rows(2),
            r.text_rows(2),
            p.text_rows(2),
        ) {
            (Some(devices), Some(radios), Some(playlists)) => Some(
                MusicConfigView { devices, id, radios, playlists },
            ),
            _ => None,
        },
        _ => None,
    }
}

impl DeepView for MusicConfig {
    type V = MusicConfigView;

    closed spec fn deep_view(&self) -> MusicConfigView {
        MusicConfigView {
            devices: self.devices.deep_view(),
            id: self.id@,
            radios: self.radios.deep_view(),
            playlists: self.playlists.deep_view(),
        }
    }
}

impl MusicConfig {
    /// Reads a music configuration from a document.
    pub fn from_json(doc: &JsonValue) -> (r: Option<MusicConfig>)
        ensures
            r.deep_view() == music_config_of(doc@),
    {
        match (doc.member("devices"), doc.text_member("id"), doc.member("radios"), doc.member(
            "playlists",
        )) {
            (Some(d), Some(id), Some(r), Some(p)) => match (
                d.text_rows(2),
                r.text_rows(2),
                p.text_rows(2),
            ) {
                (Some(devices), Some(radios), Some(playlists)) => Some(
                    MusicConfig { devices, id: id.clone(), radios, playlists },
                ),
                _ => None,
            },
            _ => None,
        }
    }

    /// The player that the widget stands for.
    pub fn id(&self) -> (v: &String)
        ensures
            v@ == self.deep_view().id,
    {
        &self.id
    }
}

/// A widget for a music player.
#[derive(Debug)]
pub struct Music {
    config: Option<MusicConfig>,
    controller: Option<String>,
    state: Option<String>,
    artist: Option<String>,
    title: Option<String>,
    track: Option<String>,
    image: Option<String>,
    zonename: Option<String>,
    zonegroupid: Option<String>,
    coordinator: Option<String>,
    volume: Option<u32>,
}

/// A `Music` over character sequences.
pub struct MusicView {
    pub config: Option<MusicConfigView>,
    pub controller: Option<Seq<char>>,
    pub state: Option<Seq<char>>,
    pub artist: Option<Seq<char>>,
    pub title: Option<Seq<char>>,
    pub track: Option<Seq<char>>,
    pub image: Option<Seq<char>>,
    pub zonename: Option<Seq<char>>,
    pub zonegroupid: Option<Seq<char>>,
    pub coordinator: Option<Seq<char>>,
    pub volume: Option<u32>,
}

/// A state as a music widget keeps it: nothing for the empty text.
pub open spec fn music_value(state: Seq<char>) -> Option<Seq<char>> {
    if state.len() > 0 {
        Some(state)
    } else {
        None
    }
}

/// The volume that a state gives: a whole number that fits 32 bits.
pub open spec fn music_volume(state: Seq<char>) -> Option<u32> {
    match unsigned_number(state, u32::MAX as nat) {
        Some(v) => Some(v as u32),
        None => None,
    }
}

/// What a music widget holds after an update: each known key sets its field,
/// any other key changes nothing.
pub open spec fn music_after(m: MusicView, key: Seq<char>, new_state: Seq<char>) -> MusicView {
    if key == "artist"@ {
        MusicView { artist: music_value(new_state), ..m }
    } else if key == "title"@ {
        MusicView { title: music_value(new_state), ..m }
    } else if key == "track"@ {
        MusicView { track: music_value(new_state), ..m }
    } else if key == "image"@ {
        MusicView { image: music_value(new_state), ..m }
    } else if key == "state"@ {
        MusicView { state: music_value(new_state), ..m }
    } else if key == "zonename"@ {
        MusicView { zonename: music_value(new_state), ..m }
    } else if key == "zonegroupid"@ {
        MusicView { zonegroupid: music_value(new_state), ..m }
    } else if key == "coordinator"@ {
        MusicView { coordinator: music_value(new_state), ..m }
    } else if key == "volume"@ {
        MusicView { volume: music_volume(new_state), ..m }
    } else if key == "controller"@ {
        MusicView { controller: music_value(new_state), ..m }
    } else {
        m
    }
}

/// Whether the player plays on its own: it is its own coordinator, or
/// neither a configuration nor a coordinator is known.
pub open spec fn music_is_standalone(m: MusicView) -> bool {
    match (m.config, m.coordinator) {
        (Some(c), Some(k)) => c.id == k,
        (None, None) => true,
        _ => false,
    }
}

/// Whether the player is silent: no state is known, or it is `STOPPED` or
/// `PAUSED_PLAYBACK`.
pub open spec fn music_is_stopped(m: MusicView) -> bool {
    match m.state {
        None => true,
        Some(s) => s == "STOPPED"@ || s == "PAUSED_PLAYBACK"@,
    }
}

/// The slider of a music widget: shown with priority 100 while a standalone
/// player plays something that has a cover image.
pub open spec fn music_slider(m: MusicView) -> Option<(Seq<char>, usize)> {
    if music_is_standalone(m) && !music_is_stopped(m) && m.image is Some {
        Some(("slider-music"@, 100usize))
    } else {
        None
    }
}

/// A music widget that knows nothing.
pub open spec fn music_new() -> MusicView {
    MusicView {
        config: None,
        controller: None,
        state: None,
        artist: None,
        title: None,
        track: None,
        image: None,
        zonename: None,
        zonegroupid: None,
        coordinator: None,
        volume: None,
    }
}

impl View for Music {
    type V = MusicView;

    closed spec fn view(&self) -> MusicView {
        MusicView {
            config: self.config.deep_view(),
            controller: self.controller.deep_view(),
            state: self.state.deep_view(),
            artist: self.artist.deep_view(),
            title: self.title.deep_view(),
            track: self.track.deep_view(),
            image: self.image.deep_view(),
            zonename: self.zonename.deep_view(),
            zonegroupid: self.zonegroupid.deep_view(),
            coordinator: self.coordinator.deep_view(),
            volume: self.volume,
        }
    }
}

impl Music {
    /// A state as the widget keeps it: nothing for the empty text.
    pub fn parse(&self, state: &str) -> (r: Option<String>)
        ensures
            r.deep_view() == music_value(state@),
    {
        if !state.is_empty() {
            Some(owned(state))
        } else {
            None
        }
    }

    /// A music widget that knows nothing yet.
    pub fn new() -> (m: Music)
        ensures
            m@ == music_new(),
    {
        Music {
            config: None,
            controller: None,
            artist: None,
            title: None,
            state: None,
            image: None,
            zonename: None,
            zonegroupid: None,
            coordinator: None,
            track: None,
            volume: None,
        }
    }

    /// Whether the player plays on its own.
    pub fn is_standalone(&self) -> (b: bool)
        ensures
            b == music_is_standalone(self@),
    {
        match (&self.config, &self.coordinator) {
            (Some(c), Some(k)) => str_equal(c.id.as_str(), k.as_str()),
            (None, None) => true,
            _ => false,
        }
    }

    /// Whether the player is silent.
    pub fn is_stopped(&self) -> (b: bool)
        ensures
            b == music_is_stopped(self@),
    {
        match &self.state {
            None => true,
            Some(state) => str_equal(state.as_str(), "STOPPED") || str_equal(
                state.as_str(),
                "PAUSED_PLAYBACK",
            ),
        }
    }

    /// Reads the widget's configuration. A document that holds no music
    /// configuration is refused and changes nothing.
    pub fn set_configuration(&mut self, config: &JsonValue) -> (r: Result<(), DeviceModelError>)
        ensures
            match r {
                Ok(_) => music_config_of(config@) is Some && final(self)@ == (MusicView {
                    config: music_config_of(config@),
                    ..old(self)@
                }),
                Err(e) => music_config_of(config@) is None && final(self)@ == old(self)@ && e@
                    == DeviceModelErrorView::ConfigurationMalformed(configuration_failure()),
            },
    {
        match MusicConfig::from_json(config) {
            Some(c) => {
                self.config = Some(c);
                Ok(())
            },
            None => Err(configuration_error()),
        }
    }

    /// Takes the new state under the key that names one of the fields.
    pub fn state_changed(&mut self, state_key: &str, new_state: &str)
        ensures
            final(self)@ == music_after(old(self)@, state_key@, new_state@),
    {
        if str_equal(state_key, "artist") {
            self.artist = self.parse(new_state);
        } else if str_equal(state_key, "title") {
            self.title = self.parse(new_state);
        } else if str_equal(state_key, "track") {
            self.track = self.parse(new_state);
        } else if str_equal(state_key, "image") {
            self.image = self.parse(new_state);
        } else if str_equal(state_key, "state") {
            self.state = self.parse(new_state);
        } else if str_equal(state_key, "zonename") {
            self.zonename = self.parse(new_state);
        } else if str_equal(state_key, "zonegroupid") {
            self.zonegroupid = self.parse(new_state);
        } else if str_equal(state_key, "coordinator") {
            self.coordinator = self.parse(new_state);
        } else if str_equal(state_key, "volume") {
            self.volume = parse_u32(new_state);
        } else if str_equal(state_key, "controller") {
            self.controller = self.parse(new_state);
        }
    }

    /// The slider that the widget contributes, with its priority.
    pub fn render_slider(&self) -> (r: Option<(String, usize)>)
        ensures
            r.deep_view() == music_slider(self@),
    {
        if self.is_standalone() && !self.is_stopped() && self.image.is_some() {
            Some((owned("slider-music"), 100))
        } else {
            None
        }
    }
}

/// The configuration of a scene widget: the scenes to choose from, each as a
/// row of three texts.
#[derive(Debug)]
pub struct SceneConfig {
    scenes: Vec<Vec<String>>,
}

impl DeepView for SceneConfig {
    type V = Seq<Seq<Seq<char>>>;

    closed spec fn deep_view(&self) -> Seq<Seq<Seq<char>>> {
        self.scenes.deep_view()
    }
}

/// The scenes that a document holds: an object whose member `scenes` is a
/// list of rows of three texts.
pub open spec fn scene_config_of(doc: Json) -> Option<Seq<Seq<Seq<char>>>> {
    match doc.member("scenes"@) {
        Some(s) => s.text_rows(3),
        None => None,
    }
}

impl SceneConfig {
    /// Reads a scene configuration from a document.
    pub fn from_json(doc: &JsonValue) -> (r: Option<SceneConfig>)
        ensures
            r.deep_view() == scene_config_of(doc@),
    {
        match doc.member("scenes") {
            Some(s) => match s.text_rows(3) {
                Some(scenes) => Some(SceneConfig { scenes }),
                None => None,
            },
            None => None,
        }
    }
}

/// A widget that offers scenes to choose from. It keeps no state.
#[derive(Debug)]
pub struct Scene {
    scenes: Option<SceneConfig>,
}

impl View for Scene {
    type V = Option<Seq<Seq<Seq<char>>>>;

    closed spec fn view(&self) -> Option<Seq<Seq<Seq<char>>>> {
        self.scenes.deep_view()
    }
}

impl Scene {
    /// A scene widget without scenes.
    pub fn new() -> (s: Self)
        ensures
            s@ is None,
    {
        Self { scenes: None }
    }

    /// Reads the scenes to offer. A document that holds no scene
    /// configuration is refused and changes nothing.
    pub fn set_configuration(&mut self, config: &JsonValue) -> (r: Result<(), DeviceModelError>)
        ensures
            match r {
                Ok(_) => scene_config_of(config@) is Some && final(self)@ == scene_config_of(
                    config@,
                ),
                Err(e) => scene_config_of(config@) is None && final(self)@ == old(self)@ && e@
                    == DeviceModelErrorView::ConfigurationMalformed(configuration_failure()),
            },
    {
        match SceneConfig::from_json(config) {
            Some(c) => {
                self.scenes = Some(c);
                Ok(())
            },
            None => Err(configuration_error()),
        }
    }

    /// A scene widget follows no item: nothing changes.
    pub fn state_changed(&mut self, _key: &str, _new_state: &str)
        ensures
            final(self)@ == old(self)@,
    {
    }
}

/// A widget of one of the kinds that the device model knows.
///
/// Every kind takes state updates. What else a kind does (reading a
/// configuration, learning its bindings, raising an alert, contributing a
/// slider, driving the scene, standing behind a button) it does through the
/// functions here, which do nothing for a kind that has no such part.
#[derive(Debug)]
pub enum Widget {
    Number(Number),
    Text(Text),
    Calendar(Calendar),
    Music(Music),
    Scene(Scene),
    Switch(Switch),
    Dimmer(Dimmer),
    DimmerGroup(DimmerGroup),
    Color(Color),
    Climate(Climate),
    Generic(GenericItem),
}

/// A `Widget` over character sequences.
pub enum WidgetView {
    Number(Seq<char>),
    Text(Option<Seq<char>>),
    Calendar(CalendarView),
    Music(MusicView),
    Scene(Option<Seq<Seq<Seq<char>>>>),
    Switch(SwitchView),
    Dimmer(DimmerView),
    DimmerGroup(DimmerGroupView),
    Color(ColorView),
    Climate(ClimateView),
    Generic(GenericItemView),
}

impl View for Widget {
    type V = WidgetView;

    open spec fn view(&self) -> WidgetView {
        match self {
            Widget::Number(w) => WidgetView::Number(w@),
            Widget::Text(w) => WidgetView::Text(w@),
            Widget::Calendar(w) => WidgetView::Calendar(w@),
            Widget::Music(w) => WidgetView::Music(w@),
            Widget::Scene(w) => WidgetView::Scene(w@),
            Widget::Switch(w) => WidgetView::Switch(w@),
            Widget::Dimmer(w) => WidgetView::Dimmer(w@),
            Widget::DimmerGroup(w) => WidgetView::DimmerGroup(w@),
            Widget::Color(w) => WidgetView::Color(w@),
            Widget::Climate(w) => WidgetView::Climate(w@),
            Widget::Generic(w) => WidgetView::Generic(w@),
        }
    }
}

impl DeepView for Widget {
    type V = WidgetView;

    open spec fn deep_view(&self) -> WidgetView {
        self@
    }
}

/// The widget after a state arrived under one of its keys at the moment
/// `now`. Only a widget with a state store looks at the moment.
pub open spec fn widget_after(
    w: WidgetView,
    key: Seq<char>,
    new_state: Seq<char>,
    now: instant::Instant,
) -> WidgetView {
    match w {
        WidgetView::Number(v) => WidgetView::Number(number_after(v, new_state)),
        WidgetView::Text(_) => WidgetView::Text(Some(new_state)),
        WidgetView::Calendar(v) => WidgetView::Calendar(calendar_after(v, key, new_state)),
        WidgetView::Music(v) => WidgetView::Music(music_after(v, key, new_state)),
        WidgetView::Scene(v) => WidgetView::Scene(v),
        WidgetView::Switch(v) => WidgetView::Switch(switch_after(v, key, new_state)),
        WidgetView::Dimmer(v) => WidgetView::Dimmer(dimmer_after(v, key, new_state)),
        WidgetView::DimmerGroup(v) => WidgetView::DimmerGroup(
            dimmer_group_after(v, key, new_state),
        ),
        WidgetView::Color(v) => WidgetView::Color(color_after(v, new_state)),
        WidgetView::Climate(v) => WidgetView::Climate(climate_after(v, key, new_state)),
        WidgetView::Generic(v) => WidgetView::Generic(
            GenericItemView { state: store_after(v.state, key, new_state, now), ..v },
        ),
    }
}

/// The widget after the state that an item had from the start was set under
/// one of its keys: a widget with a state store keeps it without a time of
/// change, any other widget takes it as an update.
pub open spec fn widget_initial(
    w: WidgetView,
    key: Seq<char>,
    new_state: Seq<char>,
    now: instant::Instant,
) -> WidgetView {
    match w {
        WidgetView::Generic(v) => WidgetView::Generic(
            GenericItemView { state: store_initial(v.state, key, new_state), ..v },
        ),
        _ => widget_after(w, key, new_state, now),
    }
}

/// The widget after it read a configuration of its own, or `None` where it
/// refuses the document. A kind without a configuration accepts any document
/// and stays as it is.
pub open spec fn widget_configured(w: WidgetView, doc: Json) -> Option<WidgetView> {
    match w {
        WidgetView::Music(v) => match music_config_of(doc) {
            Some(c) => Some(WidgetView::Music(MusicView { config: Some(c), ..v })),
            None => None,
        },
        WidgetView::Scene(_) => match scene_config_of(doc) {
            Some(c) => Some(WidgetView::Scene(Some(c))),
            None => None,
        },
        WidgetView::Switch(v) => match switch_config_of(doc) {
            Some(c) => Some(WidgetView::Switch(switch_configured(v, c))),
            None => None,
        },
        WidgetView::Climate(v) => match climate_config_of(doc) {
            Some(c) => Some(WidgetView::Climate(ClimateView { config: Some(c), ..v })),
            None => None,
        },
        WidgetView::Generic(v) => match generic_config_of(v.config_slot, doc) {
            Some(c) => Some(WidgetView::Generic(GenericItemView { config: c, ..v })),
            None => None,
        },
        _ => Some(w),
    }
}

/// The widget after it learned its bindings, given as
/// `(external item name, key)` pairs. Only the climate widget and the
/// widgets with a state store keep them.
pub open spec fn widget_bound(w: WidgetView, bindings: Seq<(Seq<char>, Seq<char>)>) -> WidgetView {
    match w {
        WidgetView::Climate(v) => WidgetView::Climate(
            ClimateView { items: items_by_key(v.items, bindings, bindings.len()), ..v },
        ),
        WidgetView::Generic(v) => WidgetView::Generic(
            GenericItemView { items: items_with(v.items, bindings, bindings.len()), ..v },
        ),
        _ => w,
    }
}

/// The alert that a widget raises.
pub open spec fn widget_notification(w: WidgetView) -> Option<NotificationView> {
    match w {
        WidgetView::Switch(v) => lit_notification(v.state),
        WidgetView::Dimmer(v) => lit_notification(v.value > 0),
        WidgetView::Color(v) => lit_notification(color_lit(v)),
        WidgetView::Generic(v) => notification_of(v),
        _ => None,
    }
}

/// The slider that a widget contributes, with its priority.
pub open spec fn widget_slider(w: WidgetView) -> Option<(Seq<char>, usize)> {
    match w {
        WidgetView::Music(v) => music_slider(v),
        WidgetView::Generic(v) => slider_of(v),
        _ => None,
    }
}

/// The scene modifications of a widget for an entity and a kind of
/// modification. A kind of modification that a widget does not drive gives
/// none.
pub open spec fn widget_scene(
    w: WidgetView,
    entity_name: Seq<char>,
    modification: SceneModification,
) -> Seq<SceneEventView> {
    match w {
        WidgetView::Switch(v) => switch_scene(v, entity_name, modification),
        WidgetView::Dimmer(v) => dimmer_scene(v, entity_name, modification),
        WidgetView::DimmerGroup(v) => dimmer_group_scene(v, entity_name, modification),
        WidgetView::Color(v) => color_scene(v, entity_name, modification),
        WidgetView::Climate(v) => climate_scene(v, modification),
        _ => Seq::empty(),
    }
}

/// The button that stands for a widget, for the kinds that are drawn as one
/// and know all that the button shows.
pub open spec fn widget_button(w: WidgetView) -> Option<SimpleButtonView> {
    match w {
        WidgetView::Switch(v) => Some(switch_button(v)),
        WidgetView::Dimmer(v) => Some(dimmer_button(v)),
        WidgetView::Color(v) => Some(color_button(v)),
        _ => None,
    }
}

impl Widget {
    /// Takes the state that arrived under a key at the moment `now`.
    pub fn state_changed_at(&mut self, state_key: &str, new_state: &str, now: instant::Instant)
        ensures
            final(self)@ == widget_after(old(self)@, state_key@, new_state@, now),
    {
        match self {
            Widget::Number(w) => w.state_changed(state_key, new_state),
            Widget::Text(w) => w.state_changed(state_key, new_state),
            Widget::Calendar(w) => w.state_changed(state_key, new_state),
            Widget::Music(w) => w.state_changed(state_key, new_state),
            Widget::Scene(w) => w.state_changed(state_key, new_state),
            Widget::Switch(w) => w.state_changed(state_key, new_state),
            Widget::Dimmer(w) => w.state_changed(state_key, new_state),
            Widget::DimmerGroup(w) => w.state_changed(state_key, new_state),
            Widget::Color(w) => w.state_changed(state_key, new_state),
            Widget::Climate(w) => w.state_changed(state_key, new_state),
            Widget::Generic(w) => w.state_changed_at(state_key, new_state, now),
        }
    }

    /// Takes the state that arrived under a key. A widget with a state store
    /// stamps a state that differs from the one stored with the present
    /// moment.
    pub fn state_changed(&mut self, state_key: &str, new_state: &str)
        ensures
            exists|now: instant::Instant|
                final(self)@ == #[trigger] widget_after(old(self)@, state_key@, new_state@, now),
    {
        let now = current_instant();
        self.state_changed_at(state_key, new_state, now);
    }

    /// Sets the state that an item had from the start, as known at the
    /// moment `now`.
    pub fn initial_state_at(&mut self, state_key: &str, new_state: &str, now: instant::Instant)
        ensures
            final(self)@ == widget_initial(old(self)@, state_key@, new_state@, now),
    {
        match self {
            Widget::Generic(w) => w.initial_state(state_key, new_state),
            _ => self.state_changed_at(state_key, new_state, now),
        }
    }

    /// Sets the state that an item had from the start.
    pub fn initial_state(&mut self, state_key: &str, new_state: &str)
        ensures
            exists|now: instant::Instant|
                final(self)@ == #[trigger] widget_initial(old(self)@, state_key@, new_state@, now),
    {
        let now = current_instant();
        self.initial_state_at(state_key, new_state, now);
    }

    /// Reads the widget's own configuration. A document that the widget's
    /// kind cannot use is refused and changes nothing.
    pub fn set_configuration(&mut self, config: &JsonValue) -> (r: Result<(), DeviceModelError>)
        ensures
            match r {
                Ok(_) => Some(final(self)@) == widget_configured(old(self)@, config@),
                Err(e) => widget_configured(old(self)@, config@) is None && final(self)@ == old(self)@ && e@ == DeviceModelErrorView::ConfigurationMalformed(configuration_failure()),
            },
    {
        match self {
            Widget::Music(w) => w.set_configuration(config),
            Widget::Scene(w) => w.set_configuration(config),
            Widget::Switch(w) => w.set_configuration(config),
            Widget::Climate(w) => w.set_configuration(config),
            Widget::Generic(w) => w.set_configuration(config),
            _ => Ok(()),
        }
    }

    /// Tells the widget its bindings: the key for each external item.
    pub fn set_smarthome_items(&mut self, config: &Table<SmartHomeItemInternal>)
        ensures
            final(self)@ == widget_bound(old(self)@, config.deep_view()),
    {
        match self {
            Widget::Climate(w) => w.set_smarthome_items(config),
            Widget::Generic(w) => w.set_smarthome_items(config),
            _ => {},
        }
    }

    /// The alert that the widget raises, if any.
    pub fn get_notification_status(&self) -> (r: Option<NotificationStatus>)
        ensures
            r.deep_view() == widget_notification(self@),
    {
        match self {
            Widget::Switch(w) => w.get_notification_status(),
            Widget::Dimmer(w) => w.get_notification_status(),
            Widget::Color(w) => w.get_notification_status(),
            Widget::Generic(w) => w.get_notification_status(),
            _ => None,
        }
    }

    /// The slider that the widget contributes, with its priority, if any.
    pub fn render_slider(&self) -> (r: Option<(String, usize)>)
        ensures
            r.deep_view() == widget_slider(self@),
    {
        match self {
            Widget::Music(w) => w.render_slider(),
            Widget::Generic(w) => w.render_slider(),
            _ => None,
        }
    }

    /// How the history of a key of the widget is plotted: with lines.
    pub fn get_plot_type(&self, _key: &str) -> (r: PlotType)
        ensures
            r == PlotType::LinePlot,
    {
        PlotType::LinePlot
    }

    /// The scene modifications that follow from the state of the widget, for
    /// an entity and a kind of modification.
    pub fn state_to_blender(&self, blender_item: &String, modification: SceneModification) -> (r:
        Vec<SceneModificationEvent>)
        ensures
            r.deep_view() == widget_scene(self@, blender_item@, modification),
    {
        match self {
            Widget::Switch(w) => w.state_to_blender(blender_item, modification),
            Widget::Dimmer(w) => w.state_to_blender(blender_item, modification),
            Widget::DimmerGroup(w) => w.state_to_blender(blender_item, modification),
            Widget::Color(w) => w.state_to_blender(blender_item, modification),
            Widget::Climate(w) => w.state_to_blender(blender_item, modification),
            _ => {
                let events: Vec<SceneModificationEvent> = Vec::new();
                assert(events.deep_view() =~= Seq::<SceneEventView>::empty());
                events
            },
        }
    }

    /// The button that stands for the widget, if it is drawn as one.
    pub fn button(&self) -> (r: Option<SimpleButton>)
        ensures
            r.deep_view() == widget_button(self@),
    {
        match self {
            Widget::Switch(w) => Some(w.button()),
            Widget::Dimmer(w) => Some(w.button()),
            Widget::Color(w) => Some(w.button()),
            _ => None,
        }
    }
}

} // verus!
