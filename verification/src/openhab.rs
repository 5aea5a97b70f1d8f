//! Messages exchanged with the home-automation backend: the requests that
//! widgets raise, the commands sent out for them, and the state updates that
//! come in as a topic and a JSON payload.

use vstd::prelude::*;
use crate::errors::{DeviceModelError, DeviceModelErrorView};
use crate::json::{Json, JsonValue, json_document, parse_json};
use crate::table::{lookup, lemma_position_is};
use crate::text::{concatenate, ends_with, has_suffix, split, split_on, str_equal};
use crate::widget_settings::WidgetItemList;

verus! {

/// What a widget asks for after a user gesture.
#[derive(Debug, PartialEq)]
pub enum WidgetInteraction {
    /// Change the state of the item behind one of the widget's keys.
    StateChange(RequestedStateChangeFromWidget),
    /// Enter (`true`) or leave (`false`) the fullscreen view of the widget.
    FullscreenRequest(bool),
}

/// A state change requested by a widget, under the key as the widget knows it.
#[derive(Debug, PartialEq, Clone)]
pub struct RequestedStateChangeFromWidget {
    pub key: String,
    pub value: String,
}

/// A `RequestedStateChangeFromWidget` over character sequences.
pub struct WidgetRequestView {
    pub key: Seq<char>,
    pub value: Seq<char>,
}

impl View for RequestedStateChangeFromWidget {
    type V = WidgetRequestView;

    open spec fn view(&self) -> WidgetRequestView {
        WidgetRequestView { key: self.key@, value: self.value@ }
    }
}

/// A `WidgetInteraction` over character sequences.
pub enum WidgetInteractionView {
    StateChange(WidgetRequestView),
    FullscreenRequest(bool),
}

impl View for WidgetInteraction {
    type V = WidgetInteractionView;

    open spec fn view(&self) -> WidgetInteractionView {
        match self {
            WidgetInteraction::StateChange(r) => WidgetInteractionView::StateChange(r@),
            WidgetInteraction::FullscreenRequest(b) => WidgetInteractionView::FullscreenRequest(*b),
        }
    }
}

impl DeepView for WidgetInteraction {
    type V = WidgetInteractionView;

    open spec fn deep_view(&self) -> WidgetInteractionView {
        self@
    }
}

/// A state change to send to the backend, addressed to an external item.
#[derive(Debug, PartialEq)]
pub struct RequestedStateChange {
    pub item: String,
    pub value: String,
}

/// A `RequestedStateChange` over character sequences.
pub struct StateChangeView {
    pub item: Seq<char>,
    pub value: Seq<char>,
}

impl View for RequestedStateChange {
    type V = StateChangeView;

    open spec fn view(&self) -> StateChangeView {
        StateChangeView { item: self.item@, value: self.value@ }
    }
}

impl DeepView for RequestedStateChange {
    type V = StateChangeView;

    open spec fn deep_view(&self) -> StateChangeView {
        self@
    }
}

/// The command that answers `request` for a widget with the item list
/// `items`: addressed to the item of the first pair under the request's key,
/// with the request's value; or the failure that names the request.
pub open spec fn command_for(
    request: WidgetRequestView,
    items: Seq<(Seq<char>, Seq<char>)>,
) -> Result<StateChangeView, DeviceModelErrorView> {
    match lookup(items, request.key) {
        Some(item) => Ok(StateChangeView { item, value: request.value }),
        None => Err(DeviceModelErrorView::KeyNotFound(request)),
    }
}

/// The view of a result whose two sides have views.
pub open spec fn command_result_view(r: Result<RequestedStateChange, DeviceModelError>) -> Result<
    StateChangeView,
    DeviceModelErrorView,
> {
    match r {
        Ok(c) => Ok(c@),
        Err(e) => Err(e@),
    }
}

impl RequestedStateChange {
    /// Translates a widget's request into a command for the backend by
    /// looking the request's key up in the widget's item list.
    pub fn from_widget_request(
        widget_request: &RequestedStateChangeFromWidget,
        item_list: &WidgetItemList,
    ) -> (r: Result<Self, DeviceModelError>)
        ensures
            command_result_view(r) == command_for(widget_request@, item_list@),
    {
        let ghost items = item_list@;
        let n = item_list.items.len();
        let mut i: usize = 0;
        while i < n
            invariant
                n == item_list.items@.len(),
                items == item_list@,
                i <= n,
                forall|j: int| 0 <= j < i ==> (#[trigger] items[j]).0 != widget_request.key@,
            decreases n - i,
        {
            if str_equal(item_list.items[i].0.as_str(), widget_request.key.as_str()) {
                proof {
                    assert(items[i as int] == (item_list.items@[i as int].0@, item_list.items@[i as int].1@));
                    lemma_position_is(items, widget_request.key@, i as int);
                }
                return Ok(
                    RequestedStateChange {
                        item: item_list.items[i].1.clone(),
                        value: widget_request.value.clone(),
                    },
                );
            }
            i += 1;
        }
        proof {
            lemma_position_is(items, widget_request.key@, n as int);
        }
        Err(
            DeviceModelError::KeyNotFound(
                RequestedStateChangeFromWidget {
                    key: widget_request.key.clone(),
                    value: widget_request.value.clone(),
                },
            ),
        )
    }
}

/// A state update whose payload gives a type and a value.
#[derive(Debug, PartialEq)]
pub struct OpenHabPayload {
    pub ohtype: String,
    pub value: String,
}

/// A state update whose payload gives a status and its detail.
#[derive(Debug, PartialEq)]
pub struct OpenHabSimplePayload {
    pub status: String,
    pub status_detail: String,
}

/// A message of the backend as it arrives: topic, payload and message type.
#[derive(Clone, Debug)]
pub struct OpenHabState {
    pub topic: String,
    pub payload: String,
    pub ohtype: Option<String>,
}

/// The `(type, value)` pair of a document that is an object with the text
/// members `type` and `value`.
pub open spec fn payload_shape(doc: Json) -> Option<(Seq<char>, Seq<char>)> {
    match (doc.text_member("type"@), doc.text_member("value"@)) {
        (Some(t), Some(v)) => Some((t, v)),
        _ => None,
    }
}

/// The `(status, statusDetail)` pair of a document that is an object with the
/// text members `status` and `statusDetail`.
pub open spec fn simple_payload_shape(doc: Json) -> Option<(Seq<char>, Seq<char>)> {
    match (doc.text_member("status"@), doc.text_member("statusDetail"@)) {
        (Some(s), Some(d)) => Some((s, d)),
        _ => None,
    }
}

/// The state that a payload document carries: the value of the first shape,
/// else the status of the second.
pub open spec fn payload_state(doc: Json) -> Option<Seq<char>> {
    match payload_shape(doc) {
        Some((_, value)) => Some(value),
        None => match simple_payload_shape(doc) {
            Some((status, _)) => Some(status),
            None => None,
        },
    }
}

/// The state that a payload text carries, where it is a JSON document of one
/// of the two shapes.
pub open spec fn payload_text_state(payload: Seq<char>) -> Option<Seq<char>> {
    match json_document(payload) {
        Some(doc) => payload_state(doc),
        None => None,
    }
}

impl OpenHabPayload {
    /// Reads the first payload shape from a document.
    pub fn from_json(doc: &JsonValue) -> (r: Option<OpenHabPayload>)
        ensures
            match r {
                Some(p) => payload_shape(doc@) == Some((p.ohtype@, p.value@)),
                None => payload_shape(doc@) is None,
            },
    {
        match (doc.text_member("type"), doc.text_member("value")) {
            (Some(t), Some(v)) => Some(OpenHabPayload { ohtype: t.clone(), value: v.clone() }),
            _ => None,
        }
    }
}

impl OpenHabSimplePayload {
    /// Reads the second payload shape from a document.
    pub fn from_json(doc: &JsonValue) -> (r: Option<OpenHabSimplePayload>)
        ensures
            match r {
                Some(p) => simple_payload_shape(doc@) == Some((p.status@, p.status_detail@)),
                None => simple_payload_shape(doc@) is None,
            },
    {
        match (doc.text_member("status"), doc.text_member("statusDetail")) {
            (Some(s), Some(d)) => Some(
                OpenHabSimplePayload { status: s.clone(), status_detail: d.clone() },
            ),
            _ => None,
        }
    }
}

/// The state carried by a payload document: the two shapes are tried in
/// order, and the first that fits decides.
pub fn state_of_payload(doc: &JsonValue) -> (r: Option<String>)
    ensures
        r.deep_view() == payload_state(doc@),
{
    match OpenHabPayload::from_json(doc) {
        Some(p) => Some(p.value),
        None => match OpenHabSimplePayload::from_json(doc) {
            Some(p) => Some(p.status),
            None => None,
        },
    }
}

/// The message of the failure to read `payload`.
pub open spec fn payload_failure(payload: Seq<char>) -> Seq<char> {
    "Failed to parse payload "@ + payload + " to OpenHabSimplePayload in parse_open_hab_state"@
}

/// Reads the state from the payload of a message.
pub fn parse_payload(payload: &str) -> (r: Result<String, DeviceModelError>)
    ensures
        match r {
            Ok(state) => payload_text_state(payload@) == Some(state@),
            Err(e) => payload_text_state(payload@) is None && e@
                == DeviceModelErrorView::ParserError(payload_failure(payload@)),
        },
{
    let state = match parse_json(payload) {
        Some(doc) => state_of_payload(&doc),
        None => None,
    };
    match state {
        Some(s) => Ok(s),
        None => {
            let head = concatenate("Failed to parse payload ", payload);
            let message = concatenate(
                head.as_str(),
                " to OpenHabSimplePayload in parse_open_hab_state",
            );
            Err(DeviceModelError::ParserError(message))
        },
    }
}

/// Whether `t` is one of the last segments that mark a state update.
pub open spec fn is_state_suffix(t: Seq<char>) -> bool {
    t == "statechanged"@ || t == "state"@ || t == "stateupdated"@ || t == "status"@
}

/// The item name in a topic of the form
/// `<prefix>/items/<item>/<state suffix>`, possibly followed by more
/// segments. The prefix is one segment, whatever it holds.
pub open spec fn topic_item(topic: Seq<char>) -> Option<Seq<char>> {
    let tokens = split_on(topic, '/');
    if tokens.len() >= 4 && tokens[1] == "items"@ && is_state_suffix(tokens[3]) {
        Some(tokens[2])
    } else {
        None
    }
}

/// The message of the failure to read `topic`.
pub open spec fn topic_failure(topic: Seq<char>) -> Seq<char> {
    "Failed to parse topic from "@ + topic
}

/// Reads the item name from the topic of a message.
pub fn parse_topic(topic: &str) -> (r: Result<&str, DeviceModelError>)
    ensures
        match r {
            Ok(item) => topic_item(topic@) == Some(item@),
            Err(e) => topic_item(topic@) is None && e@ == DeviceModelErrorView::ParserError(
                topic_failure(topic@),
            ),
        },
{
    let tokens = split(topic, '/');
    assert(tokens.deep_view().len() == tokens@.len());
    if tokens.len() >= 4 {
        assert(tokens.deep_view()[1] == tokens@[1]@);
        assert(tokens.deep_view()[2] == tokens@[2]@);
        assert(tokens.deep_view()[3] == tokens@[3]@);
        if str_equal(tokens[1], "items") && (str_equal(tokens[3], "statechanged") || str_equal(
            tokens[3],
            "state",
        ) || str_equal(tokens[3], "stateupdated") || str_equal(tokens[3], "status")) {
            return Ok(tokens[2]);
        }
    }
    Err(DeviceModelError::ParserError(concatenate("Failed to parse topic from ", topic)))
}

/// The item that a state request was made for, from the address of the
/// request: the last segment before the ending `/state`. An address that
/// does not end so names no item.
pub open spec fn state_url_item(url: Seq<char>) -> Option<Seq<char>> {
    if has_suffix(url, "/state"@) {
        Some(split_on(url.take(url.len() - "/state"@.len()), '/').last())
    } else {
        None
    }
}

/// The item that a state request was made for, from the address of the
/// request.
pub fn item_of_state_url(url: &str) -> (r: Option<&str>)
    ensures
        r.deep_view() == state_url_item(url@),
{
    if !ends_with(url, "/state") {
        return None;
    }
    proof {
        reveal_strlit("/state");
    }
    let n = url.unicode_len();
    let head = url.substring_char(0, n - 6);
    assert(head@ =~= url@.take(url@.len() - "/state"@.len()));
    let pieces = split(head, '/');
    proof {
        crate::text::lemma_split_on_not_empty(head@, '/');
        assert(pieces.deep_view().len() == pieces@.len());
        assert(pieces.deep_view().last() == pieces@[pieces@.len() - 1]@);
    }
    Some(pieces[pieces.len() - 1])
}

/// The item and state of a message, where both its payload and its topic can
/// be read; else the failure of the payload, or with a readable payload that
/// of the topic.
pub open spec fn message_state(topic: Seq<char>, payload: Seq<char>) -> Result<
    (Seq<char>, Seq<char>),
    DeviceModelErrorView,
> {
    match payload_text_state(payload) {
        None => Err(DeviceModelErrorView::ParserError(payload_failure(payload))),
        Some(state) => match topic_item(topic) {
            None => Err(DeviceModelErrorView::ParserError(topic_failure(topic))),
            Some(item) => Ok((item, state)),
        },
    }
}

/// Reads a state update of the backend.
///
/// Where the message can be read, the item and its state are returned.
pub fn parse_open_hab_state<'a>(topic: &'a str, payload: &'a str) -> (r: Result<
    (&'a str, String),
    DeviceModelError,
>)
    ensures
        match r {
            Ok((item, state)) => message_state(topic@, payload@) == Ok::<
                (Seq<char>, Seq<char>),
                DeviceModelErrorView,
            >((item@, state@)),
            Err(e) => message_state(topic@, payload@) == Err::<
                (Seq<char>, Seq<char>),
                DeviceModelErrorView,
            >(e@),
        },
{
    match parse_payload(payload) {
        Err(e) => Err(e),
        Ok(state) => match parse_topic(topic) {
            Err(e) => Err(e),
            Ok(item) => Ok((item, state)),
        },
    }
}

} // verus!
