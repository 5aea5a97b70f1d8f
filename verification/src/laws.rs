//! What holds of the device model whatever the configuration and whatever
//! the updates.
//!
//! A model is `routed` when its tables fit together. Parsing gives a routed
//! model, and updates keep a model routed; on a routed model an update fails
//! only for an item that no widget follows.

use vstd::prelude::*;
use crate::config::{Item, ItemConfiguration, ViewConfiguration, resolved_key};
use crate::device_model::{
    Delivery, DeviceModelView, delivered, empty_model, first_view, interactions_result, parsed,
    registered_settings, registered_widget, render_target_of, scene_events, state_changed_result,
    subscribed, subscribers_of, subscribers_with, widgets_shown, with_view, with_views,
    with_widget, with_widgets,
};
use crate::events::SceneEventView;
use crate::openhab::{StateChangeView, WidgetInteractionView};
use crate::errors::DeviceModelErrorView;
use crate::item::{WidgetView, widget_after};
use crate::item::generic_item::{StateEntryView, entry_after, store_after, store_initial};
use crate::table::{
    distinct_keys, has_key, keys_of, lemma_position_of, lemma_with_entry, lookup, with_entry,
};
use crate::widget_settings::item_pairs;

verus! {

/// Whether the widget `widget` follows the external item `item` and knows it
/// under `key`.
pub open spec fn subscribes(
    m: DeviceModelView,
    item: Seq<char>,
    widget: Seq<char>,
    key: Seq<char>,
) -> bool {
    subscribers_of(m.smart_home_items, item).contains((widget, key))
}

/// Whether the tables of a model fit together: each table holds a name once;
/// the registry and the settings table hold the same widgets; every
/// subscriber of an item and every widget of a view is a registered widget;
/// and every item in the subscriber table has a subscriber.
pub open spec fn routed(m: DeviceModelView) -> bool {
    &&& distinct_keys(m.widgets)
    &&& distinct_keys(m.widget_settings)
    &&& distinct_keys(m.smart_home_items)
    &&& distinct_keys(m.views)
    &&& forall|name: Seq<char>| #[trigger]
        has_key(m.widgets, name) <==> has_key(m.widget_settings, name)
    &&& forall|item: Seq<char>, widget: Seq<char>, key: Seq<char>| #[trigger]
        subscribes(m, item, widget, key) ==> has_key(m.widgets, widget)
    &&& forall|item: Seq<char>| #[trigger]
        has_key(m.smart_home_items, item) ==> subscribers_of(m.smart_home_items, item).len() >= 1
    &&& forall|view: Seq<char>, i: int|
        lookup(m.views, view) is Some && 0 <= i < lookup(m.views, view).unwrap().len() ==> has_key(
            m.widgets,
            #[trigger] lookup(m.views, view).unwrap()[i],
        )
}

/// Whether everything that is registered in `a` is registered in `b`: the
/// widgets, their settings, the views, the items and the subscriptions.
pub open spec fn grows(a: DeviceModelView, b: DeviceModelView) -> bool {
    &&& forall|name: Seq<char>| #[trigger] has_key(a.widgets, name) ==> has_key(b.widgets, name)
    &&& forall|name: Seq<char>| #[trigger]
        has_key(a.smart_home_items, name) ==> has_key(b.smart_home_items, name)
    &&& forall|item: Seq<char>, widget: Seq<char>, key: Seq<char>| #[trigger]
        subscribes(a, item, widget, key) ==> subscribes(b, item, widget, key)
}

/// What subscribing a widget to the items of its first `n` bindings does to
/// the subscriber table: nothing is lost, the widget stands under the item
/// of each of those bindings with the key of the binding, and whoever stands
/// in the table stood there before or is the widget.
pub proof fn lemma_subscribed(
    subscribers: Seq<(Seq<char>, Seq<(Seq<char>, Seq<char>)>)>,
    widget_name: Seq<char>,
    bindings: Seq<(Seq<char>, Option<Seq<char>>)>,
    n: nat,
)
    requires
        n <= bindings.len(),
    ensures
        ({
            let r = subscribed(subscribers, widget_name, bindings, n);
            &&& distinct_keys(subscribers) ==> distinct_keys(r)
            &&& forall|item: Seq<char>| #[trigger] has_key(subscribers, item) ==> has_key(r, item)
            &&& forall|item: Seq<char>, sub: (Seq<char>, Seq<char>)|
                subscribers_of(subscribers, item).contains(sub) ==> #[trigger] subscribers_of(
                    r,
                    item,
                ).contains(sub)
            &&& forall|j: int|
                0 <= j < n ==> subscribers_of(r, (#[trigger] bindings[j]).0).contains(
                    (widget_name, resolved_key(bindings[j])),
                )
            &&& forall|item: Seq<char>, sub: (Seq<char>, Seq<char>)| #[trigger]
                subscribers_of(r, item).contains(sub) ==> subscribers_of(subscribers, item).contains(
                    sub,
                ) || sub.0 == widget_name
            &&& (forall|item: Seq<char>| #[trigger]
                has_key(subscribers, item) ==> subscribers_of(subscribers, item).len() >= 1)
                ==> (forall|item: Seq<char>| #[trigger]
                has_key(r, item) ==> subscribers_of(r, item).len() >= 1)
        }),
    decreases n,
{
    if n > 0 {
        lemma_subscribed(subscribers, widget_name, bindings, (n - 1) as nat);
        let before = subscribed(subscribers, widget_name, bindings, (n - 1) as nat);
        let binding = bindings[n - 1];
        let added = (widget_name, resolved_key(binding));
        let list = subscribers_of(before, binding.0).push(added);
        let r = with_entry(before, binding.0, list);
        assert(r == subscribed(subscribers, widget_name, bindings, n));
        lemma_with_entry(before, binding.0, list);
        assert(list[list.len() - 1] == added);
        assert forall|item: Seq<char>, sub: (Seq<char>, Seq<char>)|
            subscribers_of(before, item).contains(sub) implies #[trigger] subscribers_of(
            r,
            item,
        ).contains(sub) by {
            if item == binding.0 {
                let i = choose|i: int|
                    0 <= i < subscribers_of(before, item).len() && subscribers_of(before, item)[i]
                        == sub;
                assert(list[i] == sub);
            } else {
                assert(lookup(r, item) == lookup(before, item));
            }
        }
        assert forall|j: int| 0 <= j < n implies subscribers_of(
            r,
            (#[trigger] bindings[j]).0,
        ).contains((widget_name, resolved_key(bindings[j]))) by {
            if j < n - 1 {
                assert(subscribers_of(before, bindings[j].0).contains(
                    (widget_name, resolved_key(bindings[j])),
                ));
            }
        }
        assert forall|item: Seq<char>, sub: (Seq<char>, Seq<char>)| #[trigger]
            subscribers_of(r, item).contains(sub) implies subscribers_of(subscribers, item).contains(
            sub,
        ) || sub.0 == widget_name by {
            if item == binding.0 {
                let i = choose|i: int| 0 <= i < list.len() && list[i] == sub;
                if i < list.len() - 1 {
                    assert(subscribers_of(before, item)[i] == sub);
                    assert(subscribers_of(before, item).contains(sub));
                }
            } else {
                assert(lookup(r, item) == lookup(before, item));
                assert(subscribers_of(before, item).contains(sub));
            }
        }
        if forall|item: Seq<char>| #[trigger]
            has_key(subscribers, item) ==> subscribers_of(subscribers, item).len() >= 1 {
            assert forall|item: Seq<char>| #[trigger] has_key(r, item) implies subscribers_of(
                r,
                item,
            ).len() >= 1 by {
                if item != binding.0 {
                    assert(lookup(r, item) == lookup(before, item));
                    assert(has_key(before, item));
                }
            }
        }
        assert forall|item: Seq<char>| #[trigger] has_key(subscribers, item) implies has_key(
            r,
            item,
        ) by {
            assert(has_key(before, item));
        }
    }
}

/// What registering a widget does to a model: the widget and its settings
/// stand under its name, the widget follows the item of each of its
/// bindings under the key of the binding, nothing that was registered is
/// lost, and a routed model stays routed.
pub proof fn lemma_with_widget(
    m: DeviceModelView,
    view_name: Seq<char>,
    widget_name: Seq<char>,
    item: Item,
    now: instant::Instant,
)
    requires
        with_widget(m, view_name, widget_name, item, now) is Ok,
    ensures
        ({
            let r = with_widget(m, view_name, widget_name, item, now)->Ok_0;
            &&& r.views == m.views
            &&& r.current_view == m.current_view
            &&& r.fullscreen_widget == m.fullscreen_widget
            &&& r.initialized == m.initialized
            &&& lookup(r.widgets, widget_name) == Some(registered_widget(item, now)->Ok_0)
            &&& lookup(r.widget_settings, widget_name) == Some(
                registered_settings(view_name, widget_name, item)->Ok_0,
            )
            &&& has_key(r.widgets, widget_name)
            &&& grows(m, r)
            &&& forall|b: int|
                0 <= b < item.bindings().len() ==> subscribes(
                    r,
                    (#[trigger] item.bindings()[b]).0,
                    widget_name,
                    resolved_key(item.bindings()[b]),
                )
            &&& item.bindings().len() == 0 ==> subscribers_of(r.smart_home_items, widget_name)
                == seq![(widget_name, widget_name)]
            &&& routed(m) ==> routed(r)
        }),
{
    let r = with_widget(m, view_name, widget_name, item, now)->Ok_0;
    let widget = registered_widget(item, now)->Ok_0;
    let settings = registered_settings(view_name, widget_name, item)->Ok_0;
    let bindings = item.bindings();
    let subs = m.smart_home_items;
    lemma_with_entry(m.widgets, widget_name, widget);
    lemma_with_entry(m.widget_settings, widget_name, settings);
    lemma_position_of(r.widgets, widget_name);
    let implicit = seq![(widget_name, widget_name)];
    if bindings.len() == 0 {
        lemma_with_entry(subs, widget_name, implicit);
        lemma_position_of(subs, widget_name);
        assert(implicit[0] == (widget_name, widget_name));
        assert forall|item_name: Seq<char>, sub: (Seq<char>, Seq<char>)|
            subscribers_of(subs, item_name).contains(sub) implies #[trigger] subscribers_of(
            r.smart_home_items,
            item_name,
        ).contains(sub) by {
            if item_name == widget_name {
                assert(lookup(subs, widget_name) is None);
                let i = choose|i: int|
                    0 <= i < subscribers_of(subs, item_name).len() && subscribers_of(
                        subs,
                        item_name,
                    )[i] == sub;
            } else {
                assert(lookup(r.smart_home_items, item_name) == lookup(subs, item_name));
            }
        }
        assert forall|item_name: Seq<char>, sub: (Seq<char>, Seq<char>)| #[trigger]
            subscribers_of(r.smart_home_items, item_name).contains(sub) implies subscribers_of(
            subs,
            item_name,
        ).contains(sub) || sub.0 == widget_name by {
            if item_name == widget_name {
                let i = choose|i: int| 0 <= i < implicit.len() && implicit[i] == sub;
            } else {
                assert(lookup(r.smart_home_items, item_name) == lookup(subs, item_name));
            }
        }
        assert forall|item_name: Seq<char>| #[trigger]
            has_key(r.smart_home_items, item_name) && (forall|i: Seq<char>| #[trigger]
                has_key(subs, i) ==> subscribers_of(subs, i).len() >= 1) implies subscribers_of(
            r.smart_home_items,
            item_name,
        ).len() >= 1 by {
            if item_name != widget_name {
                assert(lookup(r.smart_home_items, item_name) == lookup(subs, item_name));
                assert(has_key(subs, item_name));
            }
        }
    } else {
        lemma_subscribed(subs, widget_name, bindings, bindings.len());
    }
    assert forall|item_name: Seq<char>, w: Seq<char>, k: Seq<char>| #[trigger]
        subscribes(m, item_name, w, k) implies subscribes(r, item_name, w, k) by {
        assert(subscribers_of(subs, item_name).contains((w, k)));
    }
    assert forall|name: Seq<char>| #[trigger] has_key(m.smart_home_items, name) implies has_key(
        r.smart_home_items,
        name,
    ) by {}
    if routed(m) {
        assert forall|name: Seq<char>| #[trigger]
            has_key(r.widgets, name) <==> has_key(r.widget_settings, name) by {
            assert(has_key(m.widgets, name) <==> has_key(m.widget_settings, name));
        }
        assert forall|item_name: Seq<char>, w: Seq<char>, k: Seq<char>| #[trigger]
            subscribes(r, item_name, w, k) implies has_key(r.widgets, w) by {
            assert(subscribers_of(r.smart_home_items, item_name).contains((w, k)));
            if subscribers_of(subs, item_name).contains((w, k)) {
                assert(subscribes(m, item_name, w, k));
                assert(has_key(m.widgets, w));
            }
        }
        assert forall|item_name: Seq<char>| #[trigger]
            has_key(r.smart_home_items, item_name) implies subscribers_of(
            r.smart_home_items,
            item_name,
        ).len() >= 1 by {}
        assert forall|view: Seq<char>, i: int|
            lookup(r.views, view) is Some && 0 <= i < lookup(r.views, view).unwrap().len()
            implies has_key(r.widgets, #[trigger] lookup(r.views, view).unwrap()[i]) by {
            assert(has_key(m.widgets, lookup(m.views, view).unwrap()[i]));
        }
    }
}

/// Growth carries over: what `a` holds, `c` holds, if `b` holds it in
/// between.
pub proof fn lemma_grows_carries(a: DeviceModelView, b: DeviceModelView, c: DeviceModelView)
    requires
        grows(a, b),
        grows(b, c),
    ensures
        grows(a, c),
{
    assert forall|name: Seq<char>| #[trigger] has_key(a.widgets, name) implies has_key(
        c.widgets,
        name,
    ) by {
        assert(has_key(b.widgets, name));
    }
    assert forall|name: Seq<char>| #[trigger] has_key(a.smart_home_items, name) implies has_key(
        c.smart_home_items,
        name,
    ) by {
        assert(has_key(b.smart_home_items, name));
    }
    assert forall|item: Seq<char>, widget: Seq<char>, key: Seq<char>| #[trigger]
        subscribes(a, item, widget, key) implies subscribes(c, item, widget, key) by {
        assert(subscribes(b, item, widget, key));
    }
}

/// Registering more widgets of a view keeps what the first `k` registered.
pub proof fn lemma_with_widgets_grows(
    m: DeviceModelView,
    view_name: Seq<char>,
    widgets: Seq<(Seq<char>, Item)>,
    k: nat,
    n: nat,
    now: instant::Instant,
)
    requires
        k <= n <= widgets.len(),
        with_widgets(m, view_name, widgets, n, now) is Ok,
    ensures
        with_widgets(m, view_name, widgets, k, now) is Ok,
        ({
            let a = with_widgets(m, view_name, widgets, k, now)->Ok_0;
            let r = with_widgets(m, view_name, widgets, n, now)->Ok_0;
            &&& grows(a, r)
            &&& routed(a) ==> routed(r)
            &&& r.views == a.views
            &&& r.current_view == a.current_view
            &&& r.fullscreen_widget == a.fullscreen_widget
            &&& r.initialized == a.initialized
        }),
    decreases n,
{
    if k < n {
        let before = with_widgets(m, view_name, widgets, (n - 1) as nat, now);
        assert(before is Ok);
        lemma_with_widgets_grows(m, view_name, widgets, k, (n - 1) as nat, now);
        lemma_with_widget(before->Ok_0, view_name, widgets[n - 1].0, widgets[n - 1].1, now);
        lemma_grows_carries(
            with_widgets(m, view_name, widgets, k, now)->Ok_0,
            before->Ok_0,
            with_widgets(m, view_name, widgets, n, now)->Ok_0,
        );
    }
}

/// After the widgets of a view are registered, the widget at position `j` is
/// registered and follows the item of each of its bindings under the key of
/// the binding.
pub proof fn lemma_with_widgets_at(
    m: DeviceModelView,
    view_name: Seq<char>,
    widgets: Seq<(Seq<char>, Item)>,
    n: nat,
    now: instant::Instant,
    j: int,
)
    requires
        0 <= j < n <= widgets.len(),
        with_widgets(m, view_name, widgets, n, now) is Ok,
    ensures
        ({
            let r = with_widgets(m, view_name, widgets, n, now)->Ok_0;
            &&& has_key(r.widgets, widgets[j].0)
            &&& forall|b: int|
                0 <= b < widgets[j].1.bindings().len() ==> subscribes(
                    r,
                    (#[trigger] widgets[j].1.bindings()[b]).0,
                    widgets[j].0,
                    resolved_key(widgets[j].1.bindings()[b]),
                )
            &&& widgets[j].1.bindings().len() == 0 ==> subscribes(
                r,
                widgets[j].0,
                widgets[j].0,
                widgets[j].0,
            )
        }),
{
    lemma_with_widgets_grows(m, view_name, widgets, (j + 1) as nat, n, now);
    lemma_with_widgets_grows(m, view_name, widgets, j as nat, (j + 1) as nat, now);
    let before = with_widgets(m, view_name, widgets, j as nat, now)->Ok_0;
    lemma_with_widget(before, view_name, widgets[j].0, widgets[j].1, now);
    let at = with_widgets(m, view_name, widgets, (j + 1) as nat, now)->Ok_0;
    let r = with_widgets(m, view_name, widgets, n, now)->Ok_0;
    assert forall|b: int| 0 <= b < widgets[j].1.bindings().len() implies subscribes(
        r,
        (#[trigger] widgets[j].1.bindings()[b]).0,
        widgets[j].0,
        resolved_key(widgets[j].1.bindings()[b]),
    ) by {
        assert(subscribes(
            at,
            widgets[j].1.bindings()[b].0,
            widgets[j].0,
            resolved_key(widgets[j].1.bindings()[b]),
        ));
    }
    if widgets[j].1.bindings().len() == 0 {
        let implicit = seq![(widgets[j].0, widgets[j].0)];
        assert(implicit[0] == (widgets[j].0, widgets[j].0));
        assert(subscribes(at, widgets[j].0, widgets[j].0, widgets[j].0));
    }
}

/// What registering a view does to a model: the view stands in the view
/// table with the names of its widgets, nothing that was registered is
/// lost, and a routed model stays routed.
pub proof fn lemma_with_view(
    m: DeviceModelView,
    view_name: Seq<char>,
    view: ViewConfiguration,
    now: instant::Instant,
)
    requires
        with_view(m, view_name, view, now) is Ok,
    ensures
        ({
            let widgets = view.items.entries();
            let r = with_view(m, view_name, view, now)->Ok_0;
            &&& with_widgets(m, view_name, widgets, widgets.len(), now) is Ok
            &&& grows(with_widgets(m, view_name, widgets, widgets.len(), now)->Ok_0, r)
            &&& grows(m, r)
            &&& routed(m) ==> routed(r)
            &&& lookup(r.views, view_name) == Some(keys_of(widgets))
            &&& r.current_view == m.current_view
            &&& r.fullscreen_widget == m.fullscreen_widget
            &&& r.initialized == m.initialized
        }),
{
    let widgets = view.items.entries();
    let before = with_widgets(m, view_name, widgets, widgets.len(), now)->Ok_0;
    let r = with_view(m, view_name, view, now)->Ok_0;
    lemma_with_widgets_grows(m, view_name, widgets, 0, widgets.len(), now);
    lemma_with_entry(before.views, view_name, keys_of(widgets));
    assert forall|item: Seq<char>, widget: Seq<char>, key: Seq<char>| #[trigger]
        subscribes(before, item, widget, key) implies subscribes(r, item, widget, key) by {}
    assert(grows(before, r));
    lemma_grows_carries(m, before, r);
    if routed(m) {
        assert forall|item: Seq<char>, w: Seq<char>, k: Seq<char>| #[trigger]
            subscribes(r, item, w, k) implies has_key(r.widgets, w) by {
            assert(subscribes(before, item, w, k));
        }
        assert forall|name: Seq<char>, i: int|
            lookup(r.views, name) is Some && 0 <= i < lookup(r.views, name).unwrap().len()
            implies has_key(r.widgets, #[trigger] lookup(r.views, name).unwrap()[i]) by {
            if name == view_name {
                lemma_with_widgets_at(m, view_name, widgets, widgets.len(), now, i);
            } else {
                assert(lookup(r.views, name) == lookup(before.views, name));
                assert(has_key(before.widgets, lookup(before.views, name).unwrap()[i]));
            }
        }
    }
}

/// Registering more views keeps what the first `k` registered.
pub proof fn lemma_with_views_grows(
    m: DeviceModelView,
    views: Seq<(Seq<char>, ViewConfiguration)>,
    k: nat,
    n: nat,
    now: instant::Instant,
)
    requires
        k <= n <= views.len(),
        with_views(m, views, n, now) is Ok,
    ensures
        with_views(m, views, k, now) is Ok,
        ({
            let a = with_views(m, views, k, now)->Ok_0;
            let r = with_views(m, views, n, now)->Ok_0;
            &&& grows(a, r)
            &&& routed(a) ==> routed(r)
            &&& r.current_view == a.current_view
            &&& r.fullscreen_widget == a.fullscreen_widget
            &&& r.initialized == a.initialized
        }),
    decreases n,
{
    if k < n {
        let before = with_views(m, views, (n - 1) as nat, now);
        assert(before is Ok);
        lemma_with_views_grows(m, views, k, (n - 1) as nat, now);
        lemma_with_view(before->Ok_0, views[n - 1].0, views[n - 1].1, now);
        lemma_grows_carries(
            with_views(m, views, k, now)->Ok_0,
            before->Ok_0,
            with_views(m, views, n, now)->Ok_0,
        );
    }
}

/// After the views are registered, the widget at position `w` of the view
/// at position `v` is registered and follows the item of each of its
/// bindings under the key of the binding.
pub proof fn lemma_with_views_at(
    m: DeviceModelView,
    views: Seq<(Seq<char>, ViewConfiguration)>,
    n: nat,
    now: instant::Instant,
    v: int,
    w: int,
)
    requires
        0 <= v < n <= views.len(),
        0 <= w < views[v].1.items.entries().len(),
        with_views(m, views, n, now) is Ok,
    ensures
        ({
            let r = with_views(m, views, n, now)->Ok_0;
            let widget = views[v].1.items.entries()[w];
            &&& has_key(r.widgets, widget.0)
            &&& forall|b: int|
                0 <= b < widget.1.bindings().len() ==> subscribes(
                    r,
                    (#[trigger] widget.1.bindings()[b]).0,
                    widget.0,
                    resolved_key(widget.1.bindings()[b]),
                )
            &&& widget.1.bindings().len() == 0 ==> subscribes(r, widget.0, widget.0, widget.0)
        }),
{
    lemma_with_views_grows(m, views, (v + 1) as nat, n, now);
    lemma_with_views_grows(m, views, v as nat, (v + 1) as nat, now);
    let before = with_views(m, views, v as nat, now)->Ok_0;
    let widgets = views[v].1.items.entries();
    lemma_with_view(before, views[v].0, views[v].1, now);
    lemma_with_widgets_at(before, views[v].0, widgets, widgets.len(), now, w);
    let inner = with_widgets(before, views[v].0, widgets, widgets.len(), now)->Ok_0;
    let at = with_views(m, views, (v + 1) as nat, now)->Ok_0;
    let r = with_views(m, views, n, now)->Ok_0;
    lemma_grows_carries(inner, at, r);
    let widget = widgets[w];
    assert forall|b: int| 0 <= b < widget.1.bindings().len() implies subscribes(
        r,
        (#[trigger] widget.1.bindings()[b]).0,
        widget.0,
        resolved_key(widget.1.bindings()[b]),
    ) by {
        assert(subscribes(
            inner,
            widget.1.bindings()[b].0,
            widget.0,
            resolved_key(widget.1.bindings()[b]),
        ));
    }
    if widget.1.bindings().len() == 0 {
        assert(subscribes(inner, widget.0, widget.0, widget.0));
    }
}

/// Whether a model is routed depends on its tables alone.
pub proof fn lemma_routed_by_tables(a: DeviceModelView, b: DeviceModelView)
    requires
        routed(a),
        b.widgets == a.widgets,
        b.widget_settings == a.widget_settings,
        b.smart_home_items == a.smart_home_items,
        b.views == a.views,
    ensures
        routed(b),
{
    assert forall|name: Seq<char>| #[trigger]
        has_key(b.widgets, name) <==> has_key(b.widget_settings, name) by {
        assert(has_key(a.widgets, name) <==> has_key(a.widget_settings, name));
    }
    assert forall|item: Seq<char>, widget: Seq<char>, key: Seq<char>| #[trigger]
        subscribes(b, item, widget, key) implies has_key(b.widgets, widget) by {
        assert(subscribes(a, item, widget, key));
    }
    assert forall|view: Seq<char>, i: int|
        lookup(b.views, view) is Some && 0 <= i < lookup(b.views, view).unwrap().len()
        implies has_key(b.widgets, #[trigger] lookup(b.views, view).unwrap()[i]) by {
        assert(has_key(a.widgets, lookup(a.views, view).unwrap()[i]));
    }
}

/// The model from which parsing starts is routed.
pub proof fn lemma_start_is_routed(current_view: Option<Seq<char>>, fullscreen: Option<Seq<char>>)
    ensures
        routed(
            DeviceModelView {
                current_view,
                fullscreen_widget: fullscreen,
                ..empty_model()
            },
        ),
{
    let m = DeviceModelView { current_view, fullscreen_widget: fullscreen, ..empty_model() };
    assert forall|name: Seq<char>| !has_key(m.widgets, name) by {}
    assert forall|name: Seq<char>| !has_key(m.widget_settings, name) by {}
    assert forall|name: Seq<char>| !has_key(m.smart_home_items, name) by {}
    assert forall|item: Seq<char>, widget: Seq<char>, key: Seq<char>| !#[trigger] subscribes(
        m,
        item,
        widget,
        key,
    ) by {
        lemma_position_of(m.smart_home_items, item);
    }
    assert forall|view: Seq<char>| lookup(m.views, view) is None by {
        lemma_position_of(m.views, view);
    }
}

/// Parsing gives a model whose tables fit together, with the default view
/// selected.
pub proof fn law_parse_gives_routed_model(
    m: DeviceModelView,
    configuration: ItemConfiguration,
    now: instant::Instant,
)
    requires
        parsed(m, configuration, now) is Ok,
    ensures
        routed(parsed(m, configuration, now)->Ok_0),
        parsed(m, configuration, now)->Ok_0.initialized,
        parsed(m, configuration, now)->Ok_0.current_view == Some(first_view()),
        parsed(m, configuration, now)->Ok_0.fullscreen_widget == m.fullscreen_widget,
{
    let start = DeviceModelView {
        current_view: Some(first_view()),
        fullscreen_widget: m.fullscreen_widget,
        ..empty_model()
    };
    let views = configuration.views.entries();
    lemma_start_is_routed(Some(first_view()), m.fullscreen_widget);
    lemma_with_views_grows(start, views, 0, views.len(), now);
    lemma_routed_by_tables(
        with_views(start, views, views.len(), now)->Ok_0,
        parsed(m, configuration, now)->Ok_0,
    );
}

/// After parsing, every widget of the configuration stands in the registry
/// and in the settings table, and each of the two holds its name once.
pub proof fn law_parse_registers_every_widget(
    m: DeviceModelView,
    configuration: ItemConfiguration,
    now: instant::Instant,
    v: int,
    w: int,
)
    requires
        parsed(m, configuration, now) is Ok,
        0 <= v < configuration.views.entries().len(),
        0 <= w < configuration.views.entries()[v].1.items.entries().len(),
    ensures
        ({
            let r = parsed(m, configuration, now)->Ok_0;
            let widget_name = configuration.views.entries()[v].1.items.entries()[w].0;
            &&& has_key(r.widgets, widget_name)
            &&& has_key(r.widget_settings, widget_name)
            &&& distinct_keys(r.widgets)
            &&& distinct_keys(r.widget_settings)
        }),
{
    let start = DeviceModelView {
        current_view: Some(first_view()),
        fullscreen_widget: m.fullscreen_widget,
        ..empty_model()
    };
    let views = configuration.views.entries();
    law_parse_gives_routed_model(m, configuration, now);
    lemma_with_views_at(start, views, views.len(), now, v, w);
    let r = parsed(m, configuration, now)->Ok_0;
    let widget_name = views[v].1.items.entries()[w].0;
    assert(has_key(r.widgets, widget_name) <==> has_key(r.widget_settings, widget_name));
}

/// After parsing, the external item of every binding of every widget stands
/// in the subscriber table, and the widget is among its subscribers with
/// the key of the binding: the key that the binding gives, or the name of
/// the item.
pub proof fn law_parse_subscribes_every_binding(
    m: DeviceModelView,
    configuration: ItemConfiguration,
    now: instant::Instant,
    v: int,
    w: int,
    b: int,
)
    requires
        parsed(m, configuration, now) is Ok,
        0 <= v < configuration.views.entries().len(),
        0 <= w < configuration.views.entries()[v].1.items.entries().len(),
        0 <= b < configuration.views.entries()[v].1.items.entries()[w].1.bindings().len(),
    ensures
        ({
            let r = parsed(m, configuration, now)->Ok_0;
            let widget = configuration.views.entries()[v].1.items.entries()[w];
            let binding = widget.1.bindings()[b];
            &&& has_key(r.smart_home_items, binding.0)
            &&& subscribes(r, binding.0, widget.0, resolved_key(binding))
        }),
{
    let start = DeviceModelView {
        current_view: Some(first_view()),
        fullscreen_widget: m.fullscreen_widget,
        ..empty_model()
    };
    let views = configuration.views.entries();
    lemma_with_views_at(start, views, views.len(), now, v, w);
    let r = parsed(m, configuration, now)->Ok_0;
    let widget = views[v].1.items.entries()[w];
    let binding = widget.1.bindings()[b];
    assert(subscribes(r, binding.0, widget.0, resolved_key(binding)));
    lemma_position_of(r.smart_home_items, binding.0);
    if lookup(r.smart_home_items, binding.0) is None {
        let i = choose|i: int|
            0 <= i < subscribers_of(r.smart_home_items, binding.0).len() && subscribers_of(
                r.smart_home_items,
                binding.0,
            )[i] == (widget.0, resolved_key(binding));
    }
}

/// After parsing, a widget without bindings follows the item that has the
/// widget's own name, under its own name as the key.
pub proof fn law_parse_subscribes_unbound_widget_to_its_name(
    m: DeviceModelView,
    configuration: ItemConfiguration,
    now: instant::Instant,
    v: int,
    w: int,
)
    requires
        parsed(m, configuration, now) is Ok,
        0 <= v < configuration.views.entries().len(),
        0 <= w < configuration.views.entries()[v].1.items.entries().len(),
        configuration.views.entries()[v].1.items.entries()[w].1.bindings().len() == 0,
    ensures
        ({
            let r = parsed(m, configuration, now)->Ok_0;
            let widget = configuration.views.entries()[v].1.items.entries()[w];
            &&& subscribes(r, widget.0, widget.0, widget.0)
            &&& item_pairs(widget.0, widget.1.bindings()) == seq![(widget.0, widget.0)]
        }),
{
    let start = DeviceModelView {
        current_view: Some(first_view()),
        fullscreen_widget: m.fullscreen_widget,
        ..empty_model()
    };
    let views = configuration.views.entries();
    lemma_with_views_at(start, views, views.len(), now, v, w);
}

/// A widget that follows an item stands under that item in the subscriber
/// table.
pub proof fn lemma_subscribed_item_is_known(
    m: DeviceModelView,
    item: Seq<char>,
    widget: Seq<char>,
    key: Seq<char>,
)
    requires
        subscribes(m, item, widget, key),
    ensures
        has_key(m.smart_home_items, item),
{
    lemma_position_of(m.smart_home_items, item);
    if lookup(m.smart_home_items, item) is None {
        let i = choose|i: int|
            0 <= i < subscribers_of(m.smart_home_items, item).len() && subscribers_of(
                m.smart_home_items,
                item,
            )[i] == (widget, key);
    }
}

/// Registering a widget without bindings fails where its name already
/// stands in the subscriber table.
pub proof fn lemma_unbound_widget_needs_free_name(
    m: DeviceModelView,
    view_name: Seq<char>,
    widget_name: Seq<char>,
    item: Item,
    now: instant::Instant,
)
    requires
        item.bindings().len() == 0,
        has_key(m.smart_home_items, widget_name),
    ensures
        with_widget(m, view_name, widget_name, item, now) is Err,
{
}

/// Parsing refuses a configuration in which two widgets without bindings
/// have the same name.
pub proof fn law_parse_refuses_two_unbound_widgets_of_one_name(
    m: DeviceModelView,
    configuration: ItemConfiguration,
    now: instant::Instant,
    v1: int,
    w1: int,
    v2: int,
    w2: int,
)
    requires
        0 <= v1 < configuration.views.entries().len(),
        0 <= w1 < configuration.views.entries()[v1].1.items.entries().len(),
        0 <= v2 < configuration.views.entries().len(),
        0 <= w2 < configuration.views.entries()[v2].1.items.entries().len(),
        v1 != v2 || w1 != w2,
        configuration.views.entries()[v1].1.items.entries()[w1].0
            == configuration.views.entries()[v2].1.items.entries()[w2].0,
        configuration.views.entries()[v1].1.items.entries()[w1].1.bindings().len() == 0,
        configuration.views.entries()[v2].1.items.entries()[w2].1.bindings().len() == 0,
    ensures
        parsed(m, configuration, now) is Err,
    decreases
            if v1 < v2 || (v1 == v2 && w1 < w2) {
                0nat
            } else {
                1nat
            },
{
    if !(v1 < v2 || (v1 == v2 && w1 < w2)) {
        law_parse_refuses_two_unbound_widgets_of_one_name(m, configuration, now, v2, w2, v1, w1);
    } else if parsed(m, configuration, now) is Ok {
        let start = DeviceModelView {
            current_view: Some(first_view()),
            fullscreen_widget: m.fullscreen_widget,
            ..empty_model()
        };
        let views = configuration.views.entries();
        let name = views[v1].1.items.entries()[w1].0;
        let second = views[v2].1.items.entries();
        lemma_with_views_grows(start, views, (v2 + 1) as nat, views.len(), now);
        lemma_with_views_grows(start, views, v2 as nat, (v2 + 1) as nat, now);
        let outer = with_views(start, views, v2 as nat, now)->Ok_0;
        lemma_with_view(outer, views[v2].0, views[v2].1, now);
        lemma_with_widgets_grows(outer, views[v2].0, second, (w2 + 1) as nat, second.len(), now);
        lemma_with_widgets_grows(outer, views[v2].0, second, w2 as nat, (w2 + 1) as nat, now);
        let before = with_widgets(outer, views[v2].0, second, w2 as nat, now)->Ok_0;
        if v1 < v2 {
            lemma_with_views_at(start, views, v2 as nat, now, v1, w1);
            lemma_subscribed_item_is_known(outer, name, name, name);
            lemma_with_widgets_grows(outer, views[v2].0, second, 0, w2 as nat, now);
        } else {
            lemma_with_widgets_at(outer, views[v2].0, second, w2 as nat, now, w1);
            lemma_subscribed_item_is_known(before, name, name, name);
        }
        assert(has_key(before.smart_home_items, name));
        lemma_unbound_widget_needs_free_name(before, views[v2].0, name, second[w2].1, now);
    }
}

/// An update of an item that no widget follows fails as such and changes
/// nothing, however often it comes.
pub proof fn law_update_of_unknown_item_changes_nothing(
    m: DeviceModelView,
    item: Seq<char>,
    state: Seq<char>,
    now: instant::Instant,
)
    requires
        !has_key(m.smart_home_items, item),
    ensures
        state_changed_result(m, item, state, now) == (Delivery {
            model: m,
            outcome: Err(DeviceModelErrorView::ItemNotFound(item)),
        }),
{
    lemma_position_of(m.smart_home_items, item);
}

/// Binding a key that is bound keeps the keys of the table.
pub proof fn lemma_rebinding_keeps_keys<V>(e: Seq<(Seq<char>, V)>, key: Seq<char>, value: V)
    requires
        has_key(e, key),
    ensures
        keys_of(with_entry(e, key, value)) == keys_of(e),
{
    lemma_position_of(e, key);
    assert(keys_of(with_entry(e, key, value)) =~= keys_of(e));
}

/// Tables with the same keys bind the same keys, each key once or not.
pub proof fn lemma_same_keys<V, U>(a: Seq<(Seq<char>, V)>, b: Seq<(Seq<char>, U)>)
    requires
        keys_of(a) == keys_of(b),
    ensures
        forall|key: Seq<char>| #[trigger] has_key(a, key) <==> has_key(b, key),
        distinct_keys(a) <==> distinct_keys(b),
{
    assert(a.len() == keys_of(a).len());
    assert(b.len() == keys_of(b).len());
    assert forall|key: Seq<char>| #[trigger] has_key(a, key) <==> has_key(b, key) by {
        if has_key(a, key) {
            let i = choose|i: int| 0 <= i < a.len() && (#[trigger] a[i]).0 == key;
            assert(keys_of(a)[i] == key);
            assert(b[i].0 == keys_of(b)[i]);
        }
        if has_key(b, key) {
            let i = choose|i: int| 0 <= i < b.len() && (#[trigger] b[i]).0 == key;
            assert(keys_of(b)[i] == key);
            assert(a[i].0 == keys_of(a)[i]);
        }
    }
    if distinct_keys(a) {
        assert forall|i: int, j: int| 0 <= i < j < b.len() implies (#[trigger] b[i]).0 != (
        #[trigger] b[j]).0 by {
            assert(a[i].0 == keys_of(a)[i]);
            assert(a[j].0 == keys_of(a)[j]);
            assert(b[i].0 == keys_of(b)[i]);
            assert(b[j].0 == keys_of(b)[j]);
        }
    }
    if distinct_keys(b) {
        assert forall|i: int, j: int| 0 <= i < j < a.len() implies (#[trigger] a[i]).0 != (
        #[trigger] a[j]).0 by {
            assert(a[i].0 == keys_of(a)[i]);
            assert(a[j].0 == keys_of(a)[j]);
            assert(b[i].0 == keys_of(b)[i]);
            assert(b[j].0 == keys_of(b)[j]);
        }
    }
}

/// On a routed model, delivering a state to subscribers of an item succeeds
/// and changes nothing but the state of registered widgets.
pub proof fn lemma_delivered_on_routed(
    m: DeviceModelView,
    item: Seq<char>,
    n: nat,
    state: Seq<char>,
    now: instant::Instant,
)
    requires
        routed(m),
        n <= subscribers_of(m.smart_home_items, item).len(),
    ensures
        ({
            let r = delivered(m, subscribers_of(m.smart_home_items, item), n, state, now);
            &&& r.outcome is Ok
            &&& keys_of(r.model.widgets) == keys_of(m.widgets)
            &&& r.model == (DeviceModelView { widgets: r.model.widgets, ..m })
        }),
    decreases n,
{
    let subs = subscribers_of(m.smart_home_items, item);
    if n > 0 {
        lemma_delivered_on_routed(m, item, (n - 1) as nat, state, now);
        let before = delivered(m, subs, (n - 1) as nat, state, now);
        let subscriber = subs[n - 1];
        assert(subs.contains(subscriber));
        assert(subscribes(m, item, subscriber.0, subscriber.1));
        assert(has_key(m.widgets, subscriber.0));
        assert(has_key(m.widget_settings, subscriber.0));
        lemma_same_keys(m.widgets, before.model.widgets);
        lemma_position_of(before.model.widgets, subscriber.0);
        lemma_position_of(m.widget_settings, subscriber.0);
        let widget = lookup(before.model.widgets, subscriber.0)->Some_0;
        lemma_rebinding_keeps_keys(
            before.model.widgets,
            subscriber.0,
            widget_after(widget, subscriber.1, state, now),
        );
    } else {
        assert(m == (DeviceModelView { widgets: m.widgets, ..m }));
    }
}

/// On a routed model, an update of an item that some widget follows
/// succeeds. It changes the state of widgets and nothing else, and the model
/// stays routed.
pub proof fn law_update_of_followed_item_succeeds(
    m: DeviceModelView,
    item: Seq<char>,
    state: Seq<char>,
    now: instant::Instant,
)
    requires
        routed(m),
        has_key(m.smart_home_items, item),
    ensures
        ({
            let r = state_changed_result(m, item, state, now);
            &&& r.outcome is Ok
            &&& routed(r.model)
            &&& keys_of(r.model.widgets) == keys_of(m.widgets)
            &&& r.model == (DeviceModelView { widgets: r.model.widgets, ..m })
        }),
{
    lemma_position_of(m.smart_home_items, item);
    let subs = subscribers_of(m.smart_home_items, item);
    lemma_delivered_on_routed(m, item, subs.len(), state, now);
    let r = state_changed_result(m, item, state, now);
    lemma_same_keys(m.widgets, r.model.widgets);
    assert forall|name: Seq<char>| #[trigger]
        has_key(r.model.widgets, name) <==> has_key(r.model.widget_settings, name) by {
        assert(has_key(m.widgets, name) <==> has_key(m.widget_settings, name));
    }
    assert forall|i: Seq<char>, widget: Seq<char>, key: Seq<char>| #[trigger]
        subscribes(r.model, i, widget, key) implies has_key(r.model.widgets, widget) by {
        assert(subscribes(m, i, widget, key));
    }
    assert forall|view: Seq<char>, i: int|
        lookup(r.model.views, view) is Some && 0 <= i < lookup(r.model.views, view).unwrap().len()
        implies has_key(r.model.widgets, #[trigger] lookup(r.model.views, view).unwrap()[i]) by {
        assert(has_key(m.widgets, lookup(m.views, view).unwrap()[i]));
    }
}

/// A widget after it took a state under each key with which it stands among
/// the first `n` subscribers, in order.
pub open spec fn taken_under_keys(
    widget: WidgetView,
    widget_name: Seq<char>,
    subscribers: Seq<(Seq<char>, Seq<char>)>,
    n: nat,
    state: Seq<char>,
    now: instant::Instant,
) -> WidgetView
    decreases n,
{
    if n == 0 {
        widget
    } else {
        let before = taken_under_keys(
            widget,
            widget_name,
            subscribers,
            (n - 1) as nat,
            state,
            now,
        );
        if subscribers[n - 1].0 == widget_name {
            widget_after(before, subscribers[n - 1].1, state, now)
        } else {
            before
        }
    }
}

/// What delivering a state to the first `n` subscribers of an item does to
/// a registered widget: it has taken the state under each key with which it
/// stands among those subscribers.
pub proof fn lemma_delivered_to_widget(
    m: DeviceModelView,
    item: Seq<char>,
    n: nat,
    state: Seq<char>,
    now: instant::Instant,
    widget_name: Seq<char>,
)
    requires
        routed(m),
        n <= subscribers_of(m.smart_home_items, item).len(),
        has_key(m.widgets, widget_name),
    ensures
        ({
            let subs = subscribers_of(m.smart_home_items, item);
            let r = delivered(m, subs, n, state, now);
            lookup(r.model.widgets, widget_name) == Some(
                taken_under_keys(
                    lookup(m.widgets, widget_name)->Some_0,
                    widget_name,
                    subs,
                    n,
                    state,
                    now,
                ),
            )
        }),
    decreases n,
{
    let subs = subscribers_of(m.smart_home_items, item);
    lemma_position_of(m.widgets, widget_name);
    if n > 0 {
        lemma_delivered_to_widget(m, item, (n - 1) as nat, state, now, widget_name);
        lemma_delivered_on_routed(m, item, (n - 1) as nat, state, now);
        lemma_delivered_on_routed(m, item, n, state, now);
        let before = delivered(m, subs, (n - 1) as nat, state, now);
        let subscriber = subs[n - 1];
        assert(subs.contains(subscriber));
        assert(subscribes(m, item, subscriber.0, subscriber.1));
        lemma_same_keys(m.widgets, before.model.widgets);
        lemma_position_of(before.model.widgets, subscriber.0);
        lemma_position_of(m.widget_settings, subscriber.0);
        let widget = lookup(before.model.widgets, subscriber.0)->Some_0;
        lemma_with_entry(
            before.model.widgets,
            subscriber.0,
            widget_after(widget, subscriber.1, state, now),
        );
    }
}

/// On a routed model, an update of an item changes each widget as follows:
/// the widget takes the state under each key with which it follows the item,
/// in the order of the subscriber table. A widget that does not follow the
/// item stays as it is.
pub proof fn law_update_reaches_every_subscriber_under_its_keys(
    m: DeviceModelView,
    item: Seq<char>,
    state: Seq<char>,
    now: instant::Instant,
    widget_name: Seq<char>,
)
    requires
        routed(m),
        has_key(m.smart_home_items, item),
        has_key(m.widgets, widget_name),
    ensures
        ({
            let subs = subscribers_of(m.smart_home_items, item);
            &&& lookup(state_changed_result(m, item, state, now).model.widgets, widget_name)
                == Some(
                taken_under_keys(
                    lookup(m.widgets, widget_name)->Some_0,
                    widget_name,
                    subs,
                    subs.len(),
                    state,
                    now,
                ),
            )
            &&& (forall|key: Seq<char>| !#[trigger] subscribes(m, item, widget_name, key))
                ==> lookup(
                state_changed_result(m, item, state, now).model.widgets,
                widget_name,
            ) == lookup(m.widgets, widget_name)
        }),
{
    lemma_position_of(m.smart_home_items, item);
    lemma_position_of(m.widgets, widget_name);
    let subs = subscribers_of(m.smart_home_items, item);
    lemma_delivered_to_widget(m, item, subs.len(), state, now, widget_name);
    if forall|key: Seq<char>| !#[trigger] subscribes(m, item, widget_name, key) {
        assert forall|key: Seq<char>| !subs.contains((widget_name, key)) by {
            assert(!subscribes(m, item, widget_name, key));
        }
        lemma_untouched(
            lookup(m.widgets, widget_name)->Some_0,
            widget_name,
            subs,
            subs.len(),
            state,
            now,
        );
    }
}

/// A widget that stands nowhere among the subscribers takes nothing.
pub proof fn lemma_untouched(
    widget: WidgetView,
    widget_name: Seq<char>,
    subscribers: Seq<(Seq<char>, Seq<char>)>,
    n: nat,
    state: Seq<char>,
    now: instant::Instant,
)
    requires
        n <= subscribers.len(),
        forall|key: Seq<char>| !subscribers.contains((widget_name, key)),
    ensures
        taken_under_keys(widget, widget_name, subscribers, n, state, now) == widget,
    decreases n,
{
    if n > 0 {
        lemma_untouched(widget, widget_name, subscribers, (n - 1) as nat, state, now);
        if subscribers[n - 1].0 == widget_name {
            assert(subscribers.contains((widget_name, subscribers[n - 1].1)));
        }
    }
}

/// What delivering a state to the first `n` subscribers of an item does to
/// the widget of the subscriber at position `j`, where that widget follows
/// the item only once: nothing before its turn, and after its turn it has
/// taken the state under its key.
pub proof fn lemma_delivered_reaches(
    m: DeviceModelView,
    item: Seq<char>,
    n: nat,
    state: Seq<char>,
    now: instant::Instant,
    j: int,
)
    requires
        routed(m),
        n <= subscribers_of(m.smart_home_items, item).len(),
        0 <= j < subscribers_of(m.smart_home_items, item).len(),
        forall|i: int|
            0 <= i < subscribers_of(m.smart_home_items, item).len() && i != j ==> (
            #[trigger] subscribers_of(m.smart_home_items, item)[i]).0 != subscribers_of(
                m.smart_home_items,
                item,
            )[j].0,
    ensures
        ({
            let subs = subscribers_of(m.smart_home_items, item);
            let r = delivered(m, subs, n, state, now);
            lookup(r.model.widgets, subs[j].0) == if n <= j {
                lookup(m.widgets, subs[j].0)
            } else {
                Some(widget_after(lookup(m.widgets, subs[j].0)->Some_0, subs[j].1, state, now))
            }
        }),
    decreases n,
{
    let subs = subscribers_of(m.smart_home_items, item);
    if n > 0 {
        lemma_delivered_reaches(m, item, (n - 1) as nat, state, now, j);
        lemma_delivered_on_routed(m, item, (n - 1) as nat, state, now);
        lemma_delivered_on_routed(m, item, n, state, now);
        let before = delivered(m, subs, (n - 1) as nat, state, now);
        let subscriber = subs[n - 1];
        assert(subs.contains(subscriber));
        assert(subscribes(m, item, subscriber.0, subscriber.1));
        lemma_same_keys(m.widgets, before.model.widgets);
        lemma_position_of(before.model.widgets, subscriber.0);
        lemma_position_of(m.widget_settings, subscriber.0);
        let widget = lookup(before.model.widgets, subscriber.0)->Some_0;
        lemma_with_entry(
            before.model.widgets,
            subscriber.0,
            widget_after(widget, subscriber.1, state, now),
        );
    }
}

/// On a routed model, an update of an item reaches each widget that follows
/// the item under the key that the widget has for the item, not under the
/// name of the item: after the update the widget is what it was, with the
/// state taken under that key.
pub proof fn law_update_reaches_subscriber_under_its_key(
    m: DeviceModelView,
    item: Seq<char>,
    state: Seq<char>,
    now: instant::Instant,
    j: int,
)
    requires
        routed(m),
        has_key(m.smart_home_items, item),
        0 <= j < subscribers_of(m.smart_home_items, item).len(),
        forall|i: int|
            0 <= i < subscribers_of(m.smart_home_items, item).len() && i != j ==> (
            #[trigger] subscribers_of(m.smart_home_items, item)[i]).0 != subscribers_of(
                m.smart_home_items,
                item,
            )[j].0,
    ensures
        ({
            let subscriber = subscribers_of(m.smart_home_items, item)[j];
            &&& lookup(m.widgets, subscriber.0) is Some
            &&& lookup(state_changed_result(m, item, state, now).model.widgets, subscriber.0)
                == Some(
                widget_after(lookup(m.widgets, subscriber.0)->Some_0, subscriber.1, state, now),
            )
        }),
{
    lemma_position_of(m.smart_home_items, item);
    let subs = subscribers_of(m.smart_home_items, item);
    lemma_delivered_reaches(m, item, subs.len(), state, now, j);
    assert(subs.contains(subs[j]));
    assert(subscribes(m, item, subs[j].0, subs[j].1));
    lemma_position_of(m.widgets, subs[j].0);
}

/// Whether a widget stands at most once in a list of subscribers.
pub open spec fn stands_once(list: Seq<(Seq<char>, Seq<char>)>, widget: Seq<char>) -> bool {
    forall|i: int, j: int|
        0 <= i < list.len() && 0 <= j < list.len() && (#[trigger] list[i]).0 == widget && (
        #[trigger] list[j]).0 == widget ==> i == j
}

/// Whether a widget stands in a list of subscribers.
pub open spec fn stands_in(list: Seq<(Seq<char>, Seq<char>)>, widget: Seq<char>) -> bool {
    exists|i: int| 0 <= i < list.len() && (#[trigger] list[i]).0 == widget
}

/// Whether a widget follows an item at most once.
pub open spec fn follows_once(m: DeviceModelView, item: Seq<char>, widget: Seq<char>) -> bool {
    stands_once(subscribers_of(m.smart_home_items, item), widget)
}

/// Whether a widget follows an item.
pub open spec fn follows(
    subscribers: Seq<(Seq<char>, Seq<(Seq<char>, Seq<char>)>)>,
    item: Seq<char>,
    widget: Seq<char>,
) -> bool {
    stands_in(subscribers_of(subscribers, item), widget)
}

/// What subscribing a new widget to the items of its first `n` bindings does
/// where the bindings name each item once: the widget stands once under the
/// item of each of those bindings and nowhere else, and every other widget
/// stands where it stood.
pub proof fn lemma_subscribed_once(
    subscribers: Seq<(Seq<char>, Seq<(Seq<char>, Seq<char>)>)>,
    widget_name: Seq<char>,
    bindings: Seq<(Seq<char>, Option<Seq<char>>)>,
    n: nat,
)
    requires
        n <= bindings.len(),
        distinct_keys(bindings),
        forall|item: Seq<char>| !#[trigger] follows(subscribers, item, widget_name),
        forall|item: Seq<char>, widget: Seq<char>| #[trigger]
            stands_once(subscribers_of(subscribers, item), widget),
    ensures
        ({
            let r = subscribed(subscribers, widget_name, bindings, n);
            &&& forall|item: Seq<char>, widget: Seq<char>| #[trigger]
                stands_once(subscribers_of(r, item), widget)
            &&& forall|item: Seq<char>| #[trigger]
                follows(r, item, widget_name) ==> exists|j: int|
                    0 <= j < n && (#[trigger] bindings[j]).0 == item
        }),
    decreases n,
{
    if n > 0 {
        lemma_subscribed_once(subscribers, widget_name, bindings, (n - 1) as nat);
        let before = subscribed(subscribers, widget_name, bindings, (n - 1) as nat);
        let binding = bindings[n - 1];
        let added = (widget_name, resolved_key(binding));
        let earlier = subscribers_of(before, binding.0);
        let list = earlier.push(added);
        let r = with_entry(before, binding.0, list);
        assert(r == subscribed(subscribers, widget_name, bindings, n));
        lemma_with_entry(before, binding.0, list);
        assert(!stands_in(earlier, widget_name)) by {
            if follows(before, binding.0, widget_name) {
                let j = choose|j: int| 0 <= j < n - 1 && (#[trigger] bindings[j]).0 == binding.0;
                assert(bindings[j].0 != bindings[n - 1].0);
            }
        }
        assert forall|item: Seq<char>, widget: Seq<char>| #[trigger]
            stands_once(subscribers_of(r, item), widget) by {
            if item == binding.0 {
                assert(subscribers_of(r, item) == list);
                assert forall|i: int, j: int|
                    0 <= i < list.len() && 0 <= j < list.len() && (#[trigger] list[i]).0 == widget
                        && (#[trigger] list[j]).0 == widget implies i == j by {
                    if i < earlier.len() && j < earlier.len() {
                        assert(stands_once(earlier, widget));
                        assert(earlier[i] == list[i]);
                        assert(earlier[j] == list[j]);
                    } else if i < earlier.len() {
                        assert(earlier[i].0 == widget_name);
                    } else if j < earlier.len() {
                        assert(earlier[j].0 == widget_name);
                    }
                }
            } else {
                assert(lookup(r, item) == lookup(before, item));
                assert(stands_once(subscribers_of(before, item), widget));
            }
        }
        assert forall|item: Seq<char>| #[trigger] follows(r, item, widget_name) implies exists|
            j: int,
        | 0 <= j < n && (#[trigger] bindings[j]).0 == item by {
            if item == binding.0 {
                assert(bindings[n - 1].0 == item);
            } else {
                assert(lookup(r, item) == lookup(before, item));
                assert(follows(before, item, widget_name));
                let j = choose|j: int| 0 <= j < n - 1 && (#[trigger] bindings[j]).0 == item;
                assert(bindings[j].0 == item);
            }
        }
    }
}

/// Registering a widget whose name is new, and whose bindings name each item
/// once, keeps every widget at most once among the subscribers of each item.
pub proof fn lemma_with_widget_once(
    m: DeviceModelView,
    view_name: Seq<char>,
    widget_name: Seq<char>,
    item: Item,
    now: instant::Instant,
)
    requires
        with_widget(m, view_name, widget_name, item, now) is Ok,
        routed(m),
        !has_key(m.widgets, widget_name),
        item.smarthome_items.wf(),
        forall|i: Seq<char>, w: Seq<char>| #[trigger] follows_once(m, i, w),
    ensures
        forall|i: Seq<char>, w: Seq<char>| #[trigger]
            follows_once(with_widget(m, view_name, widget_name, item, now)->Ok_0, i, w),
{
    let r = with_widget(m, view_name, widget_name, item, now)->Ok_0;
    let subs = m.smart_home_items;
    let bindings = item.bindings();
    assert forall|i: Seq<char>| !#[trigger] follows(subs, i, widget_name) by {
        if follows(subs, i, widget_name) {
            let list = subscribers_of(subs, i);
            let k = choose|k: int| 0 <= k < list.len() && (#[trigger] list[k]).0 == widget_name;
            assert(list.contains(list[k]));
            assert(subscribes(m, i, widget_name, list[k].1));
        }
    }
    assert forall|i: Seq<char>, w: Seq<char>| #[trigger]
        stands_once(subscribers_of(subs, i), w) by {
        assert(follows_once(m, i, w));
    }
    if bindings.len() == 0 {
        let implicit = seq![(widget_name, widget_name)];
        lemma_with_entry(subs, widget_name, implicit);
        assert forall|i: Seq<char>, w: Seq<char>| #[trigger] follows_once(r, i, w) by {
            if i == widget_name {
                assert(subscribers_of(r.smart_home_items, i) == implicit);
            } else {
                assert(lookup(r.smart_home_items, i) == lookup(subs, i));
                assert(stands_once(subscribers_of(subs, i), w));
            }
        }
    } else {
        crate::table::lemma_lookup_deep(item.smarthome_items, widget_name);
        lemma_subscribed_once(subs, widget_name, bindings, bindings.len());
        assert forall|i: Seq<char>, w: Seq<char>| #[trigger] follows_once(r, i, w) by {
            assert(stands_once(subscribers_of(r.smart_home_items, i), w));
        }
    }
}

/// The names in the registry after the first `n` widgets of a view were
/// registered: those that were there, and those of the widgets.
pub proof fn lemma_with_widgets_names(
    m: DeviceModelView,
    view_name: Seq<char>,
    widgets: Seq<(Seq<char>, Item)>,
    n: nat,
    now: instant::Instant,
    name: Seq<char>,
)
    requires
        n <= widgets.len(),
        with_widgets(m, view_name, widgets, n, now) is Ok,
        has_key(with_widgets(m, view_name, widgets, n, now)->Ok_0.widgets, name),
    ensures
        has_key(m.widgets, name) || exists|j: int| 0 <= j < n && (#[trigger] widgets[j]).0 == name,
    decreases n,
{
    if n > 0 {
        let before = with_widgets(m, view_name, widgets, (n - 1) as nat, now)->Ok_0;
        let widget = registered_widget(widgets[n - 1].1, now)->Ok_0;
        lemma_with_entry(before.widgets, widgets[n - 1].0, widget);
        if name == widgets[n - 1].0 {
        } else {
            assert(has_key(before.widgets, name));
            lemma_with_widgets_names(m, view_name, widgets, (n - 1) as nat, now, name);
            if !has_key(m.widgets, name) {
                let j = choose|j: int| 0 <= j < n - 1 && (#[trigger] widgets[j]).0 == name;
                assert(widgets[j].0 == name);
            }
        }
    }
}

/// The names in the registry after the first `n` views were registered:
/// those that were there, and those of the widgets of the views.
pub proof fn lemma_with_views_names(
    m: DeviceModelView,
    views: Seq<(Seq<char>, ViewConfiguration)>,
    n: nat,
    now: instant::Instant,
    name: Seq<char>,
)
    requires
        n <= views.len(),
        with_views(m, views, n, now) is Ok,
        has_key(with_views(m, views, n, now)->Ok_0.widgets, name),
    ensures
        has_key(m.widgets, name) || exists|v: int, w: int|
            0 <= v < n && 0 <= w < views[v].1.items.entries().len() && (
            #[trigger] views[v].1.items.entries()[w]).0 == name,
    decreases n,
{
    if n > 0 {
        let before = with_views(m, views, (n - 1) as nat, now)->Ok_0;
        let widgets = views[n - 1].1.items.entries();
        lemma_with_view(before, views[n - 1].0, views[n - 1].1, now);
        lemma_with_widgets_names(before, views[n - 1].0, widgets, widgets.len(), now, name);
        if has_key(before.widgets, name) {
            lemma_with_views_names(m, views, (n - 1) as nat, now, name);
            if !has_key(m.widgets, name) {
                let (v, w) = choose|v: int, w: int|
                    0 <= v < n - 1 && 0 <= w < views[v].1.items.entries().len() && (
                    #[trigger] views[v].1.items.entries()[w]).0 == name;
                assert(views[v].1.items.entries()[w].0 == name);
            }
        } else {
            let w = choose|w: int| 0 <= w < widgets.len() && (#[trigger] widgets[w]).0 == name;
            assert(views[n - 1].1.items.entries()[w].0 == name);
        }
    }
}

/// Registering the first `n` widgets of the view at position `v` of a well
/// formed configuration with unique widget names keeps every widget at most
/// once among the subscribers of each item.
pub proof fn lemma_with_widgets_once(
    configuration: ItemConfiguration,
    start: DeviceModelView,
    v: int,
    n: nat,
    now: instant::Instant,
)
    requires
        configuration.wf(),
        configuration.unique_widget_names(),
        start.widgets.len() == 0,
        0 <= v < configuration.views.entries().len(),
        n <= configuration.views.entries()[v].1.items.entries().len(),
        with_views(start, configuration.views.entries(), v as nat, now) is Ok,
        routed(with_views(start, configuration.views.entries(), v as nat, now)->Ok_0),
        forall|i: Seq<char>, w: Seq<char>| #[trigger]
            follows_once(
                with_views(start, configuration.views.entries(), v as nat, now)->Ok_0,
                i,
                w,
            ),
        with_widgets(
            with_views(start, configuration.views.entries(), v as nat, now)->Ok_0,
            configuration.views.entries()[v].0,
            configuration.views.entries()[v].1.items.entries(),
            n,
            now,
        ) is Ok,
    ensures
        forall|i: Seq<char>, w: Seq<char>| #[trigger]
            follows_once(
                with_widgets(
                    with_views(start, configuration.views.entries(), v as nat, now)->Ok_0,
                    configuration.views.entries()[v].0,
                    configuration.views.entries()[v].1.items.entries(),
                    n,
                    now,
                )->Ok_0,
                i,
                w,
            ),
    decreases n,
{
    let views = configuration.views.entries();
    let outer = with_views(start, views, v as nat, now)->Ok_0;
    let widgets = views[v].1.items.entries();
    if n > 0 {
        lemma_with_widgets_grows(outer, views[v].0, widgets, (n - 1) as nat, n, now);
        lemma_with_widgets_grows(outer, views[v].0, widgets, 0, (n - 1) as nat, now);
        lemma_with_widgets_once(configuration, start, v, (n - 1) as nat, now);
        let before = with_widgets(outer, views[v].0, widgets, (n - 1) as nat, now)->Ok_0;
        let name = widgets[n - 1].0;
        if has_key(before.widgets, name) {
            lemma_with_widgets_names(outer, views[v].0, widgets, (n - 1) as nat, now, name);
            if has_key(outer.widgets, name) {
                lemma_with_views_names(start, views, v as nat, now, name);
                assert(!has_key(start.widgets, name));
                let (v0, w0) = choose|v0: int, w0: int|
                    0 <= v0 < v && 0 <= w0 < views[v0].1.items.entries().len() && (
                    #[trigger] views[v0].1.items.entries()[w0]).0 == name;
                assert(views[v0].1.items.entries()[w0].0 != views[v].1.items.entries()[n - 1].0);
            } else {
                let j = choose|j: int| 0 <= j < n - 1 && (#[trigger] widgets[j]).0 == name;
                assert(views[v].1.items.entries()[j].0 != views[v].1.items.entries()[n - 1].0);
            }
        }
        assert(views[v].1.wf());
        assert(widgets[n - 1].1.wf());
        lemma_with_widget_once(before, views[v].0, name, widgets[n - 1].1, now);
    }
}

/// Registering the first `n` views of a well formed configuration with
/// unique widget names keeps every widget at most once among the subscribers
/// of each item.
pub proof fn lemma_with_views_once(
    configuration: ItemConfiguration,
    start: DeviceModelView,
    n: nat,
    now: instant::Instant,
)
    requires
        configuration.wf(),
        configuration.unique_widget_names(),
        start.widgets.len() == 0,
        routed(start),
        forall|i: Seq<char>, w: Seq<char>| #[trigger] follows_once(start, i, w),
        n <= configuration.views.entries().len(),
        with_views(start, configuration.views.entries(), n, now) is Ok,
    ensures
        forall|i: Seq<char>, w: Seq<char>| #[trigger]
            follows_once(with_views(start, configuration.views.entries(), n, now)->Ok_0, i, w),
    decreases n,
{
    let views = configuration.views.entries();
    if n > 0 {
        lemma_with_views_grows(start, views, (n - 1) as nat, n, now);
        lemma_with_views_grows(start, views, 0, (n - 1) as nat, now);
        lemma_with_views_once(configuration, start, (n - 1) as nat, now);
        let before = with_views(start, views, (n - 1) as nat, now)->Ok_0;
        let widgets = views[n - 1].1.items.entries();
        lemma_with_view(before, views[n - 1].0, views[n - 1].1, now);
        lemma_with_widgets_once(configuration, start, n - 1, widgets.len(), now);
        let inner = with_widgets(before, views[n - 1].0, widgets, widgets.len(), now)->Ok_0;
        let r = with_views(start, views, n, now)->Ok_0;
        assert forall|i: Seq<char>, w: Seq<char>| #[trigger] follows_once(r, i, w) by {
            assert(follows_once(inner, i, w));
        }
    }
}

/// After a well formed configuration with unique widget names is parsed,
/// every widget stands at most once among the subscribers of each item.
pub proof fn law_parse_subscribes_each_widget_once_per_item(
    m: DeviceModelView,
    configuration: ItemConfiguration,
    now: instant::Instant,
    item: Seq<char>,
    widget: Seq<char>,
)
    requires
        parsed(m, configuration, now) is Ok,
        configuration.wf(),
        configuration.unique_widget_names(),
    ensures
        follows_once(parsed(m, configuration, now)->Ok_0, item, widget),
{
    let start = DeviceModelView {
        current_view: Some(first_view()),
        fullscreen_widget: m.fullscreen_widget,
        ..empty_model()
    };
    let views = configuration.views.entries();
    lemma_start_is_routed(Some(first_view()), m.fullscreen_widget);
    assert forall|i: Seq<char>, w: Seq<char>| #[trigger] follows_once(start, i, w) by {
        lemma_position_of(start.smart_home_items, i);
    }
    lemma_with_views_once(configuration, start, views.len(), now);
    assert(follows_once(with_views(start, views, views.len(), now)->Ok_0, item, widget));
}

/// What subscribing a widget without bindings does to a subscriber table.
/// Where the name of the widget has no subscriber yet, the widget becomes
/// the one subscriber under its name, with its name as the key, and every
/// other item keeps its subscribers. Where the name has a subscriber, the
/// subscription fails.
pub proof fn law_unbound_widget_subscribes_under_its_name(
    subscribers: Seq<(Seq<char>, Seq<(Seq<char>, Seq<char>)>)>,
    widget_name: Seq<char>,
    other: Seq<char>,
)
    ensures
        has_key(subscribers, widget_name) ==> subscribers_with(
            subscribers,
            widget_name,
            Seq::empty(),
        ) == Err::<Seq<(Seq<char>, Seq<(Seq<char>, Seq<char>)>)>, DeviceModelErrorView>(
            DeviceModelErrorView::DuplicateImplicitBinding(widget_name),
        ),
        !has_key(subscribers, widget_name) ==> {
            let r = subscribers_with(subscribers, widget_name, Seq::empty());
            &&& r is Ok
            &&& lookup(r->Ok_0, widget_name) == Some(seq![(widget_name, widget_name)])
            &&& other != widget_name ==> lookup(r->Ok_0, other) == lookup(subscribers, other)
        },
{
    lemma_with_entry(subscribers, widget_name, seq![(widget_name, widget_name)]);
}

/// Whether a configured widget, given as its name and its configuration,
/// does not subscribe to `target`: none of its bindings names `target`, and
/// it is not a widget without bindings that has `target` as its own name.
pub open spec fn entry_silent(entry: (Seq<char>, Item), target: Seq<char>) -> bool {
    &&& forall|b: int|
        0 <= b < entry.1.bindings().len() ==> (#[trigger] entry.1.bindings()[b]).0 != target
    &&& !(entry.1.bindings().len() == 0 && entry.0 == target)
}

/// Whether a configured widget binds `target` with its binding `b` and with
/// no other.
pub open spec fn binds_only_at(entry: (Seq<char>, Item), target: Seq<char>, b: int) -> bool {
    &&& 0 <= b < entry.1.bindings().len()
    &&& entry.1.bindings()[b].0 == target
    &&& forall|j: int|
        0 <= j < entry.1.bindings().len() && j != b ==> (#[trigger] entry.1.bindings()[j]).0
            != target
}

/// Whether, in the whole configuration, `target` is bound by the binding `b`
/// of the widget at position `w` of the view at position `v` and by nothing
/// else.
pub open spec fn bound_only_at(
    configuration: ItemConfiguration,
    target: Seq<char>,
    v: int,
    w: int,
    b: int,
) -> bool {
    let views = configuration.views.entries();
    &&& 0 <= v < views.len()
    &&& 0 <= w < views[v].1.items.entries().len()
    &&& binds_only_at(views[v].1.items.entries()[w], target, b)
    &&& forall|v2: int, w2: int|
        0 <= v2 < views.len() && 0 <= w2 < views[v2].1.items.entries().len() && (v2 != v || w2
            != w) ==> entry_silent(#[trigger] views[v2].1.items.entries()[w2], target)
}

/// Subscribing to items other than `target` leaves the subscribers of
/// `target` as they are.
pub proof fn lemma_subscribed_elsewhere(
    subscribers: Seq<(Seq<char>, Seq<(Seq<char>, Seq<char>)>)>,
    widget_name: Seq<char>,
    bindings: Seq<(Seq<char>, Option<Seq<char>>)>,
    n: nat,
    target: Seq<char>,
)
    requires
        n <= bindings.len(),
        forall|j: int| 0 <= j < n ==> (#[trigger] bindings[j]).0 != target,
    ensures
        lookup(subscribed(subscribers, widget_name, bindings, n), target) == lookup(
            subscribers,
            target,
        ),
    decreases n,
{
    if n > 0 {
        lemma_subscribed_elsewhere(subscribers, widget_name, bindings, (n - 1) as nat, target);
        let before = subscribed(subscribers, widget_name, bindings, (n - 1) as nat);
        let binding = bindings[n - 1];
        lemma_with_entry(
            before,
            binding.0,
            subscribers_of(before, binding.0).push((widget_name, resolved_key(binding))),
        );
    }
}

/// Subscribing a widget whose one binding to `target` is the binding `b`
/// adds the widget, with the key of that binding, behind the subscribers of
/// `target`, once the binding is reached.
pub proof fn lemma_subscribed_at(
    subscribers: Seq<(Seq<char>, Seq<(Seq<char>, Seq<char>)>)>,
    widget_name: Seq<char>,
    bindings: Seq<(Seq<char>, Option<Seq<char>>)>,
    n: nat,
    target: Seq<char>,
    b: int,
)
    requires
        n <= bindings.len(),
        0 <= b < bindings.len(),
        bindings[b].0 == target,
        forall|j: int| 0 <= j < bindings.len() && j != b ==> (#[trigger] bindings[j]).0 != target,
    ensures
        subscribers_of(subscribed(subscribers, widget_name, bindings, n), target) == if n <= b {
            subscribers_of(subscribers, target)
        } else {
            subscribers_of(subscribers, target).push((widget_name, resolved_key(bindings[b])))
        },
    decreases n,
{
    if n > 0 {
        lemma_subscribed_at(subscribers, widget_name, bindings, (n - 1) as nat, target, b);
        let before = subscribed(subscribers, widget_name, bindings, (n - 1) as nat);
        let binding = bindings[n - 1];
        lemma_with_entry(
            before,
            binding.0,
            subscribers_of(before, binding.0).push((widget_name, resolved_key(binding))),
        );
        if n - 1 != b {
            assert(bindings[n - 1].0 != target);
        }
    }
}

/// What registering a widget does to the subscribers of `target`: nothing
/// where the widget does not subscribe to it; and where the widget binds it
/// with one binding, the widget is added behind them with the key of that
/// binding.
pub proof fn lemma_with_widget_subscribers(
    m: DeviceModelView,
    view_name: Seq<char>,
    widget_name: Seq<char>,
    item: Item,
    now: instant::Instant,
    target: Seq<char>,
    b: int,
)
    requires
        with_widget(m, view_name, widget_name, item, now) is Ok,
    ensures
        entry_silent((widget_name, item), target) ==> lookup(
            with_widget(m, view_name, widget_name, item, now)->Ok_0.smart_home_items,
            target,
        ) == lookup(m.smart_home_items, target),
        binds_only_at((widget_name, item), target, b) ==> subscribers_of(
            with_widget(m, view_name, widget_name, item, now)->Ok_0.smart_home_items,
            target,
        ) == subscribers_of(m.smart_home_items, target).push(
            (widget_name, resolved_key(item.bindings()[b])),
        ),
{
    let bindings = item.bindings();
    let subs = m.smart_home_items;
    if entry_silent((widget_name, item), target) {
        if bindings.len() == 0 {
            lemma_with_entry(subs, widget_name, seq![(widget_name, widget_name)]);
        } else {
            assert forall|j: int| 0 <= j < bindings.len() implies (#[trigger] bindings[j]).0
                != target by {
                assert((widget_name, item).1.bindings()[j].0 != target);
            }
            lemma_subscribed_elsewhere(subs, widget_name, bindings, bindings.len(), target);
        }
    }
    if binds_only_at((widget_name, item), target, b) {
        assert forall|j: int| 0 <= j < bindings.len() && j != b implies (#[trigger] bindings[j]).0
            != target by {
            assert((widget_name, item).1.bindings()[j].0 != target);
        }
        lemma_subscribed_at(subs, widget_name, bindings, bindings.len(), target, b);
    }
}

/// What registering the first `n` widgets of a view does to the subscribers
/// of `target`, where only the widget at position `w` subscribes to it, with
/// its binding `b` alone; `w` may lie outside the view, and then no widget
/// of the view subscribes to `target`.
pub proof fn lemma_with_widgets_subscribers(
    m: DeviceModelView,
    view_name: Seq<char>,
    widgets: Seq<(Seq<char>, Item)>,
    n: nat,
    now: instant::Instant,
    target: Seq<char>,
    w: int,
    b: int,
)
    requires
        n <= widgets.len(),
        with_widgets(m, view_name, widgets, n, now) is Ok,
        forall|j: int| 0 <= j < widgets.len() && j != w ==> entry_silent(#[trigger] widgets[j], target),
        0 <= w < widgets.len() ==> binds_only_at(widgets[w], target, b),
    ensures
        subscribers_of(
            with_widgets(m, view_name, widgets, n, now)->Ok_0.smart_home_items,
            target,
        ) == if 0 <= w < n {
            subscribers_of(m.smart_home_items, target).push(
                (widgets[w].0, resolved_key(widgets[w].1.bindings()[b])),
            )
        } else {
            subscribers_of(m.smart_home_items, target)
        },
    decreases n,
{
    if n > 0 {
        let before = with_widgets(m, view_name, widgets, (n - 1) as nat, now);
        assert(before is Ok);
        lemma_with_widgets_subscribers(m, view_name, widgets, (n - 1) as nat, now, target, w, b);
        lemma_with_widget_subscribers(
            before->Ok_0,
            view_name,
            widgets[n - 1].0,
            widgets[n - 1].1,
            now,
            target,
            b,
        );
        if n - 1 != w {
            assert(entry_silent(widgets[n - 1], target));
        }
    }
}

/// What registering the first `n` views does to the subscribers of `target`,
/// where in the whole configuration `target` is bound only by the binding
/// `b` of the widget at position `w` of the view at position `v`.
pub proof fn lemma_with_views_subscribers(
    configuration: ItemConfiguration,
    m: DeviceModelView,
    n: nat,
    now: instant::Instant,
    target: Seq<char>,
    v: int,
    w: int,
    b: int,
)
    requires
        n <= configuration.views.entries().len(),
        with_views(m, configuration.views.entries(), n, now) is Ok,
        bound_only_at(configuration, target, v, w, b),
    ensures
        subscribers_of(
            with_views(m, configuration.views.entries(), n, now)->Ok_0.smart_home_items,
            target,
        ) == if v < n {
            subscribers_of(m.smart_home_items, target).push(
                (
                    configuration.views.entries()[v].1.items.entries()[w].0,
                    resolved_key(
                        configuration.views.entries()[v].1.items.entries()[w].1.bindings()[b],
                    ),
                ),
            )
        } else {
            subscribers_of(m.smart_home_items, target)
        },
    decreases n,
{
    let views = configuration.views.entries();
    if n > 0 {
        let before = with_views(m, views, (n - 1) as nat, now);
        assert(before is Ok);
        lemma_with_views_subscribers(configuration, m, (n - 1) as nat, now, target, v, w, b);
        let widgets = views[n - 1].1.items.entries();
        lemma_with_view(before->Ok_0, views[n - 1].0, views[n - 1].1, now);
        let place = if n - 1 == v {
            w
        } else {
            -1
        };
        assert forall|j: int| 0 <= j < widgets.len() && j != place implies entry_silent(
            #[trigger] widgets[j],
            target,
        ) by {
            assert(entry_silent(views[n - 1].1.items.entries()[j], target));
        }
        lemma_with_widgets_subscribers(
            before->Ok_0,
            views[n - 1].0,
            widgets,
            widgets.len(),
            now,
            target,
            place,
            b,
        );
    }
}

/// After parsing, an item that the whole configuration binds once, with the
/// binding `b` of one widget, has that widget as its one subscriber, with
/// the key of the binding.
pub proof fn law_parse_subscribes_the_one_binder(
    m: DeviceModelView,
    configuration: ItemConfiguration,
    now: instant::Instant,
    target: Seq<char>,
    v: int,
    w: int,
    b: int,
)
    requires
        parsed(m, configuration, now) is Ok,
        bound_only_at(configuration, target, v, w, b),
    ensures
        subscribers_of(parsed(m, configuration, now)->Ok_0.smart_home_items, target) == seq![
            (
                configuration.views.entries()[v].1.items.entries()[w].0,
                resolved_key(configuration.views.entries()[v].1.items.entries()[w].1.bindings()[b]),
            ),
        ],
{
    let start = DeviceModelView {
        current_view: Some(first_view()),
        fullscreen_widget: m.fullscreen_widget,
        ..empty_model()
    };
    let views = configuration.views.entries();
    lemma_position_of(start.smart_home_items, target);
    lemma_with_views_subscribers(configuration, start, views.len(), now, target, v, w, b);
    let widget = views[v].1.items.entries()[w];
    assert(Seq::<(Seq<char>, Seq<char>)>::empty().push(
        (widget.0, resolved_key(widget.1.bindings()[b])),
    ) =~= seq![(widget.0, resolved_key(widget.1.bindings()[b]))]);
}

/// The round trip of a binding, for every configuration that parses. A
/// widget `W` binds the external item `N` under a key, and nothing else in
/// the configuration binds `N`. After parsing, a state of `N` succeeds; `W`
/// is afterwards what it was with the state taken under the key of the
/// binding, which is the key that the binding gives where it gives one;
/// every other widget is as it was; and the scene modifications returned are
/// those that the settings of `W` ask for.
pub proof fn law_update_of_item_with_one_binder(
    m: DeviceModelView,
    configuration: ItemConfiguration,
    now: instant::Instant,
    v: int,
    w: int,
    b: int,
    state: Seq<char>,
    later: instant::Instant,
    other: Seq<char>,
)
    requires
        parsed(m, configuration, now) is Ok,
        bound_only_at(
            configuration,
            configuration.views.entries()[v].1.items.entries()[w].1.bindings()[b].0,
            v,
            w,
            b,
        ),
    ensures
        ({
            let r = parsed(m, configuration, now)->Ok_0;
            let widget = configuration.views.entries()[v].1.items.entries()[w];
            let binding = widget.1.bindings()[b];
            let after = state_changed_result(r, binding.0, state, later);
            let updated = widget_after(
                lookup(r.widgets, widget.0)->Some_0,
                resolved_key(binding),
                state,
                later,
            );
            let scene = lookup(r.widget_settings, widget.0)->Some_0.scene_modifications;
            &&& binding.1 is Some ==> resolved_key(binding) == binding.1->Some_0
            &&& lookup(r.widgets, widget.0) is Some
            &&& lookup(r.widget_settings, widget.0) is Some
            &&& after.outcome == Ok::<Seq<SceneEventView>, DeviceModelErrorView>(
                scene_events(updated, scene, scene.len()),
            )
            &&& after.model == (DeviceModelView {
                widgets: with_entry(r.widgets, widget.0, updated),
                ..r
            })
            &&& lookup(after.model.widgets, widget.0) == Some(updated)
            &&& other != widget.0 ==> lookup(after.model.widgets, other) == lookup(
                r.widgets,
                other,
            )
        }),
{
    let r = parsed(m, configuration, now)->Ok_0;
    let widget = configuration.views.entries()[v].1.items.entries()[w];
    let binding = widget.1.bindings()[b];
    let subs = subscribers_of(r.smart_home_items, binding.0);
    law_parse_gives_routed_model(m, configuration, now);
    law_parse_subscribes_every_binding(m, configuration, now, v, w, b);
    law_parse_subscribes_the_one_binder(m, configuration, now, binding.0, v, w, b);
    lemma_position_of(r.smart_home_items, binding.0);
    assert(subs[0] == (widget.0, resolved_key(binding)));
    assert(has_key(r.widgets, widget.0));
    assert(has_key(r.widget_settings, widget.0));
    lemma_position_of(r.widgets, widget.0);
    lemma_position_of(r.widget_settings, widget.0);
    let updated = widget_after(
        lookup(r.widgets, widget.0)->Some_0,
        resolved_key(binding),
        state,
        later,
    );
    lemma_with_entry(r.widgets, widget.0, updated);
    assert(delivered(r, subs, 0, state, later) == (Delivery {
        model: r,
        outcome: Ok(Seq::empty()),
    }));
    let scene = lookup(r.widget_settings, widget.0)->Some_0.scene_modifications;
    assert(Seq::<SceneEventView>::empty() + scene_events(updated, scene, scene.len())
        =~= scene_events(updated, scene, scene.len()));
}

/// The round trip of a binding with a key of its own. A widget is configured
/// with a binding to the external item `N` under the key `K`; the
/// configuration, which is well formed and names each widget once, is
/// parsed; then a state of `N` arrives. The update succeeds, and the widget
/// is afterwards what it was with the state taken under `K`.
pub proof fn law_update_after_parse_uses_the_key_of_the_binding(
    m: DeviceModelView,
    configuration: ItemConfiguration,
    now: instant::Instant,
    v: int,
    w: int,
    b: int,
    state: Seq<char>,
    later: instant::Instant,
)
    requires
        parsed(m, configuration, now) is Ok,
        configuration.wf(),
        configuration.unique_widget_names(),
        0 <= v < configuration.views.entries().len(),
        0 <= w < configuration.views.entries()[v].1.items.entries().len(),
        0 <= b < configuration.views.entries()[v].1.items.entries()[w].1.bindings().len(),
        configuration.views.entries()[v].1.items.entries()[w].1.bindings()[b].1 is Some,
    ensures
        ({
            let r = parsed(m, configuration, now)->Ok_0;
            let widget = configuration.views.entries()[v].1.items.entries()[w];
            let binding = widget.1.bindings()[b];
            let after = state_changed_result(r, binding.0, state, later);
            &&& after.outcome is Ok
            &&& lookup(r.widgets, widget.0) is Some
            &&& lookup(after.model.widgets, widget.0) == Some(
                widget_after(lookup(r.widgets, widget.0)->Some_0, binding.1->Some_0, state, later),
            )
        }),
{
    let r = parsed(m, configuration, now)->Ok_0;
    let widget = configuration.views.entries()[v].1.items.entries()[w];
    let binding = widget.1.bindings()[b];
    let followers = subscribers_of(r.smart_home_items, binding.0);
    law_parse_gives_routed_model(m, configuration, now);
    law_parse_subscribes_every_binding(m, configuration, now, v, w, b);
    law_parse_subscribes_each_widget_once_per_item(m, configuration, now, binding.0, widget.0);
    let j = choose|j: int| 0 <= j < followers.len() && followers[j] == (widget.0, binding.1->Some_0);
    assert forall|i: int| 0 <= i < followers.len() && i != j implies (#[trigger] followers[i]).0
        != followers[j].0 by {
        if followers[i].0 == widget.0 {
            assert(followers[j].0 == widget.0);
        }
    }
    law_update_of_followed_item_succeeds(r, binding.0, state, later);
    law_update_reaches_subscriber_under_its_key(r, binding.0, state, later, j);
}

/// On a routed model, every widget of the view that is shown can be looked
/// at for drawing: its settings are found, and so is the widget itself.
pub proof fn law_render_finds_every_widget_of_the_view(m: DeviceModelView, i: int)
    requires
        routed(m),
        widgets_shown(m) is Ok,
        0 <= i < widgets_shown(m)->Ok_0.len(),
    ensures
        render_target_of(m, widgets_shown(m)->Ok_0[i]) is Ok,
{
    let view = m.current_view->Some_0;
    let name = lookup(m.views, view).unwrap()[i];
    assert(has_key(m.widgets, name));
    assert(has_key(m.widget_settings, name));
    lemma_position_of(m.widgets, name);
    lemma_position_of(m.widget_settings, name);
}

/// Interactions change the widget in fullscreen and nothing else of the
/// model: a routed model stays routed, whatever is put into fullscreen.
pub proof fn law_interactions_keep_the_tables(
    m: DeviceModelView,
    requests: Seq<StateChangeView>,
    widget_name: Seq<char>,
    interactions: Seq<WidgetInteractionView>,
)
    requires
        routed(m),
        interactions_result(m, requests, widget_name, interactions) is Ok,
    ensures
        routed(
            DeviceModelView {
                fullscreen_widget: interactions_result(
                    m,
                    requests,
                    widget_name,
                    interactions,
                )->Ok_0.fullscreen_widget,
                ..m
            },
        ),
{
    lemma_routed_by_tables(
        m,
        DeviceModelView {
            fullscreen_widget: interactions_result(
                m,
                requests,
                widget_name,
                interactions,
            )->Ok_0.fullscreen_widget,
            ..m
        },
    );
}

/// How a state store keeps time. The first state under a key has no time of
/// change. A state that repeats the stored one changes nothing. A state that
/// differs from the stored one is stamped with the moment of its arrival.
/// States under other keys stay as they are.
pub proof fn law_store_keeps_time_of_change(
    store: Seq<(Seq<char>, StateEntryView)>,
    key: Seq<char>,
    state: Seq<char>,
    now: instant::Instant,
    other: Seq<char>,
)
    ensures
        lookup(store, key) is None ==> lookup(store_after(store, key, state, now), key) == Some(
            StateEntryView { value: state, changed: None },
        ),
        lookup(store, key) is Some && lookup(store, key)->Some_0.value == state ==> lookup(
            store_after(store, key, state, now),
            key,
        ) == lookup(store, key),
        lookup(store, key) is Some && lookup(store, key)->Some_0.value != state ==> lookup(
            store_after(store, key, state, now),
            key,
        ) == Some(StateEntryView { value: state, changed: Some(now) }),
        other != key ==> lookup(store_after(store, key, state, now), other) == lookup(
            store,
            other,
        ),
        lookup(store_initial(store, key, state), key) == Some(
            StateEntryView { value: state, changed: None },
        ),
{
    lemma_with_entry(store, key, entry_after(lookup(store, key), state, now));
    lemma_with_entry(store, key, StateEntryView { value: state, changed: None });
}

} // verus!
