//! What is drawn for a widget, and what the gestures on it mean.
//!
//! Drawing is not done here. A widget describes the button that stands for
//! it; whoever draws the button reports the clicks, and the functions here
//! turn them into interactions.

use vstd::prelude::*;
use crate::openhab::{
    RequestedStateChangeFromWidget, WidgetInteraction, WidgetInteractionView, WidgetRequestView,
};
use crate::text::owned;
use crate::widget_settings::WidgetRenderSetting;

verus! {

/// The colour of a button whose widget is on.
#[derive(Debug, PartialEq)]
pub enum ButtonColor {
    DarkGreen,
    DarkYellow,
    /// The colour of a hue and a saturation at full brightness, each given as
    /// a decimal reading.
    Hsb(String, String),
}

/// A `ButtonColor` over character sequences.
pub enum ButtonColorView {
    DarkGreen,
    DarkYellow,
    Hsb(Seq<char>, Seq<char>),
}

impl DeepView for ButtonColor {
    type V = ButtonColorView;

    open spec fn deep_view(&self) -> ButtonColorView {
        match self {
            ButtonColor::DarkGreen => ButtonColorView::DarkGreen,
            ButtonColor::DarkYellow => ButtonColorView::DarkYellow,
            ButtonColor::Hsb(h, s) => ButtonColorView::Hsb(h@, s@),
        }
    }
}

/// A button with an icon that shows whether something is on.
#[derive(Debug)]
pub struct SimpleButton {
    /// Whether the widget is on.
    pub state: bool,
    /// The electric current in milliampere, as the sensor reports it; the
    /// power drawn is shown from it while the widget is on.
    pub milliampere: Option<String>,
    /// Code of the icon.
    pub icon: String,
    /// Colour of the button while the widget is on.
    pub on_color: ButtonColor,
    /// The state to ask for when the button is clicked while off; `ON` if
    /// none is given.
    pub on_command: Option<String>,
    /// The state to ask for when the button is clicked while on; `OFF` if
    /// none is given.
    pub off_command: Option<String>,
}

/// A `SimpleButton` over character sequences.
pub struct SimpleButtonView {
    pub state: bool,
    pub milliampere: Option<Seq<char>>,
    pub icon: Seq<char>,
    pub on_color: ButtonColorView,
    pub on_command: Option<Seq<char>>,
    pub off_command: Option<Seq<char>>,
}

impl DeepView for SimpleButton {
    type V = SimpleButtonView;

    open spec fn deep_view(&self) -> SimpleButtonView {
        SimpleButtonView {
            state: self.state,
            milliampere: self.milliampere.deep_view(),
            icon: self.icon@,
            on_color: self.on_color.deep_view(),
            on_command: self.on_command.deep_view(),
            off_command: self.off_command.deep_view(),
        }
    }
}

/// The state that a click asks for: the command for turning off while the
/// widget is on, else the command for turning on.
pub open spec fn click_value(
    state: bool,
    on_command: Option<Seq<char>>,
    off_command: Option<Seq<char>>,
) -> Seq<char> {
    if state {
        match off_command {
            Some(c) => c,
            None => "OFF"@,
        }
    } else {
        match on_command {
            Some(c) => c,
            None => "ON"@,
        }
    }
}

/// The interactions that the gestures on a button amount to: a click asks
/// for a state change under the widget's name, a secondary click asks for the
/// fullscreen view, and the state change comes first.
pub open spec fn button_interactions(
    widget_name: Seq<char>,
    state: bool,
    clicked: bool,
    secondary_clicked: bool,
    on_command: Option<Seq<char>>,
    off_command: Option<Seq<char>>,
) -> Seq<WidgetInteractionView> {
    let change = if clicked {
        seq![
            WidgetInteractionView::StateChange(
                WidgetRequestView {
                    key: widget_name,
                    value: click_value(state, on_command, off_command),
                },
            ),
        ]
    } else {
        Seq::<WidgetInteractionView>::empty()
    };
    if secondary_clicked {
        change.push(WidgetInteractionView::FullscreenRequest(true))
    } else {
        change
    }
}

/// What the gestures on the button of a widget ask for.
pub fn simple_button_interactions(
    render_setting: &WidgetRenderSetting,
    state: bool,
    clicked: bool,
    secondary_clicked: bool,
    on_command: Option<&str>,
    off_command: Option<&str>,
) -> (request: Vec<WidgetInteraction>)
    ensures
        request.deep_view() == button_interactions(
            render_setting.widget_name@,
            state,
            clicked,
            secondary_clicked,
            on_command.deep_view(),
            off_command.deep_view(),
        ),
{
    let mut request: Vec<WidgetInteraction> = Vec::new();
    assert(request.deep_view() =~= Seq::<WidgetInteractionView>::empty());
    if clicked {
        let value = if state {
            match off_command {
                Some(c) => owned(c),
                None => owned("OFF"),
            }
        } else {
            match on_command {
                Some(c) => owned(c),
                None => owned("ON"),
            }
        };
        let ghost before = request.deep_view();
        let change = WidgetInteraction::StateChange(
            RequestedStateChangeFromWidget { key: render_setting.widget_name.clone(), value },
        );
        request.push(change);
        assert(request.deep_view() =~= before.push(change@));
    }
    if secondary_clicked {
        let ghost before = request.deep_view();
        request.push(WidgetInteraction::FullscreenRequest(true));
        assert(request.deep_view() =~= before.push(WidgetInteractionView::FullscreenRequest(true)));
    }
    request
}

/// What the fullscreen view of a widget asks for: to be left when its close
/// control was clicked.
pub fn fullscreen_interactions(close_clicked: bool) -> (request: Vec<WidgetInteraction>)
    ensures
        request.deep_view() == if close_clicked {
            seq![WidgetInteractionView::FullscreenRequest(false)]
        } else {
            Seq::<WidgetInteractionView>::empty()
        },
{
    let mut request: Vec<WidgetInteraction> = Vec::new();
    if close_clicked {
        request.push(WidgetInteraction::FullscreenRequest(false));
        assert(request.deep_view() =~= seq![WidgetInteractionView::FullscreenRequest(false)]);
    } else {
        assert(request.deep_view() =~= Seq::<WidgetInteractionView>::empty());
    }
    request
}

} // verus!
