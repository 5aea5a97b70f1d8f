//! The failures that the device model reports to its caller.

use vstd::prelude::*;
use crate::openhab::{RequestedStateChangeFromWidget, WidgetRequestView};

verus! {

/// A failure of the device model. Each variant carries the name, the message
/// or the request that the failure is about.
#[derive(Debug, PartialEq)]
pub enum DeviceModelError {
    /// A subscriber names a widget that the registry does not hold.
    WidgetNotFound(String),
    /// No widget subscribes to the external item.
    ItemNotFound(String),
    /// A transport message does not have the expected shape.
    ParserError(String),
    /// A widget has no settings record.
    WidgetSettingsNotFound(String),
    /// The selected view is not among the configured views.
    ViewNotFound(String),
    /// A widget asked for a state change under a key it has no item for.
    KeyNotFound(RequestedStateChangeFromWidget),
    /// No view is selected.
    NoViewSelected(()),
    /// The configuration of a widget cannot be used.
    ConfigurationMalformed(String),
    /// Two widgets without bindings share one name.
    DuplicateImplicitBinding(String),
    /// The configuration was already parsed.
    AlreadyInitialized,
}

/// A `DeviceModelError` over character sequences.
pub enum DeviceModelErrorView {
    WidgetNotFound(Seq<char>),
    ItemNotFound(Seq<char>),
    ParserError(Seq<char>),
    WidgetSettingsNotFound(Seq<char>),
    ViewNotFound(Seq<char>),
    KeyNotFound(WidgetRequestView),
    NoViewSelected,
    ConfigurationMalformed(Seq<char>),
    DuplicateImplicitBinding(Seq<char>),
    AlreadyInitialized,
}

impl View for DeviceModelError {
    type V = DeviceModelErrorView;

    open spec fn view(&self) -> DeviceModelErrorView {
        match self {
            DeviceModelError::WidgetNotFound(s) => DeviceModelErrorView::WidgetNotFound(s@),
            DeviceModelError::ItemNotFound(s) => DeviceModelErrorView::ItemNotFound(s@),
            DeviceModelError::ParserError(s) => DeviceModelErrorView::ParserError(s@),
            DeviceModelError::WidgetSettingsNotFound(s) => {
                DeviceModelErrorView::WidgetSettingsNotFound(s@)
            },
            DeviceModelError::ViewNotFound(s) => DeviceModelErrorView::ViewNotFound(s@),
            DeviceModelError::KeyNotFound(r) => DeviceModelErrorView::KeyNotFound(r@),
            DeviceModelError::NoViewSelected(_) => DeviceModelErrorView::NoViewSelected,
            DeviceModelError::ConfigurationMalformed(s) => {
                DeviceModelErrorView::ConfigurationMalformed(s@)
            },
            DeviceModelError::DuplicateImplicitBinding(s) => {
                DeviceModelErrorView::DuplicateImplicitBinding(s@)
            },
            DeviceModelError::AlreadyInitialized => DeviceModelErrorView::AlreadyInitialized,
        }
    }
}

impl DeepView for DeviceModelError {
    type V = DeviceModelErrorView;

    open spec fn deep_view(&self) -> DeviceModelErrorView {
        self@
    }
}

} // verus!
