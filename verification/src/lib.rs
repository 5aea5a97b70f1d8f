//! Device model of a smart-home dashboard: a registry of typed widgets built
//! from a declarative configuration, the routing tables between external item
//! names, widget keys and widgets, and the rules by which state updates turn
//! into scene modifications and outbound commands.

pub mod text;
pub mod reading;
pub mod table;
pub mod json;
pub mod clock;
pub mod config;
pub mod config_loader;
pub mod view;
pub mod errors;
pub mod openhab;
pub mod widget_settings;
pub mod events;
pub mod plot;
pub mod item;
pub mod ui;
pub mod emoji;
pub mod device_model;
pub mod laws;
