//! What a widget asks of the 3D scene.
//!
//! Magnitudes that come from decimal readings are handed on as text: the
//! scene computes with them.

use vstd::prelude::*;

verus! {

/// How bright a light is to be.
#[derive(Debug, PartialEq)]
pub enum LightLevel {
    /// A share of the full intensity, in percent.
    Percent(u8),
    /// A share of the full intensity in percent, as a decimal reading.
    Reading(String),
    /// The mean of several shares, each in percent and as a decimal reading.
    Mean(Vec<String>),
}

/// A `LightLevel` over character sequences.
pub enum LightLevelView {
    Percent(u8),
    Reading(Seq<char>),
    Mean(Seq<Seq<char>>),
}

impl DeepView for LightLevel {
    type V = LightLevelView;

    open spec fn deep_view(&self) -> LightLevelView {
        match self {
            LightLevel::Percent(p) => LightLevelView::Percent(*p),
            LightLevel::Reading(r) => LightLevelView::Reading(r@),
            LightLevel::Mean(m) => LightLevelView::Mean(m.deep_view()),
        }
    }
}

/// Sets the brightness of the light of a scene entity.
#[derive(Debug, PartialEq)]
pub struct LightModification {
    pub entity_name: String,
    pub illuminance_percentage: LightLevel,
}

/// Sets the sun of the scene: its illuminance in lux, and its elevation and
/// azimuth in degrees where they are known, each as a decimal reading.
#[derive(Debug, PartialEq)]
pub struct SunModification {
    pub illuminance: String,
    pub elevation: Option<String>,
    pub azimuth: Option<String>,
}

/// A modification of the scene that follows from the state of a widget.
#[derive(Debug, PartialEq)]
pub enum SceneModificationEvent {
    LightModification(LightModification),
    SunModification(SunModification),
}

/// A `SceneModificationEvent` over character sequences.
pub enum SceneEventView {
    Light { entity_name: Seq<char>, level: LightLevelView },
    Sun { illuminance: Seq<char>, elevation: Option<Seq<char>>, azimuth: Option<Seq<char>> },
}

impl DeepView for SceneModificationEvent {
    type V = SceneEventView;

    open spec fn deep_view(&self) -> SceneEventView {
        match self {
            SceneModificationEvent::LightModification(l) => SceneEventView::Light {
                entity_name: l.entity_name@,
                level: l.illuminance_percentage.deep_view(),
            },
            SceneModificationEvent::SunModification(s) => SceneEventView::Sun {
                illuminance: s.illuminance@,
                elevation: s.elevation.deep_view(),
                azimuth: s.azimuth.deep_view(),
            },
        }
    }
}

} // verus!
