//! Light descriptions.
//!
//! A scalar is held as the bit pattern of an IEEE 754 single, so that a
//! description passes through unchanged and compares exactly.

use vstd::prelude::*;
use vstd::std_specs::convert::FromSpecImpl;

verus! {

/// The bit pattern of the single `1.0`.
pub const F32_ONE: u32 = 0x3F80_0000;

/// The bit pattern of the single nearest to `0.1`.
pub const F32_ONE_TENTH: u32 = 0x3DCC_CCCD;

/// The colour of a light.
#[derive(Clone, Copy, Debug, PartialEq, Eq, Structural)]
pub struct WColor {
    pub r: u32,
    pub g: u32,
    pub b: u32,
}

impl From<(u32, u32, u32)> for WColor {
    fn from(value: (u32, u32, u32)) -> (color: Self) {
        WColor { r: value.0, g: value.1, b: value.2 }
    }
}

impl FromSpecImpl<(u32, u32, u32)> for WColor {
    open spec fn obeys_from_spec() -> bool {
        true
    }

    /// The three numbers are red, green and blue, in this order.
    open spec fn from_spec(value: (u32, u32, u32)) -> Self {
        WColor { r: value.0, g: value.1, b: value.2 }
    }
}

impl Default for WColor {
    fn default() -> (color: Self)
        ensures
            color == (WColor { r: 0, g: 0, b: 0 }),
    {
        WColor { r: 0, g: 0, b: 0 }
    }
}

/// A position in the world.
#[derive(Clone, Copy, Debug, PartialEq, Eq, Structural)]
pub struct WPosition {
    pub x: u32,
    pub y: u32,
    pub z: u32,
}

impl From<(u32, u32, u32)> for WPosition {
    fn from(value: (u32, u32, u32)) -> (position: Self) {
        WPosition { x: value.0, y: value.1, z: value.2 }
    }
}

impl FromSpecImpl<(u32, u32, u32)> for WPosition {
    open spec fn obeys_from_spec() -> bool {
        true
    }

    open spec fn from_spec(value: (u32, u32, u32)) -> Self {
        WPosition { x: value.0, y: value.1, z: value.2 }
    }
}

impl Default for WPosition {
    fn default() -> (position: Self)
        ensures
            position == (WPosition { x: 0, y: 0, z: 0 }),
    {
        WPosition { x: 0, y: 0, z: 0 }
    }
}

/// Light that reaches every surface alike.
#[derive(Clone, Copy, Debug, PartialEq, Eq, Structural)]
pub struct WAmbientLight {
    pub color: WColor,
    pub strength: u32,
}

impl WAmbientLight {
    /// The ambient light of a world that was given none: white at a tenth of
    /// full strength.
    pub open spec fn spec_dim_white() -> WAmbientLight {
        WAmbientLight {
            color: WColor { r: F32_ONE, g: F32_ONE, b: F32_ONE },
            strength: F32_ONE_TENTH,
        }
    }

    /// The ambient light of a world that was given none: white at a tenth of
    /// full strength.
    #[verifier::when_used_as_spec(spec_dim_white)]
    pub fn dim_white() -> (light: WAmbientLight)
        ensures
            light == WAmbientLight::spec_dim_white(),
    {
        WAmbientLight {
            color: WColor { r: F32_ONE, g: F32_ONE, b: F32_ONE },
            strength: F32_ONE_TENTH,
        }
    }
}

impl From<((u32, u32, u32), u32)> for WAmbientLight {
    fn from(value: ((u32, u32, u32), u32)) -> (light: Self) {
        WAmbientLight { color: WColor::from(value.0), strength: value.1 }
    }
}

impl FromSpecImpl<((u32, u32, u32), u32)> for WAmbientLight {
    open spec fn obeys_from_spec() -> bool {
        true
    }

    open spec fn from_spec(value: ((u32, u32, u32), u32)) -> Self {
        WAmbientLight {
            color: WColor { r: value.0.0, g: value.0.1, b: value.0.2 },
            strength: value.1,
        }
    }
}

impl Default for WAmbientLight {
    fn default() -> (light: Self)
        ensures
            light == (WAmbientLight { color: WColor { r: 0, g: 0, b: 0 }, strength: 0 }),
    {
        WAmbientLight { color: WColor { r: 0, g: 0, b: 0 }, strength: 0 }
    }
}

/// Light that spreads from one point.
#[derive(Clone, Copy, Debug, PartialEq, Eq, Structural)]
pub struct WPointLight {
    pub color: WColor,
    pub position: WPosition,
    pub strength: u32,
}

impl WPointLight {
    /// A light of no colour and no strength at the origin.
    pub open spec fn spec_dark() -> WPointLight {
        WPointLight {
            color: WColor { r: 0, g: 0, b: 0 },
            position: WPosition { x: 0, y: 0, z: 0 },
            strength: 0,
        }
    }
}

impl From<((u32, u32, u32), (u32, u32, u32), u32)> for WPointLight {
    fn from(value: ((u32, u32, u32), (u32, u32, u32), u32)) -> (light: Self) {
        WPointLight {
            color: WColor::from(value.0),
            position: WPosition::from(value.1),
            strength: value.2,
        }
    }
}

impl FromSpecImpl<((u32, u32, u32), (u32, u32, u32), u32)> for WPointLight {
    open spec fn obeys_from_spec() -> bool {
        true
    }

    open spec fn from_spec(value: ((u32, u32, u32), (u32, u32, u32), u32)) -> Self {
        WPointLight {
            color: WColor { r: value.0.0, g: value.0.1, b: value.0.2 },
            position: WPosition { x: value.1.0, y: value.1.1, z: value.1.2 },
            strength: value.2,
        }
    }
}

impl Default for WPointLight {
    fn default() -> (light: Self)
        ensures
            light == WPointLight::spec_dark(),
    {
        WPointLight {
            color: WColor { r: 0, g: 0, b: 0 },
            position: WPosition { x: 0, y: 0, z: 0 },
            strength: 0,
        }
    }
}

/// One of a world's point-light slots: a light, and whether it shines. The
/// renderer is handed every slot, the disabled ones too.
#[derive(Clone, Copy, Debug, PartialEq, Eq, Structural)]
pub struct PointLightSlot {
    pub light: WPointLight,
    pub enabled: bool,
}

impl PointLightSlot {
    /// What a slot holds for the light it was given, if any: the light,
    /// enabled, or a dark light, disabled.
    pub open spec fn spec_of(light: Option<WPointLight>) -> PointLightSlot {
        match light {
            Some(light) => PointLightSlot { light, enabled: true },
            None => PointLightSlot { light: WPointLight::spec_dark(), enabled: false },
        }
    }

    /// The slot for the light it was given, if any.
    #[verifier::when_used_as_spec(spec_of)]
    pub fn of(light: Option<WPointLight>) -> (slot: PointLightSlot)
        ensures
            slot == PointLightSlot::spec_of(light),
    {
        match light {
            Some(light) => PointLightSlot { light, enabled: true },
            None => PointLightSlot { light: WPointLight::default(), enabled: false },
        }
    }
}

} // verus!
