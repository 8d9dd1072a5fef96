//! Light records: a light is a point, spot or directional source, told apart
//! by a tag, with position, colour and intensity common to all three.

use vstd::prelude::*;
use crate::bits::{NEG_ONE, ONE, ZERO};

verus! {

/// Bit pattern of `0.09`, the default linear attenuation.
pub const DEFAULT_LINEAR: u32 = 0x3db8_51ec;

/// Bit pattern of `0.032`, the default quadratic attenuation.
pub const DEFAULT_QUADRATIC: u32 = 0x3d03_126f;

/// Bit pattern of the cosine of 12.5 degrees, the default inner cutoff.
pub const DEFAULT_INNER_CUTOFF_COS: u32 = 0x3f79_ee89;

/// Bit pattern of the cosine of 17.5 degrees, the default outer cutoff.
pub const DEFAULT_OUTER_CUTOFF_COS: u32 = 0x3f74_26cb;

/// The three kinds of light source.
#[derive(Clone, Copy, Debug, PartialEq, Eq, Structural)]
pub enum LightKind {
    Point,
    Spot,
    Directional,
}

impl LightKind {
    /// The kind in a word.
    pub open spec fn spec_name(self) -> Seq<char> {
        match self {
            LightKind::Point => "point"@,
            LightKind::Spot => "spot"@,
            LightKind::Directional => "directional"@,
        }
    }

    /// The kind in a word, as a fault names it.
    pub fn name(&self) -> (name: &'static str)
        ensures
            name@ == self.spec_name(),
    {
        match self {
            LightKind::Point => "point",
            LightKind::Spot => "spot",
            LightKind::Directional => "directional",
        }
    }
}

/// What only a point light carries: constant, linear and quadratic
/// attenuation.
#[derive(Clone, Copy, Debug, PartialEq, Eq)]
pub struct PointLight {
    pub attenuation: [u32; 3],
}

/// What only a spot light carries. The cutoffs are the cosines of the two
/// cone angles.
#[derive(Clone, Copy, Debug, PartialEq, Eq)]
pub struct SpotLight {
    pub direction: [u32; 3],
    pub attenuation: [u32; 3],
    pub inner_cutoff_cos: u32,
    pub outer_cutoff_cos: u32,
}

/// What only a directional light carries.
#[derive(Clone, Copy, Debug, PartialEq, Eq)]
pub struct DirectionalLight {
    pub direction: [u32; 3],
}

/// The kind-specific part of a light, under its tag.
#[derive(Clone, Copy, Debug, PartialEq, Eq)]
pub enum LightSource {
    Point(PointLight),
    Spot(SpotLight),
    Directional(DirectionalLight),
}

/// One light of a scene.
#[derive(Clone, Copy, Debug, PartialEq, Eq)]
pub struct Light {
    pub position: [u32; 3],
    pub color: [u32; 3],
    pub intensity: u32,
    pub source: LightSource,
}

/// The attenuation `(1.0, 0.09, 0.032)`.
pub open spec fn default_attenuation() -> Seq<u32> {
    seq![ONE, DEFAULT_LINEAR, DEFAULT_QUADRATIC]
}

/// The direction `(0.0, 0.0, -1.0)`.
pub open spec fn default_direction() -> Seq<u32> {
    seq![ZERO, ZERO, NEG_ONE]
}

fn attenuation_default() -> (a: [u32; 3])
    ensures
        a@ == default_attenuation(),
{
    let a: [u32; 3] = [ONE, DEFAULT_LINEAR, DEFAULT_QUADRATIC];
    assert(a@ =~= default_attenuation());
    a
}

fn direction_default() -> (d: [u32; 3])
    ensures
        d@ == default_direction(),
{
    let d: [u32; 3] = [ZERO, ZERO, NEG_ONE];
    assert(d@ =~= default_direction());
    d
}

impl PointLight {
    /// Whether this is the point light that `default` returns.
    pub open spec fn is_default(self) -> bool {
        self.attenuation@ == default_attenuation()
    }

    /// The default light, which is a point light.
    pub fn new() -> (light: Light)
        ensures
            light.has_default_common(),
            light.source matches LightSource::Point(p) && p.is_default(),
    {
        Light::new_point_light()
    }
}

impl Default for PointLight {
    fn default() -> (point: PointLight)
        ensures
            point.is_default(),
    {
        PointLight { attenuation: attenuation_default() }
    }
}

impl SpotLight {
    /// Whether this is the spot light that `default` returns: it points
    /// down the negative z axis, with cutoffs at 12.5 and 17.5 degrees.
    pub open spec fn is_default(self) -> bool {
        &&& self.direction@ == default_direction()
        &&& self.attenuation@ == default_attenuation()
        &&& self.inner_cutoff_cos == DEFAULT_INNER_CUTOFF_COS
        &&& self.outer_cutoff_cos == DEFAULT_OUTER_CUTOFF_COS
    }

    /// The default light, made a default spot light.
    pub fn new() -> (light: Light)
        ensures
            light.has_default_common(),
            light.source matches LightSource::Spot(s) && s.is_default(),
    {
        Light::new_spot_light()
    }
}

impl Default for SpotLight {
    fn default() -> (spot: SpotLight)
        ensures
            spot.is_default(),
    {
        SpotLight {
            direction: direction_default(),
            attenuation: attenuation_default(),
            inner_cutoff_cos: DEFAULT_INNER_CUTOFF_COS,
            outer_cutoff_cos: DEFAULT_OUTER_CUTOFF_COS,
        }
    }
}

impl DirectionalLight {
    /// Whether this is the directional light that `default` returns.
    pub open spec fn is_default(self) -> bool {
        self.direction@ == default_direction()
    }

    /// The default light, made a default directional light.
    pub fn new() -> (light: Light)
        ensures
            light.has_default_common(),
            light.source matches LightSource::Directional(d) && d.is_default(),
    {
        Light::new_directional_light()
    }
}

impl Default for DirectionalLight {
    fn default() -> (directional: DirectionalLight)
        ensures
            directional.is_default(),
    {
        DirectionalLight { direction: direction_default() }
    }
}

impl Light {
    /// The tag of the light.
    pub open spec fn kind(self) -> LightKind {
        match self.source {
            LightSource::Point(_) => LightKind::Point,
            LightSource::Spot(_) => LightKind::Spot,
            LightSource::Directional(_) => LightKind::Directional,
        }
    }

    /// Whether the common part is that of the default light: at the origin,
    /// white, of intensity one.
    pub open spec fn has_default_common(self) -> bool {
        &&& self.position@ == seq![ZERO, ZERO, ZERO]
        &&& self.color@ == seq![ONE, ONE, ONE]
        &&& self.intensity == ONE
    }

    /// The tag of the light.
    pub fn light_kind(&self) -> (kind: LightKind)
        ensures
            kind == self.kind(),
    {
        match self.source {
            LightSource::Point(_) => LightKind::Point,
            LightSource::Spot(_) => LightKind::Spot,
            LightSource::Directional(_) => LightKind::Directional,
        }
    }

    pub fn is_point_light(&self) -> (b: bool)
        ensures
            b == (self.kind() == LightKind::Point),
    {
        match self.source {
            LightSource::Point(_) => true,
            _ => false,
        }
    }

    pub fn as_point_light(&self) -> (point: Option<&PointLight>)
        ensures
            match self.source {
                LightSource::Point(p) => point == Some(&p),
                _ => point is None,
            },
    {
        match &self.source {
            LightSource::Point(p) => Some(p),
            _ => None,
        }
    }

    /// The point-light part, to be changed in place; the common part and the
    /// kind stay as they are.
    pub fn as_point_light_mut(&mut self) -> (point: Option<&mut PointLight>)
        ensures
            match old(self).source {
                LightSource::Point(p) => {
                    &&& point matches Some(r)
                    &&& *r == p
                    &&& final(self).source == LightSource::Point(*final(r))
                },
                _ => point is None && final(self).source == old(self).source,
            },
            final(self).position == old(self).position,
            final(self).color == old(self).color,
            final(self).intensity == old(self).intensity,
    {
        match &mut self.source {
            LightSource::Point(p) => Some(p),
            _ => None,
        }
    }

    pub fn is_spot_light(&self) -> (b: bool)
        ensures
            b == (self.kind() == LightKind::Spot),
    {
        match self.source {
            LightSource::Spot(_) => true,
            _ => false,
        }
    }

    pub fn as_spot_light(&self) -> (spot: Option<&SpotLight>)
        ensures
            match self.source {
                LightSource::Spot(s) => spot == Some(&s),
                _ => spot is None,
            },
    {
        match &self.source {
            LightSource::Spot(s) => Some(s),
            _ => None,
        }
    }

    /// The spot-light part, to be changed in place; the common part and the
    /// kind stay as they are.
    pub fn as_spot_light_mut(&mut self) -> (spot: Option<&mut SpotLight>)
        ensures
            match old(self).source {
                LightSource::Spot(s) => {
                    &&& spot matches Some(r)
                    &&& *r == s
                    &&& final(self).source == LightSource::Spot(*final(r))
                },
                _ => spot is None && final(self).source == old(self).source,
            },
            final(self).position == old(self).position,
            final(self).color == old(self).color,
            final(self).intensity == old(self).intensity,
    {
        match &mut self.source {
            LightSource::Spot(s) => Some(s),
            _ => None,
        }
    }

    pub fn is_directional_light(&self) -> (b: bool)
        ensures
            b == (self.kind() == LightKind::Directional),
    {
        match self.source {
            LightSource::Directional(_) => true,
            _ => false,
        }
    }

    pub fn as_directional_light(&self) -> (directional: Option<&DirectionalLight>)
        ensures
            match self.source {
                LightSource::Directional(d) => directional == Some(&d),
                _ => directional is None,
            },
    {
        match &self.source {
            LightSource::Directional(d) => Some(d),
            _ => None,
        }
    }

    /// The directional-light part, to be changed in place; the common part
    /// and the kind stay as they are.
    pub fn as_directional_light_mut(&mut self) -> (directional: Option<&mut DirectionalLight>)
        ensures
            match old(self).source {
                LightSource::Directional(d) => {
                    &&& directional matches Some(r)
                    &&& *r == d
                    &&& final(self).source == LightSource::Directional(*final(r))
                },
                _ => directional is None && final(self).source == old(self).source,
            },
            final(self).position == old(self).position,
            final(self).color == old(self).color,
            final(self).intensity == old(self).intensity,
    {
        match &mut self.source {
            LightSource::Directional(d) => Some(d),
            _ => None,
        }
    }

    pub fn new_point_light() -> (light: Light)
        ensures
            light.has_default_common(),
            light.source matches LightSource::Point(p) && p.is_default(),
    {
        let position: [u32; 3] = [ZERO, ZERO, ZERO];
        let color: [u32; 3] = [ONE, ONE, ONE];
        assert(position@ =~= seq![ZERO, ZERO, ZERO]);
        assert(color@ =~= seq![ONE, ONE, ONE]);
        Light {
            position,
            color,
            intensity: ONE,
            source: LightSource::Point(PointLight { attenuation: attenuation_default() }),
        }
    }

    pub fn new_spot_light() -> (light: Light)
        ensures
            light.has_default_common(),
            light.source matches LightSource::Spot(s) && s.is_default(),
    {
        let base = Light::new_point_light();
        Light {
            position: base.position,
            color: base.color,
            intensity: base.intensity,
            source: LightSource::Spot(
                SpotLight {
                    direction: direction_default(),
                    attenuation: attenuation_default(),
                    inner_cutoff_cos: DEFAULT_INNER_CUTOFF_COS,
                    outer_cutoff_cos: DEFAULT_OUTER_CUTOFF_COS,
                },
            ),
        }
    }

    pub fn new_directional_light() -> (light: Light)
        ensures
            light.has_default_common(),
            light.source matches LightSource::Directional(d) && d.is_default(),
    {
        let base = Light::new_point_light();
        Light {
            position: base.position,
            color: base.color,
            intensity: base.intensity,
            source: LightSource::Directional(DirectionalLight { direction: direction_default() }),
        }
    }
}

impl Default for Light {
    /// The default light is a point light.
    fn default() -> (light: Light)
        ensures
            light.has_default_common(),
            light.source matches LightSource::Point(p) && p.is_default(),
    {
        Light::new_point_light()
    }
}

} // verus!
