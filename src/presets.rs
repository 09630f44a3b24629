//! The solar-system preset: the Sun and nine bodies in circular-speed orbits
//! on the x axis, moving along z.
use vstd::prelude::*;
use crate::body::{Body, Color, Vec3};
use crate::registry::{Registry, all_wf};

verus! {

/// Mass of the Sun, 1.989e30 kg, in units of 10^15 kg.
pub const SUN_MASS: u64 = 1_989_000_000_000_000;

/// A body at `x` millimetres on the x axis, moving at `vz` micrometres per
/// second along z.
fn orbiter(x: i64, vz: i64, mass: u64, radius: u64, color: Color) -> (r: Body)
    ensures
        r == (Body {
            position: Vec3 { x, y: 0, z: 0 },
            velocity: Vec3 { x: 0, y: 0, z: vz },
            mass,
            radius,
            color,
        }),
{
    Body {
        position: Vec3 { x, y: 0, z: 0 },
        velocity: Vec3 { x: 0, y: 0, z: vz },
        mass,
        radius,
        color,
    }
}

fn rgb(r: u8, g: u8, b: u8) -> (c: Color)
    ensures
        c == (Color { r, g, b, a: 255 }),
{
    Color { r, g, b, a: 255 }
}

/// A body that starts on the positive x axis, moving along positive z.
pub open spec fn is_orbiter(b: Body) -> bool {
    &&& b.position.x > 0
    &&& b.position.y == 0
    &&& b.position.z == 0
    &&& b.velocity.x == 0
    &&& b.velocity.y == 0
    &&& b.velocity.z > 0
}

/// Ten bodies: the Sun at rest at the origin, then nine orbiters in order
/// of their distance.
pub open spec fn is_solar_preset(bs: Seq<Body>) -> bool {
    &&& bs.len() == 10
    &&& all_wf(bs)
    &&& bs[0].position == (Vec3 { x: 0, y: 0, z: 0 })
    &&& bs[0].velocity == (Vec3 { x: 0, y: 0, z: 0 })
    &&& bs[0].mass == SUN_MASS
    &&& forall|i: int| 1 <= i < 10 ==> #[trigger] is_orbiter(bs[i])
    &&& forall|i: int| 1 <= i < 9 ==> #[trigger] bs[i].position.x < bs[i + 1].position.x
}

/// The Sun at rest at the origin, then Mercury to Pluto.
pub fn solar_system() -> (r: Vec<Body>)
    ensures
        is_solar_preset(r@),
{
    let mut v: Vec<Body> = Vec::new();
    v.push(orbiter(0, 0, SUN_MASS, 696_340_000, rgb(0xFF, 0xD7, 0x00)));
    v.push(orbiter(57_910_000_000_000, 47_360_000_000, 330_100_000, 2_439_700, rgb(0x91, 0x91, 0x91)));
    v.push(orbiter(108_200_000_000_000, 35_020_000_000, 4_867_000_000, 6_052_000, rgb(0xFF, 0xA5, 0x00)));
    v.push(orbiter(149_597_870_000_000, 29_780_000_000, 5_972_000_000, 6_371_000, rgb(0x00, 0x00, 0xFF)));
    v.push(orbiter(227_940_000_000_000, 24_070_000_000, 641_700_000, 3_390_000, rgb(0xFF, 0x00, 0x00)));
    v.push(orbiter(778_330_000_000_000, 13_070_000_000, 1_898_000_000_000, 69_911_000, rgb(0xFF, 0xA5, 0x00)));
    v.push(orbiter(1_429_400_000_000_000, 9_680_000_000, 568_300_000_000, 58_232_000, rgb(0xFF, 0xFF, 0x99)));
    v.push(orbiter(2_870_990_000_000_000, 6_800_000_000, 86_810_000_000, 25_362_000, rgb(0x00, 0xFF, 0xFF)));
    v.push(orbiter(4_504_000_000_000_000, 5_430_000_000, 102_400_000_000, 24_622_000, rgb(0x00, 0x00, 0xFF)));
    v.push(orbiter(5_906_400_000_000_000, 4_740_000_000, 13_090_000, 1_188_300, rgb(0xFF, 0xFF, 0xFF)));
    v
}

impl Registry {
    /// A registry holding the solar-system preset.
    pub fn solar_system() -> (r: Registry)
        ensures
            is_solar_preset(r@),
            r.wf(),
    {
        Registry::new(solar_system())
    }
}

} // verus!
