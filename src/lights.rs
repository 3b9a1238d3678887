use vstd::prelude::*;

use crate::brightness::Brightness;

verus! {

/// A light at a point, whose brightness falls off with distance over its radius.
#[derive(Copy, Clone, Debug)]
pub struct PointLight {
    x: i64,
    y: i64,
    radius: u16,
}

/// Band lit at distance `sqrt(d2)` from a light of radius `r`. With `ratio = distance / r`:
/// above 1 is `VeryDark`, above 0.8 `Dark`, above 0.6 `Dim`, else `Normal`. Each comparison is
/// made on squares, `ratio > p / q` being `q² · d2 > p² · r²`.
pub open spec fn lit_band(d2: int, r: int) -> Brightness {
    if d2 > r * r {
        Brightness::VeryDark
    } else if 25 * d2 > 16 * (r * r) {
        Brightness::Dark
    } else if 25 * d2 > 9 * (r * r) {
        Brightness::Dim
    } else {
        Brightness::Normal
    }
}

/// Squared distance between two points.
pub open spec fn dist2(x1: int, y1: int, x2: int, y2: int) -> int {
    (x1 - x2) * (x1 - x2) + (y1 - y2) * (y1 - y2)
}

impl PointLight {
    pub closed spec fn spec_x(&self) -> int {
        self.x as int
    }

    pub closed spec fn spec_y(&self) -> int {
        self.y as int
    }

    pub closed spec fn spec_radius(&self) -> int {
        self.radius as int
    }

    /// The band this light gives at `(x, y)`.
    pub open spec fn band_at(&self, x: int, y: int) -> Brightness {
        lit_band(dist2(self.spec_x(), self.spec_y(), x, y), self.spec_radius())
    }

    pub fn new(x: i64, y: i64, radius: u16) -> (l: PointLight)
        ensures
            l.spec_x() == x,
            l.spec_y() == y,
            l.spec_radius() == radius,
    {
        PointLight { x, y, radius }
    }

    pub fn get_x(&self) -> (r: i64)
        ensures
            r == self.spec_x(),
    {
        self.x
    }

    pub fn get_y(&self) -> (r: i64)
        ensures
            r == self.spec_y(),
    {
        self.y
    }

    pub fn get_radius(&self) -> (r: u16)
        ensures
            r == self.spec_radius(),
    {
        self.radius
    }

    /// The band this light gives at `(x, y)`.
    pub fn get_brightness(&self, x: i64, y: i64) -> (b: Brightness)
        ensures
            b == self.band_at(x as int, y as int),
    {
        self.band_at_wide(x as i128, y as i128)
    }

    /// The band this light gives at a point given in wide coordinates.
    pub fn band_at_wide(&self, x: i128, y: i128) -> (b: Brightness)
        requires
            -0x1_0000_0000_0000_0000_0000_0000_0000 <= x <= 0x1_0000_0000_0000_0000_0000_0000_0000,
            -0x1_0000_0000_0000_0000_0000_0000_0000 <= y <= 0x1_0000_0000_0000_0000_0000_0000_0000,
        ensures
            b == self.band_at(x as int, y as int),
    {
        let dx: i128 = self.x as i128 - x;
        let dy: i128 = self.y as i128 - y;
        let r: i128 = self.radius as i128;
        if dx > r || dx < -r || dy > r || dy < -r {
            proof {
                assert(dx * dx + dy * dy > r * r) by (nonlinear_arith)
                    requires
                        r >= 0,
                        dx > r || dx < -r || dy > r || dy < -r,
                ;
            }
            return Brightness::VeryDark;
        }
        proof {
            assert(0 <= dx * dx <= r * r <= 4294836225) by (nonlinear_arith)
                requires
                    0 <= r <= 65535,
                    -r <= dx <= r,
            ;
            assert(0 <= dy * dy <= r * r <= 4294836225) by (nonlinear_arith)
                requires
                    0 <= r <= 65535,
                    -r <= dy <= r,
            ;
        }
        let d2: i128 = dx * dx + dy * dy;
        let r2: i128 = r * r;
        if d2 > r2 {
            Brightness::VeryDark
        } else if 25 * d2 > 16 * r2 {
            Brightness::Dark
        } else if 25 * d2 > 9 * r2 {
            Brightness::Dim
        } else {
            Brightness::Normal
        }
    }
}

/// The lighter of two bands; `a` on a tie.
pub open spec fn lighter_of(a: Brightness, b: Brightness) -> Brightness {
    if b.lighter_than(a) {
        b
    } else {
        a
    }
}

/// Band at `(x, y)` under an ambient band and a list of lights: the lightest of the ambient band
/// and of what each light gives there.
pub open spec fn lit_by(ambient: Brightness, lights: Seq<PointLight>, x: int, y: int) -> Brightness
    decreases lights.len(),
{
    if lights.len() == 0 {
        ambient
    } else {
        lighter_of(lit_by(ambient, lights.drop_last(), x, y), lights.last().band_at(x, y))
    }
}

/// Once the lights seen so far give `Normal`, the others cannot change it.
pub proof fn lemma_lit_by_normal(ambient: Brightness, lights: Seq<PointLight>, x: int, y: int, i: int)
    requires
        0 <= i <= lights.len(),
        lit_by(ambient, lights.take(i), x, y) == Brightness::Normal,
    ensures
        lit_by(ambient, lights, x, y) == Brightness::Normal,
    decreases lights.len() - i,
{
    if i < lights.len() {
        assert(lights.take(i + 1).drop_last() =~= lights.take(i));
        lemma_lit_by_normal(ambient, lights, x, y, i + 1);
    } else {
        assert(lights.take(i) =~= lights);
    }
}

/// The band at a point under the ambient band and the lights, scanning the lights in order and
/// stopping as soon as `Normal` is reached.
pub fn lighting_at(ambient: Brightness, lights: &Vec<PointLight>, x: i128, y: i128) -> (b: Brightness)
    requires
        -0x1_0000_0000_0000_0000_0000_0000_0000 <= x <= 0x1_0000_0000_0000_0000_0000_0000_0000,
        -0x1_0000_0000_0000_0000_0000_0000_0000 <= y <= 0x1_0000_0000_0000_0000_0000_0000_0000,
    ensures
        b == lit_by(ambient, lights@, x as int, y as int),
{
    let mut brightness = ambient;
    let mut i: usize = 0;
    proof {
        assert(lights@.take(0) =~= Seq::<PointLight>::empty());
    }
    while i < lights.len()
        invariant
            i <= lights@.len(),
            brightness == lit_by(ambient, lights@.take(i as int), x as int, y as int),
            -0x1_0000_0000_0000_0000_0000_0000_0000 <= x <= 0x1_0000_0000_0000_0000_0000_0000_0000,
            -0x1_0000_0000_0000_0000_0000_0000_0000 <= y <= 0x1_0000_0000_0000_0000_0000_0000_0000,
        decreases lights@.len() - i,
    {
        if brightness == Brightness::Normal {
            proof {
                lemma_lit_by_normal(ambient, lights@, x as int, y as int, i as int);
            }
            return brightness;
        }
        let candidate = lights[i].band_at_wide(x, y);
        if candidate.is_lighter(brightness) {
            brightness = candidate;
        }
        proof {
            assert(lights@.take(i + 1).drop_last() =~= lights@.take(i as int));
        }
        i = i + 1;
    }
    proof {
        assert(lights@.take(i as int) =~= lights@);
    }
    brightness
}

} // verus!
