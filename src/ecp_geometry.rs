use vstd::prelude::*;
use crate::neuron::RxNeuron;

verus! {

/// A point of the lattice.
#[derive(Clone, Copy, Debug, PartialEq, Eq, Structural)]
pub struct Loc {
    pub x: i32,
    pub y: i32,
    pub z: i32,
}

/// Why a network could not be built with the requested dimensions.
#[derive(Clone, Copy, Debug, PartialEq, Eq, Structural)]
pub enum ConfigError {
    /// More actuators than cells on one face of the box.
    ActuatorsExceedFace,
    /// More sensory neurons than cells on one face of the box.
    SensoryExceedFace,
    /// The nearby cube is larger than the box.
    NearbyExceedsVolume,
    /// No odd cube side fits in the nearby count (it is 0).
    NearbyEmpty,
    /// The number of sensors differs from the sensory cells of the geometry.
    SensorCountMismatch,
    /// The number of actuators differs from the actuator cells of the geometry.
    ActuatorCountMismatch,
}

/// `l` is the integer cube root of `v`: the largest integer whose cube is at
/// most `v`.
pub open spec fn is_cube_root(l: int, v: int) -> bool {
    0 <= l && l * l * l <= v && v < (l + 1) * (l + 1) * (l + 1)
}

/// `n` is the largest odd integer whose cube is at most `v`.
pub open spec fn is_odd_cube_side(n: int, v: int) -> bool {
    0 < n && n % 2 == 1 && n * n * n <= v && v < (n + 2) * (n + 2) * (n + 2)
}

/// The box geometry: a cube of side `side_length` filled with receiving
/// neurons; the first `num_actuator` cells of its far face (`z = side - 1`,
/// row-major by `(y, x)`) are actuators; the sensory neurons sit on the plane
/// `z = -1` in front of the near face.
#[derive(Clone, Copy, Debug)]
pub struct BoxEcp {
    pub num_plastic: u32,
    pub num_actuator: u32,
    pub num_sensory: u32,
    pub nearby_side_length: u32,
    pub side_length: u32,
}

/// The kind of the receiver at `loc` in a box of side `l` with `na` actuators.
pub open spec fn rx_kind(l: int, na: int, loc: Loc) -> RxNeuron {
    if loc.z == l - 1 && loc.y * l + loc.x < na { RxNeuron::Actuator } else { RxNeuron::Plastic }
}

/// The position of `loc` in the receiver enumeration of a box of side `l`.
pub open spec fn rx_index(l: int, loc: Loc) -> int {
    loc.x + l * loc.y + l * l * loc.z
}

/// `loc` lies inside a box of side `l`.
pub open spec fn in_box(l: int, loc: Loc) -> bool {
    0 <= loc.x < l && 0 <= loc.y < l && 0 <= loc.z < l
}

/// `loc` lies on the sensory plane in front of a box of side `l`.
pub open spec fn on_sensory_plane(l: int, loc: Loc) -> bool {
    0 <= loc.x < l && 0 <= loc.y < l && loc.z == -1
}

/// The lowest coordinate of the nearby range along one axis: the range of
/// side `n` centred on `c`, shifted to lie within `[0, l - 1]`.
pub open spec fn nearby_low(c: int, n: int, l: int) -> int {
    let b = c - (n - 1) / 2;
    if b < 0 { 0 } else if b + (n - 1) > l - 1 { l - n } else { b }
}

/// `r` lies in the nearby range of `c` along one axis.
pub open spec fn in_nearby(r: int, c: int, n: int, l: int) -> bool {
    nearby_low(c, n, l) <= r <= nearby_low(c, n, l) + n - 1
}

/// Relies on `rand::Rng::gen_range` on `rand::thread_rng()` over an inclusive
/// range of `i32`: the value drawn lies in the range. It panics on an empty
/// range, which the precondition rules out.
#[verifier::external_body]
fn random_in(low: i32, high: i32) -> (r: i32)
    requires
        low <= high,
    ensures
        low <= r <= high,
{
    rand::Rng::gen_range(&mut rand::thread_rng(), low..=high)
}

fn cube(n: u64) -> (r: u64)
    requires
        n <= 1626,
    ensures
        r == n * n * n,
{
    assert(n * n <= 1626 * 1626) by (nonlinear_arith) requires n <= 1626;
    assert(n * n * n <= 1626 * 1626 * 1626) by (nonlinear_arith) requires n <= 1626, n * n <= 1626 * 1626;
    n * n * n
}

fn cube_root(v: u32) -> (l: u32)
    ensures
        is_cube_root(l as int, v as int),
        l <= 1625,
{
    let mut l: u64 = 0;
    while cube(l + 1) <= v as u64
        invariant
            l * l * l <= v,
            l <= 1625,
        decreases 1625 - l,
    {
        assert(l + 1 <= 1625) by (nonlinear_arith)
            requires (l + 1) * (l + 1) * (l + 1) <= v, v <= u32::MAX;
        l = l + 1;
    }
    l as u32
}

impl BoxEcp {
    pub open spec fn wf(&self) -> bool {
        &&& 1 <= self.nearby_side_length <= self.side_length <= 1625
        &&& self.nearby_side_length % 2 == 1
        &&& self.num_actuator <= self.side_length * self.side_length
        &&& self.num_sensory <= self.side_length * self.side_length
        &&& self.num_plastic == self.side_length * self.side_length * self.side_length
    }

    /// The receiver kind at `loc` in this box.
    pub open spec fn kind_at(&self, loc: Loc) -> RxNeuron {
        rx_kind(self.side_length as int, self.num_actuator as int, loc)
    }

    /// The position of `loc` in this box's receiver enumeration.
    pub open spec fn index_of(&self, loc: Loc) -> int {
        rx_index(self.side_length as int, loc)
    }

    /// Builds the box for the requested counts. The side is the integer cube
    /// root of `desired_num_plastic`; the nearby side is the largest odd
    /// integer whose cube is at most `nearby_count`.
    pub fn new(desired_num_plastic: u32, num_sensory: u32, num_actuator: u32, nearby_count: u32) -> (r: Result<BoxEcp, ConfigError>)
        ensures
            ({
                let l = r->Ok_0.side_length as int;
                r is Ok ==> {
                    &&& r->Ok_0.wf()
                    &&& is_cube_root(l, desired_num_plastic as int)
                    &&& is_odd_cube_side(r->Ok_0.nearby_side_length as int, nearby_count as int)
                    &&& r->Ok_0.num_actuator == num_actuator
                    &&& r->Ok_0.num_sensory == num_sensory
                }
            }),
            forall|l: int, n: int| is_cube_root(l, desired_num_plastic as int) ==> {
                &&& (r == Err::<BoxEcp, ConfigError>(ConfigError::ActuatorsExceedFace) <==> num_actuator > l * l)
                &&& (r == Err::<BoxEcp, ConfigError>(ConfigError::SensoryExceedFace) <==> num_actuator <= l * l && num_sensory > l * l)
                &&& (r == Err::<BoxEcp, ConfigError>(ConfigError::NearbyEmpty) <==>
                        num_actuator <= l * l && num_sensory <= l * l && nearby_count == 0)
                &&& (is_odd_cube_side(n, nearby_count as int) ==>
                        (r == Err::<BoxEcp, ConfigError>(ConfigError::NearbyExceedsVolume) <==>
                            num_actuator <= l * l && num_sensory <= l * l && n > l))
                &&& (is_odd_cube_side(n, nearby_count as int) ==>
                        (r is Ok <==> num_actuator <= l * l && num_sensory <= l * l && n <= l))
            },
    {
        let side_length = cube_root(desired_num_plastic);
        proof { lemma_cube_root_unique(desired_num_plastic as int, side_length as int); }
        assert(side_length * side_length <= 1625 * 1625) by (nonlinear_arith)
            requires side_length <= 1625;
        assert(side_length * side_length * side_length <= 1625 * 1625 * 1625) by (nonlinear_arith)
            requires side_length <= 1625, side_length * side_length <= 1625 * 1625;
        let area = side_length * side_length;
        assert(side_length * side_length * side_length <= desired_num_plastic);
        let volume = area * side_length;
        if num_actuator > area {
            return Err(ConfigError::ActuatorsExceedFace);
        } else if num_sensory > area {
            return Err(ConfigError::SensoryExceedFace);
        }
        if nearby_count == 0 {
            proof { lemma_no_odd_side_of_zero(); }
            return Err(ConfigError::NearbyEmpty);
        }
        let root = cube_root(nearby_count);
        assert(root >= 1) by (nonlinear_arith)
            requires nearby_count >= 1, is_cube_root(root as int, nearby_count as int);
        let mut nearby_length = root;
        if nearby_length % 2 == 0 {
            nearby_length = nearby_length - 1;
        }
        proof { lemma_odd_side(nearby_count as int, root as int, nearby_length as int); }
        if nearby_length > side_length {
            return Err(ConfigError::NearbyExceedsVolume);
        }
        Ok(BoxEcp {
            num_plastic: volume,
            num_actuator,
            num_sensory,
            nearby_side_length: nearby_length,
            side_length,
        })
    }

    /// The first cell of the receiver enumeration, with its kind.
    pub fn first_rx_loc(&self) -> (r: (Loc, RxNeuron))
        requires
            self.wf(),
        ensures
            r.0 == (Loc { x: 0, y: 0, z: 0 }),
            r.1 == self.kind_at(r.0),
            in_box(self.side_length as int, r.0),
            self.index_of(r.0) == 0,
    {
        let loc = Loc { x: 0, y: 0, z: 0 };
        (loc, self.rx_kind_at(loc))
    }

    fn rx_kind_at(&self, loc: Loc) -> (r: RxNeuron)
        requires
            self.wf(),
            in_box(self.side_length as int, loc),
        ensures
            r == self.kind_at(loc),
    {
        let l = self.side_length as i64;
        assert(loc.y * l + loc.x <= 1625 * 1625) by (nonlinear_arith)
            requires 0 <= loc.x < l, 0 <= loc.y < l, l <= 1625;
        if loc.z as i64 == l - 1 && (loc.y as i64) * l + (loc.x as i64) < self.num_actuator as i64 {
            RxNeuron::Actuator
        } else {
            RxNeuron::Plastic
        }
    }

    /// The cell after `curr` in the receiver enumeration (`x` fastest, then
    /// `y`, then `z`), with its kind; `None` after the last cell.
    pub fn next_rx_loc(&self, curr: Loc) -> (r: Option<(Loc, RxNeuron)>)
        requires
            self.wf(),
            in_box(self.side_length as int, curr),
        ensures
            r is None <==> self.index_of(curr) == self.num_plastic - 1,
            r matches Some(p) ==> {
                &&& in_box(self.side_length as int, p.0)
                &&& self.index_of(p.0) == self.index_of(curr) + 1
                &&& p.1 == self.kind_at(p.0)
            },
    {
        let last = (self.side_length - 1) as i32;
        let ghost l = self.side_length as int;
        proof { lemma_index_bounds(l, curr); }
        let next = if curr.x == last {
            if curr.y == last {
                if curr.z == last {
                    return None;
                }
                assert(0 + l * 0 + l * l * (curr.z + 1) == curr.x + l * curr.y + l * l * curr.z + 1) by (nonlinear_arith)
                    requires curr.x == l - 1, curr.y == l - 1;
                Loc { x: 0, y: 0, z: curr.z + 1 }
            } else {
                assert(0 + l * (curr.y + 1) + l * l * curr.z == curr.x + l * curr.y + l * l * curr.z + 1) by (nonlinear_arith)
                    requires curr.x == l - 1;
                Loc { x: 0, y: curr.y + 1, z: curr.z }
            }
        } else {
            Loc { x: curr.x + 1, y: curr.y, z: curr.z }
        };
        Some((next, self.rx_kind_at(next)))
    }

    /// The first cell of the sensory plane.
    pub fn first_sensory_loc(&self) -> (r: Loc)
        requires
            self.wf(),
        ensures
            r == (Loc { x: 0, y: 0, z: -1i32 }),
            on_sensory_plane(self.side_length as int, r),
    {
        Loc { x: 0, y: 0, z: -1 }
    }

    /// The cell after `curr` on the sensory plane (`x` fastest, then `y`);
    /// `None` after the last cell.
    pub fn next_sensory_loc(&self, curr: Loc) -> (r: Option<Loc>)
        requires
            self.wf(),
            on_sensory_plane(self.side_length as int, curr),
        ensures
            r is None <==> curr.x == self.side_length - 1 && curr.y == self.side_length - 1,
            r matches Some(p) ==> {
                &&& on_sensory_plane(self.side_length as int, p)
                &&& p.x + self.side_length * p.y == curr.x + self.side_length * curr.y + 1
            },
    {
        let last = (self.side_length - 1) as i32;
        let ghost l = self.side_length as int;
        if curr.x == last {
            if curr.y == last {
                return None;
            }
            assert(0 + l * (curr.y + 1) == curr.x + l * curr.y + 1) by (nonlinear_arith)
                requires curr.x == l - 1;
            Some(Loc { x: 0, y: curr.y + 1, z: -1 })
        } else {
            Some(Loc { x: curr.x + 1, y: curr.y, z: -1 })
        }
    }

    /// The position of `loc` in the receiver enumeration.
    pub fn loc_index(&self, loc: Loc) -> (r: usize)
        requires
            self.wf(),
            in_box(self.side_length as int, loc),
        ensures
            r == self.index_of(loc),
            r < self.num_plastic,
    {
        proof { lemma_index_bounds(self.side_length as int, loc); }
        let l = self.side_length as usize;
        assert(l * l <= 1625 * 1625) by (nonlinear_arith) requires l <= 1625;
        assert(l * l * (loc.z as usize) <= 1625 * 1625 * 1625) by (nonlinear_arith)
            requires l <= 1625, l * l <= 1625 * 1625, 0 <= loc.z < l;
        assert(l * (loc.y as usize) <= 1625 * 1625) by (nonlinear_arith)
            requires l <= 1625, 0 <= loc.y < l;
        (loc.x as usize) + l * (loc.y as usize) + l * l * (loc.z as usize)
    }

    fn nearby_low_of(&self, c: i32) -> (r: i32)
        requires
            self.wf(),
            -1 <= c < self.side_length,
        ensures
            r == nearby_low(c as int, self.nearby_side_length as int, self.side_length as int),
            0 <= r,
            r + self.nearby_side_length - 1 <= self.side_length - 1,
    {
        let n = self.nearby_side_length as i32;
        let last = (self.side_length - 1) as i32;
        let b = c - (n - 1) / 2;
        if b < 0 {
            0
        } else if b + (n - 1) > last {
            last - (n - 1)
        } else {
            b
        }
    }

    /// A random cell of the nearby cube around `loc`: the cube of side
    /// `nearby_side_length` centred on `loc`, shifted along each axis to lie
    /// inside the box.
    pub fn local_random_loc(&self, loc: Loc) -> (r: Loc)
        requires
            self.wf(),
            -1 <= loc.x < self.side_length,
            -1 <= loc.y < self.side_length,
            -1 <= loc.z < self.side_length,
        ensures
            in_box(self.side_length as int, r),
            in_nearby(r.x as int, loc.x as int, self.nearby_side_length as int, self.side_length as int),
            in_nearby(r.y as int, loc.y as int, self.nearby_side_length as int, self.side_length as int),
            in_nearby(r.z as int, loc.z as int, self.nearby_side_length as int, self.side_length as int),
    {
        let span = (self.nearby_side_length - 1) as i32;
        let bx = self.nearby_low_of(loc.x);
        let by = self.nearby_low_of(loc.y);
        let bz = self.nearby_low_of(loc.z);
        let x = random_in(bx, bx + span);
        let y = random_in(by, by + span);
        let z = random_in(bz, bz + span);
        Loc { x, y, z }
    }

    pub fn get_num_plastic(&self) -> (r: u32)
        ensures
            r == self.num_plastic,
    {
        self.num_plastic
    }

    pub fn get_num_actuator(&self) -> (r: u32)
        ensures
            r == self.num_actuator,
    {
        self.num_actuator
    }

    pub fn get_num_sensory(&self) -> (r: u32)
        ensures
            r == self.num_sensory,
    {
        self.num_sensory
    }
}

proof fn lemma_index_bounds(l: int, loc: Loc)
    requires
        0 < l,
        in_box(l, loc),
    ensures
        0 <= rx_index(l, loc) < l * l * l,
        rx_index(l, loc) == l * l * l - 1 <==> (loc.x == l - 1 && loc.y == l - 1 && loc.z == l - 1),
{
    let (x, y, z) = (loc.x as int, loc.y as int, loc.z as int);
    assert(0 <= x + l * y <= l * l - 1) by (nonlinear_arith)
        requires 0 <= x < l, 0 <= y < l;
    assert(x + l * y == l * l - 1 ==> x == l - 1 && y == l - 1) by (nonlinear_arith)
        requires 0 <= x < l, 0 <= y < l;
    assert(0 <= l * l * z <= l * l * (l - 1)) by (nonlinear_arith)
        requires 0 <= z < l, 0 < l;
    assert(l * l * z == l * l * (l - 1) ==> z == l - 1) by (nonlinear_arith)
        requires 0 <= z < l, 0 < l;
    assert(l * l * z < l * l * (l - 1) ==> l * l * z <= l * l * (l - 2)) by (nonlinear_arith)
        requires 0 <= z < l, 0 < l;
    assert(l * l * (l - 1) + l * l == l * l * l) by (nonlinear_arith);
    assert(l * l * (l - 2) + l * l == l * l * (l - 1)) by (nonlinear_arith);
    assert((l - 1) + l * (l - 1) == l * l - 1) by (nonlinear_arith);
}

proof fn lemma_cube_monotone(a: int, b: int)
    requires
        0 <= a <= b,
    ensures
        a * a * a <= b * b * b,
{
    assert(a * a <= b * b) by (nonlinear_arith) requires 0 <= a <= b;
    assert(a * a * a <= b * b * b) by (nonlinear_arith) requires 0 <= a <= b, a * a <= b * b;
}

proof fn lemma_cube_root_unique(v: int, l: int)
    requires
        is_cube_root(l, v),
    ensures
        forall|m: int| is_cube_root(m, v) ==> m == l,
{
    assert forall|m: int| is_cube_root(m, v) implies m == l by {
        if m < l {
            lemma_cube_monotone(m + 1, l);
        } else if m > l {
            lemma_cube_monotone(l + 1, m);
        }
    }
}

proof fn lemma_no_odd_side_of_zero()
    ensures
        forall|n: int| !is_odd_cube_side(n, 0),
{
    assert forall|n: int| !is_odd_cube_side(n, 0) by {
        if 0 < n {
            lemma_cube_monotone(1, n);
        }
    }
}

proof fn lemma_odd_side(v: int, c: int, n: int)
    requires
        is_cube_root(c, v),
        1 <= c,
        n == (if c % 2 == 0 { c - 1 } else { c }),
    ensures
        is_odd_cube_side(n, v),
        forall|m: int| is_odd_cube_side(m, v) ==> m == n,
{
    lemma_cube_monotone(n, c);
    lemma_cube_monotone(c + 1, n + 2);
    assert forall|m: int| is_odd_cube_side(m, v) implies m == n by {
        if m < n {
            lemma_cube_monotone(m + 2, n);
        } else if m > n {
            lemma_cube_monotone(n + 2, m);
        }
    }
}

} // verus!
