//! The stars of the dome: where their pictures stand, as the corners and
//! triangles of a mesh.
//!
//! Each star is a small square at the dome's distance, turned from the pole
//! to its place by the star's rotation. The background stars are strewn at
//! random.
use vstd::prelude::*;
use rand::Rng;
use crate::fixed::{
    fx_mul, fx_sqrt, sat_neg, sat_sub, spec_fx_mul, spec_fx_sqrt, spec_sat_neg, spec_sat_sub,
    SCALE,
};
use crate::quat::Quat;
use crate::trig::{sin_cos_turns, spec_sin_cos_turns};
use crate::vector::{Vec2, Vec3};

verus! {

/// How far off the stars stand.
pub const STAR_DISTANCE: i64 = 1_000_000_000_000;

/// The number of background stars.
pub const BACKGROUND_STARS: usize = 1000;

/// The most stars one mesh can hold: four corners each, counted in `u32`.
pub const MOST_STARS: usize = 0x3fff_ffff;

/// One star: where on the dome, and how large.
#[derive(Clone, Copy, Debug, PartialEq, Eq, Structural)]
pub struct StarDef {
    pub quat: Quat,
    pub size: i64,
}

/// The mesh of a field of stars: four corners and two triangles a star.
#[derive(Debug, PartialEq, Eq)]
pub struct StarMesh {
    pub positions: Vec<Vec3>,
    pub normals: Vec<Vec3>,
    pub uvs: Vec<Vec2>,
    pub indices: Vec<u32>,
}

/// `rand::rngs::ThreadRng`, the handle on the generator of a thread. Nothing
/// is known of what it holds.
#[verifier::external_type_specification]
#[verifier::external_body]
pub struct ExThreadRng(rand::rngs::ThreadRng);

/// `rand::thread_rng` hands out the generator of the present thread, which
/// the system seeds when the thread first asks for it. Nothing is claimed
/// of the generator.
pub assume_specification[ rand::thread_rng ]() -> (r: rand::rngs::ThreadRng)
;

/// A source of rotations spread evenly over all rotations.
pub struct RandomRotation {
    rng: rand::rngs::ThreadRng,
}

/// `Rng::gen_range` on the half-open range from zero to `bound`: for a
/// range that is not empty it returns a number of the range, whichever the
/// generator comes up with.
#[verifier::external_body]
fn draw_below(rng: &mut rand::rngs::ThreadRng, bound: i64) -> (r: i64)
    requires
        bound > 0,
    ensures
        0 <= r < bound,
{
    rng.gen_range(0..bound)
}

/// The normal that every corner of a star carries.
pub open spec fn spec_star_normal() -> Vec3 {
    Vec3 { x: 0, y: 1_000_000_000, z: 100_000_000 }
}

/// The rotation that three numbers between nothing and one pick out: the
/// first shares the length between two circles, the other two are the
/// angles on them, in turns.
pub open spec fn spec_uniform_rotation(u: i64, v: i64, w: i64) -> Quat {
    let near = spec_fx_sqrt(spec_sat_sub(SCALE, u));
    let far = spec_fx_sqrt(u);
    (Quat {
        x: spec_fx_mul(near, spec_sin_cos_turns(v).0),
        y: spec_fx_mul(near, spec_sin_cos_turns(v).1),
        z: spec_fx_mul(far, spec_sin_cos_turns(w).0),
        w: spec_fx_mul(far, spec_sin_cos_turns(w).1),
    }).spec_normalize()
}

/// The rotation that three numbers between nothing and one pick out.
/// Numbers spread evenly give rotations spread evenly. The result is a
/// unit quaternion.
#[verifier::when_used_as_spec(spec_uniform_rotation)]
pub fn uniform_rotation(u: i64, v: i64, w: i64) -> (r: Quat)
    ensures
        r == spec_uniform_rotation(u, v, w),
        r.is_unit(),
{
    let near = fx_sqrt(sat_sub(SCALE, u));
    let far = fx_sqrt(u);
    let (sin_v, cos_v) = sin_cos_turns(v);
    let (sin_w, cos_w) = sin_cos_turns(w);
    (Quat {
        x: fx_mul(near, sin_v),
        y: fx_mul(near, cos_v),
        z: fx_mul(far, sin_w),
        w: fx_mul(far, cos_w),
    }).normalize()
}

impl RandomRotation {
    /// A source that draws on the generator of the present thread.
    pub fn new() -> (r: RandomRotation) {
        RandomRotation { rng: rand::thread_rng() }
    }

    /// The next rotation: the one that three fresh numbers between nothing
    /// and one pick out. There always is one.
    pub fn next(&mut self) -> (r: Option<Quat>)
        ensures
            r is Some,
            r->0.is_unit(),
            exists|u: i64, v: i64, w: i64|
                0 <= u < SCALE && 0 <= v < SCALE && 0 <= w < SCALE && r->0
                    == #[trigger] spec_uniform_rotation(u, v, w),
    {
        let u = draw_below(&mut self.rng, SCALE);
        let v = draw_below(&mut self.rng, SCALE);
        let w = draw_below(&mut self.rng, SCALE);
        Some(uniform_rotation(u, v, w))
    }
}

/// A corner of the square, before it is turned to the star's place: at the
/// pole of the dome, `right` and `up` telling which of the four.
pub open spec fn corner_at_pole(size: i64, right: bool, up: bool) -> Vec3 {
    let half = spec_fx_mul(size, 500_000_000);
    Vec3 {
        x: if right {
            spec_sat_neg(half)
        } else {
            half
        },
        y: STAR_DISTANCE,
        z: if up {
            half
        } else {
            spec_sat_neg(half)
        },
    }
}

/// The `corner`th corner of a star, `corner` from 0 to 3: left before
/// right, and on each side bottom before top.
pub open spec fn spec_star_corner(def: StarDef, corner: int) -> Vec3 {
    def.quat.spec_rotate(corner_at_pole(def.size, corner >= 2, corner % 2 == 1))
}

/// Where the `corner`th corner lies on the star's picture.
pub open spec fn spec_star_uv(corner: int) -> Vec2 {
    Vec2 {
        x: if corner >= 2 {
            SCALE
        } else {
            0
        },
        y: if corner % 2 == 1 {
            SCALE
        } else {
            0
        },
    }
}

/// The corner that the `place`th index of a star's two triangles names,
/// `place` from 0 to 5.
pub open spec fn spec_triangle_corner(place: int) -> int {
    if place == 0 {
        0
    } else if place == 1 || place == 3 {
        1
    } else if place == 2 || place == 5 {
        2
    } else {
        3
    }
}

/// The mesh holds exactly the stars `defs`, in their order.
#[verifier::opaque]
pub open spec fn is_mesh_of(mesh: StarMesh, defs: Seq<StarDef>) -> bool {
    &&& mesh.positions@.len() == 4 * defs.len()
    &&& mesh.normals@.len() == 4 * defs.len()
    &&& mesh.uvs@.len() == 4 * defs.len()
    &&& mesh.indices@.len() == 6 * defs.len()
    &&& forall|k: int|
        0 <= k < 4 * defs.len() ==> #[trigger] mesh.positions@[k] == spec_star_corner(
            defs[k / 4],
            k % 4,
        )
    &&& forall|k: int| 0 <= k < 4 * defs.len() ==> #[trigger] mesh.normals@[k] == spec_star_normal()
    &&& forall|k: int| 0 <= k < 4 * defs.len() ==> #[trigger] mesh.uvs@[k] == spec_star_uv(k % 4)
    &&& forall|k: int|
        0 <= k < 6 * defs.len() ==> #[trigger] mesh.indices@[k] == 4 * (k / 6)
            + spec_triangle_corner(k % 6)
}

fn star_corner(def: &StarDef, right: bool, up: bool) -> (r: Vec3)
    ensures
        r == def.quat.spec_rotate(corner_at_pole(def.size, right, up)),
{
    let half = fx_mul(def.size, 500_000_000);
    def.quat.rotate(
        Vec3 {
            x: if right {
                sat_neg(half)
            } else {
                half
            },
            y: STAR_DISTANCE,
            z: if up {
                half
            } else {
                sat_neg(half)
            },
        },
    )
}

/// The mesh `before` with the star `def` added behind its stars.
#[verifier::opaque]
pub open spec fn with_star(before: StarMesh, def: StarDef, after: StarMesh) -> bool {
    let first = before.positions@.len();
    &&& after.positions@ == before.positions@ + seq![
        spec_star_corner(def, 0),
        spec_star_corner(def, 1),
        spec_star_corner(def, 2),
        spec_star_corner(def, 3),
    ]
    &&& after.normals@ == before.normals@ + seq![
        spec_star_normal(),
        spec_star_normal(),
        spec_star_normal(),
        spec_star_normal(),
    ]
    &&& after.uvs@ == before.uvs@ + seq![
        spec_star_uv(0),
        spec_star_uv(1),
        spec_star_uv(2),
        spec_star_uv(3),
    ]
    &&& after.indices@ == before.indices@ + seq![
        first as u32,
        (first + 1) as u32,
        (first + 2) as u32,
        (first + 1) as u32,
        (first + 3) as u32,
        (first + 2) as u32,
    ]
}

/// Appends four items.
fn push_four<T>(items: &mut Vec<T>, a: T, b: T, c: T, d: T)
    ensures
        final(items)@ == old(items)@ + seq![a, b, c, d],
{
    items.push(a);
    items.push(b);
    items.push(c);
    items.push(d);
    assert(items@ =~= old(items)@ + seq![a, b, c, d]);
}

/// Appends the two triangles of the star whose first corner is `first`.
fn push_triangles(indices: &mut Vec<u32>, first: u32)
    requires
        first + 3 <= u32::MAX,
    ensures
        final(indices)@ == old(indices)@ + seq![
            first,
            (first + 1) as u32,
            (first + 2) as u32,
            (first + 1) as u32,
            (first + 3) as u32,
            (first + 2) as u32,
        ],
{
    indices.push(first);
    indices.push(first + 1);
    indices.push(first + 2);
    indices.push(first + 1);
    indices.push(first + 3);
    indices.push(first + 2);
    assert(indices@ =~= old(indices)@ + seq![
        first,
        (first + 1) as u32,
        (first + 2) as u32,
        (first + 1) as u32,
        (first + 3) as u32,
        (first + 2) as u32,
    ]);
}

/// Adds one star to a mesh: its four corners and its two triangles.
fn push_star(mesh: &mut StarMesh, def: &StarDef)
    requires
        old(mesh).positions@.len() + 4 <= u32::MAX,
    ensures
        with_star(*old(mesh), *def, *final(mesh)),
{
    reveal(with_star);
    let first: u32 = mesh.positions.len() as u32;
    let normal = Vec3 { x: 0, y: 1_000_000_000, z: 100_000_000 };
    push_four(
        &mut mesh.positions,
        star_corner(def, false, false),
        star_corner(def, false, true),
        star_corner(def, true, false),
        star_corner(def, true, true),
    );
    push_four(&mut mesh.normals, normal, normal, normal, normal);
    push_four(
        &mut mesh.uvs,
        Vec2 { x: 0, y: 0 },
        Vec2 { x: 0, y: SCALE },
        Vec2 { x: SCALE, y: 0 },
        Vec2 { x: SCALE, y: SCALE },
    );
    push_triangles(&mut mesh.indices, first);
}

/// Four more corners behind those of `defs` are the corners of `defs` and
/// one more star.
proof fn lemma_corners_grow(before: Seq<Vec3>, after: Seq<Vec3>, defs: Seq<StarDef>, def: StarDef)
    requires
        before.len() == 4 * defs.len(),
        forall|k: int|
            0 <= k < 4 * defs.len() ==> #[trigger] before[k] == spec_star_corner(
                defs[k / 4],
                k % 4,
            ),
        after == before + seq![
            spec_star_corner(def, 0),
            spec_star_corner(def, 1),
            spec_star_corner(def, 2),
            spec_star_corner(def, 3),
        ],
    ensures
        after.len() == 4 * defs.push(def).len(),
        forall|k: int|
            0 <= k < 4 * defs.push(def).len() ==> #[trigger] after[k] == spec_star_corner(
                defs.push(def)[k / 4],
                k % 4,
            ),
{
    let n = defs.len() as int;
    assert forall|k: int| 0 <= k < 4 * (n + 1) implies #[trigger] after[k] == spec_star_corner(
        defs.push(def)[k / 4],
        k % 4,
    ) by {
        if k < 4 * n {
            assert(after[k] == before[k]);
        } else {
            assert(k / 4 == n && k % 4 == k - 4 * n);
        }
    }
}

/// Four more of the same behind as many as there are corners.
proof fn lemma_normals_grow(before: Seq<Vec3>, after: Seq<Vec3>, n: int)
    requires
        before.len() == 4 * n,
        forall|k: int| 0 <= k < 4 * n ==> #[trigger] before[k] == spec_star_normal(),
        after == before + seq![
            spec_star_normal(),
            spec_star_normal(),
            spec_star_normal(),
            spec_star_normal(),
        ],
    ensures
        after.len() == 4 * (n + 1),
        forall|k: int| 0 <= k < 4 * (n + 1) ==> #[trigger] after[k] == spec_star_normal(),
{
    assert forall|k: int| 0 <= k < 4 * (n + 1) implies #[trigger] after[k]
        == spec_star_normal() by {
        if k < 4 * n {
            assert(after[k] == before[k]);
        }
    }
}

/// The four places of one more picture.
proof fn lemma_uvs_grow(before: Seq<Vec2>, after: Seq<Vec2>, n: int)
    requires
        before.len() == 4 * n,
        forall|k: int| 0 <= k < 4 * n ==> #[trigger] before[k] == spec_star_uv(k % 4),
        after == before + seq![
            spec_star_uv(0),
            spec_star_uv(1),
            spec_star_uv(2),
            spec_star_uv(3),
        ],
    ensures
        after.len() == 4 * (n + 1),
        forall|k: int| 0 <= k < 4 * (n + 1) ==> #[trigger] after[k] == spec_star_uv(k % 4),
{
    assert forall|k: int| 0 <= k < 4 * (n + 1) implies #[trigger] after[k] == spec_star_uv(
        k % 4,
    ) by {
        if k < 4 * n {
            assert(after[k] == before[k]);
        } else {
            assert(k % 4 == k - 4 * n);
        }
    }
}

/// The two triangles of one more star.
proof fn lemma_indices_grow(before: Seq<u32>, after: Seq<u32>, n: int)
    requires
        0 <= n < MOST_STARS,
        before.len() == 6 * n,
        forall|k: int|
            0 <= k < 6 * n ==> #[trigger] before[k] == 4 * (k / 6) + spec_triangle_corner(k % 6),
        after == before + seq![
            (4 * n) as u32,
            (4 * n + 1) as u32,
            (4 * n + 2) as u32,
            (4 * n + 1) as u32,
            (4 * n + 3) as u32,
            (4 * n + 2) as u32,
        ],
    ensures
        after.len() == 6 * (n + 1),
        forall|k: int|
            0 <= k < 6 * (n + 1) ==> #[trigger] after[k] == 4 * (k / 6) + spec_triangle_corner(
                k % 6,
            ),
{
    assert forall|k: int| 0 <= k < 6 * (n + 1) implies #[trigger] after[k] == 4 * (k / 6)
        + spec_triangle_corner(k % 6) by {
        if k < 6 * n {
            assert(after[k] == before[k]);
        } else {
            assert(k / 6 == n && k % 6 == k - 6 * n);
        }
    }
}

/// A mesh of some stars with one star added is the mesh of those stars and
/// that one.
proof fn lemma_mesh_grows(before: StarMesh, after: StarMesh, defs: Seq<StarDef>, def: StarDef)
    requires
        is_mesh_of(before, defs),
        with_star(before, def, after),
        defs.len() < MOST_STARS,
    ensures
        is_mesh_of(after, defs.push(def)),
        after.positions@.len() == before.positions@.len() + 4,
{
    reveal(is_mesh_of);
    reveal(with_star);
    let n = defs.len() as int;
    lemma_corners_grow(before.positions@, after.positions@, defs, def);
    lemma_normals_grow(before.normals@, after.normals@, n);
    lemma_uvs_grow(before.uvs@, after.uvs@, n);
    lemma_indices_grow(before.indices@, after.indices@, n);
}

/// A mesh without corners is the mesh of no stars.
proof fn lemma_no_stars(mesh: StarMesh)
    requires
        mesh.positions@.len() == 0,
        mesh.normals@.len() == 0,
        mesh.uvs@.len() == 0,
        mesh.indices@.len() == 0,
    ensures
        is_mesh_of(mesh, Seq::<StarDef>::empty()),
{
    reveal(is_mesh_of);
}

/// What it is to be the mesh of some stars: the counts, and every corner,
/// normal, picture place and index.
pub proof fn lemma_mesh_of(mesh: StarMesh, defs: Seq<StarDef>)
    requires
        is_mesh_of(mesh, defs),
    ensures
        mesh.positions@.len() == 4 * defs.len(),
        mesh.normals@.len() == 4 * defs.len(),
        mesh.uvs@.len() == 4 * defs.len(),
        mesh.indices@.len() == 6 * defs.len(),
        forall|k: int|
            0 <= k < 4 * defs.len() ==> #[trigger] mesh.positions@[k] == spec_star_corner(
                defs[k / 4],
                k % 4,
            ),
        forall|k: int|
            0 <= k < 4 * defs.len() ==> #[trigger] mesh.normals@[k] == spec_star_normal(),
        forall|k: int| 0 <= k < 4 * defs.len() ==> #[trigger] mesh.uvs@[k] == spec_star_uv(k % 4),
        forall|k: int|
            0 <= k < 6 * defs.len() ==> #[trigger] mesh.indices@[k] == 4 * (k / 6)
                + spec_triangle_corner(k % 6),
        forall|k: int| 0 <= k < 6 * defs.len() ==> #[trigger] mesh.indices@[k] < 4 * defs.len(),
{
    reveal(is_mesh_of);
    assert forall|k: int| 0 <= k < 6 * defs.len() implies #[trigger] mesh.indices@[k] < 4
        * defs.len() by {
        assert(k / 6 < defs.len());
    }
}

/// Builds the mesh of the stars `defs`: for each star its four corners,
/// turned to its place, and the two triangles that span them.
pub fn stars(defs: &Vec<StarDef>) -> (r: StarMesh)
    requires
        defs.len() <= MOST_STARS,
    ensures
        is_mesh_of(r, defs@),
{
    let mut mesh = StarMesh {
        positions: Vec::new(),
        normals: Vec::new(),
        uvs: Vec::new(),
        indices: Vec::new(),
    };
    proof {
        lemma_no_stars(mesh);
        assert(defs@.take(0) =~= Seq::<StarDef>::empty());
    }
    let mut i: usize = 0;
    while i < defs.len()
        invariant
            i <= defs.len() <= MOST_STARS,
            mesh.positions@.len() == 4 * i,
            is_mesh_of(mesh, defs@.take(i as int)),
        decreases defs.len() - i,
    {
        let ghost before = mesh;
        push_star(&mut mesh, &defs[i]);
        proof {
            lemma_mesh_grows(before, mesh, defs@.take(i as int), defs@[i as int]);
            assert(defs@.take(i as int).push(defs@[i as int]) =~= defs@.take(i as int + 1));
        }
        i += 1;
    }
    proof {
        assert(defs@.take(defs.len() as int) =~= defs@);
    }
    mesh
}

/// The mesh of the islands' stars.
pub fn island_stars(defs: Vec<StarDef>) -> (r: StarMesh)
    requires
        defs.len() <= MOST_STARS,
    ensures
        is_mesh_of(r, defs@),
{
    stars(&defs)
}

/// Strews the background stars: a thousand of them, each at a random place
/// and of a random size between one and five.
///
/// Which stars come out is left to chance; the mesh is that of some
/// thousand stars of such sizes at unit rotations.
pub fn bg_stars() -> (r: StarMesh)
    ensures
        exists|defs: Seq<StarDef>|
            #![trigger is_mesh_of(r, defs)]
            defs.len() == BACKGROUND_STARS && is_mesh_of(r, defs) && forall|i: int|
                0 <= i < defs.len() ==> (#[trigger] defs[i]).quat.is_unit() && 1_000_000_000
                    <= defs[i].size < 5_000_000_000,
{
    let mut quat_rng = RandomRotation::new();
    let mut rng = rand::thread_rng();
    let mut simple_stars: Vec<StarDef> = Vec::new();
    let mut n: usize = 0;
    while n < BACKGROUND_STARS
        invariant
            n <= BACKGROUND_STARS,
            simple_stars@.len() == n,
            forall|i: int|
                0 <= i < simple_stars@.len() ==> (#[trigger] simple_stars@[i]).quat.is_unit()
                    && 1_000_000_000 <= simple_stars@[i].size < 5_000_000_000,
        decreases BACKGROUND_STARS - n,
    {
        match quat_rng.next() {
            Some(quat) => {
                let size = 1_000_000_000 + draw_below(&mut rng, 4_000_000_000);
                simple_stars.push(StarDef { quat, size });
            },
            None => {},
        }
        n += 1;
    }
    stars(&simple_stars)
}

} // verus!
