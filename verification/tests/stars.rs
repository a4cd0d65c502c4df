use ocean_nav::fixed::SCALE;
use ocean_nav::navigation::Island;
use ocean_nav::quat::Quat;
use ocean_nav::sky::{celestial_islands, island_direction};
use ocean_nav::stars::{
    bg_stars, island_stars, stars, uniform_rotation, RandomRotation, StarDef, STAR_DISTANCE,
};
use ocean_nav::vector::{Vec2, Vec3};

fn fx(v: f64) -> i64 {
    (v * 1e9).round() as i64
}

fn vec3(x: f64, y: f64, z: f64) -> Vec3 {
    Vec3 { x: fx(x), y: fx(y), z: fx(z) }
}

fn quat_is_unit(q: Quat) -> bool {
    let n = (q.x as i128).pow(2) + (q.y as i128).pow(2) + (q.z as i128).pow(2) + (q.w as i128).pow(2);
    (SCALE as i128 - 10_000).pow(2) <= n && n <= (SCALE as i128 + 10_000).pow(2)
}

#[test]
fn the_islands_of_the_sky() {
    let islands = celestial_islands();
    assert_eq!(islands.len(), 2);
    assert_eq!(islands[0].id, Island::Home);
    assert_eq!(islands[1].id, Island::IslandA);
    assert_eq!(
        islands[0].rotation,
        Quat::from_rotation_x(157_079_633).times(Quat::from_rotation_y(314_159_265))
    );
    assert_eq!(
        islands[1].rotation,
        Quat::from_rotation_x(-235_619_449).times(Quat::from_rotation_z(188_495_559))
    );
    // home stands nine degrees off the pole: near, but not overhead
    let home = island_direction(Quat::identity(), islands[0].rotation);
    assert!((home.y - fx(0.15707963267f64.cos())).abs() < 50, "{:?}", home);
    assert!(home.y < fx(0.99));
}

#[test]
fn one_star_at_the_pole() {
    let mesh = stars(&vec![StarDef { quat: Quat::identity(), size: fx(2.0) }]);
    assert_eq!(
        mesh.positions,
        vec![
            vec3(1.0, 1000.0, -1.0),
            vec3(1.0, 1000.0, 1.0),
            vec3(-1.0, 1000.0, -1.0),
            vec3(-1.0, 1000.0, 1.0),
        ]
    );
    assert_eq!(mesh.normals, vec![vec3(0.0, 1.0, 0.1); 4]);
    assert_eq!(
        mesh.uvs,
        vec![
            Vec2 { x: 0, y: 0 },
            Vec2 { x: 0, y: SCALE },
            Vec2 { x: SCALE, y: 0 },
            Vec2 { x: SCALE, y: SCALE },
        ]
    );
    assert_eq!(mesh.indices, vec![0, 1, 2, 1, 3, 2]);
}

#[test]
fn stars_stand_where_their_rotation_puts_them() {
    let quarter = Quat::from_rotation_x(1_570_796_327);
    let defs = vec![
        StarDef { quat: Quat::identity(), size: fx(1.0) },
        StarDef { quat: quarter, size: fx(4.0) },
        StarDef { quat: Quat::from_rotation_z(fx(0.3)), size: fx(0.5) },
    ];
    let mesh = island_stars(defs.clone());
    assert_eq!(mesh.positions.len(), 12);
    assert_eq!(mesh.normals.len(), 12);
    assert_eq!(mesh.uvs.len(), 12);
    assert_eq!(mesh.indices, vec![0, 1, 2, 1, 3, 2, 4, 5, 6, 5, 7, 6, 8, 9, 10, 9, 11, 10]);
    for (i, def) in defs.iter().enumerate() {
        let half = def.size / 2;
        let corners = [(half, -half), (half, half), (-half, -half), (-half, half)];
        for (c, (x, z)) in corners.iter().enumerate() {
            let expected = def.quat.rotate(Vec3 { x: *x, y: STAR_DISTANCE, z: *z });
            assert_eq!(mesh.positions[4 * i + c], expected);
        }
    }
    // a quarter turn about x takes the pole to the horizon along z
    let centre = mesh.positions[4].plus(mesh.positions[7]).scale(fx(0.5));
    assert!((centre.z - fx(1000.0)).abs() < 30_000 && centre.y.abs() < 30_000, "{:?}", centre);
    assert_eq!(mesh, stars(&defs));
}

#[test]
fn no_stars_no_mesh() {
    let mesh = stars(&Vec::new());
    assert!(mesh.positions.is_empty() && mesh.normals.is_empty());
    assert!(mesh.uvs.is_empty() && mesh.indices.is_empty());
}

#[test]
fn three_numbers_pick_a_rotation() {
    // all the length on the second circle, at angle nothing: no turn at all
    assert_eq!(uniform_rotation(SCALE, 0, 0), Quat::identity());
    // all on the first circle, at angle nothing
    assert_eq!(uniform_rotation(0, 0, 0), Quat { x: 0, y: SCALE, z: 0, w: 0 });
    assert_eq!(uniform_rotation(0, 250_000_000, 0), Quat { x: SCALE, y: 0, z: 0, w: 0 });
    assert_eq!(uniform_rotation(SCALE, 0, 250_000_000), Quat { x: 0, y: 0, z: SCALE, w: 0 });
    // shared evenly
    let q = uniform_rotation(500_000_000, 0, 0);
    assert!((q.y - 707_106_781).abs() <= 2 && (q.w - 707_106_781).abs() <= 2, "{:?}", q);
    assert_eq!((q.x, q.z), (0, 0));
    let mut i: i64 = 0;
    while i < 300 {
        let q = uniform_rotation((i * 3_333_333) % SCALE, (i * 77_777_777) % SCALE, (i * 123_456_789) % SCALE);
        assert!(quat_is_unit(q));
        i += 1;
    }
}

#[test]
fn random_rotations_are_rotations() {
    let mut source = RandomRotation::new();
    let mut seen = Vec::new();
    let mut i = 0;
    while i < 200 {
        let q = source.next().expect("there always is a next rotation");
        assert!(quat_is_unit(q));
        seen.push(q);
        i += 1;
    }
    // the source does not hand its draws back unchanged: they differ
    seen.dedup();
    assert!(seen.len() > 100);
}

#[test]
fn a_thousand_background_stars() {
    let mesh = bg_stars();
    assert_eq!(mesh.positions.len(), 4000);
    assert_eq!(mesh.normals.len(), 4000);
    assert_eq!(mesh.uvs.len(), 4000);
    assert_eq!(mesh.indices.len(), 6000);
    assert!(mesh.indices.iter().all(|i| (*i as usize) < mesh.positions.len()));
    let mut star = 0;
    while star < 1000 {
        // each star is a square of a side between one and five, at the
        // dome's distance
        let a = mesh.positions[4 * star];
        let b = mesh.positions[4 * star + 1];
        let d = mesh.positions[4 * star + 3];
        let side = a.distance(b);
        assert!(fx(0.9999) <= side && side < fx(5.0001), "side {}", side);
        let centre = a.plus(d).scale(fx(0.5));
        assert!((centre.length() - STAR_DISTANCE).abs() < fx(0.001), "{:?}", centre);
        star += 1;
    }
    let other = bg_stars();
    assert!(mesh != other);
}
