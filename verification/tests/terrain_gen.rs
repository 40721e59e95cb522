//! Terrain generation: noise, sections, ocean basins, and smoothing.

use trebuckot::perlin::PerlinNoise;
use trebuckot::terrain::{
    gen_height_map, gen_sections, sink_ocean, smooth_at, TerrainClass, TERRAIN_SEED,
};
use trebuckot::world::{circumference, World, WorldClass};
use trebuckot::utils::WorldPoint;

#[test]
fn smooth() {
    let a: i64 = 12800; // 50 m in height units
    let b: i64 = -2048; // -8 m
    let mut v: Vec<i64> = Vec::new();
    for _ in 0..60 {
        v.push(a);
    }
    for _ in 0..60 {
        v.push(b);
    }
    smooth_at(&mut v, 0);
    for (i, x) in v.iter().enumerate() {
        println!("{i:2}:{x}");
    }
}

#[test]
fn terrain_smooth() {
    let a: i64 = 12800;
    let b: i64 = -2048;
    let mut v: Vec<i64> = Vec::new();
    for _ in 0..60 {
        v.push(a);
    }
    for _ in 0..60 {
        v.push(b);
    }
    smooth_at(&mut v, 0);
    for (i, x) in v.iter().enumerate() {
        println!("{i:2}:{x}");
    }
}

#[test]
fn smoothing_shrinks_the_boundary_step() {
    // a 58 m cliff between the last and first samples
    let mut v: Vec<i64> = Vec::new();
    for _ in 0..60 {
        v.push(12800);
    }
    for _ in 0..60 {
        v.push(-2048);
    }
    let before_gap: i64 = v[0] - v[119]; // 14848
    smooth_at(&mut v, 0);
    // half the step is 7424; the midpoint takes all of it, its neighbor
    // 55284/65536 of it
    assert_eq!(v[0], 12800 - 7424);
    assert_eq!(v[119], -2048 + 6262);
    let after_gap: i64 = v[0] - v[119];
    assert_eq!(after_gap, 1162);
    assert!(after_gap.abs() < before_gap.abs());
    // the window tapers to nothing at its edges and beyond
    assert_eq!(v[110], -2048); // window edge, weight zero
    assert_eq!(v[10], 12800); // outside the window
    assert_eq!(v[60], -2048); // far side of the map untouched
}

#[test]
fn ocean_basin_shape() {
    let mut v: Vec<i64> = vec![0; 100];
    sink_ocean(&mut v, 10, 80);
    // zero depth at the left edge, symmetric, deepest at the midpoint
    assert_eq!(v[10], 0);
    assert_eq!(v[9], 0); // untouched outside the section
    assert_eq!(v[95], 0); // untouched past the section
    for j in 1..40usize {
        assert_eq!(v[10 + j], v[10 + 80 - j]); // symmetry about the midpoint
        assert!(v[10 + j] <= 0);
    }
    let deepest: i64 = v[50];
    for j in 0..80usize {
        assert!(v[10 + j] >= deepest);
    }
    // the midpoint reaches the full basin depth (4000 m, Bhaskara-exact)
    assert!(deepest <= -1_000_000);
    assert!(deepest >= -1_024_000);
}

#[test]
fn height_map_is_deterministic() {
    let sections: Vec<(TerrainClass, usize)> =
        vec![(TerrainClass::Plain, 30), (TerrainClass::Rocky, 20)];
    let one: Vec<i64> = gen_height_map(50, &sections);
    let two: Vec<i64> = gen_height_map(50, &sections);
    assert_eq!(one.len(), 50);
    assert_eq!(one, two);
    for h in one.iter() {
        assert!(-2_512_000 <= *h && *h <= 2_512_000);
    }
}

#[test]
fn noise_interpolation_hits_table_samples() {
    let noise = PerlinNoise::new(TERRAIN_SEED, 64);
    assert_eq!(noise.noise.len(), 64);
    // at whole-cell positions the interpolation returns the sample itself
    for k in 0..70u64 {
        let r: i64 = noise.interpolate(k * 100, 100);
        assert_eq!(r, noise.noise[(k % 64) as usize]);
    }
    for s in noise.noise.iter() {
        assert!(-65536 <= *s && *s <= 65536);
    }
    // the same seed and length reproduce the same table
    let again = PerlinNoise::new(TERRAIN_SEED, 64);
    assert_eq!(noise.noise, again.noise);
}

#[test]
fn default_sections_cover_the_world() {
    let s = gen_sections(123, WorldClass::Minshara);
    assert_eq!(s, vec![(TerrainClass::Plain, 123)]);
}

#[test]
fn world_height_map_is_circular() {
    // radius 3200 m gives exactly floor(2 pi * 3.2) == 20 samples
    assert_eq!(circumference(3200), 20);
    let preset: Vec<(TerrainClass, usize)> =
        vec![(TerrainClass::Plain, 12), (TerrainClass::Ocean, 8)];
    let w = World::new(
        WorldPoint { x: 0, y: 0 },
        3200,
        1_000_000,
        WorldClass::Minshara,
        Some(preset),
    );
    assert_eq!(w.height_map.len(), 20);
    assert_eq!(w.radius, 3200 * 256);
    // terrain periodicity: the map is a closed loop
    for i in 0..40usize {
        assert_eq!(w.height_at(i), w.height_at(i + 20));
    }
    // the class map records cumulative section ends
    assert_eq!(w.class_map, vec![(TerrainClass::Plain, 12), (TerrainClass::Ocean, 20)]);
    assert_eq!(w.terrain_class(5), TerrainClass::Plain);
    assert_eq!(w.terrain_class(12), TerrainClass::Plain);
    assert_eq!(w.terrain_class(15), TerrainClass::Ocean);
}

#[test]
fn world_keeps_generated_heights_outside_shaping() {
    // radius 16000 m: floor(2 pi * 16) == 100 samples, one plain section;
    // the only shaping pass is the smoothing window around index 0
    assert_eq!(circumference(16_000), 100);
    let w = World::new(
        WorldPoint { x: 0, y: 0 },
        16_000,
        1_000_000,
        WorldClass::Minshara,
        None,
    );
    let sections = gen_sections(100, WorldClass::Minshara);
    let raw = gen_height_map(100, &sections);
    assert_eq!(w.height_map.len(), 100);
    // samples outside the window (indices 90..99 and 0..9) are exactly the
    // generated noise
    for i in 10..90usize {
        assert_eq!(w.height_map[i], raw[i]);
    }
}
