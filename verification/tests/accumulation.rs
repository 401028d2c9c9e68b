//! Accumulation and merge arithmetic: channel samples, saturating sums,
//! the divide-by-sample-count merge rule, and ray-bundle repacking.

use tilefilm::channel::{
    accumulate, merge_sample, zero_sample, ChannelKind, ChannelSample, ChannelTileStorage, Rgb,
    Vec3i, FIXED_ONE,
};
use tilefilm::geom::{Aabru, Extent2u, Vec2u};
use tilefilm::render::{repack_rays, Ray, BUNDLE_WIDTH};
use tilefilm::tile::Tile;

#[test]
fn merge_divides_sum_by_sample_count_for_every_channel_type() {
    // merge(sum, n) == sum / n, componentwise, for each channel kind.
    let color = ChannelSample::Color(Rgb { r: 12 * FIXED_ONE, g: 6 * FIXED_ONE, b: 0 });
    match merge_sample(color, 4) {
        ChannelSample::Color(c) => {
            assert_eq!(c.r, 3 * FIXED_ONE);
            assert_eq!(c.g, 6 * FIXED_ONE / 4);
            assert_eq!(c.b, 0);
        }
        _ => panic!("merge changed the channel kind"),
    }
    let alpha = ChannelSample::Alpha(10 * FIXED_ONE);
    match merge_sample(alpha, 5) {
        ChannelSample::Alpha(a) => assert_eq!(a, 2 * FIXED_ONE),
        _ => panic!("merge changed the channel kind"),
    }
    let bg = ChannelSample::Background(Rgb { r: 9, g: 10, b: 11 });
    match merge_sample(bg, 3) {
        ChannelSample::Background(c) => {
            assert_eq!(c.r, 3);
            assert_eq!(c.g, 3);
            assert_eq!(c.b, 3);
        }
        _ => panic!("merge changed the channel kind"),
    }
    let normal = ChannelSample::WorldNormal(Vec3i { x: -7, y: 7, z: -8 });
    match merge_sample(normal, 2) {
        ChannelSample::WorldNormal(v) => {
            // Division rounds toward zero, also for negative sums.
            assert_eq!(v.x, -3);
            assert_eq!(v.y, 3);
            assert_eq!(v.z, -4);
        }
        _ => panic!("merge changed the channel kind"),
    }
}

#[test]
fn merge_by_one_is_identity_and_extremes_survive() {
    match merge_sample(ChannelSample::Alpha(i64::MIN), 1) {
        ChannelSample::Alpha(a) => assert_eq!(a, i64::MIN),
        _ => panic!("merge changed the channel kind"),
    }
    match merge_sample(ChannelSample::Alpha(i64::MIN), 2) {
        ChannelSample::Alpha(a) => assert_eq!(a, i64::MIN / 2),
        _ => panic!("merge changed the channel kind"),
    }
    match merge_sample(ChannelSample::Alpha(i64::MAX), 1) {
        ChannelSample::Alpha(a) => assert_eq!(a, i64::MAX),
        _ => panic!("merge changed the channel kind"),
    }
}

#[test]
fn accumulation_saturates_instead_of_wrapping() {
    let a = ChannelSample::Alpha(i64::MAX - 1);
    let b = ChannelSample::Alpha(5);
    match accumulate(a, b) {
        ChannelSample::Alpha(v) => assert_eq!(v, i64::MAX),
        _ => panic!("accumulate changed the channel kind"),
    }
    let c = ChannelSample::Alpha(i64::MIN + 1);
    let d = ChannelSample::Alpha(-5);
    match accumulate(c, d) {
        ChannelSample::Alpha(v) => assert_eq!(v, i64::MIN),
        _ => panic!("accumulate changed the channel kind"),
    }
}

#[test]
fn zero_samples_carry_their_kind() {
    assert!(matches!(
        zero_sample(ChannelKind::Color),
        ChannelSample::Color(Rgb { r: 0, g: 0, b: 0 })
    ));
    assert!(matches!(zero_sample(ChannelKind::Alpha), ChannelSample::Alpha(0)));
}

#[test]
fn tile_storage_ignores_samples_of_another_kind() {
    let res = Extent2u { w: 2, h: 2 };
    let mut storage = ChannelTileStorage::new(ChannelKind::Alpha, res);
    storage.add_sample(0, &ChannelSample::Alpha(3));
    storage.add_sample(0, &ChannelSample::Color(Rgb { r: 9, g: 9, b: 9 }));
    storage.add_sample(1, &ChannelSample::Alpha(4));
    assert!(matches!(storage.value_at(0), ChannelSample::Alpha(3)));
    assert!(matches!(storage.value_at(1), ChannelSample::Alpha(4)));
    assert!(matches!(storage.value_at(2), ChannelSample::Alpha(0)));
    assert_eq!(storage.len(), 4);
    assert_eq!(storage.kind(), ChannelKind::Alpha);
}

#[test]
fn folding_a_batch_routes_each_sample_to_its_channel_and_slot() {
    let res = Extent2u { w: 4, h: 4 };
    let bounds = Aabru { min: Vec2u { x: 0, y: 0 }, max: Vec2u { x: 2, y: 2 } };
    let kinds = vec![ChannelKind::Color, ChannelKind::Alpha];
    let mut tile = Tile::new(0, 0, &kinds, res, bounds);
    let emitted = vec![
        (Vec2u { x: 1, y: 1 }, ChannelSample::Color(Rgb { r: 7, g: 0, b: 0 })),
        (Vec2u { x: 1, y: 1 }, ChannelSample::Color(Rgb { r: 5, g: 1, b: 0 })),
        (Vec2u { x: 0, y: 0 }, ChannelSample::Alpha(9)),
        // Outside the 2x2 extent: ignored.
        (Vec2u { x: 3, y: 0 }, ChannelSample::Alpha(100)),
    ];
    tile.fold_samples(&emitted);
    // Row-major slot of (1, 1) in a 2-wide tile is 3.
    assert_eq!(tile.value_at(0, 3), ChannelSample::Color(Rgb { r: 12, g: 1, b: 0 }));
    assert_eq!(tile.value_at(1, 3), ChannelSample::Alpha(0));
    assert_eq!(tile.value_at(1, 0), ChannelSample::Alpha(9));
    assert_eq!(tile.value_at(0, 0), ChannelSample::Color(Rgb { r: 0, g: 0, b: 0 }));
    assert_eq!(tile.num_channels(), 2);
    assert_eq!(tile.channel_kind_at(0), ChannelKind::Color);
    assert_eq!(tile.epoch(), 0);
}

fn test_ray(sample: usize) -> Ray {
    let mut r = Ray::new_invalid();
    r.sample = sample;
    r.valid = true;
    r.tile_coord = Vec2u { x: 0, y: 0 };
    r
}

#[test]
fn repacking_pads_the_last_bundle_with_invalid_rays() {
    let mut spawned: Vec<Ray> = (0..5).map(test_ray).collect();
    let bundles = repack_rays(&mut spawned);
    assert_eq!(spawned.len(), 0);
    assert_eq!(bundles.len(), 2);
    for (k, bundle) in bundles.iter().enumerate() {
        for (l, lane) in bundle.lanes.iter().enumerate() {
            let pos = BUNDLE_WIDTH * k + l;
            if pos < 5 {
                assert!(lane.valid);
                assert_eq!(lane.sample, pos);
            } else {
                assert!(!lane.valid);
            }
        }
    }
}

#[test]
fn repacking_an_exact_multiple_adds_no_padding() {
    let mut spawned: Vec<Ray> = (0..8).map(test_ray).collect();
    let bundles = repack_rays(&mut spawned);
    assert_eq!(bundles.len(), 2);
    assert!(bundles.iter().all(|b| b.lanes.iter().all(|l| l.valid)));

    let mut none: Vec<Ray> = Vec::new();
    let bundles = repack_rays(&mut none);
    assert_eq!(bundles.len(), 0);
}
