//! Film construction, the channel registry, the tile partition, the
//! epoch/merge protocol, and export planning.

use tilefilm::channel::{ChannelKind, ChannelSample, Rgb};
use tilefilm::error::FilmError;
use tilefilm::export::ExportTask;
use tilefilm::film::Film;
use tilefilm::geom::{Extent2u, Vec2u};
use tilefilm::tile::Tile;

#[test]
fn film_returns_kinds_in_original_order() {
    let film = Film::new(&[ChannelKind::Color, ChannelKind::Alpha], Extent2u { w: 4, h: 4 })
        .unwrap();
    assert_eq!(film.num_channels(), 2);
    assert_eq!(film.channel_kind_at(0), ChannelKind::Color);
    assert_eq!(film.channel_kind_at(1), ChannelKind::Alpha);
    assert_eq!(film.channel_kinds(), vec![ChannelKind::Color, ChannelKind::Alpha]);
}

#[test]
fn film_rejects_duplicate_channel_kinds() {
    let r = Film::new(&[ChannelKind::Color, ChannelKind::Color], Extent2u { w: 4, h: 4 });
    match r {
        Err(FilmError::DuplicateChannel(k)) => {
            assert_eq!(k, ChannelKind::Color);
            assert!(!FilmError::DuplicateChannel(k).describe().is_empty());
        }
        _ => panic!("duplicate channel kinds must be rejected"),
    }
    let r = Film::new(
        &[ChannelKind::Color, ChannelKind::Alpha, ChannelKind::Alpha],
        Extent2u { w: 4, h: 4 },
    );
    assert!(matches!(r, Err(FilmError::DuplicateChannel(ChannelKind::Alpha))));
}

#[test]
fn tile_grid_partitions_the_image_exactly() {
    // 5x3 image, 2x2 tiles: edge tiles are clipped, every pixel is
    // covered by exactly one tile.
    let res = Extent2u { w: 5, h: 3 };
    let grid = Film::tile_bounds_grid(res, Extent2u { w: 2, h: 2 });
    assert_eq!(grid.len(), 6);
    for px in 0..5usize {
        for py in 0..3usize {
            let covering = grid
                .iter()
                .filter(|b| b.min.x <= px && px < b.max.x && b.min.y <= py && py < b.max.y)
                .count();
            assert_eq!(covering, 1, "pixel ({px}, {py}) covered {covering} times");
        }
    }
    // Clipped edge tile: the last column is 1 pixel wide, the last row 1
    // pixel tall.
    assert!(grid.iter().any(|b| b.max.x - b.min.x == 1));
    assert!(grid.iter().any(|b| b.max.y - b.min.y == 1));
}

#[test]
fn tile_grid_with_exact_fit_has_no_clipped_tiles() {
    let res = Extent2u { w: 4, h: 4 };
    let grid = Film::tile_bounds_grid(res, Extent2u { w: 2, h: 2 });
    assert_eq!(grid.len(), 4);
    assert!(grid.iter().all(|b| b.max.x - b.min.x == 2 && b.max.y - b.min.y == 2));
}

#[test]
fn tile_grid_larger_than_image_is_one_tile() {
    let res = Extent2u { w: 3, h: 2 };
    let grid = Film::tile_bounds_grid(res, Extent2u { w: 16, h: 16 });
    assert_eq!(grid.len(), 1);
    assert_eq!(grid[0].min, Vec2u { x: 0, y: 0 });
    assert_eq!(grid[0].max, Vec2u { x: 3, y: 2 });
}

fn tile_with_alpha_sums(
    film: &Film,
    res: Extent2u,
    bounds: tilefilm::geom::Aabru,
    sum: i64,
) -> Tile {
    let kinds = film.channel_kinds();
    let mut tile = Tile::new(0, film.progressive_epoch(), &kinds, res, bounds);
    let w = bounds.max.x - bounds.min.x;
    let h = bounds.max.y - bounds.min.y;
    for x in 0..w {
        for y in 0..h {
            tile.add_sample(Vec2u { x, y }, ChannelSample::Alpha(sum));
        }
    }
    tile
}

#[test]
fn merging_disjoint_tiles_in_either_order_gives_identical_buffers() {
    let res = Extent2u { w: 4, h: 2 };
    let grid = Film::tile_bounds_grid(res, Extent2u { w: 2, h: 2 });
    assert_eq!(grid.len(), 2);

    let mut film_ab = Film::new(&[ChannelKind::Alpha], res).unwrap();
    let a = tile_with_alpha_sums(&film_ab, res, grid[0], 10);
    let b = tile_with_alpha_sums(&film_ab, res, grid[1], 20);
    film_ab.tile_finished(a, 2).unwrap();
    film_ab.tile_finished(b, 2).unwrap();

    let mut film_ba = Film::new(&[ChannelKind::Alpha], res).unwrap();
    let a = tile_with_alpha_sums(&film_ba, res, grid[0], 10);
    let b = tile_with_alpha_sums(&film_ba, res, grid[1], 20);
    film_ba.tile_finished(b, 2).unwrap();
    film_ba.tile_finished(a, 2).unwrap();

    for idx in 0..8 {
        let va = film_ab.value_at(0, idx);
        let vb = film_ba.value_at(0, idx);
        assert_eq!(va, vb, "slot {idx} differs between merge orders");
        match va {
            ChannelSample::Alpha(v) => assert!(v == 5 || v == 10),
            _ => panic!("alpha buffer holds a non-alpha value"),
        }
    }
    assert_eq!(film_ab.tiles_finished(), 2);
}

#[test]
fn merge_averages_tile_sums_into_full_resolution_slots() {
    let res = Extent2u { w: 2, h: 2 };
    let mut film = Film::new(&[ChannelKind::Color], res).unwrap();
    let kinds = film.channel_kinds();
    let bounds = Film::tile_bounds_grid(res, Extent2u { w: 2, h: 2 })[0];
    let mut tile = Tile::new(0, 0, &kinds, res, bounds);
    for _ in 0..6 {
        tile.add_sample(Vec2u { x: 1, y: 0 }, ChannelSample::Color(Rgb { r: 4, g: 2, b: 0 }));
    }
    film.tile_finished(tile, 3).unwrap();
    // Row-major slot of (1, 0) is 1: sum (24, 12, 0) averaged over 3.
    match film.value_at(0, 1) {
        ChannelSample::Color(c) => {
            assert_eq!(c.r, 8);
            assert_eq!(c.g, 4);
            assert_eq!(c.b, 0);
        }
        _ => panic!("color buffer holds a non-color value"),
    }
    assert!(matches!(film.value_at(0, 0), ChannelSample::Color(Rgb { r: 0, g: 0, b: 0 })));
}

#[test]
fn merging_a_tile_with_a_foreign_channel_set_is_rejected() {
    let res = Extent2u { w: 2, h: 2 };
    let mut film = Film::new(&[ChannelKind::Color], res).unwrap();
    let tile = Tile::new(0, 0, &vec![ChannelKind::Alpha], res, Film::tile_bounds_grid(
        res,
        Extent2u { w: 2, h: 2 },
    )[0]);
    assert!(matches!(film.tile_finished(tile, 1), Err(FilmError::ChannelMismatch)));
    // Nothing was merged and nothing counted.
    assert_eq!(film.tiles_finished(), 0);
}

#[test]
fn export_plan_picks_the_compositing_source_per_channel_set() {
    let res = Extent2u { w: 2, h: 2 };

    let film = Film::new(&[ChannelKind::Color, ChannelKind::Alpha], res).unwrap();
    let plan = film.export_plan(&[ChannelKind::Color], true).unwrap();
    assert_eq!(plan, vec![ExportTask::ColorWithAlpha { color: 0, alpha: 1 }]);

    let film = Film::new(&[ChannelKind::Color, ChannelKind::Background], res).unwrap();
    let plan = film.export_plan(&[ChannelKind::Color, ChannelKind::Background], false).unwrap();
    assert_eq!(
        plan,
        vec![
            ExportTask::ColorWithBackground { color: 0, background: 1 },
            ExportTask::BackgroundOnly { background: 1 },
        ]
    );

    let film = Film::new(&[ChannelKind::Color], res).unwrap();
    let plan = film.export_plan(&[ChannelKind::Color], false).unwrap();
    assert_eq!(plan, vec![ExportTask::ColorPlain { color: 0 }]);
}

#[test]
fn export_plan_reports_missing_channels_before_writing_anything() {
    let res = Extent2u { w: 2, h: 2 };

    // Transparent background needs alpha.
    let film = Film::new(&[ChannelKind::Color, ChannelKind::Background], res).unwrap();
    assert!(matches!(
        film.export_plan(&[ChannelKind::Color], true),
        Err(FilmError::InsufficientColorChannels)
    ));

    let film = Film::new(&[ChannelKind::Color], res).unwrap();
    assert!(matches!(
        film.export_plan(&[ChannelKind::WorldNormal], false),
        Err(FilmError::MissingChannel(ChannelKind::WorldNormal))
    ));
    assert!(matches!(
        film.export_plan(&[ChannelKind::Alpha], false),
        Err(FilmError::MissingChannel(ChannelKind::Alpha))
    ));
    assert!(matches!(
        film.export_plan(&[ChannelKind::Background], false),
        Err(FilmError::MissingChannel(ChannelKind::Background))
    ));
}

#[test]
fn channel_index_finds_declared_kinds_only() {
    let film = Film::new(&[ChannelKind::Color, ChannelKind::WorldNormal], Extent2u {
        w: 2,
        h: 2,
    })
    .unwrap();
    assert_eq!(film.channel_index(ChannelKind::Color), Some(0));
    assert_eq!(film.channel_index(ChannelKind::WorldNormal), Some(1));
    assert_eq!(film.channel_index(ChannelKind::Alpha), None);
}
