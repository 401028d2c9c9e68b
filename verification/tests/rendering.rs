//! End-to-end rendering through the wavefront loop, with test
//! collaborators: progressive epochs, a geometry-free scene, a bounce
//! that spawns secondary rays, and a single-sphere scene converging to
//! its analytic value.

use tilefilm::channel::{ChannelKind, ChannelSample, Rgb, FIXED_ONE};
use tilefilm::film::Film;
use tilefilm::geom::{Extent2u, Vec2u};
use tilefilm::render::{
    Camera, HitLane, Integrator, IntegratorOutput, Ray, SampleSequence, Scene, WHit, WRay,
};

/// A constant sample sequence: every dimension draws the interval's
/// midpoint.
struct MidpointSequence;

impl SampleSequence for MidpointSequence {
    fn sample_1d(&self, _n: usize, _scramble: u64, _offset: usize) -> u32 {
        1 << 31
    }
    fn sample_2d(&self, _set: usize, _n: usize, _scramble: u64, _offset: usize) -> u32 {
        1 << 31
    }
}

fn fixed(v: f32) -> i64 {
    (v * FIXED_ONE as f32).round() as i64
}

/// A pinhole camera at the origin looking down -z; the filter warp is a
/// no-op (rays go through pixel centers).
struct PinholeCamera;

impl Camera for PinholeCamera {
    fn get_rays(
        &self,
        scramble: u64,
        sample_nums: [usize; 4],
        tile_coord: Vec2u,
        pixel: Vec2u,
        res: Extent2u,
        _uv: [[u32; 2]; 4],
        _times: [u32; 4],
        _lens: [[u32; 2]; 4],
    ) -> WRay {
        let dx = (pixel.x as f32 + 0.5) / res.w as f32 - 0.5;
        let dy = (pixel.y as f32 + 0.5) / res.h as f32 - 0.5;
        let lane = |sample: usize| Ray {
            origin: tilefilm::channel::Vec3i { x: 0, y: 0, z: 0 },
            dir: tilefilm::channel::Vec3i { x: fixed(dx), y: fixed(dy), z: fixed(-1.0) },
            time: 0,
            tile_coord,
            sample,
            scramble,
            valid: true,
        };
        WRay {
            lanes: [
                lane(sample_nums[0]),
                lane(sample_nums[1]),
                lane(sample_nums[2]),
                lane(sample_nums[3]),
            ],
        }
    }
}

fn miss_lane() -> HitLane {
    HitLane {
        valid: false,
        t: 0,
        point: tilefilm::channel::Vec3i { x: 0, y: 0, z: 0 },
        normal: tilefilm::channel::Vec3i { x: 0, y: 0, z: 0 },
        material: 0,
    }
}

/// A scene with zero geometry: every lane misses.
struct EmptyScene;

impl Scene for EmptyScene {
    fn intersect(&self, rays: &WRay, _depth: usize) -> WHit {
        WHit { ray: *rays, lanes: [miss_lane(), miss_lane(), miss_lane(), miss_lane()] }
    }
}

/// On a miss, emit the constant sky radiance into the Color channel and
/// nothing into Alpha; spawn nothing.
struct BackgroundIntegrator {
    bg: Rgb,
}

impl Integrator for BackgroundIntegrator {
    fn integrate(
        &self,
        _depth: usize,
        hit: &WHit,
        _s1d: &[[u32; 4]; 3],
        _s2d: &[[u32; 4]; 12],
    ) -> IntegratorOutput {
        let mut emitted = Vec::new();
        for l in 0..4 {
            let ray = hit.ray.lanes[l];
            if ray.valid && !hit.lanes[l].valid {
                emitted.push((ray.tile_coord, ChannelSample::Color(self.bg)));
            }
        }
        IntegratorOutput { emitted, spawned: Vec::new() }
    }
}

#[test]
fn progressive_epoch_counts_full_passes_and_counter_resets_between_them() {
    let mut film = Film::new(&[ChannelKind::Color, ChannelKind::Alpha], Extent2u {
        w: 6,
        h: 4,
    })
    .unwrap();
    assert_eq!(film.progressive_epoch(), 0);
    assert_eq!(film.tiles_finished(), 0);
    for pass in 0..3usize {
        film.render_frame_into(
            &PinholeCamera,
            &EmptyScene,
            &BackgroundIntegrator { bg: Rgb { r: FIXED_ONE, g: 0, b: 0 } },
            &MidpointSequence,
            Extent2u { w: 4, h: 4 },
            2,
            8,
        )
        .unwrap();
        assert_eq!(film.progressive_epoch(), pass + 1);
        assert_eq!(film.tiles_finished(), 0);
    }
}

#[test]
fn zero_geometry_scene_accumulates_only_background_and_no_alpha() {
    let bg = Rgb { r: FIXED_ONE / 2, g: FIXED_ONE / 4, b: FIXED_ONE };
    let res = Extent2u { w: 5, h: 3 };
    let mut film = Film::new(&[ChannelKind::Color, ChannelKind::Alpha], res).unwrap();
    film.render_frame_into(
        &PinholeCamera,
        &EmptyScene,
        &BackgroundIntegrator { bg },
        &MidpointSequence,
        Extent2u { w: 2, h: 2 },
        3,
        8,
    )
    .unwrap();
    for idx in 0..15 {
        // Every sample contributed exactly the sky color, so the average
        // is the sky color; alpha never received a contribution.
        assert_eq!(film.value_at(0, idx), ChannelSample::Color(bg));
        assert_eq!(film.value_at(1, idx), ChannelSample::Alpha(0));
    }
}

/// Spawns one secondary ray per miss at the first depth and emits the
/// sky at the second: exercises repacking and the depth iteration.
struct OneBounceSky {
    sky: Rgb,
}

impl Integrator for OneBounceSky {
    fn integrate(
        &self,
        depth: usize,
        hit: &WHit,
        _s1d: &[[u32; 4]; 3],
        _s2d: &[[u32; 4]; 12],
    ) -> IntegratorOutput {
        let mut emitted = Vec::new();
        let mut spawned = Vec::new();
        for l in 0..4 {
            let ray = hit.ray.lanes[l];
            if !ray.valid {
                continue;
            }
            if depth == 0 {
                spawned.push(ray);
            } else {
                emitted.push((ray.tile_coord, ChannelSample::Color(self.sky)));
            }
        }
        IntegratorOutput { emitted, spawned }
    }
}

#[test]
fn secondary_rays_carry_contributions_through_a_second_depth() {
    let sky = Rgb { r: 3 * FIXED_ONE, g: 0, b: FIXED_ONE };
    let res = Extent2u { w: 3, h: 3 };
    let mut film = Film::new(&[ChannelKind::Color], res).unwrap();
    film.render_frame_into(
        &PinholeCamera,
        &EmptyScene,
        &OneBounceSky { sky },
        &MidpointSequence,
        Extent2u { w: 16, h: 16 },
        2,
        8,
    )
    .unwrap();
    for idx in 0..9 {
        assert_eq!(film.value_at(0, idx), ChannelSample::Color(sky));
    }
}

#[test]
fn depth_cap_stops_an_integrator_that_never_terminates_paths() {
    // An integrator that respawns forever: only the defensive cap ends
    // the pass. Nothing is emitted, so the film stays zero.
    struct ForeverIntegrator;
    impl Integrator for ForeverIntegrator {
        fn integrate(
            &self,
            _depth: usize,
            hit: &WHit,
            _s1d: &[[u32; 4]; 3],
            _s2d: &[[u32; 4]; 12],
        ) -> IntegratorOutput {
            let spawned = hit.ray.lanes.iter().copied().filter(|r| r.valid).collect();
            IntegratorOutput { emitted: Vec::new(), spawned }
        }
    }
    let res = Extent2u { w: 2, h: 2 };
    let mut film = Film::new(&[ChannelKind::Color], res).unwrap();
    film.render_frame_into(
        &PinholeCamera,
        &EmptyScene,
        &ForeverIntegrator,
        &MidpointSequence,
        Extent2u { w: 2, h: 2 },
        1,
        5,
    )
    .unwrap();
    assert_eq!(film.progressive_epoch(), 1);
    for idx in 0..4 {
        assert_eq!(film.value_at(0, idx), ChannelSample::Color(Rgb { r: 0, g: 0, b: 0 }));
    }
}

/// One diffuse sphere in front of the camera under a constant-radiance
/// sky, shaded by next-event estimation against the sky: every path
/// through a hit returns exactly albedo * sky, so the estimate is the
/// analytic value.
struct SphereScene {
    center: [f32; 3],
    radius: f32,
}

impl SphereScene {
    fn hit_t(&self, origin: [f32; 3], dir: [f32; 3]) -> Option<f32> {
        let oc = [
            origin[0] - self.center[0],
            origin[1] - self.center[1],
            origin[2] - self.center[2],
        ];
        let a = dir[0] * dir[0] + dir[1] * dir[1] + dir[2] * dir[2];
        let b = oc[0] * dir[0] + oc[1] * dir[1] + oc[2] * dir[2];
        let c = oc[0] * oc[0] + oc[1] * oc[1] + oc[2] * oc[2] - self.radius * self.radius;
        let descrim = b * b - a * c;
        if descrim <= 0.0 {
            return None;
        }
        let t = (-b - descrim.sqrt()) / a;
        if t > 1e-4 {
            Some(t)
        } else {
            None
        }
    }
}

impl Scene for SphereScene {
    fn intersect(&self, rays: &WRay, _depth: usize) -> WHit {
        let mut lanes = [miss_lane(), miss_lane(), miss_lane(), miss_lane()];
        for l in 0..4 {
            let ray = rays.lanes[l];
            if !ray.valid {
                continue;
            }
            let to_f = |v: i64| v as f32 / FIXED_ONE as f32;
            let origin = [to_f(ray.origin.x), to_f(ray.origin.y), to_f(ray.origin.z)];
            let dir = [to_f(ray.dir.x), to_f(ray.dir.y), to_f(ray.dir.z)];
            if let Some(t) = self.hit_t(origin, dir) {
                let point = [
                    origin[0] + t * dir[0],
                    origin[1] + t * dir[1],
                    origin[2] + t * dir[2],
                ];
                let n = [
                    (point[0] - self.center[0]) / self.radius,
                    (point[1] - self.center[1]) / self.radius,
                    (point[2] - self.center[2]) / self.radius,
                ];
                lanes[l] = HitLane {
                    valid: true,
                    t: fixed(t),
                    point: tilefilm::channel::Vec3i {
                        x: fixed(point[0]),
                        y: fixed(point[1]),
                        z: fixed(point[2]),
                    },
                    normal: tilefilm::channel::Vec3i {
                        x: fixed(n[0]),
                        y: fixed(n[1]),
                        z: fixed(n[2]),
                    },
                    material: 0,
                };
            }
        }
        WHit { ray: *rays, lanes }
    }
}

struct SkyLitDiffuse {
    albedo: f32,
    sky: f32,
}

impl Integrator for SkyLitDiffuse {
    fn integrate(
        &self,
        _depth: usize,
        hit: &WHit,
        _s1d: &[[u32; 4]; 3],
        _s2d: &[[u32; 4]; 12],
    ) -> IntegratorOutput {
        let mut emitted = Vec::new();
        for l in 0..4 {
            let ray = hit.ray.lanes[l];
            if !ray.valid {
                continue;
            }
            let radiance = if hit.lanes[l].valid {
                // Lambertian under a uniform sky: outgoing radiance is
                // albedo * sky, estimated here without variance.
                self.albedo * self.sky
            } else {
                self.sky
            };
            let v = fixed(radiance);
            emitted.push((ray.tile_coord, ChannelSample::Color(Rgb { r: v, g: v, b: v })));
            emitted.push((ray.tile_coord, ChannelSample::Alpha(
                if hit.lanes[l].valid { FIXED_ONE } else { 0 },
            )));
        }
        IntegratorOutput { emitted, spawned: Vec::new() }
    }
}

#[test]
fn central_pixel_converges_to_the_analytic_shaded_value() {
    let scene = SphereScene { center: [0.0, 0.0, -1.0], radius: 0.5 };
    let integrator = SkyLitDiffuse { albedo: 0.5, sky: 1.5 };
    let expected = fixed(0.5 * 1.5);
    let res = Extent2u { w: 3, h: 3 };
    let mut last_err = i64::MAX;
    for samples in [1usize, 4, 16] {
        let mut film = Film::new(&[ChannelKind::Color, ChannelKind::Alpha], res).unwrap();
        film.render_frame_into(
            &PinholeCamera,
            &scene,
            &integrator,
            &MidpointSequence,
            Extent2u { w: 4, h: 4 },
            samples,
            8,
        )
        .unwrap();
        // Central pixel: row-major slot of (1, 1).
        let idx = 1 + 1 * 3;
        let err = match film.value_at(0, idx) {
            ChannelSample::Color(c) => (c.r - expected).abs(),
            _ => panic!("color buffer holds a non-color value"),
        };
        // Within 0.1% of the analytic value, and not diverging.
        assert!(err <= FIXED_ONE / 1000, "error {err} at {samples} samples");
        assert!(err <= last_err || err <= 1);
        last_err = err;
        // The central pixel is fully covered.
        assert_eq!(film.value_at(1, idx), ChannelSample::Alpha(FIXED_ONE));
    }
}
