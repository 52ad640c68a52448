//! End-to-end checks of the easing curve, the animated scene, the depth
//! sorter and the frame assembly, on concrete fixed-point values.

use nbody_renderer::ease::{ease, SCALE};
use nbody_renderer::renderer::{
    BlendMode, BodyRenderer, BodyVertex, DepthSorter, DepthTest, PrimitiveTopology,
};
use nbody_renderer::scene::{Scene, SceneParams, TRANSITION_DURATION};
use nbody_renderer::simulation::Body;
use nbody_renderer::vecmat::{div_floor, isqrt, look_at, view_z, Mat4, Vec3};

fn params(camera: Vec3, look_at: Vec3) -> SceneParams {
    SceneParams {
        look_at,
        camera,
        near: SCALE,
        far: 100 * SCALE,
        focus: 100 * SCALE,
    }
}

fn v3(x: i64, y: i64, z: i64) -> Vec3 {
    Vec3 { x, y, z }
}

fn body(position: Vec3, radius: i64) -> Body {
    Body {
        position,
        color: v3(SCALE, SCALE / 2, 0),
        radius,
    }
}

#[test]
fn ease_fixes_endpoints_and_midpoint() {
    assert_eq!(ease(0), 0);
    assert_eq!(ease(SCALE), SCALE);
    assert_eq!(ease(SCALE / 2), SCALE / 2);
}

#[test]
fn ease_quadratic_values() {
    // First half: 2 * t^2; at t = 0.25 that is 0.125.
    assert_eq!(ease(256), 128);
    // Second half mirrors it: at t = 0.75 the value is 0.875.
    assert_eq!(ease(768), 896);
}

#[test]
fn ease_stays_in_range_and_monotone() {
    let mut prev = 0;
    for t in 0..=SCALE {
        let e = ease(t);
        assert!(0 <= e && e <= SCALE);
        assert!(prev <= e);
        prev = e;
    }
}

#[test]
fn floor_division_is_exact_on_negatives() {
    assert_eq!(div_floor(2047, 1024), 1);
    assert_eq!(div_floor(-1, 1024), -1);
    assert_eq!(div_floor(-1024, 1024), -1);
    assert_eq!(div_floor(-1025, 1024), -2);
}

#[test]
fn integer_square_root() {
    assert_eq!(isqrt(0), 0);
    assert_eq!(isqrt(1), 1);
    assert_eq!(isqrt(10), 3);
    assert_eq!(isqrt(1024 * 1024), 1024);
    assert_eq!(isqrt(1024 * 1024 - 1), 1023);
}

#[test]
fn view_matrix_for_axis_aligned_camera() {
    // Camera three units along +z looking at the origin.
    let m = look_at(v3(0, 0, 3 * SCALE), v3(0, 0, 0));
    assert_eq!((m.x.x, m.x.y, m.x.z, m.x.w), (SCALE, 0, 0, 0));
    assert_eq!((m.y.x, m.y.y, m.y.z, m.y.w), (0, SCALE, 0, 0));
    assert_eq!((m.z.x, m.z.y, m.z.z, m.z.w), (0, 0, SCALE, 0));
    assert_eq!((m.w.x, m.w.y, m.w.z, m.w.w), (0, 0, -3 * SCALE, SCALE));
    // The origin sits three units in front of the camera.
    assert_eq!(view_z(&m, v3(0, 0, 0)), -3 * SCALE);
}

#[test]
fn projection_matrix_entries() {
    // Square viewport, near 1.0, far 3.0: every entry divides exactly.
    let p = SceneParams {
        look_at: v3(0, 0, 0),
        camera: v3(0, 0, 3 * SCALE),
        near: SCALE,
        far: 3 * SCALE,
        focus: 2 * SCALE,
    };
    let scene = Scene::new(100 * SCALE, 100 * SCALE, p, 0);
    let m = scene.get_projection();
    assert_eq!((m.x.x, m.y.y), (2472, 2472));
    assert_eq!(m.z.z, -2 * SCALE);
    assert_eq!(m.z.w, -SCALE);
    assert_eq!(m.w.z, -3 * SCALE);
    assert_eq!(m.w.w, 0);
}

#[test]
fn update_interpolates_with_eased_weight() {
    // Camera x animates from 0 to 1.0; at a quarter of the duration the
    // eased weight is 0.125, so the displayed value is 0.125.
    let mut scene = Scene::new(100 * SCALE, 100 * SCALE, params(v3(0, 0, 3 * SCALE), v3(0, 0, 0)), 0);
    scene.set_camera(v3(SCALE, 0, 3 * SCALE), true, 0);
    scene.update(TRANSITION_DURATION / 4);
    assert_eq!(scene.get_params().camera.x, 128);
}

#[test]
fn update_twice_is_idempotent() {
    let mut scene = Scene::new(800 * SCALE, 600 * SCALE, params(v3(0, 0, 3 * SCALE), v3(0, 0, 0)), 0);
    scene.set_camera(v3(5 * SCALE, SCALE, 3 * SCALE), true, 0);
    scene.update(3000);
    let view1 = scene.get_view();
    let proj1 = scene.get_projection();
    let params1 = scene.get_params();
    scene.update(3000);
    assert!(scene.get_view() == view1);
    assert!(scene.get_projection() == proj1);
    assert!(scene.get_params() == params1);
}

#[test]
fn transition_reaches_target_and_stays() {
    let mut scene = Scene::new(800 * SCALE, 600 * SCALE, params(v3(0, 0, 3 * SCALE), v3(0, 0, 0)), 0);
    let target = v3(5 * SCALE, 0, 3 * SCALE);
    scene.set_camera(target, true, 0);
    scene.update(TRANSITION_DURATION);
    assert!(scene.get_params().camera == target);
    scene.update(TRANSITION_DURATION + 5000);
    assert!(scene.get_params().camera == target);
}

#[test]
fn camera_transition_scenario() {
    // Start at (0, 0, 3), retarget to (5, 0, 3) with animation: right after
    // the setter the displayed camera is unchanged; after the full duration
    // it equals the target.
    let t0 = 1000;
    let mut scene = Scene::new(800 * SCALE, 600 * SCALE, params(v3(0, 0, 3 * SCALE), v3(0, 0, 0)), t0);
    scene.set_camera(v3(5 * SCALE, 0, 3 * SCALE), true, t0);
    scene.update(t0);
    assert!(scene.get_params().camera == v3(0, 0, 3 * SCALE));
    scene.update(t0 + TRANSITION_DURATION);
    assert!(scene.get_params().camera == v3(5 * SCALE, 0, 3 * SCALE));
}

#[test]
fn clock_running_backwards_is_clamped() {
    // A timestamp before the transition start leaves progress at zero.
    let mut scene = Scene::new(800 * SCALE, 600 * SCALE, params(v3(0, 0, 3 * SCALE), v3(0, 0, 0)), 1000);
    scene.set_camera(v3(5 * SCALE, 0, 3 * SCALE), true, 1000);
    scene.update(500);
    assert!(scene.get_params().camera == v3(0, 0, 3 * SCALE));
}

#[test]
fn non_animated_setter_takes_effect_immediately() {
    let mut scene = Scene::new(800 * SCALE, 600 * SCALE, params(v3(0, 0, 3 * SCALE), v3(0, 0, 0)), 0);
    scene.set_focus(7 * SCALE, false, 0);
    scene.update(0);
    assert_eq!(scene.get_params().focus, 7 * SCALE);
    scene.set_near(2 * SCALE, false, 0);
    scene.update(0);
    assert_eq!(scene.get_params().near, 2 * SCALE);
}

#[test]
fn any_setter_resets_the_shared_transition_clock() {
    // Camera x animates from 0 toward 1.0. A quarter in, a non-animated
    // focus change resets the shared clock: the displayed camera stays
    // where it was (no jump), the focus shows at once, and the camera
    // transition then runs a fresh full duration to the target.
    let mut scene = Scene::new(800 * SCALE, 600 * SCALE, params(v3(0, 0, 3 * SCALE), v3(0, 0, 0)), 0);
    scene.set_camera(v3(SCALE, 0, 3 * SCALE), true, 0);
    let t1 = TRANSITION_DURATION / 4;
    scene.set_focus(7 * SCALE, false, t1);
    scene.update(t1);
    assert_eq!(scene.get_params().camera.x, 128);
    assert_eq!(scene.get_params().focus, 7 * SCALE);
    scene.update(t1 + TRANSITION_DURATION / 2);
    assert!(scene.get_params().camera.x < SCALE);
    scene.update(t1 + TRANSITION_DURATION);
    assert_eq!(scene.get_params().camera.x, SCALE);
}

#[test]
fn viewport_setter_and_getters() {
    let mut scene = Scene::new(800 * SCALE, 600 * SCALE, params(v3(0, 0, 3 * SCALE), v3(0, 0, 0)), 0);
    assert_eq!(scene.get_width(), 800 * SCALE);
    assert_eq!(scene.get_height(), 600 * SCALE);
    scene.set_width_and_height(1024 * SCALE, 768 * SCALE);
    assert_eq!(scene.get_width(), 1024 * SCALE);
    assert_eq!(scene.get_height(), 768 * SCALE);
}

#[test]
fn body_radius_getter() {
    let b = body(v3(1, 2, 3), 77);
    assert_eq!(b.radius(), 77);
}

#[test]
fn back_to_front_draws_farthest_first() {
    // Two bodies at view-space depths -1.0 and -5.0: the -5.0 one is drawn
    // first under the back-to-front convention.
    let view = Mat4::identity();
    let near_body = BodyVertex { position: v3(0, 0, -SCALE), color: v3(0, 0, 0), radius: 1 };
    let far_body = BodyVertex { position: v3(0, 0, -5 * SCALE), color: v3(0, 0, 0), radius: 2 };
    let ordered = DepthSorter::order(&view, vec![near_body, far_body]);
    assert_eq!(ordered.len(), 2);
    assert_eq!(ordered[0].position.z, -5 * SCALE);
    assert_eq!(ordered[1].position.z, -SCALE);
}

#[test]
fn depth_sort_orders_any_set_and_keeps_every_vertex() {
    let view = look_at(v3(0, 0, 3 * SCALE), v3(0, 0, 0));
    let positions = [
        v3(0, 0, 0),
        v3(0, 0, 2 * SCALE),
        v3(0, 0, -4 * SCALE),
        v3(SCALE, SCALE, SCALE),
        v3(0, 0, 2 * SCALE),
    ];
    let vertices: Vec<BodyVertex> = positions
        .iter()
        .enumerate()
        .map(|(i, p)| BodyVertex { position: *p, color: v3(0, 0, 0), radius: i as i64 })
        .collect();
    let ordered = DepthSorter::order(&view, vertices.clone());
    assert_eq!(ordered.len(), vertices.len());
    for pair in ordered.windows(2) {
        assert!(view_z(&view, pair[0].position) <= view_z(&view, pair[1].position));
    }
    for v in &vertices {
        let wanted = ordered.iter().filter(|o| *o == v).count();
        let had = vertices.iter().filter(|o| *o == v).count();
        assert_eq!(wanted, had);
    }
}

#[test]
fn depth_sort_is_stable_on_equal_depths() {
    let view = Mat4::identity();
    let mk = |r: i64, z: i64| BodyVertex { position: v3(r, 0, z), color: v3(0, 0, 0), radius: r };
    // Three records share depth -2.0; they must keep their input order.
    let ordered = DepthSorter::order(
        &view,
        vec![mk(1, -2 * SCALE), mk(2, -SCALE), mk(3, -2 * SCALE), mk(4, -2 * SCALE)],
    );
    let radii: Vec<i64> = ordered.iter().map(|v| v.radius).collect();
    assert_eq!(radii, vec![1, 3, 4, 2]);
}

#[test]
fn depth_sort_of_empty_set_is_empty() {
    let ordered = DepthSorter::order(&Mat4::identity(), Vec::new());
    assert!(ordered.is_empty());
}

#[test]
fn draw_respects_capacity() {
    let scene = Scene::new(800 * SCALE, 600 * SCALE, params(v3(0, 0, 3 * SCALE), v3(0, 0, 0)), 0);
    let renderer = BodyRenderer::new(2);
    let two = vec![body(v3(0, 0, 0), 1), body(v3(0, 0, -SCALE), 2)];
    let three = vec![body(v3(0, 0, 0), 1), body(v3(0, 0, -SCALE), 2), body(v3(SCALE, 0, 0), 3)];
    assert!(renderer.try_draw(&scene, &two).is_some());
    assert!(renderer.try_draw(&scene, &three).is_none());
}

#[test]
fn draw_packs_sorted_vertices_and_uniforms() {
    let mut scene = Scene::new(800 * SCALE, 600 * SCALE, params(v3(0, 0, 3 * SCALE), v3(0, 0, 0)), 0);
    scene.update(0);
    let renderer = BodyRenderer::new(8);
    let bodies = vec![
        body(v3(0, 0, -2 * SCALE), 1),
        body(v3(0, 0, 2 * SCALE), 2),
        body(v3(0, 0, 0), 3),
    ];
    let frame = renderer.draw(&scene, &bodies);
    assert_eq!(frame.vertices.len(), 3);
    let view = scene.get_view();
    for pair in frame.vertices.windows(2) {
        assert!(view_z(&view, pair[0].position) <= view_z(&view, pair[1].position));
    }
    assert!(frame.uniforms.projection == scene.get_projection());
    assert!(frame.uniforms.view == view);
    assert_eq!(frame.uniforms.res_width, scene.get_width());
    assert_eq!(frame.uniforms.res_height, scene.get_height());
    assert_eq!(frame.uniforms.focus, scene.get_params().focus);
    assert_eq!(frame.uniforms.near, scene.get_params().near);
    assert_eq!(frame.uniforms.far, scene.get_params().far);
    // The look-at point three units ahead of the camera lands at view-space
    // depth -3.
    assert_eq!(frame.uniforms.look_at.z, -3 * SCALE);
    assert!(frame.settings.topology == PrimitiveTopology::Points);
    assert!(!frame.settings.indexed);
    assert!(frame.settings.depth_test == DepthTest::IfLess);
    assert!(frame.settings.depth_write);
    assert!(frame.settings.color_blend == BlendMode::SourceAlpha);
    assert!(frame.settings.alpha_blend == BlendMode::Max);
}
