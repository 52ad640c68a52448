//! The animated camera: scene parameters, their time-based interpolation,
//! and the view and projection matrices derived from them each frame.
//!
//! The caller passes the current wall-clock time (fixed-point seconds) into
//! every time-dependent operation, so the whole transition state machine is
//! a pure function of its inputs.

use vstd::prelude::*;
use crate::ease::{SCALE, ease, ease_spec, lemma_ease_in_range, lemma_ease_endpoints};
use crate::vecmat::{
    Vec3, Mat4, COORD_MAX, coord_ok, div_floor, perspective, look_at,
    is_perspective, is_look_at, lemma_mul_bound, lemma_div_mul_exact,
};

verus! {

/// Latest wall-clock timestamp (fixed-point seconds) the scene accepts.
pub const TIME_MAX: i64 = 1099511627776;

/// How long one parameter transition takes: 8 seconds, fixed-point.
pub const TRANSITION_DURATION: i64 = 8192;

/// One coherent camera configuration: where the camera stands, what it
/// looks at, the clip planes and the focus distance.
#[derive(Clone, Copy, PartialEq, Eq, Structural)]
pub struct SceneParams {
    pub look_at: Vec3,
    pub camera: Vec3,
    pub near: i64,
    pub far: i64,
    pub focus: i64,
}

impl SceneParams {
    /// Every scalar is within the coordinate range and the near plane lies
    /// strictly before the far plane.
    pub open spec fn wf(self) -> bool {
        &&& self.look_at.bounded()
        &&& self.camera.bounded()
        &&& coord_ok(self.near as int)
        &&& coord_ok(self.far as int)
        &&& coord_ok(self.focus as int)
        &&& self.near < self.far
    }
}

/// Linear interpolation from `a` to `b` at weight `w` (fixed-point):
/// `a * (1 - w) + b * w`.
pub open spec fn lerp_spec(a: int, b: int, w: int) -> int {
    (a * ((SCALE as int) - w) + b * w) / (SCALE as int)
}

/// Interpolation stays between its endpoints.
pub proof fn lemma_lerp_between(a: int, b: int, w: int)
    requires
        0 <= w <= SCALE,
    ensures
        a <= b ==> a <= lerp_spec(a, b, w) <= b,
        b <= a ==> b <= lerp_spec(a, b, w) <= a,
{
    let s = SCALE as int;
    let n = a * (s - w) + b * w;
    lemma_div_mul_exact(a, s);
    lemma_div_mul_exact(b, s);
    if a <= b {
        assert(a * s <= n && n <= b * s) by (nonlinear_arith)
            requires n == a * (s - w) + b * w && a <= b && 0 <= w <= s;
        vstd::arithmetic::div_mod::lemma_div_is_ordered(a * s, n, s);
        vstd::arithmetic::div_mod::lemma_div_is_ordered(n, b * s, s);
    } else {
        assert(b * s <= n && n <= a * s) by (nonlinear_arith)
            requires n == a * (s - w) + b * w && b <= a && 0 <= w <= s;
        vstd::arithmetic::div_mod::lemma_div_is_ordered(b * s, n, s);
        vstd::arithmetic::div_mod::lemma_div_is_ordered(n, a * s, s);
    }
}

/// Interpolating between two strictly ordered pairs keeps the strict order.
pub proof fn lemma_lerp_strict(a1: int, b1: int, a2: int, b2: int, w: int)
    requires
        a1 < a2,
        b1 < b2,
        0 <= w <= SCALE,
    ensures
        lerp_spec(a1, b1, w) < lerp_spec(a2, b2, w),
{
    let s = SCALE as int;
    let n1 = a1 * (s - w) + b1 * w;
    let n2 = a2 * (s - w) + b2 * w;
    assert(n1 + s <= n2) by (nonlinear_arith)
        requires
            n1 == a1 * (s - w) + b1 * w && n2 == a2 * (s - w) + b2 * w
                && a1 + 1 <= a2 && b1 + 1 <= b2 && 0 <= w <= s;
    vstd::arithmetic::div_mod::lemma_hoist_over_denominator(n1, 1, SCALE as nat);
    vstd::arithmetic::div_mod::lemma_div_is_ordered(n1 + s, n2, s);
}

/// Weight 0 returns the start exactly.
pub proof fn lemma_lerp_zero(a: int, b: int)
    ensures
        lerp_spec(a, b, 0) == a,
{
    lemma_div_mul_exact(a, SCALE as int);
}

/// Weight 1 returns the target exactly.
pub proof fn lemma_lerp_one(a: int, b: int)
    ensures
        lerp_spec(a, b, SCALE as int) == b,
{
    lemma_div_mul_exact(b, SCALE as int);
}

/// Interpolating a value with itself changes nothing.
pub proof fn lemma_lerp_self(a: int, w: int)
    ensures
        lerp_spec(a, a, w) == a,
{
    let s = SCALE as int;
    assert(a * (s - w) + a * w == a * s) by (nonlinear_arith);
    lemma_div_mul_exact(a, s);
}

/// Componentwise interpolation of two parameter sets: every scalar of the
/// result is `a * (1 - w) + b * w`.
pub open spec fn lerp_params_spec(a: SceneParams, b: SceneParams, w: int) -> SceneParams {
    SceneParams {
        look_at: Vec3 {
            x: lerp_spec(a.look_at.x as int, b.look_at.x as int, w) as i64,
            y: lerp_spec(a.look_at.y as int, b.look_at.y as int, w) as i64,
            z: lerp_spec(a.look_at.z as int, b.look_at.z as int, w) as i64,
        },
        camera: Vec3 {
            x: lerp_spec(a.camera.x as int, b.camera.x as int, w) as i64,
            y: lerp_spec(a.camera.y as int, b.camera.y as int, w) as i64,
            z: lerp_spec(a.camera.z as int, b.camera.z as int, w) as i64,
        },
        near: lerp_spec(a.near as int, b.near as int, w) as i64,
        far: lerp_spec(a.far as int, b.far as int, w) as i64,
        focus: lerp_spec(a.focus as int, b.focus as int, w) as i64,
    }
}

/// One scalar interpolation step.
fn lerp(a: i64, b: i64, w: i64) -> (r: i64)
    requires
        coord_ok(a as int),
        coord_ok(b as int),
        0 <= w <= SCALE,
    ensures
        r == lerp_spec(a as int, b as int, w as int),
        coord_ok(r as int),
{
    proof {
        lemma_mul_bound(a as int, (SCALE - w) as int, COORD_MAX as int, SCALE as int);
        lemma_mul_bound(b as int, w as int, COORD_MAX as int, SCALE as int);
        lemma_lerp_between(a as int, b as int, w as int);
    }
    div_floor(a * (SCALE - w) + b * w, SCALE)
}

/// Interpolates every component of two well-formed parameter sets.
fn lerp_params(a: &SceneParams, b: &SceneParams, w: i64) -> (r: SceneParams)
    requires
        a.wf(),
        b.wf(),
        0 <= w <= SCALE,
    ensures
        r == lerp_params_spec(*a, *b, w as int),
        r.wf(),
{
    proof {
        lemma_lerp_strict(a.near as int, b.near as int, a.far as int, b.far as int, w as int);
    }
    SceneParams {
        look_at: Vec3 {
            x: lerp(a.look_at.x, b.look_at.x, w),
            y: lerp(a.look_at.y, b.look_at.y, w),
            z: lerp(a.look_at.z, b.look_at.z, w),
        },
        camera: Vec3 {
            x: lerp(a.camera.x, b.camera.x, w),
            y: lerp(a.camera.y, b.camera.y, w),
            z: lerp(a.camera.z, b.camera.z, w),
        },
        near: lerp(a.near, b.near, w),
        far: lerp(a.far, b.far, w),
        focus: lerp(a.focus, b.focus, w),
    }
}

/// The camera state: current (interpolated) parameters with their derived
/// matrices, the transition endpoints, and when the transition started.
pub struct Scene {
    pub width: i64,
    pub height: i64,
    pub projection: Mat4,
    pub view: Mat4,
    pub params: SceneParams,
    pub old_params: SceneParams,
    pub new_params: SceneParams,
    pub params_change_time: i64,
}

/// The whole transition duration has elapsed since the transition began.
pub open spec fn transition_done(change_time: int, now: int) -> bool {
    now - change_time >= TRANSITION_DURATION
}

/// Transition progress at time `now`, clamped into `[0, 1]` (fixed-point):
/// elapsed seconds divided by the 8-second duration.
pub open spec fn progress_spec(change_time: int, now: int) -> int {
    let e = now - change_time;
    if e >= TRANSITION_DURATION {
        SCALE as int
    } else if e <= 0 {
        0
    } else {
        e / 8
    }
}

/// Transition progress always lies in `[0, 1]`.
pub proof fn lemma_progress_range(change_time: int, now: int)
    ensures
        0 <= progress_spec(change_time, now) <= SCALE,
{
    let e = now - change_time;
    if 0 < e < TRANSITION_DURATION {
        vstd::arithmetic::div_mod::lemma_div_pos_is_pos(e, 8);
        vstd::arithmetic::div_mod::lemma_div_is_ordered(e, TRANSITION_DURATION - 1, 8);
    }
}

impl Scene {
    /// Viewport, all three parameter sets and the transition clock are
    /// within range.
    pub open spec fn wf(self) -> bool {
        &&& 1 <= self.width <= COORD_MAX
        &&& 1 <= self.height <= COORD_MAX
        &&& self.params.wf()
        &&& self.old_params.wf()
        &&& self.new_params.wf()
        &&& self.view.bounded()
        &&& 0 <= self.params_change_time <= TIME_MAX
    }

    /// The interpolation source once `now` is taken into account: when the
    /// transition has run its full duration the source collapses onto the
    /// target, consuming the transition.
    pub open spec fn collapse_base(self, now: int) -> SceneParams {
        if transition_done(self.params_change_time as int, now) {
            self.new_params
        } else {
            self.old_params
        }
    }

    /// The parameters displayed at time `now`: the convex combination of
    /// source and target at the eased transition progress.
    pub open spec fn displayed_params(self, now: int) -> SceneParams {
        lerp_params_spec(
            self.collapse_base(now),
            self.new_params,
            ease_spec(progress_spec(self.params_change_time as int, now)),
        )
    }

    /// How one `update` call at time `now` transforms the state: the
    /// interpolated parameters are recomputed, a finished transition is
    /// consumed, and both matrices are rederived; nothing else changes.
    pub open spec fn update_rel(pre: Scene, post: Scene, now: int) -> bool {
        &&& post.params == pre.displayed_params(now)
        &&& post.old_params == pre.collapse_base(now)
        &&& post.new_params == pre.new_params
        &&& post.params_change_time == pre.params_change_time
        &&& post.width == pre.width
        &&& post.height == pre.height
        &&& is_perspective(post.projection, post.width as int, post.height as int,
                post.params.near as int, post.params.far as int)
        &&& is_look_at(post.view, post.params.camera, post.params.look_at)
    }

    /// Builds a scene showing `initial_params` with no transition running,
    /// with both matrices already derived for the first frame.
    pub fn new(width: i64, height: i64, initial_params: SceneParams, now: i64) -> (r: Scene)
        requires
            1 <= width <= COORD_MAX,
            1 <= height <= COORD_MAX,
            initial_params.wf(),
            0 <= now <= TIME_MAX,
        ensures
            r.wf(),
            r.width == width,
            r.height == height,
            r.params == initial_params,
            r.old_params == initial_params,
            r.new_params == initial_params,
            r.params_change_time == now,
            is_perspective(r.projection, width as int, height as int,
                initial_params.near as int, initial_params.far as int),
            is_look_at(r.view, initial_params.camera, initial_params.look_at),
    {
        let mut scene = Scene {
            width,
            height,
            old_params: initial_params,
            new_params: initial_params,
            projection: Mat4::identity(),
            view: Mat4::identity(),
            params: initial_params,
            params_change_time: now,
        };
        scene.update(now);
        proof {
            lemma_params_self(initial_params,
                ease_spec(progress_spec(now as int, now as int)));
        }
        scene
    }

    /// Computes the currently displayed parameters, consuming the
    /// transition if its full duration has elapsed.
    fn calculate(&mut self, now: i64) -> (r: SceneParams)
        requires
            old(self).wf(),
            0 <= now <= TIME_MAX,
        ensures
            r == old(self).displayed_params(now as int),
            r.wf(),
            final(self).old_params == old(self).collapse_base(now as int),
            *final(self) == (Scene { old_params: final(self).old_params, ..*old(self) }),
            final(self).wf(),
    {
        let elapsed = now - self.params_change_time;
        let t: i64;
        if elapsed >= TRANSITION_DURATION {
            self.old_params = self.new_params;
            t = SCALE;
        } else if elapsed <= 0 {
            t = 0;
        } else {
            t = elapsed / 8;
            proof {
                vstd::arithmetic::div_mod::lemma_div_pos_is_pos(elapsed as int, 8);
                vstd::arithmetic::div_mod::lemma_div_is_ordered(
                    elapsed as int, TRANSITION_DURATION - 1, 8);
            }
        }
        let w = ease(t);
        lerp_params(&self.old_params, &self.new_params, w)
    }

    /// Recomputes the interpolated parameters for time `now` and rederives
    /// the projection (45-degree perspective over the viewport) and the
    /// view (look-at from the interpolated camera toward the interpolated
    /// target). Must be called once per frame before drawing.
    pub fn update(&mut self, now: i64)
        requires
            old(self).wf(),
            0 <= now <= TIME_MAX,
        ensures
            Scene::update_rel(*old(self), *final(self), now as int),
            final(self).wf(),
    {
        let p = self.calculate(now);
        self.params = p;
        self.projection = perspective(self.width, self.height, p.near, p.far);
        self.view = look_at(p.camera, p.look_at);
    }

    pub fn get_width(&self) -> (r: i64)
        ensures
            r == self.width,
    {
        self.width
    }

    pub fn get_height(&self) -> (r: i64)
        ensures
            r == self.height,
    {
        self.height
    }

    /// The parameters computed by the most recent `update`.
    pub fn get_params(&self) -> (r: SceneParams)
        ensures
            r == self.params,
    {
        self.params
    }

    /// The view matrix computed by the most recent `update`.
    pub fn get_view(&self) -> (r: Mat4)
        ensures
            r == self.view,
    {
        self.view
    }

    /// The projection matrix computed by the most recent `update`.
    pub fn get_projection(&self) -> (r: Mat4)
        ensures
            r == self.projection,
    {
        self.projection
    }

    /// Changes the viewport; the matrices pick it up on the next `update`.
    pub fn set_width_and_height(&mut self, width: i64, height: i64)
        requires
            old(self).wf(),
            1 <= width <= COORD_MAX,
            1 <= height <= COORD_MAX,
        ensures
            *final(self) == (Scene { width, height, ..*old(self) }),
            final(self).wf(),
    {
        self.width = width;
        self.height = height;
    }

    /// Retargets the look-at point. The displayed parameters are first
    /// flushed into the interpolation source so the transition starts from
    /// what is visible now, and every setter call restarts the shared
    /// transition clock at `now`; without `animate` the field is also
    /// written into the source, so it shows with no transition.
    pub fn set_look_at(&mut self, v: Vec3, animate: bool, now: i64)
        requires
            old(self).wf(),
            v.bounded(),
            0 <= now <= TIME_MAX,
        ensures
            final(self).new_params == (SceneParams { look_at: v, ..old(self).new_params }),
            final(self).old_params == (if animate {
                old(self).displayed_params(now as int)
            } else {
                SceneParams { look_at: v, ..old(self).displayed_params(now as int) }
            }),
            final(self).params_change_time == now,
            final(self).params == old(self).params,
            final(self).view == old(self).view,
            final(self).projection == old(self).projection,
            final(self).width == old(self).width,
            final(self).height == old(self).height,
            final(self).wf(),
    {
        self.flush(now);
        self.new_params.look_at = v;
        if !animate {
            self.old_params.look_at = v;
        }
        self.params_change_time = now;
    }

    /// Retargets the camera position; flushing and the shared transition
    /// clock restart as in `set_look_at`.
    pub fn set_camera(&mut self, v: Vec3, animate: bool, now: i64)
        requires
            old(self).wf(),
            v.bounded(),
            0 <= now <= TIME_MAX,
        ensures
            final(self).new_params == (SceneParams { camera: v, ..old(self).new_params }),
            final(self).old_params == (if animate {
                old(self).displayed_params(now as int)
            } else {
                SceneParams { camera: v, ..old(self).displayed_params(now as int) }
            }),
            final(self).params_change_time == now,
            final(self).params == old(self).params,
            final(self).view == old(self).view,
            final(self).projection == old(self).projection,
            final(self).width == old(self).width,
            final(self).height == old(self).height,
            final(self).wf(),
    {
        self.flush(now);
        self.new_params.camera = v;
        if !animate {
            self.old_params.camera = v;
        }
        self.params_change_time = now;
    }

    /// Retargets the near plane; it must stay strictly before both the
    /// current and the target far plane.
    pub fn set_near(&mut self, v: i64, animate: bool, now: i64)
        requires
            old(self).wf(),
            coord_ok(v as int),
            v < old(self).old_params.far,
            v < old(self).new_params.far,
            0 <= now <= TIME_MAX,
        ensures
            final(self).new_params == (SceneParams { near: v, ..old(self).new_params }),
            final(self).old_params == (if animate {
                old(self).displayed_params(now as int)
            } else {
                SceneParams { near: v, ..old(self).displayed_params(now as int) }
            }),
            final(self).params_change_time == now,
            final(self).params == old(self).params,
            final(self).view == old(self).view,
            final(self).projection == old(self).projection,
            final(self).width == old(self).width,
            final(self).height == old(self).height,
            final(self).wf(),
    {
        proof {
            lemma_progress_range(old(self).params_change_time as int, now as int);
            lemma_ease_in_range(progress_spec(old(self).params_change_time as int, now as int));
            lemma_lerp_between(
                old(self).collapse_base(now as int).far as int,
                old(self).new_params.far as int,
                ease_spec(progress_spec(old(self).params_change_time as int, now as int)));
        }
        self.flush(now);
        self.new_params.near = v;
        if !animate {
            self.old_params.near = v;
        }
        self.params_change_time = now;
    }

    /// Retargets the far plane; it must stay strictly behind both the
    /// current and the target near plane.
    pub fn set_far(&mut self, v: i64, animate: bool, now: i64)
        requires
            old(self).wf(),
            coord_ok(v as int),
            v > old(self).old_params.near,
            v > old(self).new_params.near,
            0 <= now <= TIME_MAX,
        ensures
            final(self).new_params == (SceneParams { far: v, ..old(self).new_params }),
            final(self).old_params == (if animate {
                old(self).displayed_params(now as int)
            } else {
                SceneParams { far: v, ..old(self).displayed_params(now as int) }
            }),
            final(self).params_change_time == now,
            final(self).params == old(self).params,
            final(self).view == old(self).view,
            final(self).projection == old(self).projection,
            final(self).width == old(self).width,
            final(self).height == old(self).height,
            final(self).wf(),
    {
        proof {
            lemma_progress_range(old(self).params_change_time as int, now as int);
            lemma_ease_in_range(progress_spec(old(self).params_change_time as int, now as int));
            lemma_lerp_between(
                old(self).collapse_base(now as int).near as int,
                old(self).new_params.near as int,
                ease_spec(progress_spec(old(self).params_change_time as int, now as int)));
        }
        self.flush(now);
        self.new_params.far = v;
        if !animate {
            self.old_params.far = v;
        }
        self.params_change_time = now;
    }

    /// Retargets the focus distance; flushing and the shared transition
    /// clock restart as in `set_look_at`.
    pub fn set_focus(&mut self, v: i64, animate: bool, now: i64)
        requires
            old(self).wf(),
            coord_ok(v as int),
            0 <= now <= TIME_MAX,
        ensures
            final(self).new_params == (SceneParams { focus: v, ..old(self).new_params }),
            final(self).old_params == (if animate {
                old(self).displayed_params(now as int)
            } else {
                SceneParams { focus: v, ..old(self).displayed_params(now as int) }
            }),
            final(self).params_change_time == now,
            final(self).params == old(self).params,
            final(self).view == old(self).view,
            final(self).projection == old(self).projection,
            final(self).width == old(self).width,
            final(self).height == old(self).height,
            final(self).wf(),
    {
        self.flush(now);
        self.new_params.focus = v;
        if !animate {
            self.old_params.focus = v;
        }
        self.params_change_time = now;
    }

    /// Writes the currently displayed parameters into the interpolation
    /// source, so the next transition starts from what is visible now.
    fn flush(&mut self, now: i64)
        requires
            old(self).wf(),
            0 <= now <= TIME_MAX,
        ensures
            final(self).old_params == old(self).displayed_params(now as int),
            *final(self) == (Scene { old_params: final(self).old_params, ..*old(self) }),
            final(self).wf(),
    {
        let p = self.calculate(now);
        self.old_params = p;
    }
}

/// Interpolating a parameter set with itself changes nothing.
pub proof fn lemma_params_self(p: SceneParams, w: int)
    ensures
        lerp_params_spec(p, p, w) == p,
{
    lemma_lerp_self(p.look_at.x as int, w);
    lemma_lerp_self(p.look_at.y as int, w);
    lemma_lerp_self(p.look_at.z as int, w);
    lemma_lerp_self(p.camera.x as int, w);
    lemma_lerp_self(p.camera.y as int, w);
    lemma_lerp_self(p.camera.z as int, w);
    lemma_lerp_self(p.near as int, w);
    lemma_lerp_self(p.far as int, w);
    lemma_lerp_self(p.focus as int, w);
}

/// Interpolating at weight 1 lands on the target parameter set exactly.
pub proof fn lemma_params_one(a: SceneParams, b: SceneParams)
    ensures
        lerp_params_spec(a, b, SCALE as int) == b,
{
    lemma_lerp_one(a.look_at.x as int, b.look_at.x as int);
    lemma_lerp_one(a.look_at.y as int, b.look_at.y as int);
    lemma_lerp_one(a.look_at.z as int, b.look_at.z as int);
    lemma_lerp_one(a.camera.x as int, b.camera.x as int);
    lemma_lerp_one(a.camera.y as int, b.camera.y as int);
    lemma_lerp_one(a.camera.z as int, b.camera.z as int);
    lemma_lerp_one(a.near as int, b.near as int);
    lemma_lerp_one(a.far as int, b.far as int);
    lemma_lerp_one(a.focus as int, b.focus as int);
}

/// Interpolating at weight 0 returns the source parameter set exactly.
pub proof fn lemma_params_zero(a: SceneParams, b: SceneParams)
    ensures
        lerp_params_spec(a, b, 0) == a,
{
    lemma_lerp_zero(a.look_at.x as int, b.look_at.x as int);
    lemma_lerp_zero(a.look_at.y as int, b.look_at.y as int);
    lemma_lerp_zero(a.look_at.z as int, b.look_at.z as int);
    lemma_lerp_zero(a.camera.x as int, b.camera.x as int);
    lemma_lerp_zero(a.camera.y as int, b.camera.y as int);
    lemma_lerp_zero(a.camera.z as int, b.camera.z as int);
    lemma_lerp_zero(a.near as int, b.near as int);
    lemma_lerp_zero(a.far as int, b.far as int);
    lemma_lerp_zero(a.focus as int, b.focus as int);
}

/// At the instant a transition starts, the displayed parameters equal the
/// interpolation source exactly: an animated setter never makes the scene
/// jump.
pub proof fn lemma_update_at_start(s0: Scene, s1: Scene)
    requires
        Scene::update_rel(s0, s1, s0.params_change_time as int),
    ensures
        s1.params == s0.old_params,
{
    lemma_ease_endpoints();
    lemma_params_zero(s0.old_params, s0.new_params);
}

/// The parameters displayed after an update are the componentwise convex
/// combination of interpolation source and target at the eased transition
/// progress: every scalar equals `a * (1 - e) + b * e` with
/// `e = ease(progress)`.
pub proof fn lemma_update_interpolates(s0: Scene, s1: Scene, now: int)
    requires
        s0.wf(),
        Scene::update_rel(s0, s1, now),
    ensures
        ({
            let a = s0.collapse_base(now);
            let b = s0.new_params;
            let e = ease_spec(progress_spec(s0.params_change_time as int, now));
            &&& s1.params.look_at.x == lerp_spec(a.look_at.x as int, b.look_at.x as int, e)
            &&& s1.params.look_at.y == lerp_spec(a.look_at.y as int, b.look_at.y as int, e)
            &&& s1.params.look_at.z == lerp_spec(a.look_at.z as int, b.look_at.z as int, e)
            &&& s1.params.camera.x == lerp_spec(a.camera.x as int, b.camera.x as int, e)
            &&& s1.params.camera.y == lerp_spec(a.camera.y as int, b.camera.y as int, e)
            &&& s1.params.camera.z == lerp_spec(a.camera.z as int, b.camera.z as int, e)
            &&& s1.params.near == lerp_spec(a.near as int, b.near as int, e)
            &&& s1.params.far == lerp_spec(a.far as int, b.far as int, e)
            &&& s1.params.focus == lerp_spec(a.focus as int, b.focus as int, e)
        }),
{
    let a = s0.collapse_base(now);
    let b = s0.new_params;
    lemma_progress_range(s0.params_change_time as int, now);
    let pr = progress_spec(s0.params_change_time as int, now);
    lemma_ease_in_range(pr);
    let e = ease_spec(pr);
    lemma_lerp_between(a.look_at.x as int, b.look_at.x as int, e);
    lemma_lerp_between(a.look_at.y as int, b.look_at.y as int, e);
    lemma_lerp_between(a.look_at.z as int, b.look_at.z as int, e);
    lemma_lerp_between(a.camera.x as int, b.camera.x as int, e);
    lemma_lerp_between(a.camera.y as int, b.camera.y as int, e);
    lemma_lerp_between(a.camera.z as int, b.camera.z as int, e);
    lemma_lerp_between(a.near as int, b.near as int, e);
    lemma_lerp_between(a.far as int, b.far as int, e);
    lemma_lerp_between(a.focus as int, b.focus as int, e);
}

/// Updating twice at the same instant, with no setter calls in between,
/// leaves the scene — view and projection matrices included — exactly as
/// it stood after the first update.
pub proof fn lemma_update_idempotent(s0: Scene, s1: Scene, s2: Scene, now: int)
    requires
        Scene::update_rel(s0, s1, now),
        Scene::update_rel(s1, s2, now),
    ensures
        s2 == s1,
{
    assert(s1.collapse_base(now) == s0.collapse_base(now));
    assert(s2.params == s1.params);
    assert(s2.old_params == s1.old_params);
    assert(s2.projection == s1.projection);
    assert(s2.view == s1.view);
}

/// Once the full transition duration has elapsed with no setter calls, the
/// displayed parameters equal the transition target exactly, and the
/// transition is consumed (source and target coincide). Together with
/// `lemma_update_idempotent` this shows any further update at the same
/// instant leaves them unchanged.
pub proof fn lemma_update_steady(s0: Scene, s1: Scene, now: int)
    requires
        Scene::update_rel(s0, s1, now),
        transition_done(s0.params_change_time as int, now),
    ensures
        s1.params == s0.new_params,
        s1.old_params == s0.new_params,
{
    lemma_ease_endpoints();
    lemma_params_one(s0.new_params, s0.new_params);
}

} // verus!
