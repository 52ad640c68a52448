//! The depth-sorted rendering pipeline: per-frame vertex assembly,
//! back-to-front ordering in view space, and the fixed draw configuration
//! and uniform set handed to the graphics API.

use vstd::prelude::*;
use crate::vecmat::{Vec3, Vec4, Mat4, view_z_spec, view_z, transform_point, affine_comp};
use crate::scene::Scene;
use crate::simulation::Body;

verus! {

broadcast use vstd::seq_lib::group_to_multiset_ensures, vstd::seq_lib::group_filter_ensures;

/// One vertex record as uploaded to the GPU buffer, per body:
/// position, color and sprite radius.
#[derive(Clone, Copy, PartialEq, Eq, Structural)]
pub struct BodyVertex {
    pub position: Vec3,
    pub color: Vec3,
    pub radius: i64,
}

/// The vertex record a body maps to.
pub open spec fn vertex_of(b: Body) -> BodyVertex {
    BodyVertex { position: b.position, color: b.color, radius: b.radius }
}

/// The sequence is ordered back-to-front: view-space depths are
/// non-decreasing, so the farthest body (most negative depth) comes first.
pub open spec fn sorted_back_to_front(view: Mat4, s: Seq<BodyVertex>) -> bool {
    forall|i: int, j: int|
        0 <= i <= j < s.len() ==> view_z_spec(view, s[i].position) <= view_z_spec(
            view,
            s[j].position,
        )
}

/// Picks out the vertex records that sit at one view-space depth, in their
/// current order.
pub open spec fn depth_pred(view: Mat4, d: int) -> spec_fn(BodyVertex) -> bool {
    |v: BodyVertex| view_z_spec(view, v.position) == d
}

/// Filtering the empty sequence gives the empty sequence.
proof fn lemma_filter_empty(p: spec_fn(BodyVertex) -> bool)
    ensures
        Seq::<BodyVertex>::empty().filter(p) == Seq::<BodyVertex>::empty(),
{
    reveal(Seq::filter);
    assert(Seq::<BodyVertex>::empty().filter(p) =~= Seq::<BodyVertex>::empty());
}

/// Filtering a sequence in which nothing matches gives the empty sequence.
proof fn lemma_filter_none(s: Seq<BodyVertex>, p: spec_fn(BodyVertex) -> bool)
    requires
        forall|i: int| 0 <= i < s.len() ==> !p(#[trigger] s[i]),
    ensures
        s.filter(p) == Seq::<BodyVertex>::empty(),
    decreases s.len(),
{
    reveal(Seq::filter);
    if s.len() == 0 {
        assert(s.filter(p) =~= Seq::<BodyVertex>::empty());
    } else {
        lemma_filter_none(s.drop_last(), p);
        assert(!p(s.last()));
        assert(s.filter(p) =~= Seq::<BodyVertex>::empty());
    }
}

/// Filtering the empty sequence gives the empty sequence, and filtering a
/// singleton keeps or drops its one element.
proof fn lemma_filter_small(x: BodyVertex, p: spec_fn(BodyVertex) -> bool)
    ensures
        Seq::<BodyVertex>::empty().filter(p) == Seq::<BodyVertex>::empty(),
        seq![x].filter(p) == (if p(x) {
            seq![x]
        } else {
            Seq::<BodyVertex>::empty()
        }),
{
    reveal(Seq::filter);
    let e = Seq::<BodyVertex>::empty();
    assert(e.filter(p) =~= e);
    e.lemma_filter_push(x, p);
    assert(e.push(x) =~= seq![x]);
}

/// Orders vertex records for correct alpha compositing.
pub struct DepthSorter;

impl DepthSorter {
    /// Produces a back-to-front draw order: the result is a permutation of
    /// the input whose view-space depths are non-decreasing, and records at
    /// equal depth keep their relative input order (the sort is stable).
    pub fn order(view: &Mat4, vertices: Vec<BodyVertex>) -> (r: Vec<BodyVertex>)
        requires
            view.bounded(),
            forall|i: int|
                0 <= i < vertices@.len() ==> (#[trigger] vertices@[i]).position.bounded(),
        ensures
            r@.len() == vertices@.len(),
            r@.to_multiset() == vertices@.to_multiset(),
            sorted_back_to_front(*view, r@),
            forall|d: int|
                r@.filter(#[trigger] depth_pred(*view, d)) == vertices@.filter(
                    depth_pred(*view, d),
                ),
    {
        let ghost orig = vertices@;
        let mut rest = vertices;
        let mut out: Vec<BodyVertex> = Vec::new();
        proof {
            assert(out@.to_multiset().add(rest@.to_multiset()) =~= orig.to_multiset());
            assert forall|d: int|
                out@.filter(#[trigger] depth_pred(*view, d)) + rest@.filter(depth_pred(*view, d))
                    == orig.filter(depth_pred(*view, d)) by {
                assert(out@ =~= Seq::<BodyVertex>::empty());
                lemma_filter_empty(depth_pred(*view, d));
                assert(out@.filter(depth_pred(*view, d)) =~= Seq::<BodyVertex>::empty());
                assert(Seq::<BodyVertex>::empty() + rest@.filter(depth_pred(*view, d))
                    =~= rest@.filter(depth_pred(*view, d)));
            }
        }
        while rest.len() > 0
            invariant
                view.bounded(),
                forall|i: int| 0 <= i < rest@.len() ==> (#[trigger] rest@[i]).position.bounded(),
                out@.len() + rest@.len() == orig.len(),
                out@.to_multiset().add(rest@.to_multiset()) == orig.to_multiset(),
                sorted_back_to_front(*view, out@),
                forall|i: int, j: int|
                    0 <= i < out@.len() && 0 <= j < rest@.len() ==> view_z_spec(
                        *view,
                        out@[i].position,
                    ) <= view_z_spec(*view, rest@[j].position),
                forall|d: int|
                    out@.filter(#[trigger] depth_pred(*view, d)) + rest@.filter(
                        depth_pred(*view, d),
                    ) == orig.filter(depth_pred(*view, d)),
            decreases rest@.len(),
        {
            let mut mi: usize = 0;
            let mut mz = view_z(view, rest[0].position);
            let mut k: usize = 1;
            while k < rest.len()
                invariant
                    view.bounded(),
                    forall|i: int|
                        0 <= i < rest@.len() ==> (#[trigger] rest@[i]).position.bounded(),
                    0 < rest@.len(),
                    mi < k <= rest@.len(),
                    mz == view_z_spec(*view, rest@[mi as int].position),
                    forall|t: int|
                        0 <= t < k ==> mz <= view_z_spec(*view, rest@[t].position),
                    forall|t: int|
                        0 <= t < mi ==> mz < view_z_spec(*view, rest@[t].position),
                decreases rest@.len() - k,
            {
                let z = view_z(view, rest[k].position);
                if z < mz {
                    mi = k;
                    mz = z;
                }
                k += 1;
            }
            let ghost pre_rest = rest@;
            let ghost pre_out = out@;
            let x = rest.remove(mi);
            out.push(x);
            proof {
                assert(forall|j: int|
                    0 <= j < rest@.len() ==> rest@[j] == pre_rest[if j < mi as int {
                        j
                    } else {
                        j + 1
                    }]);
                assert(out@.to_multiset().add(rest@.to_multiset()) =~= orig.to_multiset());
                let a = pre_rest.subrange(0, mi as int);
                let b = pre_rest.subrange(mi as int + 1, pre_rest.len() as int);
                let xs = pre_rest.subrange(mi as int, mi as int + 1);
                assert forall|d: int|
                    out@.filter(#[trigger] depth_pred(*view, d)) + rest@.filter(
                        depth_pred(*view, d),
                    ) == orig.filter(depth_pred(*view, d)) by {
                    let p = depth_pred(*view, d);
                    assert(pre_rest =~= (a + xs) + b);
                    assert(xs =~= seq![x]);
                    Seq::filter_distributes_over_add(a + xs, b, p);
                    Seq::filter_distributes_over_add(a, xs, p);
                    Seq::filter_distributes_over_add(a, b, p);
                    assert(rest@ =~= a + b);
                    assert(out@ =~= pre_out.push(x));
                    pre_out.lemma_filter_push(x, p);
                    lemma_filter_small(x, p);
                    if p(x) {
                        assert(seq![x].filter(p) =~= seq![x]);
                        // every record before the chosen one is strictly
                        // nearer, so none of them matches this depth
                        assert forall|t: int| 0 <= t < a.len() implies !p(#[trigger] a[t]) by {
                            assert(a[t] == pre_rest[t]);
                        }
                        lemma_filter_none(a, p);
                        assert(pre_out.filter(p).push(x) + b.filter(p) =~= pre_out.filter(p)
                            + (seq![x] + b.filter(p)));
                        assert(a.filter(p) + (xs.filter(p) + b.filter(p)) =~= seq![x]
                            + b.filter(p));
                    } else {
                        assert(xs.filter(p) =~= Seq::<BodyVertex>::empty());
                        assert(a.filter(p) + (xs.filter(p) + b.filter(p)) =~= a.filter(p)
                            + b.filter(p));
                    }
                }
            }
        }
        proof {
            assert(out@.to_multiset().add(rest@.to_multiset()) =~= out@.to_multiset());
            assert(orig.to_multiset().len() == orig.len());
            assert forall|d: int|
                out@.filter(#[trigger] depth_pred(*view, d)) == orig.filter(
                    depth_pred(*view, d),
                ) by {
                assert(rest@ =~= Seq::<BodyVertex>::empty());
                lemma_filter_empty(depth_pred(*view, d));
                assert(rest@.filter(depth_pred(*view, d)) =~= Seq::<BodyVertex>::empty());
                assert(out@.filter(depth_pred(*view, d)) + Seq::<BodyVertex>::empty()
                    =~= out@.filter(depth_pred(*view, d)));
            }
        }
        out
    }
}

/// Depth-test function for incoming fragments.
#[derive(Clone, Copy, PartialEq, Eq, Structural)]
pub enum DepthTest {
    /// Pass every fragment.
    Always,
    /// Pass when the incoming depth is less than the stored depth.
    IfLess,
}

/// How a channel group is blended with the framebuffer.
#[derive(Clone, Copy, PartialEq, Eq, Structural)]
pub enum BlendMode {
    /// Overwrite without blending.
    Off,
    /// `source * alpha + destination * (1 - alpha)` compositing.
    SourceAlpha,
    /// Componentwise maximum of source and destination.
    Max,
}

/// Primitive topology of a draw call.
#[derive(Clone, Copy, PartialEq, Eq, Structural)]
pub enum PrimitiveTopology {
    /// One vertex per primitive, expanded to a sprite downstream.
    Points,
    /// Three vertices per primitive.
    Triangles,
}

/// The fixed pipeline state every frame is drawn with.
#[derive(Clone, Copy, PartialEq, Eq, Structural)]
pub struct DrawSettings {
    pub topology: PrimitiveTopology,
    /// Whether the draw call reads vertices through an index buffer.
    pub indexed: bool,
    pub depth_test: DepthTest,
    pub depth_write: bool,
    pub color_blend: BlendMode,
    pub alpha_blend: BlendMode,
}

/// The one configuration this pipeline uses: one unindexed point primitive
/// per body, depth test passing on lesser depth with depth writes on,
/// color channels composited with standard source-alpha blending, and the
/// alpha channel keeping the maximum so overlapping sprites cannot inflate
/// each other's alpha.
pub open spec fn body_draw_settings() -> DrawSettings {
    DrawSettings {
        topology: PrimitiveTopology::Points,
        indexed: false,
        depth_test: DepthTest::IfLess,
        depth_write: true,
        color_blend: BlendMode::SourceAlpha,
        alpha_blend: BlendMode::Max,
    }
}

/// The named per-draw constants the shader stage consumes.
#[derive(Clone, Copy, PartialEq, Eq, Structural)]
pub struct Uniforms {
    pub projection: Mat4,
    pub view: Mat4,
    pub res_width: i64,
    pub res_height: i64,
    pub look_at: Vec4,
    pub focus: i64,
    pub near: i64,
    pub far: i64,
}

/// Everything one draw call needs: the ordered vertex records to upload,
/// the uniform set, and the fixed pipeline state.
pub struct FramePacket {
    pub vertices: Vec<BodyVertex>,
    pub uniforms: Uniforms,
    pub settings: DrawSettings,
}

/// The uniforms are exactly the scene's current matrices and parameters,
/// with the look-at point carried into view space.
pub open spec fn uniforms_of(scene: Scene, u: Uniforms) -> bool {
    &&& u.projection == scene.projection
    &&& u.view == scene.view
    &&& u.res_width == scene.width
    &&& u.res_height == scene.height
    &&& u.look_at.x == affine_comp(scene.view.x.x as int, scene.view.y.x as int,
        scene.view.z.x as int, scene.view.w.x as int, scene.params.look_at)
    &&& u.look_at.y == affine_comp(scene.view.x.y as int, scene.view.y.y as int,
        scene.view.z.y as int, scene.view.w.y as int, scene.params.look_at)
    &&& u.look_at.z == affine_comp(scene.view.x.z as int, scene.view.y.z as int,
        scene.view.z.z as int, scene.view.w.z as int, scene.params.look_at)
    &&& u.look_at.w == affine_comp(scene.view.x.w as int, scene.view.y.w as int,
        scene.view.z.w as int, scene.view.w.w as int, scene.params.look_at)
    &&& u.focus == scene.params.focus
    &&& u.near == scene.params.near
    &&& u.far == scene.params.far
}

/// Owns the fixed-capacity vertex buffer and assembles each frame's draw.
pub struct BodyRenderer {
    pub max_bodies: usize,
}

impl BodyRenderer {
    /// Fixes the buffer capacity for the renderer's lifetime.
    pub fn new(max_bodies: usize) -> (r: BodyRenderer)
        ensures
            r.max_bodies == max_bodies,
    {
        BodyRenderer { max_bodies }
    }

    /// Assembles one frame: a vertex record per body, ordered back-to-front
    /// in view space, paired with the scene's uniform set and the fixed
    /// draw settings. The body count must not exceed the capacity fixed at
    /// construction; a violation is a broken caller contract, not a
    /// recoverable state.
    pub fn draw(&self, scene: &Scene, bodies: &Vec<Body>) -> (r: FramePacket)
        requires
            scene.wf(),
            forall|i: int| 0 <= i < bodies@.len() ==> (#[trigger] bodies@[i]).wf(),
            bodies@.len() <= self.max_bodies,
        ensures
            r.vertices@.len() == bodies@.len(),
            r.vertices@.to_multiset() == bodies@.map_values(|b: Body| vertex_of(b)).to_multiset(),
            sorted_back_to_front(scene.view, r.vertices@),
            forall|d: int|
                r.vertices@.filter(#[trigger] depth_pred(scene.view, d)) == bodies@.map_values(
                    |b: Body| vertex_of(b),
                ).filter(depth_pred(scene.view, d)),
            uniforms_of(*scene, r.uniforms),
            r.settings == body_draw_settings(),
    {
        let mut verts: Vec<BodyVertex> = Vec::new();
        let mut i: usize = 0;
        while i < bodies.len()
            invariant
                i <= bodies@.len(),
                forall|k: int| 0 <= k < bodies@.len() ==> (#[trigger] bodies@[k]).wf(),
                verts@.len() == i,
                forall|k: int| 0 <= k < i ==> verts@[k] == vertex_of(#[trigger] bodies@[k]),
            decreases bodies@.len() - i,
        {
            let b = bodies[i];
            verts.push(BodyVertex { position: b.position, color: b.color, radius: b.radius });
            i += 1;
        }
        proof {
            assert(verts@ =~= bodies@.map_values(|b: Body| vertex_of(b)));
            assert(forall|k: int|
                0 <= k < verts@.len() ==> (#[trigger] verts@[k]).position.bounded());
        }
        let params = scene.get_params();
        let view = scene.get_view();
        let ordered = DepthSorter::order(&view, verts);
        let view_look_at = transform_point(&view, params.look_at);
        FramePacket {
            vertices: ordered,
            uniforms: Uniforms {
                projection: scene.get_projection(),
                view,
                res_width: scene.get_width(),
                res_height: scene.get_height(),
                look_at: view_look_at,
                focus: params.focus,
                near: params.near,
                far: params.far,
            },
            settings: DrawSettings {
                topology: PrimitiveTopology::Points,
                indexed: false,
                depth_test: DepthTest::IfLess,
                depth_write: true,
                color_blend: BlendMode::SourceAlpha,
                alpha_blend: BlendMode::Max,
            },
        }
    }

    /// Checked frame assembly: returns the frame exactly when the body
    /// count fits the capacity fixed at construction, and refuses it
    /// otherwise.
    pub fn try_draw(&self, scene: &Scene, bodies: &Vec<Body>) -> (r: Option<FramePacket>)
        requires
            scene.wf(),
            forall|i: int| 0 <= i < bodies@.len() ==> (#[trigger] bodies@[i]).wf(),
        ensures
            r is Some <==> bodies@.len() <= self.max_bodies,
            match r {
                Some(frame) => {
                    &&& frame.vertices@.len() == bodies@.len()
                    &&& frame.vertices@.to_multiset() == bodies@.map_values(
                        |b: Body| vertex_of(b),
                    ).to_multiset()
                    &&& sorted_back_to_front(scene.view, frame.vertices@)
                    &&& forall|d: int|
                        frame.vertices@.filter(#[trigger] depth_pred(scene.view, d))
                            == bodies@.map_values(|b: Body| vertex_of(b)).filter(
                            depth_pred(scene.view, d),
                        )
                    &&& uniforms_of(*scene, frame.uniforms)
                    &&& frame.settings == body_draw_settings()
                },
                None => true,
            },
    {
        if bodies.len() <= self.max_bodies {
            Some(self.draw(scene, bodies))
        } else {
            None
        }
    }
}

} // verus!
