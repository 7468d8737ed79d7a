use batch2d::color::Rgba8;
use batch2d::quad_gl::{
    pipeline_for_mode, scissor_for_clip, ClipRect, DrawMode, GeometryError, GlPipeline, QuadGl,
    Transform, Vertex, DEFAULT_MAX_INDICES, DEFAULT_MAX_VERTICES,
};

fn vert(tag: u32) -> Vertex {
    Vertex::new(tag, tag + 1, 0, 0, 0, Rgba8::white())
}

fn triangle(tag: u32) -> (Vec<Vertex>, Vec<u16>) {
    (vec![vert(tag), vert(tag + 10), vert(tag + 20)], vec![0, 1, 2])
}

#[test]
fn merge_two_compatible_appends() {
    let mut gl = QuadGl::new(DEFAULT_MAX_VERTICES, DEFAULT_MAX_INDICES);
    let (v1, i1) = triangle(100);
    let (v2, i2) = triangle(200);

    gl.geometry(&v1, &i1).unwrap();
    gl.geometry(&v2, &i2).unwrap();

    assert_eq!(gl.draw_calls_count(), 1);
    let dc = gl.draw_call_at(0);
    assert_eq!(dc.vertices.len(), 6);
    assert_eq!(dc.vertices[0], vert(100));
    assert_eq!(dc.vertices[3], vert(200));
    // The second triangle's indices are rebased by the first one's vertex
    // count.
    assert_eq!(dc.indices, vec![0, 1, 2, 3, 4, 5]);
}

#[test]
fn differing_texture_splits_calls() {
    let mut gl = QuadGl::new(DEFAULT_MAX_VERTICES, DEFAULT_MAX_INDICES);
    let (v1, i1) = triangle(100);
    let (v2, i2) = triangle(200);

    gl.texture(Some(7));
    gl.geometry(&v1, &i1).unwrap();
    gl.texture(Some(8));
    gl.geometry(&v2, &i2).unwrap();

    assert_eq!(gl.draw_calls_count(), 2);
    assert_eq!(gl.draw_call_at(0).texture, Some(7));
    assert_eq!(gl.draw_call_at(1).texture, Some(8));
    assert_eq!(gl.draw_call_at(1).indices, vec![0, 1, 2]);
}

#[test]
fn differing_clip_splits_calls() {
    let mut gl = QuadGl::new(DEFAULT_MAX_VERTICES, DEFAULT_MAX_INDICES);
    let (v1, i1) = triangle(100);
    let (v2, i2) = triangle(200);

    gl.set_clip(Some(ClipRect { x: 0, y: 0, w: 10, h: 10 }));
    gl.geometry(&v1, &i1).unwrap();
    gl.set_clip(None);
    gl.geometry(&v2, &i2).unwrap();

    assert_eq!(gl.draw_calls_count(), 2);
}

#[test]
fn differing_draw_mode_splits_calls() {
    let mut gl = QuadGl::new(DEFAULT_MAX_VERTICES, DEFAULT_MAX_INDICES);
    let (v1, i1) = triangle(100);
    let (v2, i2) = triangle(200);

    gl.draw_mode(DrawMode::Triangles);
    gl.geometry(&v1, &i1).unwrap();
    gl.draw_mode(DrawMode::Lines);
    gl.geometry(&v2, &i2).unwrap();

    assert_eq!(gl.draw_calls_count(), 2);
    assert_eq!(gl.draw_call_at(0).pipeline, GlPipeline(0));
    assert_eq!(gl.draw_call_at(1).pipeline, GlPipeline(1));
}

#[test]
fn transform_change_splits_calls() {
    let mut gl = QuadGl::new(DEFAULT_MAX_VERTICES, DEFAULT_MAX_INDICES);
    let (v1, i1) = triangle(100);
    let (v2, i2) = triangle(200);
    let (v3, i3) = triangle(300);

    gl.geometry(&v1, &i1).unwrap();
    let mut shifted = Transform::identity();
    shifted.m03 = 0x40000000; // translation component, bit pattern of 2.0
    gl.push_transform(shifted);
    gl.geometry(&v2, &i2).unwrap();
    gl.pop_transform();
    gl.geometry(&v3, &i3).unwrap();

    // Identity, shifted, identity: three state changes, three calls.
    assert_eq!(gl.draw_calls_count(), 3);
    assert_eq!(gl.draw_call_at(0).model, Transform::identity());
    assert_eq!(gl.draw_call_at(1).model, shifted);
    assert_eq!(gl.draw_call_at(2).model, Transform::identity());
}

#[test]
fn break_batching_forces_new_call() {
    let mut gl = QuadGl::new(DEFAULT_MAX_VERTICES, DEFAULT_MAX_INDICES);
    let (v1, i1) = triangle(100);
    let (v2, i2) = triangle(200);

    gl.geometry(&v1, &i1).unwrap();
    gl.set_break_batching(true);
    gl.geometry(&v2, &i2).unwrap();

    assert_eq!(gl.draw_calls_count(), 2);

    // The break flag is consumed: the next compatible append merges again.
    let (v3, i3) = triangle(300);
    gl.geometry(&v3, &i3).unwrap();
    assert_eq!(gl.draw_calls_count(), 2);
}

#[test]
fn capacity_exact_fit_stays_in_call() {
    // A tiny capacity of 4 vertices makes the boundary deterministic.
    let mut gl = QuadGl::new(4, DEFAULT_MAX_INDICES);

    let v1 = vec![vert(1), vert(2)];
    let i1: Vec<u16> = vec![0, 1];
    let v2 = vec![vert(3), vert(4)];
    let i2: Vec<u16> = vec![0, 1];

    gl.geometry(&v1, &i1).unwrap();
    gl.geometry(&v2, &i2).unwrap();

    // 2 + 2 vertices reach the maximum exactly: still one call.
    assert_eq!(gl.draw_calls_count(), 1);
    assert_eq!(gl.draw_call_at(0).vertices.len(), 4);
    assert_eq!(gl.draw_call_at(0).indices, vec![0, 1, 2, 3]);
}

#[test]
fn capacity_overflow_opens_new_call() {
    let mut gl = QuadGl::new(4, DEFAULT_MAX_INDICES);

    let v1 = vec![vert(1), vert(2)];
    let i1: Vec<u16> = vec![0, 1];
    let v2 = vec![vert(3), vert(4), vert(5)];
    let i2: Vec<u16> = vec![0, 1, 2];

    gl.geometry(&v1, &i1).unwrap();
    // 2 + 3 vertices exceed the maximum of 4: a second call opens.
    gl.geometry(&v2, &i2).unwrap();

    assert_eq!(gl.draw_calls_count(), 2);
    assert_eq!(gl.draw_call_at(0).vertices.len(), 2);
    assert_eq!(gl.draw_call_at(1).vertices.len(), 3);
    assert_eq!(gl.draw_call_at(1).indices, vec![0, 1, 2]);
}

#[test]
fn index_rebasing_accumulates() {
    let mut gl = QuadGl::new(DEFAULT_MAX_VERTICES, DEFAULT_MAX_INDICES);
    for n in 0..3u32 {
        let (v, i) = triangle(n * 100);
        gl.geometry(&v, &i).unwrap();
    }
    assert_eq!(gl.draw_calls_count(), 1);
    let dc = gl.draw_call_at(0);
    assert_eq!(dc.indices, vec![0, 1, 2, 3, 4, 5, 6, 7, 8]);
}

#[test]
fn oversized_submission_is_rejected() {
    let mut gl = QuadGl::new(4, 6);

    let big: Vec<batch2d::quad_gl::Vertex> = (0..5).map(|n| vert(n)).collect();
    let idx: Vec<u16> = vec![0, 1, 2];
    assert_eq!(
        gl.geometry(&big, &idx),
        Err(GeometryError::TooManyVertices)
    );

    let small = vec![vert(1), vert(2), vert(3)];
    let many: Vec<u16> = vec![0, 1, 2, 0, 1, 2, 0];
    assert_eq!(
        gl.geometry(&small, &many),
        Err(GeometryError::TooManyIndices)
    );

    // A rejected submission leaves the engine untouched.
    assert_eq!(gl.draw_calls_count(), 0);
    assert_eq!(gl.pool_len(), 0);
}

#[test]
fn reset_retains_pool_and_reuses_slots() {
    let mut gl = QuadGl::new(DEFAULT_MAX_VERTICES, DEFAULT_MAX_INDICES);
    let (v1, i1) = triangle(100);
    let (v2, i2) = triangle(200);

    // Frame one: two calls under two textures.
    gl.texture(Some(1));
    gl.geometry(&v1, &i1).unwrap();
    gl.texture(Some(2));
    gl.geometry(&v2, &i2).unwrap();
    assert_eq!(gl.draw_calls_count(), 2);
    assert_eq!(gl.pool_len(), 2);

    // Frame boundary.
    gl.reset();
    assert_eq!(gl.draw_calls_count(), 0);
    assert_eq!(gl.pool_len(), 2);

    // Frame two with the same shape of work: the pool does not grow.
    gl.texture(Some(1));
    gl.geometry(&v1, &i1).unwrap();
    gl.texture(Some(2));
    gl.geometry(&v2, &i2).unwrap();
    assert_eq!(gl.draw_calls_count(), 2);
    assert_eq!(gl.pool_len(), 2);
}

#[test]
fn finish_frame_clears_calls_and_keeps_state() {
    let mut gl = QuadGl::new(DEFAULT_MAX_VERTICES, DEFAULT_MAX_INDICES);
    let (v1, i1) = triangle(100);
    gl.texture(Some(5));
    gl.geometry(&v1, &i1).unwrap();
    assert_eq!(gl.draw_calls_count(), 1);

    gl.finish_frame();
    assert_eq!(gl.draw_calls_count(), 0);
    assert_eq!(gl.pool_len(), 1);

    // The draw state survives a finish_frame; the texture is still bound.
    let (v2, i2) = triangle(200);
    gl.geometry(&v2, &i2).unwrap();
    assert_eq!(gl.draw_call_at(0).texture, Some(5));
}

#[test]
fn reset_restores_default_state() {
    let mut gl = QuadGl::new(DEFAULT_MAX_VERTICES, DEFAULT_MAX_INDICES);
    let (v1, i1) = triangle(100);

    gl.texture(Some(9));
    gl.set_clip(Some(ClipRect { x: 1, y: 2, w: 3, h: 4 }));
    gl.draw_mode(DrawMode::Lines);
    gl.reset();

    gl.geometry(&v1, &i1).unwrap();
    let dc = gl.draw_call_at(0);
    assert_eq!(dc.texture, None);
    assert_eq!(dc.clip, None);
    assert_eq!(dc.draw_mode, DrawMode::Triangles);
    assert_eq!(dc.model, Transform::identity());
    assert_eq!(dc.render_pass, None);
}

#[test]
fn clear_draw_calls_keeps_draw_state() {
    let mut gl = QuadGl::new(DEFAULT_MAX_VERTICES, DEFAULT_MAX_INDICES);
    let (v1, i1) = triangle(100);
    gl.texture(Some(3));
    gl.geometry(&v1, &i1).unwrap();
    gl.clear_draw_calls();
    assert_eq!(gl.draw_calls_count(), 0);
    gl.geometry(&v1, &i1).unwrap();
    assert_eq!(gl.draw_call_at(0).texture, Some(3));
}

#[test]
fn pipeline_resolution() {
    assert_eq!(pipeline_for_mode(DrawMode::Triangles), GlPipeline(0));
    assert_eq!(pipeline_for_mode(DrawMode::Lines), GlPipeline(1));

    let mut gl = QuadGl::new(DEFAULT_MAX_VERTICES, DEFAULT_MAX_INDICES);
    let (v1, i1) = triangle(100);
    gl.set_pipeline(Some(GlPipeline(4)));
    gl.geometry(&v1, &i1).unwrap();
    assert_eq!(gl.draw_call_at(0).pipeline, GlPipeline(4));
}

#[test]
fn render_target_splits_calls() {
    let mut gl = QuadGl::new(DEFAULT_MAX_VERTICES, DEFAULT_MAX_INDICES);
    let (v1, i1) = triangle(100);
    let (v2, i2) = triangle(200);
    gl.set_render_target(Some(11));
    gl.geometry(&v1, &i1).unwrap();
    gl.set_render_target(None);
    gl.geometry(&v2, &i2).unwrap();
    assert_eq!(gl.draw_calls_count(), 2);
    assert_eq!(gl.draw_call_at(0).render_pass, Some(11));
    assert_eq!(gl.draw_call_at(1).render_pass, None);
}

#[test]
fn empty_submission_is_accepted() {
    let mut gl = QuadGl::new(4, 4);
    let none_v: Vec<Vertex> = vec![];
    let none_i: Vec<u16> = vec![];
    gl.geometry(&none_v, &none_i).unwrap();
    assert_eq!(gl.draw_calls_count(), 1);
    assert_eq!(gl.draw_call_at(0).vertices.len(), 0);

    // A following compatible submission merges into the empty call.
    let (v, i) = triangle(1);
    gl.geometry(&v, &i).unwrap();
    assert_eq!(gl.draw_calls_count(), 1);
    assert_eq!(gl.draw_call_at(0).indices, vec![0, 1, 2]);
}

#[test]
fn scissor_conversion_flips_origin() {
    // A 20 pixel tall clip whose top is 30 pixels below a 100 pixel tall
    // target's top edge starts 50 pixels above its bottom edge.
    let clip = ClipRect { x: 5, y: 30, w: 40, h: 20 };
    let s = scissor_for_clip(clip, 100);
    assert_eq!(s, ClipRect { x: 5, y: 50, w: 40, h: 20 });
}
