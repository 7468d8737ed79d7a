//! Index patterns for tessellated shapes.
//!
//! The shape tessellators turn rectangles, polygons, ellipses and lines
//! into vertex lists plus index lists. The vertex positions are
//! floating-point work done by the unverified shell; the index patterns
//! below are the discrete half of that work. Every builder guarantees that
//! each index stays below the matching vertex count, which is exactly what
//! [`crate::quad_gl::QuadGl::geometry`] demands of a submission.

use vstd::prelude::*;

verus! {

/// Indices of the two triangles covering a quad of four vertices, in the
/// vertex order top-left, top-right, bottom-right, bottom-left.
pub fn quad_indices() -> (r: Vec<u16>)
    ensures
        r@ == seq![0u16, 1u16, 2u16, 0u16, 2u16, 3u16],
        forall|j: int| 0 <= j < r@.len() ==> (r@[j] as int) < 4,
{
    let mut v: Vec<u16> = Vec::new();
    v.push(0);
    v.push(1);
    v.push(2);
    v.push(0);
    v.push(2);
    v.push(3);
    proof {
        assert(v@ =~= seq![0u16, 1u16, 2u16, 0u16, 2u16, 3u16]);
    }
    v
}

/// Indices of the two triangles covering a thick line segment expanded to
/// a quad of four vertices.
pub fn line_quad_indices() -> (r: Vec<u16>)
    ensures
        r@ == seq![0u16, 1u16, 2u16, 2u16, 1u16, 3u16],
        forall|j: int| 0 <= j < r@.len() ==> (r@[j] as int) < 4,
{
    let mut v: Vec<u16> = Vec::new();
    v.push(0);
    v.push(1);
    v.push(2);
    v.push(2);
    v.push(1);
    v.push(3);
    proof {
        assert(v@ =~= seq![0u16, 1u16, 2u16, 2u16, 1u16, 3u16]);
    }
    v
}

/// Indices of the eight triangles forming a rectangle outline from eight
/// vertices: the outer quad's corners followed by the inner quad's.
pub fn rect_outline_indices() -> (r: Vec<u16>)
    ensures
        r@ == seq![
            0u16, 1u16, 4u16, 1u16, 4u16, 5u16, 1u16, 5u16, 6u16, 1u16, 2u16, 6u16,
            3u16, 7u16, 2u16, 2u16, 7u16, 6u16, 0u16, 4u16, 3u16, 3u16, 4u16, 7u16,
        ],
        forall|j: int| 0 <= j < r@.len() ==> (r@[j] as int) < 8,
{
    let mut v: Vec<u16> = Vec::new();
    v.push(0);
    v.push(1);
    v.push(4);
    v.push(1);
    v.push(4);
    v.push(5);
    v.push(1);
    v.push(5);
    v.push(6);
    v.push(1);
    v.push(2);
    v.push(6);
    v.push(3);
    v.push(7);
    v.push(2);
    v.push(2);
    v.push(7);
    v.push(6);
    v.push(0);
    v.push(4);
    v.push(3);
    v.push(3);
    v.push(4);
    v.push(7);
    proof {
        assert(v@ =~= seq![
            0u16, 1u16, 4u16, 1u16, 4u16, 5u16, 1u16, 5u16, 6u16, 1u16, 2u16, 6u16,
            3u16, 7u16, 2u16, 2u16, 7u16, 6u16, 0u16, 4u16, 3u16, 3u16, 4u16, 7u16,
        ]);
    }
    v
}

/// The index pattern of a triangle fan: triangle `t` joins the center
/// vertex `0` with rim vertices `t + 1` and `t + 2`.
pub open spec fn spec_fan_indices(sides: int) -> Seq<u16> {
    Seq::new((3 * sides) as nat, |j: int|
        if j % 3 == 0 {
            0u16
        } else if j % 3 == 1 {
            (j / 3 + 1) as u16
        } else {
            (j / 3 + 2) as u16
        })
}

/// Builds the triangle-fan index list used for solid polygons, circles and
/// ellipses drawn from a center vertex and `sides + 1` rim vertices.
pub fn fan_indices(sides: u16) -> (r: Vec<u16>)
    requires
        sides <= 21844,
    ensures
        r@ == spec_fan_indices(sides as int),
        r@.len() == 3 * sides,
        forall|j: int| 0 <= j < r@.len() ==> (r@[j] as int) < sides + 2,
{
    let mut v: Vec<u16> = Vec::new();
    let mut i: u16 = 0;
    while i < sides
        invariant
            i <= sides,
            sides <= 21844,
            v@.len() == 3 * i,
            forall|j: int| 0 <= j < v@.len()
                ==> v@[j] == spec_fan_indices(sides as int)[j],
        decreases sides - i,
    {
        v.push(0);
        v.push(i + 1);
        v.push(i + 2);
        proof {
            let b = 3 * i as int;
            assert(b % 3 == 0 && b / 3 == i as int) by (nonlinear_arith)
                requires
                    b == 3 * i as int,
                    0 <= i as int,
            {}
            assert((b + 1) % 3 == 1 && (b + 1) / 3 == i as int) by (nonlinear_arith)
                requires
                    b == 3 * i as int,
                    0 <= i as int,
            {}
            assert((b + 2) % 3 == 2 && (b + 2) / 3 == i as int) by (nonlinear_arith)
                requires
                    b == 3 * i as int,
                    0 <= i as int,
            {}
            assert(v@[b] == spec_fan_indices(sides as int)[b]);
            assert(v@[b + 1] == spec_fan_indices(sides as int)[b + 1]);
            assert(v@[b + 2] == spec_fan_indices(sides as int)[b + 2]);
        }
        i = i + 1;
    }
    proof {
        assert(v@ =~= spec_fan_indices(sides as int));
        assert forall|j: int| 0 <= j < v@.len() implies (v@[j] as int) < sides + 2 by {
            assert(0 <= j % 3 < 3 && 0 <= j / 3 < sides) by (nonlinear_arith)
                requires
                    0 <= j < 3 * sides as int,
            {}
        }
    }
    v
}

/// The index pattern of a closed outline ring: `n` outer vertices followed
/// by `n` inner vertices, two triangles per edge. Edge `t` joins outer
/// vertices `t` and `(t + 1) % n` with inner vertices `n + t` and
/// `n + (t + 1) % n`.
pub open spec fn spec_ring_indices(n: int) -> Seq<u16> {
    Seq::new((6 * n) as nat, |j: int| {
        let t = j / 6;
        let k = j % 6;
        if k == 0 {
            t as u16
        } else if k == 1 {
            ((t + 1) % n) as u16
        } else if k == 2 {
            (n + t) as u16
        } else if k == 3 {
            (n + t) as u16
        } else if k == 4 {
            ((t + 1) % n) as u16
        } else {
            (n + (t + 1) % n) as u16
        }
    })
}

/// Builds the outline-ring index list used for rectangle and rounded
/// rectangle outlines drawn from `n` outer and `n` inner vertices.
pub fn ring_indices(n: u16) -> (r: Vec<u16>)
    requires
        1 <= n <= 10922,
    ensures
        r@ == spec_ring_indices(n as int),
        r@.len() == 6 * n,
        forall|j: int| 0 <= j < r@.len() ==> (r@[j] as int) < 2 * n,
{
    let mut v: Vec<u16> = Vec::new();
    let mut i: u16 = 0;
    while i < n
        invariant
            i <= n,
            1 <= n <= 10922,
            v@.len() == 6 * i,
            forall|j: int| 0 <= j < v@.len()
                ==> v@[j] == spec_ring_indices(n as int)[j],
        decreases n - i,
    {
        let succ = (i + 1) % n;
        v.push(i);
        v.push(succ);
        v.push(n + i);
        v.push(n + i);
        v.push(succ);
        v.push(n + succ);
        proof {
            let b = 6 * i as int;
            assert(b % 6 == 0 && b / 6 == i as int) by (nonlinear_arith)
                requires
                    b == 6 * i as int,
                    0 <= i as int,
            {}
            assert((b + 1) % 6 == 1 && (b + 1) / 6 == i as int
                && (b + 2) % 6 == 2 && (b + 2) / 6 == i as int
                && (b + 3) % 6 == 3 && (b + 3) / 6 == i as int
                && (b + 4) % 6 == 4 && (b + 4) / 6 == i as int
                && (b + 5) % 6 == 5 && (b + 5) / 6 == i as int) by (nonlinear_arith)
                requires
                    b == 6 * i as int,
                    0 <= i as int,
            {}
            assert(succ as int == (i as int + 1) % n as int);
            assert(v@[b] == spec_ring_indices(n as int)[b]);
            assert(v@[b + 1] == spec_ring_indices(n as int)[b + 1]);
            assert(v@[b + 2] == spec_ring_indices(n as int)[b + 2]);
            assert(v@[b + 3] == spec_ring_indices(n as int)[b + 3]);
            assert(v@[b + 4] == spec_ring_indices(n as int)[b + 4]);
            assert(v@[b + 5] == spec_ring_indices(n as int)[b + 5]);
        }
        i = i + 1;
    }
    proof {
        assert(v@ =~= spec_ring_indices(n as int));
        assert forall|j: int| 0 <= j < v@.len() implies (v@[j] as int) < 2 * n by {
            assert(0 <= j % 6 < 6 && 0 <= j / 6 < n) by (nonlinear_arith)
                requires
                    0 <= j < 6 * n as int,
            {}
            assert(0 <= ((j / 6 + 1) % (n as int)) && ((j / 6 + 1) % (n as int)) < n)
                by (nonlinear_arith)
                requires
                    1 <= n as int,
            {}
        }
    }
    v
}

} // verus!
