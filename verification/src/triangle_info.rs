//! The mesh data model: a triangle is exactly three vertex records, each
//! carrying a position, a texture coordinate and a normal, all in
//! fixed-point.

use vstd::prelude::*;
use crate::math_utils::{Vec2, Vec3, v2_bounded, v3_bounded, COORD_LIMIT};

verus! {

/// One vertex of a triangle: position, texture coordinate, normal.
#[derive(Clone, Copy, PartialEq, Eq, Structural, Debug)]
pub struct VertexInfo {
    pub vertex: Vec3,
    pub uv: Vec2,
    pub normal: Vec3,
}

impl VertexInfo {
    /// All components within the coordinate range the pipeline accepts.
    pub open spec fn wf(self) -> bool {
        v3_bounded(self.vertex, COORD_LIMIT as int) && v2_bounded(self.uv, COORD_LIMIT as int)
            && v3_bounded(self.normal, COORD_LIMIT as int)
    }
}

/// A triangle: three vertex records, addressable by ordinal 0, 1, 2.
#[derive(Clone, Copy, PartialEq, Eq, Structural, Debug)]
pub struct TriangleInfo {
    pub vertex0: VertexInfo,
    pub vertex1: VertexInfo,
    pub vertex2: VertexInfo,
}

impl TriangleInfo {
    /// The vertex at the given ordinal, as a specification.
    pub open spec fn vert(self, index: int) -> VertexInfo {
        if index == 0 {
            self.vertex0
        } else if index == 1 {
            self.vertex1
        } else {
            self.vertex2
        }
    }

    /// Every vertex within the coordinate range the pipeline accepts.
    pub open spec fn wf(self) -> bool {
        self.vertex0.wf() && self.vertex1.wf() && self.vertex2.wf()
    }

    /// The vertex at ordinal 0, 1 or 2. Any other ordinal is a caller
    /// contract violation, excluded here rather than tolerated.
    pub fn get_index(&self, index: i32) -> (r: VertexInfo)
        requires
            0 <= index < 3,
        ensures
            r == self.vert(index as int),
    {
        match index {
            0 => self.vertex0,
            1 => self.vertex1,
            _ => self.vertex2,
        }
    }

    /// Runtime check for `wf`, so callers can reject out-of-range geometry
    /// instead of feeding it to the pipeline.
    pub fn wf_check(&self) -> (r: bool)
        ensures
            r == self.wf(),
    {
        vertex_wf_check(&self.vertex0) && vertex_wf_check(&self.vertex1)
            && vertex_wf_check(&self.vertex2)
    }
}

fn coord_ok(v: i64) -> (r: bool)
    ensures
        r == (-COORD_LIMIT <= v <= COORD_LIMIT),
{
    -COORD_LIMIT <= v && v <= COORD_LIMIT
}

fn vertex_wf_check(v: &VertexInfo) -> (r: bool)
    ensures
        r == v.wf(),
{
    coord_ok(v.vertex.x) && coord_ok(v.vertex.y) && coord_ok(v.vertex.z) && coord_ok(v.uv.x)
        && coord_ok(v.uv.y) && coord_ok(v.normal.x) && coord_ok(v.normal.y)
        && coord_ok(v.normal.z)
}

} // verus!
