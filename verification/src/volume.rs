use vstd::prelude::*;

use crate::error::VolumeError;
use crate::histogram::count_byte;
use crate::histogram::histogram_total;

verus! {

/// The eight corners of a unit cube centered at the origin, three
/// coordinates per vertex, in half-units: an entry of `-1` or `1` stands
/// for `-0.5` or `0.5`.
pub open spec fn cube_vertex_data() -> Seq<i32> {
    seq![
        -1i32, -1i32, 1i32,
        1i32, -1i32, 1i32,
        1i32, 1i32, 1i32,
        -1i32, 1i32, 1i32,
        -1i32, -1i32, -1i32,
        1i32, -1i32, -1i32,
        1i32, 1i32, -1i32,
        -1i32, 1i32, -1i32,
    ]
}

/// The 36 vertex indices of the cube's 12 triangles, two per face, in the
/// order front, right, back, left, top, bottom, with consistent winding.
pub open spec fn cube_indices() -> Seq<u32> {
    seq![
        0u32, 1u32, 2u32, 0u32, 2u32, 3u32,
        1u32, 5u32, 6u32, 1u32, 6u32, 2u32,
        5u32, 4u32, 7u32, 5u32, 7u32, 6u32,
        4u32, 0u32, 3u32, 4u32, 3u32, 7u32,
        2u32, 6u32, 7u32, 2u32, 7u32, 3u32,
        4u32, 5u32, 1u32, 4u32, 1u32, 0u32,
    ]
}

/// Shape of a 3-D texture. All three extents must be positive; a `Texture`
/// whose byte count disagrees with them cannot be constructed.
#[derive(Clone, Copy, Debug, PartialEq, Eq, Structural)]
pub struct Dim {
    pub width: u32,
    pub height: u32,
    pub depth: u32,
}

impl Dim {
    /// Number of voxels a texture of this shape holds.
    pub open spec fn voxel_count(&self) -> int {
        self.width * self.height * self.depth
    }

    /// All extents are positive.
    pub open spec fn positive(&self) -> bool {
        self.width > 0 && self.height > 0 && self.depth > 0
    }
}

/// Canonical volume texture: one byte per voxel, intensity normalized to
/// `[0, 255]`, laid out slice after slice (`z` slowest, then `y`, then `x`).
pub struct Texture {
    pub texture_data: Vec<u8>,
    pub dimensions: Dim,
}

impl Texture {
    /// Shape invariant: positive extents whose product is exactly the
    /// number of bytes held.
    pub open spec fn wf(&self) -> bool {
        self.dimensions.positive() && self.texture_data@.len() == self.dimensions.voxel_count()
    }

    /// Every well-formed texture holds exactly one byte per voxel: the
    /// product of its extents equals the length of its data.
    pub proof fn lemma_shape_invariant(&self)
        requires
            self.wf(),
        ensures
            self.dimensions.width * self.dimensions.height * self.dimensions.depth
                == self.texture_data@.len(),
    {
    }

    /// Builds a texture after checking the shape invariant; dimensions that
    /// disagree with the payload are a fatal construction error.
    pub fn new(texture_data: Vec<u8>, dimensions: Dim) -> (r: Result<Texture, VolumeError>)
        ensures
            r is Ok <==> dimensions.positive() && texture_data@.len() == dimensions.voxel_count(),
            r matches Ok(t) ==> t.texture_data@ == texture_data@ && t.dimensions == dimensions
                && t.wf(),
            r is Err ==> r == Err::<Texture, VolumeError>(VolumeError::DimensionMismatch),
    {
        if dimensions.width == 0 || dimensions.height == 0 || dimensions.depth == 0 {
            return Err(VolumeError::DimensionMismatch);
        }
        let n = texture_data.len();
        let w = dimensions.width as usize;
        let h = dimensions.height as usize;
        let d = dimensions.depth as usize;
        let plane = match w.checked_mul(h) {
            Some(p) => p,
            None => {
                proof {
                    lemma_plane_overflow(w as int, h as int, d as int);
                }
                return Err(VolumeError::DimensionMismatch);
            },
        };
        let total = match plane.checked_mul(d) {
            Some(t) => t,
            None => {
                proof {
                    assert(w as int * h as int * d as int == plane as int * d as int)
                        by (nonlinear_arith)
                        requires
                            plane == w * h,
                    ;
                }
                return Err(VolumeError::DimensionMismatch);
            },
        };
        if n != total {
            return Err(VolumeError::DimensionMismatch);
        }
        Ok(Texture { texture_data, dimensions })
    }
}

/// The canonical volume: a fixed unit-cube mesh, the scan's texture, and
/// the texture's intensity histogram. Built once per loaded scan and then
/// only replaced wholesale, never mutated in place.
///
/// The mesh is held in integer half-units so that it stays exact: a vertex
/// coordinate of `-1` or `1` stands for `-0.5` or `0.5`; the renderer
/// multiplies by one half when it uploads the buffer.
pub struct Volume {
    pub vertex_data: [i32; 24],
    pub indices: [u32; 36],
    pub texture: Texture,
    pub histogram: Vec<u64>,
}

impl Volume {
    /// A volume is well formed when its mesh is the fixed cube, its
    /// texture satisfies the shape invariant, and its histogram holds the
    /// occurrence count of every intensity.
    pub open spec fn wf(&self) -> bool {
        &&& self.vertex_data@ == cube_vertex_data()
        &&& self.indices@ == cube_indices()
        &&& self.texture.wf()
        &&& self.histogram@.len() == 256
        &&& forall|v: int|
            0 <= v < 256 ==> self.histogram@[v] == count_byte(self.texture.texture_data@, v as u8)
    }

    /// Builds the session's volume from a reader's texture: the fixed cube
    /// mesh plus the texture's freshly computed histogram.
    pub fn new(texture: Texture) -> (volume: Volume)
        requires
            texture.wf(),
        ensures
            volume.wf(),
            volume.texture == texture,
            histogram_total(volume.histogram@) == texture.texture_data@.len(),
    {
        let vertex_data: [i32; 24] = [
            -1, -1, 1,
            1, -1, 1,
            1, 1, 1,
            -1, 1, 1,
            -1, -1, -1,
            1, -1, -1,
            1, 1, -1,
            -1, 1, -1,
        ];
        let indices: [u32; 36] = [
            0, 1, 2, 0, 2, 3,
            1, 5, 6, 1, 6, 2,
            5, 4, 7, 5, 7, 6,
            4, 0, 3, 4, 3, 7,
            2, 6, 7, 2, 7, 3,
            4, 5, 1, 4, 1, 0,
        ];
        proof {
            assert(vertex_data@ =~= cube_vertex_data());
            assert(indices@ =~= cube_indices());
        }
        let histogram = Volume::calculate_histogram(&texture.texture_data);
        Volume { vertex_data, indices, texture, histogram }
    }
}

/// A voxel count whose in-plane factor already overflows `usize` cannot be
/// the length of any byte vector.
proof fn lemma_plane_overflow(w: int, h: int, d: int)
    by (nonlinear_arith)
    requires
        w * h > usize::MAX,
        d >= 1,
    ensures
        w * h * d > usize::MAX,
{
}

} // verus!
