use vstd::prelude::*;

use crate::error::VolumeError;
use crate::hounsfield::hu_to_byte;
use crate::hounsfield::lemma_hu_to_byte_in_range;
use crate::meta::dim_of_meta;
use crate::volume::Dim;
use crate::volume::Texture;
use crate::volume::Volume;

verus! {

// ---------------------------------------------------------------------------
// RAW + metadata reader: a flat little-endian u16 sample stream, shaped by
// the dimensions of a `key = value` metadata text.
// ---------------------------------------------------------------------------
/// The `i`-th 16-bit little-endian sample of a raw byte stream.
pub open spec fn raw_sample(raw: Seq<u8>, i: int) -> int {
    raw[2 * i] + 256 * raw[2 * i + 1]
}

/// Intensity byte of the `i`-th raw sample: the sample is masked to its
/// low 12 bits, then scaled to `[0, 255]`.
pub open spec fn raw_byte(raw: Seq<u8>, i: int) -> int {
    hu_to_byte(raw_sample(raw, i) % 4096)
}

/// The texture bytes a raw stream denotes: one normalized byte per sample.
pub open spec fn raw_texture_data(raw: Seq<u8>, count: int) -> Seq<u8> {
    Seq::new(count as nat, |i: int| raw_byte(raw, i) as u8)
}

/// `t` is the texture that loading `raw` under `meta` must produce.
pub open spec fn is_raw_load(t: Texture, raw: Seq<u8>, meta: Seq<char>) -> bool {
    &&& dim_of_meta(meta) == Some(t.dimensions)
    &&& t.texture_data@ == raw_texture_data(raw, t.dimensions.voxel_count())
}

/// Loading the same raw stream and metadata twice yields byte-identical
/// texture data: the result is a function of the inputs alone.
pub proof fn lemma_raw_round_trip(t1: Texture, t2: Texture, raw: Seq<u8>, meta: Seq<char>)
    requires
        is_raw_load(t1, raw, meta),
        is_raw_load(t2, raw, meta),
    ensures
        t1.texture_data@ == t2.texture_data@,
        t1.dimensions == t2.dimensions,
{
}

/// Masking to the low 12 bits is reduction modulo 4096.
proof fn lemma_mask_low12(v: u16)
    ensures
        (v & 0x0FFF) == v % 4096,
{
    assert((v & 0x0FFF) == v % 4096) by (bit_vector);
}

// ---------------------------------------------------------------------------
// DICOM-series reader, compute half: decoded slices are stacked along the
// depth axis and normalized. Decoding the files themselves is I/O and an
// external codec's work, and stays outside the library.
// ---------------------------------------------------------------------------
/// One decoded slice, normalized sample by sample.
pub open spec fn normalized_slice(samples: Seq<u16>) -> Seq<u8> {
    Seq::new(samples.len(), |i: int| hu_to_byte(samples[i] as int) as u8)
}

/// All slices, normalized and laid end to end, first slice first.
pub open spec fn stacked(slices: Seq<Seq<u16>>) -> Seq<u8>
    decreases slices.len(),
{
    if slices.len() == 0 {
        Seq::empty()
    } else {
        stacked(slices.drop_last()) + normalized_slice(slices.last())
    }
}

/// Stacking slices of equal sample count multiplies, not merely bounds,
/// the total length.
proof fn lemma_stacked_len(slices: Seq<Seq<u16>>, plane: int)
    requires
        forall|i: int| 0 <= i < slices.len() ==> (#[trigger] slices[i]).len() == plane,
    ensures
        stacked(slices).len() == plane * slices.len(),
    decreases slices.len(),
{
    if slices.len() == 0 {
        assert(plane * 0 == 0) by (nonlinear_arith);
    } else {
        lemma_stacked_len(slices.drop_last(), plane);
        assert(plane * (slices.len() - 1) + plane == plane * slices.len()) by (nonlinear_arith);
    }
}

impl Volume {
    /// Decodes a raw little-endian `u16` sample stream under the given
    /// metadata text. The metadata must parse to positive dimensions
    /// (otherwise: format error), and the stream must hold at least
    /// `width * height * depth` samples (otherwise: I/O error); samples
    /// beyond that count are ignored.
    pub fn read_raw(raw_data: &[u8], meta_data: &str) -> (r: Result<Texture, VolumeError>)
        ensures
            match dim_of_meta(meta_data@) {
                None => r == Err::<Texture, VolumeError>(VolumeError::Format),
                Some(dim) => {
                    if 2 * dim.voxel_count() <= raw_data@.len() {
                        &&& r is Ok
                        &&& r->Ok_0.dimensions == dim
                        &&& is_raw_load(r->Ok_0, raw_data@, meta_data@)
                        &&& r->Ok_0.wf()
                    } else {
                        r == Err::<Texture, VolumeError>(VolumeError::Io)
                    }
                },
            },
    {
        let len = raw_data.len();
        let dim = match Volume::parse_meta_data_dim(meta_data) {
            Ok(d) => d,
            Err(_) => {
                return Err(VolumeError::Format);
            },
        };
        let w = dim.width as usize;
        let h = dim.height as usize;
        let d = dim.depth as usize;
        let plane = match w.checked_mul(h) {
            Some(p) => p,
            None => {
                proof {
                    assert(w as int * h as int * d as int >= w as int * h as int)
                        by (nonlinear_arith)
                        requires
                            w as int * h as int >= 0,
                            d >= 1,
                    ;
                }
                return Err(VolumeError::Io);
            },
        };
        let total = match plane.checked_mul(d) {
            Some(t) => t,
            None => {
                proof {
                    assert(w as int * h as int * d as int == plane as int * d as int)
                        by (nonlinear_arith)
                        requires
                            plane == w * h,
                    ;
                }
                return Err(VolumeError::Io);
            },
        };
        let nbytes = match total.checked_mul(2) {
            Some(n) => n,
            None => {
                return Err(VolumeError::Io);
            },
        };
        if len < nbytes {
            return Err(VolumeError::Io);
        }
        let mut out: Vec<u8> = Vec::new();
        let mut i: usize = 0;
        while i < total
            invariant
                i <= total,
                out@.len() == i,
                2 * total <= usize::MAX,
                2 * total <= raw_data@.len(),
                forall|m: int| 0 <= m < i ==> out@[m] == raw_byte(raw_data@, m),
            decreases total - i,
        {
            let b0 = raw_data[2 * i];
            let b1 = raw_data[2 * i + 1];
            let sample: u16 = (b0 as u16) + 256 * (b1 as u16);
            let masked = sample & 0x0FFF;
            proof {
                lemma_mask_low12(sample);
            }
            let byte = Volume::normalize_hounsfield_units(masked);
            out.push(byte);
            i += 1;
        }
        proof {
            assert forall|m: int| 0 <= m < total implies out@[m] == raw_texture_data(
                raw_data@,
                total as int,
            )[m] by {
                lemma_hu_to_byte_in_range(raw_sample(raw_data@, m) % 4096);
            }
            assert(out@ =~= raw_texture_data(raw_data@, total as int));
        }
        Ok(Texture { texture_data: out, dimensions: dim })
    }

    /// Stacks decoded slices of `width * height` samples each along the
    /// depth axis, normalizing every sample, and shapes the result as a
    /// texture of depth `slices.len()`. Slices whose sample count
    /// disagrees with the in-plane size are a fatal dimension error.
    pub fn stack_slices(slices: &Vec<Vec<u16>>, width: u32, height: u32) -> (r: Result<
        Texture,
        VolumeError,
    >)
        ensures
            r is Ok <==> {
                &&& width > 0
                &&& height > 0
                &&& 1 <= slices@.len() <= u32::MAX
                &&& width * height * slices@.len() <= usize::MAX
                &&& forall|i: int|
                    0 <= i < slices@.len() ==> (#[trigger] slices@[i])@.len() == width * height
            },
            r matches Ok(t) ==> {
                &&& t.dimensions == (Dim { width, height, depth: slices@.len() as u32 })
                &&& t.texture_data@ == stacked(slices.deep_view())
                &&& t.wf()
            },
            r is Err ==> r == Err::<Texture, VolumeError>(VolumeError::DimensionMismatch),
    {
        let depth = slices.len();
        if width == 0 || height == 0 || depth == 0 {
            return Err(VolumeError::DimensionMismatch);
        }
        if depth > u32::MAX as usize {
            return Err(VolumeError::DimensionMismatch);
        }
        let w = width as usize;
        let h = height as usize;
        let plane = match w.checked_mul(h) {
            Some(p) => p,
            None => {
                proof {
                    assert(w as int * h as int * slices@.len() >= w as int * h as int)
                        by (nonlinear_arith)
                        requires
                            w as int * h as int >= 0,
                            slices@.len() >= 1,
                    ;
                }
                return Err(VolumeError::DimensionMismatch);
            },
        };
        let total = match plane.checked_mul(depth) {
            Some(t) => t,
            None => {
                proof {
                    assert(w as int * h as int * slices@.len() == plane as int * slices@.len())
                        by (nonlinear_arith)
                        requires
                            plane == w * h,
                    ;
                }
                return Err(VolumeError::DimensionMismatch);
            },
        };
        let ghost sv = slices.deep_view();
        let mut out: Vec<u8> = Vec::new();
        let mut z: usize = 0;
        while z < depth
            invariant
                z <= depth,
                depth == slices@.len(),
                sv == slices.deep_view(),
                plane == width * height,
                out@ == stacked(sv.take(z as int)),
                forall|i: int| 0 <= i < z ==> (#[trigger] slices@[i])@.len() == plane,
            decreases depth - z,
        {
            let slice = &slices[z];
            if slice.len() != plane {
                proof {
                    assert(slices@[z as int]@.len() != width * height);
                }
                return Err(VolumeError::DimensionMismatch);
            }
            let mut i: usize = 0;
            proof {
                assert(sv[z as int] == slices@[z as int]@);
                assert(normalized_slice(sv[z as int].take(0)) =~= Seq::<u8>::empty());
                assert(out@ =~= stacked(sv.take(z as int)) + normalized_slice(
                    sv[z as int].take(0),
                ));
            }
            while i < plane
                invariant
                    i <= plane,
                    z < depth,
                    depth == slices@.len(),
                    sv == slices.deep_view(),
                    sv[z as int] == slices@[z as int]@,
                    slices@[z as int]@.len() == plane,
                    out@ == stacked(sv.take(z as int)) + normalized_slice(
                        sv[z as int].take(i as int),
                    ),
                decreases plane - i,
            {
                let value = slices[z][i];
                let byte = Volume::normalize_hounsfield_units(value);
                out.push(byte);
                proof {
                    lemma_hu_to_byte_in_range(value as int);
                    assert(normalized_slice(sv[z as int].take(i + 1)) =~= normalized_slice(
                        sv[z as int].take(i as int),
                    ).push(byte));
                    assert(out@ =~= stacked(sv.take(z as int)) + normalized_slice(
                        sv[z as int].take(i + 1),
                    ));
                }
                i += 1;
            }
            proof {
                assert(sv[z as int].take(plane as int) =~= sv[z as int]);
                assert(sv.take(z + 1).drop_last() =~= sv.take(z as int));
                assert(sv.take(z + 1).last() == sv[z as int]);
                assert(out@ == stacked(sv.take(z + 1)));
            }
            z += 1;
        }
        proof {
            assert(sv.take(depth as int) =~= sv);
            assert forall|i: int| 0 <= i < slices@.len() implies (#[trigger] slices@[i])@.len()
                == width * height by {
            }
            lemma_stacked_len(sv, plane as int);
            assert(sv.len() == slices@.len());
        }
        let texture = Texture {
            texture_data: out,
            dimensions: Dim { width, height, depth: depth as u32 },
        };
        proof {
            assert(texture.dimensions.voxel_count() == plane as int * depth as int)
                by (nonlinear_arith)
                requires
                    plane == texture.dimensions.width * texture.dimensions.height,
                    depth == texture.dimensions.depth,
            ;
        }
        Ok(texture)
    }
}

} // verus!
