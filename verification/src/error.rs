use vstd::prelude::*;

verus! {

/// Error taxonomy of the volume-loading pipeline. Loading is fail-fast:
/// any of these aborts the load entirely, with no partial volume.
#[derive(Clone, Copy, Debug, PartialEq, Eq, Structural)]
pub enum VolumeError {
    /// A file or directory could not be read, or held fewer samples than
    /// the declared dimensions require.
    Io,
    /// Metadata could not be parsed, or an unsupported texture-data
    /// variant was encountered.
    Format,
    /// The decoded byte count does not equal `width * height * depth`,
    /// or a dimension is zero.
    DimensionMismatch,
    /// The external pixel codec failed to decode a slice.
    Codec,
}

} // verus!
