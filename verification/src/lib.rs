//! Core of a volumetric medical-scan viewer: format readers that normalize
//! heterogeneous scan data into one canonical 3-D intensity texture, the
//! volume store with its intensity histogram, and the orbit-camera model
//! that derives the per-frame parameters a GPU ray marcher consumes.

pub mod camera;
pub mod error;
pub mod histogram;
pub mod hounsfield;
pub mod meta;
pub mod reader;
pub mod shader;
pub mod volume;
