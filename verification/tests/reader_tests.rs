use medraycast::error::VolumeError;
use medraycast::volume::Dim;
use medraycast::volume::Volume;

#[test]
fn test_read_raw_small_volume() {
    // 2 x 2 x 1 voxels, little-endian u16 samples.
    let meta = "NDims = 3\nDimSize = 2 2 1\nElementSpacing = 1.0 1.0 1.0";
    let raw: Vec<u8> = vec![
        0x00, 0x00, // 0      -> 0
        0xFF, 0x0F, // 4095   -> 255
        0xFF, 0x07, // 2047   -> 127
        0x00, 0x10, // 4096, masked to 0 -> 0
    ];
    let texture = Volume::read_raw(&raw, meta).unwrap();
    assert_eq!(
        texture.dimensions,
        Dim {
            width: 2,
            height: 2,
            depth: 1
        }
    );
    assert_eq!(texture.texture_data, vec![0, 255, 127, 0]);
}

#[test]
fn test_read_raw_ignores_trailing_bytes() {
    let meta = "DimSize = 1 1 1";
    let raw: Vec<u8> = vec![0xFF, 0x0F, 0xAB, 0xCD];
    let texture = Volume::read_raw(&raw, meta).unwrap();
    assert_eq!(texture.texture_data, vec![255]);
}

#[test]
fn test_read_raw_short_stream_is_io_error() {
    let meta = "DimSize = 2 2 2";
    let raw: Vec<u8> = vec![0x00; 15]; // needs 16 bytes
    assert!(matches!(Volume::read_raw(&raw, meta), Err(VolumeError::Io)));
}

#[test]
fn test_read_raw_bad_metadata_is_format_error() {
    let raw: Vec<u8> = vec![0x00; 8];
    assert!(matches!(
        Volume::read_raw(&raw, "NDims = 3"),
        Err(VolumeError::Format)
    ));
}

#[test]
fn test_read_raw_round_trip_identical() {
    let meta = "DimSize = 2 1 2";
    let raw: Vec<u8> = vec![0x10, 0x00, 0x20, 0x01, 0x30, 0x02, 0x40, 0x03];
    let first = Volume::read_raw(&raw, meta).unwrap();
    let second = Volume::read_raw(&raw, meta).unwrap();
    assert_eq!(first.texture_data, second.texture_data);
    assert_eq!(first.dimensions, second.dimensions);
}

#[test]
fn test_stack_slices_small_volume() {
    let slices: Vec<Vec<u16>> = vec![vec![0, 4095, 2047, 100], vec![4095, 0, 50, 2047]];
    let texture = Volume::stack_slices(&slices, 2, 2).unwrap();
    assert_eq!(
        texture.dimensions,
        Dim {
            width: 2,
            height: 2,
            depth: 2
        }
    );
    assert_eq!(
        texture.texture_data,
        vec![0, 255, 127, 6, 255, 0, 3, 127]
    );
}

#[test]
fn test_stack_slices_rejects_misshapen_slice() {
    let slices: Vec<Vec<u16>> = vec![vec![0, 1, 2, 3], vec![4, 5, 6]];
    assert!(matches!(
        Volume::stack_slices(&slices, 2, 2),
        Err(VolumeError::DimensionMismatch)
    ));
    let empty: Vec<Vec<u16>> = vec![];
    assert!(matches!(
        Volume::stack_slices(&empty, 2, 2),
        Err(VolumeError::DimensionMismatch)
    ));
    assert!(matches!(
        Volume::stack_slices(&vec![vec![0, 1]], 0, 2),
        Err(VolumeError::DimensionMismatch)
    ));
}
