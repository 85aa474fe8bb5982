use medraycast::error::VolumeError;
use medraycast::volume::Dim;
use medraycast::volume::Texture;
use medraycast::volume::Volume;

#[test]
fn test_hounsfield_normalization() {
    let input: Vec<u16> = vec![4095, 0, 2047];
    let expected: Vec<u8> = vec![255, 0, 127];
    let result: Vec<u8> = input
        .iter()
        .map(|&x| Volume::normalize_hounsfield_units(x))
        .collect();

    assert_eq!(expected, result);
}

#[test]
fn test_hounsfield_clamps_above_range() {
    assert_eq!(Volume::normalize_hounsfield_units(4096), 255);
    assert_eq!(Volume::normalize_hounsfield_units(u16::MAX), 255);
    assert_eq!(Volume::normalize_hounsfield_units(1), 0);
    assert_eq!(Volume::normalize_hounsfield_units(16), 0);
    assert_eq!(Volume::normalize_hounsfield_units(17), 1);
}

#[test]
fn test_parse_dim() {
    let input = "NDims = 3\nDimSize = 512 512 333\nElementSpacing = 0.402344 0.402344 0.899994";
    let expected = Dim {
        width: 512,
        height: 512,
        depth: 333,
    };
    let result = Volume::parse_meta_data_dim(input).unwrap();

    assert_eq!(expected, result);
}

#[test]
fn test_parse_dim_unknown_keys_ignored() {
    let input = "Comment = hello\nDimSize = 4 5 6\nTrailer = x";
    let expected = Dim {
        width: 4,
        height: 5,
        depth: 6,
    };
    assert_eq!(expected, Volume::parse_meta_data_dim(input).unwrap());
}

#[test]
fn test_parse_dim_last_dimsize_wins() {
    let input = "DimSize = 1 1 1\nDimSize = 7 8 9";
    let expected = Dim {
        width: 7,
        height: 8,
        depth: 9,
    };
    assert_eq!(expected, Volume::parse_meta_data_dim(input).unwrap());
}

#[test]
fn test_parse_dim_crlf_lines() {
    let input = "NDims = 3\r\nDimSize = 512 512 333\r\nElementSpacing = 0.4 0.4 0.9\r\n";
    let expected = Dim {
        width: 512,
        height: 512,
        depth: 333,
    };
    assert_eq!(expected, Volume::parse_meta_data_dim(input).unwrap());
}

#[test]
fn test_parse_dim_missing_dimsize_is_error() {
    let input = "NDims = 3\nElementSpacing = 1 1 1";
    assert_eq!(
        Volume::parse_meta_data_dim(input),
        Err(VolumeError::Format)
    );
}

#[test]
fn test_parse_dim_malformed_values_are_errors() {
    assert_eq!(
        Volume::parse_meta_data_dim("DimSize = 512 512"),
        Err(VolumeError::Format)
    );
    assert_eq!(
        Volume::parse_meta_data_dim("DimSize = 512 512 a"),
        Err(VolumeError::Format)
    );
    assert_eq!(
        Volume::parse_meta_data_dim("DimSize = 1 2 3 4"),
        Err(VolumeError::Format)
    );
    assert_eq!(
        Volume::parse_meta_data_dim("NDims = x\nDimSize = 1 2 3"),
        Err(VolumeError::Format)
    );
    assert_eq!(
        Volume::parse_meta_data_dim("DimSize"),
        Err(VolumeError::Format)
    );
    assert_eq!(
        Volume::parse_meta_data_dim("DimSize = 0 2 3"),
        Err(VolumeError::Format)
    );
    assert_eq!(
        Volume::parse_meta_data_dim("DimSize = 5000000000 1 1"),
        Err(VolumeError::Format)
    );
}

#[test]
fn test_histogram_calculation() {
    let input: Vec<u8> = vec![0, 0, 0, 128, 128, 128, 255, 255, 255];
    let mut expected: Vec<u64> = vec![0; 256];
    expected[0] = 3;
    expected[128] = 3;
    expected[255] = 3;
    let result = Volume::calculate_histogram(&input);

    assert_eq!(expected, result);
}

#[test]
fn test_histogram_sums_to_length() {
    let input: Vec<u8> = (0..=255).cycle().take(1000).collect();
    let histogram = Volume::calculate_histogram(&input);
    let total: u64 = histogram.iter().sum();
    assert_eq!(total, input.len() as u64);
}

#[test]
fn test_histogram_of_concatenation_is_binwise_sum() {
    let first: Vec<u8> = vec![1, 2, 2, 3, 255];
    let second: Vec<u8> = vec![2, 3, 0, 255, 255];
    let mut joined = first.clone();
    joined.extend_from_slice(&second);

    let histogram_first = Volume::calculate_histogram(&first);
    let histogram_second = Volume::calculate_histogram(&second);
    let histogram_joined = Volume::calculate_histogram(&joined);
    for v in 0..256 {
        assert_eq!(histogram_joined[v], histogram_first[v] + histogram_second[v]);
    }
}

#[test]
fn test_texture_new_checks_shape() {
    let dim = Dim {
        width: 2,
        height: 3,
        depth: 4,
    };
    let texture = Texture::new(vec![7; 24], dim).unwrap();
    assert_eq!(texture.dimensions, dim);
    assert_eq!(texture.texture_data.len(), 24);

    assert!(matches!(
        Texture::new(vec![7; 23], dim),
        Err(VolumeError::DimensionMismatch)
    ));
    let zero = Dim {
        width: 0,
        height: 3,
        depth: 4,
    };
    assert!(matches!(
        Texture::new(vec![], zero),
        Err(VolumeError::DimensionMismatch)
    ));
}

#[test]
fn test_volume_mesh_constants() {
    let dim = Dim {
        width: 1,
        height: 1,
        depth: 2,
    };
    let texture = Texture::new(vec![10, 200], dim).unwrap();
    let volume = Volume::new(texture);

    let expected_vertices: [i32; 24] = [
        -1, -1, 1, 1, -1, 1, 1, 1, 1, -1, 1, 1, -1, -1, -1, 1, -1, -1, 1, 1, -1, -1, 1, -1,
    ];
    let expected_indices: [u32; 36] = [
        0, 1, 2, 0, 2, 3, 1, 5, 6, 1, 6, 2, 5, 4, 7, 5, 7, 6, 4, 0, 3, 4, 3, 7, 2, 6, 7, 2, 7, 3,
        4, 5, 1, 4, 1, 0,
    ];
    assert_eq!(volume.vertex_data, expected_vertices);
    assert_eq!(volume.indices, expected_indices);
    assert_eq!(volume.histogram[10], 1);
    assert_eq!(volume.histogram[200], 1);
    assert_eq!(volume.histogram.iter().sum::<u64>(), 2);
}
