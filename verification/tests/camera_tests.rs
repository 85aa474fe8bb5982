use medraycast::camera::Camera;
use medraycast::camera::RotationTrig;
use medraycast::camera::Vec3;
use medraycast::camera::FX_ONE;

fn fx(units: f64) -> i64 {
    (units * FX_ONE as f64).round() as i64
}

#[test]
fn test_zero_rotation_keeps_location() {
    // location (0, 0, -2.5), rotation (0, 0, 0)
    let camera = Camera::new(
        Vec3 {
            x: 0,
            y: 0,
            z: fx(-2.5),
        },
        Vec3 { x: 0, y: 0, z: 0 },
        FX_ONE,
    );
    let cam_pos = camera.position(&RotationTrig::identity());
    assert_eq!(
        cam_pos,
        Vec3 {
            x: 0,
            y: 0,
            z: -163840
        }
    );
}

#[test]
fn test_rotation_x_90_degrees() {
    // location (0, 0, -1), rotation (90, 0, 0): camera ends up at (0, 1, 0).
    let camera = Camera::new(
        Vec3 {
            x: 0,
            y: 0,
            z: -FX_ONE,
        },
        Vec3 {
            x: 90 * FX_ONE,
            y: 0,
            z: 0,
        },
        FX_ONE,
    );
    let trig = RotationTrig {
        sin_x: FX_ONE,
        cos_x: 0,
        ..RotationTrig::identity()
    };
    let cam_pos = camera.position(&trig);
    assert_eq!(
        cam_pos,
        Vec3 {
            x: 0,
            y: FX_ONE,
            z: 0
        }
    );
}

#[test]
fn test_rotation_y_90_degrees() {
    // location (0, 0, -1), rotation (0, 90, 0): camera ends up at (-1, 0, 0).
    let camera = Camera::new(
        Vec3 {
            x: 0,
            y: 0,
            z: -FX_ONE,
        },
        Vec3 {
            x: 0,
            y: 90 * FX_ONE,
            z: 0,
        },
        FX_ONE,
    );
    let trig = RotationTrig {
        sin_y: FX_ONE,
        cos_y: 0,
        ..RotationTrig::identity()
    };
    let cam_pos = camera.position(&trig);
    assert_eq!(
        cam_pos,
        Vec3 {
            x: -FX_ONE,
            y: 0,
            z: 0
        }
    );
}

#[test]
fn test_up_vector_follows_rotation() {
    let camera = Camera::new(
        Vec3 { x: 0, y: 0, z: -FX_ONE },
        Vec3 { x: 0, y: 0, z: 0 },
        FX_ONE,
    );
    assert_eq!(
        camera.up(&RotationTrig::identity()),
        Vec3 {
            x: 0,
            y: FX_ONE,
            z: 0
        }
    );
    // 90 degrees about x tips the up vector toward +z.
    let trig = RotationTrig {
        sin_x: FX_ONE,
        cos_x: 0,
        ..RotationTrig::identity()
    };
    assert_eq!(
        camera.up(&trig),
        Vec3 {
            x: 0,
            y: 0,
            z: FX_ONE
        }
    );
}

#[test]
fn test_zoom_moves_z_by_delta_less_one() {
    let mut camera = Camera::new(
        Vec3 {
            x: 0,
            y: 0,
            z: fx(-2.5),
        },
        Vec3 { x: 0, y: 0, z: 0 },
        FX_ONE,
    );
    camera.zoom(FX_ONE + 100);
    assert_eq!(camera.location.z, fx(-2.5) + 100);
    camera.zoom(FX_ONE - 100);
    assert_eq!(camera.location.z, fx(-2.5));
}

#[test]
fn test_uniforms_order_thresholds() {
    let camera = Camera::new(
        Vec3 {
            x: 0,
            y: 0,
            z: -FX_ONE,
        },
        Vec3 { x: 0, y: 0, z: 0 },
        FX_ONE,
    );
    let trig = RotationTrig::identity();
    let uniforms = camera.calculate_uniforms(&trig, 30, 200);
    assert_eq!(uniforms.lower_threshold, 30);
    assert_eq!(uniforms.upper_threshold, 200);
    assert_eq!(uniforms.cam_pos, Vec3 { x: 0, y: 0, z: -FX_ONE });
    assert_eq!(uniforms.up, Vec3 { x: 0, y: FX_ONE, z: 0 });

    let reversed = camera.calculate_uniforms(&trig, 200, 30);
    assert_eq!(reversed.lower_threshold, 30);
    assert_eq!(reversed.upper_threshold, 200);
}

#[test]
fn test_set_aspect_ratio() {
    let mut camera = Camera::new(
        Vec3 { x: 0, y: 0, z: -FX_ONE },
        Vec3 { x: 0, y: 0, z: 0 },
        FX_ONE,
    );
    camera.set_aspect_ratio(fx(16.0 / 9.0));
    assert_eq!(camera.aspect_ratio, fx(16.0 / 9.0));
    assert_eq!(camera.location, Vec3 { x: 0, y: 0, z: -FX_ONE });
}
