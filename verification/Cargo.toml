[package]
name = "medraycast"
version = "0.1.0"
edition = "2021"
publish = false

[dependencies]
dicom-object = "=0.10.0"
dicom-pixeldata = "=0.10.0"
three-d-asset = { version = "=0.10.0", features = ["vol"] }
