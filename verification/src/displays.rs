//! Bindings of the driver's interfaces to particular boards.

pub mod lilygo_t4_s3;
