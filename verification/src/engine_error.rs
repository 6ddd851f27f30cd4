//! The failures that the engine reports.

use vstd::prelude::*;

verus! {

/// `wgpu::SurfaceError`, the failure of a swapchain texture acquisition.
/// The value is carried through unread.
#[verifier::external_type_specification]
#[verifier::external_body]
pub struct ExSurfaceError(wgpu::SurfaceError);

/// `image::ImageError`, the failure of a texture decode. The value is carried
/// through unread.
#[verifier::external_type_specification]
#[verifier::external_body]
pub struct ExImageError(image::ImageError);

/// `winit::error::OsError`, the failure of a window system call. The value is
/// carried through unread.
#[verifier::external_type_specification]
#[verifier::external_body]
pub struct ExOsError(winit::error::OsError);

/// `std::io::Error`. The value is carried through unread.
#[verifier::external_type_specification]
#[verifier::external_body]
pub struct ExIoError(std::io::Error);

/// Everything that can go wrong while the engine sets itself up, loads
/// resources or draws.
#[derive(Debug)]
pub enum EngineError {
    NoAdapters,
    RequestDeviceError,
    CreateSurfaceError,
    NoMatch,
    SurfaceError(wgpu::SurfaceError),
    ResourceMissing,
    IOError(std::io::Error),
    ImageError(image::ImageError),
    WinitOSError(winit::error::OsError),
}

} // verus!
