//! Clipping of device buffers: what may be launched on them.
use crate::single::Single;
use vstd::prelude::*;

verus! {

/// The extent of a buffer on the device.
#[derive(Clone, Copy, Debug, PartialEq, Eq, Structural)]
pub struct Buffer {
    /// Values that the buffer holds.
    pub size: usize,
}

/// Why a device refuses an operation.
#[derive(Clone, Copy, Debug, PartialEq, Eq, Structural)]
pub enum DeviceError {
    /// The operation would reach past the end of a buffer.
    ExpectedIllegalAddressAccess,
}

/// A clipping kernel to launch: on the first `size` values, between `min` and `max`.
#[derive(Clone, Copy, Debug, PartialEq, Eq, Structural)]
pub struct ClipLaunch {
    pub size: usize,
    pub min: Single,
    pub max: Single,
}

/// The launch that clips the first `size` values of `input` into `output`, unless either buffer is
/// too short.
pub fn clip_assign(
    size: usize,
    input: &Buffer,
    output: &Buffer,
    min: Single,
    max: Single,
) -> (r: Result<ClipLaunch, DeviceError>)
    ensures
        r == if size <= input.size && size <= output.size {
            Ok::<ClipLaunch, DeviceError>(ClipLaunch { size, min, max })
        } else {
            Err::<ClipLaunch, DeviceError>(DeviceError::ExpectedIllegalAddressAccess)
        },
{
    if size > input.size || size > output.size {
        return Err(DeviceError::ExpectedIllegalAddressAccess);
    }
    Ok(ClipLaunch { size, min, max })
}

/// The launch that passes the first `size` gradients back through a clip, unless one of the
/// buffers is too short.
pub fn clip_backward(
    size: usize,
    input: &Buffer,
    output_grad: &Buffer,
    input_grad: &Buffer,
    min: Single,
    max: Single,
) -> (r: Result<ClipLaunch, DeviceError>)
    ensures
        r == if size <= input.size && size <= output_grad.size && size <= input_grad.size {
            Ok::<ClipLaunch, DeviceError>(ClipLaunch { size, min, max })
        } else {
            Err::<ClipLaunch, DeviceError>(DeviceError::ExpectedIllegalAddressAccess)
        },
{
    if size > input.size || size > output_grad.size || size > input_grad.size {
        return Err(DeviceError::ExpectedIllegalAddressAccess);
    }
    Ok(ClipLaunch { size, min, max })
}

} // verus!
