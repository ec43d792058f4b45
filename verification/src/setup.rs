//! The decisions of device creation: which physical device, which queues,
//! which depth-stencil format.
use vstd::prelude::*;

verus! {

/// `VK_FORMAT_D24_UNORM_S8_UINT`.
pub const FORMAT_D24_UNORM_S8_UINT: i32 = 129;

/// `VK_FORMAT_D32_SFLOAT_S8_UINT`.
pub const FORMAT_D32_SFLOAT_S8_UINT: i32 = 130;

/// `VK_FORMAT_FEATURE_DEPTH_STENCIL_ATTACHMENT_BIT`.
pub const FEATURE_DEPTH_STENCIL_ATTACHMENT: u32 = 0x200;

/// Why a device could not be set up.
#[derive(Clone, Copy, Debug, PartialEq, Eq, Structural)]
pub enum SetupError {
    /// There is no eligible physical device at this index.
    NoDeviceAtIndex(usize),
    /// No depth-stencil format can be rendered to with optimal tiling.
    UnsupportedFeature,
}

/// The eligible physical device at `index`, among `count`.
pub fn choose_physical_device(count: usize, index: usize) -> (r: Result<usize, SetupError>)
    ensures
        r == (if index < count {
            Ok::<usize, SetupError>(index)
        } else {
            Err::<usize, SetupError>(SetupError::NoDeviceAtIndex(index))
        }),
{
    if index < count {
        Ok(index)
    } else {
        Err(SetupError::NoDeviceAtIndex(index))
    }
}

/// The format supports depth-stencil attachments with optimal tiling.
pub open spec fn supports_depth_stencil(optimal_tiling_features: u32) -> bool {
    optimal_tiling_features & FEATURE_DEPTH_STENCIL_ATTACHMENT != 0
}

/// The depth-stencil format: D24S8 when the device can render to it,
/// otherwise D32S8, otherwise none; given each format's optimal tiling
/// features.
pub fn choose_depth_stencil_format(d24s8_features: u32, d32s8_features: u32) -> (r: Result<i32, SetupError>)
    ensures
        r == (if supports_depth_stencil(d24s8_features) {
            Ok::<i32, SetupError>(FORMAT_D24_UNORM_S8_UINT)
        } else if supports_depth_stencil(d32s8_features) {
            Ok::<i32, SetupError>(FORMAT_D32_SFLOAT_S8_UINT)
        } else {
            Err::<i32, SetupError>(SetupError::UnsupportedFeature)
        }),
{
    if d24s8_features & FEATURE_DEPTH_STENCIL_ATTACHMENT != 0 {
        Ok(FORMAT_D24_UNORM_S8_UINT)
    } else if d32s8_features & FEATURE_DEPTH_STENCIL_ATTACHMENT != 0 {
        Ok(FORMAT_D32_SFLOAT_S8_UINT)
    } else {
        Err(SetupError::UnsupportedFeature)
    }
}

/// The queue families to create a queue in: every family of the device,
/// in order.
pub fn queue_create_families(family_count: u32) -> (r: Vec<u32>)
    ensures
        r@.len() == family_count,
        forall|i: int| 0 <= i < family_count ==> #[trigger] r@[i] == i,
{
    let mut r: Vec<u32> = Vec::new();
    let mut i: u32 = 0;
    while i < family_count
        invariant
            0 <= i <= family_count,
            r@.len() == i,
            forall|j: int| 0 <= j < i ==> #[trigger] r@[j] == j,
        decreases family_count - i,
    {
        r.push(i);
        i = i + 1;
    }
    r
}

} // verus!
