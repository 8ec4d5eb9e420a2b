//! HDR metadata that the layer keeps and passes on.

use vstd::prelude::*;

use crate::seqs::copy_slice;
use crate::vk::Handle;

verus! {

/// A chromaticity. Each coordinate is the bit pattern of a 32-bit float,
/// which is passed on as it came.
#[derive(Debug, Clone, Copy, PartialEq, Eq, Structural)]
pub struct OwnedXy {
    pub x: u32,
    pub y: u32,
}

/// HDR metadata without the application's pointers. Each number is the bit
/// pattern of a 32-bit float.
#[derive(Debug, Clone, Copy, PartialEq, Eq, Structural)]
pub struct OwnedHdrMetadata {
    pub display_primary_red: OwnedXy,
    pub display_primary_green: OwnedXy,
    pub display_primary_blue: OwnedXy,
    pub white_point: OwnedXy,
    pub max_luminance: u32,
    pub min_luminance: u32,
    pub max_content_light_level: u32,
    pub max_frame_average_light_level: u32,
}

#[derive(Debug, Clone, Copy, PartialEq, Eq, Structural)]
pub enum MetadataArrayError {
    NullSwapchains,
    NullMetadata,
    CountMismatch,
}

/// Checks the arrays of a metadata command before they are read.
pub fn validate_metadata_inputs(count: u32, has_swapchains: bool, has_metadata: bool) -> (result:
    Result<(), MetadataArrayError>)
    ensures
        match result {
            Ok(_) => count == 0 || (has_swapchains && has_metadata),
            Err(MetadataArrayError::NullSwapchains) => count != 0 && !has_swapchains,
            Err(MetadataArrayError::NullMetadata) => count != 0 && has_swapchains && !has_metadata,
            Err(MetadataArrayError::CountMismatch) => false,
        },
{
    if count == 0 {
        return Ok(());
    }
    if !has_swapchains {
        return Err(MetadataArrayError::NullSwapchains);
    }
    if !has_metadata {
        return Err(MetadataArrayError::NullMetadata);
    }
    Ok(())
}

/// The downstream call for a metadata command: the downstream swapchains and
/// the metadata, item by item as the application named them.
pub fn with_metadata_array(
    logical: &[Handle],
    physical: &[Handle],
    metadata: &[OwnedHdrMetadata],
) -> (result: Result<(Vec<Handle>, Vec<OwnedHdrMetadata>), MetadataArrayError>)
    ensures
        match result {
            Ok((swapchains, rebuilt)) => {
                &&& logical@.len() == physical@.len()
                &&& physical@.len() == metadata@.len()
                &&& swapchains@ == physical@
                &&& rebuilt@ == metadata@
            },
            Err(error) => {
                &&& !(logical@.len() == physical@.len() && physical@.len() == metadata@.len())
                &&& error == MetadataArrayError::CountMismatch
            },
        },
{
    if logical.len() != physical.len() || physical.len() != metadata.len() {
        return Err(MetadataArrayError::CountMismatch);
    }
    Ok((copy_slice(physical), copy_slice(metadata)))
}

} // verus!
