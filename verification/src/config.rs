//! The description from which a disk is opened.
use vstd::prelude::*;

use crate::error::{self, invalid_spec, BlockError, BlockErrorView};
use crate::model::SECTOR_SIZE;
use crate::overlay::SPEC_VERSION;
use crate::run::BlockRun;
use crate::text::{self, decimal};

verus! {

/// Bytes per block of a spec that does not say.
pub const DEFAULT_BLOCK_SIZE: u64 = 4096;

/// Bytes per block of a spec that does not say.
pub fn default_block_size() -> (r: u64)
    ensures
        r == DEFAULT_BLOCK_SIZE,
{
    DEFAULT_BLOCK_SIZE
}

/// A disk: its size, and the files it is put together from.
#[derive(Clone, Debug)]
pub struct TensorlakeRootfsSpec {
    pub version: u32,
    pub logical_size: u64,
    pub block_size: u64,
    pub base_path: String,
    pub live_overlay_path: String,
    pub live_index_path: Option<String>,
    /// Oldest layer first.
    pub layers: Vec<TensorlakeLayerSpec>,
}

/// A committed layer of a disk.
#[derive(Clone, Debug)]
pub struct TensorlakeLayerSpec {
    pub path: String,
    pub dirty_runs: Vec<BlockRun>,
    pub zero_runs: Vec<BlockRun>,
}

impl TensorlakeRootfsSpec {
    /// Why the spec at `path` is refused.
    pub open spec fn fault(self, path: Seq<char>) -> Option<BlockErrorView> {
        if self.version != SPEC_VERSION {
            Some(
                error::invalid_spec_error(
                    path,
                    "unsupported Tensorlake rootfs spec version "@ + text::decimal_chars(
                        self.version as nat,
                    ) + ", expected "@ + text::decimal_chars(SPEC_VERSION as nat),
                ),
            )
        } else if self.logical_size == 0 {
            Some(error::invalid_spec_error(path, "logical_size must be greater than zero"@))
        } else if self.block_size == 0 || self.block_size % SECTOR_SIZE != 0 {
            Some(
                error::invalid_spec_error(
                    path,
                    "block_size must be a non-zero multiple of "@ + text::decimal_chars(
                        SECTOR_SIZE as nat,
                    ) + ", got "@ + text::decimal_chars(self.block_size as nat),
                ),
            )
        } else {
            None
        }
    }
}

/// Refuses a spec of another version, of an empty disk, or whose blocks are not whole sectors.
pub fn validate_spec(spec: &TensorlakeRootfsSpec, spec_path: &str) -> (r: Result<(), BlockError>)
    ensures
        error::reports(r, spec.fault(spec_path@)),
{
    if spec.version != SPEC_VERSION {
        let mut message = "unsupported Tensorlake rootfs spec version ".to_owned();
        message.append(decimal(spec.version as u64).as_str());
        message.append(", expected ");
        message.append(decimal(SPEC_VERSION as u64).as_str());
        return Err(invalid_spec(spec_path, message));
    }
    if spec.logical_size == 0 {
        return Err(
            invalid_spec(spec_path, "logical_size must be greater than zero".to_owned()),
        );
    }
    if spec.block_size == 0 || spec.block_size % SECTOR_SIZE != 0 {
        let mut message = "block_size must be a non-zero multiple of ".to_owned();
        message.append(decimal(SECTOR_SIZE).as_str());
        message.append(", got ");
        message.append(decimal(spec.block_size).as_str());
        return Err(invalid_spec(spec_path, message));
    }
    Ok(())
}

/// A spec is accepted exactly when it is of version 1, describes a disk that is not empty, and its
/// blocks are one or more whole sectors of 512 bytes.
pub proof fn law_spec_accepted(spec: TensorlakeRootfsSpec, path: Seq<char>)
    ensures
        spec.fault(path) is None <==> spec.version == 1 && spec.logical_size > 0 && spec.block_size
            > 0 && spec.block_size % 512 == 0,
        spec.fault(path) matches Some(fault) ==> fault.kind is InvalidFormat && fault.path == Some(
            path,
        ) && fault.message is Some,
        spec.version == 1 && spec.logical_size == 0 ==> spec.fault(path)->0.message == Some(
            "logical_size must be greater than zero"@,
        ),
{
}

/// Whether a spec is accepted does not depend on where it lies, nor on its files and layers.
pub proof fn law_spec_accepted_by_numbers(
    a: TensorlakeRootfsSpec,
    a_path: Seq<char>,
    b: TensorlakeRootfsSpec,
    b_path: Seq<char>,
)
    requires
        a.version == b.version,
        a.logical_size == b.logical_size,
        a.block_size == b.block_size,
    ensures
        a.fault(a_path) is None <==> b.fault(b_path) is None,
{
}

/// A spec of version 1 that gives only a size gets blocks of 4096 bytes, and is accepted.
pub proof fn law_default_block_size_accepted(spec: TensorlakeRootfsSpec, path: Seq<char>)
    requires
        spec.version == 1,
        spec.logical_size > 0,
        spec.block_size == DEFAULT_BLOCK_SIZE,
    ensures
        spec.block_size == 4096,
        spec.fault(path) is None,
{
}

/// A spec that is refused is refused for the first thing that is wrong with it, in the order of
/// version, size and block size, and the message tells the number that was given.
pub proof fn law_spec_refused(spec: TensorlakeRootfsSpec, path: Seq<char>)
    ensures
        spec.version != 1 ==> spec.fault(path)->0.message == Some(
            "unsupported Tensorlake rootfs spec version "@ + text::decimal_chars(
                spec.version as nat,
            ) + ", expected "@ + text::decimal_chars(1),
        ),
        spec.version == 1 && spec.logical_size > 0 && (spec.block_size == 0 || spec.block_size % 512
            != 0) ==> spec.fault(path)->0.message == Some(
            "block_size must be a non-zero multiple of "@ + text::decimal_chars(512) + ", got "@
                + text::decimal_chars(spec.block_size as nat),
        ),
{
}

} // verus!
