//! Block sizes recorded in every volume descriptor.

use vstd::prelude::*;

use crate::text::{decimal_text, push_decimal, push_text};

verus! {

/// Size that the first format requires of every block, in bytes.
pub const REQUIRED_BLOCK_BYTES: u32 = 4096;

/// Identifies one block-size setting in validation errors.
#[derive(Clone, Copy, Debug, PartialEq, Eq, Structural)]
pub enum BlockSizeSetting {
    /// Logical sector reported by the published block device.
    LogicalSector,

    /// Physical block reported by the published block device.
    PhysicalBlock,

    /// Minimum I/O size reported by the published block device.
    MinimumIo,

    /// Data block allocated and tracked by the storage engine.
    DataBlock,
}

impl BlockSizeSetting {
    /// Name shown in errors.
    pub open spec fn text(self) -> Seq<char> {
        match self {
            BlockSizeSetting::LogicalSector => "logical sector"@,
            BlockSizeSetting::PhysicalBlock => "physical block"@,
            BlockSizeSetting::MinimumIo => "minimum I/O"@,
            BlockSizeSetting::DataBlock => "stored data block"@,
        }
    }

    /// Returns the name shown in errors.
    pub fn name(self) -> (out: &'static str)
        ensures
            out@ == self.text(),
    {
        match self {
            BlockSizeSetting::LogicalSector => "logical sector",
            BlockSizeSetting::PhysicalBlock => "physical block",
            BlockSizeSetting::MinimumIo => "minimum I/O",
            BlockSizeSetting::DataBlock => "stored data block",
        }
    }
}

/// Rejects block sizes that the first format cannot use.
#[derive(Clone, Copy, Debug, PartialEq, Eq, Structural)]
pub enum BlockSizeError {
    /// One block size does not match the required 4 KiB size.
    Unsupported {
        /// Block-size setting that failed validation.
        setting: BlockSizeSetting,

        /// Size supplied by the caller or protocol message.
        actual_bytes: u32,

        /// Size required by the current format.
        required_bytes: u32,
    },
}

impl BlockSizeError {
    /// Text of the rejection.
    pub open spec fn text(self) -> Seq<char> {
        match self {
            BlockSizeError::Unsupported { setting, actual_bytes, required_bytes } => "unsupported "@
                + setting.text() + " size of "@ + decimal_text(actual_bytes as nat)
                + " bytes; this format requires "@ + decimal_text(required_bytes as nat)
                + " bytes"@,
        }
    }

    /// Returns the text of the rejection.
    pub fn message(&self) -> (out: String)
        ensures
            out@ == self.text(),
    {
        let mut out = String::new();
        match self {
            BlockSizeError::Unsupported { setting, actual_bytes, required_bytes } => {
                push_text(&mut out, "unsupported ");
                push_text(&mut out, setting.name());
                push_text(&mut out, " size of ");
                push_decimal(&mut out, *actual_bytes as u64);
                push_text(&mut out, " bytes; this format requires ");
                push_decimal(&mut out, *required_bytes as u64);
                push_text(&mut out, " bytes");
            },
        }
        proof { assert(out@ =~= self.text()); }
        out
    }
}

/// The first format rejects the size, or accepts it.
pub open spec fn size_error(setting: BlockSizeSetting, bytes: u32) -> Option<BlockSizeError> {
    if bytes == REQUIRED_BLOCK_BYTES {
        None
    } else {
        Some(
            BlockSizeError::Unsupported {
                setting,
                actual_bytes: bytes,
                required_bytes: REQUIRED_BLOCK_BYTES,
            },
        )
    }
}

/// Checks one block size against the first volume format.
pub fn validate_size(setting: BlockSizeSetting, bytes: u32) -> (out: Result<u32, BlockSizeError>)
    ensures
        match out {
            Ok(size) => size_error(setting, bytes) is None && size == bytes,
            Err(error) => size_error(setting, bytes) == Some(error),
        },
{
    if bytes != REQUIRED_BLOCK_BYTES {
        return Err(
            BlockSizeError::Unsupported {
                setting,
                actual_bytes: bytes,
                required_bytes: REQUIRED_BLOCK_BYTES,
            },
        );
    }
    Ok(bytes)
}

/// Logical sector size reported by the published block device.
#[derive(Clone, Copy, Debug, PartialEq, Eq, Structural)]
pub struct LogicalSectorSize(u32);

impl LogicalSectorSize {
    #[verifier::type_invariant]
    spec fn is_supported(self) -> bool {
        self.0 == REQUIRED_BLOCK_BYTES
    }

    /// Creates the logical-sector size supported by this format.
    pub fn new(bytes: u32) -> (out: Result<Self, BlockSizeError>)
        ensures
            match out {
                Ok(_) => size_error(BlockSizeSetting::LogicalSector, bytes) is None,
                Err(error) => size_error(BlockSizeSetting::LogicalSector, bytes) == Some(error),
            },
    {
        match validate_size(BlockSizeSetting::LogicalSector, bytes) {
            Ok(size) => Ok(LogicalSectorSize(size)),
            Err(error) => Err(error),
        }
    }

    /// Returns the logical-sector size in bytes.
    #[must_use]
    pub fn bytes(self) -> (out: u32)
        ensures
            out == REQUIRED_BLOCK_BYTES,
    {
        proof { use_type_invariant(&self); }
        self.0
    }
}

/// Physical block size reported by the published block device.
#[derive(Clone, Copy, Debug, PartialEq, Eq, Structural)]
pub struct PhysicalBlockSize(u32);

impl PhysicalBlockSize {
    #[verifier::type_invariant]
    spec fn is_supported(self) -> bool {
        self.0 == REQUIRED_BLOCK_BYTES
    }

    /// Creates the physical-block size supported by this format.
    pub fn new(bytes: u32) -> (out: Result<Self, BlockSizeError>)
        ensures
            match out {
                Ok(_) => size_error(BlockSizeSetting::PhysicalBlock, bytes) is None,
                Err(error) => size_error(BlockSizeSetting::PhysicalBlock, bytes) == Some(error),
            },
    {
        match validate_size(BlockSizeSetting::PhysicalBlock, bytes) {
            Ok(size) => Ok(PhysicalBlockSize(size)),
            Err(error) => Err(error),
        }
    }

    /// Returns the physical-block size in bytes.
    #[must_use]
    pub fn bytes(self) -> (out: u32)
        ensures
            out == REQUIRED_BLOCK_BYTES,
    {
        proof { use_type_invariant(&self); }
        self.0
    }
}

/// Minimum I/O size reported by the published block device.
#[derive(Clone, Copy, Debug, PartialEq, Eq, Structural)]
pub struct MinimumIoSize(u32);

impl MinimumIoSize {
    #[verifier::type_invariant]
    spec fn is_supported(self) -> bool {
        self.0 == REQUIRED_BLOCK_BYTES
    }

    /// Creates the minimum-I/O size supported by this format.
    pub fn new(bytes: u32) -> (out: Result<Self, BlockSizeError>)
        ensures
            match out {
                Ok(_) => size_error(BlockSizeSetting::MinimumIo, bytes) is None,
                Err(error) => size_error(BlockSizeSetting::MinimumIo, bytes) == Some(error),
            },
    {
        match validate_size(BlockSizeSetting::MinimumIo, bytes) {
            Ok(size) => Ok(MinimumIoSize(size)),
            Err(error) => Err(error),
        }
    }

    /// Returns the minimum-I/O size in bytes.
    #[must_use]
    pub fn bytes(self) -> (out: u32)
        ensures
            out == REQUIRED_BLOCK_BYTES,
    {
        proof { use_type_invariant(&self); }
        self.0
    }
}

/// Size of one data block allocated and tracked independently.
#[derive(Clone, Copy, Debug, PartialEq, Eq, Structural)]
pub struct DataBlockSize(u32);

impl DataBlockSize {
    #[verifier::type_invariant]
    spec fn is_supported(self) -> bool {
        self.0 == REQUIRED_BLOCK_BYTES
    }

    /// Creates the data-block size supported by this format.
    pub fn new(bytes: u32) -> (out: Result<Self, BlockSizeError>)
        ensures
            match out {
                Ok(_) => size_error(BlockSizeSetting::DataBlock, bytes) is None,
                Err(error) => size_error(BlockSizeSetting::DataBlock, bytes) == Some(error),
            },
    {
        match validate_size(BlockSizeSetting::DataBlock, bytes) {
            Ok(size) => Ok(DataBlockSize(size)),
            Err(error) => Err(error),
        }
    }

    /// Returns the stored data-block size in bytes.
    #[must_use]
    pub fn bytes(self) -> (out: u32)
        ensures
            out == REQUIRED_BLOCK_BYTES,
    {
        proof { use_type_invariant(&self); }
        self.0
    }
}

/// Block sizes recorded in every volume descriptor.
#[derive(Clone, Copy, Debug, PartialEq, Eq, Structural)]
pub struct VolumeBlockSizes {
    logical_sector: LogicalSectorSize,
    physical_block: PhysicalBlockSize,
    minimum_io: MinimumIoSize,
    data_block: DataBlockSize,
}

/// First of the four sizes that the format rejects.
pub open spec fn sizes_error(
    logical_sector_bytes: u32,
    physical_block_bytes: u32,
    minimum_io_bytes: u32,
    data_block_bytes: u32,
) -> Option<BlockSizeError> {
    if logical_sector_bytes != REQUIRED_BLOCK_BYTES {
        size_error(BlockSizeSetting::LogicalSector, logical_sector_bytes)
    } else if physical_block_bytes != REQUIRED_BLOCK_BYTES {
        size_error(BlockSizeSetting::PhysicalBlock, physical_block_bytes)
    } else if minimum_io_bytes != REQUIRED_BLOCK_BYTES {
        size_error(BlockSizeSetting::MinimumIo, minimum_io_bytes)
    } else {
        size_error(BlockSizeSetting::DataBlock, data_block_bytes)
    }
}

impl VolumeBlockSizes {
    /// The four 4 KiB sizes of the first format.
    pub closed spec fn required() -> Self {
        VolumeBlockSizes {
            logical_sector: LogicalSectorSize(REQUIRED_BLOCK_BYTES),
            physical_block: PhysicalBlockSize(REQUIRED_BLOCK_BYTES),
            minimum_io: MinimumIoSize(REQUIRED_BLOCK_BYTES),
            data_block: DataBlockSize(REQUIRED_BLOCK_BYTES),
        }
    }

    /// Validates and records every block size separately.
    pub fn new(
        logical_sector_bytes: u32,
        physical_block_bytes: u32,
        minimum_io_bytes: u32,
        data_block_bytes: u32,
    ) -> (out: Result<Self, BlockSizeError>)
        ensures
            match out {
                Ok(sizes) => sizes == Self::required() && sizes_error(
                    logical_sector_bytes,
                    physical_block_bytes,
                    minimum_io_bytes,
                    data_block_bytes,
                ) is None,
                Err(error) => sizes_error(
                    logical_sector_bytes,
                    physical_block_bytes,
                    minimum_io_bytes,
                    data_block_bytes,
                ) == Some(error),
            },
    {
        let logical_sector = match LogicalSectorSize::new(logical_sector_bytes) {
            Ok(size) => size,
            Err(error) => {
                return Err(error);
            },
        };
        let physical_block = match PhysicalBlockSize::new(physical_block_bytes) {
            Ok(size) => size,
            Err(error) => {
                return Err(error);
            },
        };
        let minimum_io = match MinimumIoSize::new(minimum_io_bytes) {
            Ok(size) => size,
            Err(error) => {
                return Err(error);
            },
        };
        let data_block = match DataBlockSize::new(data_block_bytes) {
            Ok(size) => size,
            Err(error) => {
                return Err(error);
            },
        };
        proof {
            use_type_invariant(&logical_sector);
            use_type_invariant(&physical_block);
            use_type_invariant(&minimum_io);
            use_type_invariant(&data_block);
        }
        Ok(VolumeBlockSizes { logical_sector, physical_block, minimum_io, data_block })
    }

    /// Returns the four 4 KiB sizes supported by the first format.
    #[must_use]
    pub fn supported() -> (out: Self)
        ensures
            out == Self::required(),
    {
        VolumeBlockSizes {
            logical_sector: LogicalSectorSize(REQUIRED_BLOCK_BYTES),
            physical_block: PhysicalBlockSize(REQUIRED_BLOCK_BYTES),
            minimum_io: MinimumIoSize(REQUIRED_BLOCK_BYTES),
            data_block: DataBlockSize(REQUIRED_BLOCK_BYTES),
        }
    }

    /// Recorded size of this setting.
    pub closed spec fn logical_sector_size(self) -> LogicalSectorSize {
        self.logical_sector
    }

    /// Returns the logical-sector size.
    #[must_use]
    pub fn logical_sector(self) -> (out: LogicalSectorSize)
        ensures
            out == self.logical_sector_size(),
    {
        self.logical_sector
    }

    /// Recorded size of this setting.
    pub closed spec fn physical_block_size(self) -> PhysicalBlockSize {
        self.physical_block
    }

    /// Returns the reported physical-block size.
    #[must_use]
    pub fn physical_block(self) -> (out: PhysicalBlockSize)
        ensures
            out == self.physical_block_size(),
    {
        self.physical_block
    }

    /// Recorded size of this setting.
    pub closed spec fn minimum_io_size(self) -> MinimumIoSize {
        self.minimum_io
    }

    /// Returns the reported minimum-I/O size.
    #[must_use]
    pub fn minimum_io(self) -> (out: MinimumIoSize)
        ensures
            out == self.minimum_io_size(),
    {
        self.minimum_io
    }

    /// Recorded size of this setting.
    pub closed spec fn data_block_size(self) -> DataBlockSize {
        self.data_block
    }

    /// Returns the size of one independently stored data block.
    #[must_use]
    pub fn data_block(self) -> (out: DataBlockSize)
        ensures
            out == self.data_block_size(),
    {
        self.data_block
    }
}

} // verus!
