//! The access mode of a volume-group session, the thin-provisioning discard
//! policies, and the scalar properties of a physical-volume parameter set.

use vstd::prelude::*;

verus! {

/// The permission a volume-group session was opened with.
///
/// A session opened `Read` must reject every mutating operation locally,
/// with a permission error, before anything is forwarded to the engine.
#[derive(Clone, Copy, Debug, PartialEq, Eq, Structural)]
pub enum OpenMode {
    Read,
    Write,
}

impl OpenMode {
    /// Whether this mode grants mutation.
    pub open spec fn spec_allows_write(self) -> bool {
        self is Write
    }

    /// Whether this mode grants mutation.
    pub fn allows_write(&self) -> (r: bool)
        ensures
            r == self.spec_allows_write(),
    {
        matches!(self, OpenMode::Write)
    }

    /// The mode string that the engine's open call takes.
    pub fn to_string(&self) -> (r: String)
        ensures
            *self is Read ==> r@ == "r"@,
            *self is Write ==> r@ == "w"@,
    {
        match self {
            OpenMode::Read => "r".to_owned(),
            OpenMode::Write => "w".to_owned(),
        }
    }
}

/// Thin-provisioning discard policies: whether block-discard requests
/// propagate to the underlying device-mapper target.
#[derive(Clone, Copy, Debug, PartialEq, Eq, Structural)]
pub enum LvmThinPolicy {
    Ignore,
    NoPassdown,
    Passdown,
}

impl LvmThinPolicy {
    /// The engine's name for this policy.
    pub fn to_string(&self) -> (r: String)
        ensures
            *self is Ignore ==> r@ == "LVM_THIN_DISCARDS_IGNORE"@,
            *self is NoPassdown ==> r@ == "LVM_THIN_DISCARDS_NO_PASSDOWN"@,
            *self is Passdown ==> r@ == "LVM_THIN_DISCARDS_PASSDOWN"@,
    {
        match self {
            LvmThinPolicy::Ignore => "LVM_THIN_DISCARDS_IGNORE".to_owned(),
            LvmThinPolicy::NoPassdown => "LVM_THIN_DISCARDS_NO_PASSDOWN".to_owned(),
            LvmThinPolicy::Passdown => "LVM_THIN_DISCARDS_PASSDOWN".to_owned(),
        }
    }
}

/// A scalar property of a physical-volume parameter set.
#[derive(Clone, Copy, Debug)]
pub enum Property {
    /// Size in bytes; zero asks the engine to use the detected device size.
    Size(u64),
    /// Number of metadata copies (0, 1 or 2).
    PvMetaDataCopies(u8),
    /// The approximate size to set aside for metadata.
    PvMetaDatasize(u64),
    /// Align the start of the data area to a multiple of this number.
    DataAlignment(u64),
    /// Shift the start of the data area by this additional offset.
    DataAlignmentOffset(u64),
    /// Whether to zero out the first 2048 bytes of the device.
    Zero(bool),
}

impl Property {
    /// The engine's name for this property.
    ///
    /// The data-alignment offset carries no engine-side property name of its
    /// own, so its name is the empty string.
    pub fn to_string(&self) -> (r: String)
        ensures
            *self is Size ==> r@ == "size"@,
            *self is PvMetaDataCopies ==> r@ == "pvmetadatacopies"@,
            *self is PvMetaDatasize ==> r@ == "pvmetadatasize"@,
            *self is DataAlignment ==> r@ == "data_alignment"@,
            *self is DataAlignmentOffset ==> r@ == ""@,
            *self is Zero ==> r@ == "zero"@,
    {
        match self {
            Property::Size(_) => "size".to_owned(),
            Property::PvMetaDataCopies(_) => "pvmetadatacopies".to_owned(),
            Property::PvMetaDatasize(_) => "pvmetadatasize".to_owned(),
            Property::DataAlignment(_) => "data_alignment".to_owned(),
            Property::DataAlignmentOffset(_) => "".to_owned(),
            Property::Zero(_) => "zero".to_owned(),
        }
    }
}

/// The shape of one engine property value, as the engine describes it.
#[derive(Clone, Copy, Debug, PartialEq, Eq, Structural)]
pub struct LvmPropertyValue {
    pub is_settable: bool,
    pub is_string: bool,
    pub is_integer: bool,
    pub is_signed: bool,
}

} // verus!
