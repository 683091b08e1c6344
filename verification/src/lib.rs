//! Drive-sanitisation logic: parsing what the drive tools report, deciding
//! what a drive supports and how to wipe it, and the cryptographic pieces
//! (HMAC-DRBG, device hashes) that a wipe relies on.
use vstd::prelude::*;

pub mod text;
pub mod smart;
pub mod hpa_dco;
pub mod trim;
pub mod detection;
pub mod freeze;
pub mod strategies;
pub mod algorithms;
pub mod zoned;
pub mod nvme;
pub mod drbg;
pub mod certificates;
pub mod integrated;
pub mod sed;
pub mod mitigation;
pub mod rng;
pub mod entropy;
pub mod hybrid;
pub mod optane;
pub mod emmc;
pub mod erase;
pub mod vendor;
pub mod vendor_steps;

verus! {

/// The kind of a storage device.
#[derive(Debug, Clone, Copy, PartialEq, Eq, Structural)]
pub enum DriveType {
    HDD,
    SSD,
    NVMe,
    USB,
    RAID,
    Unknown,
}

/// Overall health of a drive.
#[derive(Debug, Clone, Copy, PartialEq, Eq, Structural)]
pub enum HealthStatus {
    Good,
    Warning,
    Critical,
    Failed,
    Unknown,
}

/// Whether the ATA security feature set of a drive is frozen.
#[derive(Debug, Clone, Copy, PartialEq, Eq, Structural)]
pub enum FreezeStatus {
    NotFrozen,
    Frozen,
    FrozenByBIOS,
    SecurityLocked,
    Unknown,
}

/// Encryption found on a drive.
#[derive(Debug, Clone, Copy, PartialEq, Eq, Structural)]
pub enum EncryptionStatus {
    Unencrypted,
    OPAL,
    BitLocker,
    LUKS,
    FileVault,
    VeraCrypt,
    Unknown,
}

/// Sanitize operations an NVMe drive offers.
#[derive(Debug, Clone, Copy, PartialEq, Eq, Structural)]
pub enum SanitizeOption {
    BlockErase,
    CryptoErase,
    Overwrite,
    CryptoScramble,
}

/// The kind of self-encrypting drive.
#[derive(Debug, Clone, PartialEq, Eq)]
pub enum SEDType {
    /// No self-encryption found.
    NotSED,
    OPAL10,
    OPAL20,
    TCGEnterprise,
    ATASecurity,
    EDrive,
    /// A vendor's own encryption, by vendor.
    Proprietary(String),
}

/// Errors of drive operations.
#[derive(Debug, Clone, PartialEq, Eq)]
pub enum DriveError {
    IoError(String),
    SMARTReadFailed(String),
    TemperatureExceeded(String),
    HardwareCommandFailed(String),
    TRIMFailed(String),
    DriveFrozen(String),
    CryptoEraseFailed(String),
    UnlockFailed(String),
}

pub type DriveResult<T> = Result<T, DriveError>;

} // verus!
