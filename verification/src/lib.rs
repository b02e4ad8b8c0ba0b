//! Assembles password-protected ZIP archives: files are compressed with raw
//! DEFLATE, encrypted with the traditional PKWARE stream cipher, and laid out
//! as local headers, a central directory and an end record. The archive's
//! identifier, password and the cipher's header bytes come from a seeded
//! Mersenne Twister.

pub mod byteorder;
pub mod compress;
pub mod crc;
pub mod layout;
pub mod mt;
pub mod passwd;
pub mod records;
pub mod text;
pub mod uuid;
pub mod zip;
pub mod zip_crypto;

pub use records::{
    Archive, CentralDirectoryEntry, DataDescriptor, EndOfCentralDirectory, FileEntry, LocalHeader,
    Zip64EndOfCentralDirectoryLocator, Zip64EndOfCentralDirectoryRecord,
};
pub use zip::{File, FileSlice, FileStream, Zip};
pub use zip_crypto::ZipCrypto;
