//! Decoding of NVMe and ATA identify data, Innogrit flash-ID pages, and the
//! byte layout of the Windows NVMe and ATA pass-through requests.

pub mod bytes;
pub mod text;
pub mod nvme;
pub mod ata;
pub mod controllers;
pub mod nvme_protocol;
pub mod nvme_query;
pub mod ata_protocol;
