//! NVMe Identify Controller data.

use vstd::prelude::*;

use crate::text::{ascii_trim, field_text, is_clean_text, lemma_field_text_is_clean};

verus! {

/// Whether the Admin Vendor Specific Command Configuration field (byte 264 of
/// the Identify Controller data) reports that vendor admin commands use the
/// standard command format: bit 0 of that byte.
pub fn admin_vendor_command_format_in_spec(data: &[u8; 4096]) -> (r: bool)
    ensures
        r == (data@[264] % 2 == 1),
{
    let b = data[264];
    assert((b & 1 != 0) == (b % 2 == 1)) by (bit_vector);
    b & 1 != 0
}

/// Identity of an NVMe controller.
pub struct ControllerInfo {
    pub vid: u16,
    pub ssvid: u16,
    pub serial: String,
    pub model: String,
    pub firmware: String,
}

/// A little-endian 16-bit field: `b0` is the low byte.
pub open spec fn le16_value(b0: u8, b1: u8) -> int {
    b0 + 256 * b1
}

/// Reads the PCI vendor and subsystem vendor IDs and the serial number,
/// model number and firmware revision out of Identify Controller data.
pub fn parse_identify(data: &[u8; 4096]) -> (info: ControllerInfo)
    ensures
        info.vid == le16_value(data@[0], data@[1]),
        info.ssvid == le16_value(data@[2], data@[3]),
        info.serial@ == field_text(data@.subrange(4, 24)),
        info.model@ == field_text(data@.subrange(24, 64)),
        info.firmware@ == field_text(data@.subrange(64, 72)),
        is_clean_text(info.serial@),
        is_clean_text(info.model@),
        is_clean_text(info.firmware@),
{
    let vid = (data[0] as u16) + (data[1] as u16) * 256;
    let ssvid = (data[2] as u16) + (data[3] as u16) * 256;
    let serial = ascii_trim(&data[4..24]);
    let model = ascii_trim(&data[24..64]);
    let firmware = ascii_trim(&data[64..72]);
    proof {
        lemma_field_text_is_clean(data@.subrange(4, 24));
        lemma_field_text_is_clean(data@.subrange(24, 64));
        lemma_field_text_is_clean(data@.subrange(64, 72));
    }
    ControllerInfo { vid, ssvid, serial, model, firmware }
}

} // verus!
