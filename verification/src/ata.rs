//! ATA IDENTIFY DEVICE data.

use vstd::prelude::*;

use crate::text::{ascii_trim, field_text, is_clean_text, lemma_field_text_is_clean};

verus! {

/// Identity of an ATA device.
pub struct AtaIdentify {
    pub model: String,
    pub serial: String,
    pub firmware: String,
}

/// The bytes of an ATA string field in reading order: each 16-bit word
/// stores its first character in the high byte, so the two bytes of every
/// whole pair trade places; a trailing odd byte is dropped.
pub open spec fn swap_pairs(raw: Seq<u8>) -> Seq<u8> {
    Seq::new(
        ((raw.len() / 2) * 2) as nat,
        |i: int|
            if i % 2 == 0 {
                raw[i + 1]
            } else {
                raw[i - 1]
            },
    )
}

/// Each 16-bit word of an ATA string holds its first character in the high
/// (second) byte: character `2 * k` of the field is byte `2 * k + 1` and
/// character `2 * k + 1` is byte `2 * k`, for every whole word.
pub proof fn lemma_swap_pairs(raw: Seq<u8>)
    ensures
        swap_pairs(raw).len() == raw.len() - raw.len() % 2,
        forall|k: int|
            0 <= k < raw.len() / 2 ==> #[trigger] swap_pairs(raw)[2 * k] == raw[2 * k + 1]
                && swap_pairs(raw)[2 * k + 1] == raw[2 * k],
{
    assert forall|k: int| 0 <= k < raw.len() / 2 implies #[trigger] swap_pairs(raw)[2 * k] == raw[2 * k + 1]
        && swap_pairs(raw)[2 * k + 1] == raw[2 * k] by {
        assert((2 * k) % 2 == 0);
        assert((2 * k + 1) % 2 == 1);
    }
}

/// The text of an ATA string field.
pub open spec fn ata_field_text(raw: Seq<u8>) -> Seq<char> {
    field_text(swap_pairs(raw))
}

/// Reads the serial number (words 10-19), firmware revision (words 23-26)
/// and model number (words 27-46) out of IDENTIFY DEVICE data.
pub fn parse_ata_identify(data: &[u8; 512]) -> (id: AtaIdentify)
    ensures
        id.serial@ == ata_field_text(data@.subrange(20, 40)),
        id.firmware@ == ata_field_text(data@.subrange(46, 54)),
        id.model@ == ata_field_text(data@.subrange(54, 94)),
        is_clean_text(id.serial@),
        is_clean_text(id.firmware@),
        is_clean_text(id.model@),
{
    let serial = ata_string_trim(&data[20..40]);
    let firmware = ata_string_trim(&data[46..54]);
    let model = ata_string_trim(&data[54..94]);
    proof {
        lemma_field_text_is_clean(swap_pairs(data@.subrange(20, 40)));
        lemma_field_text_is_clean(swap_pairs(data@.subrange(46, 54)));
        lemma_field_text_is_clean(swap_pairs(data@.subrange(54, 94)));
    }
    AtaIdentify { model, serial, firmware }
}

/// The text of an ATA string field: bytes put back in reading order, shown
/// as characters, and stripped of leading and trailing spaces.
pub fn ata_string_trim(raw: &[u8]) -> (text: String)
    ensures
        text@ == ata_field_text(raw@),
{
    let pairs = raw.len() / 2;
    let mut out: Vec<u8> = Vec::with_capacity(raw.len());
    let mut k: usize = 0;
    while k < pairs
        invariant
            k <= pairs,
            pairs == raw@.len() / 2,
            2 * pairs <= raw@.len(),
            out@.len() == 2 * k,
            forall|i: int| 0 <= i < 2 * k ==> #[trigger] out@[i] == swap_pairs(raw@)[i],
        decreases pairs - k,
    {
        let n = raw.len();
        assert(2 * k + 1 < n);
        let even: usize = k + k;
        let hi = raw[even + 1];
        let lo = raw[even];
        out.push(hi);
        out.push(lo);
        k = k + 1;
    }
    assert(out@ =~= swap_pairs(raw@));
    ascii_trim(&out)
}

} // verus!
