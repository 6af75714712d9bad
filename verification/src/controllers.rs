//! Flash-ID results shared by the controller families.

use vstd::prelude::*;

pub mod innogrit;

verus! {

/// The flash ID read from one NAND bank.
#[derive(Clone, Copy, Debug)]
pub struct FlashBank {
    pub bank_num: u32,
    pub flash_id: [u8; 8],
}

/// The controller name and the populated NAND banks reported by a controller.
pub struct FlashIdResult {
    pub controller_name: String,
    pub banks: Vec<FlashBank>,
}

/// A bank as a plain value: its number and its flash ID bytes.
pub open spec fn bank_view(b: FlashBank) -> (u32, Seq<u8>) {
    (b.bank_num, b.flash_id@)
}

/// A flash ID table entry holds no chip when its bytes are all 0x00 or all 0xFF.
pub open spec fn is_empty_entry(entry: Seq<u8>) -> bool {
    ||| forall|i: int| 0 <= i < entry.len() ==> #[trigger] entry[i] == 0x00
    ||| forall|i: int| 0 <= i < entry.len() ==> #[trigger] entry[i] == 0xFF
}

/// Whether a flash ID table entry holds no chip.
pub fn is_bank_empty(entry: &[u8]) -> (r: bool)
    ensures
        r == is_empty_entry(entry@),
{
    let n = entry.len();
    let mut all_zero = true;
    let mut all_ones = true;
    let mut i: usize = 0;
    while i < n
        invariant
            i <= n,
            n == entry@.len(),
            all_zero == (forall|j: int| 0 <= j < i ==> #[trigger] entry@[j] == 0x00),
            all_ones == (forall|j: int| 0 <= j < i ==> #[trigger] entry@[j] == 0xFF),
        decreases n - i,
    {
        if entry[i] != 0x00 {
            all_zero = false;
        }
        if entry[i] != 0xFF {
            all_ones = false;
        }
        i = i + 1;
    }
    all_zero || all_ones
}

} // verus!
