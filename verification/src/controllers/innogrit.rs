//! Innogrit NVMe controllers (IG5208, IG5216, IG5220, IG5236, IG5266).

use vstd::prelude::*;

use crate::controllers::{FlashBank, FlashIdResult, bank_view, is_bank_empty, is_empty_entry};
use crate::text::push_char;

verus! {

/// Signature dword "GRIT" that the controller expects in CDW14.
pub const GRIT_MAGIC: u32 = 0x54495247;
/// Signature dword "INNO" that the controller expects in CDW15.
pub const INNO_MAGIC: u32 = 0x4F4E4E49;

/// Offset of the controller device ID in the identification page.
pub const DID_OFFSET: usize = 0x62E;
/// Start of the flash ID table of IG5208 and IG5216.
pub const FID_OFFSET_5208: usize = 0x548;
/// Start of the flash ID table of later controllers.
pub const FID_OFFSET_5220: usize = 0x24E;
/// Entries in the flash ID table of IG5208 and IG5216.
pub const MAX_BANKS_5208: usize = 32;
/// Entries in the flash ID table of later controllers.
pub const MAX_BANKS_5220: usize = 64;
/// Bytes in one flash ID table entry.
pub const FID_ENTRY_SIZE: usize = 6;
/// Length of the identification page.
pub const PAGE_LEN: usize = 4096;

/// The vendor admin command that reads the identification page: opcode
/// 0xF2 with CDW10 = 0x400 and the "GRIT"/"INNO" signature in CDW14/CDW15,
/// reading a page of `PAGE_LEN` bytes.
pub struct FlashIdCommand {
    pub opcode: u8,
    pub nsid: u32,
    pub cdws: [u32; 6],
    pub data_len: usize,
}

/// The identification-page read command.
pub fn flash_id_command() -> (cmd: FlashIdCommand)
    ensures
        cmd.opcode == 0xF2,
        cmd.nsid == 0,
        cmd.cdws@ == seq![0x400u32, 0, 0, 0, GRIT_MAGIC, INNO_MAGIC],
        cmd.data_len == PAGE_LEN,
{
    FlashIdCommand {
        opcode: 0xF2,
        nsid: 0,
        cdws: [0x400, 0, 0, 0, GRIT_MAGIC, INNO_MAGIC],
        data_len: PAGE_LEN,
    }
}

/// The controller device ID: a little-endian 16-bit value at `DID_OFFSET`.
pub open spec fn device_id(buf: Seq<u8>) -> int {
    buf[0x62E] + 256 * buf[0x62F]
}

/// Where the flash ID table starts and how many entries it has:
/// IG5208 and IG5216 use the older 32-entry table, all others the 64-entry one.
pub open spec fn table_layout(did: int) -> (int, int) {
    if did == 0x5208 || did == 0x5216 {
        (0x548, 32)
    } else {
        (0x24E, 64)
    }
}

/// Entry `i` of a table starting at `start`.
pub open spec fn table_entry(buf: Seq<u8>, start: int, i: int) -> Seq<u8> {
    buf.subrange(start + 6 * i, start + 6 * i + 6)
}

/// The banks reported from the first `n` entries of a table starting at
/// `start`: every entry that lies inside the page and is not empty, in
/// table order, its 6 bytes padded with two zero bytes.
pub open spec fn table_banks(buf: Seq<u8>, start: int, n: nat) -> Seq<(u32, Seq<u8>)>
    decreases n,
{
    if n == 0 {
        Seq::empty()
    } else {
        let i = n - 1;
        let prev = table_banks(buf, start, (n - 1) as nat);
        if start + 6 * i + 6 > buf.len() || is_empty_entry(table_entry(buf, start, i)) {
            prev
        } else {
            prev.push((i as u32, table_entry(buf, start, i) + seq![0u8, 0u8]))
        }
    }
}

/// The banks of an identification page.
pub open spec fn page_banks(buf: Seq<u8>) -> Seq<(u32, Seq<u8>)> {
    let (start, count) = table_layout(device_id(buf));
    table_banks(buf, start, count as nat)
}

/// An upper-case hexadecimal digit.
pub open spec fn hex_digit(v: int) -> char {
    if v < 10 {
        (('0' as int) + v) as char
    } else {
        (('A' as int) + v - 10) as char
    }
}

/// "IG" followed by the device ID as four upper-case hexadecimal digits.
pub open spec fn controller_name(did: int) -> Seq<char> {
    seq!['I', 'G', hex_digit(did / 4096), hex_digit((did / 256) % 16), hex_digit((did / 16) % 16), hex_digit(did % 16)]
}

/// Entries that lie past the end of the page add no bank.
proof fn lemma_table_banks_past_end(buf: Seq<u8>, start: int, i: nat, n: nat)
    requires
        i <= n,
        start + 6 * i + 6 > buf.len(),
    ensures
        table_banks(buf, start, n) == table_banks(buf, start, i),
    decreases n - i,
{
    if n > i {
        lemma_table_banks_past_end(buf, start, i, (n - 1) as nat);
    }
}

/// Every bank reported from the first `n` table entries comes from a
/// non-empty entry that lies inside the page, carries that entry's bytes
/// followed by two zero bytes, and has a number below `n`; banks come in
/// strictly increasing bank order, so there are at most `n` of them.
pub proof fn lemma_table_banks(buf: Seq<u8>, start: int, n: nat)
    requires
        n <= u32::MAX,
    ensures
        table_banks(buf, start, n).len() <= n,
        forall|k: int|
            #![trigger table_banks(buf, start, n)[k]]
            0 <= k < table_banks(buf, start, n).len() ==> {
                let bank = table_banks(buf, start, n)[k];
                &&& bank.0 < n
                &&& start + 6 * bank.0 + 6 <= buf.len()
                &&& !is_empty_entry(table_entry(buf, start, bank.0 as int))
                &&& bank.1 == table_entry(buf, start, bank.0 as int) + seq![0u8, 0u8]
            },
        forall|j: int, k: int|
            0 <= j < k < table_banks(buf, start, n).len() ==> #[trigger] table_banks(buf, start, n)[j].0
                < #[trigger] table_banks(buf, start, n)[k].0,
    decreases n,
{
    if n > 0 {
        lemma_table_banks(buf, start, (n - 1) as nat);
    }
}

/// The banks of an identification page obey `lemma_table_banks` for the
/// table its device ID selects: at most 32 banks numbered below 32 for the
/// IG5208 and IG5216, at most 64 numbered below 64 for the others.
pub proof fn lemma_page_banks(buf: Seq<u8>)
    ensures
        page_banks(buf).len() <= table_layout(device_id(buf)).1,
        forall|k: int|
            #![trigger page_banks(buf)[k]]
            0 <= k < page_banks(buf).len() ==> {
                let (start, count) = table_layout(device_id(buf));
                let bank = page_banks(buf)[k];
                &&& bank.0 < count
                &&& !is_empty_entry(table_entry(buf, start, bank.0 as int))
                &&& bank.1 == table_entry(buf, start, bank.0 as int) + seq![0u8, 0u8]
            },
        forall|j: int, k: int|
            0 <= j < k < page_banks(buf).len() ==> #[trigger] page_banks(buf)[j].0
                < #[trigger] page_banks(buf)[k].0,
{
    let (start, count) = table_layout(device_id(buf));
    lemma_table_banks(buf, start, count as nat);
}

/// Every non-empty entry among the first `n` that lies inside the page is
/// reported, under its own number.
proof fn lemma_table_banks_complete(buf: Seq<u8>, start: int, n: nat)
    requires
        n <= u32::MAX,
    ensures
        forall|i: int|
            0 <= i < n && start + 6 * i + 6 <= buf.len() && !is_empty_entry(
                #[trigger] buf.subrange(start + 6 * i, start + 6 * i + 6),
            ) ==> exists|k: int|
                0 <= k < table_banks(buf, start, n).len() && table_banks(buf, start, n)[k].0 == i,
    decreases n,
{
    if n > 0 {
        let m = (n - 1) as nat;
        lemma_table_banks_complete(buf, start, m);
        let prev = table_banks(buf, start, m);
        let cur = table_banks(buf, start, n);
        assert forall|i: int|
            0 <= i < n && start + 6 * i + 6 <= buf.len() && !is_empty_entry(
                #[trigger] buf.subrange(start + 6 * i, start + 6 * i + 6),
            ) implies exists|k: int| 0 <= k < cur.len() && cur[k].0 == i by {
            if i < m {
                let k = choose|k: int| 0 <= k < prev.len() && prev[k].0 == i;
                assert(cur[k] == prev[k]);
            } else {
                assert(table_entry(buf, start, i) == buf.subrange(start + 6 * i, start + 6 * i + 6));
                assert(cur[prev.len() as int].0 == i);
            }
        }
    }
}

/// `banks` are exactly the non-empty 6-byte entries `i < count` of the table
/// at `start` in `buf`: each bank is numbered `i` and holds entry `i`
/// (bytes `start + 6 * i` to `start + 6 * i + 6`) followed by two zero bytes,
/// every non-empty entry is reported, and banks come in increasing number order.
pub open spec fn reports_table(banks: Seq<(u32, Seq<u8>)>, buf: Seq<u8>, start: int, count: int) -> bool {
    &&& forall|k: int|
        #![trigger banks[k]]
        0 <= k < banks.len() ==> {
            &&& 0 <= banks[k].0 < count
            &&& !is_empty_entry(buf.subrange(start + 6 * banks[k].0, start + 6 * banks[k].0 + 6))
            &&& banks[k].1 == buf.subrange(start + 6 * banks[k].0, start + 6 * banks[k].0 + 6) + seq![0u8, 0u8]
        }
    &&& forall|i: int|
        0 <= i < count && !is_empty_entry(#[trigger] buf.subrange(start + 6 * i, start + 6 * i + 6))
            ==> exists|k: int| 0 <= k < banks.len() && banks[k].0 == i
    &&& forall|j: int, k: int| 0 <= j < k < banks.len() ==> #[trigger] banks[j].0 < #[trigger] banks[k].0
}

/// Which table an identification page is read through, in terms of the page
/// alone: when the little-endian device ID at 0x62E is 0x5208 or 0x5216 the
/// banks are exactly the non-empty entries of the 32-entry table at 0x548,
/// otherwise exactly those of the 64-entry table at 0x24E.
pub proof fn lemma_page_bank_table(buf: Seq<u8>)
    requires
        buf.len() == 4096,
    ensures
        (buf[0x62E] + 256 * buf[0x62F] == 0x5208 || buf[0x62E] + 256 * buf[0x62F] == 0x5216)
            ==> reports_table(page_banks(buf), buf, 0x548, 32),
        !(buf[0x62E] + 256 * buf[0x62F] == 0x5208 || buf[0x62E] + 256 * buf[0x62F] == 0x5216)
            ==> reports_table(page_banks(buf), buf, 0x24E, 64),
{
    let (start, count) = table_layout(device_id(buf));
    lemma_table_banks(buf, start, count as nat);
    lemma_table_banks_complete(buf, start, count as nat);
    let banks = page_banks(buf);
    assert forall|k: int| 0 <= k < banks.len() implies #[trigger] table_entry(buf, start, banks[k].0 as int)
        == buf.subrange(start + 6 * banks[k].0, start + 6 * banks[k].0 + 6) by {}
    assert(reports_table(banks, buf, start, count));
}

/// Reading the controller name's four hexadecimal digits back, each `0`-`9`
/// or upper-case `A`-`F`, gives the device ID.
pub open spec fn hex_value(c: char) -> int {
    if '0' <= c && c <= '9' {
        c as int - '0' as int
    } else if 'A' <= c && c <= 'F' {
        c as int - 'A' as int + 10
    } else {
        -1
    }
}

/// The controller name is "IG" and four upper-case hexadecimal digits that
/// read back as the device ID.
pub proof fn lemma_controller_name_reads_back(did: int)
    requires
        0 <= did < 0x10000,
    ensures
        controller_name(did).len() == 6,
        controller_name(did)[0] == 'I',
        controller_name(did)[1] == 'G',
        forall|i: int| 2 <= i < 6 ==> 0 <= #[trigger] hex_value(controller_name(did)[i]) < 16,
        4096 * hex_value(controller_name(did)[2]) + 256 * hex_value(controller_name(did)[3])
            + 16 * hex_value(controller_name(did)[4]) + hex_value(controller_name(did)[5]) == did,
{
    let n = controller_name(did);
    assert(0 <= hex_value(n[2]) < 16);
    assert(0 <= hex_value(n[3]) < 16);
    assert(0 <= hex_value(n[4]) < 16);
    assert(0 <= hex_value(n[5]) < 16);
    assert(hex_value(n[2]) == did / 4096);
    assert(hex_value(n[3]) == (did / 256) % 16);
    assert(hex_value(n[4]) == (did / 16) % 16);
    assert(hex_value(n[5]) == did % 16);
}

fn hex_digit_char(v: u16) -> (c: char)
    requires
        v < 16,
    ensures
        c == hex_digit(v as int),
{
    if v < 10 {
        ((48u16 + v) as u8) as char
    } else {
        ((55u16 + v) as u8) as char
    }
}

/// Decodes the identification page: the controller name from the device ID
/// and one bank for every non-empty entry of the flash ID table.
pub fn parse_flash_id_response(buf: &[u8; 4096]) -> (result: FlashIdResult)
    ensures
        result.controller_name@ == controller_name(device_id(buf@)),
        result.banks@.map_values(|b: FlashBank| bank_view(b)) == page_banks(buf@),
{
    let did: u16 = (buf[DID_OFFSET] as u16) + (buf[DID_OFFSET + 1] as u16) * 256;
    let mut ctrl_name = String::new();
    push_char(&mut ctrl_name, 'I');
    push_char(&mut ctrl_name, 'G');
    push_char(&mut ctrl_name, hex_digit_char(did / 4096));
    push_char(&mut ctrl_name, hex_digit_char((did / 256) % 16));
    push_char(&mut ctrl_name, hex_digit_char((did / 16) % 16));
    push_char(&mut ctrl_name, hex_digit_char(did % 16));
    assert(ctrl_name@ =~= controller_name(device_id(buf@)));

    let (fid_offset, max_banks) = if did == 0x5208 || did == 0x5216 {
        (FID_OFFSET_5208, MAX_BANKS_5208)
    } else {
        (FID_OFFSET_5220, MAX_BANKS_5220)
    };
    let ghost view = |b: FlashBank| bank_view(b);

    let mut banks: Vec<FlashBank> = Vec::new();
    let mut i: usize = 0;
    while i < max_banks
        invariant_except_break
            i <= max_banks,
            banks@.map_values(view) == table_banks(buf@, fid_offset as int, i as nat),
        invariant
            buf@.len() == PAGE_LEN,
            fid_offset <= FID_OFFSET_5208,
            max_banks <= MAX_BANKS_5220,
            view == (|b: FlashBank| bank_view(b)),
        ensures
            banks@.map_values(view) == table_banks(buf@, fid_offset as int, max_banks as nat),
        decreases max_banks - i,
    {
        let offset = fid_offset + i * FID_ENTRY_SIZE;
        if offset + FID_ENTRY_SIZE > buf.len() {
            proof {
                lemma_table_banks_past_end(buf@, fid_offset as int, i as nat, max_banks as nat);
            }
            break;
        }
        let entry = &buf[offset..offset + FID_ENTRY_SIZE];
        assert(entry@ == table_entry(buf@, fid_offset as int, i as int));
        if is_bank_empty(entry) {
            i = i + 1;
            continue;
        }
        let mut flash_id = [0u8; 8];
        let mut j: usize = 0;
        while j < FID_ENTRY_SIZE
            invariant
                j <= FID_ENTRY_SIZE,
                entry@.len() == FID_ENTRY_SIZE,
                flash_id@.len() == 8,
                forall|k: int| 0 <= k < j ==> flash_id@[k] == entry@[k],
                forall|k: int| j <= k < 8 ==> flash_id@[k] == 0,
            decreases FID_ENTRY_SIZE - j,
        {
            flash_id[j] = entry[j];
            j = j + 1;
        }
        assert(flash_id@ =~= entry@ + seq![0u8, 0u8]);
        let bank = FlashBank { bank_num: i as u32, flash_id };
        let ghost before = banks@;
        banks.push(bank);
        assert(banks@.map_values(view) =~= before.map_values(view).push(view(bank)));
        i = i + 1;
    }
    FlashIdResult { controller_name: ctrl_name, banks }
}

} // verus!
