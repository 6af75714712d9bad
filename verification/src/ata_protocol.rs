//! The ATA pass-through request of the Windows storage stack
//! (`ATA_PASS_THROUGH_EX` followed by its data buffer), laid out as on
//! 64-bit Windows, and the checks made on its reply.

use vstd::prelude::*;

use crate::bytes::{
    get_le16, get_le32, get_le64, le16, le32, le64, lemma_le16_roundtrip, lemma_le32_roundtrip,
    lemma_le64_roundtrip, push_le16, push_le32, push_le64, push_range, push_zeros, read_le16,
    read_le32, read_le64, zeros,
};

verus! {

pub const ATA_FLAGS_DATA_IN: u16 = 2;
pub const ATA_FLAGS_DATA_OUT: u16 = 4;
pub const ATA_FLAGS_48BIT_COMMAND: u16 = 8;
pub const ATA_FLAGS_USE_DMA: u16 = 16;
pub const ATA_STATUS_ERROR: u8 = 1;
pub const ATA_STATUS_DEVICE_FAULT: u8 = 0x20;
pub const DEFAULT_TIMEOUT_SECONDS: u32 = 10;

/// Length of `ATA_PASS_THROUGH_EX`, which the data buffer follows: 48 bytes
/// where pointers are 64 bits wide (the pointer-sized data buffer offset is
/// aligned to 8 bytes after 4 bytes of padding), 40 bytes where they are 32
/// bits wide.
pub open spec fn ata_header_size() -> int {
    if usize::BITS == 64 {
        48
    } else {
        40
    }
}

/// Offset of the previous task file; the current task file follows it.
pub open spec fn task_file_offset() -> int {
    if usize::BITS == 64 {
        32
    } else {
        24
    }
}

/// Length of `ATA_PASS_THROUGH_EX`.
pub fn ata_header_len() -> (n: usize)
    ensures
        n == ata_header_size(),
{
    if usize::BITS == 64 {
        48
    } else {
        40
    }
}

/// `ATA_PASS_THROUGH_EX`, field by field.
#[derive(Clone, Copy, Debug)]
pub struct AtaPassThroughEx {
    pub length: u16,
    pub ata_flags: u16,
    pub path_id: u8,
    pub target_id: u8,
    pub lun: u8,
    pub reserved_as_uchar: u8,
    pub data_transfer_length: u32,
    pub timeout_value: u32,
    pub reserved_as_ulong: u32,
    pub data_buffer_offset: usize,
    pub previous_task_file: [u8; 8],
    pub current_task_file: [u8; 8],
}

/// Which way the data of an ATA command flows.
#[derive(Clone, Copy, Debug)]
pub enum AtaDirection {
    NoData,
    Read,
    Write,
}

/// A request: the pass-through structure followed by the data buffer.
pub struct AtaPacket {
    pub header: AtaPassThroughEx,
    pub data: Vec<u8>,
}

/// Why a reply to an ATA pass-through request is refused.
#[derive(Clone, Copy, Debug)]
pub enum AtaResponseError {
    /// The storage stack reported fewer bytes than the structure or more than the request.
    InvalidByteCount { returned: u32, command: u8 },
    /// The device moved another number of bytes than requested.
    PartialTransfer { transferred: u32, expected: usize, command: u8 },
    /// The reply ends before its data buffer does.
    TruncatedData { command: u8 },
    /// The status register reports an error or a device fault.
    CommandFailed { command: u8, status: u8, error: u8 },
}

/// The data-direction flag of a request.
pub open spec fn direction_flag(direction: AtaDirection) -> u16 {
    match direction {
        AtaDirection::NoData => 0,
        AtaDirection::Read => ATA_FLAGS_DATA_IN,
        AtaDirection::Write => ATA_FLAGS_DATA_OUT,
    }
}

/// The flags of a request: its direction, DMA when asked for, and the
/// 48-bit flag when a previous task file is given.
pub open spec fn request_flags(direction: AtaDirection, use_dma: bool, extended: bool) -> u16 {
    direction_flag(direction) | (if use_dma { ATA_FLAGS_USE_DMA } else { 0 }) | (if extended {
        ATA_FLAGS_48BIT_COMMAND
    } else {
        0
    })
}

/// The previous task file: the five high-order registers of a 48-bit command, or zeros.
pub open spec fn previous_registers(previous: Option<[u8; 5]>) -> Seq<u8> {
    match previous {
        Some(p) => p@ + zeros(3),
        None => zeros(8),
    }
}

/// The current task file: features, count, LBA low, mid and high, device and command.
pub open spec fn current_registers(
    command: u8,
    features: u8,
    count: u8,
    lba_low: u8,
    lba_mid: u8,
    lba_high: u8,
    device: u8,
) -> Seq<u8> {
    seq![features, count, lba_low, lba_mid, lba_high, device, command, 0u8]
}

/// The bytes of the pointer-sized data buffer offset, with the padding
/// that aligns it on 64-bit Windows.
pub open spec fn buffer_offset_bytes(v: usize) -> Seq<u8> {
    if usize::BITS == 64 {
        zeros(4) + le64(v as u64)
    } else {
        le32(v as u32)
    }
}

/// The bytes of the pass-through structure.
pub open spec fn ata_header_bytes(h: AtaPassThroughEx) -> Seq<u8> {
    le16(h.length) + le16(h.ata_flags) + seq![h.path_id, h.target_id, h.lun, h.reserved_as_uchar]
        + le32(h.data_transfer_length) + le32(h.timeout_value) + le32(h.reserved_as_ulong)
        + buffer_offset_bytes(h.data_buffer_offset) + h.previous_task_file@ + h.current_task_file@
}

/// The pass-through structure stored at the start of `s`.
pub open spec fn ata_header_at(s: Seq<u8>) -> AtaPassThroughEx {
    let t = task_file_offset();
    AtaPassThroughEx {
        length: get_le16(s, 0),
        ata_flags: get_le16(s, 2),
        path_id: s[4],
        target_id: s[5],
        lun: s[6],
        reserved_as_uchar: s[7],
        data_transfer_length: get_le32(s, 8),
        timeout_value: get_le32(s, 12),
        reserved_as_ulong: get_le32(s, 16),
        data_buffer_offset: if usize::BITS == 64 {
            get_le64(s, 24) as usize
        } else {
            get_le32(s, 20) as usize
        },
        previous_task_file: [s[t], s[t + 1], s[t + 2], s[t + 3], s[t + 4], s[t + 5], s[t + 6], s[t + 7]],
        current_task_file: [s[t + 8], s[t + 9], s[t + 10], s[t + 11], s[t + 12], s[t + 13], s[t + 14], s[t + 15]],
    }
}

/// The verdict on a reply to a request whose structure reads `header` and
/// whose data buffer is `data_len` bytes long, after the storage stack
/// reported `returned` bytes and `expected` data bytes were asked for.
/// The checks run in this order: the byte count lies between the structure
/// and the whole request; the device moved exactly the expected bytes; a
/// reply with data reaches the end of that data; the status register
/// (register 6 of the current task file) shows neither error nor device fault.
pub open spec fn ata_reply_verdict(
    header: AtaPassThroughEx,
    data_len: nat,
    returned: u32,
    command: u8,
    expected: usize,
) -> Result<(), AtaResponseError> {
    if returned > ata_header_size() + data_len || returned < ata_header_size() {
        Err(AtaResponseError::InvalidByteCount { returned, command })
    } else if header.data_transfer_length != expected {
        Err(
            AtaResponseError::PartialTransfer {
                transferred: header.data_transfer_length,
                expected,
                command,
            },
        )
    } else if expected != 0 && returned < ata_header_size() + expected {
        Err(AtaResponseError::TruncatedData { command })
    } else if header.current_task_file[6] & (ATA_STATUS_ERROR | ATA_STATUS_DEVICE_FAULT) != 0 {
        Err(
            AtaResponseError::CommandFailed {
                command,
                status: header.current_task_file[6],
                error: header.current_task_file[0],
            },
        )
    } else {
        Ok(())
    }
}

impl AtaPacket {
    /// The pass-through structure.
    pub fn header(&self) -> (h: &AtaPassThroughEx)
        ensures
            *h == self.header,
    {
        &self.header
    }

    /// The pass-through structure, to change it.
    pub fn header_mut(&mut self) -> (h: &mut AtaPassThroughEx)
        ensures
            *h == old(self).header,
            final(self).header == *final(h),
            final(self).data == old(self).data,
    {
        &mut self.header
    }

    /// The data buffer, to change it.
    pub fn data_mut(&mut self) -> (d: &mut Vec<u8>)
        ensures
            *d == old(self).data,
            final(self).data == *final(d),
            final(self).header == old(self).header,
    {
        &mut self.data
    }

    /// The length of the whole request in bytes.
    pub fn len(&self) -> (n: usize)
        ensures
            n == (if ata_header_size() + self.data@.len() > usize::MAX {
                usize::MAX as int
            } else {
                ata_header_size() + self.data@.len()
            }),
    {
        self.data.len().saturating_add(ata_header_len())
    }

    /// The request as the bytes handed to the storage stack.
    pub fn as_bytes(&self) -> (bytes: Vec<u8>)
        ensures
            bytes@ == ata_header_bytes(self.header) + self.data@,
    {
        let h = self.header;
        let mut bytes: Vec<u8> = Vec::new();
        push_le16(&mut bytes, h.length);
        push_le16(&mut bytes, h.ata_flags);
        bytes.push(h.path_id);
        bytes.push(h.target_id);
        bytes.push(h.lun);
        bytes.push(h.reserved_as_uchar);
        push_le32(&mut bytes, h.data_transfer_length);
        push_le32(&mut bytes, h.timeout_value);
        push_le32(&mut bytes, h.reserved_as_ulong);
        if usize::BITS == 64 {
            push_zeros(&mut bytes, 4);
            push_le64(&mut bytes, h.data_buffer_offset as u64);
        } else {
            push_le32(&mut bytes, #[verifier::truncate] (h.data_buffer_offset as u32));
        }
        push_range(&mut bytes, h.previous_task_file.as_slice(), 0, 8);
        push_range(&mut bytes, h.current_task_file.as_slice(), 0, 8);
        let dlen = self.data.len();
        push_range(&mut bytes, self.data.as_slice(), 0, dlen);
        assert(h.previous_task_file@.subrange(0, 8) =~= h.previous_task_file@);
        assert(h.current_task_file@.subrange(0, 8) =~= h.current_task_file@);
        assert(self.data@.subrange(0, dlen as int) =~= self.data@);
        assert(bytes@ =~= ata_header_bytes(self.header) + self.data@);
        bytes
    }

    /// The request as the storage stack handed it back: the structure and,
    /// after it, the data buffer.
    pub fn from_bytes(bytes: &[u8]) -> (packet: AtaPacket)
        requires
            bytes@.len() >= ata_header_size(),
        ensures
            packet.header == ata_header_at(bytes@),
            packet.data@ == bytes@.subrange(ata_header_size(), bytes@.len() as int),
    {
        let header_len = ata_header_len();
        let t: usize = if usize::BITS == 64 {
            32
        } else {
            24
        };
        let data_buffer_offset: usize = if usize::BITS == 64 {
            #[verifier::truncate] (read_le64(bytes, 24) as usize)
        } else {
            read_le32(bytes, 20) as usize
        };
        let header = AtaPassThroughEx {
            length: read_le16(bytes, 0),
            ata_flags: read_le16(bytes, 2),
            path_id: bytes[4],
            target_id: bytes[5],
            lun: bytes[6],
            reserved_as_uchar: bytes[7],
            data_transfer_length: read_le32(bytes, 8),
            timeout_value: read_le32(bytes, 12),
            reserved_as_ulong: read_le32(bytes, 16),
            data_buffer_offset,
            previous_task_file: [
                bytes[t], bytes[t + 1], bytes[t + 2], bytes[t + 3], bytes[t + 4], bytes[t + 5],
                bytes[t + 6], bytes[t + 7],
            ],
            current_task_file: [
                bytes[t + 8], bytes[t + 9], bytes[t + 10], bytes[t + 11], bytes[t + 12], bytes[t + 13],
                bytes[t + 14], bytes[t + 15],
            ],
        };
        let mut data: Vec<u8> = Vec::new();
        let n = bytes.len();
        push_range(&mut data, bytes, header_len, n);
        AtaPacket { header, data }
    }
}

/// The flags of a request hold one bit per choice and nothing else: the DMA
/// bit (0x10) is set exactly when DMA is asked for, the 48-bit bit (0x08)
/// exactly when a previous task file is given, and the direction bits
/// (0x06) are 0x02 for a read, 0x04 for a write and 0 without data.
pub proof fn lemma_request_flag_bits(direction: AtaDirection, use_dma: bool, extended: bool)
    ensures
        request_flags(direction, use_dma, extended) & 0x10 == (if use_dma { 0x10u16 } else { 0u16 }),
        request_flags(direction, use_dma, extended) & 0x08 == (if extended { 0x08u16 } else { 0u16 }),
        request_flags(direction, use_dma, extended) & 0x06 == (match direction {
            AtaDirection::NoData => 0u16,
            AtaDirection::Read => 0x02u16,
            AtaDirection::Write => 0x04u16,
        }),
        request_flags(direction, use_dma, extended) & 0xFFE1 == 0,
{
    let d = direction_flag(direction);
    let x: u16 = if use_dma { ATA_FLAGS_USE_DMA } else { 0 };
    let y: u16 = if extended { ATA_FLAGS_48BIT_COMMAND } else { 0 };
    let f = request_flags(direction, use_dma, extended);
    assert(f == (d | x) | y);
    assert(f & 0x10 == x && f & 0x08 == y && f & 0x06 == d && f & 0xFFE1 == 0) by (bit_vector)
        requires
            d == 0 || d == 2 || d == 4,
            x == 0 || x == 16,
            y == 0 || y == 8,
            f == (d | x) | y,
    ;
}

/// The task-file registers in their `ATA_PASS_THROUGH_EX` order: features,
/// sector count, LBA low, LBA mid, LBA high, device/head, command, and a
/// reserved zero byte; the previous task file of a 48-bit command holds the
/// five high-order registers in the same order and three zero bytes, and is
/// all zero for a 28-bit command.
pub proof fn lemma_task_file_order(
    command: u8,
    features: u8,
    count: u8,
    lba_low: u8,
    lba_mid: u8,
    lba_high: u8,
    device: u8,
    previous: Option<[u8; 5]>,
)
    ensures
        ({
            let c = current_registers(command, features, count, lba_low, lba_mid, lba_high, device);
            &&& c.len() == 8
            &&& c[0] == features && c[1] == count && c[2] == lba_low && c[3] == lba_mid
            &&& c[4] == lba_high && c[5] == device && c[6] == command && c[7] == 0
        }),
        previous_registers(previous).len() == 8,
        forall|i: int| 5 <= i < 8 ==> #[trigger] previous_registers(previous)[i] == 0,
        forall|i: int| 0 <= i < 5 ==> #[trigger] previous_registers(previous)[i] == (match previous {
            Some(p) => p[i],
            None => 0u8,
        }),
{
}

/// The pass-through structure puts each field at its offset in
/// `ATA_PASS_THROUGH_EX`, whatever follows it: Length at byte 0, AtaFlags at
/// 2, PathId, TargetId, Lun and ReservedAsUchar at 4 to 7,
/// DataTransferLength at 8, TimeOutValue at 12, ReservedAsUlong at 16, then
/// the pointer-sized DataBufferOffset (at 24 after four zero bytes of padding
/// on 64-bit Windows, at 20 on 32-bit), and the previous and current task
/// files, eight bytes each, right after it.
pub proof fn lemma_ata_header_field_offsets(h: AtaPassThroughEx, rest: Seq<u8>)
    ensures
        ({
            let s = ata_header_bytes(h) + rest;
            let t: int = if usize::BITS == 64 { 32 } else { 24 };
            &&& ata_header_bytes(h).len() == (if usize::BITS == 64 { 48int } else { 40int })
            &&& get_le16(s, 0) == h.length
            &&& get_le16(s, 2) == h.ata_flags
            &&& s[4] == h.path_id
            &&& s[5] == h.target_id
            &&& s[6] == h.lun
            &&& s[7] == h.reserved_as_uchar
            &&& get_le32(s, 8) == h.data_transfer_length
            &&& get_le32(s, 12) == h.timeout_value
            &&& get_le32(s, 16) == h.reserved_as_ulong
            &&& usize::BITS == 64 ==> s.subrange(20, 24) == seq![0u8, 0u8, 0u8, 0u8] && get_le64(s, 24)
                == h.data_buffer_offset
            &&& usize::BITS != 64 ==> get_le32(s, 20) == h.data_buffer_offset
            &&& s.subrange(t, t + 8) == h.previous_task_file@
            &&& s.subrange(t + 8, t + 16) == h.current_task_file@
        }),
{
    let s = ata_header_bytes(h) + rest;
    let t: int = if usize::BITS == 64 { 32 } else { 24 };
    lemma_le16_roundtrip(h.length);
    lemma_le16_roundtrip(h.ata_flags);
    lemma_le32_roundtrip(h.data_transfer_length);
    lemma_le32_roundtrip(h.timeout_value);
    lemma_le32_roundtrip(h.reserved_as_ulong);
    assert(s.subrange(0, 2) =~= le16(h.length));
    assert(s.subrange(2, 4) =~= le16(h.ata_flags));
    assert(s.subrange(8, 12) =~= le32(h.data_transfer_length));
    assert(s.subrange(12, 16) =~= le32(h.timeout_value));
    assert(s.subrange(16, 20) =~= le32(h.reserved_as_ulong));
    let v = h.data_buffer_offset;
    if usize::BITS == 64 {
        lemma_le64_roundtrip(v as u64);
        assert(s.subrange(20, 24) =~= seq![0u8, 0u8, 0u8, 0u8]);
        assert(s.subrange(24, 32) =~= le64(v as u64));
        assert(usize::BITS == 64 ==> (v as u64) == v) by (bit_vector);
    } else {
        lemma_le32_roundtrip(v as u32);
        assert(s.subrange(20, 24) =~= le32(v as u32));
        assert(usize::BITS != 64 ==> (v as u32) == v) by (bit_vector);
    }
    assert(s.subrange(t, t + 8) =~= h.previous_task_file@);
    assert(s.subrange(t + 8, t + 16) =~= h.current_task_file@);
}

/// When a reply is accepted, in terms of its fields alone: the reported byte
/// count lies between the structure's length and the whole request's, the
/// device moved exactly the expected bytes, a reply with data reaches the end
/// of that data, and the status register (byte 6 of the current task file)
/// has neither the error bit (0x01) nor the device-fault bit (0x20) set.
/// A reply that passes the first three checks but shows error or device
/// fault is refused as a failed command carrying the status and error
/// registers, whatever the data length.
pub proof fn lemma_ata_reply_acceptance(
    header: AtaPassThroughEx,
    data_len: nat,
    returned: u32,
    command: u8,
    expected: usize,
)
    ensures
        ata_reply_verdict(header, data_len, returned, command, expected) is Ok <==> {
            &&& ata_header_size() <= returned <= ata_header_size() + data_len
            &&& header.data_transfer_length == expected
            &&& (expected == 0 || returned >= ata_header_size() + expected)
            &&& header.current_task_file[6] & 0x21 == 0
        },
        header.current_task_file[6] & 0x21 != 0 ==> ata_reply_verdict(header, data_len, returned, command, expected) is Err,
        ({
            &&& ata_header_size() <= returned <= ata_header_size() + data_len
            &&& header.data_transfer_length == expected
            &&& (expected == 0 || returned >= ata_header_size() + expected)
            &&& header.current_task_file[6] & 0x21 != 0
        }) ==> ata_reply_verdict(header, data_len, returned, command, expected)
            == Err::<(), AtaResponseError>(AtaResponseError::CommandFailed {
                command,
                status: header.current_task_file[6],
                error: header.current_task_file[0],
            }),
{
    assert(ATA_STATUS_ERROR | ATA_STATUS_DEVICE_FAULT == 0x21u8) by (bit_vector);
}

/// Reading back the bytes of a request gives the request.
pub proof fn lemma_ata_packet_bytes_roundtrip(h: AtaPassThroughEx, data: Seq<u8>)
    ensures
        ata_header_at(ata_header_bytes(h) + data) == h,
        (ata_header_bytes(h) + data).subrange(ata_header_size(), (ata_header_bytes(h) + data).len() as int) == data,
{
    let hb = ata_header_bytes(h);
    let s = hb + data;
    let t = task_file_offset();
    lemma_le16_roundtrip(h.length);
    lemma_le16_roundtrip(h.ata_flags);
    lemma_le32_roundtrip(h.data_transfer_length);
    lemma_le32_roundtrip(h.timeout_value);
    lemma_le32_roundtrip(h.reserved_as_ulong);
    assert(s.subrange(0, 2) =~= le16(h.length));
    assert(s.subrange(2, 4) =~= le16(h.ata_flags));
    assert(s.subrange(8, 12) =~= le32(h.data_transfer_length));
    assert(s.subrange(12, 16) =~= le32(h.timeout_value));
    assert(s.subrange(16, 20) =~= le32(h.reserved_as_ulong));
    if usize::BITS == 64 {
        let v = h.data_buffer_offset;
        lemma_le64_roundtrip(v as u64);
        assert(s.subrange(24, 32) =~= le64(v as u64));
        assert(usize::BITS == 64 ==> (v as u64) as usize == v) by (bit_vector);
    } else {
        let v = h.data_buffer_offset;
        lemma_le32_roundtrip(v as u32);
        assert(s.subrange(20, 24) =~= le32(v as u32));
        assert(usize::BITS != 64 ==> (v as u32) as usize == v) by (bit_vector);
    }
    assert(hb.len() == ata_header_size());
    assert(ata_header_at(s).previous_task_file =~= h.previous_task_file);
    assert(ata_header_at(s).current_task_file =~= h.current_task_file);
    assert(s.subrange(ata_header_size(), s.len() as int) =~= data);
}

/// Builds the request for an ATA command with the given task-file
/// registers and a zeroed data buffer of `data_len` bytes; `previous`, when
/// given, holds the high-order registers of a 48-bit command.
pub fn build_ata_packet(
    direction: AtaDirection,
    use_dma: bool,
    command: u8,
    features: u8,
    count: u8,
    lba_low: u8,
    lba_mid: u8,
    lba_high: u8,
    device: u8,
    previous: Option<[u8; 5]>,
    data_len: usize,
    timeout_seconds: u32,
) -> (packet: AtaPacket)
    ensures
        packet.header.length == ata_header_size(),
        packet.header.ata_flags == request_flags(direction, use_dma, previous is Some),
        packet.header.path_id == 0,
        packet.header.target_id == 0,
        packet.header.lun == 0,
        packet.header.reserved_as_uchar == 0,
        packet.header.data_transfer_length == data_len as u32,
        packet.header.timeout_value == timeout_seconds,
        packet.header.reserved_as_ulong == 0,
        packet.header.data_buffer_offset == (if data_len == 0 { 0 } else { ata_header_size() }),
        packet.header.previous_task_file@ == previous_registers(previous),
        packet.header.current_task_file@ == current_registers(
            command,
            features,
            count,
            lba_low,
            lba_mid,
            lba_high,
            device,
        ),
        packet.data@ == zeros(data_len as nat),
{
    let header_len = ata_header_len();
    let mut flags: u16 = match direction {
        AtaDirection::NoData => 0,
        AtaDirection::Read => ATA_FLAGS_DATA_IN,
        AtaDirection::Write => ATA_FLAGS_DATA_OUT,
    };
    if use_dma {
        flags = flags | ATA_FLAGS_USE_DMA;
    }
    if previous.is_some() {
        flags = flags | ATA_FLAGS_48BIT_COMMAND;
    }
    proof {
        let d = direction_flag(direction);
        assert(d | 0u16 == d) by (bit_vector);
        assert((d | ATA_FLAGS_USE_DMA) | 0u16 == d | ATA_FLAGS_USE_DMA) by (bit_vector);
    }

    let mut previous_task_file = [0u8; 8];
    match previous {
        Some(p) => {
            previous_task_file[0] = p[0];
            previous_task_file[1] = p[1];
            previous_task_file[2] = p[2];
            previous_task_file[3] = p[3];
            previous_task_file[4] = p[4];
        },
        None => {},
    }
    assert(previous_task_file@ =~= previous_registers(previous));
    let current_task_file = [features, count, lba_low, lba_mid, lba_high, device, command, 0];
    assert(current_task_file@ =~= current_registers(command, features, count, lba_low, lba_mid, lba_high, device));

    let header = AtaPassThroughEx {
        length: header_len as u16,
        ata_flags: flags,
        path_id: 0,
        target_id: 0,
        lun: 0,
        reserved_as_uchar: 0,
        data_transfer_length: data_len as u32,
        timeout_value: timeout_seconds,
        reserved_as_ulong: 0,
        data_buffer_offset: if data_len == 0 { 0 } else { header_len },
        previous_task_file,
        current_task_file,
    };
    let mut data: Vec<u8> = Vec::new();
    push_zeros(&mut data, data_len);
    AtaPacket { header, data }
}

/// A reply that reports the whole request back, shows the transfer of
/// exactly the requested data and a status without error or device fault,
/// is accepted.
pub proof fn lemma_clean_full_reply_accepted(header: AtaPassThroughEx, data_len: nat, command: u8)
    requires
        header.data_transfer_length == data_len,
        ata_header_size() + data_len <= u32::MAX,
        header.current_task_file[6] & (ATA_STATUS_ERROR | ATA_STATUS_DEVICE_FAULT) == 0,
    ensures
        ata_reply_verdict(
            header,
            data_len,
            (ata_header_size() + data_len) as u32,
            command,
            data_len as usize,
        ) == Ok::<(), AtaResponseError>(()),
{
}

/// Checks the reply to a request before its data is used.
pub fn validate_ata_response(
    packet: &AtaPacket,
    returned: u32,
    command: u8,
    expected_data_len: usize,
) -> (r: Result<(), AtaResponseError>)
    ensures
        r == ata_reply_verdict(packet.header, packet.data@.len(), returned, command, expected_data_len),
{
    let data_len = packet.data.len();
    let header_len = ata_header_len() as u32;
    if returned < header_len || (returned - header_len) as usize > data_len {
        return Err(AtaResponseError::InvalidByteCount { returned, command });
    }
    let header = &packet.header;
    if header.data_transfer_length as usize != expected_data_len {
        return Err(
            AtaResponseError::PartialTransfer {
                transferred: header.data_transfer_length,
                expected: expected_data_len,
                command,
            },
        );
    }
    if expected_data_len != 0 && ((returned - header_len) as usize) < expected_data_len {
        return Err(AtaResponseError::TruncatedData { command });
    }
    let task_file = header.current_task_file;
    if task_file[6] & (ATA_STATUS_ERROR | ATA_STATUS_DEVICE_FAULT) != 0 {
        return Err(
            AtaResponseError::CommandFailed { command, status: task_file[6], error: task_file[0] },
        );
    }
    Ok(())
}

/// Checks the reply to a read request and, when it passes, copies the
/// first `output.len()` data bytes into `output`; a refused reply leaves
/// `output` unchanged.
pub fn copy_ata_read_data(
    packet: &AtaPacket,
    returned: u32,
    command: u8,
    output: &mut [u8],
) -> (r: Result<(), AtaResponseError>)
    ensures
        r == ata_reply_verdict(packet.header, packet.data@.len(), returned, command, old(output)@.len() as usize),
        r is Ok ==> final(output)@ == packet.data@.subrange(0, old(output)@.len() as int),
        r is Err ==> final(output)@ == old(output)@,
{
    let n = output.len();
    let checked = validate_ata_response(packet, returned, command, n);
    match checked {
        Err(e) => {
            return Err(e);
        },
        Ok(()) => {},
    }
    assert(n <= packet.data@.len());
    let mut i: usize = 0;
    while i < n
        invariant
            i <= n,
            n == output@.len(),
            n <= packet.data@.len(),
            forall|k: int| 0 <= k < i ==> output@[k] == packet.data@[k],
        decreases n - i,
    {
        output[i] = packet.data[i];
        i = i + 1;
    }
    assert(output@ =~= packet.data@.subrange(0, n as int));
    Ok(())
}

} // verus!
