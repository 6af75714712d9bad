//! The NVMe admin command request of the Windows storage stack
//! (`STORAGE_PROTOCOL_COMMAND`) and the checks made on its reply.

use vstd::prelude::*;

use crate::text::push_char;
use crate::bytes::{get_le32, le32, le_words, lemma_le32_roundtrip, lemma_le_words, push_le32, push_range, push_zeros, read_le32, zeros};

verus! {

pub const STORAGE_PROTOCOL_STRUCTURE_VERSION: u32 = 1;
/// Length of the SDK structure, trailing `Command[ANYSIZE_ARRAY]` included.
pub const STORAGE_PROTOCOL_COMMAND_SIZE: u32 = 84;
pub const PROTOCOL_TYPE_NVME: u32 = 3;
pub const STORAGE_PROTOCOL_COMMAND_FLAG_ADAPTER_REQUEST: u32 = 0x8000_0000;
pub const STORAGE_PROTOCOL_STATUS_SUCCESS: u32 = 1;
pub const STORAGE_PROTOCOL_SPECIFIC_NVME_ADMIN_COMMAND: u32 = 1;
/// Length of an NVMe submission queue entry.
pub const NVME_COMMAND_LEN: usize = 64;
/// Offset of the embedded NVMe command: the fixed part of the structure.
pub const PROTOCOL_HEADER_LEN: usize = 80;
/// Offset of the data buffer in a request, right after the command.
pub const PROTOCOL_DATA_OFFSET: usize = 144;
/// Length of the error-information buffer: one NVMe Error Information log entry.
pub const NVME_ERROR_INFO_LEN: usize = 64;
pub const DEFAULT_TIMEOUT_SECONDS: u32 = 10;

/// The fixed part of `STORAGE_PROTOCOL_COMMAND`, field by field.
#[derive(Clone, Copy, Debug)]
pub struct StorageProtocolCommand {
    pub version: u32,
    pub length: u32,
    pub protocol_type: u32,
    pub flags: u32,
    pub return_status: u32,
    pub error_code: u32,
    pub command_length: u32,
    pub error_info_length: u32,
    pub data_to_device_transfer_length: u32,
    pub data_from_device_transfer_length: u32,
    pub timeout_value: u32,
    pub error_info_offset: u32,
    pub data_to_device_buffer_offset: u32,
    pub data_from_device_buffer_offset: u32,
    pub command_specific: u32,
    pub reserved0: u32,
    pub fixed_protocol_return_data: u32,
    pub fixed_protocol_return_data2: u32,
    pub reserved1: [u32; 2],
}

/// Which way the data of an admin command flows.
#[derive(Clone, Copy, Debug)]
pub enum DataDirection {
    NoData,
    Read,
    Write,
}

/// A request: the structure's fixed part, the 64-byte NVMe command, the
/// data buffer, and the error-information buffer, laid out one after the other.
pub struct ProtocolPacket {
    pub header: StorageProtocolCommand,
    pub command: Vec<u8>,
    pub data: Vec<u8>,
    pub error_info: Vec<u8>,
}

/// The fields of the fixed part in memory order, each a 32-bit word.
pub open spec fn header_words(h: StorageProtocolCommand) -> Seq<u32> {
    seq![
        h.version, h.length, h.protocol_type, h.flags, h.return_status, h.error_code,
        h.command_length, h.error_info_length, h.data_to_device_transfer_length,
        h.data_from_device_transfer_length, h.timeout_value, h.error_info_offset,
        h.data_to_device_buffer_offset, h.data_from_device_buffer_offset, h.command_specific,
        h.reserved0, h.fixed_protocol_return_data, h.fixed_protocol_return_data2,
        h.reserved1[0], h.reserved1[1],
    ]
}

/// The bytes of the fixed part.
pub open spec fn header_bytes(h: StorageProtocolCommand) -> Seq<u8> {
    le_words(header_words(h))
}

/// The 32-bit word `i` of the fixed part stored at the start of `s`.
pub open spec fn header_word(s: Seq<u8>, i: int) -> u32 {
    get_le32(s, 4 * i)
}

/// The fixed part stored at the start of `s`: field `i` is word `i`.
pub open spec fn header_at(s: Seq<u8>) -> StorageProtocolCommand {
    StorageProtocolCommand {
        version: header_word(s, 0),
        length: header_word(s, 1),
        protocol_type: header_word(s, 2),
        flags: header_word(s, 3),
        return_status: header_word(s, 4),
        error_code: header_word(s, 5),
        command_length: header_word(s, 6),
        error_info_length: header_word(s, 7),
        data_to_device_transfer_length: header_word(s, 8),
        data_from_device_transfer_length: header_word(s, 9),
        timeout_value: header_word(s, 10),
        error_info_offset: header_word(s, 11),
        data_to_device_buffer_offset: header_word(s, 12),
        data_from_device_buffer_offset: header_word(s, 13),
        command_specific: header_word(s, 14),
        reserved0: header_word(s, 15),
        fixed_protocol_return_data: header_word(s, 16),
        fixed_protocol_return_data2: header_word(s, 17),
        reserved1: [header_word(s, 18), header_word(s, 19)],
    }
}

/// The fixed part is 80 bytes and puts each field at its offset in the SDK
/// structure: word `i` (bytes `4 * i` to `4 * i + 4`, little-endian) is, in
/// order, Version, Length, ProtocolType, Flags, ReturnStatus, ErrorCode,
/// CommandLength, ErrorInfoLength, DataToDeviceTransferLength,
/// DataFromDeviceTransferLength, TimeOutValue, ErrorInfoOffset,
/// DataToDeviceBufferOffset, DataFromDeviceBufferOffset, CommandSpecific,
/// Reserved0, FixedProtocolReturnData, FixedProtocolReturnData2, Reserved1[0]
/// and Reserved1[1], whatever follows the fixed part.
pub proof fn lemma_header_field_offsets(h: StorageProtocolCommand, rest: Seq<u8>)
    ensures
        header_bytes(h).len() == 80,
        get_le32(header_bytes(h) + rest, 0) == h.version,
        get_le32(header_bytes(h) + rest, 4) == h.length,
        get_le32(header_bytes(h) + rest, 8) == h.protocol_type,
        get_le32(header_bytes(h) + rest, 12) == h.flags,
        get_le32(header_bytes(h) + rest, 16) == h.return_status,
        get_le32(header_bytes(h) + rest, 20) == h.error_code,
        get_le32(header_bytes(h) + rest, 24) == h.command_length,
        get_le32(header_bytes(h) + rest, 28) == h.error_info_length,
        get_le32(header_bytes(h) + rest, 32) == h.data_to_device_transfer_length,
        get_le32(header_bytes(h) + rest, 36) == h.data_from_device_transfer_length,
        get_le32(header_bytes(h) + rest, 40) == h.timeout_value,
        get_le32(header_bytes(h) + rest, 44) == h.error_info_offset,
        get_le32(header_bytes(h) + rest, 48) == h.data_to_device_buffer_offset,
        get_le32(header_bytes(h) + rest, 52) == h.data_from_device_buffer_offset,
        get_le32(header_bytes(h) + rest, 56) == h.command_specific,
        get_le32(header_bytes(h) + rest, 60) == h.reserved0,
        get_le32(header_bytes(h) + rest, 64) == h.fixed_protocol_return_data,
        get_le32(header_bytes(h) + rest, 68) == h.fixed_protocol_return_data2,
        get_le32(header_bytes(h) + rest, 72) == h.reserved1[0],
        get_le32(header_bytes(h) + rest, 76) == h.reserved1[1],
{
    let ws = header_words(h);
    let hb = header_bytes(h);
    let s = hb + rest;
    lemma_le_words(ws);
    assert forall|i: int| 0 <= i < 20 implies #[trigger] header_word(s, i) == ws[i] by {
        assert(s.subrange(4 * i, 4 * i + 4) =~= hb.subrange(4 * i, 4 * i + 4));
        assert(get_le32(hb, 4 * i) == ws[i]);
    }
    assert(header_word(s, 0) == ws[0]);
    assert(header_word(s, 1) == ws[1]);
    assert(header_word(s, 2) == ws[2]);
    assert(header_word(s, 3) == ws[3]);
    assert(header_word(s, 4) == ws[4]);
    assert(header_word(s, 5) == ws[5]);
    assert(header_word(s, 6) == ws[6]);
    assert(header_word(s, 7) == ws[7]);
    assert(header_word(s, 8) == ws[8]);
    assert(header_word(s, 9) == ws[9]);
    assert(header_word(s, 10) == ws[10]);
    assert(header_word(s, 11) == ws[11]);
    assert(header_word(s, 12) == ws[12]);
    assert(header_word(s, 13) == ws[13]);
    assert(header_word(s, 14) == ws[14]);
    assert(header_word(s, 15) == ws[15]);
    assert(header_word(s, 16) == ws[16]);
    assert(header_word(s, 17) == ws[17]);
    assert(header_word(s, 18) == ws[18]);
    assert(header_word(s, 19) == ws[19]);
}

/// The number of bytes of a request.
pub open spec fn request_len(p: ProtocolPacket) -> int {
    PROTOCOL_HEADER_LEN + p.command@.len() + p.data@.len() + p.error_info@.len()
}

/// The fixed part of an NVMe admin command request: an adapter request of
/// protocol type NVMe with a 64-byte command, the given timeout, a data
/// buffer of `data_len` bytes right after the command in the direction
/// given, and a 64-byte error-information buffer right after the data buffer.
pub open spec fn admin_header(direction: DataDirection, data_len: usize, timeout_seconds: u32) -> StorageProtocolCommand {
    let len = data_len as u32;
    StorageProtocolCommand {
        version: STORAGE_PROTOCOL_STRUCTURE_VERSION,
        length: STORAGE_PROTOCOL_COMMAND_SIZE,
        protocol_type: PROTOCOL_TYPE_NVME,
        flags: STORAGE_PROTOCOL_COMMAND_FLAG_ADAPTER_REQUEST,
        return_status: 0,
        error_code: 0,
        command_length: NVME_COMMAND_LEN as u32,
        error_info_length: NVME_ERROR_INFO_LEN as u32,
        data_to_device_transfer_length: if direction is Write { len } else { 0 },
        data_from_device_transfer_length: if direction is Read { len } else { 0 },
        timeout_value: timeout_seconds,
        error_info_offset: (PROTOCOL_DATA_OFFSET + data_len) as u32,
        data_to_device_buffer_offset: if direction is Write { PROTOCOL_DATA_OFFSET as u32 } else { 0 },
        data_from_device_buffer_offset: if direction is Read { PROTOCOL_DATA_OFFSET as u32 } else { 0 },
        command_specific: STORAGE_PROTOCOL_SPECIFIC_NVME_ADMIN_COMMAND,
        reserved0: 0,
        fixed_protocol_return_data: 0,
        fixed_protocol_return_data2: 0,
        reserved1: [0u32, 0u32],
    }
}

/// The 64-byte NVMe submission queue entry: opcode in byte 0, NSID in bytes
/// 4-7, and CDW10-CDW15 in bytes 40-63, everything else zero.
pub open spec fn nvme_command_bytes(opcode: u8, nsid: u32, cdws: Seq<u32>) -> Seq<u8> {
    seq![opcode, 0u8, 0u8, 0u8] + le32(nsid) + zeros(32) + le_words(cdws)
}

/// The 64-byte NVMe command holds the opcode in byte 0, the NSID as a
/// little-endian word at byte 4 and CDW10 to CDW15 as little-endian words at
/// bytes 40, 44, ..., 60; bytes 1-3 and 8-39 are zero.
pub proof fn lemma_command_fields(opcode: u8, nsid: u32, cdws: Seq<u32>)
    requires
        cdws.len() == 6,
    ensures
        ({
            let c = nvme_command_bytes(opcode, nsid, cdws);
            &&& c.len() == 64
            &&& c[0] == opcode
            &&& c[1] == 0 && c[2] == 0 && c[3] == 0
            &&& get_le32(c, 4) == nsid
            &&& forall|i: int| 8 <= i < 40 ==> #[trigger] c[i] == 0
            &&& forall|i: int| 0 <= i < 6 ==> #[trigger] get_le32(c, 40 + 4 * i) == cdws[i]
        }),
{
    let c = nvme_command_bytes(opcode, nsid, cdws);
    let w = le_words(cdws);
    lemma_le32_roundtrip(nsid);
    lemma_le_words(cdws);
    assert(c.subrange(4, 8) =~= le32(nsid));
    assert forall|i: int| 0 <= i < 6 implies #[trigger] get_le32(c, 40 + 4 * i) == cdws[i] by {
        assert(c.subrange(40 + 4 * i, 44 + 4 * i) =~= w.subrange(4 * i, 4 * i + 4));
        assert(get_le32(w, 4 * i) == cdws[i]);
    }
}

/// What the fixed part of an admin command request says, field by field:
/// version 1, structure length 84, protocol type 3 (NVMe), the adapter-request
/// flag 0x8000_0000, command length 64, a 64-byte error-information buffer
/// right after the data buffer, the timeout given, command-specific value 1
/// (admin command), and for a read (write) the data length and offset 144 in
/// the from-device (to-device) fields, the other direction's fields zero.
pub proof fn lemma_admin_header_fields(direction: DataDirection, data_len: usize, timeout_seconds: u32)
    requires
        data_len + 208 <= u32::MAX,
    ensures
        ({
            let h = admin_header(direction, data_len, timeout_seconds);
            &&& h.version == 1
            &&& h.length == 84
            &&& h.protocol_type == 3
            &&& h.flags == 0x8000_0000
            &&& h.return_status == 0 && h.error_code == 0
            &&& h.command_length == 64
            &&& h.error_info_length == 64
            &&& h.error_info_offset == 144 + data_len
            &&& h.timeout_value == timeout_seconds
            &&& h.command_specific == 1
            &&& h.reserved0 == 0 && h.fixed_protocol_return_data == 0 && h.fixed_protocol_return_data2 == 0
            &&& h.reserved1[0] == 0 && h.reserved1[1] == 0
            &&& h.data_from_device_transfer_length == (if direction is Read { data_len } else { 0 })
            &&& h.data_from_device_buffer_offset == (if direction is Read { 144u32 } else { 0u32 })
            &&& h.data_to_device_transfer_length == (if direction is Write { data_len } else { 0 })
            &&& h.data_to_device_buffer_offset == (if direction is Write { 144u32 } else { 0u32 })
        }),
{
    let len = data_len as u32;
    assert(data_len <= 0xffff_ffff ==> len == data_len) by (bit_vector)
        requires
            len == data_len as u32,
    ;
    let sum: usize = (PROTOCOL_DATA_OFFSET + data_len) as usize;
    assert(sum <= 0xffff_ffff ==> (sum as u32) == sum) by (bit_vector);
}

/// Builds the request for an NVMe admin command with a zeroed data buffer
/// of `data_len` bytes and a zeroed error-information buffer. When the
/// request's offsets fit in 32 bits, the error-information buffer lies inside
/// the request, after the fixed part, the command and the data buffer.
pub fn build_protocol_command(
    direction: DataDirection,
    opcode: u8,
    nsid: u32,
    cdws: [u32; 6],
    data_len: usize,
    timeout_seconds: u32,
) -> (packet: ProtocolPacket)
    ensures
        packet.header == admin_header(direction, data_len, timeout_seconds),
        packet.command@ == nvme_command_bytes(opcode, nsid, cdws@),
        packet.data@ == zeros(data_len as nat),
        packet.error_info@ == zeros(NVME_ERROR_INFO_LEN as nat),
        header_bytes(packet.header).len() == PROTOCOL_HEADER_LEN,
        request_len(packet) == PROTOCOL_DATA_OFFSET + data_len + NVME_ERROR_INFO_LEN,
        packet.header.error_info_length > 0,
        PROTOCOL_DATA_OFFSET + data_len + NVME_ERROR_INFO_LEN <= u32::MAX ==> {
            &&& packet.header.error_info_offset == PROTOCOL_DATA_OFFSET + data_len
            &&& packet.header.error_info_offset + packet.header.error_info_length == request_len(packet)
        },
{
    let len = #[verifier::truncate] (data_len as u32);
    let offset = PROTOCOL_DATA_OFFSET as u32;
    let error_offset = #[verifier::truncate] ((len as u64 + 144) as u32);
    assert(error_offset == (144 + data_len) as u32 && (144 + data_len <= 0xffff_ffff ==> error_offset == 144 + data_len)) by (bit_vector)
        requires
            len == data_len as u32,
            error_offset == (len as u64 + 144) as u32,
    ;
    let header = StorageProtocolCommand {
        version: STORAGE_PROTOCOL_STRUCTURE_VERSION,
        length: STORAGE_PROTOCOL_COMMAND_SIZE,
        protocol_type: PROTOCOL_TYPE_NVME,
        flags: STORAGE_PROTOCOL_COMMAND_FLAG_ADAPTER_REQUEST,
        return_status: 0,
        error_code: 0,
        command_length: NVME_COMMAND_LEN as u32,
        error_info_length: NVME_ERROR_INFO_LEN as u32,
        data_to_device_transfer_length: match direction {
            DataDirection::Write => len,
            _ => 0,
        },
        data_from_device_transfer_length: match direction {
            DataDirection::Read => len,
            _ => 0,
        },
        timeout_value: timeout_seconds,
        error_info_offset: error_offset,
        data_to_device_buffer_offset: match direction {
            DataDirection::Write => offset,
            _ => 0,
        },
        data_from_device_buffer_offset: match direction {
            DataDirection::Read => offset,
            _ => 0,
        },
        command_specific: STORAGE_PROTOCOL_SPECIFIC_NVME_ADMIN_COMMAND,
        reserved0: 0,
        fixed_protocol_return_data: 0,
        fixed_protocol_return_data2: 0,
        reserved1: [0, 0],
    };

    let mut command: Vec<u8> = Vec::new();
    command.push(opcode);
    push_zeros(&mut command, 3);
    push_le32(&mut command, nsid);
    push_zeros(&mut command, 32);
    let ghost prefix = command@;
    let mut index: usize = 0;
    while index < 6
        invariant
            index <= 6,
            command@ == prefix + le_words(cdws@.subrange(0, index as int)),
        decreases 6 - index,
    {
        push_le32(&mut command, cdws[index]);
        assert(cdws@.subrange(0, index + 1).drop_last() =~= cdws@.subrange(0, index as int));
        index = index + 1;
    }
    assert(cdws@.subrange(0, 6) =~= cdws@);
    proof {
        lemma_le_words(header_words(header));
        lemma_le_words(cdws@);
        lemma_le32_roundtrip(nsid);
    }
    assert(command@ =~= nvme_command_bytes(opcode, nsid, cdws@));

    let mut data: Vec<u8> = Vec::new();
    push_zeros(&mut data, data_len);
    let mut error_info: Vec<u8> = Vec::new();
    push_zeros(&mut error_info, NVME_ERROR_INFO_LEN);
    ProtocolPacket { header, command, data, error_info }
}

impl ProtocolPacket {
    /// The fixed part of the request.
    pub fn header(&self) -> (h: StorageProtocolCommand)
        ensures
            h == self.header,
    {
        self.header
    }

    /// The request as the bytes handed to the storage stack.
    pub fn as_bytes(&self) -> (bytes: Vec<u8>)
        ensures
            bytes@ == header_bytes(self.header) + self.command@ + self.data@ + self.error_info@,
    {
        let h = self.header;
        let words: [u32; 20] = [
            h.version, h.length, h.protocol_type, h.flags, h.return_status, h.error_code,
            h.command_length, h.error_info_length, h.data_to_device_transfer_length,
            h.data_from_device_transfer_length, h.timeout_value, h.error_info_offset,
            h.data_to_device_buffer_offset, h.data_from_device_buffer_offset, h.command_specific,
            h.reserved0, h.fixed_protocol_return_data, h.fixed_protocol_return_data2,
            h.reserved1[0], h.reserved1[1],
        ];
        assert(words@ =~= header_words(h));
        let mut bytes: Vec<u8> = Vec::new();
        let mut index: usize = 0;
        while index < 20
            invariant
                index <= 20,
                words@ == header_words(h),
                bytes@ == le_words(words@.subrange(0, index as int)),
            decreases 20 - index,
        {
            push_le32(&mut bytes, words[index]);
            assert(words@.subrange(0, index + 1).drop_last() =~= words@.subrange(0, index as int));
            index = index + 1;
        }
        assert(words@.subrange(0, 20) =~= words@);
        let clen = self.command.len();
        push_range(&mut bytes, self.command.as_slice(), 0, clen);
        let dlen = self.data.len();
        push_range(&mut bytes, self.data.as_slice(), 0, dlen);
        let elen = self.error_info.len();
        push_range(&mut bytes, self.error_info.as_slice(), 0, elen);
        assert(self.command@.subrange(0, clen as int) =~= self.command@);
        assert(self.data@.subrange(0, dlen as int) =~= self.data@);
        assert(self.error_info@.subrange(0, elen as int) =~= self.error_info@);
        bytes
    }

    /// The request as the storage stack handed it back, for a data buffer of
    /// `data_len` bytes: the fixed part, the command, the data buffer, and
    /// everything after it as the error-information buffer.
    pub fn from_bytes(bytes: &[u8], data_len: usize) -> (packet: ProtocolPacket)
        requires
            PROTOCOL_DATA_OFFSET + data_len <= bytes@.len(),
        ensures
            packet.header == header_at(bytes@),
            packet.command@ == bytes@.subrange(PROTOCOL_HEADER_LEN as int, PROTOCOL_DATA_OFFSET as int),
            packet.data@ == bytes@.subrange(PROTOCOL_DATA_OFFSET as int, PROTOCOL_DATA_OFFSET + data_len),
            packet.error_info@ == bytes@.subrange(PROTOCOL_DATA_OFFSET + data_len, bytes@.len() as int),
    {
        let header = StorageProtocolCommand {
            version: read_le32(bytes, 0),
            length: read_le32(bytes, 4),
            protocol_type: read_le32(bytes, 8),
            flags: read_le32(bytes, 12),
            return_status: read_le32(bytes, 16),
            error_code: read_le32(bytes, 20),
            command_length: read_le32(bytes, 24),
            error_info_length: read_le32(bytes, 28),
            data_to_device_transfer_length: read_le32(bytes, 32),
            data_from_device_transfer_length: read_le32(bytes, 36),
            timeout_value: read_le32(bytes, 40),
            error_info_offset: read_le32(bytes, 44),
            data_to_device_buffer_offset: read_le32(bytes, 48),
            data_from_device_buffer_offset: read_le32(bytes, 52),
            command_specific: read_le32(bytes, 56),
            reserved0: read_le32(bytes, 60),
            fixed_protocol_return_data: read_le32(bytes, 64),
            fixed_protocol_return_data2: read_le32(bytes, 68),
            reserved1: [read_le32(bytes, 72), read_le32(bytes, 76)],
        };
        let n = bytes.len();
        let data_end = PROTOCOL_DATA_OFFSET + data_len;
        let mut command: Vec<u8> = Vec::new();
        push_range(&mut command, bytes, PROTOCOL_HEADER_LEN, PROTOCOL_DATA_OFFSET);
        let mut data: Vec<u8> = Vec::new();
        push_range(&mut data, bytes, PROTOCOL_DATA_OFFSET, data_end);
        let mut error_info: Vec<u8> = Vec::new();
        push_range(&mut error_info, bytes, data_end, n);
        assert(command@ =~= bytes@.subrange(PROTOCOL_HEADER_LEN as int, PROTOCOL_DATA_OFFSET as int));
        assert(data@ =~= bytes@.subrange(PROTOCOL_DATA_OFFSET as int, data_end as int));
        assert(error_info@ =~= bytes@.subrange(data_end as int, n as int));
        ProtocolPacket { header, command, data, error_info }
    }
}

/// Reading back the bytes of a request gives the request: the fixed part,
/// the 64-byte command, the data buffer and the error-information buffer.
pub proof fn lemma_packet_bytes_roundtrip(
    h: StorageProtocolCommand,
    command: Seq<u8>,
    data: Seq<u8>,
    error_info: Seq<u8>,
)
    requires
        command.len() == NVME_COMMAND_LEN,
    ensures
        ({
            let s = header_bytes(h) + command + data + error_info;
            &&& header_at(s) == h
            &&& s.subrange(PROTOCOL_HEADER_LEN as int, PROTOCOL_DATA_OFFSET as int) == command
            &&& s.subrange(PROTOCOL_DATA_OFFSET as int, PROTOCOL_DATA_OFFSET + data.len()) == data
            &&& s.subrange(PROTOCOL_DATA_OFFSET + data.len(), s.len() as int) == error_info
        }),
{
    let ws = header_words(h);
    let hb = header_bytes(h);
    let s = hb + command + data + error_info;
    lemma_le_words(ws);
    assert forall|i: int| 0 <= i < 20 implies #[trigger] header_word(s, i) == ws[i] by {
        assert(s.subrange(4 * i, 4 * i + 4) =~= hb.subrange(4 * i, 4 * i + 4));
        assert(get_le32(hb, 4 * i) == ws[i]);
    }
    assert(header_at(s).reserved1 =~= h.reserved1);
    assert(s.subrange(PROTOCOL_HEADER_LEN as int, PROTOCOL_DATA_OFFSET as int) =~= command);
    assert(s.subrange(PROTOCOL_DATA_OFFSET as int, PROTOCOL_DATA_OFFSET + data.len()) =~= data);
    assert(s.subrange(PROTOCOL_DATA_OFFSET + data.len(), s.len() as int) =~= error_info);
}

/// A request the storage stack refused: its return status and NVMe status.
#[derive(Clone, Copy, Debug)]
pub struct CommandRejected {
    pub return_status: u32,
    pub error_code: u32,
}

/// The outcome of a completed request: its fixed protocol return data (the
/// command's completion dword 0) when the return status is success, else the
/// return status and NVMe status.
pub fn protocol_command_status(header: &StorageProtocolCommand) -> (r: Result<u32, CommandRejected>)
    ensures
        header.return_status == STORAGE_PROTOCOL_STATUS_SUCCESS ==> r == Ok::<u32, CommandRejected>(
            header.fixed_protocol_return_data,
        ),
        header.return_status != STORAGE_PROTOCOL_STATUS_SUCCESS ==> r == Err::<u32, CommandRejected>(
            CommandRejected { return_status: header.return_status, error_code: header.error_code },
        ),
{
    if header.return_status != STORAGE_PROTOCOL_STATUS_SUCCESS {
        return Err(CommandRejected { return_status: header.return_status, error_code: header.error_code });
    }
    Ok(header.fixed_protocol_return_data)
}

/// Why the reply to a read request is refused.
#[derive(Clone, Copy, Debug)]
pub enum ProtocolReadError {
    /// The storage stack or the drive refused the command.
    Rejected { return_status: u32, error_code: u32 },
    /// The drive moved fewer bytes than requested.
    ShortTransfer { transferred: u32, expected: usize },
    /// The reply ends before the requested data does.
    TruncatedReply { returned: u32, expected: usize },
}

/// The verdict on the reply to a read request of `expected` bytes whose
/// structure reads `header`, after the storage stack reported `returned`
/// bytes. The checks run in this order: the return status is success; the
/// drive moved at least the requested bytes; the reply reaches the end of the
/// requested data. An accepted reply gives the fixed protocol return data.
pub open spec fn protocol_read_verdict(
    header: StorageProtocolCommand,
    returned: u32,
    expected: usize,
) -> Result<u32, ProtocolReadError> {
    if header.return_status != STORAGE_PROTOCOL_STATUS_SUCCESS {
        Err(ProtocolReadError::Rejected { return_status: header.return_status, error_code: header.error_code })
    } else if header.data_from_device_transfer_length < expected {
        Err(
            ProtocolReadError::ShortTransfer {
                transferred: header.data_from_device_transfer_length,
                expected,
            },
        )
    } else if returned < PROTOCOL_DATA_OFFSET + expected {
        Err(ProtocolReadError::TruncatedReply { returned, expected })
    } else {
        Ok(header.fixed_protocol_return_data)
    }
}

/// A successful reply that reports fewer bytes moved than requested, or
/// that ends before the requested data does, is refused: no data of such a
/// reply is handed on.
pub proof fn lemma_short_read_refused(header: StorageProtocolCommand, returned: u32, expected: usize)
    requires
        header.return_status == STORAGE_PROTOCOL_STATUS_SUCCESS,
        header.data_from_device_transfer_length < expected || returned < PROTOCOL_DATA_OFFSET + expected,
    ensures
        protocol_read_verdict(header, returned, expected) is Err,
{
}

/// Checks the reply to a read request before its data is used.
pub fn validate_protocol_read(
    header: &StorageProtocolCommand,
    returned: u32,
    expected: usize,
) -> (r: Result<u32, ProtocolReadError>)
    ensures
        r == protocol_read_verdict(*header, returned, expected),
        r is Ok <==> (header.return_status == STORAGE_PROTOCOL_STATUS_SUCCESS
            && header.data_from_device_transfer_length >= expected
            && returned >= PROTOCOL_DATA_OFFSET + expected),
{
    if header.return_status != STORAGE_PROTOCOL_STATUS_SUCCESS {
        return Err(ProtocolReadError::Rejected { return_status: header.return_status, error_code: header.error_code });
    }
    if (header.data_from_device_transfer_length as usize) < expected {
        return Err(
            ProtocolReadError::ShortTransfer {
                transferred: header.data_from_device_transfer_length,
                expected,
            },
        );
    }
    if returned < PROTOCOL_DATA_OFFSET as u32 || ((returned - PROTOCOL_DATA_OFFSET as u32) as usize) < expected {
        return Err(ProtocolReadError::TruncatedReply { returned, expected });
    }
    Ok(header.fixed_protocol_return_data)
}

/// Checks the reply to a read request and, when it passes, copies the first
/// `output.len()` data bytes into `output` and gives the fixed protocol
/// return data; a refused reply leaves `output` unchanged.
pub fn copy_protocol_read_data(
    reply: &ProtocolPacket,
    returned: u32,
    output: &mut [u8],
) -> (r: Result<u32, ProtocolReadError>)
    requires
        old(output)@.len() <= reply.data@.len(),
    ensures
        r == protocol_read_verdict(reply.header, returned, old(output)@.len() as usize),
        r is Ok ==> final(output)@ == reply.data@.subrange(0, old(output)@.len() as int),
        r is Err ==> final(output)@ == old(output)@,
{
    let n = output.len();
    let checked = validate_protocol_read(&reply.header, returned, n);
    let result = match checked {
        Err(e) => {
            return Err(e);
        },
        Ok(result) => result,
    };
    let mut i: usize = 0;
    while i < n
        invariant
            i <= n,
            n == output@.len(),
            n <= reply.data@.len(),
            forall|k: int| 0 <= k < i ==> output@[k] == reply.data@[k],
        decreases n - i,
    {
        output[i] = reply.data[i];
        i = i + 1;
    }
    assert(output@ =~= reply.data@.subrange(0, n as int));
    Ok(result)
}

/// `ERROR_INVALID_PARAMETER`, with which some storage stacks refuse a
/// protocol command sent on the physical-drive handle.
pub const ERROR_INVALID_PARAMETER: u32 = 87;

/// Whether a request refused with Windows error `error` is sent again
/// through the drive's storage adapter (`\\.\ScsiN:`): only for
/// `ERROR_INVALID_PARAMETER`.
pub fn retry_through_adapter(error: u32) -> (r: bool)
    ensures
        r == (error == ERROR_INVALID_PARAMETER),
{
    error == ERROR_INVALID_PARAMETER
}

/// The decimal digits of `n`, most significant first.
pub open spec fn decimal_text(n: nat) -> Seq<char>
    decreases n,
{
    if n < 10 {
        seq![(('0' as int) + n) as char]
    } else {
        decimal_text(n / 10) + seq![(('0' as int) + n % 10) as char]
    }
}

/// The path of storage adapter (SCSI port) `port`: `\\.\Scsi` followed by
/// the port number in decimal and a colon.
pub open spec fn adapter_path_text(port: u8) -> Seq<char> {
    seq!['\\', '\\', '.', '\\', 'S', 'c', 's', 'i'] + decimal_text(port as nat) + seq![':']
}

fn digit_char(d: u8) -> (c: char)
    requires
        d < 10,
    ensures
        c == (('0' as int) + d) as char,
{
    ((48u8 + d) as char)
}

/// The path of the storage adapter with SCSI port number `port`.
pub fn scsi_adapter_path(port: u8) -> (path: String)
    ensures
        path@ == adapter_path_text(port),
{
    let mut path = String::new();
    push_char(&mut path, '\\');
    push_char(&mut path, '\\');
    push_char(&mut path, '.');
    push_char(&mut path, '\\');
    push_char(&mut path, 'S');
    push_char(&mut path, 'c');
    push_char(&mut path, 's');
    push_char(&mut path, 'i');
    let ghost prefix = path@;
    if port >= 100 {
        push_char(&mut path, digit_char(port / 100));
        push_char(&mut path, digit_char((port / 10) % 10));
        push_char(&mut path, digit_char(port % 10));
        assert(decimal_text(port as nat / 100) =~= seq![(('0' as int) + port / 100) as char]);
        assert(decimal_text(port as nat / 10) =~= decimal_text(port as nat / 100)
            + seq![(('0' as int) + (port as nat / 10) % 10) as char]);
    } else if port >= 10 {
        push_char(&mut path, digit_char(port / 10));
        push_char(&mut path, digit_char(port % 10));
        assert(decimal_text(port as nat / 10) =~= seq![(('0' as int) + port / 10) as char]);
    } else {
        push_char(&mut path, digit_char(port));
    }
    assert(path@ =~= prefix + decimal_text(port as nat));
    push_char(&mut path, ':');
    assert(path@ =~= adapter_path_text(port));
    path
}

/// Length of `SCSI_ADDRESS`, the reply to `IOCTL_SCSI_GET_ADDRESS`.
pub const SCSI_ADDRESS_LEN: usize = 8;

/// The port number of a `SCSI_ADDRESS`: the byte after its 32-bit length.
pub fn scsi_address_port(address: &[u8]) -> (port: u8)
    requires
        address@.len() >= SCSI_ADDRESS_LEN,
    ensures
        port == address@[4],
{
    address[4]
}

} // verus!
