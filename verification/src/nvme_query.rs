//! Protocol-specific property queries of the Windows storage stack
//! (`IOCTL_STORAGE_QUERY_PROPERTY`): Identify Controller data and the
//! Commands Supported and Effects log, and which admin opcodes that log allows.

use vstd::prelude::*;

use crate::bytes::{get_le32, le32, lemma_le32_roundtrip, push_le32, push_zeros, read_le32, zeros};
use crate::nvme_protocol::PROTOCOL_TYPE_NVME;

verus! {

/// `StorageDeviceProtocolSpecificProperty`.
pub const STORAGE_DEVICE_PROTOCOL_SPECIFIC_PROPERTY: u32 = 50;
/// `NVMeDataTypeIdentify`.
pub const NVME_DATA_TYPE_IDENTIFY: u32 = 1;
/// `NVMeDataTypeLogPage`.
pub const NVME_DATA_TYPE_LOG_PAGE: u32 = 2;
/// The Identify CNS value of Identify Controller.
pub const NVME_IDENTIFY_CNS_CONTROLLER: u32 = 1;
/// The log identifier of the Commands Supported and Effects log.
pub const NVME_LOG_COMMAND_EFFECTS: u32 = 0x05;
/// Length of `STORAGE_PROTOCOL_SPECIFIC_DATA`.
pub const PROTOCOL_SPECIFIC_DATA_LEN: usize = 40;
/// Length of the property ID and query type in front of it.
pub const PROTOCOL_DATA_DESCRIPTOR_PREFIX_LEN: usize = 8;
/// Length of the data both queries ask for.
pub const PROTOCOL_DATA_LEN: usize = 4096;
/// Length of a query with room for its reply.
pub const PROTOCOL_QUERY_LEN: usize = 4144;
/// The first vendor-specific admin opcode.
pub const NVME_VENDOR_ADMIN_OPCODE_START: u8 = 0xC0;

/// A property query with room for the reply.
pub struct ProtocolQuery {
    pub bytes: Vec<u8>,
}

impl ProtocolQuery {
    /// The query as the bytes handed to the storage stack.
    pub fn as_bytes(&self) -> (bytes: &[u8])
        ensures
            bytes@ == self.bytes@,
    {
        self.bytes.as_slice()
    }
}

/// The query bytes: property 50 (protocol-specific data) as a standard query,
/// protocol type NVMe, the data type and request value given, request
/// sub-value 0, the protocol data 40 bytes after the descriptor and 4096
/// bytes long, then zeros for the reply.
pub open spec fn protocol_query_bytes(data_type: u32, request_value: u32) -> Seq<u8> {
    le32(STORAGE_DEVICE_PROTOCOL_SPECIFIC_PROPERTY) + le32(0) + le32(PROTOCOL_TYPE_NVME)
        + le32(data_type) + le32(request_value) + le32(0) + le32(PROTOCOL_SPECIFIC_DATA_LEN as u32)
        + le32(PROTOCOL_DATA_LEN as u32) + zeros((PROTOCOL_QUERY_LEN - 32) as nat)
}

/// The Identify Controller query bytes.
pub open spec fn identify_query_bytes() -> Seq<u8> {
    protocol_query_bytes(NVME_DATA_TYPE_IDENTIFY, NVME_IDENTIFY_CNS_CONTROLLER)
}

/// The Commands Supported and Effects log query bytes.
pub open spec fn command_effects_query_bytes() -> Seq<u8> {
    protocol_query_bytes(NVME_DATA_TYPE_LOG_PAGE, NVME_LOG_COMMAND_EFFECTS)
}

fn build_protocol_query(data_type: u32, request_value: u32) -> (query: ProtocolQuery)
    ensures
        query.bytes@ == protocol_query_bytes(data_type, request_value),
{
    let mut bytes: Vec<u8> = Vec::new();
    push_le32(&mut bytes, STORAGE_DEVICE_PROTOCOL_SPECIFIC_PROPERTY);
    push_le32(&mut bytes, 0);
    push_le32(&mut bytes, PROTOCOL_TYPE_NVME);
    push_le32(&mut bytes, data_type);
    push_le32(&mut bytes, request_value);
    push_le32(&mut bytes, 0);
    push_le32(&mut bytes, PROTOCOL_SPECIFIC_DATA_LEN as u32);
    push_le32(&mut bytes, PROTOCOL_DATA_LEN as u32);
    push_zeros(&mut bytes, PROTOCOL_QUERY_LEN - 32);
    assert(bytes@ =~= protocol_query_bytes(data_type, request_value));
    ProtocolQuery { bytes }
}

/// Builds the Identify Controller query.
pub fn build_identify_query() -> (query: ProtocolQuery)
    ensures
        query.bytes@ == identify_query_bytes(),
{
    build_protocol_query(NVME_DATA_TYPE_IDENTIFY, NVME_IDENTIFY_CNS_CONTROLLER)
}

/// Builds the Commands Supported and Effects log query.
pub fn build_command_effects_query() -> (query: ProtocolQuery)
    ensures
        query.bytes@ == command_effects_query_bytes(),
{
    build_protocol_query(NVME_DATA_TYPE_LOG_PAGE, NVME_LOG_COMMAND_EFFECTS)
}

/// What every property query asks, word by word (little-endian 32-bit words
/// at byte `4 * i`): PropertyId 50 (StorageDeviceProtocolSpecificProperty) at
/// byte 0, QueryType 0 (PropertyStandardQuery) at byte 4, ProtocolType 3
/// (NVMe) at 8, the data type at 12, the request value at 16, request
/// sub-value 0 at 20, ProtocolDataOffset 40 at 24 and ProtocolDataLength
/// 4096 at 28; the query is 4144 bytes long and zero from byte 32 on.
pub proof fn lemma_query_fields(data_type: u32, request_value: u32)
    ensures
        ({
            let q = protocol_query_bytes(data_type, request_value);
            &&& q.len() == 4144
            &&& get_le32(q, 0) == 50
            &&& get_le32(q, 4) == 0
            &&& get_le32(q, 8) == 3
            &&& get_le32(q, 12) == data_type
            &&& get_le32(q, 16) == request_value
            &&& get_le32(q, 20) == 0
            &&& get_le32(q, 24) == 40
            &&& get_le32(q, 28) == 4096
            &&& forall|i: int| 32 <= i < 4144 ==> #[trigger] q[i] == 0
        }),
{
    let q = protocol_query_bytes(data_type, request_value);
    lemma_le32_roundtrip(STORAGE_DEVICE_PROTOCOL_SPECIFIC_PROPERTY);
    lemma_le32_roundtrip(0);
    lemma_le32_roundtrip(PROTOCOL_TYPE_NVME);
    lemma_le32_roundtrip(data_type);
    lemma_le32_roundtrip(request_value);
    lemma_le32_roundtrip(PROTOCOL_SPECIFIC_DATA_LEN as u32);
    lemma_le32_roundtrip(PROTOCOL_DATA_LEN as u32);
    assert(q.subrange(0, 4) =~= le32(STORAGE_DEVICE_PROTOCOL_SPECIFIC_PROPERTY));
    assert(q.subrange(4, 8) =~= le32(0));
    assert(q.subrange(8, 12) =~= le32(PROTOCOL_TYPE_NVME));
    assert(q.subrange(12, 16) =~= le32(data_type));
    assert(q.subrange(16, 20) =~= le32(request_value));
    assert(q.subrange(20, 24) =~= le32(0));
    assert(q.subrange(24, 28) =~= le32(PROTOCOL_SPECIFIC_DATA_LEN as u32));
    assert(q.subrange(28, 32) =~= le32(PROTOCOL_DATA_LEN as u32));
}

/// The Identify Controller query is a standard query for NVMe data type 1
/// (Identify) with request value 1 (controller); the Commands Supported and
/// Effects query is a standard query for data type 2 (log page) with request
/// value 5 (the log identifier).
pub proof fn lemma_identify_and_effects_queries()
    ensures
        get_le32(identify_query_bytes(), 4) == 0,
        get_le32(identify_query_bytes(), 12) == 1,
        get_le32(identify_query_bytes(), 16) == 1,
        get_le32(command_effects_query_bytes(), 4) == 0,
        get_le32(command_effects_query_bytes(), 12) == 2,
        get_le32(command_effects_query_bytes(), 16) == 5,
{
    lemma_query_fields(NVME_DATA_TYPE_IDENTIFY, NVME_IDENTIFY_CNS_CONTROLLER);
    lemma_query_fields(NVME_DATA_TYPE_LOG_PAGE, NVME_LOG_COMMAND_EFFECTS);
}

/// The reply held no complete protocol data.
#[derive(Clone, Copy, Debug)]
pub struct InvalidQueryReply;

/// Where the reply puts the protocol data: the protocol data offset (bytes
/// 24-27) counts from the start of the 8-byte descriptor prefix.
pub open spec fn reply_data_start(reply: Seq<u8>) -> int {
    PROTOCOL_DATA_DESCRIPTOR_PREFIX_LEN + get_le32(reply, 24)
}

/// Whether the reply holds complete protocol data: the reported protocol
/// data length (bytes 28-31) is at least 4096 and the data lies inside the reply.
pub open spec fn reply_complete(reply: Seq<u8>) -> bool {
    &&& get_le32(reply, 28) >= PROTOCOL_DATA_LEN
    &&& reply_data_start(reply) + PROTOCOL_DATA_LEN <= reply.len()
}

/// A query leaves room for exactly the data it asks for: read as a reply,
/// its own bytes report complete data filling their last 4096 bytes.
pub proof fn lemma_query_fits_reply(data_type: u32, request_value: u32)
    ensures
        reply_complete(protocol_query_bytes(data_type, request_value)),
        reply_data_start(protocol_query_bytes(data_type, request_value)) + PROTOCOL_DATA_LEN
            == protocol_query_bytes(data_type, request_value).len(),
{
    let q = protocol_query_bytes(data_type, request_value);
    lemma_le32_roundtrip(PROTOCOL_SPECIFIC_DATA_LEN as u32);
    lemma_le32_roundtrip(PROTOCOL_DATA_LEN as u32);
    lemma_le32_roundtrip(0);
    lemma_le32_roundtrip(data_type);
    lemma_le32_roundtrip(request_value);
    lemma_le32_roundtrip(STORAGE_DEVICE_PROTOCOL_SPECIFIC_PROPERTY);
    lemma_le32_roundtrip(PROTOCOL_TYPE_NVME);
    assert(q.subrange(24, 28) =~= le32(PROTOCOL_SPECIFIC_DATA_LEN as u32));
    assert(q.subrange(28, 32) =~= le32(PROTOCOL_DATA_LEN as u32));
}

/// The 4096 bytes of protocol data in the reply to a query.
pub fn protocol_data_from_query(reply: &[u8]) -> (r: Result<[u8; 4096], InvalidQueryReply>)
    requires
        reply@.len() >= 32,
    ensures
        r is Ok <==> reply_complete(reply@),
        r matches Ok(data) ==> data@ == reply@.subrange(
            reply_data_start(reply@),
            reply_data_start(reply@) + PROTOCOL_DATA_LEN,
        ),
{
    let protocol_offset = read_le32(reply, 24);
    let protocol_length = read_le32(reply, 28);
    let data_offset: u64 = PROTOCOL_DATA_DESCRIPTOR_PREFIX_LEN as u64 + protocol_offset as u64;
    let n = reply.len();
    if (protocol_length as usize) < PROTOCOL_DATA_LEN || data_offset + PROTOCOL_DATA_LEN as u64 > n as u64 {
        return Err(InvalidQueryReply);
    }
    let start = data_offset as usize;
    let mut data = [0u8; 4096];
    let mut i: usize = 0;
    while i < PROTOCOL_DATA_LEN
        invariant
            i <= PROTOCOL_DATA_LEN,
            start + PROTOCOL_DATA_LEN <= n,
            n == reply@.len(),
            data@.len() == PROTOCOL_DATA_LEN,
            forall|k: int| 0 <= k < i ==> data@[k] == reply@[start + k],
        decreases PROTOCOL_DATA_LEN - i,
    {
        data[i] = reply[start + i];
        i = i + 1;
    }
    assert(data@ =~= reply@.subrange(start as int, start + PROTOCOL_DATA_LEN));
    Ok(data)
}

/// Whether an admin opcode is vendor specific (0xC0 to 0xFF).
pub fn is_vendor_admin_opcode(opcode: u8) -> (r: bool)
    ensures
        r == (opcode >= NVME_VENDOR_ADMIN_OPCODE_START),
{
    opcode >= NVME_VENDOR_ADMIN_OPCODE_START
}

/// Whether the Commands Supported and Effects log marks an admin opcode as
/// supported: the CSUPP bit (bit 0) of the Admin Command Supported entry for
/// the opcode, the little-endian dword at byte `4 * opcode`.
pub fn admin_command_supported(log: &[u8; 4096], opcode: u8) -> (r: bool)
    ensures
        r == (log@[4 * opcode] % 2 == 1),
{
    let b = log[4 * opcode as usize];
    assert((b & 1 != 0) == (b % 2 == 1)) by (bit_vector);
    b & 1 != 0
}

/// Whether an admin command may be sent: any standard opcode, and a
/// vendor-specific opcode only when the Commands Supported and Effects log
/// marks it supported.
pub fn vendor_command_allowed(opcode: u8, log: &[u8; 4096]) -> (r: bool)
    ensures
        r == (!(opcode >= NVME_VENDOR_ADMIN_OPCODE_START) || log@[4 * opcode] % 2 == 1),
{
    !is_vendor_admin_opcode(opcode) || admin_command_supported(log, opcode)
}

} // verus!
