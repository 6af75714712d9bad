use ssd_flash_id::nvme_protocol::{
    build_protocol_command, copy_protocol_read_data, protocol_command_status,
    validate_protocol_read, DataDirection, ProtocolPacket, ProtocolReadError,
    DEFAULT_TIMEOUT_SECONDS, NVME_COMMAND_LEN, NVME_ERROR_INFO_LEN, PROTOCOL_HEADER_LEN,
    PROTOCOL_TYPE_NVME,
};
use ssd_flash_id::nvme_query::{
    admin_command_supported, build_command_effects_query, build_identify_query,
    is_vendor_admin_opcode, protocol_data_from_query, vendor_command_allowed,
};
use ssd_flash_id::nvme_protocol::{retry_through_adapter, scsi_adapter_path, scsi_address_port};

#[test]
fn encodes_nvme_admin_command_dwords() {
    let packet = build_protocol_command(
        DataDirection::Read,
        0xE2,
        0x1122_3344,
        [0x10, 0x11, 0x12, 0x13, 0x14, 0x15],
        4096,
        DEFAULT_TIMEOUT_SECONDS,
    );
    let bytes = packet.as_bytes();
    let command = &bytes[PROTOCOL_HEADER_LEN..PROTOCOL_HEADER_LEN + NVME_COMMAND_LEN];

    assert_eq!(command[0], 0xE2);
    assert_eq!(&command[4..8], &0x1122_3344u32.to_le_bytes());
    for (index, value) in [0x10u32, 0x11, 0x12, 0x13, 0x14, 0x15]
        .into_iter()
        .enumerate()
    {
        let offset = 40 + index * 4;
        assert_eq!(&command[offset..offset + 4], &value.to_le_bytes());
    }
}

#[test]
fn read_packet_places_data_after_aligned_command() {
    let packet = build_protocol_command(
        DataDirection::Read,
        0x06,
        0,
        [1, 0, 0, 0, 0, 0],
        4096,
        DEFAULT_TIMEOUT_SECONDS,
    );
    let header = packet.header();

    assert_eq!(header.command_length, NVME_COMMAND_LEN as u32);
    assert_eq!(
        header.data_from_device_buffer_offset,
        (PROTOCOL_HEADER_LEN + NVME_COMMAND_LEN) as u32
    );
    assert_eq!(header.data_from_device_transfer_length, 4096);
    assert_eq!(header.data_to_device_transfer_length, 0);
}

#[test]
fn identify_query_requests_controller_data() {
    let packet = build_identify_query();
    let bytes = packet.as_bytes();

    assert_eq!(&bytes[0..4], &50u32.to_le_bytes());
    assert_eq!(&bytes[8..12], &PROTOCOL_TYPE_NVME.to_le_bytes());
    assert_eq!(&bytes[12..16], &1u32.to_le_bytes());
    assert_eq!(&bytes[16..20], &1u32.to_le_bytes());
    assert_eq!(&bytes[24..28], &40u32.to_le_bytes());
    assert_eq!(&bytes[28..32], &4096u32.to_le_bytes());
}

#[test]
fn protocol_packet_uses_requested_timeout() {
    let packet = build_protocol_command(DataDirection::NoData, 0xC1, 0, [0; 6], 0, 37);
    assert_eq!(packet.header().timeout_value, 37);
}

#[test]
fn write_packet_uses_to_device_fields() {
    let packet = build_protocol_command(DataDirection::Write, 0xC0, 1, [2, 3, 4, 5, 6, 7], 512, 9);
    let header = packet.header();
    assert_eq!(header.version, 1);
    assert_eq!(header.length, 84);
    assert_eq!(header.protocol_type, 3);
    assert_eq!(header.flags, 0x8000_0000);
    assert_eq!(header.command_specific, 1);
    assert_eq!(header.data_to_device_transfer_length, 512);
    assert_eq!(header.data_to_device_buffer_offset, 144);
    assert_eq!(header.data_from_device_transfer_length, 0);
    assert_eq!(header.data_from_device_buffer_offset, 0);
    let bytes = packet.as_bytes();
    assert_eq!(bytes.len(), 144 + 512 + 64);
    assert_eq!(&bytes[32..36], &512u32.to_le_bytes());
    assert_eq!(&bytes[48..52], &144u32.to_le_bytes());
    assert!(bytes[8 + PROTOCOL_HEADER_LEN..40 + PROTOCOL_HEADER_LEN].iter().all(|&b| b == 0));
}

#[test]
fn reply_bytes_read_back_into_the_request() {
    let packet = build_protocol_command(DataDirection::Read, 0xE2, 7, [1, 2, 3, 4, 5, 6], 16, 11);
    let mut bytes = packet.as_bytes();
    bytes[16..20].copy_from_slice(&1u32.to_le_bytes());
    bytes[64..68].copy_from_slice(&0xABCDu32.to_le_bytes());
    bytes[144] = 0x5A;
    let back = ProtocolPacket::from_bytes(&bytes, 16);
    assert_eq!(back.header().timeout_value, 11);
    assert_eq!(back.header().return_status, 1);
    assert_eq!(back.command, packet.command);
    assert_eq!(back.data.len(), 16);
    assert_eq!(back.data[0], 0x5A);
    assert_eq!(back.error_info, vec![0u8; NVME_ERROR_INFO_LEN]);
    assert_eq!(protocol_command_status(&back.header()).unwrap(), 0xABCD);
}

#[test]
fn rejected_command_reports_both_statuses() {
    let mut header = build_protocol_command(DataDirection::NoData, 0xC1, 0, [0; 6], 0, 10).header();
    header.return_status = 0x8;
    header.error_code = 0x4002;
    let rejected = protocol_command_status(&header).unwrap_err();
    assert_eq!(rejected.return_status, 0x8);
    assert_eq!(rejected.error_code, 0x4002);
}

#[test]
fn identify_data_is_taken_from_the_reported_offset() {
    let query = build_identify_query();
    let mut reply = query.as_bytes().to_vec();
    assert_eq!(reply.len(), 4144);
    reply[48] = 0x4D;
    reply[4143] = 0x17;
    let data = protocol_data_from_query(&reply).unwrap();
    assert_eq!(data[0], 0x4D);
    assert_eq!(data[4095], 0x17);
}

#[test]
fn identify_reply_with_short_or_misplaced_data_is_refused() {
    let query = build_identify_query();
    let mut reply = query.as_bytes().to_vec();
    reply[28..32].copy_from_slice(&4095u32.to_le_bytes());
    assert!(protocol_data_from_query(&reply).is_err());
    reply[28..32].copy_from_slice(&4096u32.to_le_bytes());
    reply[24..28].copy_from_slice(&41u32.to_le_bytes());
    assert!(protocol_data_from_query(&reply).is_err());
    reply[24..28].copy_from_slice(&u32::MAX.to_le_bytes());
    assert!(protocol_data_from_query(&reply).is_err());
}

#[test]
fn request_reserves_an_error_information_buffer_after_the_data() {
    let packet = build_protocol_command(DataDirection::Read, 0xE2, 0, [0; 6], 4096, 10);
    let header = packet.header();
    let bytes = packet.as_bytes();
    assert_eq!(header.error_info_length, 64);
    assert_eq!(header.error_info_offset, 144 + 4096);
    assert_eq!(bytes.len(), (header.error_info_offset + header.error_info_length) as usize);
    assert_eq!(&bytes[28..32], &64u32.to_le_bytes());
    assert_eq!(&bytes[44..48], &(144u32 + 4096).to_le_bytes());

    let no_data = build_protocol_command(DataDirection::NoData, 0xC1, 0, [0; 6], 0, 10);
    assert_eq!(no_data.header().error_info_offset, 144);
    assert_eq!(no_data.as_bytes().len(), 144 + 64);
}

#[test]
fn read_reply_is_checked_before_its_data_is_used() {
    let mut header = build_protocol_command(DataDirection::Read, 0xE2, 0, [0; 6], 4096, 10).header();
    header.return_status = 1;
    header.fixed_protocol_return_data = 7;
    let full = 144 + 4096 + 64;
    assert_eq!(validate_protocol_read(&header, full, 4096).unwrap(), 7);

    header.data_from_device_transfer_length = 0;
    assert!(matches!(
        validate_protocol_read(&header, full, 4096),
        Err(ProtocolReadError::ShortTransfer { transferred: 0, expected: 4096 })
    ));
    header.data_from_device_transfer_length = 4096;
    assert!(matches!(
        validate_protocol_read(&header, 144 + 100, 4096),
        Err(ProtocolReadError::TruncatedReply { returned: 244, expected: 4096 })
    ));
    header.return_status = 6;
    header.error_code = 0x4002;
    assert!(matches!(
        validate_protocol_read(&header, full, 4096),
        Err(ProtocolReadError::Rejected { return_status: 6, error_code: 0x4002 })
    ));
}

#[test]
fn read_data_is_copied_only_from_an_accepted_reply() {
    let packet = build_protocol_command(DataDirection::Read, 0xE2, 0, [0; 6], 4, 10);
    let mut bytes = packet.as_bytes();
    bytes[16..20].copy_from_slice(&1u32.to_le_bytes());
    bytes[144..148].copy_from_slice(&[5, 6, 7, 8]);
    let returned = bytes.len() as u32;
    let reply = ProtocolPacket::from_bytes(&bytes, 4);

    let mut output = [0u8; 4];
    copy_protocol_read_data(&reply, returned, &mut output).unwrap();
    assert_eq!(output, [5, 6, 7, 8]);

    let mut untouched = [9u8; 4];
    assert!(copy_protocol_read_data(&reply, 100, &mut untouched).is_err());
    assert_eq!(untouched, [9, 9, 9, 9]);
}

#[test]
fn command_effects_query_asks_for_log_page_five() {
    let query = build_command_effects_query();
    let bytes = query.as_bytes();
    assert_eq!(bytes.len(), 4144);
    assert_eq!(&bytes[0..4], &50u32.to_le_bytes());
    assert_eq!(&bytes[8..12], &PROTOCOL_TYPE_NVME.to_le_bytes());
    assert_eq!(&bytes[12..16], &2u32.to_le_bytes());
    assert_eq!(&bytes[16..20], &5u32.to_le_bytes());
    assert_eq!(&bytes[20..24], &0u32.to_le_bytes());
    assert_eq!(&bytes[24..28], &40u32.to_le_bytes());
    assert_eq!(&bytes[28..32], &4096u32.to_le_bytes());
}

#[test]
fn vendor_opcodes_need_their_csupp_bit() {
    assert!(!is_vendor_admin_opcode(0x06));
    assert!(is_vendor_admin_opcode(0xC0));
    assert!(is_vendor_admin_opcode(0xF2));
    let mut log = [0u8; 4096];
    assert!(!admin_command_supported(&log, 0xF2));
    log[4 * 0xF2] = 0x01;
    assert!(admin_command_supported(&log, 0xF2));
    assert!(!admin_command_supported(&log, 0xF3));
    log[4 * 0xF3] = 0x02;
    assert!(!admin_command_supported(&log, 0xF3));
}

#[test]
fn only_supported_vendor_opcodes_are_allowed() {
    let mut log = [0u8; 4096];
    assert!(vendor_command_allowed(0x06, &log));
    assert!(!vendor_command_allowed(0xF2, &log));
    log[4 * 0xF2] = 0x01;
    assert!(vendor_command_allowed(0xF2, &log));
}

#[test]
fn invalid_parameter_is_retried_through_the_adapter() {
    assert!(retry_through_adapter(87));
    assert!(!retry_through_adapter(5));
    assert_eq!(scsi_adapter_path(0), "\\\\.\\Scsi0:");
    assert_eq!(scsi_adapter_path(12), "\\\\.\\Scsi12:");
    assert_eq!(scsi_adapter_path(255), "\\\\.\\Scsi255:");
    assert_eq!(scsi_address_port(&[8, 0, 0, 0, 3, 0, 1, 0]), 3);
}
