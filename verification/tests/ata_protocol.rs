use ssd_flash_id::ata_protocol::{
    build_ata_packet, copy_ata_read_data, validate_ata_response, AtaDirection, AtaPacket,
    AtaResponseError, ATA_FLAGS_48BIT_COMMAND, ATA_FLAGS_DATA_IN, ATA_FLAGS_DATA_OUT,
    ATA_FLAGS_USE_DMA, ata_header_len, DEFAULT_TIMEOUT_SECONDS,
};

#[test]
fn encodes_current_task_file_registers() {
    let packet = build_ata_packet(
        AtaDirection::Read,
        false,
        0xEC,
        0x11,
        0x22,
        0x33,
        0x44,
        0x55,
        0xE0,
        None,
        512,
        DEFAULT_TIMEOUT_SECONDS,
    );
    assert_eq!(
        packet.header().current_task_file,
        [0x11, 0x22, 0x33, 0x44, 0x55, 0xE0, 0xEC, 0]
    );
    assert_eq!(packet.header().ata_flags, ATA_FLAGS_DATA_IN);
}

#[test]
fn encodes_48_bit_previous_task_file_and_dma_flag() {
    let packet = build_ata_packet(
        AtaDirection::Read,
        true,
        0x25,
        1,
        2,
        3,
        4,
        5,
        0x40,
        Some([6, 7, 8, 9, 10]),
        512,
        DEFAULT_TIMEOUT_SECONDS,
    );
    assert_eq!(
        packet.header().previous_task_file,
        [6, 7, 8, 9, 10, 0, 0, 0]
    );
    assert_eq!(
        packet.header().ata_flags,
        ATA_FLAGS_DATA_IN | ATA_FLAGS_48BIT_COMMAND | ATA_FLAGS_USE_DMA
    );
}

#[test]
fn ata_packet_uses_requested_timeout() {
    let packet = build_ata_packet(
        AtaDirection::NoData,
        false,
        0xEC,
        0,
        0,
        0,
        0,
        0,
        0,
        None,
        0,
        23,
    );
    assert_eq!(packet.header().timeout_value, 23);
}

#[test]
fn simulated_ata_response_rejects_short_partial_and_fault_status() {
    let mut packet = build_ata_packet(
        AtaDirection::Read,
        false,
        0xEC,
        0,
        1,
        0,
        0,
        0,
        0xE0,
        None,
        512,
        DEFAULT_TIMEOUT_SECONDS,
    );

    assert!(validate_ata_response(&packet, 8, 0xEC, 512).is_err());

    packet.header_mut().data_transfer_length = 256;
    assert!(validate_ata_response(&packet, packet.len() as u32, 0xEC, 512).is_err());

    packet.header_mut().data_transfer_length = 512;
    packet.header_mut().current_task_file[6] = 0x20;
    assert!(validate_ata_response(&packet, packet.len() as u32, 0xEC, 512).is_err());
}

#[test]
fn simulated_ata_response_copies_valid_read_data() {
    let mut packet = build_ata_packet(
        AtaDirection::Read,
        false,
        0xEC,
        0,
        1,
        0,
        0,
        0,
        0xE0,
        None,
        4,
        DEFAULT_TIMEOUT_SECONDS,
    );
    packet.header_mut().current_task_file[6] = 0x50;
    packet.data_mut()[0..4].copy_from_slice(&[5, 6, 7, 8]);
    let mut output = [0u8; 4];

    copy_ata_read_data(&packet, packet.len() as u32, 0xEC, &mut output).unwrap();

    assert_eq!(output, [5, 6, 7, 8]);
}

#[test]
fn each_refusal_reason_is_reported() {
    let mut packet = build_ata_packet(
        AtaDirection::Read, false, 0xEC, 0, 1, 0, 0, 0, 0xE0, None, 512, DEFAULT_TIMEOUT_SECONDS,
    );
    let full = packet.len() as u32;
    let header_len = ata_header_len() as u32;
    assert_eq!(full, header_len + 512);
    assert!(matches!(
        validate_ata_response(&packet, header_len - 1, 0xEC, 512),
        Err(AtaResponseError::InvalidByteCount { command: 0xEC, .. })
    ));
    assert!(matches!(
        validate_ata_response(&packet, full + 1, 0xEC, 512),
        Err(AtaResponseError::InvalidByteCount { command: 0xEC, .. })
    ));
    packet.header_mut().data_transfer_length = 256;
    assert!(matches!(
        validate_ata_response(&packet, full, 0xEC, 512),
        Err(AtaResponseError::PartialTransfer { transferred: 256, expected: 512, command: 0xEC })
    ));
    packet.header_mut().data_transfer_length = 512;
    assert!(matches!(
        validate_ata_response(&packet, header_len + 100, 0xEC, 512),
        Err(AtaResponseError::TruncatedData { command: 0xEC })
    ));
    packet.header_mut().current_task_file[6] = 0x51;
    packet.header_mut().current_task_file[0] = 0x04;
    assert!(matches!(
        validate_ata_response(&packet, full, 0xEC, 512),
        Err(AtaResponseError::CommandFailed { command: 0xEC, status: 0x51, error: 0x04 })
    ));
    packet.header_mut().current_task_file[6] = 0x50;
    assert!(validate_ata_response(&packet, full, 0xEC, 512).is_ok());
}

#[test]
fn refused_read_leaves_output_unchanged() {
    let mut packet = build_ata_packet(
        AtaDirection::Read, false, 0xEC, 0, 1, 0, 0, 0, 0xE0, None, 4, DEFAULT_TIMEOUT_SECONDS,
    );
    packet.data_mut()[0..4].copy_from_slice(&[5, 6, 7, 8]);
    packet.header_mut().current_task_file[6] = 0x01;
    let mut output = [9u8; 4];
    assert!(copy_ata_read_data(&packet, packet.len() as u32, 0xEC, &mut output).is_err());
    assert_eq!(output, [9, 9, 9, 9]);
}

#[test]
fn request_bytes_follow_the_structure_layout() {
    let packet = build_ata_packet(
        AtaDirection::Write, false, 0xB0, 0xD6, 1, 0xE0, 0x4F, 0xC2, 0xA0, Some([1, 2, 3, 4, 5]), 512, 30,
    );
    assert_eq!(packet.header().ata_flags, ATA_FLAGS_DATA_OUT | ATA_FLAGS_48BIT_COMMAND);
    let header_len = ata_header_len();
    assert_eq!(header_len, if usize::BITS == 64 { 48 } else { 40 });
    let bytes = packet.as_bytes();
    assert_eq!(bytes.len(), header_len + 512);
    assert_eq!(&bytes[0..2], &(header_len as u16).to_le_bytes());
    assert_eq!(&bytes[2..4], &(ATA_FLAGS_DATA_OUT | ATA_FLAGS_48BIT_COMMAND).to_le_bytes());
    assert_eq!(&bytes[8..12], &512u32.to_le_bytes());
    assert_eq!(&bytes[12..16], &30u32.to_le_bytes());
    let tasks = header_len - 16;
    assert_eq!(&bytes[tasks - std::mem::size_of::<usize>()..tasks], &header_len.to_le_bytes());
    assert_eq!(&bytes[tasks..tasks + 8], &[1, 2, 3, 4, 5, 0, 0, 0]);
    assert_eq!(&bytes[tasks + 8..tasks + 16], &[0xD6, 1, 0xE0, 0x4F, 0xC2, 0xA0, 0xB0, 0]);

    let back = AtaPacket::from_bytes(&bytes);
    assert_eq!(back.header().current_task_file, packet.header().current_task_file);
    assert_eq!(back.header().previous_task_file, packet.header().previous_task_file);
    assert_eq!(back.header().data_transfer_length, 512);
    assert_eq!(back.header().data_buffer_offset, header_len);
    assert_eq!(back.data.len(), 512);
}

#[test]
fn request_without_data_has_no_buffer_offset() {
    let packet = build_ata_packet(
        AtaDirection::NoData, false, 0xE7, 0, 0, 0, 0, 0, 0, None, 0, 5,
    );
    assert_eq!(packet.header().data_buffer_offset, 0);
    assert_eq!(packet.header().ata_flags, 0);
    assert_eq!(packet.as_bytes().len(), ata_header_len());
}
