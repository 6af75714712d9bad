# ssd_flash_id

Identifies NVMe and SATA SSDs and the NAND flash behind them. The library in
`src/` is verified with Verus; `app/` holds the Windows device access around it.

- `src/text.rs` – printable text out of fixed-width identify fields.
- `src/nvme.rs`, `src/ata.rs` – NVMe Identify Controller and ATA IDENTIFY DEVICE data.
- `src/controllers.rs`, `src/controllers/innogrit.rs` – flash-ID pages of Innogrit controllers.
- `src/nvme_protocol.rs`, `src/ata_protocol.rs` – the NVMe and ATA pass-through
  requests of the Windows storage stack, and the checks made on their replies.
- `src/nvme_query.rs` – the Identify Controller and Commands Supported and
  Effects log property queries, and the CSUPP check of vendor admin opcodes.
- `src/bytes.rs` – little-endian fields.
- `app/` – opening drives, `DeviceIoControl`, Windows error text, messages.
