use acpi_tables::qemu::{
    build_qemu_dsdt, build_qemu_dsdt_generated_tail, build_qemu_dsdt_processor_block,
    qemu_q35_acpi_table, qemu_q35_acpi_table_from_profile, QemuAcpiError, QemuQ35AcpiProfile,
    QemuQ35DsdtTemplate, DSDT_GENERATED_TAIL_OFFSET, DSDT_OFFSET, DSDT_POST_PROCESSOR_BLOCK_OFFSET,
    DSDT_PROCESSOR_BLOCK_OFFSET, FADT_OFFSET, QEMU_Q35_ACPI_BLOB_LEN, QEMU_Q35_MAX_CPU_COUNT,
};

/// A template of the right shape: a DSDT header whose length field covers
/// the whole table, then filler bytes.
fn template() -> QemuQ35DsdtTemplate {
    let mut prefix = vec![0u8; DSDT_PROCESSOR_BLOCK_OFFSET];
    prefix[0..4].copy_from_slice(b"DSDT");
    prefix[4..8].copy_from_slice(&9422u32.to_le_bytes());
    prefix[8] = 2;
    for (i, b) in prefix.iter_mut().enumerate().skip(36) {
        *b = (i % 251) as u8;
    }
    let mid: Vec<u8> = (0..622).map(|i| (i % 7) as u8 + 0x10).collect();
    QemuQ35DsdtTemplate::from_bytes(prefix, mid).unwrap()
}

fn read_u32(blob: &[u8], offset: usize) -> u32 {
    u32::from_le_bytes([blob[offset], blob[offset + 1], blob[offset + 2], blob[offset + 3]])
}

#[test]
fn test_qemu_q35_layout() {
    let blob = qemu_q35_acpi_table(&template());
    let madt_offset = FADT_OFFSET + 244;
    let mcfg_offset = 0x2760;
    let waet_offset = 0x279c;
    let rsdt_offset = 0x27c4;

    assert_eq!(blob.len(), QEMU_Q35_ACPI_BLOB_LEN);
    assert_eq!(&blob[0..4], b"FACS");
    assert_eq!(&blob[DSDT_OFFSET..DSDT_OFFSET + 4], b"DSDT");
    assert_eq!(&blob[FADT_OFFSET..FADT_OFFSET + 4], b"FACP");
    assert_eq!(&blob[madt_offset..madt_offset + 4], b"APIC");
    assert_eq!(&blob[mcfg_offset..mcfg_offset + 4], b"MCFG");
    assert_eq!(&blob[waet_offset..waet_offset + 4], b"WAET");
    assert_eq!(&blob[rsdt_offset..rsdt_offset + 4], b"RSDT");
}

#[test]
fn test_qemu_q35_dsdt_generated_tail_size() {
    let tail = build_qemu_dsdt_generated_tail();
    assert_eq!(tail.len(), 230);
    let dsdt = build_qemu_dsdt(&template());
    assert_eq!(dsdt.len(), 9422);
    assert_eq!(&dsdt[DSDT_GENERATED_TAIL_OFFSET..], &tail);
}

#[test]
fn test_qemu_q35_dsdt_processor_block_size() {
    let block = build_qemu_dsdt_processor_block(QEMU_Q35_MAX_CPU_COUNT);
    assert_eq!(
        block.len(),
        DSDT_POST_PROCESSOR_BLOCK_OFFSET - DSDT_PROCESSOR_BLOCK_OFFSET
    );
}

#[test]
fn test_qemu_q35_custom_cpu_count() {
    let blob = qemu_q35_acpi_table_from_profile(
        QemuQ35AcpiProfile {
            cpu_count: 4,
            max_cpu_count: 4,
        },
        &template(),
    )
    .unwrap();
    assert_eq!(blob.len(), QEMU_Q35_ACPI_BLOB_LEN);
    assert_eq!(&blob[FADT_OFFSET + 244..FADT_OFFSET + 248], b"APIC");
}

#[test]
fn test_qemu_q35_rejects_invalid_profile() {
    assert_eq!(
        qemu_q35_acpi_table_from_profile(
            QemuQ35AcpiProfile {
                cpu_count: 0,
                max_cpu_count: 4,
            },
            &template(),
        ),
        Err(QemuAcpiError::ZeroCpus)
    );
    assert_eq!(
        qemu_q35_acpi_table_from_profile(
            QemuQ35AcpiProfile {
                cpu_count: 5,
                max_cpu_count: 4,
            },
            &template(),
        ),
        Err(QemuAcpiError::CpuCountExceedsMax {
            cpu_count: 5,
            max_cpu_count: 4,
        })
    );
}

#[test]
fn rejects_max_cpu_count_above_template() {
    assert_eq!(
        qemu_q35_acpi_table_from_profile(
            QemuQ35AcpiProfile {
                cpu_count: 17,
                max_cpu_count: 17,
            },
            &template(),
        ),
        Err(QemuAcpiError::MaxCpuCountTooLarge {
            max_cpu_count: 17,
            supported_max: 16,
        })
    );
    // A zero count is reported first, whatever else is wrong.
    assert_eq!(
        qemu_q35_acpi_table_from_profile(
            QemuQ35AcpiProfile {
                cpu_count: 0,
                max_cpu_count: 200,
            },
            &template(),
        ),
        Err(QemuAcpiError::ZeroCpus)
    );
}

#[test]
fn error_messages() {
    assert_eq!(
        QemuAcpiError::ZeroCpus.message(),
        "cpu.topology.cpus must be greater than 0"
    );
    assert_eq!(
        QemuAcpiError::CpuCountExceedsMax {
            cpu_count: 5,
            max_cpu_count: 4
        }
        .message(),
        "cpu.topology.cpus (5) must be less than or equal to cpu.topology.maxcpus (4)"
    );
    assert_eq!(
        QemuAcpiError::MaxCpuCountTooLarge {
            max_cpu_count: 200,
            supported_max: 16
        }
        .message(),
        "cpu.topology.maxcpus (200) exceeds the current static q35 template limit (16)"
    );
}

#[test]
fn layout_pointers_land_on_their_tables() {
    for cpus in [1u8, 4, 16] {
        let blob = qemu_q35_acpi_table_from_profile(
            QemuQ35AcpiProfile {
                cpu_count: cpus,
                max_cpu_count: 16,
            },
            &template(),
        )
        .unwrap();
        let madt = FADT_OFFSET + 244;
        let madt_len = 62 + 18 * cpus as usize;
        let mcfg = madt + madt_len;
        let waet = mcfg + 60;
        let rsdt = waet + 40;
        // The FADT points at the DSDT, twice.
        assert_eq!(read_u32(&blob, FADT_OFFSET + 40), DSDT_OFFSET as u32);
        assert_eq!(read_u32(&blob, FADT_OFFSET + 140), DSDT_OFFSET as u32);
        assert_eq!(read_u32(&blob, FADT_OFFSET + 144), 0);
        // The RSDT points at the FADT, MADT, MCFG and WAET.
        assert_eq!(read_u32(&blob, rsdt + 36), FADT_OFFSET as u32);
        assert_eq!(read_u32(&blob, rsdt + 40), madt as u32);
        assert_eq!(read_u32(&blob, rsdt + 44), mcfg as u32);
        assert_eq!(read_u32(&blob, rsdt + 48), waet as u32);
        // Each table's length field gives its size, and its checksum byte is clear.
        for (offset, len) in [(FADT_OFFSET, 244), (madt, madt_len), (mcfg, 60), (waet, 40), (rsdt, 52)] {
            assert_eq!(read_u32(&blob, offset + 4) as usize, len);
            assert_eq!(blob[offset + 9], 0);
        }
        assert_eq!(&blob[madt..madt + 4], b"APIC");
        assert_eq!(&blob[mcfg..mcfg + 4], b"MCFG");
        assert_eq!(&blob[waet..waet + 4], b"WAET");
        assert_eq!(&blob[rsdt..rsdt + 4], b"RSDT");
        // Everything after the RSDT is zero.
        assert!(blob[rsdt + 52..].iter().all(|b| *b == 0));
    }
}

#[test]
fn max_cpu_count_does_not_change_the_blob() {
    let t = template();
    let a = qemu_q35_acpi_table_from_profile(
        QemuQ35AcpiProfile {
            cpu_count: 3,
            max_cpu_count: 3,
        },
        &t,
    )
    .unwrap();
    let b = qemu_q35_acpi_table_from_profile(
        QemuQ35AcpiProfile {
            cpu_count: 3,
            max_cpu_count: 16,
        },
        &t,
    )
    .unwrap();
    assert_eq!(a, b);
}

#[test]
fn madt_entries() {
    let blob = qemu_q35_acpi_table_from_profile(
        QemuQ35AcpiProfile {
            cpu_count: 2,
            max_cpu_count: 2,
        },
        &template(),
    )
    .unwrap();
    let madt = FADT_OFFSET + 244;
    assert_eq!(read_u32(&blob, madt + 36), 0xfee0_0000);
    assert_eq!(read_u32(&blob, madt + 40), 1);
    // Two local APICs.
    assert_eq!(&blob[madt + 44..madt + 52], &[0, 8, 0, 0, 1, 0, 0, 0]);
    assert_eq!(&blob[madt + 52..madt + 60], &[0, 8, 1, 1, 1, 0, 0, 0]);
    // The I/O APIC.
    assert_eq!(&blob[madt + 60..madt + 72], &[1, 12, 0, 0, 0, 0, 0xc0, 0xfe, 0, 0, 0, 0]);
    // IRQ 0 goes to GSI 2, IRQ 1 to GSI 1.
    assert_eq!(&blob[madt + 72..madt + 82], &[2, 10, 0, 0, 2, 0, 0, 0, 5, 0]);
    assert_eq!(&blob[madt + 82..madt + 92], &[2, 10, 0, 1, 1, 0, 0, 0, 5, 0]);
    // The NMI entry.
    assert_eq!(&blob[madt + 92..madt + 98], &[4, 6, 0xff, 0, 0, 1]);
}

#[test]
fn facs_and_small_tables() {
    let blob = qemu_q35_acpi_table(&template());
    let mut facs = vec![0u8; 64];
    facs[0..4].copy_from_slice(b"FACS");
    facs[4] = 64;
    assert_eq!(&blob[0..64], &facs[..]);
    let mcfg = 0x2760;
    assert_eq!(&blob[mcfg + 10..mcfg + 16], b"BOCHS ");
    assert_eq!(&blob[mcfg + 16..mcfg + 24], b"BXPC    ");
    assert_eq!(&blob[mcfg + 28..mcfg + 36], &[b'B', b'X', b'P', b'C', 1, 0, 0, 0]);
    assert_eq!(
        &blob[mcfg + 44..mcfg + 60],
        &[0, 0, 0, 0xe0, 0, 0, 0, 0, 0, 0, 0, 0xff, 0, 0, 0, 0]
    );
    let waet = 0x279c;
    assert_eq!(read_u32(&blob, waet + 36), 2);
}

#[test]
fn processor_names_and_sizes() {
    let block = build_qemu_dsdt_processor_block(16);
    // Processor 0: 58 bytes with a one-byte package length.
    assert_eq!(&block[0..3], &[0x5b, 0x83, 56]);
    assert_eq!(&block[3..7], b"C000");
    // Processor 1 follows with a two-byte package length.
    assert_eq!(&block[58..60], &[0x5b, 0x83]);
    assert_eq!(&block[62..66], b"C001");
    // Processor 15 is the last one.
    assert_eq!(&block[block.len() - 74 + 4..block.len() - 74 + 8], b"C00F");
    assert_eq!(build_qemu_dsdt_processor_block(1).len(), 58);
    assert_eq!(build_qemu_dsdt_processor_block(2).len(), 129);
    assert_eq!(build_qemu_dsdt_processor_block(0).len(), 0);
}

#[test]
fn template_from_hex() {
    let prefix: String = "0a ".repeat(DSDT_PROCESSOR_BLOCK_OFFSET);
    let mid: String = "Ff\n".repeat(622);
    let t = QemuQ35DsdtTemplate::from_hex(&prefix, &mid).unwrap();
    let dsdt = build_qemu_dsdt(&t);
    assert!(dsdt[..DSDT_PROCESSOR_BLOCK_OFFSET].iter().all(|b| *b == 0x0a));
    assert!(dsdt[DSDT_POST_PROCESSOR_BLOCK_OFFSET..DSDT_GENERATED_TAIL_OFFSET]
        .iter()
        .all(|b| *b == 0xff));
    // Wrong lengths, odd digit counts and non-hex text are refused.
    assert!(QemuQ35DsdtTemplate::from_hex("0a", &mid).is_none());
    assert!(QemuQ35DsdtTemplate::from_hex(&prefix, "f").is_none());
    assert!(QemuQ35DsdtTemplate::from_hex(&prefix, "zz").is_none());
    assert!(QemuQ35DsdtTemplate::from_bytes(vec![0; 3], vec![0; 622]).is_none());
}

#[test]
fn blobs_share_everything_before_the_madt() {
    let t = template();
    let madt = FADT_OFFSET + 244;
    assert_eq!(madt, 0x2602);
    let one = qemu_q35_acpi_table_from_profile(
        QemuQ35AcpiProfile {
            cpu_count: 1,
            max_cpu_count: 16,
        },
        &t,
    )
    .unwrap();
    let nine = qemu_q35_acpi_table_from_profile(
        QemuQ35AcpiProfile {
            cpu_count: 9,
            max_cpu_count: 9,
        },
        &t,
    )
    .unwrap();
    let all = qemu_q35_acpi_table(&t);
    assert_eq!(&one[..madt], &nine[..madt]);
    assert_eq!(&one[..madt], &all[..madt]);
    assert_eq!(&one[DSDT_OFFSET..FADT_OFFSET], &build_qemu_dsdt(&t)[..]);
    // The MADT of nine processors follows: 62 + 18 * 9 bytes.
    assert_eq!(read_u32(&nine, madt + 4), 62 + 18 * 9);
    assert_eq!(&nine[madt + 62 + 18 * 9..madt + 62 + 18 * 9 + 4], b"MCFG");
    assert_eq!(&one[madt + 62 + 18..madt + 62 + 18 + 4], b"MCFG");
}

#[test]
fn processor_block_grows_by_appending() {
    let big = build_qemu_dsdt_processor_block(16);
    for n in 0..16u8 {
        let small = build_qemu_dsdt_processor_block(n);
        assert_eq!(&big[..small.len()], &small[..]);
        let expected = match n {
            0 => 0,
            1 => 58,
            _ => 74 * n as usize - 19,
        };
        assert_eq!(small.len(), expected);
    }
    assert_eq!(&big[0..13], &[0x5b, 0x83, 0x38, b'C', b'0', b'0', b'0', 0, 0, 0, 0, 0, 0]);
    assert_eq!(&big[58..72], &[0x5b, 0x83, 0x45, 0x04, b'C', b'0', b'0', b'1', 1, 0, 0, 0, 0, 0]);
    for i in 2..16u8 {
        let at = 74 * i as usize - 19;
        let digit = if i < 10 { b'0' + i } else { b'A' + i - 10 };
        assert_eq!(
            &big[at..at + 14],
            &[0x5b, 0x83, 0x48, 0x04, b'C', b'0', b'0', digit, i, 0, 0, 0, 0, 0]
        );
    }
}

#[test]
fn mat_buffers_match_the_madt() {
    let blob = qemu_q35_acpi_table(&template());
    let block = build_qemu_dsdt_processor_block(16);
    let madt = FADT_OFFSET + 244;
    for uid in 0..16u8 {
        let entry = &blob[madt + 44 + 8 * uid as usize..madt + 52 + 8 * uid as usize];
        assert_eq!(entry, &[0, 8, uid, uid, 1, 0, 0, 0]);
        // `Name (_MAT, Buffer (8) { .. })` in the processor object.
        let mut mat = vec![0x08, b'_', b'M', b'A', b'T', 0x11, 0x0b, 0x0a, 0x08];
        mat.extend_from_slice(entry);
        assert!(block.windows(mat.len()).any(|w| w == &mat[..]));
    }
}
