use std::path::PathBuf;

use acpi_tables::cli::{
    parse_args, require_false, usage, validate_config, Acpi, AcpiTable, CliError, Config, Cpu,
    CpuTopology, Machine, Memory, Meta, Platform,
};
use acpi_tables::qemu::{QemuAcpiError, QemuQ35AcpiProfile};

fn sample_config() -> Config {
    Config {
        meta: Meta {
            profile: String::from("q35-ovmf-static-acpi"),
        },
        platform: Platform {
            arch: String::from("x86_64"),
            machine: String::from("q35"),
        },
        cpu: Cpu {
            topology: CpuTopology {
                cpus: 4,
                maxcpus: 4,
            },
        },
        memory: Memory::default(),
        machine: Machine::default(),
        acpi: Acpi::default(),
        netdevs: Vec::new(),
        devices: Vec::new(),
    }
}

fn args(list: &[&str]) -> Vec<String> {
    list.iter().map(|s| String::from(*s)).collect()
}

fn unsupported_message(r: Result<QemuQ35AcpiProfile, CliError>) -> String {
    match r {
        Err(CliError::Unsupported(m)) => m,
        other => panic!("expected an unsupported setting, got {:?}", other),
    }
}

#[test]
fn test_parse_args() {
    let args = vec![
        String::from("qemu-acpi"),
        String::from("config.toml"),
        String::from("-o"),
        String::from("out.bin"),
    ];
    let (input, output) = parse_args(&args).unwrap();
    assert_eq!(PathBuf::from(input), PathBuf::from("config.toml"));
    assert_eq!(PathBuf::from(output), PathBuf::from("out.bin"));
}

#[test]
fn parse_args_defaults_and_errors() {
    let (input, output) = parse_args(&args(&["qemu-acpi", "c.toml"])).unwrap();
    assert_eq!(input, "c.toml");
    assert_eq!(output, "acpi.table");
    let (_, output) = parse_args(&args(&["p", "c.toml", "--output", "a", "-o", "b"])).unwrap();
    assert_eq!(output, "b");
    match parse_args(&args(&["qemu-acpi"])) {
        Err(CliError::Usage(m)) => assert_eq!(m, "usage: qemu-acpi <config.toml> [-o output]"),
        other => panic!("{:?}", other),
    }
    match parse_args(&args(&["p", "c.toml", "-o"])) {
        Err(CliError::Usage(m)) => assert_eq!(m, "usage: p <config.toml> [-o output]"),
        other => panic!("{:?}", other),
    }
    match parse_args(&args(&["p", "c.toml", "-x"])) {
        Err(CliError::Usage(m)) => {
            assert_eq!(m, "unexpected argument: -x\nusage: p <config.toml> [-o output]")
        }
        other => panic!("{:?}", other),
    }
    assert_eq!(usage("x"), "usage: x <config.toml> [-o output]");
}

#[test]
fn test_validate_config() {
    let config = sample_config();
    let profile = validate_config(&config).unwrap();
    assert_eq!(
        profile,
        QemuQ35AcpiProfile {
            cpu_count: 4,
            max_cpu_count: 4,
        }
    );
}

#[test]
fn test_memory_is_parsed_but_ignored() {
    let mut config = sample_config();
    config.memory = Memory {
        size: String::from("2G"),
        backend: String::new(),
        memory_encryption: String::new(),
        aux_ram_share: false,
    };
    let profile = validate_config(&config).unwrap();
    assert_eq!(config.memory.size, "2G");
    assert_eq!(
        profile,
        QemuQ35AcpiProfile {
            cpu_count: 4,
            max_cpu_count: 4,
        }
    );
}

#[test]
fn test_reject_acpi_override() {
    let mut config = sample_config();
    config.acpi.tables.push(AcpiTable {
        kind: String::from("file"),
        signature: Some(String::from("DSDT")),
        source: Some(String::from("base.bin")),
    });
    assert!(matches!(
        validate_config(&config),
        Err(CliError::Unsupported(_))
    ));
}

#[test]
fn rejection_messages() {
    let mut config = sample_config();
    config.acpi.tables.push(AcpiTable {
        kind: String::from("file"),
        signature: Some(String::from("DSDT")),
        source: None,
    });
    assert_eq!(
        unsupported_message(validate_config(&config)),
        "acpi.tables overrides are not supported yet (first entry: kind=\"file\", signature=Some(\"DSDT\"), source=None)"
    );

    let mut config = sample_config();
    config.meta.profile = String::from("other");
    assert_eq!(
        unsupported_message(validate_config(&config)),
        "unsupported meta.profile \"other\"; expected \"q35-ovmf-static-acpi\""
    );

    let mut config = sample_config();
    config.platform.arch = String::from("aarch64");
    config.platform.machine = String::from("virt");
    assert_eq!(
        unsupported_message(validate_config(&config)),
        "unsupported platform.arch \"aarch64\"; expected \"x86_64\""
    );

    let mut config = sample_config();
    config.platform.machine = String::from("pc");
    assert_eq!(
        unsupported_message(validate_config(&config)),
        "unsupported platform.machine \"pc\"; expected \"q35\""
    );

    let mut config = sample_config();
    config.machine.features.tpm = true;
    config.machine.properties.hmat = true;
    assert_eq!(
        unsupported_message(validate_config(&config)),
        "machine.properties.hmat = true is not supported by the current static q35 ACPI template"
    );

    let mut config = sample_config();
    config.machine.features.viommu = true;
    assert_eq!(
        unsupported_message(validate_config(&config)),
        "machine.features.viommu = true is not supported by the current static q35 ACPI template"
    );
}

#[test]
fn require_false_passes_false() {
    assert!(require_false("x", false).is_ok());
    match require_false("machine.properties.smm", true) {
        Err(CliError::Unsupported(m)) => assert_eq!(
            m,
            "machine.properties.smm = true is not supported by the current static q35 ACPI template"
        ),
        other => panic!("{:?}", other),
    }
}

#[test]
fn memory_and_devices_do_not_change_the_profile() {
    let a = sample_config();
    let mut b = sample_config();
    b.memory.size = String::from("64G");
    b.memory.aux_ram_share = true;
    b.netdevs.push(acpi_tables::cli::Netdev {
        id: Some(String::from("n0")),
        kind: Some(String::from("user")),
    });
    b.devices.push(acpi_tables::cli::Device {
        driver: Some(String::from("virtio-net-pci")),
        id: None,
    });
    assert_eq!(validate_config(&a).unwrap(), validate_config(&b).unwrap());
}

#[test]
fn cli_error_messages() {
    assert_eq!(CliError::Usage(String::from("u")).message(), "u");
    assert_eq!(
        CliError::Generate(QemuAcpiError::ZeroCpus).message(),
        "cpu.topology.cpus must be greater than 0"
    );
}
