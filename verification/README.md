# acpi_tables (QEMU q35 profile)

A Verus-verified library that builds the static ACPI blob of a QEMU `q35`
machine (`etc/acpi/tables`: FACS, DSDT, FADT, MADT, MCFG, WAET, RSDT), and
the command-line checks that turn a TOML machine configuration into the
processor profile that the blob is built from.

Layout:

- `src/le.rs`: little-endian integer bytes (through `zerocopy`'s byte-order types).
- `src/sdt.rs`: system description tables with a checksum that every operation keeps valid.
- `src/aml.rs`: AML term encoders, package lengths and EISA IDs.
- `src/hex.rs`: hex text decoding for the static DSDT template.
- `src/gas.rs`, `src/facs.rs`: Generic Address Structures and the FACS.
- `src/qemu.rs`: the `q35` tables, the blob and its layout laws.
- `src/cli.rs`, `src/text.rs`: command-line arguments, configuration checks and messages.
- `app/main.rs`: the `qemu-acpi` program (file I/O, TOML parsing).
- `tests/`: tests that run the library.

The static parts of the DSDT (the text before the processor objects and the
text between them and the generated end) are an input: the library takes them
as a `QemuQ35DsdtTemplate`, and `qemu-acpi` reads them as hex text from
`qemu_q35_dsdt_prefix.hex` and `qemu_q35_dsdt_mid.hex` in the directory that
`QEMU_ACPI_TEMPLATE_DIR` names (the current directory by default).
