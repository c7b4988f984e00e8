//! The command line of the blob generator: its arguments, and the checks
//! that turn a machine configuration into a profile that the static `q35`
//! template supports.
use vstd::prelude::*;
use crate::qemu::{acpi_error_message, QemuAcpiError, QemuQ35AcpiProfile};
use crate::text::{debug_opt_string, debug_str, opt_string_debug, opt_view, str_debug};

verus! {

/// `[meta]`
#[derive(Debug)]
pub struct Meta {
    pub profile: String,
}

/// `[platform]`
#[derive(Debug)]
pub struct Platform {
    pub arch: String,
    pub machine: String,
}

/// `[cpu]`
#[derive(Debug)]
pub struct Cpu {
    pub topology: CpuTopology,
}

/// `[cpu.topology]`
#[derive(Debug)]
pub struct CpuTopology {
    pub cpus: u8,
    pub maxcpus: u8,
}

/// `[memory]`
#[derive(Debug, Default)]
pub struct Memory {
    pub size: String,
    pub backend: String,
    pub memory_encryption: String,
    pub aux_ram_share: bool,
}

/// `[machine]`
#[derive(Debug, Default)]
pub struct Machine {
    pub properties: MachineProperties,
    pub features: MachineFeatures,
}

/// `[machine.properties]`
#[derive(Debug, Default)]
pub struct MachineProperties {
    pub hpet: bool,
    pub smm: bool,
    pub pic: bool,
    pub spcr: bool,
    pub nvdimm: bool,
    pub hmat: bool,
}

/// `[machine.features]`
#[derive(Debug, Default)]
pub struct MachineFeatures {
    pub confidential_guest: bool,
    pub cxl: bool,
    pub sgx_epc: bool,
    pub tpm: bool,
    pub viommu: bool,
}

/// `[acpi]`
#[derive(Debug, Default)]
pub struct Acpi {
    pub tables: Vec<AcpiTable>,
}

/// An entry of `acpi.tables`.
#[derive(Debug)]
pub struct AcpiTable {
    pub kind: String,
    pub signature: Option<String>,
    pub source: Option<String>,
}

/// An entry of `netdevs`.
#[derive(Debug)]
pub struct Netdev {
    pub id: Option<String>,
    pub kind: Option<String>,
}

/// An entry of `devices`.
#[derive(Debug)]
pub struct Device {
    pub driver: Option<String>,
    pub id: Option<String>,
}

/// A machine configuration.
#[derive(Debug)]
pub struct Config {
    pub meta: Meta,
    pub platform: Platform,
    pub cpu: Cpu,
    pub memory: Memory,
    pub machine: Machine,
    pub acpi: Acpi,
    pub netdevs: Vec<Netdev>,
    pub devices: Vec<Device>,
}

/// Why the command line cannot go on.
#[derive(Debug)]
pub enum CliError {
    Usage(String),
    Unsupported(String),
    Generate(QemuAcpiError),
}

/// The usage line for the program called `program`.
pub open spec fn usage_text(program: Seq<char>) -> Seq<char> {
    "usage: "@ + program + " <config.toml> [-o output]"@
}

/// The message of an error.
pub open spec fn cli_error_message(e: CliError) -> Seq<char> {
    match e {
        CliError::Usage(m) => m@,
        CliError::Unsupported(m) => m@,
        CliError::Generate(e) => acpi_error_message(e),
    }
}

impl CliError {
    /// The message that describes the error.
    pub fn message(&self) -> (m: String)
        ensures
            m@ == cli_error_message(*self),
    {
        match self {
            CliError::Usage(m) => m.clone(),
            CliError::Unsupported(m) => m.clone(),
            CliError::Generate(e) => e.message(),
        }
    }
}

/// The usage line for the program called `program`.
pub fn usage(program: &str) -> (u: String)
    ensures
        u@ == usage_text(program@),
{
    let mut u = String::from_str("usage: ");
    u.append(program);
    u.append(" <config.toml> [-o output]");
    u
}

/// The views of the arguments.
pub open spec fn arg_views(args: Seq<String>) -> Seq<Seq<char>> {
    args.map_values(|s: String| s@)
}

/// Reads the options from `args[index]` on, with `output` as the output
/// path so far: `-o` or `--output` and a path set the output path; an
/// option without its path asks for the usage line, any other argument is
/// unexpected.
pub open spec fn parse_options(args: Seq<Seq<char>>, index: int, output: Seq<char>) -> Result<
    Seq<char>,
    Seq<char>,
>
    decreases args.len() - index,
{
    if index >= args.len() {
        Ok(output)
    } else if args[index] == "-o"@ || args[index] == "--output"@ {
        if index + 1 >= args.len() {
            Err(usage_text(args[0]))
        } else {
            parse_options(args, index + 2, args[index + 1])
        }
    } else {
        Err("unexpected argument: "@ + args[index] + "\n"@ + usage_text(args[0]))
    }
}

/// The input and output paths that the command line names, or the message
/// of a usage error: the input path comes first, the output path is
/// `acpi.table` unless an option sets it.
pub open spec fn spec_parse_args(args: Seq<Seq<char>>) -> Result<(Seq<char>, Seq<char>), Seq<char>> {
    if args.len() < 2 {
        Err(usage_text(args[0]))
    } else {
        match parse_options(args, 2, "acpi.table"@) {
            Ok(output) => Ok((args[1], output)),
            Err(m) => Err(m),
        }
    }
}

/// Reads the command line `args`, `args[0]` being the program's name.
pub fn parse_args(args: &[String]) -> (r: Result<(String, String), CliError>)
    requires
        args@.len() >= 1,
    ensures
        match spec_parse_args(arg_views(args@)) {
            Ok((input, output)) => r matches Ok((i, o)) && i@ == input && o@ == output,
            Err(m) => r matches Err(CliError::Usage(u)) && u@ == m,
        },
{
    let ghost views = arg_views(args@);
    assert(views[0] == args@[0]@);
    if args.len() < 2 {
        return Err(CliError::Usage(usage(args[0].as_str())));
    }
    let input = args[1].clone();
    let mut output = String::from_str("acpi.table");
    let mut index: usize = 2;
    let short = String::from_str("-o");
    let long = String::from_str("--output");
    while index < args.len()
        invariant
            2 <= index <= args@.len(),
            views == arg_views(args@),
            views.len() == args@.len(),
            views[0] == args@[0]@,
            short@ == "-o"@,
            long@ == "--output"@,
            parse_options(views, index as int, output@) == parse_options(views, 2, "acpi.table"@),
        decreases args@.len() - index,
    {
        assert(views[index as int] == args@[index as int]@);
        if args[index].eq(&short) || args[index].eq(&long) {
            index = index + 1;
            if index >= args.len() {
                return Err(CliError::Usage(usage(args[0].as_str())));
            }
            assert(views[index as int] == args@[index as int]@);
            output = args[index].clone();
        } else {
            let mut m = String::from_str("unexpected argument: ");
            m.append(args[index].as_str());
            m.append("\n");
            m.append(usage(args[0].as_str()).as_str());
            return Err(CliError::Usage(m));
        }
        index = index + 1;
    }
    Ok((input, output))
}

/// `-o` or `--output`: the two spellings of the option that names the
/// output path.
pub open spec fn is_output_option(a: Seq<char>) -> bool {
    a == "-o"@ || a == "--output"@
}

/// The options from `index` on are read in pairs: they are accepted when
/// every other argument from `index` on is `-o` or `--output`, each
/// followed by a path, and then the last path wins.
proof fn lemma_parse_options_shape(args: Seq<Seq<char>>, index: int, output: Seq<char>)
    requires
        1 <= index <= args.len(),
    ensures
        parse_options(args, index, output) is Ok <==> ((args.len() - index) % 2 == 0 && forall|
            j: int,
        |
            index <= j < args.len() && (j - index) % 2 == 0 ==> #[trigger] is_output_option(
                args[j],
            )),
        parse_options(args, index, output) is Ok ==> parse_options(args, index, output) == Ok::<
            Seq<char>,
            Seq<char>,
        >(
            if index == args.len() {
                output
            } else {
                args[args.len() - 1]
            },
        ),
    decreases args.len() - index,
{
    if index < args.len() {
        if is_output_option(args[index]) {
            if index + 1 < args.len() {
                lemma_parse_options_shape(args, index + 2, args[index + 1]);
                if (args.len() - index) % 2 == 0 && forall|j: int|
                    index + 2 <= j < args.len() && (j - index - 2) % 2 == 0
                        ==> #[trigger] is_output_option(args[j]) {
                    assert forall|j: int|
                        index <= j < args.len() && (j - index) % 2 == 0 implies #[trigger] is_output_option(
                        args[j],
                    ) by {
                        if j != index {
                            assert(index + 2 <= j);
                        }
                    }
                }
            }
        }
    }
}

/// The command line is accepted exactly when it names an input path and
/// then only pairs of `-o` or `--output` and a path; the input path is the
/// first argument after the program's name, and the output path is the
/// path of the last pair, whichever spelling it has, or `acpi.table`
/// when there is none.
pub proof fn lemma_parse_args_shape(args: Seq<Seq<char>>)
    requires
        args.len() >= 1,
    ensures
        spec_parse_args(args) is Ok <==> (args.len() >= 2 && args.len() % 2 == 0 && forall|j: int|
            2 <= j < args.len() && j % 2 == 0 ==> #[trigger] is_output_option(args[j])),
        spec_parse_args(args) is Ok ==> spec_parse_args(args) == Ok::<
            (Seq<char>, Seq<char>),
            Seq<char>,
        >(
            (
                args[1],
                if args.len() == 2 {
                    "acpi.table"@
                } else {
                    args[args.len() - 1]
                },
            ),
        ),
{
    if args.len() >= 2 {
        lemma_parse_options_shape(args, 2, "acpi.table"@);
    }
}

/// A configuration for the `q35-ovmf-static-acpi` profile on an `x86_64`
/// `q35` machine that switches on none of the machine properties and
/// features and overrides no table is accepted, whatever its processor
/// topology, memory, network and devices: `validate_config` then gives
/// the profile of its `cpus` and `maxcpus`.
pub proof fn lemma_template_config_accepted(c: Config)
    requires
        c.meta.profile@ == "q35-ovmf-static-acpi"@,
        c.platform.arch@ == "x86_64"@,
        c.platform.machine@ == "q35"@,
        !c.machine.properties.hpet,
        !c.machine.properties.smm,
        !c.machine.properties.pic,
        !c.machine.properties.spcr,
        !c.machine.properties.nvdimm,
        !c.machine.properties.hmat,
        !c.machine.features.confidential_guest,
        !c.machine.features.cxl,
        !c.machine.features.sgx_epc,
        !c.machine.features.tpm,
        !c.machine.features.viommu,
        c.acpi.tables@.len() == 0,
    ensures
        config_rejection(c) is None,
{
}

/// The message that rejects a feature that is switched on.
pub open spec fn feature_text(name: Seq<char>) -> Seq<char> {
    name + " = true is not supported by the current static q35 ACPI template"@
}

/// Rejects the feature `name` when `value` switches it on.
pub fn require_false(name: &str, value: bool) -> (r: Result<(), CliError>)
    ensures
        value ==> (r matches Err(CliError::Unsupported(m)) && m@ == feature_text(name@)),
        !value ==> r is Ok,
{
    if value {
        let mut m = String::from_str(name);
        m.append(" = true is not supported by the current static q35 ACPI template");
        return Err(CliError::Unsupported(m));
    }
    Ok(())
}

/// The message that rejects a setting that is not the one the template has.
pub open spec fn mismatch_text(name: Seq<char>, value: Seq<char>, expected: Seq<char>) -> Seq<
    char,
> {
    "unsupported "@ + name + " "@ + str_debug(value) + "; expected "@ + expected
}

/// The message that rejects table overrides, naming the first one.
pub open spec fn override_text(t: AcpiTable) -> Seq<char> {
    "acpi.tables overrides are not supported yet (first entry: kind="@ + str_debug(t.kind@)
        + ", signature="@ + opt_string_debug(opt_view(t.signature)) + ", source="@
        + opt_string_debug(opt_view(t.source)) + ")"@
}

/// The first setting of `c` that the static template cannot honour, as
/// the message that rejects it; none when the template fits `c`. The
/// memory, network and device settings are not looked at: they do not
/// change the tables.
pub open spec fn config_rejection(c: Config) -> Option<Seq<char>> {
    let p = c.machine.properties;
    let f = c.machine.features;
    if c.meta.profile@ != "q35-ovmf-static-acpi"@ {
        Some(mismatch_text("meta.profile"@, c.meta.profile@, "\"q35-ovmf-static-acpi\""@))
    } else if c.platform.arch@ != "x86_64"@ {
        Some(mismatch_text("platform.arch"@, c.platform.arch@, "\"x86_64\""@))
    } else if c.platform.machine@ != "q35"@ {
        Some(mismatch_text("platform.machine"@, c.platform.machine@, "\"q35\""@))
    } else if p.hpet {
        Some(feature_text("machine.properties.hpet"@))
    } else if p.smm {
        Some(feature_text("machine.properties.smm"@))
    } else if p.pic {
        Some(feature_text("machine.properties.pic"@))
    } else if p.spcr {
        Some(feature_text("machine.properties.spcr"@))
    } else if p.nvdimm {
        Some(feature_text("machine.properties.nvdimm"@))
    } else if p.hmat {
        Some(feature_text("machine.properties.hmat"@))
    } else if f.confidential_guest {
        Some(feature_text("machine.features.confidential_guest"@))
    } else if f.cxl {
        Some(feature_text("machine.features.cxl"@))
    } else if f.sgx_epc {
        Some(feature_text("machine.features.sgx_epc"@))
    } else if f.tpm {
        Some(feature_text("machine.features.tpm"@))
    } else if f.viommu {
        Some(feature_text("machine.features.viommu"@))
    } else if c.acpi.tables@.len() > 0 {
        Some(override_text(c.acpi.tables@[0]))
    } else {
        None
    }
}

/// Two configurations that differ at most in their memory, network and
/// device settings are judged alike: the same rejection, or the same
/// profile. Changing the memory size alone does not change the tables.
pub proof fn lemma_memory_is_ignored(a: Config, b: Config)
    requires
        a.meta == b.meta,
        a.platform == b.platform,
        a.cpu == b.cpu,
        a.machine == b.machine,
        a.acpi == b.acpi,
    ensures
        config_rejection(a) == config_rejection(b),
{
}

/// A configuration that passes names the `q35-ovmf-static-acpi` profile on
/// an `x86_64` `q35` machine, switches on none of the features that would
/// change the tables, and overrides no table.
pub proof fn lemma_accepted_config(c: Config)
    requires
        config_rejection(c) is None,
    ensures
        c.meta.profile@ == "q35-ovmf-static-acpi"@,
        c.platform.arch@ == "x86_64"@,
        c.platform.machine@ == "q35"@,
        !c.machine.properties.hpet && !c.machine.properties.smm && !c.machine.properties.pic
            && !c.machine.properties.spcr && !c.machine.properties.nvdimm
            && !c.machine.properties.hmat,
        !c.machine.features.confidential_guest && !c.machine.features.cxl
            && !c.machine.features.sgx_epc && !c.machine.features.tpm
            && !c.machine.features.viommu,
        c.acpi.tables@.len() == 0,
{
}

/// The message that rejects a setting that is not the one the template has.
fn mismatch(name: &str, value: &String, expected: &str) -> (m: String)
    ensures
        m@ == mismatch_text(name@, value@, expected@),
{
    let mut m = String::from_str("unsupported ");
    m.append(name);
    m.append(" ");
    m.append(debug_str(value.as_str()).as_str());
    m.append("; expected ");
    m.append(expected);
    m
}

/// Checks that the static template fits `config`, and reads its processor
/// counts into a profile.
pub fn validate_config(config: &Config) -> (r: Result<QemuQ35AcpiProfile, CliError>)
    ensures
        match config_rejection(*config) {
            Some(m) => r matches Err(CliError::Unsupported(u)) && u@ == m,
            None => r matches Ok(p) && p == (QemuQ35AcpiProfile {
                cpu_count: config.cpu.topology.cpus,
                max_cpu_count: config.cpu.topology.maxcpus,
            }),
        },
{
    if !config.meta.profile.eq(&String::from_str("q35-ovmf-static-acpi")) {
        return Err(
            CliError::Unsupported(
                mismatch("meta.profile", &config.meta.profile, "\"q35-ovmf-static-acpi\""),
            ),
        );
    }
    if !config.platform.arch.eq(&String::from_str("x86_64")) {
        return Err(
            CliError::Unsupported(mismatch("platform.arch", &config.platform.arch, "\"x86_64\"")),
        );
    }
    if !config.platform.machine.eq(&String::from_str("q35")) {
        return Err(
            CliError::Unsupported(
                mismatch("platform.machine", &config.platform.machine, "\"q35\""),
            ),
        );
    }
    let p = &config.machine.properties;
    let f = &config.machine.features;
    require_false("machine.properties.hpet", p.hpet)?;
    require_false("machine.properties.smm", p.smm)?;
    require_false("machine.properties.pic", p.pic)?;
    require_false("machine.properties.spcr", p.spcr)?;
    require_false("machine.properties.nvdimm", p.nvdimm)?;
    require_false("machine.properties.hmat", p.hmat)?;
    require_false("machine.features.confidential_guest", f.confidential_guest)?;
    require_false("machine.features.cxl", f.cxl)?;
    require_false("machine.features.sgx_epc", f.sgx_epc)?;
    require_false("machine.features.tpm", f.tpm)?;
    require_false("machine.features.viommu", f.viommu)?;

    if config.acpi.tables.len() > 0 {
        let table = &config.acpi.tables[0];
        let mut m = String::from_str("acpi.tables overrides are not supported yet (first entry: kind=");
        m.append(debug_str(table.kind.as_str()).as_str());
        m.append(", signature=");
        m.append(debug_opt_string(&table.signature).as_str());
        m.append(", source=");
        m.append(debug_opt_string(&table.source).as_str());
        m.append(")");
        return Err(CliError::Unsupported(m));
    }

    // The memory, network and device settings are read but do not change
    // the tables.
    Ok(QemuQ35AcpiProfile { cpu_count: config.cpu.topology.cpus, max_cpu_count: config.cpu.topology.maxcpus })
}

} // verus!
