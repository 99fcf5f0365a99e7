//! The command line of the monitor: where the kernel is, how much memory the
//! guest gets, and the kernel's own command line.

use clap::builder::{NonEmptyStringValueParser, RangedU64ValueParser};
use clap::{Arg, Command};
use vstd::prelude::*;

verus! {

/// Why there are no arguments: the command line is wrong, or asks for help.
/// What to print, and the status to exit with: 0 if help was asked for, else 2.
#[derive(Debug)]
pub struct ArgsError {
    pub text: String,
    pub exit_code: i32,
}

/// Guest RAM in MiB if none is given.
pub const DEFAULT_MEM: u64 = 256;

/// What the program is called and says of itself when asked for help.
#[derive(Debug, Clone, Copy)]
pub struct Program {
    pub name: &'static str,
    pub about: &'static str,
    pub long_about: &'static str,
}

/// An option of the form `--name <VALUE>`.
#[derive(Debug, Clone, Copy)]
pub struct LongOption {
    pub name: &'static str,
    pub value: &'static str,
    pub help: &'static str,
    pub long_help: &'static str,
}

/// Whether an option can have that name: lowercase letters, and not that of
/// the option that every program has.
pub open spec fn is_option_name(name: Seq<char>) -> bool {
    &&& name.len() > 0
    &&& forall|i: int| 0 <= i < name.len() ==> 'a' <= #[trigger] name[i] && name[i] <= 'z'
    &&& name != "help"@
}

/// The words of a command line.
pub open spec fn words(argv: Seq<String>) -> Seq<Seq<char>> {
    Seq::new(argv.len(), |i: int| argv[i]@)
}

/// The values of three options: of a required one, and of a number and a text
/// as far as they were given.
pub struct OptionValues {
    pub required: Seq<char>,
    pub number: Option<u64>,
    pub text: Option<Seq<char>>,
}

/// What clap makes of a command line for a program with three long options:
/// their values, or `None` if it refuses it. The options are given by name, in
/// the order required, number, text.
pub uninterp spec fn clap_values(
    required: Seq<char>,
    number: Seq<char>,
    text: Seq<char>,
    argv: Seq<Seq<char>>,
) -> Option<OptionValues>;

/// Whether a command line gives the option `name` and nothing else: its flag,
/// and a value that does not start like a flag.
pub open spec fn gives_only(argv: Seq<String>, name: Seq<char>) -> bool {
    &&& argv.len() == 3
    &&& argv[1]@ == "--"@ + name
    &&& argv[2]@.len() > 0
    &&& argv[2]@[0] != '-'
}

/// The view of an optional text.
pub open spec fn optional(text: Option<String>) -> Option<Seq<char>> {
    match text {
        Some(text) => Some(text@),
        None => None,
    }
}

/// Builds a clap `Command` with three long options and calls
/// `try_get_matches_from` on the words of a command line. The first must be
/// given and not be empty, the second is parsed as a `u64`.
///
/// The result is `clap_values`. clap refuses a command line that does not give
/// the required option, thus one that consists of the program's name alone; and
/// if the required option is all that is given, as its flag and a value that
/// does not start like a flag, then that is its value and the others have none.
/// It exits with 0 if help was asked for and with 2 if the command line is
/// wrong. The text of an error is clap's own; nothing is stated of it.
#[verifier::external_body]
fn parse_options(
    program: Program,
    required: LongOption,
    number: LongOption,
    text: LongOption,
    argv: &Vec<String>,
) -> (res: Result<(String, Option<u64>, Option<String>), ArgsError>)
    requires
        is_option_name(required.name@),
        is_option_name(number.name@),
        is_option_name(text.name@),
        required.name@ != number.name@,
        required.name@ != text.name@,
        number.name@ != text.name@,
    ensures
        clap_values(required.name@, number.name@, text.name@, words(argv@)) == match res {
            Ok(values) => Some(
                OptionValues {
                    required: values.0@,
                    number: values.1,
                    text: optional(values.2),
                },
            ),
            Err(_) => None,
        },
        res is Ok ==> res->Ok_0.0@.len() > 0,
        res is Err ==> res->Err_0.exit_code == 0 || res->Err_0.exit_code == 2,
        argv@.len() <= 1 ==> res is Err,
        argv@.len() <= 1 ==> res->Err_0.exit_code == 2,
        gives_only(argv@, required.name@) ==> res is Ok,
        gives_only(argv@, required.name@) ==> res->Ok_0.0@ == argv@[2]@,
        gives_only(argv@, required.name@) ==> res->Ok_0.1 is None,
        gives_only(argv@, required.name@) ==> res->Ok_0.2 is None,
{
    let option = |o: LongOption| Arg::new(o.name).long(o.name).value_name(o.value).help(o.help)
        .long_help(o.long_help);
    match Command::new(program.name).about(program.about).long_about(program.long_about)
        .arg(option(required).required(true).value_parser(NonEmptyStringValueParser::new()))
        .arg(option(number).value_parser(RangedU64ValueParser::<u64>::new()))
        .arg(option(text))
        .try_get_matches_from(argv)
    {
        Ok(mut m) => Ok((
            m.remove_one(required.name).unwrap(),
            m.remove_one(number.name),
            m.remove_one(text.name)
        )),
        Err(e) => Err(ArgsError { text: e.to_string(), exit_code: e.exit_code() }),
    }
}

/// What the program says of itself.
pub const ABOUT: &'static str = "naos-linux: minimum viable KVM-based hypervisor";

/// What the program says of itself at length.
pub const LONG_ABOUT: &'static str = "naos-linux: minimum viable KVM-based hypervisor.\n\n\
    Boots a vmlinux ELF kernel under KVM and prints its output to stdout. \
    The kernel will panic when it cannot find an init process — \
    that panic is the success signal. \
    See DESIGN-naos-linux for the full rationale.";

/// What is said of the option for the kernel.
pub const KERNEL_HELP: &'static str = "Path to a vmlinux ELF file";

/// What is said of the option for guest memory.
pub const MEM_HELP: &'static str = "Guest RAM in MiB [default: 256]";

/// What is said of the option for guest memory at length.
pub const MEM_LONG_HELP: &'static str = "Guest RAM in MiB\n\n[default: 256]";

/// What is said of the option for the kernel's command line.
pub const CMDLINE_HELP: &'static str =
    "Kernel command line [default: \"console=ttyS0 reboot=k panic=1 pci=off\"]";

/// What is said of the option for the kernel's command line at length.
pub const CMDLINE_LONG_HELP: &'static str =
    "Kernel command line\n\n[default: \"console=ttyS0 reboot=k panic=1 pci=off\"]";

/// The program.
#[verifier::allow_in_spec]
fn program() -> Program
    returns
        (Program { name: "naos-linux", about: ABOUT, long_about: LONG_ABOUT }),
{
    Program { name: "naos-linux", about: ABOUT, long_about: LONG_ABOUT }
}

/// The option for the kernel.
#[verifier::allow_in_spec]
fn kernel_option() -> LongOption
    returns
        (LongOption { name: "kernel", value: "KERNEL", help: KERNEL_HELP, long_help: KERNEL_HELP }),
{
    LongOption { name: "kernel", value: "KERNEL", help: KERNEL_HELP, long_help: KERNEL_HELP }
}

/// The option for guest memory.
#[verifier::allow_in_spec]
fn mem_option() -> LongOption
    returns
        (LongOption { name: "mem", value: "MEM", help: MEM_HELP, long_help: MEM_LONG_HELP }),
{
    LongOption { name: "mem", value: "MEM", help: MEM_HELP, long_help: MEM_LONG_HELP }
}

/// The option for the kernel's command line.
#[verifier::allow_in_spec]
fn cmdline_option() -> LongOption
    returns
        (LongOption {
            name: "cmdline",
            value: "CMDLINE",
            help: CMDLINE_HELP,
            long_help: CMDLINE_LONG_HELP,
        }),
{
    LongOption {
        name: "cmdline",
        value: "CMDLINE",
        help: CMDLINE_HELP,
        long_help: CMDLINE_LONG_HELP,
    }
}

/// Whether `e` is the error with which clap answers a command line for the
/// program and its options.
pub closed spec fn answered_by_clap(argv: Vec<String>, e: ArgsError) -> bool {
    call_ensures(
        parse_options,
        (program(), kernel_option(), mem_option(), cmdline_option(), &argv),
        Err::<(String, Option<u64>, Option<String>), ArgsError>(e),
    )
}

/// The arguments of the monitor.
#[derive(Debug)]
pub struct Args {
    /// Path to a vmlinux ELF file.
    pub kernel: String,
    /// Guest RAM in MiB.
    pub mem: u64,
    /// Kernel command line.
    pub cmdline: String,
}

/// The kernel command line if none is given.
pub open spec fn default_cmdline() -> Seq<char> {
    "console=ttyS0 reboot=k panic=1 pci=off"@
}

impl Args {
    /// Fills in the defaults for what was not given.
    pub fn with_defaults(kernel: String, mem: Option<u64>, cmdline: Option<String>) -> (args: Args)
        ensures
            args.kernel@ == kernel@,
            args.mem == match mem {
                Some(mem) => mem,
                None => DEFAULT_MEM,
            },
            args.cmdline@ == match cmdline {
                Some(cmdline) => cmdline@,
                None => default_cmdline(),
            },
            mem is None ==> args.mem == 256,
            mem is Some ==> args.mem == mem->Some_0,
    {
        let mem: u64 = match mem {
            Some(mem) => mem,
            None => DEFAULT_MEM,
        };
        let cmdline = match cmdline {
            Some(cmdline) => cmdline,
            None => String::from_str("console=ttyS0 reboot=k panic=1 pci=off"),
        };
        Args { kernel, mem, cmdline }
    }

    /// Parses the words of a command line, of which the first is the program's
    /// name: `--kernel <KERNEL>`, which must be given, `--mem <MEM>` and
    /// `--cmdline <CMDLINE>`.
    pub fn try_parse_from(argv: Vec<String>) -> (res: Result<Args, ArgsError>)
        ensures
            match clap_values("kernel"@, "mem"@, "cmdline"@, words(argv@)) {
                None => res is Err,
                Some(values) => {
                    &&& res matches Ok(args)
                    &&& args.kernel@ == values.required
                    &&& args.mem == match values.number {
                        Some(mem) => mem,
                        None => DEFAULT_MEM,
                    }
                    &&& args.cmdline@ == match values.text {
                        Some(cmdline) => cmdline,
                        None => default_cmdline(),
                    }
                },
            },
            res matches Ok(args) ==> args.kernel@.len() > 0,
            res matches Err(e) ==> answered_by_clap(argv, e),
            res matches Err(e) ==> e.exit_code == 0 || e.exit_code == 2,
            argv@.len() <= 1 ==> (res matches Err(e) && e.exit_code == 2),
            gives_only(argv@, "kernel"@) ==> {
                &&& res matches Ok(args)
                &&& args.kernel@ == argv@[2]@
                &&& args.mem == DEFAULT_MEM
                &&& args.cmdline@ == default_cmdline()
            },
    {
        proof {
            reveal_strlit("help");
            reveal_strlit("kernel");
            reveal_strlit("mem");
            reveal_strlit("cmdline");
            assert("kernel"@.len() == 6 && "mem"@.len() == 3 && "cmdline"@.len() == 7);
            assert("help"@.len() == 4);
        }
        let parse = parse_options;
        match parse(program(), kernel_option(), mem_option(), cmdline_option(), &argv) {
            Ok((path, mem, cmdline)) => Ok(Args::with_defaults(path, mem, cmdline)),
            Err(e) => Err(e),
        }
    }
}

} // verus!
