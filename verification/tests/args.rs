use naos_linux::args::Args;
use std::path::PathBuf;

fn words(argv: &[&str]) -> Vec<String> {
    argv.iter().map(|word| word.to_string()).collect()
}

#[test]
fn defaults_apply_when_only_kernel_is_given() {
    let args = Args::try_parse_from(words(&["naos-linux", "--kernel", "/k"])).unwrap();
    assert_eq!(PathBuf::from(&args.kernel), PathBuf::from("/k"));
    assert_eq!(args.mem, 256);
    assert_eq!(args.cmdline, "console=ttyS0 reboot=k panic=1 pci=off");
}

#[test]
fn explicit_flags_override_defaults() {
    let args = Args::try_parse_from(words(&[
        "naos-linux",
        "--kernel",
        "/k",
        "--mem",
        "512",
        "--cmdline",
        "quiet",
    ]))
    .unwrap();
    assert_eq!(args.mem, 512);
    assert_eq!(args.cmdline, "quiet");
}

#[test]
fn kernel_argument_is_required() {
    assert!(Args::try_parse_from(words(&["naos-linux"])).is_err());
}

#[test]
fn non_numeric_mem_is_rejected() {
    assert!(
        Args::try_parse_from(words(&["naos-linux", "--kernel", "/k", "--mem", "lots"])).is_err()
    );
}

#[test]
fn values_can_follow_an_equals_sign_in_any_order() {
    let args = Args::try_parse_from(words(&[
        "naos-linux",
        "--cmdline=console=ttyS0 -v",
        "--mem=0",
        "--kernel=vmlinux",
    ]))
    .unwrap();
    assert_eq!(args.kernel, "vmlinux");
    assert_eq!(args.mem, 0);
    assert_eq!(args.cmdline, "console=ttyS0 -v");
}

#[test]
fn wrong_command_lines_exit_with_two() {
    for argv in [
        &[][..],
        &["naos-linux"],
        &["naos-linux", "--mem", "512"],
        &["naos-linux", "--kernel"],
        &["naos-linux", "--kernel", ""],
        &["naos-linux", "--kernel", "/k", "--mem", "-1"],
        &["naos-linux", "--kernel", "/k", "--mem", "18446744073709551616"],
        &["naos-linux", "--kernel", "/k", "--kernel", "/k"],
        &["naos-linux", "--kernel", "/k", "extra"],
        &["naos-linux", "--kernel", "/k", "--disk", "/d"],
    ] {
        let err = Args::try_parse_from(words(argv)).unwrap_err();
        assert_eq!(err.exit_code, 2);
        assert!(err.text.starts_with("error: "));
    }
}

#[test]
fn help_names_every_option_and_exits_with_zero() {
    let err = Args::try_parse_from(words(&["naos-linux", "--help"])).unwrap_err();
    assert_eq!(err.exit_code, 0);
    for text in [
        "Usage: naos-linux [OPTIONS] --kernel <KERNEL>",
        "--mem <MEM>",
        "[default: 256]",
        "--cmdline <CMDLINE>",
        "[default: \"console=ttyS0 reboot=k panic=1 pci=off\"]",
        "Boots a vmlinux ELF kernel under KVM",
        "is the success signal. See DESIGN-naos-linux for the full rationale.",
        "Guest RAM in MiB\n          \n          [default: 256]",
    ] {
        assert!(err.text.contains(text), "{text}");
    }
    // The short form has the defaults behind what is said of the option.
    let err = Args::try_parse_from(words(&["naos-linux", "-h"])).unwrap_err();
    assert_eq!(err.exit_code, 0);
    assert!(err.text.contains("Guest RAM in MiB [default: 256]"));
    assert!(!err.text.contains("Boots a vmlinux ELF kernel under KVM"));
}

#[test]
fn defaults_fill_in_what_is_missing() {
    let args = Args::with_defaults("/k".to_string(), None, Some(String::new()));
    assert_eq!((args.mem, args.cmdline.as_str()), (256, ""));
    let args = Args::with_defaults("/k".to_string(), Some(0), None);
    assert_eq!(args.kernel, "/k");
    assert_eq!(args.mem, 0);
    assert_eq!(args.cmdline, "console=ttyS0 reboot=k panic=1 pci=off");
}
