use star::tools::cli::{
    optional_hex, reject_extra, required_hex, required_value, take_command, take_flag, take_value,
    verify_options, Command,
};
use star::tools::quote::quote_summary;

fn args(list: &[&str]) -> Vec<String> {
    list.iter().map(|s| s.to_string()).collect()
}

#[test]
fn flags_and_values_are_taken_out() {
    let mut a = args(&["--x", "--allow-debug", "b", "--allow-debug"]);
    assert!(take_flag(&mut a, "--allow-debug"));
    assert_eq!(a, args(&["--x", "b", "--allow-debug"]));
    assert!(!take_flag(&mut a, "--missing"));

    let mut a = args(&["--pccs-url", "http://p", "rest"]);
    assert_eq!(take_value(&mut a, "--pccs-url"), Ok(Some("http://p".to_string())));
    assert_eq!(a, args(&["rest"]));

    let mut a = args(&["a", "--pccs-url=http://q"]);
    assert_eq!(take_value(&mut a, "--pccs-url"), Ok(Some("http://q".to_string())));
    assert_eq!(a, args(&["a"]));

    let mut a = args(&["a", "--pccs-url"]);
    assert_eq!(
        take_value(&mut a, "--pccs-url"),
        Err("--pccs-url needs a value".to_string())
    );
    assert_eq!(a, args(&["a"]));

    let mut a = args(&["a"]);
    assert_eq!(take_value(&mut a, "--pccs-url"), Ok(None));
    assert_eq!(
        required_value(&mut a, "--mrsigner"),
        Err("missing required --mrsigner".to_string())
    );
}

#[test]
fn extra_arguments_are_refused() {
    assert_eq!(reject_extra(&[]), Ok(()));
    assert_eq!(
        reject_extra(&args(&["x", "y z"])),
        Err("unexpected arguments: x y z".to_string())
    );
}

#[test]
fn hex_options() {
    let mut a = args(&["--key=0xaabb", "--other", "01:02"]);
    assert_eq!(required_hex::<2>(&mut a, "--key", "key"), Ok([0xaa, 0xbb]));
    assert_eq!(optional_hex::<2>(&mut a, "--other", "other"), Ok(Some([1, 2])));
    assert_eq!(optional_hex::<2>(&mut a, "--none", "none"), Ok(None));
    assert!(a.is_empty());
    let mut a = args(&["--key", "zz"]);
    assert!(required_hex::<1>(&mut a, "--key", "key").is_err());
}

#[test]
fn commands() {
    let mut a = args(&["inspect", "x"]);
    assert_eq!(take_command(&mut a), Some(Command::Inspect));
    assert_eq!(a, args(&["x"]));
    assert_eq!(take_command(&mut args(&["verify"])), Some(Command::Verify));
    assert_eq!(take_command(&mut args(&["-h"])), Some(Command::Help));
    assert_eq!(
        take_command(&mut args(&["frob"])),
        Some(Command::Unknown("frob".to_string()))
    );
    assert_eq!(take_command(&mut Vec::new()), None);
}

#[test]
fn verify_options_parse() {
    let signer = "11".repeat(32);
    let options = verify_options(args(&[
        "--mrsigner",
        &signer,
        "--allow-advisory",
        "--pccs-url=https://pccs",
    ]))
    .unwrap();
    assert_eq!(options.expected_mrsigner, [0x11; 32]);
    assert_eq!(options.expected_mrenclave, None);
    assert!(!options.allow_debug);
    assert!(options.allow_advisory);
    assert_eq!(options.pccs_url, Some("https://pccs".to_string()));
    assert_eq!(
        verify_options(args(&[])).err(),
        Some("missing required --mrsigner".to_string())
    );
    assert_eq!(
        verify_options(args(&["--mrsigner", &signer, "extra"])).err(),
        Some("unexpected arguments: extra".to_string())
    );
}

#[test]
fn summaries_need_a_parseable_quote() {
    assert!(quote_summary(&[0u8; 8]).is_err());
}
