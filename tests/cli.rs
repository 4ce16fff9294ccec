use jetporch::cli::{
    cli_mode_from_string, is_cli_mode_valid, parse_paths, split_string, CliParser, CLI_MODE_CHECK_SSH,
    CLI_MODE_LOCAL, CLI_MODE_SSH, CLI_MODE_SYNTAX, CLI_MODE_UNSET,
};
use jetporch::text::{join, parse_i64, parse_usize, split_on};

fn s(x: &str) -> String {
    String::from(x)
}

fn args(xs: &[&str]) -> Vec<String> {
    xs.iter().map(|x| s(x)).collect()
}

fn parser() -> CliParser {
    CliParser::new(None, Some(s("alice")), None, None)
}

#[test]
fn modes_by_name() {
    assert_eq!(cli_mode_from_string(&s("local")), Ok(CLI_MODE_LOCAL));
    assert_eq!(cli_mode_from_string(&s("check-ssh")), Ok(CLI_MODE_CHECK_SSH));
    assert_eq!(cli_mode_from_string(&s("syntax")), Ok(CLI_MODE_SYNTAX));
    assert_eq!(cli_mode_from_string(&s("bogus")), Err(s("invalid mode: bogus")));
    assert!(is_cli_mode_valid(&s("show")));
    assert!(!is_cli_mode_valid(&s("Local")));
}

#[test]
fn splitting_on_colons() {
    assert_eq!(split_on("a::b", ':'), vec![s("a"), s(""), s("b")]);
    assert_eq!(split_on("", ':'), vec![s("")]);
    assert_eq!(split_on("one", ':'), vec![s("one")]);
    assert_eq!(split_string(&s("web:db")), Ok(vec![s("web"), s("db")]));
    assert_eq!(parse_paths(&s("/a:/b/c")), vec![s("/a"), s("/b/c")]);
    assert_eq!(join("ab", "cd"), "abcd");
}

#[test]
fn reading_numbers() {
    assert_eq!(parse_usize("12"), Some(12));
    assert_eq!(parse_usize("+7"), Some(7));
    assert_eq!(parse_usize(""), None);
    assert_eq!(parse_usize("+"), None);
    assert_eq!(parse_usize("1a"), None);
    assert_eq!(parse_usize("-1"), None);
    assert_eq!(parse_usize("18446744073709551615"), Some(usize::MAX));
    assert_eq!(parse_usize("18446744073709551616"), None);
    assert_eq!(parse_i64("-22"), Some(-22));
    assert_eq!(parse_i64("2222"), Some(2222));
    assert_eq!(parse_i64("-9223372036854775808"), Some(i64::MIN));
    assert_eq!(parse_i64("-9223372036854775809"), None);
    assert_eq!(parse_i64("9223372036854775808"), None);
    assert_eq!(parse_i64("-"), None);
}

#[test]
fn environment_defaults() {
    let p = CliParser::new(Some(s("deploy")), Some(s("alice")), Some(s("2200")), Some(s("8")));
    assert_eq!(p.default_user, "deploy");
    assert_eq!(p.default_port, 2200);
    assert_eq!(p.threads, 8);
    let q = CliParser::new(None, None, Some(s("x")), Some(s("y")));
    assert_eq!(q.default_user, "root");
    assert_eq!(q.default_port, 22);
    assert_eq!(q.threads, 20);
    assert_eq!(parser().default_user, "alice");
    assert_eq!(parser().mode, CLI_MODE_UNSET);
}

#[test]
fn parse_an_ssh_run() {
    let mut p = parser();
    let r = p.parse(&args(&["jetp", "ssh", "-p", "site.yml", "-i", "inv:inv2", "--threads", "4", "--batch-size", "2", "-v", "--hosts", "h1:h2", "--port", "2022", "-u", "bob"]));
    assert_eq!(r, Ok(()));
    assert_eq!(p.mode, CLI_MODE_SSH);
    assert!(p.playbook_set);
    assert!(p.inventory_set);
    assert_eq!(p.playbook_paths, vec![s("site.yml")]);
    assert_eq!(p.inventory_paths, vec![s("inv"), s("inv2")]);
    assert_eq!(p.threads, 4);
    assert_eq!(p.batch_size, Some(2));
    assert_eq!(p.verbosity, 1);
    assert_eq!(p.hosts, vec![s("h1"), s("h2")]);
    assert_eq!(p.default_port, 2022);
    assert_eq!(p.default_user, "bob");
    assert!(!p.needs_help);
}

#[test]
fn local_modes_use_one_thread() {
    let mut p = parser();
    assert_eq!(p.parse(&args(&["jetp", "local", "--threads", "9"])), Ok(()));
    assert_eq!(p.threads, 1);
}

#[test]
fn help_and_missing_mode() {
    let mut p = parser();
    assert_eq!(p.parse(&args(&["jetp", "--help"])), Ok(()));
    assert!(p.needs_help);
    let mut q = parser();
    assert_eq!(q.parse(&args(&["jetp"])), Ok(()));
    assert!(q.needs_help);
    let mut r = parser();
    assert_eq!(r.parse(&args(&["jetp", "ssh", "--help"])), Ok(()));
    assert!(r.needs_help);
}

#[test]
fn parse_errors() {
    assert_eq!(parser().parse(&args(&["jetp", "fly"])), Err(s("jetp mode (fly) is not valid, see --help")));
    assert_eq!(parser().parse(&args(&["jetp", "ssh", "--wat", "x"])), Err(s("invalid flag: --wat")));
    assert_eq!(parser().parse(&args(&["jetp", "ssh", "--threads", "many"])), Err(s("--threads: invalid value")));
    assert_eq!(parser().parse(&args(&["jetp", "ssh", "--port", "p"])), Err(s("--port: invalid value")));
    assert_eq!(
        parser().parse(&args(&["jetp", "ssh", "--batch-size", "2", "--batch-size", "3"])),
        Err(s("--batch-size has been specified already"))
    );
    assert_eq!(parser().parse(&args(&["jetp", "ssh", "--batch-size", "two"])), Err(s("--batch-size: invalid value")));
    assert_eq!(
        parser().parse(&args(&["jetp", "local", "-i", "inv"])),
        Err(s("--inventory cannot be specified for local modes"))
    );
    assert_eq!(parser().parse(&args(&["jetp", "ssh", "--playbook"])), Err(s("missing value for flag: --playbook")));
}

#[test]
fn store_helpers() {
    let mut p = parser();
    assert!(p.append_roles_value(&s("r1:r2")).is_ok());
    assert_eq!(p.role_paths, vec![s("r1"), s("r2")]);
    assert!(p.store_groups_value(&s("web")).is_ok());
    assert_eq!(p.groups, vec![s("web")]);
    assert!(p.increase_verbosity(3).is_ok());
    assert_eq!(p.verbosity, 3);
    p.verbosity = u32::MAX - 1;
    assert!(p.increase_verbosity(3).is_ok());
    assert_eq!(p.verbosity, u32::MAX);
    assert!(p.store_mode_value(&s("check-ssh")).is_ok());
    assert_eq!(p.mode, CLI_MODE_CHECK_SSH);
}

#[test]
fn parse_mode_and_help_details() {
    let mut p = parser();
    assert_eq!(p.parse(&args(&["jetp", "check-local"])), Ok(()));
    assert_eq!(p.mode, jetporch::cli::CLI_MODE_CHECK_LOCAL);
    let mut q = parser();
    assert_eq!(q.parse(&args(&["jetp", "--help"])), Ok(()));
    assert_eq!(q.mode, CLI_MODE_UNSET);
    let mut r = parser();
    assert!(r.parse(&args(&["jetp", "nope"])).is_err());
    assert_eq!(r.mode, CLI_MODE_UNSET);
    let mut t = parser();
    t.batch_size = Some(4);
    assert!(t.store_batch_size_value(&s("9")).is_err());
    assert_eq!(t.batch_size, Some(4));
}

#[test]
fn first_missing_path() {
    assert_eq!(jetporch::cli::first_missing(&vec![true, false, false]), Some(1));
    assert_eq!(jetporch::cli::first_missing(&vec![true, true]), None);
    assert_eq!(jetporch::cli::first_missing(&vec![]), None);
}

#[test]
fn trailing_flag_without_value() {
    assert_eq!(
        parser().parse(&args(&["jetp", "ssh", "-v", "--threads", "3", "--port"])),
        Err(s("missing value for flag: --port"))
    );
    let mut p = parser();
    assert_eq!(p.parse(&args(&["jetp", "local", "--threads", "8"])), Ok(()));
    assert_eq!(p.mode, CLI_MODE_LOCAL);
    assert_eq!(p.threads, 1);
    let mut q = parser();
    assert_eq!(q.parse(&args(&["jetp"])), Ok(()));
    assert_eq!(q.mode, CLI_MODE_UNSET);
}
