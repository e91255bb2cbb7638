use clap::{Arg, ArgAction, Command};
use spacetimedb_lib::cli_args::{ArgKind, ArgSpec};
use spacetimedb_lib::{
    client_cert, client_key, client_no_trust_system_root_store, client_trust_cert,
    client_trust_system_root_store, no_trust_system_root_store, trust_server_cert,
    trust_system_root_store,
};

fn to_arg(spec: &ArgSpec) -> Arg {
    let mut arg = Arg::new(spec.name).long(spec.name).aliases(spec.aliases.clone()).help(spec.help);
    arg = match spec.kind {
        ArgKind::Path => arg.value_name("FILE").action(ArgAction::Set),
        ArgKind::Flag => arg.action(ArgAction::SetTrue),
    };
    for needed in &spec.needs {
        arg = arg.requires(*needed);
    }
    for other in &spec.conflicts_with {
        arg = arg.conflicts_with(*other);
    }
    arg
}

fn client() -> Command {
    let specs = [
        trust_server_cert(),
        client_cert(),
        client_key(),
        trust_system_root_store(),
        no_trust_system_root_store(),
    ];
    Command::new("client").args(specs.iter().map(to_arg))
}

fn server() -> Command {
    let specs = [
        client_trust_cert(),
        client_trust_system_root_store(),
        client_no_trust_system_root_store(),
    ];
    Command::new("server")
        .arg(Arg::new("ssl").long("ssl").action(ArgAction::SetTrue))
        .args(specs.iter().map(to_arg))
}

fn accepts(command: Command, args: &[&str]) -> bool {
    command.try_get_matches_from(args).is_ok()
}

#[test]
fn the_arguments_fit_together() {
    client().debug_assert();
    server().debug_assert();
}

#[test]
fn every_alias_stands_for_its_argument() {
    for alias in trust_server_cert().aliases {
        let matches = client().try_get_matches_from(["client", &format!("--{}", alias), "a"]).unwrap();
        assert_eq!(matches.get_one::<String>("trust-server-cert").unwrap(), "a");
    }
    for alias in client_trust_cert().aliases {
        let matches =
            server().try_get_matches_from(["server", "--ssl", &format!("--{}", alias), "a"]).unwrap();
        assert_eq!(matches.get_one::<String>("client-trust-cert").unwrap(), "a");
    }
    assert_eq!(trust_server_cert().aliases.len(), 14);
    assert_eq!(client_trust_cert().aliases.len(), 14);
}

#[test]
fn certificate_and_key_are_taken_together() {
    assert!(accepts(client(), &["client"]));
    assert!(accepts(client(), &["client", "--client-cert", "c", "--client-key", "k"]));
    assert!(!accepts(client(), &["client", "--client-cert", "c"]));
    assert!(!accepts(client(), &["client", "--client-key", "k"]));
}

#[test]
fn trust_stores_exclude_each_other() {
    assert!(accepts(client(), &["client", "--trust-system-root-store"]));
    assert!(accepts(client(), &["client", "--empty-trust-store", "--cert", "c"]));
    assert!(!accepts(client(), &["client", "--no-trust-system-root-store"]));
    assert!(!accepts(
        client(),
        &["client", "--no-trust-system-root-store", "--trust-system-root-store", "--cert", "c"]
    ));
}

#[test]
fn the_server_needs_ssl() {
    assert!(accepts(server(), &["server", "--ssl", "--client-trust-system-root-store"]));
    assert!(!accepts(server(), &["server", "--client-trust-system-root-store"]));
    assert!(!accepts(server(), &["server", "--client-cert", "c"]));
    assert!(!accepts(server(), &["server", "--ssl", "--client-no-trust-system-root-store"]));
    assert!(accepts(
        server(),
        &["server", "--ssl", "--client-empty-trust-store", "--client-cert", "c"]
    ));
    assert!(!accepts(
        server(),
        &[
            "server",
            "--ssl",
            "--client-no-trust-system-root-store",
            "--client-trust-system-root-store",
            "--client-cert",
            "c"
        ]
    ));
}
