//! The command line arguments by which a client or server is told whom to trust and which
//! certificate to show.

use vstd::prelude::*;

verus! {

/// What an argument on the command line does.
#[derive(Clone, Copy, PartialEq, Eq, Debug, Structural)]
pub enum ArgKind {
    /// It takes the path of a file. It need not be there.
    Path,
    /// It is a flag, set when it is there.
    Flag,
}

/// An argument of the command line.
#[derive(Clone, PartialEq, Eq, Debug)]
pub struct ArgSpec {
    /// What the argument is called by other arguments, and after two dashes on the command line.
    pub name: &'static str,
    /// Other names for it on the command line.
    pub aliases: Vec<&'static str>,
    pub kind: ArgKind,
    /// The arguments that must be there when this one is.
    pub needs: Vec<&'static str>,
    /// The arguments that must not be there when this one is.
    pub conflicts_with: Vec<&'static str>,
    pub help: &'static str,
}

/// What an argument of the command line is.
#[verifier::ext_equal]
pub struct ArgModel {
    pub name: Seq<char>,
    pub aliases: Seq<Seq<char>>,
    pub kind: ArgKind,
    pub needs: Seq<Seq<char>>,
    pub conflicts_with: Seq<Seq<char>>,
    pub help: Seq<char>,
}

/// Names as texts.
pub open spec fn texts(names: Seq<&'static str>) -> Seq<Seq<char>> {
    Seq::new(names.len(), |i: int| names[i]@)
}

impl ArgSpec {
    pub open spec fn view(&self) -> ArgModel {
        ArgModel {
            name: self.name@,
            aliases: texts(self.aliases@),
            kind: self.kind,
            needs: texts(self.needs@),
            conflicts_with: texts(self.conflicts_with@),
            help: self.help@,
        }
    }
}

impl ArgModel {
    /// All names of the argument on the command line, the proper one first.
    pub open spec fn names(self) -> Seq<Seq<char>> {
        seq![self.name] + self.aliases
    }
}

/// What [`trust_server_cert`] gives.
pub open spec fn trust_server_cert_model() -> ArgModel {
    ArgModel {
        name: "trust-server-cert"@,
        aliases: seq![
            "trust-server-certs"@,
            "trust-server-cert-bundle"@,
            "cert"@,
            "certs"@,
            "cert-bundle"@,
            "root-cert"@,
            "root-certs"@,
            "root-cert-bundle"@,
            "trust-ca-cert"@,
            "trust-ca-certs"@,
            "trust-ca-cert-bundle"@,
            "ca-certs"@,
            "ca-cert"@,
            "ca-cert-bundle"@,
        ],
        kind: ArgKind::Path,
        needs: seq![],
        conflicts_with: seq![],
        help: "Path to the server’s self-signed certificate or CA certificate (PEM format, can be a bundle ie. appended PEM certs) to trust during this command (ie. as if it were part of your system's cert trust/root store)"@,
    }
}

/// for cli clients: the certificates that are trusted when the server shows its own
pub fn trust_server_cert() -> (r: ArgSpec)
    ensures
        r@ == trust_server_cert_model(),
        r.name@ == "trust-server-cert"@,
        r.kind == ArgKind::Path,
        r.help@ == "Path to the server’s self-signed certificate or CA certificate (PEM format, can be a bundle ie. appended PEM certs) to trust during this command (ie. as if it were part of your system's cert trust/root store)"@,
{
    let arg = ArgSpec {
        name: "trust-server-cert",
        aliases: vec![
            "trust-server-certs",
            "trust-server-cert-bundle",
            "cert",
            "certs",
            "cert-bundle",
            "root-cert",
            "root-certs",
            "root-cert-bundle",
            "trust-ca-cert",
            "trust-ca-certs",
            "trust-ca-cert-bundle",
            "ca-certs",
            "ca-cert",
            "ca-cert-bundle",
        ],
        kind: ArgKind::Path,
        needs: vec![],
        conflicts_with: vec![],
        help: "Path to the server’s self-signed certificate or CA certificate (PEM format, can be a bundle ie. appended PEM certs) to trust during this command (ie. as if it were part of your system's cert trust/root store)",
    };
    assert(arg@ =~= trust_server_cert_model());
    arg
}

/// What [`client_cert`] gives.
pub open spec fn client_cert_model() -> ArgModel {
    ArgModel {
        name: "client-cert"@,
        aliases: seq![],
        kind: ArgKind::Path,
        needs: seq!["client-key"@],
        conflicts_with: seq![],
        help: "Path to the client’s certificate (PEM format) for authentication, this will be presented to the server that we(the client) are trying to connect to."@,
    }
}

/// for the cli clients: the certificate that is shown to the server
pub fn client_cert() -> (r: ArgSpec)
    ensures
        r@ == client_cert_model(),
        r.name@ == "client-cert"@,
        r.kind == ArgKind::Path,
        r.help@ == "Path to the client’s certificate (PEM format) for authentication, this will be presented to the server that we(the client) are trying to connect to."@,
{
    let arg = ArgSpec {
        name: "client-cert",
        aliases: vec![],
        kind: ArgKind::Path,
        needs: vec!["client-key"],
        conflicts_with: vec![],
        help: "Path to the client’s certificate (PEM format) for authentication, this will be presented to the server that we(the client) are trying to connect to.",
    };
    assert(arg@ =~= client_cert_model());
    arg
}

/// What [`client_key`] gives.
pub open spec fn client_key_model() -> ArgModel {
    ArgModel {
        name: "client-key"@,
        aliases: seq![],
        kind: ArgKind::Path,
        needs: seq!["client-cert"@],
        conflicts_with: seq![],
        help: "Path to the client’s private key (PEM format) for authentication, this will be used our(client) outgoing connection to the server."@,
    }
}

/// for the cli clients: the private key of the certificate that is shown to the server
pub fn client_key() -> (r: ArgSpec)
    ensures
        r@ == client_key_model(),
        r.name@ == "client-key"@,
        r.kind == ArgKind::Path,
        r.help@ == "Path to the client’s private key (PEM format) for authentication, this will be used our(client) outgoing connection to the server."@,
{
    let arg = ArgSpec {
        name: "client-key",
        aliases: vec![],
        kind: ArgKind::Path,
        needs: vec!["client-cert"],
        conflicts_with: vec![],
        help: "Path to the client’s private key (PEM format) for authentication, this will be used our(client) outgoing connection to the server.",
    };
    assert(arg@ =~= client_key_model());
    arg
}

/// What [`trust_system_root_store`] gives.
pub open spec fn trust_system_root_store_model() -> ArgModel {
    ArgModel {
        name: "trust-system-root-store"@,
        aliases: seq![],
        kind: ArgKind::Flag,
        needs: seq![],
        conflicts_with: seq!["no-trust-system-root-store"@],
        help: "Use system root certificates (default)"@,
    }
}

/// for cli clients: this is the default (to trust)
pub fn trust_system_root_store() -> (r: ArgSpec)
    ensures
        r@ == trust_system_root_store_model(),
        r.name@ == "trust-system-root-store"@,
        r.kind == ArgKind::Flag,
        r.help@ == "Use system root certificates (default)"@,
{
    let arg = ArgSpec {
        name: "trust-system-root-store",
        aliases: vec![],
        kind: ArgKind::Flag,
        needs: vec![],
        conflicts_with: vec!["no-trust-system-root-store"],
        help: "Use system root certificates (default)",
    };
    assert(arg@ =~= trust_system_root_store_model());
    arg
}

/// What [`no_trust_system_root_store`] gives.
pub open spec fn no_trust_system_root_store_model() -> ArgModel {
    ArgModel {
        name: "no-trust-system-root-store"@,
        aliases: seq!["empty-trust-store"@],
        kind: ArgKind::Flag,
        needs: seq!["trust-server-cert"@],
        conflicts_with: seq!["trust-system-root-store"@],
        help: "Use empty trust store (requires --trust-server-cert else there'd be 0 certs to verify trust)"@,
    }
}

/// for cli clients: setting this means that only the certificates of [`trust_server_cert`] are used to
/// verify the target server's certificate
pub fn no_trust_system_root_store() -> (r: ArgSpec)
    ensures
        r@ == no_trust_system_root_store_model(),
        r.name@ == "no-trust-system-root-store"@,
        r.kind == ArgKind::Flag,
        r.help@ == "Use empty trust store (requires --trust-server-cert else there'd be 0 certs to verify trust)"@,
{
    let arg = ArgSpec {
        name: "no-trust-system-root-store",
        aliases: vec!["empty-trust-store"],
        kind: ArgKind::Flag,
        needs: vec!["trust-server-cert"],
        conflicts_with: vec!["trust-system-root-store"],
        help: "Use empty trust store (requires --trust-server-cert else there'd be 0 certs to verify trust)",
    };
    assert(arg@ =~= no_trust_system_root_store_model());
    arg
}

/// What [`client_trust_cert`] gives.
pub open spec fn client_trust_cert_model() -> ArgModel {
    ArgModel {
        name: "client-trust-cert"@,
        aliases: seq![
            "client-cert"@,
            "client-certs"@,
            "client-ca-cert"@,
            "client-CA-cert"@,
            "client-root-cert"@,
            "client-trust-certs"@,
            "client-ca-certs"@,
            "client-CA-certs"@,
            "client-root-certs"@,
            "client-cert-bundle"@,
            "client-trust-cert-bundle"@,
            "client-ca-cert-bundle"@,
            "client-CA-cert-bundle"@,
            "client-root-cert-bundle"@,
        ],
        kind: ArgKind::Path,
        needs: seq!["ssl"@],
        conflicts_with: seq![],
        help: "Path to PEM file containing certificate(s) to trust for client authentication (e.g., CA or self-signed)"@,
    }
}

/// for the standalone server: the certificates that are trusted when a client shows its own
pub fn client_trust_cert() -> (r: ArgSpec)
    ensures
        r@ == client_trust_cert_model(),
        r.name@ == "client-trust-cert"@,
        r.kind == ArgKind::Path,
        r.help@ == "Path to PEM file containing certificate(s) to trust for client authentication (e.g., CA or self-signed)"@,
{
    let arg = ArgSpec {
        name: "client-trust-cert",
        aliases: vec![
            "client-cert",
            "client-certs",
            "client-ca-cert",
            "client-CA-cert",
            "client-root-cert",
            "client-trust-certs",
            "client-ca-certs",
            "client-CA-certs",
            "client-root-certs",
            "client-cert-bundle",
            "client-trust-cert-bundle",
            "client-ca-cert-bundle",
            "client-CA-cert-bundle",
            "client-root-cert-bundle",
        ],
        kind: ArgKind::Path,
        needs: vec!["ssl"],
        conflicts_with: vec![],
        help: "Path to PEM file containing certificate(s) to trust for client authentication (e.g., CA or self-signed)",
    };
    assert(arg@ =~= client_trust_cert_model());
    arg
}

/// What [`client_trust_system_root_store`] gives.
pub open spec fn client_trust_system_root_store_model() -> ArgModel {
    ArgModel {
        name: "client-trust-system-root-store"@,
        aliases: seq![],
        kind: ArgKind::Flag,
        needs: seq!["ssl"@],
        conflicts_with: seq!["client-no-trust-system-root-store"@],
        help: "Use system root certificates for client authentication (unusual)"@,
    }
}

/// for the standalone server: clients are verified by the system's certificates
pub fn client_trust_system_root_store() -> (r: ArgSpec)
    ensures
        r@ == client_trust_system_root_store_model(),
        r.name@ == "client-trust-system-root-store"@,
        r.kind == ArgKind::Flag,
        r.help@ == "Use system root certificates for client authentication (unusual)"@,
{
    let arg = ArgSpec {
        name: "client-trust-system-root-store",
        aliases: vec![],
        kind: ArgKind::Flag,
        needs: vec!["ssl"],
        conflicts_with: vec!["client-no-trust-system-root-store"],
        help: "Use system root certificates for client authentication (unusual)",
    };
    assert(arg@ =~= client_trust_system_root_store_model());
    arg
}

/// What [`client_no_trust_system_root_store`] gives.
pub open spec fn client_no_trust_system_root_store_model() -> ArgModel {
    ArgModel {
        name: "client-no-trust-system-root-store"@,
        aliases: seq!["client-empty-trust-store"@],
        kind: ArgKind::Flag,
        needs: seq!["client-trust-cert"@, "ssl"@],
        conflicts_with: seq!["client-trust-system-root-store"@],
        help: "Use empty trust store for client authentication (default), requires --client-trust-cert to validate client certs somehow."@,
    }
}

/// for the standalone server: clients are verified by the certificates of [`client_trust_cert`] alone
pub fn client_no_trust_system_root_store() -> (r: ArgSpec)
    ensures
        r@ == client_no_trust_system_root_store_model(),
        r.name@ == "client-no-trust-system-root-store"@,
        r.kind == ArgKind::Flag,
        r.help@ == "Use empty trust store for client authentication (default), requires --client-trust-cert to validate client certs somehow."@,
{
    let arg = ArgSpec {
        name: "client-no-trust-system-root-store",
        aliases: vec!["client-empty-trust-store"],
        kind: ArgKind::Flag,
        needs: vec!["client-trust-cert", "ssl"],
        conflicts_with: vec!["client-trust-system-root-store"],
        help: "Use empty trust store for client authentication (default), requires --client-trust-cert to validate client certs somehow.",
    };
    assert(arg@ =~= client_no_trust_system_root_store_model());
    arg
}

/// All names that a command line client knows by these arguments.
pub open spec fn client_names() -> Seq<Seq<char>> {
    trust_server_cert_model().names()
        + client_cert_model().names()
        + client_key_model().names()
        + trust_system_root_store_model().names()
        + no_trust_system_root_store_model().names()
}

/// All names that the standalone server knows by these arguments.
pub open spec fn server_names() -> Seq<Seq<char>> {
    client_trust_cert_model().names()
        + client_trust_system_root_store_model().names()
        + client_no_trust_system_root_store_model().names()
}

/// A number by which names can be told apart: their length, and one of their characters.
spec fn mark(name: Seq<char>, at: int) -> int {
    name.len() * 1000 + name[at] as int
}

/// No two arguments of a command line client share a name, and none has a name twice.
pub proof fn law_client_names_are_distinct()
    ensures
        client_names().no_duplicates(),
{
    let names = client_names();
    lemma_client_marks();
    assert forall|i: int, j: int| 0 <= i < names.len() && 0 <= j < names.len() && i
        != j implies names[i] != names[j] by {
        assert(mark(names[i], 1) == client_marks()[i]);
        assert(mark(names[j], 1) == client_marks()[j]);
    }
}

spec fn client_marks() -> Seq<int> {
    seq![17114, 18114, 24114, 4101, 5101, 11101, 9111, 10111, 16111, 13114, 14114, 20114, 8097, 7097, 14097, 11108, 10108, 23114, 26111, 17109]
}

proof fn lemma_client_marks()
    ensures
        client_names().len() == client_marks().len(),
        forall|i: int|
            0 <= i < client_names().len() ==> mark(#[trigger] client_names()[i], 1)
                == client_marks()[i],
{
    reveal_strlit("trust-server-cert");
    reveal_strlit("trust-server-certs");
    reveal_strlit("trust-server-cert-bundle");
    reveal_strlit("cert");
    reveal_strlit("certs");
    reveal_strlit("cert-bundle");
    reveal_strlit("root-cert");
    reveal_strlit("root-certs");
    reveal_strlit("root-cert-bundle");
    reveal_strlit("trust-ca-cert");
    reveal_strlit("trust-ca-certs");
    reveal_strlit("trust-ca-cert-bundle");
    reveal_strlit("ca-certs");
    reveal_strlit("ca-cert");
    reveal_strlit("ca-cert-bundle");
    reveal_strlit("client-cert");
    reveal_strlit("client-key");
    reveal_strlit("trust-system-root-store");
    reveal_strlit("no-trust-system-root-store");
    reveal_strlit("empty-trust-store");
    assert(client_names() =~= seq![
        "trust-server-cert"@,
        "trust-server-certs"@,
        "trust-server-cert-bundle"@,
        "cert"@,
        "certs"@,
        "cert-bundle"@,
        "root-cert"@,
        "root-certs"@,
        "root-cert-bundle"@,
        "trust-ca-cert"@,
        "trust-ca-certs"@,
        "trust-ca-cert-bundle"@,
        "ca-certs"@,
        "ca-cert"@,
        "ca-cert-bundle"@,
        "client-cert"@,
        "client-key"@,
        "trust-system-root-store"@,
        "no-trust-system-root-store"@,
        "empty-trust-store"@,
    ]);
}

/// No two arguments of the standalone server share a name, and none has a name twice.
pub proof fn law_server_names_are_distinct()
    ensures
        server_names().no_duplicates(),
{
    let names = server_names();
    lemma_server_marks();
    assert forall|i: int, j: int| 0 <= i < names.len() && 0 <= j < names.len() && i
        != j implies names[i] != names[j] by {
        assert(mark(names[i], 7) == server_marks()[i]);
        assert(mark(names[j], 7) == server_marks()[j]);
    }
}

spec fn server_marks() -> Seq<int> {
    seq![17116, 11099, 12099, 14099, 14067, 16114, 18116, 15099, 15067, 17114, 18099, 24116, 21099, 21067, 23114, 30116, 33110, 24101]
}

proof fn lemma_server_marks()
    ensures
        server_names().len() == server_marks().len(),
        forall|i: int|
            0 <= i < server_names().len() ==> mark(#[trigger] server_names()[i], 7)
                == server_marks()[i],
{
    reveal_strlit("client-trust-cert");
    reveal_strlit("client-cert");
    reveal_strlit("client-certs");
    reveal_strlit("client-ca-cert");
    reveal_strlit("client-CA-cert");
    reveal_strlit("client-root-cert");
    reveal_strlit("client-trust-certs");
    reveal_strlit("client-ca-certs");
    reveal_strlit("client-CA-certs");
    reveal_strlit("client-root-certs");
    reveal_strlit("client-cert-bundle");
    reveal_strlit("client-trust-cert-bundle");
    reveal_strlit("client-ca-cert-bundle");
    reveal_strlit("client-CA-cert-bundle");
    reveal_strlit("client-root-cert-bundle");
    reveal_strlit("client-trust-system-root-store");
    reveal_strlit("client-no-trust-system-root-store");
    reveal_strlit("client-empty-trust-store");
    assert(server_names() =~= seq![
        "client-trust-cert"@,
        "client-cert"@,
        "client-certs"@,
        "client-ca-cert"@,
        "client-CA-cert"@,
        "client-root-cert"@,
        "client-trust-certs"@,
        "client-ca-certs"@,
        "client-CA-certs"@,
        "client-root-certs"@,
        "client-cert-bundle"@,
        "client-trust-cert-bundle"@,
        "client-ca-cert-bundle"@,
        "client-CA-cert-bundle"@,
        "client-root-cert-bundle"@,
        "client-trust-system-root-store"@,
        "client-no-trust-system-root-store"@,
        "client-empty-trust-store"@,
    ]);
}

/// A client that shows a certificate names its key, and a client that names a key shows the
/// certificate: neither is taken without the other.
pub proof fn law_certificate_and_key_go_together()
    ensures
        client_cert_model().needs.contains(client_key_model().name),
        client_key_model().needs.contains(client_cert_model().name),
{
    assert(client_cert_model().needs[0] == client_key_model().name);
    assert(client_key_model().needs[0] == client_cert_model().name);
}

/// The flags that trust and do not trust the system's certificates exclude each other, for clients
/// and for the server.
pub proof fn law_trust_store_flags_exclude_each_other()
    ensures
        trust_system_root_store_model().conflicts_with.contains(
            no_trust_system_root_store_model().name,
        ),
        no_trust_system_root_store_model().conflicts_with.contains(
            trust_system_root_store_model().name,
        ),
        client_trust_system_root_store_model().conflicts_with.contains(
            client_no_trust_system_root_store_model().name,
        ),
        client_no_trust_system_root_store_model().conflicts_with.contains(
            client_trust_system_root_store_model().name,
        ),
{
    assert(trust_system_root_store_model().conflicts_with[0]
        == no_trust_system_root_store_model().name);
    assert(no_trust_system_root_store_model().conflicts_with[0]
        == trust_system_root_store_model().name);
    assert(client_trust_system_root_store_model().conflicts_with[0]
        == client_no_trust_system_root_store_model().name);
    assert(client_no_trust_system_root_store_model().conflicts_with[0]
        == client_trust_system_root_store_model().name);
}

/// Without the system's certificates, others must be named, else nothing could be verified.
pub proof fn law_empty_trust_store_needs_certificates()
    ensures
        no_trust_system_root_store_model().needs.contains(trust_server_cert_model().name),
        client_no_trust_system_root_store_model().needs.contains(client_trust_cert_model().name),
{
    assert(no_trust_system_root_store_model().needs[0] == trust_server_cert_model().name);
    assert(client_no_trust_system_root_store_model().needs[0] == client_trust_cert_model().name);
}

/// Whatever the server is told of its clients' certificates needs an encrypted connection.
pub proof fn law_server_arguments_need_ssl()
    ensures
        client_trust_cert_model().needs.contains("ssl"@),
        client_trust_system_root_store_model().needs.contains("ssl"@),
        client_no_trust_system_root_store_model().needs.contains("ssl"@),
{
    assert(client_trust_cert_model().needs[0] == "ssl"@);
    assert(client_trust_system_root_store_model().needs[0] == "ssl"@);
    assert(client_no_trust_system_root_store_model().needs[1] == "ssl"@);
}

/// What the names of a file of certificates end with.
pub open spec fn file_endings() -> Seq<Seq<char>> {
    seq!["cert"@, "certs"@, "cert-bundle"@]
}

/// What the names of such a file begin with.
pub open spec fn trusted_server_files_have_all_names_stems() -> Seq<Seq<char>> {
    seq!["trust-server-"@, ""@, "root-"@, "trust-ca-"@, "ca-"@]
}

/// The certificates to trust go by every beginning with every ending, and by nothing else.
pub proof fn law_trusted_server_files_have_all_names()
    ensures
        trust_server_cert_model().names().len() == 15,
        forall|i: int, j: int|
            0 <= i < 5 && 0 <= j < 3 ==> trust_server_cert_model().names().contains(
                #[trigger] (trusted_server_files_have_all_names_stems()[i] + file_endings()[j]),
            ),
{
    let names = trust_server_cert_model().names();
    reveal_strlit("ca-");
    reveal_strlit("ca-cert");
    reveal_strlit("ca-cert-bundle");
    reveal_strlit("ca-certs");
    reveal_strlit("cert");
    reveal_strlit("cert-bundle");
    reveal_strlit("certs");
    reveal_strlit("root-");
    reveal_strlit("root-cert");
    reveal_strlit("root-cert-bundle");
    reveal_strlit("root-certs");
    reveal_strlit("trust-ca-");
    reveal_strlit("trust-ca-cert");
    reveal_strlit("trust-ca-cert-bundle");
    reveal_strlit("trust-ca-certs");
    reveal_strlit("trust-server-");
    reveal_strlit("trust-server-cert");
    reveal_strlit("trust-server-cert-bundle");
    reveal_strlit("trust-server-certs");
    reveal_strlit("");
    assert(trusted_server_files_have_all_names_stems()[0] + file_endings()[0] =~= names[0]);
    assert(trusted_server_files_have_all_names_stems()[0] + file_endings()[1] =~= names[1]);
    assert(trusted_server_files_have_all_names_stems()[0] + file_endings()[2] =~= names[2]);
    assert(trusted_server_files_have_all_names_stems()[1] + file_endings()[0] =~= names[3]);
    assert(trusted_server_files_have_all_names_stems()[1] + file_endings()[1] =~= names[4]);
    assert(trusted_server_files_have_all_names_stems()[1] + file_endings()[2] =~= names[5]);
    assert(trusted_server_files_have_all_names_stems()[2] + file_endings()[0] =~= names[6]);
    assert(trusted_server_files_have_all_names_stems()[2] + file_endings()[1] =~= names[7]);
    assert(trusted_server_files_have_all_names_stems()[2] + file_endings()[2] =~= names[8]);
    assert(trusted_server_files_have_all_names_stems()[3] + file_endings()[0] =~= names[9]);
    assert(trusted_server_files_have_all_names_stems()[3] + file_endings()[1] =~= names[10]);
    assert(trusted_server_files_have_all_names_stems()[3] + file_endings()[2] =~= names[11]);
    assert(trusted_server_files_have_all_names_stems()[4] + file_endings()[0] =~= names[13]);
    assert(trusted_server_files_have_all_names_stems()[4] + file_endings()[1] =~= names[12]);
    assert(trusted_server_files_have_all_names_stems()[4] + file_endings()[2] =~= names[14]);
}

/// What the names of such a file begin with.
pub open spec fn trusted_client_files_have_all_names_stems() -> Seq<Seq<char>> {
    seq!["client-trust-"@, "client-"@, "client-ca-"@, "client-CA-"@, "client-root-"@]
}

/// The server's certificates for its clients go by every beginning with every ending, and by
/// nothing else.
pub proof fn law_trusted_client_files_have_all_names()
    ensures
        client_trust_cert_model().names().len() == 15,
        forall|i: int, j: int|
            0 <= i < 5 && 0 <= j < 3 ==> client_trust_cert_model().names().contains(
                #[trigger] (trusted_client_files_have_all_names_stems()[i] + file_endings()[j]),
            ),
{
    let names = client_trust_cert_model().names();
    reveal_strlit("cert");
    reveal_strlit("cert-bundle");
    reveal_strlit("certs");
    reveal_strlit("client-");
    reveal_strlit("client-CA-");
    reveal_strlit("client-CA-cert");
    reveal_strlit("client-CA-cert-bundle");
    reveal_strlit("client-CA-certs");
    reveal_strlit("client-ca-");
    reveal_strlit("client-ca-cert");
    reveal_strlit("client-ca-cert-bundle");
    reveal_strlit("client-ca-certs");
    reveal_strlit("client-cert");
    reveal_strlit("client-cert-bundle");
    reveal_strlit("client-certs");
    reveal_strlit("client-root-");
    reveal_strlit("client-root-cert");
    reveal_strlit("client-root-cert-bundle");
    reveal_strlit("client-root-certs");
    reveal_strlit("client-trust-");
    reveal_strlit("client-trust-cert");
    reveal_strlit("client-trust-cert-bundle");
    reveal_strlit("client-trust-certs");
    assert(trusted_client_files_have_all_names_stems()[0] + file_endings()[0] =~= names[0]);
    assert(trusted_client_files_have_all_names_stems()[0] + file_endings()[1] =~= names[6]);
    assert(trusted_client_files_have_all_names_stems()[0] + file_endings()[2] =~= names[11]);
    assert(trusted_client_files_have_all_names_stems()[1] + file_endings()[0] =~= names[1]);
    assert(trusted_client_files_have_all_names_stems()[1] + file_endings()[1] =~= names[2]);
    assert(trusted_client_files_have_all_names_stems()[1] + file_endings()[2] =~= names[10]);
    assert(trusted_client_files_have_all_names_stems()[2] + file_endings()[0] =~= names[3]);
    assert(trusted_client_files_have_all_names_stems()[2] + file_endings()[1] =~= names[7]);
    assert(trusted_client_files_have_all_names_stems()[2] + file_endings()[2] =~= names[12]);
    assert(trusted_client_files_have_all_names_stems()[3] + file_endings()[0] =~= names[4]);
    assert(trusted_client_files_have_all_names_stems()[3] + file_endings()[1] =~= names[8]);
    assert(trusted_client_files_have_all_names_stems()[3] + file_endings()[2] =~= names[13]);
    assert(trusted_client_files_have_all_names_stems()[4] + file_endings()[0] =~= names[5]);
    assert(trusted_client_files_have_all_names_stems()[4] + file_endings()[1] =~= names[9]);
    assert(trusted_client_files_have_all_names_stems()[4] + file_endings()[2] =~= names[14]);
}

/// Files are named by a path, and trust stores are chosen by a flag. An argument needs and excludes
/// no more than the arguments that the other laws name, and has no other names than these.
pub proof fn law_arguments_ask_for_nothing_more()
    ensures
        trust_server_cert_model().kind == ArgKind::Path,
        client_cert_model().kind == ArgKind::Path,
        client_key_model().kind == ArgKind::Path,
        client_trust_cert_model().kind == ArgKind::Path,
        trust_system_root_store_model().kind == ArgKind::Flag,
        no_trust_system_root_store_model().kind == ArgKind::Flag,
        client_trust_system_root_store_model().kind == ArgKind::Flag,
        client_no_trust_system_root_store_model().kind == ArgKind::Flag,
        trust_server_cert_model().needs.len() == 0,
        client_cert_model().needs.len() == 1,
        client_key_model().needs.len() == 1,
        trust_system_root_store_model().needs.len() == 0,
        no_trust_system_root_store_model().needs.len() == 1,
        client_trust_cert_model().needs.len() == 1,
        client_trust_system_root_store_model().needs.len() == 1,
        client_no_trust_system_root_store_model().needs.len() == 2,
        trust_server_cert_model().conflicts_with.len() == 0,
        client_cert_model().conflicts_with.len() == 0,
        client_key_model().conflicts_with.len() == 0,
        trust_system_root_store_model().conflicts_with.len() == 1,
        no_trust_system_root_store_model().conflicts_with.len() == 1,
        client_trust_cert_model().conflicts_with.len() == 0,
        client_trust_system_root_store_model().conflicts_with.len() == 1,
        client_no_trust_system_root_store_model().conflicts_with.len() == 1,
        client_cert_model().names() == seq!["client-cert"@],
        client_key_model().names() == seq!["client-key"@],
        trust_system_root_store_model().names() == seq!["trust-system-root-store"@],
        no_trust_system_root_store_model().names() == seq![
            "no-trust-system-root-store"@,
            "empty-trust-store"@,
        ],
        client_trust_system_root_store_model().names() == seq!["client-trust-system-root-store"@],
        client_no_trust_system_root_store_model().names() == seq![
            "client-no-trust-system-root-store"@,
            "client-empty-trust-store"@,
        ],
{
}

/// An argument shows its own name, its other names, and what it needs and excludes, one by one.
pub proof fn law_argument_shows_what_it_is(arg: ArgSpec)
    ensures
        arg@.name == arg.name@,
        arg@.kind == arg.kind,
        arg@.help == arg.help@,
        arg@.aliases.len() == arg.aliases@.len(),
        arg@.needs.len() == arg.needs@.len(),
        arg@.conflicts_with.len() == arg.conflicts_with@.len(),
        forall|i: int|
            0 <= i < arg.aliases@.len() ==> arg@.aliases[i] == (#[trigger] arg.aliases@[i])@,
        forall|i: int| 0 <= i < arg.needs@.len() ==> arg@.needs[i] == (#[trigger] arg.needs@[i])@,
        forall|i: int|
            0 <= i < arg.conflicts_with@.len() ==> arg@.conflicts_with[i] == (
            #[trigger] arg.conflicts_with@[i])@,
        arg@.names().len() == 1 + arg.aliases@.len(),
        arg@.names()[0] == arg.name@,
{
}

} // verus!
