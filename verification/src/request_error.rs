//! What to tell the user when a request to a server failed.
//!
//! A failed request comes as a chain of errors, each the cause of the one before. Most of them say
//! little; the message that is shown comes from the link of the chain that tells most.

use vstd::prelude::*;
use vstd::string::*;

use crate::text::{new_string, same_text, set_string};

verus! {

/// Shown when no link of the chain is known.
pub const UNMAPPED: &'static str = "An error occurred that wasn't mapped into something better by map_request_error.";

/// The connection was closed, and the client had no certificate to show.
pub const CLOSED_WITHOUT_IDENTITY: &'static str = "Server closed the connection likely because you did NOT provide the args --client-cert and --client-key for mutual TLS (mTLS) and server requires it, also you need the hyper-util patch which affects hyper/reqwest and makes them not hide connection errors behind ChannelClosed from here: https://github.com/hyperium/hyper-util/pull/184 which means that's why you're seeing this generic error.";

/// The connection was closed, although the client had a certificate.
pub const CLOSED_WITH_IDENTITY: &'static str = "Connection channel closed unexpectedly (server may be down or misconfigured), you should have this PR https://github.com/hyperium/hyper-util/pull/184 applied to avoid hiding the real reason behind ChannelClosed error(s).";

/// The alert by which a server asks for a certificate that the client did not send.
pub const ALERT_CERTIFICATE_REQUIRED: &'static str = "tlsv13 alert certificate required";

/// The alert by which a server refuses the authority that signed the client's certificate.
pub const ALERT_UNKNOWN_CA: &'static str = "tlsv1 alert unknown ca";

pub const CERTIFICATE_NOT_PASSED: &'static str = "You didn't pass the required client certificate(yours) for mTLS, use --client-cert and --client-key 🔒";

pub const CERTIFICATE_NOT_VALID: &'static str = "TLS handshake failed: server requires a valid client certificate(yours) for mTLS 🔒";

pub const AUTHORITY_NOT_TRUSTED: &'static str = "TLS handshake failed: the server does not trust the CA that signed your client certificate. Ensure the server is configured with the correct CA certificate via --client-trust-cert (the CA that signed your client1.crt, e.g., ca4clients.crt).";

pub const CONNECT_FAILED: &'static str = "Failed to connect to the server (connection refused or network unreachable)";

pub const TIMED_OUT: &'static str = "Request timed out while trying to reach the server";

pub const REQUEST_FAILED: &'static str = "Failed to construct or send the HTTP request";

pub const BODY_FAILED: &'static str = "Error in the request body";

pub const DECODE_FAILED: &'static str = "Failed to decode the response";

/// How much a message tells, from nothing known (0) over the HTTP client (1), a closed connection
/// (2) and a TLS alert (3) to a file that could not be used (4).
pub type Specificity = u8;

/// One link of the chain, with what is read of it.
#[derive(Clone, PartialEq, Eq, Debug)]
pub enum ErrorLink {
    /// An error of the HTTP connection: whether it reports a closed channel, and the reasons that
    /// the TLS library gives, if that was the cause.
    Hyper { closed: bool, tls_reasons: Vec<Option<String>> },
    /// An error of the HTTP client, by what it says of itself.
    Reqwest { connect: bool, timeout: bool, request: bool, body: bool, decode: bool },
    /// The file of trusted certificates at this path could not be used.
    TrustCert { path: String },
    /// The file of the client's certificate at this path could not be used.
    ClientCert { path: String },
    /// The file of the client's private key at this path could not be used.
    ClientKey { path: String },
    /// Any other error.
    Other,
}

/// The reasons as texts.
pub open spec fn reason_texts(reasons: Seq<Option<String>>) -> Seq<Option<Seq<char>>> {
    Seq::new(
        reasons.len(),
        |i: int|
            match reasons[i] {
                Some(reason) => Some(reason@),
                None => None,
            },
    )
}

/// What one reason of the TLS library suggests to say.
pub open spec fn reason_messages(reason: Option<Seq<char>>, identity_given: bool) -> Seq<
    (Seq<char>, Specificity),
> {
    if reason == Some(ALERT_CERTIFICATE_REQUIRED@) {
        seq![
            (
                if identity_given {
                    CERTIFICATE_NOT_VALID@
                } else {
                    CERTIFICATE_NOT_PASSED@
                },
                3,
            ),
        ]
    } else if reason == Some(ALERT_UNKNOWN_CA@) {
        seq![(AUTHORITY_NOT_TRUSTED@, 3)]
    } else {
        seq![]
    }
}

/// What the reasons of the TLS library suggest to say, in order.
pub open spec fn reasons_messages(
    reasons: Seq<Option<Seq<char>>>,
    identity_given: bool,
) -> Seq<(Seq<char>, Specificity)>
    decreases reasons.len(),
{
    if reasons.len() == 0 {
        seq![]
    } else {
        reasons_messages(reasons.drop_last(), identity_given) + reason_messages(
            reasons.last(),
            identity_given,
        )
    }
}

impl ErrorLink {
    /// What this link suggests to say, each message with how much it tells, in order.
    pub open spec fn messages(self, identity_given: bool) -> Seq<(Seq<char>, Specificity)> {
        match self {
            ErrorLink::Hyper { closed, tls_reasons } => {
                let of_closing: Seq<(Seq<char>, Specificity)> = if !closed {
                    seq![]
                } else if identity_given {
                    seq![(CLOSED_WITH_IDENTITY@, 2)]
                } else {
                    seq![(CLOSED_WITHOUT_IDENTITY@, 2)]
                };
                of_closing + reasons_messages(reason_texts(tls_reasons@), identity_given)
            },
            ErrorLink::Reqwest { connect, timeout, request, body, decode } => {
                if connect {
                    seq![(CONNECT_FAILED@, 1)]
                } else if timeout {
                    seq![(TIMED_OUT@, 1)]
                } else if request {
                    seq![(REQUEST_FAILED@, 1)]
                } else if body {
                    seq![(BODY_FAILED@, 1)]
                } else if decode {
                    seq![(DECODE_FAILED@, 1)]
                } else {
                    seq![]
                }
            },
            ErrorLink::TrustCert { path } => seq![
                ("problem with trust certificate file "@ + path@, 4),
            ],
            ErrorLink::ClientCert { path } => seq![
                ("problem with client certificate file "@ + path@, 4),
            ],
            ErrorLink::ClientKey { path } => seq![
                ("problem with client private key file "@ + path@, 4),
            ],
            ErrorLink::Other => seq![],
        }
    }

    /// Whether this link holds the alert of an unknown authority.
    pub open spec fn alerts_unknown_ca(self) -> bool {
        self matches ErrorLink::Hyper { tls_reasons, .. } && reason_texts(
            tls_reasons@,
        ).contains(Some(ALERT_UNKNOWN_CA@))
    }
}

/// What the links of a chain suggest to say, from the first link on.
pub open spec fn chain_messages(chain: Seq<ErrorLink>, identity_given: bool) -> Seq<
    (Seq<char>, Specificity),
>
    decreases chain.len(),
{
    if chain.len() == 0 {
        seq![]
    } else {
        chain_messages(chain.drop_last(), identity_given) + chain.last().messages(identity_given)
    }
}

/// The better of two messages: the one at hand, unless the other one tells more.
pub open spec fn better(best: (Seq<char>, Specificity), other: (Seq<char>, Specificity)) -> (
    Seq<char>,
    Specificity,
) {
    if other.1 > best.1 {
        other
    } else {
        best
    }
}

/// The best message, after a sequence of messages was weighed against the one at hand.
pub open spec fn improved(
    best: (Seq<char>, Specificity),
    messages: Seq<(Seq<char>, Specificity)>,
) -> (Seq<char>, Specificity)
    decreases messages.len(),
{
    if messages.len() == 0 {
        best
    } else {
        better(improved(best, messages.drop_last()), messages.last())
    }
}

/// The message that a chain of errors comes to.
pub open spec fn chain_message(chain: Seq<ErrorLink>, identity_given: bool) -> Seq<char> {
    improved((UNMAPPED@, 0), chain_messages(chain, identity_given)).0
}

/// Whether some link of a chain holds the alert of an unknown authority.
pub open spec fn chain_alerts_unknown_ca(chain: Seq<ErrorLink>) -> bool {
    exists|i: int| 0 <= i < chain.len() && #[trigger] chain[i].alerts_unknown_ca()
}

/// What stands in the report for the error's cause.
pub open spec fn source_text(source: Option<&str>) -> Seq<char> {
    match source {
        Some(text) => text@,
        None => "<no error cause/source>"@,
    }
}

/// The report of a failed request.
pub open spec fn report(url: Seq<char>, message: Seq<char>, source: Seq<char>) -> Seq<char> {
    "(as follows on next lines)\n------- map_request_error ------\nFailed sending request to "@ + url
        + "\nerr   : "@ + message + "\nsource: "@ + source + "\n----- end -----"@
}

proof fn lemma_improved_by_concatenation(
    best: (Seq<char>, Specificity),
    first: Seq<(Seq<char>, Specificity)>,
    second: Seq<(Seq<char>, Specificity)>,
)
    ensures
        improved(best, first + second) == improved(improved(best, first), second),
    decreases second.len(),
{
    if second.len() == 0 {
        assert(first + second =~= first);
    } else {
        lemma_improved_by_concatenation(best, first, second.drop_last());
        assert((first + second).drop_last() =~= first + second.drop_last());
    }
}

proof fn lemma_improved_by_one(
    best: (Seq<char>, Specificity),
    message: (Seq<char>, Specificity),
)
    ensures
        improved(best, seq![message]) == better(best, message),
{
    assert(seq![message].drop_last() =~= seq![]);
    assert(improved(best, seq![message].drop_last()) == best);
}

/// The best message so far.
struct Best {
    message: String,
    specificity: Specificity,
}

impl Best {
    spec fn view(&self) -> (Seq<char>, Specificity) {
        (self.message@, self.specificity)
    }

    /// Weighs one message.
    fn offer(&mut self, message: &str, specificity: Specificity)
        ensures
            final(self)@ == better(old(self)@, (message@, specificity)),
            final(self)@ == improved(old(self)@, seq![(message@, specificity)]),
    {
        proof {
            lemma_improved_by_one(self@, (message@, specificity));
        }
        if specificity > self.specificity {
            set_string(&mut self.message, message);
            self.specificity = specificity;
        }
    }

    /// Weighs what one reason of the TLS library suggests.
    fn offer_reason(&mut self, reason: &Option<String>, identity_given: bool)
        ensures
            final(self)@ == improved(
                old(self)@,
                reason_messages(
                    match *reason {
                        Some(text) => Some(text@),
                        None => None,
                    },
                    identity_given,
                ),
            ),
    {
        if let Some(text) = reason {
            if same_text(text.as_str(), ALERT_CERTIFICATE_REQUIRED) {
                if identity_given {
                    self.offer(CERTIFICATE_NOT_VALID, 3);
                } else {
                    self.offer(CERTIFICATE_NOT_PASSED, 3);
                }
            } else if same_text(text.as_str(), ALERT_UNKNOWN_CA) {
                self.offer(AUTHORITY_NOT_TRUSTED, 3);
            }
        }
    }

    /// Weighs what all reasons of the TLS library suggest.
    fn offer_reasons(&mut self, reasons: &Vec<Option<String>>, identity_given: bool)
        ensures
            final(self)@ == improved(
                old(self)@,
                reasons_messages(reason_texts(reasons@), identity_given),
            ),
    {
        let ghost texts = reason_texts(reasons@);
        let ghost start = self@;
        let mut i: usize = 0;
        assert(texts.take(0) =~= seq![]);
        while i < reasons.len()
            invariant
                i <= reasons.len(),
                texts == reason_texts(reasons@),
                self@ == improved(start, reasons_messages(texts.take(i as int), identity_given)),
            decreases reasons.len() - i,
        {
            proof {
                assert(texts.take(i + 1).drop_last() =~= texts.take(i as int));
                lemma_improved_by_concatenation(
                    start,
                    reasons_messages(texts.take(i as int), identity_given),
                    reason_messages(texts[i as int], identity_given),
                );
            }
            self.offer_reason(&reasons[i], identity_given);
            i += 1;
        }
        assert(texts.take(texts.len() as int) =~= texts);
    }

    /// Weighs the message that a file at `path` could not be used.
    fn offer_file(&mut self, what: &str, path: &String)
        ensures
            final(self)@ == improved(old(self)@, seq![(what@ + path@, 4u8)]),
    {
        let mut message = what.to_owned();
        message.append(path.as_str());
        self.offer(message.as_str(), 4);
    }

    /// Weighs what one link of the chain suggests.
    fn offer_link(&mut self, link: &ErrorLink, identity_given: bool)
        ensures
            final(self)@ == improved(old(self)@, link.messages(identity_given)),
    {
        let ghost start = self@;
        match link {
            ErrorLink::Hyper { closed, tls_reasons } => {
                let ghost of_reasons = reasons_messages(reason_texts(tls_reasons@), identity_given);
                if *closed {
                    let message: &'static str = if identity_given {
                        CLOSED_WITH_IDENTITY
                    } else {
                        CLOSED_WITHOUT_IDENTITY
                    };
                    proof {
                        lemma_improved_by_concatenation(start, seq![(message@, 2u8)], of_reasons);
                    }
                    self.offer(message, 2);
                } else {
                    proof {
                        lemma_improved_by_concatenation(start, seq![], of_reasons);
                    }
                }
                self.offer_reasons(tls_reasons, identity_given);
            },
            ErrorLink::Reqwest { connect, timeout, request, body, decode } => {
                if *connect {
                    self.offer(CONNECT_FAILED, 1);
                } else if *timeout {
                    self.offer(TIMED_OUT, 1);
                } else if *request {
                    self.offer(REQUEST_FAILED, 1);
                } else if *body {
                    self.offer(BODY_FAILED, 1);
                } else if *decode {
                    self.offer(DECODE_FAILED, 1);
                }
            },
            ErrorLink::TrustCert { path } => {
                self.offer_file("problem with trust certificate file ", path);
            },
            ErrorLink::ClientCert { path } => {
                self.offer_file("problem with client certificate file ", path);
            },
            ErrorLink::ClientKey { path } => {
                self.offer_file("problem with client private key file ", path);
            },
            ErrorLink::Other => {},
        }
    }
}

/// Whether some link of a chain holds the alert of an unknown authority.
pub fn has_unknown_ca_alert(chain: &Vec<ErrorLink>) -> (r: bool)
    ensures
        r == chain_alerts_unknown_ca(chain@),
{
    let mut i: usize = 0;
    while i < chain.len()
        invariant
            i <= chain.len(),
            forall|k: int| 0 <= k < i ==> !#[trigger] chain@[k].alerts_unknown_ca(),
        decreases chain.len() - i,
    {
        if let ErrorLink::Hyper { closed: _, tls_reasons } = &chain[i] {
            let ghost texts = reason_texts(tls_reasons@);
            let mut j: usize = 0;
            while j < tls_reasons.len()
                invariant
                    i < chain.len(),
                    j <= tls_reasons.len(),
                    chain@[i as int] matches ErrorLink::Hyper { tls_reasons: all, .. } && all
                        == *tls_reasons,
                    texts == reason_texts(tls_reasons@),
                    forall|k: int| 0 <= k < j ==> texts[k] != Some(ALERT_UNKNOWN_CA@),
                decreases tls_reasons.len() - j,
            {
                if let Some(text) = &tls_reasons[j] {
                    if same_text(text.as_str(), ALERT_UNKNOWN_CA) {
                        assert(texts[j as int] == Some(ALERT_UNKNOWN_CA@));
                        assert(chain@[i as int].alerts_unknown_ca());
                        return true;
                    }
                }
                j += 1;
            }
        }
        i += 1;
    }
    false
}

/// The message that a chain of errors comes to, for a client that showed a certificate of its own
/// (and has its key), or did not.
pub fn most_specific_message(chain: &Vec<ErrorLink>, identity_given: bool) -> (r: String)
    requires
        chain_alerts_unknown_ca(chain@) ==> identity_given,
    ensures
        r@ == chain_message(chain@, identity_given),
{
    let mut best = Best { message: new_string(UNMAPPED, 512), specificity: 0 };
    let ghost start = best@;
    let mut i: usize = 0;
    assert(chain@.take(0) =~= seq![]);
    while i < chain.len()
        invariant
            i <= chain.len(),
            best@ == improved(start, chain_messages(chain@.take(i as int), identity_given)),
        decreases chain.len() - i,
    {
        proof {
            assert(chain@.take(i + 1).drop_last() =~= chain@.take(i as int));
            lemma_improved_by_concatenation(
                start,
                chain_messages(chain@.take(i as int), identity_given),
                chain@[i as int].messages(identity_given),
            );
        }
        best.offer_link(&chain[i], identity_given);
        i += 1;
    }
    assert(chain@.take(chain@.len() as int) =~= chain@);
    best.message
}

/// The report of a failed request to `url`, from the chain of its errors. The paths are those of
/// the client's certificate and key, if it was given them; `source` is the description of the
/// first error's cause, if it has one.
///
/// A server cannot refuse the authority of a certificate that it was not shown, so a chain with
/// that alert comes only to a client that has both files.
pub fn map_request_error(
    chain: &Vec<ErrorLink>,
    url: &str,
    client_cert_path: Option<&str>,
    client_key_path: Option<&str>,
    source: Option<&str>,
) -> (r: String)
    requires
        chain_alerts_unknown_ca(chain@) ==> client_cert_path is Some && client_key_path is Some,
    ensures
        r@ == report(
            url@,
            chain_message(chain@, client_cert_path is Some && client_key_path is Some),
            source_text(source),
        ),
        r@
            == "(as follows on next lines)\n------- map_request_error ------\nFailed sending request to "@
            + url@ + "\nerr   : "@ + chain_message(
            chain@,
            client_cert_path is Some && client_key_path is Some,
        ) + "\nsource: "@ + (match source {
            Some(text) => text@,
            None => "<no error cause/source>"@,
        }) + "\n----- end -----"@,
{
    let identity_given: bool = client_cert_path.is_some() && client_key_path.is_some();
    let message = most_specific_message(chain, identity_given);
    let mut out = "(as follows on next lines)\n------- map_request_error ------\nFailed sending request to ".to_owned();
    out.append(url);
    out.append("\nerr   : ");
    out.append(message.as_str());
    out.append("\nsource: ");
    match source {
        Some(text) => out.append(text),
        None => out.append("<no error cause/source>"),
    }
    out.append("\n----- end -----");
    out
}

proof fn lemma_first_most_specific(messages: Seq<(Seq<char>, Specificity)>)
    requires
        forall|i: int| 0 <= i < messages.len() ==> (#[trigger] messages[i]).1 > 0,
    ensures
        messages.len() == 0 ==> improved((UNMAPPED@, 0), messages) == (UNMAPPED@, 0u8),
        messages.len() > 0 ==> exists|i: int|
            {
                &&& 0 <= i < messages.len()
                &&& improved((UNMAPPED@, 0), messages) == #[trigger] messages[i]
                &&& forall|j: int|
                    0 <= j < messages.len() ==> (#[trigger] messages[j]).1 <= messages[i].1
                &&& forall|j: int| 0 <= j < i ==> (#[trigger] messages[j]).1 < messages[i].1
            },
    decreases messages.len(),
{
    if messages.len() > 0 {
        let rest = messages.drop_last();
        let n = messages.len() - 1;
        assert forall|i: int| 0 <= i < rest.len() implies (#[trigger] rest[i]).1 > 0 by {
            assert(rest[i] == messages[i]);
        }
        lemma_first_most_specific(rest);
        if rest.len() == 0 {
            assert(improved((UNMAPPED@, 0), messages) == messages[n]);
        } else {
            let k = choose|i: int|
                {
                    &&& 0 <= i < rest.len()
                    &&& improved((UNMAPPED@, 0), rest) == #[trigger] rest[i]
                    &&& forall|j: int| 0 <= j < rest.len() ==> (#[trigger] rest[j]).1 <= rest[i].1
                    &&& forall|j: int| 0 <= j < i ==> (#[trigger] rest[j]).1 < rest[i].1
                };
            assert(rest[k] == messages[k]);
            assert forall|j: int| 0 <= j < rest.len() implies (#[trigger] messages[j]).1
                <= messages[k].1 by {
                assert(rest[j] == messages[j]);
            }
            assert forall|j: int| 0 <= j < k implies (#[trigger] messages[j]).1 < messages[k].1 by {
                assert(rest[j] == messages[j]);
            }
            if messages[n].1 > messages[k].1 {
                assert(improved((UNMAPPED@, 0), messages) == messages[n]);
            } else {
                assert(improved((UNMAPPED@, 0), messages) == messages[k]);
            }
        }
    }
}

proof fn lemma_reasons_messages_are_specific(
    reasons: Seq<Option<Seq<char>>>,
    identity_given: bool,
)
    ensures
        forall|i: int|
            0 <= i < reasons_messages(reasons, identity_given).len() ==> (
            #[trigger] reasons_messages(reasons, identity_given)[i]).1 == 3,
    decreases reasons.len(),
{
    if reasons.len() > 0 {
        lemma_reasons_messages_are_specific(reasons.drop_last(), identity_given);
        let before = reasons_messages(reasons.drop_last(), identity_given);
        let here = reason_messages(reasons.last(), identity_given);
        assert forall|i: int| 0 <= i < (before + here).len() implies (#[trigger] (before
            + here)[i]).1 == 3 by {
            if i < before.len() {
                assert((before + here)[i] == before[i]);
            } else {
                assert((before + here)[i] == here[i - before.len()]);
            }
        }
        assert(reasons_messages(reasons, identity_given) == before + here);
    }
}

/// Whether a link tells that a file could not be used.
pub open spec fn is_file_problem(link: ErrorLink) -> bool {
    link is TrustCert || link is ClientCert || link is ClientKey
}

/// Every message that a link suggests tells something, and only problems with files tell most.
pub proof fn law_specificity_of_links(link: ErrorLink, identity_given: bool)
    ensures
        forall|i: int|
            0 <= i < link.messages(identity_given).len() ==> 0 < (#[trigger] link.messages(
                identity_given,
            )[i]).1 <= 4,
        is_file_problem(link) ==> link.messages(identity_given).len() == 1 && link.messages(
            identity_given,
        )[0].1 == 4,
        !is_file_problem(link) ==> forall|i: int|
            0 <= i < link.messages(identity_given).len() ==> (#[trigger] link.messages(
                identity_given,
            )[i]).1 < 4,
{
    if let ErrorLink::Hyper { closed, tls_reasons } = link {
        lemma_reasons_messages_are_specific(reason_texts(tls_reasons@), identity_given);
    }
}

proof fn lemma_chain_messages_are_specific(chain: Seq<ErrorLink>, identity_given: bool)
    ensures
        forall|i: int|
            0 <= i < chain_messages(chain, identity_given).len() ==> 0 < (
            #[trigger] chain_messages(chain, identity_given)[i]).1 <= 4,
        (forall|i: int| 0 <= i < chain.len() ==> !is_file_problem(#[trigger] chain[i])) ==> forall|
            i: int,
        |
            0 <= i < chain_messages(chain, identity_given).len() ==> (#[trigger] chain_messages(
                chain,
                identity_given,
            )[i]).1 < 4,
    decreases chain.len(),
{
    if chain.len() > 0 {
        lemma_chain_messages_are_specific(chain.drop_last(), identity_given);
        law_specificity_of_links(chain.last(), identity_given);
        let before = chain_messages(chain.drop_last(), identity_given);
        let here = chain.last().messages(identity_given);
        assert(chain_messages(chain, identity_given) == before + here);
        assert forall|i: int| 0 <= i < (before + here).len() implies (#[trigger] (before
            + here)[i]) == if i < before.len() {
            before[i]
        } else {
            here[i - before.len()]
        } by {}
        if forall|i: int| 0 <= i < chain.len() ==> !is_file_problem(#[trigger] chain[i]) {
            assert forall|i: int| 0 <= i < chain.drop_last().len() implies !is_file_problem(
                #[trigger] chain.drop_last()[i],
            ) by {
                assert(chain.drop_last()[i] == chain[i]);
            }
        }
    }
}

/// Of what a chain suggests to say, the message that is shown is one that tells most, and the
/// first of these; where nothing is suggested, it is the general one.
pub proof fn law_first_most_specific_message_wins(chain: Seq<ErrorLink>, identity_given: bool)
    ensures
        ({
            let messages = chain_messages(chain, identity_given);
            let shown = chain_message(chain, identity_given);
            &&& messages.len() == 0 ==> shown == UNMAPPED@
            &&& messages.len() > 0 ==> exists|i: int|
                {
                    &&& 0 <= i < messages.len()
                    &&& shown == (#[trigger] messages[i]).0
                    &&& forall|j: int|
                        0 <= j < messages.len() ==> (#[trigger] messages[j]).1 <= messages[i].1
                    &&& forall|j: int| 0 <= j < i ==> (#[trigger] messages[j]).1 < messages[i].1
                }
        }),
{
    let messages = chain_messages(chain, identity_given);
    lemma_chain_messages_are_specific(chain, identity_given);
    lemma_first_most_specific(messages);
    if messages.len() > 0 {
        let i = choose|i: int|
            {
                &&& 0 <= i < messages.len()
                &&& improved((UNMAPPED@, 0), messages) == #[trigger] messages[i]
                &&& forall|j: int|
                    0 <= j < messages.len() ==> (#[trigger] messages[j]).1 <= messages[i].1
                &&& forall|j: int| 0 <= j < i ==> (#[trigger] messages[j]).1 < messages[i].1
            };
        assert(chain_message(chain, identity_given) == messages[i].0);
    }
}

proof fn lemma_chain_messages_split(
    first: Seq<ErrorLink>,
    second: Seq<ErrorLink>,
    identity_given: bool,
)
    ensures
        chain_messages(first + second, identity_given) == chain_messages(first, identity_given)
            + chain_messages(second, identity_given),
    decreases second.len(),
{
    if second.len() == 0 {
        assert(first + second =~= first);
        assert(chain_messages(first, identity_given) + seq![] =~= chain_messages(
            first,
            identity_given,
        ));
    } else {
        lemma_chain_messages_split(first, second.drop_last(), identity_given);
        assert((first + second).drop_last() =~= first + second.drop_last());
        assert(chain_messages(first + second, identity_given) =~= chain_messages(
            first,
            identity_given,
        ) + chain_messages(second, identity_given));
    }
}

proof fn lemma_nothing_beats_the_best(
    best: (Seq<char>, Specificity),
    messages: Seq<(Seq<char>, Specificity)>,
)
    requires
        forall|i: int| 0 <= i < messages.len() ==> (#[trigger] messages[i]).1 <= best.1,
    ensures
        improved(best, messages) == best,
    decreases messages.len(),
{
    if messages.len() > 0 {
        assert forall|i: int| 0 <= i < messages.drop_last().len() implies (
        #[trigger] messages.drop_last()[i]).1 <= best.1 by {
            assert(messages.drop_last()[i] == messages[i]);
        }
        lemma_nothing_beats_the_best(best, messages.drop_last());
    }
}

/// If a file could not be used, the user is told of that, whatever else the chain holds: of the
/// first such file in the chain.
pub proof fn law_first_file_problem_is_shown(
    chain: Seq<ErrorLink>,
    at: int,
    identity_given: bool,
)
    requires
        0 <= at < chain.len(),
        is_file_problem(chain[at]),
        forall|i: int| 0 <= i < at ==> !is_file_problem(#[trigger] chain[i]),
    ensures
        chain_message(chain, identity_given) == chain[at].messages(identity_given)[0].0,
{
    let before = chain.take(at);
    let after = chain.skip(at + 1);
    let link = chain[at];
    let start = (UNMAPPED@, 0u8);
    assert(chain =~= before + (seq![link] + after));
    lemma_chain_messages_split(before, seq![link] + after, identity_given);
    lemma_chain_messages_split(seq![link], after, identity_given);
    assert(seq![link].drop_last() =~= seq![]);
    assert(chain_messages(seq![link].drop_last(), identity_given) =~= seq![]);
    assert(chain_messages(seq![link], identity_given) =~= link.messages(identity_given));
    lemma_improved_by_concatenation(
        start,
        chain_messages(before, identity_given),
        link.messages(identity_given) + chain_messages(after, identity_given),
    );
    let reached = improved(start, chain_messages(before, identity_given));
    lemma_improved_by_concatenation(
        reached,
        link.messages(identity_given),
        chain_messages(after, identity_given),
    );
    law_specificity_of_links(link, identity_given);
    lemma_chain_messages_are_specific(before, identity_given);
    assert(forall|i: int| 0 <= i < before.len() ==> !is_file_problem(#[trigger] before[i]));
    lemma_first_most_specific(chain_messages(before, identity_given));
    assert(reached.1 < 4);
    let message = link.messages(identity_given)[0];
    assert(link.messages(identity_given) =~= seq![message]);
    lemma_improved_by_one(reached, message);
    lemma_chain_messages_are_specific(after, identity_given);
    lemma_nothing_beats_the_best(message, chain_messages(after, identity_given));
}

/// Links that tell nothing make no difference, wherever they stand in the chain.
pub proof fn law_unknown_links_do_not_matter(
    before: Seq<ErrorLink>,
    after: Seq<ErrorLink>,
    identity_given: bool,
)
    ensures
        chain_message(before + seq![ErrorLink::Other] + after, identity_given) == chain_message(
            before + after,
            identity_given,
        ),
{
    let unknown = seq![ErrorLink::Other];
    lemma_chain_messages_split(before + unknown, after, identity_given);
    lemma_chain_messages_split(before, unknown, identity_given);
    lemma_chain_messages_split(before, after, identity_given);
    assert(unknown.drop_last() =~= seq![]);
    assert(chain_messages(unknown.drop_last(), identity_given) =~= seq![]);
    assert(chain_messages(unknown, identity_given) =~= seq![]);
    assert(chain_messages(before, identity_given) + chain_messages(unknown, identity_given)
        =~= chain_messages(before, identity_given));
}

/// An error of the HTTP client is told by the first thing that it says of itself, in this order:
/// that it could not connect, took too long, could not send the request, failed in the body, or
/// could not decode the answer. If it says none of these, nothing is told.
pub proof fn law_http_client_is_told_by_its_first_flag(
    connect: bool,
    timeout: bool,
    request: bool,
    body: bool,
    decode: bool,
    identity_given: bool,
)
    ensures
        ({
            let messages = (ErrorLink::Reqwest { connect, timeout, request, body, decode }).messages(
                identity_given,
            );
            &&& messages.len() <= 1
            &&& messages.len() == 1 <==> connect || timeout || request || body || decode
            &&& messages.len() == 1 ==> messages[0].1 == 1
            &&& connect ==> messages[0].0
                == "Failed to connect to the server (connection refused or network unreachable)"@
            &&& timeout && !connect ==> messages[0].0
                == "Request timed out while trying to reach the server"@
            &&& request && !connect && !timeout ==> messages[0].0
                == "Failed to construct or send the HTTP request"@
            &&& body && !connect && !timeout && !request ==> messages[0].0
                == "Error in the request body"@
            &&& decode && !connect && !timeout && !request && !body ==> messages[0].0
                == "Failed to decode the response"@
        }),
{
}

/// A file that could not be used is told by what it is for, and by its path.
pub proof fn law_file_problem_names_the_file(path: String, identity_given: bool)
    ensures
        (ErrorLink::TrustCert { path }).messages(identity_given) == seq![
            ("problem with trust certificate file "@ + path@, 4u8),
        ],
        (ErrorLink::ClientCert { path }).messages(identity_given) == seq![
            ("problem with client certificate file "@ + path@, 4u8),
        ],
        (ErrorLink::ClientKey { path }).messages(identity_given) == seq![
            ("problem with client private key file "@ + path@, 4u8),
        ],
        ErrorLink::Other.messages(identity_given).len() == 0,
{
}

/// An alert is told only if it is one of the two that are known, and the one for a missing
/// certificate by whether the client had one to show.
pub proof fn law_alerts_are_told_by_their_reason(reason: Option<Seq<char>>, identity_given: bool)
    ensures
        ({
            let messages = reason_messages(reason, identity_given);
            &&& reason == Some("tlsv13 alert certificate required"@) && identity_given ==> messages
                == seq![
                (
                    "TLS handshake failed: server requires a valid client certificate(yours) for mTLS 🔒"@,
                    3u8,
                ),
            ]
            &&& reason == Some("tlsv13 alert certificate required"@) && !identity_given ==> messages
                == seq![
                (
                    "You didn't pass the required client certificate(yours) for mTLS, use --client-cert and --client-key 🔒"@,
                    3u8,
                ),
            ]
            &&& reason == Some("tlsv1 alert unknown ca"@) ==> messages == seq![
                (
                    "TLS handshake failed: the server does not trust the CA that signed your client certificate. Ensure the server is configured with the correct CA certificate via --client-trust-cert (the CA that signed your client1.crt, e.g., ca4clients.crt)."@,
                    3u8,
                ),
            ]
            &&& reason != Some("tlsv13 alert certificate required"@) && reason != Some(
                "tlsv1 alert unknown ca"@,
            ) ==> messages.len() == 0
        }),
{
    reveal_strlit("tlsv13 alert certificate required");
    reveal_strlit("tlsv1 alert unknown ca");
    assert("tlsv13 alert certificate required"@.len() != "tlsv1 alert unknown ca"@.len());
}

/// An error of the connection is told first by its being closed, if it is, in words that depend on
/// whether the client had a certificate to show, and then by the reasons of the TLS library, one
/// after the other.
pub proof fn law_connection_is_told_by_closing_and_reasons(
    closed: bool,
    tls_reasons: Vec<Option<String>>,
    identity_given: bool,
)
    ensures
        ({
            let messages = (ErrorLink::Hyper { closed, tls_reasons }).messages(identity_given);
            let reasons = reasons_messages(reason_texts(tls_reasons@), identity_given);
            &&& !closed ==> messages == reasons
            &&& closed && identity_given ==> messages == seq![
                (
                    "Connection channel closed unexpectedly (server may be down or misconfigured), you should have this PR https://github.com/hyperium/hyper-util/pull/184 applied to avoid hiding the real reason behind ChannelClosed error(s)."@,
                    2u8,
                ),
            ] + reasons
            &&& closed && !identity_given ==> messages == seq![
                (
                    "Server closed the connection likely because you did NOT provide the args --client-cert and --client-key for mutual TLS (mTLS) and server requires it, also you need the hyper-util patch which affects hyper/reqwest and makes them not hide connection errors behind ChannelClosed from here: https://github.com/hyperium/hyper-util/pull/184 which means that's why you're seeing this generic error."@,
                    2u8,
                ),
            ] + reasons
        }),
        reason_texts(tls_reasons@).len() == tls_reasons@.len(),
        forall|i: int|
            0 <= i < tls_reasons@.len() ==> match #[trigger] tls_reasons@[i] {
                Some(text) => reason_texts(tls_reasons@)[i] == Some(text@),
                None => reason_texts(tls_reasons@)[i] is None,
            },
{
    let reasons = reasons_messages(reason_texts(tls_reasons@), identity_given);
    if !closed {
        assert((ErrorLink::Hyper { closed, tls_reasons }).messages(identity_given) =~= reasons);
    }
}

/// What two sequences of reasons suggest is what the first suggests and then what the second does;
/// a single reason suggests what it suggests by itself.
pub proof fn law_reasons_are_told_in_order(
    a: Seq<Option<Seq<char>>>,
    b: Seq<Option<Seq<char>>>,
    identity_given: bool,
)
    ensures
        reasons_messages(a + b, identity_given) == reasons_messages(a, identity_given)
            + reasons_messages(b, identity_given),
        a.len() == 0 ==> reasons_messages(a, identity_given).len() == 0,
        a.len() == 1 ==> reasons_messages(a, identity_given) == reason_messages(
            a[0],
            identity_given,
        ),
    decreases b.len(),
{
    if b.len() == 0 {
        assert(a + b =~= a);
        assert(reasons_messages(a, identity_given) + reasons_messages(b, identity_given)
            =~= reasons_messages(a, identity_given));
    } else {
        law_reasons_are_told_in_order(a, b.drop_last(), identity_given);
        assert((a + b).drop_last() =~= a + b.drop_last());
        assert((a + b).last() == b.last());
        assert(reasons_messages(a + b, identity_given) =~= reasons_messages(a, identity_given)
            + reasons_messages(b, identity_given));
    }
    if a.len() == 1 {
        assert(a.drop_last() =~= seq![]);
        assert(reasons_messages(a.drop_last(), identity_given) =~= seq![]);
        assert(reasons_messages(a, identity_given) =~= reason_messages(a[0], identity_given));
    }
}

/// What two chains suggest, one after the other, is what the first suggests and then what the
/// second does; a single link suggests what it suggests by itself.
pub proof fn law_links_are_told_in_order(
    a: Seq<ErrorLink>,
    b: Seq<ErrorLink>,
    identity_given: bool,
)
    ensures
        chain_messages(a + b, identity_given) == chain_messages(a, identity_given)
            + chain_messages(b, identity_given),
        a.len() == 0 ==> chain_messages(a, identity_given).len() == 0,
        a.len() == 1 ==> chain_messages(a, identity_given) == a[0].messages(identity_given),
{
    lemma_chain_messages_split(a, b, identity_given);
    if a.len() == 1 {
        assert(a.drop_last() =~= seq![]);
        assert(chain_messages(a.drop_last(), identity_given) =~= seq![]);
        assert(chain_messages(a, identity_given) =~= a[0].messages(identity_given));
    }
}

/// Where nothing is suggested, the general message is shown.
pub proof fn law_nothing_known_is_told_in_general(chain: Seq<ErrorLink>, identity_given: bool)
    requires
        chain_messages(chain, identity_given).len() == 0,
    ensures
        chain_message(chain, identity_given)
            == "An error occurred that wasn't mapped into something better by map_request_error."@,
{
}

/// A chain holds the alert of an unknown authority exactly when a reason of some link says so, word
/// for word.
pub proof fn law_unknown_authority_is_found_by_its_reason(chain: Seq<ErrorLink>)
    ensures
        chain_alerts_unknown_ca(chain) <==> exists|i: int, j: int|
            0 <= i < chain.len() && #[trigger] reason_says(
                chain[i],
                j,
                "tlsv1 alert unknown ca"@,
            ),
{
    if chain_alerts_unknown_ca(chain) {
        let i = choose|i: int| 0 <= i < chain.len() && #[trigger] chain[i].alerts_unknown_ca();
        if let ErrorLink::Hyper { closed, tls_reasons } = chain[i] {
            let texts = reason_texts(tls_reasons@);
            let j = choose|j: int| 0 <= j < texts.len() && texts[j] == Some(ALERT_UNKNOWN_CA@);
            assert(reason_says(chain[i], j, "tlsv1 alert unknown ca"@));
        }
    }
    if exists|i: int, j: int|
        0 <= i < chain.len() && #[trigger] reason_says(chain[i], j, "tlsv1 alert unknown ca"@) {
        let (i, j) = choose|i: int, j: int|
            0 <= i < chain.len() && #[trigger] reason_says(
                chain[i],
                j,
                "tlsv1 alert unknown ca"@,
            );
        if let ErrorLink::Hyper { closed, tls_reasons } = chain[i] {
            assert(reason_texts(tls_reasons@)[j] == Some(ALERT_UNKNOWN_CA@));
        }
        assert(chain[i].alerts_unknown_ca());
    }
}

/// Whether the reason at place `j` of a link is this text.
pub open spec fn reason_says(link: ErrorLink, j: int, text: Seq<char>) -> bool {
    match link {
        ErrorLink::Hyper { tls_reasons, .. } => {
            &&& 0 <= j < tls_reasons@.len()
            &&& tls_reasons@[j] is Some
            &&& tls_reasons@[j]->Some_0@ == text
        },
        _ => false,
    }
}

} // verus!
