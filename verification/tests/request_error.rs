use spacetimedb_lib::request_error::{
    has_unknown_ca_alert, most_specific_message, ErrorLink, ALERT_CERTIFICATE_REQUIRED,
    ALERT_UNKNOWN_CA, AUTHORITY_NOT_TRUSTED, BODY_FAILED, CERTIFICATE_NOT_PASSED,
    CERTIFICATE_NOT_VALID, CLOSED_WITHOUT_IDENTITY, CLOSED_WITH_IDENTITY, CONNECT_FAILED,
    DECODE_FAILED, REQUEST_FAILED, TIMED_OUT, UNMAPPED,
};
use spacetimedb_lib::{map_request_error, ClientCertError, ClientKeyError, TrustCertError};

fn hyper(closed: bool, reasons: &[Option<&str>]) -> ErrorLink {
    ErrorLink::Hyper {
        closed,
        tls_reasons: reasons.iter().map(|r| r.map(|text| text.to_string())).collect(),
    }
}

fn reqwest(flags: [bool; 5]) -> ErrorLink {
    let [connect, timeout, request, body, decode] = flags;
    ErrorLink::Reqwest { connect, timeout, request, body, decode }
}

#[test]
fn nothing_known_is_told_in_general() {
    assert_eq!(most_specific_message(&vec![], true), UNMAPPED);
    assert_eq!(most_specific_message(&vec![ErrorLink::Other, hyper(false, &[])], false), UNMAPPED);
    assert_eq!(most_specific_message(&vec![reqwest([false; 5])], false), UNMAPPED);
    assert_eq!(
        UNMAPPED,
        "An error occurred that wasn't mapped into something better by map_request_error."
    );
}

#[test]
fn the_http_client_tells_one_thing_at_a_time() {
    let expected = [CONNECT_FAILED, TIMED_OUT, REQUEST_FAILED, BODY_FAILED, DECODE_FAILED];
    for (i, message) in expected.iter().enumerate() {
        let mut flags = [true; 5];
        flags[..i].fill(false);
        assert_eq!(most_specific_message(&vec![reqwest(flags)], false), *message);
    }
}

#[test]
fn a_closed_connection_depends_on_the_identity() {
    let chain = vec![reqwest([true; 5]), hyper(true, &[])];
    assert_eq!(most_specific_message(&chain, true), CLOSED_WITH_IDENTITY);
    assert_eq!(most_specific_message(&chain, false), CLOSED_WITHOUT_IDENTITY);
}

#[test]
fn alerts_tell_more_than_a_closed_connection() {
    let chain = vec![hyper(true, &[None, Some("other"), Some(ALERT_CERTIFICATE_REQUIRED)])];
    assert_eq!(most_specific_message(&chain, true), CERTIFICATE_NOT_VALID);
    assert_eq!(most_specific_message(&chain, false), CERTIFICATE_NOT_PASSED);
    let chain = vec![hyper(true, &[Some(ALERT_UNKNOWN_CA), Some(ALERT_CERTIFICATE_REQUIRED)])];
    assert_eq!(most_specific_message(&chain, true), AUTHORITY_NOT_TRUSTED);
    assert_eq!(ALERT_CERTIFICATE_REQUIRED, "tlsv13 alert certificate required");
    assert_eq!(ALERT_UNKNOWN_CA, "tlsv1 alert unknown ca");
}

#[test]
fn the_first_file_problem_is_told_before_anything_else() {
    let chain = vec![
        hyper(true, &[Some(ALERT_CERTIFICATE_REQUIRED)]),
        ErrorLink::ClientKey { path: "b.key".to_string() },
        ErrorLink::TrustCert { path: "a.crt".to_string() },
        reqwest([true; 5]),
    ];
    assert_eq!(most_specific_message(&chain, true), "problem with client private key file b.key");
    assert_eq!(
        most_specific_message(&chain[2..].to_vec(), true),
        "problem with trust certificate file a.crt"
    );
}

#[test]
fn unknown_links_make_no_difference() {
    let with = vec![ErrorLink::Other, reqwest([true; 5]), ErrorLink::Other];
    assert_eq!(most_specific_message(&with, true), most_specific_message(&vec![reqwest([true; 5])], true));
}

#[test]
fn the_alert_of_an_unknown_authority_is_found() {
    assert!(!has_unknown_ca_alert(&vec![]));
    assert!(!has_unknown_ca_alert(&vec![hyper(true, &[None, Some(ALERT_CERTIFICATE_REQUIRED)])]));
    assert!(has_unknown_ca_alert(&vec![ErrorLink::Other, hyper(false, &[None, Some(ALERT_UNKNOWN_CA)])]));
}

#[test]
fn the_report_holds_url_message_and_cause() {
    let chain = vec![reqwest([true, false, false, false, false])];
    assert_eq!(
        map_request_error(&chain, "https://localhost:3000", None, None, Some("Refused")),
        "(as follows on next lines)\n------- map_request_error ------\nFailed sending request to https://localhost:3000\nerr   : Failed to connect to the server (connection refused or network unreachable)\nsource: Refused\n----- end -----"
    );
    assert_eq!(
        map_request_error(&vec![], "u", Some("c.crt"), Some("c.key"), None),
        "(as follows on next lines)\n------- map_request_error ------\nFailed sending request to u\nerr   : An error occurred that wasn't mapped into something better by map_request_error.\nsource: <no error cause/source>\n----- end -----"
    );
}

#[test]
fn an_identity_takes_both_files() {
    let chain = vec![hyper(true, &[])];
    assert!(map_request_error(&chain, "u", Some("c"), Some("k"), None).contains(CLOSED_WITH_IDENTITY));
    assert!(map_request_error(&chain, "u", Some("c"), None, None).contains(CLOSED_WITHOUT_IDENTITY));
    assert!(map_request_error(&chain, "u", None, Some("k"), None).contains(CLOSED_WITHOUT_IDENTITY));
}

#[test]
fn file_errors_tell_their_path_and_cause() {
    let error = ClientCertError::new("c.crt", "cause");
    assert_eq!(error.to_string(), "Something failed with client certificate c.crt");
    assert_eq!(*error.source(), "cause");
    assert_eq!(error.link(), ErrorLink::ClientCert { path: "c.crt".to_string() });
    let error = ClientKeyError::new("c.key", 7);
    assert_eq!(error.to_string(), "Something failed with client private key c.key");
    assert_eq!(*error.source(), 7);
    assert_eq!(error.link(), ErrorLink::ClientKey { path: "c.key".to_string() });
    let error = TrustCertError::new("ca.crt", ());
    assert_eq!(error.to_string(), "Something failed with trust certificate ca.crt");
    assert_eq!(*error.source(), ());
    assert_eq!(error.link(), ErrorLink::TrustCert { path: "ca.crt".to_string() });
}
