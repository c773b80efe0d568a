use star::filter_box::base::{Entry, FilterBox};
use star::filter_box::bloom_filter::BloomFilterBox;
use star::filter_box::dashmap_filter::DashMapFilterBox;
use star::serv::all_prefix;
use star::serv::filter::{duplication_verdict, StarFilter, StarFilterErrorStatus};
use star::serv::tls::{
    client_hello_decision, extension_precheck, extension_verdict, ExtensionStep, HelloRejection,
};
use star::serv::tls_utils::{alert_for_filter_error, alert_name, filter_error_name, TlsAlert};

#[test]
fn mod_insert_changes_test_result() {
    let mut filter = DashMapFilterBox::new();
    let token: Entry = [7u8; 32];
    assert!(filter.test(&token));
    filter.insert(&token).unwrap();
    assert!(!filter.test(&token));
}

#[test]
fn duplicate_insert_is_idempotent() {
    let mut filter = DashMapFilterBox::new();
    let token: Entry = [9u8; 32];
    filter.insert(&token).unwrap();
    filter.insert(&token).unwrap();
    assert!(!filter.test(&token));
}

#[test]
fn from_entries_populates_filter() {
    let token_a: Entry = [1u8; 32];
    let token_b: Entry = [2u8; 32];
    let token_c: Entry = [3u8; 32];

    let filter = DashMapFilterBox::from_entries(&[token_a, token_b]).unwrap();
    assert!(!filter.test(&token_a));
    assert!(!filter.test(&token_b));
    assert!(filter.test(&token_c));
}

#[test]
fn test_and_insert_reports_new_tokens_once() {
    let mut filter = DashMapFilterBox::with_capacity(4);
    let token: Entry = [4u8; 32];
    assert!(filter.test_and_insert(&token).unwrap());
    assert!(!filter.test_and_insert(&token).unwrap());
    assert!(!filter.test(&token));
    let other: Entry = [5u8; 32];
    assert!(DashMapFilterBox::default().test(&other));
}

fn token_record(first: u8) -> Vec<u8> {
    let mut t = vec![first; 32];
    t[0] = 0;
    t[1] = 0;
    t[2] = 0;
    t[3] = first;
    t
}

#[test]
fn star_filter_lets_a_token_through_once() {
    let mut filter = StarFilter::new(DashMapFilterBox::new(), all_prefix(4), 4, ());
    let record = token_record(6);
    assert_eq!(filter.filter_issued_token(&record), Ok(()));
    assert_eq!(
        filter.filter_issued_token(&record),
        Err(StarFilterErrorStatus::DuplicatedToken)
    );
    // the first 32 bytes are the token: what follows them does not matter
    let mut longer = record.clone();
    longer.extend_from_slice(&[1, 2, 3]);
    assert_eq!(
        filter.filter_issued_token(&longer),
        Err(StarFilterErrorStatus::DuplicatedToken)
    );
}

#[test]
fn star_filter_refuses_short_records_and_foreign_routes() {
    let mut filter = StarFilter::new(DashMapFilterBox::new(), vec![1, 3], 4, ());
    assert_eq!(
        filter.filter_issued_token(&[0u8; 31]),
        Err(StarFilterErrorStatus::InvalidToken)
    );
    // prefix 6 routes to 6 % 4 == 2, which this server does not serve
    assert_eq!(
        filter.filter_issued_token(&token_record(6)),
        Err(StarFilterErrorStatus::InvalidRoute)
    );
    // a refused token is not remembered
    assert!(filter.filter.test(&token_record(6).try_into().unwrap()));
    // prefix 7 routes to 3
    assert_eq!(filter.filter_issued_token(&token_record(7)), Ok(()));
    let (token, route) = filter.token_and_route(&token_record(5)).unwrap();
    assert_eq!(route, 1);
    assert_eq!(token.to_vec(), token_record(5));
}

#[test]
fn status_codes_alerts_and_names() {
    assert_eq!(StarFilterErrorStatus::InvalidToken.status_code(), 401);
    assert_eq!(StarFilterErrorStatus::InvalidRoute.status_code(), 421);
    assert_eq!(StarFilterErrorStatus::DuplicatedToken.status_code(), 429);
    assert_eq!(StarFilterErrorStatus::Internal.status_code(), 500);
    assert_eq!(
        alert_for_filter_error(&StarFilterErrorStatus::DuplicatedToken),
        TlsAlert::IllegalParameter
    );
    assert_eq!(
        alert_for_filter_error(&StarFilterErrorStatus::InvalidToken),
        TlsAlert::DecodeError
    );
    assert_eq!(filter_error_name(&StarFilterErrorStatus::InvalidRoute), "InvalidRoute");
    assert_eq!(alert_name(TlsAlert::DecodeError), "DECODE_ERROR");
    assert_eq!(alert_name(TlsAlert::IllegalParameter), "ILLEGAL_PARAMETER");
    assert_eq!(alert_name(TlsAlert::Other(40)), "OTHER");
}

#[test]
fn client_hello_needs_the_extension_with_data() {
    assert_eq!(
        client_hello_decision(None),
        Err((TlsAlert::DecodeError, HelloRejection::MissingCustomExtension))
    );
    assert_eq!(
        client_hello_decision(Some(&[])),
        Err((TlsAlert::DecodeError, HelloRejection::EmptyCustomExtension))
    );
    assert_eq!(client_hello_decision(Some(&[1u8, 2])), Ok(()));
}

#[test]
fn extension_data_is_checked_before_issuing() {
    assert_eq!(
        extension_precheck(None, &[]),
        ExtensionStep::Reject(TlsAlert::DecodeError)
    );
    assert_eq!(extension_precheck(None, &[1, 2]), ExtensionStep::IssueToken);
    assert_eq!(
        extension_precheck(Some(&[1, 2]), &[1, 2]),
        ExtensionStep::AcceptAgain
    );
    assert_eq!(
        extension_precheck(Some(&[1, 2]), &[1, 3]),
        ExtensionStep::Reject(TlsAlert::IllegalParameter)
    );
}

#[test]
fn extension_verdict_maps_refusals_to_alerts() {
    let mut filter = StarFilter::new(DashMapFilterBox::new(), all_prefix(2), 2, ());
    let none: Option<Result<Vec<u8>, ()>> = None;
    assert_eq!(extension_verdict(&mut filter, none), Err(TlsAlert::DecodeError));
    assert_eq!(
        extension_verdict(&mut filter, Some(Err::<Vec<u8>, ()>(()))),
        Err(TlsAlert::DecodeError)
    );
    assert_eq!(
        extension_verdict(&mut filter, Some(Ok::<Vec<u8>, ()>(vec![1u8; 8]))),
        Err(TlsAlert::DecodeError)
    );
    let record = token_record(3);
    assert_eq!(
        extension_verdict(&mut filter, Some(Ok::<Vec<u8>, ()>(record.clone()))),
        Ok(())
    );
    assert_eq!(
        extension_verdict(&mut filter, Some(Ok::<Vec<u8>, ()>(record))),
        Err(TlsAlert::IllegalParameter)
    );
    assert_eq!(
        filter.filter_answer(None::<Result<Vec<u8>, ()>>),
        Err(StarFilterErrorStatus::Internal)
    );
}

#[test]
fn all_prefix_lists_every_route() {
    assert_eq!(all_prefix(0), Vec::<u32>::new());
    assert_eq!(all_prefix(3), vec![0, 1, 2]);
}

#[test]
fn duplication_verdict_maps_the_filter_answer() {
    assert_eq!(duplication_verdict(Ok(true)), Ok(()));
    assert_eq!(
        duplication_verdict(Ok(false)),
        Err(StarFilterErrorStatus::DuplicatedToken)
    );
    assert_eq!(
        duplication_verdict(Err(std::io::Error::new(std::io::ErrorKind::Other, "disk"))),
        Err(StarFilterErrorStatus::Internal)
    );
}

#[test]
fn check_duplication_admits_a_fresh_token_once_per_served_route() {
    let mut filter = StarFilter::new(DashMapFilterBox::new(), vec![0, 2], 4, ());
    let token: Entry = [9u8; 32];
    assert_eq!(
        filter.check_duplication(&token, 1),
        Err(StarFilterErrorStatus::InvalidRoute)
    );
    assert!(filter.filter.test(&token));
    assert_eq!(filter.check_duplication(&token, 2), Ok(()));
    assert_eq!(
        filter.check_duplication(&token, 2),
        Err(StarFilterErrorStatus::DuplicatedToken)
    );
    assert_eq!(
        filter.check_duplication(&token, 0),
        Err(StarFilterErrorStatus::DuplicatedToken)
    );
    assert_eq!(
        filter.check_duplication(&token, 3),
        Err(StarFilterErrorStatus::InvalidRoute)
    );
}

#[test]
fn a_replayed_token_is_refused_in_the_handshake() {
    let mut filter = StarFilter::new(DashMapFilterBox::new(), all_prefix(4), 4, ());
    let record = token_record(6);
    assert_eq!(client_hello_decision(Some(&record)), Ok(()));
    assert_eq!(extension_precheck(None, &record), ExtensionStep::IssueToken);
    assert_eq!(extension_verdict(&mut filter, Some(Ok::<Vec<u8>, ()>(record.clone()))), Ok(()));
    assert_eq!(extension_precheck(Some(&record), &record), ExtensionStep::AcceptAgain);
    assert_eq!(
        extension_verdict(&mut filter, Some(Ok::<Vec<u8>, ()>(record))),
        Err(TlsAlert::IllegalParameter)
    );
}

#[test]
fn bloom_filter_never_admits_an_inserted_token() {
    let mut filter = BloomFilterBox::with_sizes(128, 10);
    let token: Entry = [3u8; 32];
    assert!(filter.test(&token));
    assert_eq!(filter.test_and_insert(&token).unwrap(), true);
    assert_eq!(filter.test_and_insert(&token).unwrap(), false);
    assert!(!filter.test(&token));
    let other: Entry = [4u8; 32];
    filter.insert(&other).unwrap();
    assert!(!filter.test(&other));
    let tokens: Vec<Entry> = vec![[5u8; 32], [6u8; 32]];
    let loaded = BloomFilterBox::with_entries(64, 2, &tokens);
    assert!(!loaded.test(&tokens[0]));
    assert!(!loaded.test(&tokens[1]));
}
