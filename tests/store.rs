use mint_backend::store::{ClientError, DataClient};

fn ready_client() -> DataClient {
    let mut c = DataClient::new();
    c.initialize().unwrap();
    c
}

#[test]
fn initialize_twice_succeeds_and_keeps_rows() {
    let mut c = ready_client();
    c.add_user("ann".to_string(), "ann@x.org".to_string()).unwrap();
    for _ in 0..5 {
        assert_eq!(c.initialize(), Ok(()));
    }
    let users = c.list_users().unwrap();
    assert_eq!(users, vec![(1, "ann".to_string(), "ann@x.org".to_string())]);
}

#[test]
fn operations_before_initialize_fail() {
    let mut c = DataClient::new();
    assert_eq!(c.list_users(), Err(ClientError::StoreUnavailable));
    assert_eq!(c.list_samples(), Err(ClientError::StoreUnavailable));
    assert_eq!(c.add_user("a".to_string(), "a@b.com".to_string()), Err(ClientError::StoreUnavailable));
    assert_eq!(c.add_sample(1000, 0, "m".to_string()), Err(ClientError::StoreUnavailable));
    c.initialize().unwrap();
    assert_eq!(c.list_users(), Ok(vec![]));
    assert_eq!(c.list_samples(), Ok(vec![]));
}

#[test]
fn empty_name_is_a_validation_error() {
    let mut c = ready_client();
    c.add_user("bob".to_string(), "bob@b.com".to_string()).unwrap();
    let before = c.list_users().unwrap();
    assert_eq!(c.add_user("".to_string(), "a@b.com".to_string()), Err(ClientError::ValidationError));
    assert_eq!(c.list_users().unwrap(), before);
}

#[test]
fn empty_email_is_a_validation_error() {
    let mut c = ready_client();
    assert_eq!(c.add_user("a".to_string(), "".to_string()), Err(ClientError::ValidationError));
    assert_eq!(c.list_users().unwrap(), vec![]);
}

#[test]
fn validation_comes_before_store_state() {
    let mut c = DataClient::new();
    assert_eq!(c.add_user("".to_string(), "".to_string()), Err(ClientError::ValidationError));
    assert_eq!(c.add_sample(-1, 0, "m".to_string()), Err(ClientError::InvalidTimestamp));
}

#[test]
fn users_get_consecutive_ids_in_insertion_order() {
    let mut c = ready_client();
    assert_eq!(c.add_user("a".to_string(), "a@x".to_string()), Ok(1));
    assert_eq!(c.add_user("".to_string(), "b@x".to_string()), Err(ClientError::ValidationError));
    assert_eq!(c.add_user("c".to_string(), "c@x".to_string()), Ok(2));
    assert_eq!(c.add_user("a".to_string(), "a@x".to_string()), Ok(3));
    let users = c.list_users().unwrap();
    assert_eq!(
        users,
        vec![
            (1, "a".to_string(), "a@x".to_string()),
            (2, "c".to_string(), "c@x".to_string()),
            (3, "a".to_string(), "a@x".to_string()),
        ]
    );
}

#[test]
fn sample_is_listed_with_rfc3339_timestamp() {
    let mut c = ready_client();
    assert_eq!(c.add_sample(1_700_000_000_000, 42.5f64.to_bits(), "ch1".to_string()), Ok(1));
    let samples = c.list_samples().unwrap();
    assert_eq!(samples.len(), 1);
    let (id, ts, bits, meta) = &samples[0];
    assert_eq!(*id, 1);
    assert_eq!(ts, "2023-11-14T22:13:20+00:00");
    assert_eq!(f64::from_bits(*bits), 42.5);
    assert_eq!(meta, "ch1");
}

#[test]
fn invalid_timestamps_write_nothing() {
    let mut c = ready_client();
    c.add_sample(5, 7, "first".to_string()).unwrap();
    let before = c.list_samples().unwrap();
    for t in [-1i64, -1000, i64::MIN, i64::MAX, 8_210_266_876_800_000] {
        assert_eq!(c.add_sample(t, 1, "x".to_string()), Err(ClientError::InvalidTimestamp));
    }
    assert_eq!(c.list_samples().unwrap(), before);
}

#[test]
fn samples_keep_insertion_order_not_time_order() {
    let mut c = ready_client();
    c.add_sample(2_000, 1, "later".to_string()).unwrap();
    c.add_sample(1_500, 2, "earlier".to_string()).unwrap();
    let samples = c.list_samples().unwrap();
    assert_eq!(samples[0], (1, "1970-01-01T00:00:02+00:00".to_string(), 1, "later".to_string()));
    assert_eq!(samples[1], (2, "1970-01-01T00:00:01.500+00:00".to_string(), 2, "earlier".to_string()));
}

#[test]
fn error_messages() {
    assert_eq!(ClientError::InvalidTimestamp.message(), "Invalid timestamp");
    assert_eq!(ClientError::StoreUnavailable.message(), "store unavailable");
    assert_eq!(ClientError::ValidationError.message(), "validation error: name and email are required");
}

#[test]
fn user_and_sample_writes_in_either_order() {
    let mut a = ready_client();
    assert_eq!(a.add_user("u".to_string(), "u@x".to_string()), Ok(1));
    assert_eq!(a.add_sample(3_000, 9, "m".to_string()), Ok(1));
    let mut b = ready_client();
    assert_eq!(b.add_sample(3_000, 9, "m".to_string()), Ok(1));
    assert_eq!(b.add_user("u".to_string(), "u@x".to_string()), Ok(1));
    assert_eq!(a.list_users(), b.list_users());
    assert_eq!(a.list_samples(), b.list_samples());
}
