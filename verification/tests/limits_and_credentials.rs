use warthog::credentials::{ProviderImpl, CHALLENGE_COUNT, DIGIT_COUNT, HEIGHT, WIDTH};
use warthog::logon::same_hash;
use warthog::protocol::{LogonChallenge, MatrixCard, Options, ReconnectChallenge, Version};
use warthog::server::{to_options, Connections};

fn challenge(name: &str, major: u8, minor: u8, patch: u8) -> LogonChallenge {
    LogonChallenge {
        protocol_version: 8,
        version: Version { major, minor, patch, build: 1 },
        platform: 1,
        os: 2,
        locale: 3,
        utc_timezone_offset: -60,
        client_ip_address: [10, 0, 0, 1],
        account_name: name.to_string(),
    }
}

#[test]
fn the_count_of_connections_exceeds_the_limit_by_one_at_most() {
    for limit in [0u32, 1, 3] {
        let options = Options { randomize_pin_grid: false, max_concurrent_users: limit };
        let mut connections = Connections::new(&options);
        assert_eq!(connections.live(), 0);
        for served in 1..=limit as u64 + 1 {
            assert!(connections.try_accept());
            assert_eq!(connections.live(), served);
        }
        for _ in 0..5 {
            assert!(!connections.try_accept());
            assert_eq!(connections.live(), limit as u64 + 1);
        }
        connections.release();
        assert_eq!(connections.live(), limit as u64);
        assert!(connections.try_accept());
        assert!(!connections.try_accept());
        for _ in 0..limit as u64 + 5 {
            connections.release();
        }
        assert_eq!(connections.live(), 0);
    }
}

#[test]
fn default_options() {
    assert_eq!(to_options(true), Options { randomize_pin_grid: true, max_concurrent_users: 1000 });
    assert_eq!(to_options(false), Options { randomize_pin_grid: false, max_concurrent_users: 1000 });
}

#[test]
fn what_a_build_supports() {
    let pin = [((0, 9, 9), false), ((1, 11, 2), false), ((1, 12, 0), true), ((2, 0, 0), true), ((3, 3, 5), true)];
    for ((major, minor, patch), expected) in pin {
        let version = Version { major, minor, patch, build: 0 };
        assert_eq!(version.supports_pin(), expected);
        let theirs = wow_login_messages::all::Version { major, minor, patch, build: 0 };
        assert_eq!(version.supports_pin(), theirs.supports_pin());
    }
    let card = [((1, 12, 1), false), ((2, 0, 2), false), ((2, 0, 3), true), ((2, 1, 0), true), ((3, 0, 0), true)];
    for ((major, minor, patch), expected) in card {
        let version = Version { major, minor, patch, build: 0 };
        assert_eq!(version.supports_matrix_card(), expected);
        let theirs = wow_login_messages::all::Version { major, minor, patch, build: 0 };
        assert_eq!(version.supports_matrix_card(), theirs.supports_matrix_card());
    }
}

#[test]
fn the_trial_source_hands_out_what_it_is_made_for() {
    let mut plain = ProviderImpl::new(false, false);
    let credentials = plain.get_user("alice", &challenge("alice", 3, 3, 5)).unwrap();
    assert_eq!(credentials.pin, None);
    assert_eq!(credentials.matrix_card, None);
    let again = plain.get_user("alice", &challenge("alice", 3, 3, 5)).unwrap();
    assert_ne!(credentials.salt, again.salt);

    let mut both = ProviderImpl::new(true, true);
    let credentials = both.get_user("alice", &challenge("alice", 3, 3, 5)).unwrap();
    assert_eq!(credentials.pin, Some(1234));
    let card = credentials.matrix_card.unwrap();
    assert_eq!(card.challenge_count, CHALLENGE_COUNT);
    assert_eq!(card.matrix_card.digit_count(), DIGIT_COUNT);
    assert_eq!(card.matrix_card.height(), HEIGHT);
    assert_eq!(card.matrix_card.width(), WIDTH);
    assert_eq!(card.matrix_card.data(), &vec![0u8; 128]);

    let credentials = both.get_user("alice", &challenge("alice", 1, 12, 1)).unwrap();
    assert_eq!(credentials.pin, Some(1234));
    assert_eq!(credentials.matrix_card, None);
    let credentials = both.get_user("alice", &challenge("alice", 1, 2, 0)).unwrap();
    assert_eq!(credentials.pin, None);
    assert_eq!(credentials.matrix_card, None);

    assert_eq!(both.get_user("", &challenge("", 3, 3, 5)), None);
    assert_eq!(both.get_user("seventeen letters", &challenge("x", 3, 3, 5)), None);
    assert_eq!(both.add_user("bob", "secret"), None);
}

#[test]
fn a_matrix_card_has_a_digit_for_every_place() {
    assert!(MatrixCard::from_data(2, 8, 8, vec![1; 128]).is_some());
    assert!(MatrixCard::from_data(2, 8, 8, vec![1; 127]).is_none());
    assert!(MatrixCard::from_data(2, 8, 8, vec![1; 129]).is_none());
    assert!(MatrixCard::from_data(0, 8, 8, vec![]).is_some());
    assert!(MatrixCard::from_data(255, 255, 255, vec![]).is_none());
    let card = MatrixCard::from_data(1, 2, 3, vec![1, 2, 3, 4, 5, 6]).unwrap();
    assert_eq!((card.digit_count(), card.height(), card.width()), (1, 2, 3));
    assert_eq!(card.data(), &vec![1, 2, 3, 4, 5, 6]);
    assert_eq!(card.clone(), card);
}

#[test]
fn a_reconnect_challenge_keeps_its_fields_as_a_logon_challenge() {
    let reconnect = ReconnectChallenge {
        protocol_version: 8,
        version: Version { major: 3, minor: 3, patch: 5, build: 12340 },
        platform: 1,
        os: 2,
        locale: 3,
        utc_timezone_offset: -60,
        client_ip_address: [10, 0, 0, 1],
        account_name: "alice".to_string(),
    };
    let mut expected = challenge("alice", 3, 3, 5);
    expected.version.build = 12340;
    assert_eq!(reconnect.into_logon_challenge(), expected);
}

#[test]
fn hashes_are_compared_byte_by_byte() {
    let a = [1u8; 20];
    let mut b = a;
    assert!(same_hash(&a, &b));
    b[19] = 2;
    assert!(!same_hash(&a, &b));
    b = a;
    b[0] = 0;
    assert!(!same_hash(&a, &b));
}
