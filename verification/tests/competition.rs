use competition_services::competition::{
    same_bytes, snapshot, Aes256GcmParams, AttestationReport, AuthenticatedData, Competition,
    CompetitionCompleted, CompetitionParts, EncryptedData, Error, RegistryLink, RegistryReply,
    RegistryUnavailable,
};
use competition_services::context::{Address, Context};
use competition_services::string_map::StringMap;
use competition_services::user_registry;
use competition_services::user_registry::{UserInfo, UserRegistry};

const DEADLINE: u64 = 1_000;

fn coordinator() -> Address {
    Address([0xc0; 20])
}

fn registry_address() -> Address {
    Address([0x5e; 20])
}

fn participant() -> Address {
    Address([0x11; 20])
}

fn at(now: u64) -> Context {
    Context { sender: participant(), callee: coordinator(), now }
}

fn envelope(tag: u8) -> EncryptedData {
    EncryptedData {
        url: format!("https://models.example/{}", tag),
        cipher: Aes256GcmParams { key: vec![tag; 32], iv: vec![tag; 12], tag: vec![tag; 16] },
    }
}

fn measurement() -> Vec<u8> {
    vec![0xab; 32]
}

fn attestation(measurement: Vec<u8>) -> AttestationReport {
    AttestationReport { measurement, signature: vec![1, 2, 3] }
}

fn competition() -> Competition {
    Competition::new(
        &at(0),
        registry_address(),
        AuthenticatedData { url: "https://data.example/train".to_string(), hash: vec![1; 32] },
        envelope(0),
        AuthenticatedData { url: "https://programs.example/eval".to_string(), hash: measurement() },
        DEADLINE,
    )
}

fn registry_with(users: &[(&str, &str)]) -> UserRegistry {
    let mut registry = UserRegistry::with_secret(vec![7u8; 32]);
    for (name, credential) in users {
        registry.register(&at(0), name.to_string(), credential.to_string()).unwrap();
    }
    registry
}

fn token_for(registry: &UserRegistry, name: &str, credential: &str, audience: Address) -> String {
    registry.sign_in(&at(0), name.to_string(), credential.to_string(), audience).unwrap()
}

fn submissions_of(competition: &Competition) -> Vec<(String, EncryptedData)> {
    let secrets = competition.begin_evaluation(&at(DEADLINE), attestation(measurement())).unwrap();
    let mut entries = Vec::new();
    for i in 0..secrets.submissions.len() {
        entries.push((secrets.submissions.key_at(i).clone(), secrets.submissions.value_at(i).clone()));
    }
    entries
}

#[test]
fn competition_from_sign_in_to_winner() {
    let mut registry = UserRegistry::new(&at(0));
    registry.register(&at(0), "alice".to_string(), "pw1".to_string()).unwrap();
    let token = registry.sign_in(&at(0), "alice".to_string(), "pw1".to_string(), coordinator()).unwrap();
    let mut competition = competition();
    let link = RegistryLink::Reachable(&registry);

    assert_eq!(competition.submit(&at(10), &link, token, envelope(5)), Ok(()));
    assert_eq!(
        competition.begin_evaluation(&at(10), attestation(measurement())).err(),
        Some(Error::PermissionDenied)
    );

    let secrets = competition.begin_evaluation(&at(DEADLINE), attestation(measurement())).unwrap();
    assert_eq!(secrets.test_dataset, envelope(0));
    assert_eq!(secrets.submissions.len(), 1);
    assert_eq!(secrets.submissions.key_at(0), "alice");
    assert_eq!(secrets.submissions.value_at(0), &envelope(5));
    assert_eq!(secrets.submissions.get(&"alice".to_string()), Some(&envelope(5)));

    assert_eq!(
        competition.announce_winner(&at(DEADLINE), attestation(measurement()), "alice".to_string()),
        Ok(CompetitionCompleted { winner: "alice".to_string() })
    );
}

#[test]
fn public_state_shows_the_terms() {
    let competition = competition();
    let state = competition.get_public_state(&at(5));
    assert_eq!(*state.user_registry, registry_address());
    assert_eq!(state.train_dataset.url, "https://data.example/train");
    assert_eq!(state.train_dataset.hash, vec![1u8; 32]);
    assert_eq!(state.evaluation_program.url, "https://programs.example/eval");
    assert_eq!(state.evaluation_program.hash, measurement());
    assert_eq!(state.end_timestamp, DEADLINE);
    // readable after the deadline just the same
    assert_eq!(competition.get_public_state(&at(DEADLINE + 1)).end_timestamp, DEADLINE);
}

#[test]
fn window_closes_at_the_deadline() {
    let competition = competition();
    assert!(competition.is_accepting_submissions(&at(0)));
    assert!(competition.is_accepting_submissions(&at(DEADLINE - 1)));
    assert!(!competition.is_accepting_submissions(&at(DEADLINE)));
    assert!(!competition.is_accepting_submissions(&at(DEADLINE + 1)));
    assert!(!competition.is_accepting_submissions(&at(u64::MAX)));
}

#[test]
fn submit_after_deadline_is_closed_even_with_valid_token() {
    let registry = registry_with(&[("alice", "pw1")]);
    let token = token_for(&registry, "alice", "pw1", coordinator());
    let mut competition = competition();
    let link = RegistryLink::Reachable(&registry);
    assert_eq!(competition.submit(&at(DEADLINE), &link, token.clone(), envelope(1)), Err(Error::SubmissionsClosed));
    assert_eq!(
        competition.submit(&at(DEADLINE + 5), &link, token.clone(), envelope(1)),
        Err(Error::SubmissionsClosed)
    );
    // closed comes before the registry is asked at all
    assert_eq!(
        competition.submit(&at(DEADLINE), &RegistryLink::Unreachable, token, envelope(1)),
        Err(Error::SubmissionsClosed)
    );
    assert!(submissions_of(&competition).is_empty());
}

#[test]
fn submit_with_token_for_another_audience_is_denied() {
    let registry = registry_with(&[("alice", "pw1")]);
    let token = token_for(&registry, "alice", "pw1", Address([0xc1; 20]));
    let mut competition = competition();
    let link = RegistryLink::Reachable(&registry);
    assert_eq!(competition.submit(&at(10), &link, token, envelope(1)), Err(Error::PermissionDenied));
    // a token for the sender of the call, not for the coordinator
    let token = token_for(&registry, "alice", "pw1", participant());
    assert_eq!(competition.submit(&at(10), &link, token, envelope(1)), Err(Error::PermissionDenied));
    assert!(submissions_of(&competition).is_empty());
}

#[test]
fn submit_with_bad_token_is_denied_and_changes_nothing() {
    let registry = registry_with(&[("alice", "pw1")]);
    let good = token_for(&registry, "alice", "pw1", coordinator());
    let mut competition = competition();
    let link = RegistryLink::Reachable(&registry);
    assert_eq!(competition.submit(&at(10), &link, good.clone(), envelope(1)), Ok(()));
    let shortened = good[..good.len() - 1].to_string();
    assert_eq!(competition.submit(&at(11), &link, shortened, envelope(2)), Err(Error::PermissionDenied));
    assert_eq!(
        competition.submit(&at(12), &link, "no token".to_string(), envelope(3)),
        Err(Error::PermissionDenied)
    );
    let stranger = registry_with(&[("alice", "pw1")]);
    let other = UserRegistry::with_secret(vec![9u8; 32]);
    let _ = stranger;
    let link_to_other = RegistryLink::Reachable(&other);
    assert_eq!(competition.submit(&at(13), &link_to_other, good, envelope(4)), Err(Error::PermissionDenied));
    assert_eq!(submissions_of(&competition), vec![("alice".to_string(), envelope(1))]);
}

#[test]
fn submit_without_registry_is_unreachable() {
    let registry = registry_with(&[("alice", "pw1")]);
    let token = token_for(&registry, "alice", "pw1", coordinator());
    let mut competition = competition();
    assert_eq!(
        competition.submit(&at(10), &RegistryLink::Unreachable, token.clone(), envelope(1)),
        Err(Error::ParticipantRegistryUnreachable)
    );
    assert!(submissions_of(&competition).is_empty());
    // the caller may try again once the registry answers
    assert_eq!(competition.submit(&at(11), &RegistryLink::Reachable(&registry), token, envelope(1)), Ok(()));
    assert_eq!(submissions_of(&competition).len(), 1);
}

#[test]
fn later_submission_overwrites_earlier() {
    let registry = registry_with(&[("alice", "pw1"), ("bob", "pw2")]);
    let alice = token_for(&registry, "alice", "pw1", coordinator());
    let bob = token_for(&registry, "bob", "pw2", coordinator());
    let mut competition = competition();
    let link = RegistryLink::Reachable(&registry);
    assert_eq!(competition.submit(&at(10), &link, alice.clone(), envelope(1)), Ok(()));
    assert_eq!(competition.submit(&at(20), &link, bob, envelope(2)), Ok(()));
    assert_eq!(competition.submit(&at(30), &link, alice, envelope(3)), Ok(()));
    assert_eq!(
        submissions_of(&competition),
        vec![("alice".to_string(), envelope(3)), ("bob".to_string(), envelope(2))]
    );
}

#[test]
fn evaluation_returns_every_submission_unmodified() {
    let registry = registry_with(&[("carol", "c"), ("alice", "a"), ("bob", "b")]);
    let mut competition = competition();
    let link = RegistryLink::Reachable(&registry);
    for (i, (name, credential)) in [("bob", "b"), ("carol", "c"), ("alice", "a")].iter().enumerate() {
        let token = token_for(&registry, name, credential, coordinator());
        assert_eq!(competition.submit(&at(DEADLINE - 1), &link, token, envelope(i as u8 + 1)), Ok(()));
    }
    let secrets = competition.begin_evaluation(&at(DEADLINE + 100), attestation(measurement())).unwrap();
    assert_eq!(secrets.test_dataset, envelope(0));
    assert_eq!(secrets.submissions.len(), 3);
    assert_eq!(secrets.submissions.get(&"bob".to_string()), Some(&envelope(1)));
    assert_eq!(secrets.submissions.get(&"carol".to_string()), Some(&envelope(2)));
    assert_eq!(secrets.submissions.get(&"alice".to_string()), Some(&envelope(3)));
    assert_eq!(secrets.submissions.key_at(0), "bob");
    assert_eq!(secrets.submissions.key_at(1), "carol");
    assert_eq!(secrets.submissions.key_at(2), "alice");
    // the snapshot is a copy: asking again gives the same
    let again = competition.begin_evaluation(&at(DEADLINE + 200), attestation(measurement())).unwrap();
    assert_eq!(again.submissions.len(), 3);
    assert_eq!(again.submissions.value_at(1), &envelope(2));
}

#[test]
fn evaluation_before_deadline_is_denied() {
    let competition = competition();
    assert_eq!(
        competition.begin_evaluation(&at(0), attestation(measurement())).err(),
        Some(Error::PermissionDenied)
    );
    assert_eq!(
        competition.begin_evaluation(&at(DEADLINE - 1), attestation(measurement())).err(),
        Some(Error::PermissionDenied)
    );
    assert_eq!(
        competition.announce_winner(&at(DEADLINE - 1), attestation(measurement()), "alice".to_string()),
        Err(Error::PermissionDenied)
    );
    assert_eq!(
        competition.authorize_evaluation_program(&at(DEADLINE - 1), &attestation(measurement())),
        Err(Error::PermissionDenied)
    );
}

#[test]
fn evaluation_with_wrong_measurement_is_denied() {
    let competition = competition();
    for wrong in [vec![], vec![0xab; 31], vec![0xab; 33], vec![0xac; 32], vec![1; 32]] {
        assert_eq!(
            competition.begin_evaluation(&at(DEADLINE), attestation(wrong.clone())).err(),
            Some(Error::PermissionDenied)
        );
        assert_eq!(
            competition.announce_winner(&at(DEADLINE), attestation(wrong.clone()), "alice".to_string()),
            Err(Error::PermissionDenied)
        );
        // and before the deadline the answer is the same one
        assert_eq!(
            competition.begin_evaluation(&at(1), attestation(wrong)).err(),
            Some(Error::PermissionDenied)
        );
    }
}

#[test]
fn evaluation_does_not_read_the_signature() {
    let competition = competition();
    let unsigned = AttestationReport { measurement: measurement(), signature: Vec::new() };
    assert_eq!(competition.authorize_evaluation_program(&at(DEADLINE), &unsigned), Ok(()));
    let signed = AttestationReport { measurement: measurement(), signature: vec![9; 64] };
    assert_eq!(competition.authorize_evaluation_program(&at(DEADLINE), &signed), Ok(()));
}

#[test]
fn winner_is_recorded_as_given() {
    let competition = competition();
    for winner in ["alice", "nobody who submitted", "", "Alice "] {
        assert_eq!(
            competition.announce_winner(&at(DEADLINE), attestation(measurement()), winner.to_string()),
            Ok(CompetitionCompleted { winner: winner.to_string() })
        );
    }
}

#[test]
fn begin_submit_says_what_to_ask() {
    let competition = competition();
    let request = competition.begin_submit(&at(10), "tok".to_string()).unwrap();
    assert_eq!(request.registry, registry_address());
    assert_eq!(request.context.sender, coordinator());
    assert_eq!(request.context.callee, registry_address());
    assert_eq!(request.context.now, 10);
    assert_eq!(request.token, "tok");
    assert_eq!(competition.begin_submit(&at(DEADLINE), "tok".to_string()).err(), Some(Error::SubmissionsClosed));
}

#[test]
fn finish_submit_by_reply() {
    let mut competition = competition();
    let verified: RegistryReply = Ok(Ok(UserInfo { name: "alice".to_string() }));
    assert_eq!(competition.finish_submit(verified, envelope(1)), Ok(()));
    for refusal in [
        user_registry::Error::PermissionDenied,
        user_registry::Error::InvalidToken,
        user_registry::Error::UsernameTaken,
    ] {
        assert_eq!(competition.finish_submit(Ok(Err(refusal)), envelope(2)), Err(Error::PermissionDenied));
    }
    assert_eq!(
        competition.finish_submit(Err(RegistryUnavailable), envelope(3)),
        Err(Error::ParticipantRegistryUnreachable)
    );
    assert_eq!(submissions_of(&competition), vec![("alice".to_string(), envelope(1))]);
    let again: RegistryReply = Ok(Ok(UserInfo { name: "alice".to_string() }));
    assert_eq!(competition.finish_submit(again, envelope(4)), Ok(()));
    assert_eq!(submissions_of(&competition), vec![("alice".to_string(), envelope(4))]);
}

#[test]
fn link_passes_the_verdict_on() {
    let registry = registry_with(&[("alice", "pw1")]);
    let token = token_for(&registry, "alice", "pw1", coordinator());
    let as_coordinator = Context { sender: coordinator(), callee: registry_address(), now: 3 };
    assert_eq!(
        RegistryLink::Reachable(&registry).verify_token(&as_coordinator, token.clone()),
        Ok(Ok(UserInfo { name: "alice".to_string() }))
    );
    assert_eq!(
        RegistryLink::Reachable(&registry).verify_token(&at(3), token.clone()),
        Ok(Err(user_registry::Error::PermissionDenied))
    );
    assert_eq!(
        RegistryLink::Reachable(&registry).verify_token(&as_coordinator, "x".to_string()),
        Ok(Err(user_registry::Error::InvalidToken))
    );
    assert_eq!(RegistryLink::Unreachable.verify_token(&as_coordinator, token), Err(RegistryUnavailable));
}

#[test]
fn same_bytes_compares_byte_for_byte() {
    assert!(same_bytes(&vec![], &vec![]));
    assert!(same_bytes(&vec![1, 2, 3], &vec![1, 2, 3]));
    assert!(!same_bytes(&vec![1, 2, 3], &vec![1, 2, 4]));
    assert!(!same_bytes(&vec![0, 2, 3], &vec![1, 2, 3]));
    assert!(!same_bytes(&vec![1, 2, 3], &vec![1, 2]));
    assert!(!same_bytes(&vec![], &vec![0]));
}

#[test]
fn snapshot_copies_in_order() {
    let mut map: StringMap<EncryptedData> = StringMap::new();
    map.insert("z".to_string(), envelope(1));
    map.insert("a".to_string(), envelope(2));
    map.insert("z".to_string(), envelope(3));
    let copy = snapshot(&map);
    assert_eq!(copy.len(), 2);
    assert_eq!((copy.key_at(0).as_str(), copy.value_at(0)), ("z", &envelope(3)));
    assert_eq!((copy.key_at(1).as_str(), copy.value_at(1)), ("a", &envelope(2)));
    assert!(snapshot(&StringMap::new()).is_empty());
}

#[test]
fn envelope_clone_is_equal() {
    let first = envelope(7);
    let copy = first.clone();
    assert_eq!(copy, first);
    assert_eq!(copy.cipher.clone(), first.cipher);
}

#[test]
fn competition_survives_being_taken_apart() {
    let registry = registry_with(&[("alice", "pw1"), ("bob", "pw2")]);
    let mut competition = competition();
    let link = RegistryLink::Reachable(&registry);
    let alice = token_for(&registry, "alice", "pw1", coordinator());
    assert_eq!(competition.submit(&at(10), &link, alice, envelope(1)), Ok(()));

    let parts = competition.into_parts();
    assert_eq!(parts.user_registry, registry_address());
    assert_eq!(parts.train_dataset.url, "https://data.example/train");
    assert_eq!(parts.test_dataset, envelope(0));
    assert_eq!(parts.evaluation_program.hash, measurement());
    assert_eq!(parts.end_timestamp, DEADLINE);
    assert_eq!(parts.submissions.len(), 1);
    assert_eq!(parts.submissions.get(&"alice".to_string()), Some(&envelope(1)));

    let mut competition = Competition::from_parts(parts);
    let bob = token_for(&registry, "bob", "pw2", coordinator());
    assert_eq!(competition.submit(&at(20), &link, bob.clone(), envelope(2)), Ok(()));
    assert_eq!(competition.submit(&at(DEADLINE), &link, bob, envelope(3)), Err(Error::SubmissionsClosed));
    assert_eq!(
        submissions_of(&competition),
        vec![("alice".to_string(), envelope(1)), ("bob".to_string(), envelope(2))]
    );
}

#[test]
fn competition_from_given_parts() {
    let mut submissions = StringMap::new();
    submissions.insert("zed".to_string(), envelope(9));
    let competition = Competition::from_parts(CompetitionParts {
        user_registry: registry_address(),
        train_dataset: AuthenticatedData { url: "t".to_string(), hash: vec![] },
        test_dataset: envelope(4),
        evaluation_program: AuthenticatedData { url: "e".to_string(), hash: vec![] },
        submissions,
        end_timestamp: 0,
    });
    // a deadline of zero: never open
    assert!(!competition.is_accepting_submissions(&at(0)));
    let secrets = competition.begin_evaluation(&at(0), attestation(vec![])).unwrap();
    assert_eq!(secrets.test_dataset, envelope(4));
    assert_eq!(secrets.submissions.get(&"zed".to_string()), Some(&envelope(9)));
}

#[test]
fn competition_that_never_closes() {
    let competition = Competition::new(
        &at(0),
        registry_address(),
        AuthenticatedData { url: "t".to_string(), hash: vec![] },
        envelope(0),
        AuthenticatedData { url: "e".to_string(), hash: measurement() },
        u64::MAX,
    );
    assert!(competition.is_accepting_submissions(&at(u64::MAX - 1)));
    assert!(!competition.is_accepting_submissions(&at(u64::MAX)));
    assert_eq!(
        competition.begin_evaluation(&at(u64::MAX - 1), attestation(measurement())).err(),
        Some(Error::PermissionDenied)
    );
    assert!(competition.begin_evaluation(&at(u64::MAX), attestation(measurement())).is_ok());
}
