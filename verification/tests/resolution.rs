use candid::Principal;
use ic_cdk::api::call::RejectionCode as PlatformRejectionCode;
use profile_registry::resolver::{plan_step, PROFILE_FETCH_METHOD, PROFILE_SERVICE_ID};
use profile_registry::{
    begin_resolution, conclude_resolution, get_profile_by_username, ProfileStore, RegistryStore, RejectionCode,
    RemoteCall, RemoteReply, ResolutionError, ResolutionStep, UserDetails,
};

fn details(first: &str, last: &str, skills: &str, reviews: &str) -> UserDetails {
    UserDetails {
        first_name: first.to_string(),
        last_name: last.to_string(),
        skills: skills.to_string(),
        client_reviews: reviews.to_string(),
    }
}

/// Resolves against a profile store in the same process.
fn resolve(registry: &RegistryStore, profiles: &ProfileStore, username: &str) -> Result<UserDetails, ResolutionError> {
    get_profile_by_username(registry, username.to_string(), |call: RemoteCall| {
        assert_eq!(call.method, "get_user_details_by_passkey");
        RemoteReply::Answered(profiles.get_user_details_by_passkey(call.passkey))
    })
    .expect("the service address decodes")
}

#[test]
fn the_two_halves_resolve_as_the_whole_does() {
    let mut profiles = ProfileStore::new();
    let mut registry = RegistryStore::new();
    assert_eq!(profiles.write("abc123".to_string(), details("Jane", "Doe", "x", "y")), Ok(()));
    assert_eq!(registry.register_passphrase("abc123".to_string(), vec!["jane.doe".to_string()]), Ok(()));
    let by_halves = match begin_resolution(&registry, "jane.doe".to_string()).expect("the service address decodes") {
        ResolutionStep::Failed(error) => Err(error),
        ResolutionStep::Fetch(call) => {
            conclude_resolution(RemoteReply::Answered(profiles.get_user_details_by_passkey(call.passkey)))
        }
    };
    assert_eq!(by_halves, Ok(details("Jane", "Doe", "x", "y")));
    assert_eq!(by_halves, resolve(&registry, &profiles, "jane.doe"));
}

#[test]
fn unknown_username_never_reaches_the_profile_service() {
    let mut registry = RegistryStore::new();
    assert_eq!(registry.register_passphrase("abc123".to_string(), vec!["jane.doe".to_string()]), Ok(()));
    let mut calls = 0;
    let outcome = get_profile_by_username(&registry, "nosuch".to_string(), |_call: RemoteCall| {
        calls += 1;
        RemoteReply::Answered(None)
    });
    assert_eq!(outcome, Some(Err(ResolutionError::UsernameNotFound)));
    assert_eq!(calls, 0);
}

#[test]
fn known_username_reaches_the_profile_service_once() {
    let mut registry = RegistryStore::new();
    assert_eq!(registry.register_passphrase("abc123".to_string(), vec!["jane.doe".to_string()]), Ok(()));
    let mut passkeys = Vec::new();
    let outcome = get_profile_by_username(&registry, "jane.doe".to_string(), |call: RemoteCall| {
        passkeys.push(call.passkey);
        RemoteReply::Failed { code: RejectionCode::CanisterError, message: "trapped".to_string() }
    });
    assert_eq!(
        outcome,
        Some(Err(ResolutionError::RemoteCallFailed {
            code: RejectionCode::CanisterError,
            message: "trapped".to_string(),
        }))
    );
    assert_eq!(passkeys, vec!["abc123".to_string()]);
}

#[test]
fn end_to_end_resolution_returns_the_written_profile() {
    let mut profiles = ProfileStore::new();
    let mut registry = RegistryStore::new();
    assert_eq!(profiles.write("abc123".to_string(), details("Jane", "Doe", "x", "y")), Ok(()));
    assert_eq!(registry.register_passphrase("abc123".to_string(), vec!["jane.doe".to_string()]), Ok(()));
    assert_eq!(resolve(&registry, &profiles, "jane.doe"), Ok(details("Jane", "Doe", "x", "y")));
}

#[test]
fn unknown_username_fails_without_a_call() {
    let mut registry = RegistryStore::new();
    assert_eq!(
        begin_resolution(&registry, "nosuch".to_string()),
        Some(ResolutionStep::Failed(ResolutionError::UsernameNotFound))
    );
    assert_eq!(registry.register_passphrase("abc123".to_string(), vec!["jane.doe".to_string()]), Ok(()));
    assert_eq!(
        begin_resolution(&registry, "nosuch".to_string()),
        Some(ResolutionStep::Failed(ResolutionError::UsernameNotFound))
    );
}

#[test]
fn first_step_names_the_call_to_the_profile_service() {
    let mut registry = RegistryStore::new();
    assert_eq!(registry.register_passphrase("abc123".to_string(), vec!["jane.doe".to_string()]), Ok(()));
    let step = begin_resolution(&registry, "jane.doe".to_string());
    assert_eq!(
        step,
        Some(ResolutionStep::Fetch(RemoteCall {
            target: vec![255, 255, 255, 255, 255, 144, 0, 1, 1, 1],
            method: "get_user_details_by_passkey".to_string(),
            passkey: "abc123".to_string(),
        }))
    );
    match step {
        Some(ResolutionStep::Fetch(call)) => {
            let expected = Principal::from_text("uxrrr-q7777-77774-qaaaq-cai").unwrap();
            assert_eq!(Principal::from_slice(&call.target), expected);
            assert_ne!(call.target, PROFILE_SERVICE_ID.as_bytes().to_vec());
        }
        _ => panic!("a call was expected"),
    }
}

#[test]
fn service_constants() {
    assert_eq!(PROFILE_SERVICE_ID, "uxrrr-q7777-77774-qaaaq-cai");
    assert_eq!(PROFILE_FETCH_METHOD, "get_user_details_by_passkey");
}

#[test]
fn shared_username_resolves_the_same_way_every_time() {
    let mut profiles = ProfileStore::new();
    let mut registry = RegistryStore::new();
    assert_eq!(profiles.write("beta".to_string(), details("B", "B", "", "")), Ok(()));
    assert_eq!(profiles.write("alpha".to_string(), details("A", "A", "", "")), Ok(()));
    assert_eq!(registry.register_passphrase("beta".to_string(), vec!["dup".to_string()]), Ok(()));
    assert_eq!(registry.register_passphrase("alpha".to_string(), vec!["dup".to_string()]), Ok(()));
    let once = resolve(&registry, &profiles, "dup");
    for _ in 0..5 {
        assert_eq!(resolve(&registry, &profiles, "dup"), once);
    }
    assert_eq!(once, Ok(details("A", "A", "", "")));
}

#[test]
fn failed_call_keeps_code_and_message() {
    let mut registry = RegistryStore::new();
    assert_eq!(registry.register_passphrase("abc123".to_string(), vec!["jane.doe".to_string()]), Ok(()));
    assert!(matches!(begin_resolution(&registry, "jane.doe".to_string()), Some(ResolutionStep::Fetch(_))));
    let result = conclude_resolution(RemoteReply::Failed {
        code: RejectionCode::SysTransient,
        message: "canister is out of cycles".to_string(),
    });
    assert_eq!(
        result,
        Err(ResolutionError::RemoteCallFailed {
            code: RejectionCode::SysTransient,
            message: "canister is out of cycles".to_string(),
        })
    );
    assert_ne!(result, Err(ResolutionError::UsernameNotFound));
    assert_ne!(result, Err(ResolutionError::ProfileMissingDespiteRegistration));
}

#[test]
fn registered_without_profile_is_an_inconsistency() {
    let profiles = ProfileStore::new();
    let mut registry = RegistryStore::new();
    assert_eq!(registry.register_passphrase("abc123".to_string(), vec!["jane.doe".to_string()]), Ok(()));
    assert_eq!(
        resolve(&registry, &profiles, "jane.doe"),
        Err(ResolutionError::ProfileMissingDespiteRegistration)
    );
    assert_eq!(
        conclude_resolution(RemoteReply::Answered(None)),
        Err(ResolutionError::ProfileMissingDespiteRegistration)
    );
}

#[test]
fn answered_profile_is_returned_as_it_came() {
    assert_eq!(
        conclude_resolution(RemoteReply::Answered(Some(details("Jane", "Doe", "x", "y")))),
        Ok(details("Jane", "Doe", "x", "y"))
    );
}

#[test]
fn plan_step_on_given_values() {
    assert_eq!(plan_step(None, None), Some(ResolutionStep::Failed(ResolutionError::UsernameNotFound)));
    assert_eq!(
        plan_step(None, Some(vec![1, 2, 3])),
        Some(ResolutionStep::Failed(ResolutionError::UsernameNotFound))
    );
    assert_eq!(plan_step(Some("abc123".to_string()), None), None);
    assert_eq!(
        plan_step(Some("abc123".to_string()), Some(vec![1, 2, 3])),
        Some(ResolutionStep::Fetch(RemoteCall {
            target: vec![1, 2, 3],
            method: "get_user_details_by_passkey".to_string(),
            passkey: "abc123".to_string(),
        }))
    );
}

#[test]
fn resolution_error_sentences() {
    assert_eq!(ResolutionError::UsernameNotFound.message(), "Username not found in registry.");
    assert_eq!(
        ResolutionError::ProfileMissingDespiteRegistration.message(),
        "User found in registry, but no details found in profile canister."
    );
    assert_eq!(
        ResolutionError::RemoteCallFailed { code: RejectionCode::CanisterReject, message: "boom".to_string() }
            .message(),
        "Inter-canister call failed: (CanisterReject) boom"
    );
    assert_eq!(
        ResolutionError::RemoteCallFailed { code: RejectionCode::Unknown, message: String::new() }.message(),
        "Inter-canister call failed: (Unknown) "
    );
}

#[test]
fn rejection_code_names() {
    assert_eq!(RejectionCode::NoError.name(), "NoError");
    assert_eq!(RejectionCode::SysFatal.name(), "SysFatal");
    assert_eq!(RejectionCode::SysTransient.name(), "SysTransient");
    assert_eq!(RejectionCode::DestinationInvalid.name(), "DestinationInvalid");
    assert_eq!(RejectionCode::CanisterReject.name(), "CanisterReject");
    assert_eq!(RejectionCode::CanisterError.name(), "CanisterError");
    assert_eq!(RejectionCode::Unknown.name(), "Unknown");
}

#[test]
fn rejection_code_names_are_the_platform_names() {
    let pairs = [
        (RejectionCode::NoError, PlatformRejectionCode::NoError),
        (RejectionCode::SysFatal, PlatformRejectionCode::SysFatal),
        (RejectionCode::SysTransient, PlatformRejectionCode::SysTransient),
        (RejectionCode::DestinationInvalid, PlatformRejectionCode::DestinationInvalid),
        (RejectionCode::CanisterReject, PlatformRejectionCode::CanisterReject),
        (RejectionCode::CanisterError, PlatformRejectionCode::CanisterError),
        (RejectionCode::Unknown, PlatformRejectionCode::Unknown),
    ];
    for (code, platform) in pairs {
        assert_eq!(code.name(), format!("{:?}", platform));
        assert_eq!(
            ResolutionError::RemoteCallFailed { code, message: "why".to_string() }.message(),
            format!("Inter-canister call failed: ({:?}) {}", platform, "why")
        );
    }
}
