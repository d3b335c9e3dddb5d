use studio_core::credentials::{
    has_profile, is_valid_secret_ref, plan_profile_delete, plan_profile_save, resolve_secret_source,
    secret_ref_for, CredentialAction, DeleteError, SecretSource, SECRET_SERVICE,
};
use studio_core::profile::{OutputMode, Profile, ProfileError, SecretRef};

fn srt() -> Profile {
    Profile {
        id: "x".into(),
        name: "road".into(),
        mode: OutputMode::SrtContribution,
        host: "ingest.example".into(),
        port: 9000,
        stream_id: Some("festival".into()),
        mount: None,
        username: None,
        secret: Some(SecretRef {
            service: "m".into(),
            account: "x".into(),
        }),
        credential_mode: Some(OutputMode::SrtContribution),
        tls: true,
        bitrate_kbps: 128,
        channels: 2,
        program_name: None,
    }
}

fn icecast() -> Profile {
    Profile {
        id: "ice".into(),
        name: "studio".into(),
        mode: OutputMode::Icecast,
        host: "radio.example".into(),
        port: 8000,
        stream_id: None,
        mount: Some("/live".into()),
        username: None,
        secret: None,
        credential_mode: None,
        tls: false,
        bitrate_kbps: 96,
        channels: 1,
        program_name: Some("Morning".into()),
    }
}

#[test]
fn validates_srt() {
    assert!(srt().validate().is_ok());
}

#[test]
fn secret_is_not_exported() {
    assert!(srt().export_without_secrets().secret.is_none());
}

#[test]
fn export_keeps_everything_else() {
    let p = srt();
    let e = p.export_without_secrets();
    assert_eq!(e.id, p.id);
    assert_eq!(e.host, p.host);
    assert_eq!(e.stream_id, p.stream_id);
    assert_eq!(e.credential_mode, p.credential_mode);
    assert_eq!(e.validate(), p.validate());
}

#[test]
fn validation_errors_in_order() {
    let mut p = srt();
    p.name = " \t".into();
    p.port = 0;
    assert_eq!(p.validate(), Err(ProfileError::Name));
    let mut p = srt();
    p.host = "user@host".into();
    assert_eq!(p.validate(), Err(ProfileError::Host));
    p.host = "  ".into();
    assert_eq!(p.validate(), Err(ProfileError::Host));
    let mut p = srt();
    p.port = 0;
    assert_eq!(p.validate(), Err(ProfileError::Port));
    let mut p = srt();
    p.bitrate_kbps = 31;
    assert_eq!(p.validate(), Err(ProfileError::Bitrate));
    p.bitrate_kbps = 320;
    assert!(p.validate().is_ok());
    p.bitrate_kbps = 321;
    assert_eq!(p.validate(), Err(ProfileError::Bitrate));
    let mut p = srt();
    p.channels = 3;
    assert_eq!(p.validate(), Err(ProfileError::Channels));
    let mut p = srt();
    p.stream_id = Some(String::new());
    assert_eq!(p.validate(), Err(ProfileError::StreamId));
    p.stream_id = None;
    assert_eq!(p.validate(), Err(ProfileError::StreamId));
    let mut p = icecast();
    assert!(p.validate().is_ok());
    p.mount = Some("live".into());
    assert_eq!(p.validate(), Err(ProfileError::Mount));
    p.mount = None;
    assert_eq!(p.validate(), Err(ProfileError::Mount));
    assert_eq!(ProfileError::Port.message(), "port must be 1–65535");
}

#[test]
fn secret_references() {
    let r = secret_ref_for("abc");
    assert_eq!(r.service, SECRET_SERVICE);
    assert_eq!(r.account, "abc");
    assert!(is_valid_secret_ref(&r));
    assert!(!is_valid_secret_ref(&secret_ref_for("  ")));
    assert!(!is_valid_secret_ref(&SecretRef { service: "other".into(), account: "abc".into() }));
}

#[test]
fn runtime_secret_wins_and_stored_one_needs_same_mode() {
    let mut saved = srt();
    saved.secret = Some(secret_ref_for("x"));
    let list = vec![saved];
    match resolve_secret_source(&srt(), Some("typed-secret".into()), &list) {
        SecretSource::Runtime(s) => assert_eq!(s, "typed-secret"),
        _ => panic!("runtime secret expected"),
    }
    match resolve_secret_source(&srt(), Some(String::new()), &list) {
        SecretSource::Stored(r) => assert_eq!(r.account, "x"),
        _ => panic!("stored secret expected"),
    }
    let mut other_mode = srt();
    other_mode.mode = OutputMode::Icecast;
    assert!(matches!(resolve_secret_source(&other_mode, None, &list), SecretSource::Absent));
    let mut legacy = list[0].clone();
    legacy.credential_mode = None;
    assert!(matches!(resolve_secret_source(&srt(), None, &vec![legacy]), SecretSource::Absent));
    assert!(matches!(resolve_secret_source(&icecast(), None, &list), SecretSource::Absent));
}

#[test]
fn saving_a_new_credential_stores_it() {
    let plan = plan_profile_save(icecast(), Some("hunter2".into()), None, vec![srt()]).unwrap();
    match &plan.credential {
        CredentialAction::Store(r, s) => {
            assert_eq!(r.account, "ice");
            assert_eq!(s, "hunter2");
        }
        _ => panic!("store expected"),
    }
    assert_eq!(plan.profile.credential_mode, Some(OutputMode::Icecast));
    assert_eq!(plan.profiles.len(), 2);
    assert_eq!(plan.profiles[1].id, "ice");
    assert_eq!(plan.message, "Saved profile studio and its credential reference.");
    match resolve_secret_source(&icecast(), None, &plan.profiles) {
        SecretSource::Stored(r) => assert_eq!(r.account, "ice"),
        _ => panic!("the saved credential is used again"),
    }
}

#[test]
fn changing_mode_drops_the_old_credential() {
    let mut saved = srt();
    saved.secret = Some(secret_ref_for("x"));
    let mut edited = srt();
    edited.mode = OutputMode::Icecast;
    edited.mount = Some("/m".into());
    edited.secret = None;
    let plan = plan_profile_save(edited, None, None, vec![saved]).unwrap();
    match &plan.credential {
        CredentialAction::Remove(r) => assert_eq!(r.account, "x"),
        _ => panic!("remove expected"),
    }
    assert!(plan.profile.secret.is_none());
    assert!(plan.profile.credential_mode.is_none());
    assert_eq!(plan.profiles.len(), 1);
    assert_eq!(plan.message, "Saved profile road without a credential.");
}

#[test]
fn clearing_and_keeping_credentials() {
    let mut saved = srt();
    saved.secret = Some(secret_ref_for("x"));
    let plan = plan_profile_save(srt(), None, Some(true), vec![saved.clone()]).unwrap();
    assert!(matches!(plan.credential, CredentialAction::Remove(_)));
    assert!(plan.profile.secret.is_none());
    let plan = plan_profile_save(srt(), None, None, vec![saved]).unwrap();
    assert!(matches!(plan.credential, CredentialAction::Keep));
    assert_eq!(plan.profile.secret.unwrap().account, "x");
    let mut bad = srt();
    bad.port = 0;
    assert_eq!(plan_profile_save(bad, None, None, vec![]).err(), Some(ProfileError::Port));
}

#[test]
fn deleting_profiles() {
    let mut saved = srt();
    saved.secret = Some(secret_ref_for("x"));
    let list = vec![icecast(), saved, icecast()];
    let plan = plan_profile_delete(&list, "x").unwrap();
    assert_eq!(plan.profiles.len(), 2);
    assert!(plan.profiles.iter().all(|p| p.id == "ice"));
    assert_eq!(plan.secret.unwrap().account, "x");
    assert!(has_profile(&list, "x"));
    assert!(!has_profile(&plan.profiles, "x"));
    assert_eq!(plan_profile_delete(&list, "nope").err(), Some(DeleteError::NotFound));
    assert_eq!(DeleteError::NotFound.message(), "Profile no longer exists.");
}
