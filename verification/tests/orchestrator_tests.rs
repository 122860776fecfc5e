use soundboard::catalog::SoundCatalog;
use soundboard::orchestrator::{
    begin_play, handle_stream_end, play, resolve_with_listing, Admission, Outcome,
};
use soundboard::registry::SessionRegistry;

fn strings(names: &[&str]) -> Vec<String> {
    names.iter().map(|s| s.to_string()).collect()
}

const GUILD: u64 = 11;

#[test]
fn play_on_a_busy_guild_reports_already_playing() {
    let mut reg = SessionRegistry::new();
    let mut cat = SoundCatalog::load(strings(&["airhorn"]));
    assert!(reg.try_acquire(GUILD));
    let outcome = play(
        &mut reg,
        &mut cat,
        GUILD,
        "airhorn",
        strings(&["airhorn"]),
        Ok(()),
        Ok(()),
    );
    assert_eq!(outcome, Outcome::AlreadyPlaying);
    assert!(reg.is_active(GUILD));
}

#[test]
fn play_of_a_missing_clip_reports_not_found_and_leaves_guild_idle() {
    let mut reg = SessionRegistry::new();
    let mut cat = SoundCatalog::load(strings(&["airhorn"]));
    let outcome = play(
        &mut reg,
        &mut cat,
        GUILD,
        "nonexistent",
        strings(&["airhorn"]),
        Ok(()),
        Ok(()),
    );
    assert_eq!(outcome, Outcome::NotFound("nonexistent".to_string()));
    assert!(!reg.is_active(GUILD));
}

#[test]
fn a_miss_triggers_one_resync_and_a_fresh_clip_is_found() {
    let mut reg = SessionRegistry::new();
    let mut cat = SoundCatalog::load(strings(&["airhorn"]));
    let outcome = play(
        &mut reg,
        &mut cat,
        GUILD,
        "tada",
        strings(&["airhorn", "tada"]),
        Ok(()),
        Ok(()),
    );
    assert_eq!(outcome, Outcome::Started);
    assert!(reg.is_active(GUILD));
    assert!(cat.contains("tada"));
}

#[test]
fn a_hit_does_not_resync() {
    let mut reg = SessionRegistry::new();
    let mut cat = SoundCatalog::load(strings(&["airhorn"]));
    let outcome = play(
        &mut reg,
        &mut cat,
        GUILD,
        "airhorn",
        strings(&["something-else"]),
        Ok(()),
        Ok(()),
    );
    assert_eq!(outcome, Outcome::Started);
    assert!(cat.contains("airhorn"));
    assert!(!cat.contains("something-else"));
}

#[test]
fn a_failed_stream_open_releases_the_guild() {
    let mut reg = SessionRegistry::new();
    let mut cat = SoundCatalog::load(strings(&["airhorn"]));
    let outcome = play(
        &mut reg,
        &mut cat,
        GUILD,
        "airhorn",
        strings(&["airhorn"]),
        Err("decoder went away".to_string()),
        Ok(()),
    );
    assert_eq!(
        outcome,
        Outcome::StreamOpenFailed("decoder went away".to_string())
    );
    assert!(!reg.is_active(GUILD));
}

#[test]
fn a_failed_join_releases_the_guild_immediately() {
    let mut reg = SessionRegistry::new();
    let mut cat = SoundCatalog::load(strings(&["airhorn"]));
    let outcome = play(
        &mut reg,
        &mut cat,
        GUILD,
        "airhorn",
        strings(&["airhorn"]),
        Ok(()),
        Err("permission denied".to_string()),
    );
    assert_eq!(outcome, Outcome::JoinFailed("permission denied".to_string()));
    assert!(!reg.is_active(GUILD));
}

#[test]
fn a_started_session_is_busy_until_the_stream_ends() {
    let mut reg = SessionRegistry::new();
    let mut cat = SoundCatalog::load(strings(&["airhorn"]));
    let outcome = play(
        &mut reg,
        &mut cat,
        GUILD,
        "airhorn",
        strings(&["airhorn"]),
        Ok(()),
        Ok(()),
    );
    assert_eq!(outcome, Outcome::Started);
    assert!(reg.is_active(GUILD));

    let second = play(
        &mut reg,
        &mut cat,
        GUILD,
        "airhorn",
        strings(&["airhorn"]),
        Ok(()),
        Ok(()),
    );
    assert_eq!(second, Outcome::AlreadyPlaying);

    assert!(handle_stream_end(&mut reg, GUILD));
    assert!(!reg.is_active(GUILD));
}

#[test]
fn stream_end_is_tolerated_twice() {
    let mut reg = SessionRegistry::new();
    let mut cat = SoundCatalog::load(strings(&["airhorn"]));
    let outcome = play(
        &mut reg,
        &mut cat,
        GUILD,
        "airhorn",
        strings(&["airhorn"]),
        Ok(()),
        Ok(()),
    );
    assert_eq!(outcome, Outcome::Started);
    assert!(handle_stream_end(&mut reg, GUILD));
    assert!(!handle_stream_end(&mut reg, GUILD));
    assert!(!reg.is_active(GUILD));
}

#[test]
fn stepwise_protocol_reserves_then_plays() {
    let mut reg = SessionRegistry::new();
    let cat = SoundCatalog::load(strings(&["airhorn"]));
    assert_eq!(begin_play(&mut reg, &cat, GUILD, "airhorn"), Admission::Ready);
    assert!(reg.is_active(GUILD));
    // The caller opens the stream and joins here; on success the guild
    // stays reserved until the stream ends.
    assert!(handle_stream_end(&mut reg, GUILD));
    assert!(!reg.is_active(GUILD));
}

#[test]
fn stepwise_protocol_refuses_a_busy_guild() {
    let mut reg = SessionRegistry::new();
    let cat = SoundCatalog::load(strings(&["airhorn"]));
    assert!(reg.try_acquire(GUILD));
    assert_eq!(
        begin_play(&mut reg, &cat, GUILD, "airhorn"),
        Admission::Refused
    );
    assert!(reg.is_active(GUILD));
}

#[test]
fn stepwise_protocol_resyncs_once_on_a_miss() {
    let mut reg = SessionRegistry::new();
    let mut cat = SoundCatalog::load(strings(&["airhorn"]));
    assert_eq!(begin_play(&mut reg, &cat, GUILD, "tada"), Admission::NeedListing);
    assert!(reg.is_active(GUILD));
    assert!(resolve_with_listing(
        &mut reg,
        &mut cat,
        GUILD,
        "tada",
        strings(&["airhorn", "tada"]),
    ));
    assert!(reg.is_active(GUILD));
    assert!(cat.contains("tada"));
}

#[test]
fn stepwise_protocol_releases_on_a_confirmed_miss() {
    let mut reg = SessionRegistry::new();
    let mut cat = SoundCatalog::load(strings(&["airhorn"]));
    assert_eq!(
        begin_play(&mut reg, &cat, GUILD, "nonexistent"),
        Admission::NeedListing
    );
    assert!(!resolve_with_listing(
        &mut reg,
        &mut cat,
        GUILD,
        "nonexistent",
        strings(&["airhorn"]),
    ));
    assert!(!reg.is_active(GUILD));
}

#[test]
fn repeated_play_requests_start_exactly_one_session() {
    let mut reg = SessionRegistry::new();
    let mut cat = SoundCatalog::load(strings(&["airhorn"]));
    let mut started = 0;
    let mut refused = 0;
    for _ in 0..10 {
        match play(
            &mut reg,
            &mut cat,
            GUILD,
            "airhorn",
            strings(&["airhorn"]),
            Ok(()),
            Ok(()),
        ) {
            Outcome::Started => started += 1,
            Outcome::AlreadyPlaying => refused += 1,
            other => panic!("unexpected outcome {other:?}"),
        }
    }
    assert_eq!(started, 1);
    assert_eq!(refused, 9);
    assert!(reg.is_active(GUILD));
}

#[test]
fn failures_do_not_touch_other_guilds() {
    let mut reg = SessionRegistry::new();
    let mut cat = SoundCatalog::load(strings(&["airhorn"]));
    assert!(reg.try_acquire(99));
    let outcome = play(
        &mut reg,
        &mut cat,
        GUILD,
        "airhorn",
        strings(&["airhorn"]),
        Ok(()),
        Err("channel full".to_string()),
    );
    assert_eq!(outcome, Outcome::JoinFailed("channel full".to_string()));
    assert!(!reg.is_active(GUILD));
    assert!(reg.is_active(99));
}
