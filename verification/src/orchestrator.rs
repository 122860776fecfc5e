//! The playback orchestrator: admission, clip resolution, and the
//! undo-on-failure discipline that keeps the session registry consistent.

use vstd::prelude::*;
use crate::catalog::{dedup_first, SoundCatalog};
use crate::registry::SessionRegistry;

verus! {

/// The typed result of one playback request.
#[derive(Debug, PartialEq, Eq)]
pub enum Outcome {
    /// Playback started; the completion handler will release the guild.
    Started,
    /// Admission was refused: the guild already has an active session.
    AlreadyPlaying,
    /// The clip name is absent from the catalog, even after one resync.
    NotFound(String),
    /// The audio layer could not open the clip as a stream.
    StreamOpenFailed(String),
    /// The gateway layer could not join the target voice channel.
    JoinFailed(String),
}

/// The catalog after clip resolution: unchanged on a hit, replaced by the
/// deduplicated fresh listing after the one resync a miss triggers.
pub open spec fn resolved_catalog(
    cat: Seq<Seq<char>>,
    name: Seq<char>,
    fresh: Seq<Seq<char>>,
) -> Seq<Seq<char>> {
    if cat.contains(name) {
        cat
    } else {
        dedup_first(fresh)
    }
}

/// Where a playback request stands after admission and the first catalog
/// lookup.
#[derive(Debug, PartialEq, Eq, Structural)]
pub enum Admission {
    /// The guild already has a session; nothing was reserved.
    Refused,
    /// The guild is reserved and the clip is in the catalog: the caller
    /// may open the stream and join.
    Ready,
    /// The guild is reserved but the clip is not in the catalog: the
    /// caller must re-scan the store once and hand the listing to
    /// `resolve_with_listing` before concluding the clip does not exist.
    NeedListing,
}

/// The first steps of a playback request: admission, then the catalog
/// lookup. On a refusal nothing changes; otherwise the guild is reserved,
/// and stays reserved until the caller either starts playback, reports a
/// failed step by releasing the guild, or learns from
/// `resolve_with_listing` that the clip does not exist.
pub fn begin_play(
    registry: &mut SessionRegistry,
    catalog: &SoundCatalog,
    guild_id: u64,
    clip_name: &str,
) -> (a: Admission)
    requires
        old(registry).wf(),
    ensures
        final(registry).wf(),
        old(registry).is_busy(guild_id) ==> a == Admission::Refused && final(registry)@ == old(
            registry,
        )@,
        !old(registry).is_busy(guild_id) ==> final(registry).is_busy(guild_id) && a == (
        if catalog.has(clip_name@) {
            Admission::Ready
        } else {
            Admission::NeedListing
        }),
        forall|g: u64| g != guild_id ==> final(registry).is_busy(g) == old(registry).is_busy(g),
{
    if !registry.try_acquire(guild_id) {
        Admission::Refused
    } else if catalog.contains(clip_name) {
        Admission::Ready
    } else {
        Admission::NeedListing
    }
}

/// The one resync a catalog miss triggers: replaces the catalog with the
/// fresh listing and looks the clip up again. On a second miss the
/// guild's reservation is undone, so a clip that truly does not exist
/// never leaves the guild busy.
pub fn resolve_with_listing(
    registry: &mut SessionRegistry,
    catalog: &mut SoundCatalog,
    guild_id: u64,
    clip_name: &str,
    fresh_listing: Vec<String>,
) -> (found: bool)
    requires
        old(registry).wf(),
    ensures
        final(registry).wf(),
        final(catalog).wf(),
        final(catalog)@ == dedup_first(fresh_listing.deep_view()),
        found == final(catalog).has(clip_name@),
        found ==> final(registry)@ == old(registry)@,
        !found ==> !final(registry).is_busy(guild_id),
        forall|g: u64| g != guild_id ==> final(registry).is_busy(g) == old(registry).is_busy(g),
{
    catalog.resync(fresh_listing);
    if catalog.contains(clip_name) {
        true
    } else {
        registry.release(guild_id);
        false
    }
}

/// One playback request for a guild: admission check, clip resolution
/// (with one lazy resync on a miss), stream open, join, start.
///
/// This is the whole request in one call, for callers that already know
/// what the external layers answered: `fresh_listing` is what a re-scan
/// of the clip store returns (read only when the catalog misses), and
/// `open_result` / `join_result` report what the audio and gateway layers
/// answered. A caller that must perform those effects between the
/// decisions drives the same steps itself: `begin_play`,
/// `resolve_with_listing`, `SessionRegistry::release` on a failed step,
/// and `handle_stream_end` when the stream ends. Either way the registry
/// stays consistent: no failure path leaves the guild busy, and only a
/// started session does.
pub fn play(
    registry: &mut SessionRegistry,
    catalog: &mut SoundCatalog,
    guild_id: u64,
    clip_name: &str,
    fresh_listing: Vec<String>,
    open_result: Result<(), String>,
    join_result: Result<(), String>,
) -> (outcome: Outcome)
    requires
        old(registry).wf(),
        old(catalog).wf(),
    ensures
        final(registry).wf(),
        final(catalog).wf(),
        old(registry).is_busy(guild_id) ==> outcome == Outcome::AlreadyPlaying
            && final(registry)@ == old(registry)@ && final(catalog)@ == old(catalog)@,
        !old(registry).is_busy(guild_id) ==> final(catalog)@ == resolved_catalog(
            old(catalog)@,
            clip_name@,
            fresh_listing.deep_view(),
        ),
        !old(registry).is_busy(guild_id) ==> {
            let resolved = resolved_catalog(old(catalog)@, clip_name@, fresh_listing.deep_view());
            if !resolved.contains(clip_name@) {
                outcome matches Outcome::NotFound(n) && n@ == clip_name@
            } else if open_result is Err {
                outcome matches Outcome::StreamOpenFailed(c) && c == open_result->Err_0
            } else if join_result is Err {
                outcome matches Outcome::JoinFailed(c) && c == join_result->Err_0
            } else {
                outcome == Outcome::Started
            }
        },
        !old(registry).is_busy(guild_id)
            ==> final(registry).is_busy(guild_id) == (outcome == Outcome::Started),
        forall|g: u64| g != guild_id ==> final(registry).is_busy(g) == old(registry).is_busy(g),
{
    match begin_play(registry, catalog, guild_id, clip_name) {
        Admission::Refused => {
            return Outcome::AlreadyPlaying;
        },
        Admission::Ready => {},
        Admission::NeedListing => {
            if !resolve_with_listing(registry, catalog, guild_id, clip_name, fresh_listing) {
                return Outcome::NotFound(clip_name.to_owned());
            }
        },
    }
    match open_result {
        Err(e) => {
            registry.release(guild_id);
            return Outcome::StreamOpenFailed(e);
        },
        Ok(()) => {},
    }
    match join_result {
        Err(e) => {
            registry.release(guild_id);
            return Outcome::JoinFailed(e);
        },
        Ok(()) => {},
    }
    Outcome::Started
}

/// The completion handler's registry effect, fired when a started stream
/// ends or is torn down from outside: the guild is released and reports
/// whether a voice connection was still recorded, so the caller knows to
/// leave the voice channel. Invoked twice, the second call finds the guild
/// idle, asks for no leave, and changes nothing.
pub fn handle_stream_end(registry: &mut SessionRegistry, guild_id: u64) -> (should_leave: bool)
    requires
        old(registry).wf(),
    ensures
        final(registry).wf(),
        should_leave == old(registry).is_busy(guild_id),
        !final(registry).is_busy(guild_id),
        forall|g: u64| g != guild_id ==> final(registry).is_busy(g) == old(registry).is_busy(g),
        !old(registry).is_busy(guild_id) ==> final(registry)@ == old(registry)@,
{
    let was_busy = registry.is_active(guild_id);
    registry.release(guild_id);
    was_busy
}

} // verus!
