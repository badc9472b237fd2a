use fmr::loader::ExplorerEntryLoaderSetting;
use fmr::pipeline::{ExplorerEntryLoader, LoadAction, LoadEvent, LoadOutcome, LoadPhase};

fn fresh() -> ExplorerEntryLoader {
    ExplorerEntryLoader::new(
        b"/a/dir/img.png".to_vec(),
        b"/a/dir".to_vec(),
        ExplorerEntryLoaderSetting::default(),
    )
}

#[test]
fn the_happy_path_runs_to_a_delivery() {
    let mut loader = fresh();
    assert!(matches!(loader.on_event(LoadEvent::ThrottleDone), LoadAction::AcquirePermit));
    assert!(matches!(loader.on_event(LoadEvent::PermitGranted), LoadAction::ProbeCache));
    let action = loader.on_event(LoadEvent::CacheLookup { artifact: None, artifact_file_exists: false });
    assert!(matches!(action, LoadAction::DecodeOriginal));
    assert!(matches!(loader.on_event(LoadEvent::DecodeFinished { ok: true }), LoadAction::Resize));
    assert!(matches!(loader.on_event(LoadEvent::PostProcessDone), LoadAction::WriteArtifact));
    assert!(matches!(loader.on_event(LoadEvent::WritebackDone { ok: true }), LoadAction::CheckSlot));
    assert!(matches!(loader.on_event(LoadEvent::SlotPresent), LoadAction::Deliver));
    assert!(matches!(loader.phase, LoadPhase::Finished { outcome: LoadOutcome::Delivered }));
}

#[test]
fn a_cache_hit_skips_the_writeback() {
    let mut loader = fresh();
    loader.on_event(LoadEvent::ThrottleDone);
    loader.on_event(LoadEvent::PermitGranted);
    let action = loader.on_event(LoadEvent::CacheLookup {
        artifact: Some("deadbeef".to_string()),
        artifact_file_exists: true,
    });
    assert!(matches!(action, LoadAction::DecodeArtifact { artifact } if artifact == "deadbeef"));
    assert!(matches!(loader.on_event(LoadEvent::DecodeFinished { ok: true }), LoadAction::Resize));
    assert!(matches!(loader.on_event(LoadEvent::PostProcessDone), LoadAction::CheckSlot));
    assert!(matches!(loader.on_event(LoadEvent::SlotPresent), LoadAction::Deliver));
    assert!(matches!(loader.phase, LoadPhase::Finished { outcome: LoadOutcome::Delivered }));
}

#[test]
fn a_cache_entry_for_a_deleted_artifact_self_heals() {
    let mut loader = fresh();
    loader.on_event(LoadEvent::ThrottleDone);
    loader.on_event(LoadEvent::PermitGranted);
    // The cache names an artifact, but the artifact file is gone from disk.
    let action = loader.on_event(LoadEvent::CacheLookup {
        artifact: Some("deadbeef".to_string()),
        artifact_file_exists: false,
    });
    assert!(matches!(action, LoadAction::DecodeOriginal));
    assert!(matches!(loader.on_event(LoadEvent::DecodeFinished { ok: true }), LoadAction::Resize));
    // Counted as a miss: the artifact is written anew.
    assert!(matches!(loader.on_event(LoadEvent::PostProcessDone), LoadAction::WriteArtifact));
}

#[test]
fn a_corrupt_artifact_falls_back_to_the_original() {
    let mut loader = fresh();
    loader.on_event(LoadEvent::ThrottleDone);
    loader.on_event(LoadEvent::PermitGranted);
    loader.on_event(LoadEvent::CacheLookup {
        artifact: Some("deadbeef".to_string()),
        artifact_file_exists: true,
    });
    let action = loader.on_event(LoadEvent::DecodeFinished { ok: false });
    assert!(matches!(action, LoadAction::DecodeOriginal));
    loader.on_event(LoadEvent::DecodeFinished { ok: true });
    assert!(matches!(loader.on_event(LoadEvent::PostProcessDone), LoadAction::WriteArtifact));
}

#[test]
fn an_unreadable_entry_fails_without_aborting() {
    let mut loader = fresh();
    loader.on_event(LoadEvent::ThrottleDone);
    loader.on_event(LoadEvent::PermitGranted);
    loader.on_event(LoadEvent::CacheLookup { artifact: None, artifact_file_exists: false });
    assert!(matches!(loader.on_event(LoadEvent::DecodeFinished { ok: false }), LoadAction::CheckSlot));
    assert!(matches!(loader.on_event(LoadEvent::SlotPresent), LoadAction::Deliver));
    assert!(matches!(loader.phase, LoadPhase::Finished { outcome: LoadOutcome::Failed }));
}

#[test]
fn a_failed_writeback_still_delivers_the_load() {
    let mut loader = fresh();
    loader.on_event(LoadEvent::ThrottleDone);
    loader.on_event(LoadEvent::PermitGranted);
    loader.on_event(LoadEvent::CacheLookup { artifact: None, artifact_file_exists: false });
    loader.on_event(LoadEvent::DecodeFinished { ok: true });
    loader.on_event(LoadEvent::PostProcessDone);
    assert!(matches!(loader.on_event(LoadEvent::WritebackDone { ok: false }), LoadAction::CheckSlot));
    assert!(matches!(loader.on_event(LoadEvent::SlotPresent), LoadAction::Deliver));
    assert!(matches!(loader.phase, LoadPhase::Finished { outcome: LoadOutcome::Delivered }));
}

#[test]
fn a_vanished_slot_is_abandoned_without_delivery() {
    // At the delivery step itself.
    let mut loader = fresh();
    loader.on_event(LoadEvent::ThrottleDone);
    loader.on_event(LoadEvent::PermitGranted);
    loader.on_event(LoadEvent::CacheLookup { artifact: None, artifact_file_exists: false });
    loader.on_event(LoadEvent::DecodeFinished { ok: true });
    loader.on_event(LoadEvent::PostProcessDone);
    loader.on_event(LoadEvent::WritebackDone { ok: true });
    assert!(matches!(loader.on_event(LoadEvent::SlotVanished), LoadAction::Discard));
    assert!(matches!(loader.phase, LoadPhase::Finished { outcome: LoadOutcome::Abandoned }));

    // And at every earlier suspension point too.
    let mut early = fresh();
    assert!(matches!(early.on_event(LoadEvent::SlotVanished), LoadAction::Discard));
    assert!(matches!(early.phase, LoadPhase::Finished { outcome: LoadOutcome::Abandoned }));
}

#[test]
fn a_closed_semaphore_is_a_clean_cancellation() {
    let mut loader = fresh();
    loader.on_event(LoadEvent::ThrottleDone);
    assert!(matches!(loader.on_event(LoadEvent::SemaphoreClosed), LoadAction::Discard));
    assert!(matches!(loader.phase, LoadPhase::Finished { outcome: LoadOutcome::Cancelled }));
}

#[test]
fn an_event_that_does_not_belong_changes_nothing() {
    let mut loader = fresh();
    assert!(matches!(loader.on_event(LoadEvent::PostProcessDone), LoadAction::Stay));
    assert!(matches!(loader.phase, LoadPhase::WaitForThrottle));
}
