//! Per-entry load pipeline, as a state machine.
//!
//! The pipeline waits for a pacing hook and an admission slot, probes the
//! cache, decodes either the cached artifact or the original entry, resizes
//! and tiles the result, writes the cache back on a miss, and delivers the
//! outcome — but only if the entry's result slot is still alive. The driver
//! performs each ordered action (I/O, decode, waiting) and feeds the outcome
//! back as the next event; every decision lives here.

use vstd::prelude::*;

use crate::loader::ExplorerEntryLoaderSetting;

verus! {

/// Where one entry's load stands.
#[derive(Debug)]
pub enum LoadPhase {
    /// Awaiting the externally supplied pacing hook.
    WaitForThrottle,
    /// Awaiting an admission slot from the semaphore.
    WaitForAdmission,
    /// Consulting the cache for the entry's content id.
    CacheProbe,
    /// Decoding; `from_cache` names the artifact being decoded instead of
    /// the original when the probe hit.
    Decoding { from_cache: Option<String> },
    /// Resizing and tiling the decoded picture.
    PostProcess { used_cache: bool },
    /// Persisting the resized artifact and recording it in the cache.
    Writeback,
    /// About to hand the result to the entry's slot; a failed load delivers
    /// a placeholder.
    Deliver { failed: bool },
    /// Terminal.
    Finished { outcome: LoadOutcome },
}

/// How one entry's load ended.
#[derive(Debug)]
pub enum LoadOutcome {
    /// The result reached the entry's slot.
    Delivered,
    /// No image was found at this entry; the slot shows a placeholder.
    Failed,
    /// The result slot was gone; the work was discarded silently.
    Abandoned,
    /// The admission semaphore closed while waiting; the scheduler is shutting down.
    Cancelled,
}

/// What the driver reports back to the pipeline.
#[derive(Debug)]
pub enum LoadEvent {
    /// The pacing hook resolved.
    ThrottleDone,
    /// The semaphore granted this entry a slot.
    PermitGranted,
    /// The semaphore closed: no slot will ever come.
    SemaphoreClosed,
    /// What the cache said, and whether the named artifact file is still on
    /// disk.
    CacheLookup { artifact: Option<String>, artifact_file_exists: bool },
    /// Whether decoding produced a picture.
    DecodeFinished { ok: bool },
    /// Resizing and tiling finished.
    PostProcessDone,
    /// Whether the artifact write reached the disk; a failed write is
    /// treated exactly like a miss and the load still succeeds.
    WritebackDone { ok: bool },
    /// The entry's result slot is still alive.
    SlotPresent,
    /// The entry's result slot was dropped by its owner.
    SlotVanished,
}

/// What the pipeline orders the driver to do next.
#[derive(Debug)]
pub enum LoadAction {
    /// Await the pacing hook.
    AwaitThrottle,
    /// Acquire an admission slot for this entry's index.
    AcquirePermit,
    /// Look the entry's content id up in the cache and test the artifact
    /// file.
    ProbeCache,
    /// Decode the named cached artifact.
    DecodeArtifact { artifact: String },
    /// Open and decode the original entry.
    DecodeOriginal,
    /// Resize and tile the decoded picture.
    Resize,
    /// Persist the resized artifact and record it, recursively, in the
    /// cache.
    WriteArtifact,
    /// Test whether the entry's result slot is still alive.
    CheckSlot,
    /// Replace the slot's content and request a redraw.
    Deliver,
    /// Do nothing further; any slot is left untouched.
    Discard,
    /// The event did not belong to this phase; nothing changes.
    Stay,
}

/// The transition function: what each event makes of each phase, and what
/// the driver must do next. A vanished result slot abandons the work from
/// any live phase; an event that does not belong to a phase changes nothing.
pub open spec fn spec_step(phase: LoadPhase, event: LoadEvent) -> (LoadPhase, LoadAction) {
    if !(phase is Finished) && event is SlotVanished {
        (LoadPhase::Finished { outcome: LoadOutcome::Abandoned }, LoadAction::Discard)
    } else {
        match (phase, event) {
            (LoadPhase::WaitForThrottle, LoadEvent::ThrottleDone) => (
                LoadPhase::WaitForAdmission,
                LoadAction::AcquirePermit,
            ),
            (LoadPhase::WaitForAdmission, LoadEvent::PermitGranted) => (
                LoadPhase::CacheProbe,
                LoadAction::ProbeCache,
            ),
            (LoadPhase::WaitForAdmission, LoadEvent::SemaphoreClosed) => (
                LoadPhase::Finished { outcome: LoadOutcome::Cancelled },
                LoadAction::Discard,
            ),
            (
                LoadPhase::CacheProbe,
                LoadEvent::CacheLookup { artifact, artifact_file_exists },
            ) => {
                match artifact {
                    Option::Some(a) => {
                        if artifact_file_exists {
                            (
                                LoadPhase::Decoding { from_cache: Option::Some(a) },
                                LoadAction::DecodeArtifact { artifact: a },
                            )
                        } else {
                            // The cache names an artifact that is gone from
                            // disk: fall back to the original so the cache
                            // heals itself.
                            (
                                LoadPhase::Decoding { from_cache: Option::None },
                                LoadAction::DecodeOriginal,
                            )
                        }
                    },
                    Option::None => (
                        LoadPhase::Decoding { from_cache: Option::None },
                        LoadAction::DecodeOriginal,
                    ),
                }
            },
            (LoadPhase::Decoding { from_cache }, LoadEvent::DecodeFinished { ok }) => {
                if ok {
                    (
                        LoadPhase::PostProcess { used_cache: from_cache is Some },
                        LoadAction::Resize,
                    )
                } else {
                    match from_cache {
                        // A stale or corrupt artifact is no failure: try
                        // the original.
                        Option::Some(_) => (
                            LoadPhase::Decoding { from_cache: Option::None },
                            LoadAction::DecodeOriginal,
                        ),
                        // The original did not decode either: the entry
                        // fails, non-fatally, as a placeholder.
                        Option::None => (
                            LoadPhase::Deliver { failed: true },
                            LoadAction::CheckSlot,
                        ),
                    }
                }
            },
            (LoadPhase::PostProcess { used_cache }, LoadEvent::PostProcessDone) => {
                if used_cache {
                    (LoadPhase::Deliver { failed: false }, LoadAction::CheckSlot)
                } else {
                    (LoadPhase::Writeback, LoadAction::WriteArtifact)
                }
            },
            // A failed write is logged by the driver and treated exactly
            // like a miss: the load still succeeds from what was decoded.
            (LoadPhase::Writeback, LoadEvent::WritebackDone { ok: _ }) => (
                LoadPhase::Deliver { failed: false },
                LoadAction::CheckSlot,
            ),
            (LoadPhase::Deliver { failed }, LoadEvent::SlotPresent) => (
                LoadPhase::Finished {
                    outcome: if failed {
                        LoadOutcome::Failed
                    } else {
                        LoadOutcome::Delivered
                    },
                },
                LoadAction::Deliver,
            ),
            (p, _) => (p, LoadAction::Stay),
        }
    }
}

/// One entry's load pipeline: what it loads, where the scheduling session is
/// rooted, its settings, and where it stands.
pub struct ExplorerEntryLoader {
    pub path: Vec<u8>,
    pub root: Vec<u8>,
    pub setting: ExplorerEntryLoaderSetting,
    pub phase: LoadPhase,
}

impl ExplorerEntryLoader {
    /// A fresh pipeline for one entry, waiting for the pacing hook.
    pub fn new(path: Vec<u8>, root: Vec<u8>, setting: ExplorerEntryLoaderSetting) -> (r: Self)
        ensures
            r.path == path,
            r.root == root,
            r.setting == setting,
            r.phase == LoadPhase::WaitForThrottle,
    {
        ExplorerEntryLoader { path, root, setting, phase: LoadPhase::WaitForThrottle }
    }

    /// Feed one event; the pipeline moves as `spec_step` says and answers
    /// with the driver's next action.
    pub fn on_event(&mut self, event: LoadEvent) -> (a: LoadAction)
        ensures
            final(self).phase == spec_step(old(self).phase, event).0,
            a == spec_step(old(self).phase, event).1,
            final(self).path == old(self).path,
            final(self).root == old(self).root,
            final(self).setting == old(self).setting,
    {
        let mut phase = LoadPhase::Finished { outcome: LoadOutcome::Abandoned };
        core::mem::swap(&mut phase, &mut self.phase);
        let finished = matches!(phase, LoadPhase::Finished { .. });
        if !finished && matches!(event, LoadEvent::SlotVanished) {
            self.phase = LoadPhase::Finished { outcome: LoadOutcome::Abandoned };
            return LoadAction::Discard;
        }
        let (next, action): (LoadPhase, LoadAction) = match (phase, event) {
            (LoadPhase::WaitForThrottle, LoadEvent::ThrottleDone) => (
                LoadPhase::WaitForAdmission,
                LoadAction::AcquirePermit,
            ),
            (LoadPhase::WaitForAdmission, LoadEvent::PermitGranted) => (
                LoadPhase::CacheProbe,
                LoadAction::ProbeCache,
            ),
            (LoadPhase::WaitForAdmission, LoadEvent::SemaphoreClosed) => (
                LoadPhase::Finished { outcome: LoadOutcome::Cancelled },
                LoadAction::Discard,
            ),
            (
                LoadPhase::CacheProbe,
                LoadEvent::CacheLookup { artifact, artifact_file_exists },
            ) => {
                match artifact {
                    Some(a) => {
                        if artifact_file_exists {
                            (
                                LoadPhase::Decoding { from_cache: Some(a.clone()) },
                                LoadAction::DecodeArtifact { artifact: a },
                            )
                        } else {
                            (
                                LoadPhase::Decoding { from_cache: None },
                                LoadAction::DecodeOriginal,
                            )
                        }
                    },
                    None => (
                        LoadPhase::Decoding { from_cache: None },
                        LoadAction::DecodeOriginal,
                    ),
                }
            },
            (LoadPhase::Decoding { from_cache }, LoadEvent::DecodeFinished { ok }) => {
                if ok {
                    (
                        LoadPhase::PostProcess { used_cache: from_cache.is_some() },
                        LoadAction::Resize,
                    )
                } else {
                    match from_cache {
                        Some(_) => (
                            LoadPhase::Decoding { from_cache: None },
                            LoadAction::DecodeOriginal,
                        ),
                        None => (LoadPhase::Deliver { failed: true }, LoadAction::CheckSlot),
                    }
                }
            },
            (LoadPhase::PostProcess { used_cache }, LoadEvent::PostProcessDone) => {
                if used_cache {
                    (LoadPhase::Deliver { failed: false }, LoadAction::CheckSlot)
                } else {
                    (LoadPhase::Writeback, LoadAction::WriteArtifact)
                }
            },
            (LoadPhase::Writeback, LoadEvent::WritebackDone { ok: _ }) => (
                LoadPhase::Deliver { failed: false },
                LoadAction::CheckSlot,
            ),
            (LoadPhase::Deliver { failed }, LoadEvent::SlotPresent) => (
                LoadPhase::Finished {
                    outcome: if failed {
                        LoadOutcome::Failed
                    } else {
                        LoadOutcome::Delivered
                    },
                },
                LoadAction::Deliver,
            ),
            (p, _) => (p, LoadAction::Stay),
        };
        self.phase = next;
        action
    }
}

/// A task whose result slot vanished is abandoned: from every live phase the
/// event ends the pipeline without a delivery.
pub proof fn lemma_vanished_slot_is_abandoned(phase: LoadPhase)
    requires
        !(phase is Finished),
    ensures
        spec_step(phase, LoadEvent::SlotVanished).0 == (LoadPhase::Finished {
            outcome: LoadOutcome::Abandoned,
        }),
        spec_step(phase, LoadEvent::SlotVanished).1 == LoadAction::Discard,
{
}

/// Nothing is ever delivered except from the delivery phase upon a live
/// slot: every other phase and event leaves the slot untouched.
pub proof fn lemma_delivery_needs_live_slot(phase: LoadPhase, event: LoadEvent)
    ensures
        spec_step(phase, event).1 == LoadAction::Deliver ==> (phase matches LoadPhase::Deliver {
            ..
        }) && event is SlotPresent,
{
}

/// A cache entry that names a now-deleted artifact heals itself: the probe
/// falls back to the original, a successful decode counts as a miss, and the
/// post-processing step orders the artifact written anew.
pub proof fn lemma_stale_cache_entry_self_heals(a: String)
    ensures
        ({
            let probed = spec_step(
                LoadPhase::CacheProbe,
                LoadEvent::CacheLookup {
                    artifact: Option::Some(a),
                    artifact_file_exists: false,
                },
            );
            let decoded = spec_step(probed.0, LoadEvent::DecodeFinished { ok: true });
            let processed = spec_step(decoded.0, LoadEvent::PostProcessDone);
            &&& probed.1 == LoadAction::DecodeOriginal
            &&& decoded.0 == (LoadPhase::PostProcess { used_cache: false })
            &&& processed.0 == LoadPhase::Writeback
            &&& processed.1 == LoadAction::WriteArtifact
        }),
{
}

} // verus!
