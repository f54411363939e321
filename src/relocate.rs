//! Moving a file: rename, or on a cross-device failure copy, compare sizes,
//! and only then delete the source. The file system work is done by the
//! caller; this module decides each next step from what the last one did.
use vstd::prelude::*;

verus! {

#[derive(Clone, Copy, Debug, PartialEq, Eq, Structural)]
pub enum Platform {
    Unix,
    Windows,
    Other,
}

/// The kind of an I/O error, as far as the move decision needs it.
#[derive(Clone, Copy, Debug, PartialEq, Eq, Structural)]
pub enum ErrorClass {
    InvalidInput,
    PermissionDenied,
    Other,
}

/// What a failed rename reported.
#[derive(Clone, Copy, Debug)]
pub struct MoveError {
    pub raw_os_error: Option<i32>,
    pub class: ErrorClass,
}

/// Whether a failed rename may be explained by source and destination lying
/// on different devices: `EXDEV` (18) on Unix, `ERROR_NOT_SAME_DEVICE` (17)
/// on Windows, and on any platform an invalid-input or permission error.
pub open spec fn is_cross_device_spec(e: MoveError, platform: Platform) -> bool {
    ||| (platform == Platform::Unix && e.raw_os_error == Some(18i32))
    ||| (platform == Platform::Windows && e.raw_os_error == Some(17i32))
    ||| e.class == ErrorClass::InvalidInput
    ||| e.class == ErrorClass::PermissionDenied
}

pub fn is_cross_device_error(e: &MoveError, platform: Platform) -> (r: bool)
    ensures
        r == is_cross_device_spec(*e, platform),
{
    let code_says = match e.raw_os_error {
        Some(code) => (platform == Platform::Unix && code == 18) || (platform == Platform::Windows
            && code == 17),
        None => false,
    };
    code_says || e.class == ErrorClass::InvalidInput || e.class == ErrorClass::PermissionDenied
}

/// Why a relocation failed.
#[derive(Clone, Copy, Debug, PartialEq, Eq, Structural)]
pub enum Failure {
    /// The rename failed for a reason other than crossing devices.
    Rename,
    /// Copying the bytes failed; the partial copy was removed.
    Copy,
    /// The sizes of source and copy could not be read; the copy was removed.
    SizeUnknown,
    /// The copy's size differs from the source's; the copy was removed.
    SizeMismatch,
    /// The copy was verified but the source could not be deleted; the copy
    /// was removed.
    SourceNotRemoved,
    /// A copy that failed its checks could not be removed.
    CleanupFailed,
}

/// The step to perform next.
#[derive(Clone, Copy, Debug, PartialEq, Eq, Structural)]
pub enum Stage {
    Rename,
    Copy,
    CompareSizes,
    RemoveSource,
    RemoveCopy(Failure),
}

/// What the last step did.
#[derive(Clone, Copy, Debug)]
pub enum Event {
    Done,
    RenameError(MoveError),
    Error,
    /// Sizes of the source and of the copy, in bytes.
    Sizes(u64, u64),
}

#[derive(Clone, Copy, Debug)]
pub enum Relocation {
    Next(Stage),
    Finished(Result<(), Failure>),
}

pub open spec fn relocation_spec(stage: Stage, event: Event, platform: Platform) -> Relocation {
    match stage {
        Stage::Rename => match event {
            Event::Done => Relocation::Finished(Ok(())),
            Event::RenameError(e) => if is_cross_device_spec(e, platform) {
                Relocation::Next(Stage::Copy)
            } else {
                Relocation::Finished(Err(Failure::Rename))
            },
            _ => Relocation::Finished(Err(Failure::Rename)),
        },
        Stage::Copy => match event {
            Event::Done => Relocation::Next(Stage::CompareSizes),
            _ => Relocation::Next(Stage::RemoveCopy(Failure::Copy)),
        },
        Stage::CompareSizes => match event {
            Event::Sizes(a, b) => if a == b {
                Relocation::Next(Stage::RemoveSource)
            } else {
                Relocation::Next(Stage::RemoveCopy(Failure::SizeMismatch))
            },
            _ => Relocation::Next(Stage::RemoveCopy(Failure::SizeUnknown)),
        },
        Stage::RemoveSource => match event {
            Event::Done => Relocation::Finished(Ok(())),
            _ => Relocation::Next(Stage::RemoveCopy(Failure::SourceNotRemoved)),
        },
        Stage::RemoveCopy(f) => match event {
            Event::Done => Relocation::Finished(Err(f)),
            _ => Relocation::Finished(Err(Failure::CleanupFailed)),
        },
    }
}

/// The next step of a move, from the step just performed and its result.
/// A move starts at `Stage::Rename`.
pub fn relocate_step(stage: Stage, event: Event, platform: Platform) -> (r: Relocation)
    ensures
        r == relocation_spec(stage, event, platform),
{
    match stage {
        Stage::Rename => match event {
            Event::Done => Relocation::Finished(Ok(())),
            Event::RenameError(e) => if is_cross_device_error(&e, platform) {
                Relocation::Next(Stage::Copy)
            } else {
                Relocation::Finished(Err(Failure::Rename))
            },
            _ => Relocation::Finished(Err(Failure::Rename)),
        },
        Stage::Copy => match event {
            Event::Done => Relocation::Next(Stage::CompareSizes),
            _ => Relocation::Next(Stage::RemoveCopy(Failure::Copy)),
        },
        Stage::CompareSizes => match event {
            Event::Sizes(a, b) => if a == b {
                Relocation::Next(Stage::RemoveSource)
            } else {
                Relocation::Next(Stage::RemoveCopy(Failure::SizeMismatch))
            },
            _ => Relocation::Next(Stage::RemoveCopy(Failure::SizeUnknown)),
        },
        Stage::RemoveSource => match event {
            Event::Done => Relocation::Finished(Ok(())),
            _ => Relocation::Next(Stage::RemoveCopy(Failure::SourceNotRemoved)),
        },
        Stage::RemoveCopy(f) => match event {
            Event::Done => Relocation::Finished(Err(f)),
            _ => Relocation::Finished(Err(Failure::CleanupFailed)),
        },
    }
}

/// The two paths of a move: the size of the file at each, or `None` where
/// there is none.
pub struct Files {
    pub source: Option<u64>,
    pub dest: Option<u64>,
}

/// What performing `stage` does to the two paths when it reports `event`.
pub open spec fn step_effect(stage: Stage, event: Event, before: Files, after: Files) -> bool {
    match stage {
        Stage::Rename => match event {
            Event::Done => after.source is None && after.dest == before.source,
            _ => after == before,
        },
        Stage::Copy => after.source == before.source,
        Stage::CompareSizes => match event {
            Event::Sizes(a, b) => after == before && before.source == Some(a) && before.dest
                == Some(b),
            _ => after == before,
        },
        Stage::RemoveSource => match event {
            Event::Done => after.source is None && after.dest == before.dest,
            _ => after == before,
        },
        Stage::RemoveCopy(_) => match event {
            Event::Done => after.source == before.source && after.dest is None,
            _ => after == before,
        },
    }
}

/// What holds of the two paths before each step of a move of a file of
/// `size` bytes.
pub open spec fn stage_holds(stage: Stage, files: Files, size: u64) -> bool {
    match stage {
        Stage::Rename => files.source == Some(size) && files.dest is None,
        Stage::RemoveSource => files.source == Some(size) && files.dest == Some(size),
        _ => files.source == Some(size),
    }
}

/// Each step of a move keeps at least one full copy of the file, and a
/// finished move leaves exactly one: at the destination with the original
/// size when it succeeded, and at the source, with nothing at the
/// destination, when it failed (unless removing a rejected copy itself
/// failed).
pub proof fn lemma_move_keeps_one_copy(
    stage: Stage,
    event: Event,
    platform: Platform,
    before: Files,
    after: Files,
    size: u64,
)
    requires
        stage_holds(stage, before, size),
        step_effect(stage, event, before, after),
    ensures
        match relocation_spec(stage, event, platform) {
            Relocation::Next(s) => stage_holds(s, after, size),
            Relocation::Finished(Ok(())) => after.source is None && after.dest == Some(size),
            Relocation::Finished(Err(f)) => f != Failure::CleanupFailed ==> after.source == Some(
                size,
            ) && after.dest is None,
        },
{
}

} // verus!
