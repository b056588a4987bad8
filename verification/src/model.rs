//! Identities, asset references, job descriptions and error codes of the application domain.

use vstd::prelude::*;

verus! {

/// Identity of one captured or derived image.
#[derive(Debug, Clone, Copy, PartialEq, Eq, Hash, Structural)]
pub struct ImageId {
    pub raw: u64,
}

impl ImageId {
    pub fn from_raw(raw: u64) -> (id: ImageId)
        ensures
            id.raw == raw,
    {
        ImageId { raw }
    }

    pub fn raw(&self) -> (r: u64)
        ensures
            r == self.raw,
    {
        self.raw
    }
}

/// Non-zero version number of an image asset; annotations advance it.
#[derive(Debug, Clone, Copy, PartialEq, Eq, Hash, Structural)]
pub struct AssetGeneration {
    pub raw: u64,
}

impl AssetGeneration {
    /// Generation of a freshly captured asset.
    pub open spec fn initial() -> AssetGeneration {
        AssetGeneration { raw: 1 }
    }

    /// Whether the value is a valid (non-zero) generation.
    pub open spec fn valid(self) -> bool {
        self.raw != 0
    }

    pub fn initial_generation() -> (g: AssetGeneration)
        ensures
            g == AssetGeneration::initial(),
    {
        AssetGeneration { raw: 1 }
    }

    /// Zero is not a generation.
    pub fn from_raw(raw: u64) -> (g: Option<AssetGeneration>)
        ensures
            g == (if raw == 0 {
                None::<AssetGeneration>
            } else {
                Some(AssetGeneration { raw })
            }),
    {
        if raw == 0 {
            None
        } else {
            Some(AssetGeneration { raw })
        }
    }

    pub fn raw(&self) -> (r: u64)
        ensures
            r == self.raw,
    {
        self.raw
    }

    /// The next generation; `None` when the counter is exhausted.
    pub fn advance(&self) -> (g: Option<AssetGeneration>)
        ensures
            g == (if self.raw == u64::MAX {
                None::<AssetGeneration>
            } else {
                Some(AssetGeneration { raw: (self.raw + 1) as u64 })
            }),
    {
        if self.raw == u64::MAX {
            None
        } else {
            Some(AssetGeneration { raw: self.raw + 1 })
        }
    }
}

/// A specific generation of a specific image.
#[derive(Debug, Clone, Copy, PartialEq, Eq, Structural)]
pub struct AssetRef {
    pub image_id: ImageId,
    pub generation: AssetGeneration,
}

impl AssetRef {
    pub fn new(image_id: ImageId, generation: AssetGeneration) -> (a: AssetRef)
        ensures
            a.image_id == image_id,
            a.generation == generation,
    {
        AssetRef { image_id, generation }
    }

    pub fn initial(image_id: ImageId) -> (a: AssetRef)
        ensures
            a.image_id == image_id,
            a.generation == AssetGeneration::initial(),
    {
        AssetRef { image_id, generation: AssetGeneration { raw: 1 } }
    }

    /// The same image at its next generation.
    pub fn advance(&self) -> (a: Option<AssetRef>)
        ensures
            a == (if self.generation.raw == u64::MAX {
                None::<AssetRef>
            } else {
                Some(
                    AssetRef {
                        image_id: self.image_id,
                        generation: AssetGeneration { raw: (self.generation.raw + 1) as u64 },
                    },
                )
            }),
    {
        match self.generation.advance() {
            Some(generation) => Some(AssetRef { image_id: self.image_id, generation }),
            None => None,
        }
    }

    /// A result computed for `submitted` may update this (current) asset only when both
    /// name the same image at the same generation.
    pub open spec fn spec_accepts_result(self, submitted: AssetRef) -> bool {
        self == submitted
    }

    pub fn accepts_result(&self, submitted: AssetRef) -> (b: bool)
        ensures
            b == self.spec_accepts_result(submitted),
    {
        self.image_id.raw == submitted.image_id.raw && self.generation.raw
            == submitted.generation.raw
    }

    pub fn same_as(&self, other: &AssetRef) -> (b: bool)
        ensures
            b == (*self == *other),
    {
        self.image_id.raw == other.image_id.raw && self.generation.raw == other.generation.raw
    }
}

/// Identity of a supervised job.
#[derive(Debug, Clone, Copy, PartialEq, Eq, Hash, Structural)]
pub struct JobId {
    pub raw: u64,
}

impl JobId {
    pub fn from_raw(raw: u64) -> (id: JobId)
        ensures
            id.raw == raw,
    {
        JobId { raw }
    }

    pub fn raw(&self) -> (r: u64)
        ensures
            r == self.raw,
    {
        self.raw
    }
}

/// Correlates a job with the user request that started it.
#[derive(Debug, Clone, Copy, PartialEq, Eq, Hash, Structural)]
pub struct CorrelationId {
    pub raw: u64,
}

impl CorrelationId {
    pub fn from_raw(raw: u64) -> (id: CorrelationId)
        ensures
            id.raw == raw,
    {
        CorrelationId { raw }
    }
}

/// Identity of an overlay selection session.
#[derive(Debug, Clone, Copy, PartialEq, Eq, Hash, Structural)]
pub struct SessionId {
    pub raw: u64,
}

impl SessionId {
    pub fn from_raw(raw: u64) -> (id: SessionId)
        ensures
            id.raw == raw,
    {
        SessionId { raw }
    }
}

/// Identity of a pinned image window.
#[derive(Debug, Clone, Copy, PartialEq, Eq, Hash, Structural)]
pub struct PinId {
    pub raw: u64,
}

impl PinId {
    pub fn from_raw(raw: u64) -> (id: PinId)
        ensures
            id.raw == raw,
    {
        PinId { raw }
    }
}

/// The UI object on whose behalf a job runs; closing it invalidates its jobs.
#[derive(Debug, Clone, Copy, PartialEq, Eq, Hash, Structural)]
pub enum JobOwner {
    Session(SessionId),
    Pin(PinId),
    History(ImageId),
}

impl JobOwner {
    pub fn same_as(&self, other: &JobOwner) -> (b: bool)
        ensures
            b == (*self == *other),
    {
        match (self, other) {
            (JobOwner::Session(a), JobOwner::Session(b)) => a.raw == b.raw,
            (JobOwner::Pin(a), JobOwner::Pin(b)) => a.raw == b.raw,
            (JobOwner::History(a), JobOwner::History(b)) => a.raw == b.raw,
            _ => false,
        }
    }
}

/// What a job does.
#[derive(Debug, Clone, Copy, PartialEq, Eq, Hash, Structural)]
pub enum JobKind {
    Ocr,
    Export,
    Clipboard,
    HistoryLoad,
}

impl JobKind {
    pub fn same_as(&self, other: &JobKind) -> (b: bool)
        ensures
            b == (*self == *other),
    {
        match (self, other) {
            (JobKind::Ocr, JobKind::Ocr) => true,
            (JobKind::Export, JobKind::Export) => true,
            (JobKind::Clipboard, JobKind::Clipboard) => true,
            (JobKind::HistoryLoad, JobKind::HistoryLoad) => true,
            _ => false,
        }
    }
}

/// Frozen description of a job, fixed when it is submitted.
#[derive(Debug, Clone, Copy, PartialEq, Eq, Structural)]
pub struct JobSpec {
    pub id: JobId,
    pub correlation: CorrelationId,
    pub asset: AssetRef,
    pub owner: JobOwner,
    pub kind: JobKind,
    pub deadline_at_ms: u64,
}

impl JobSpec {
    pub fn new(
        id: JobId,
        correlation: CorrelationId,
        asset: AssetRef,
        owner: JobOwner,
        kind: JobKind,
        deadline_at_ms: u64,
    ) -> (s: JobSpec)
        ensures
            s == (JobSpec { id, correlation, asset, owner, kind, deadline_at_ms }),
    {
        JobSpec { id, correlation, asset, owner, kind, deadline_at_ms }
    }

    /// A job is expired from its deadline on.
    pub open spec fn spec_is_expired_at(self, now_ms: u64) -> bool {
        now_ms >= self.deadline_at_ms
    }

    pub fn is_expired_at(&self, now_ms: u64) -> (b: bool)
        ensures
            b == self.spec_is_expired_at(now_ms),
    {
        now_ms >= self.deadline_at_ms
    }
}

/// A worker's claim that it finished the job for the given asset.
#[derive(Debug, Clone, Copy, PartialEq, Eq, Structural)]
pub struct JobResultRef {
    pub job_id: JobId,
    pub asset: AssetRef,
}

impl JobResultRef {
    pub fn new(job_id: JobId, asset: AssetRef) -> (r: JobResultRef)
        ensures
            r.job_id == job_id,
            r.asset == asset,
    {
        JobResultRef { job_id, asset }
    }
}

/// How a job ended. Terminal states are never left.
#[derive(Debug, Clone, Copy, PartialEq, Eq, Hash, Structural)]
pub enum JobTerminalState {
    Completed,
    Cancelled,
    Failed,
    TimedOut,
    OwnerClosed,
    StaleAsset,
}

/// Stable, user-presentable error classification.
#[derive(Debug, Clone, Copy, PartialEq, Eq, Hash, Structural)]
pub enum ErrorCode {
    PermissionDenied,
    CapabilityUnavailable,
    RetryablePlatform,
    TimedOut,
    ClipboardFailed,
    CommandRejected,
    InvalidState,
    ResourceLimitExceeded,
    AlreadyRunning,
    SingleInstanceBusy,
    NotRunning,
    NotFound,
    Cancelled,
    Internal,
}

impl ErrorCode {
    /// The code's stable name, as diagnostics print it.
    pub open spec fn name(self) -> Seq<char> {
        match self {
            ErrorCode::PermissionDenied => "permission_denied"@,
            ErrorCode::CapabilityUnavailable => "capability_unavailable"@,
            ErrorCode::RetryablePlatform => "retryable_platform"@,
            ErrorCode::TimedOut => "timed_out"@,
            ErrorCode::ClipboardFailed => "clipboard_failed"@,
            ErrorCode::CommandRejected => "command_rejected"@,
            ErrorCode::InvalidState => "invalid_state"@,
            ErrorCode::ResourceLimitExceeded => "resource_limit_exceeded"@,
            ErrorCode::AlreadyRunning => "already_running"@,
            ErrorCode::SingleInstanceBusy => "single_instance_busy"@,
            ErrorCode::NotRunning => "not_running"@,
            ErrorCode::NotFound => "not_found"@,
            ErrorCode::Cancelled => "cancelled"@,
            ErrorCode::Internal => "internal"@,
        }
    }

    pub fn as_str(self) -> (s: &'static str)
        ensures
            s@ == self.name(),
    {
        match self {
            ErrorCode::PermissionDenied => "permission_denied",
            ErrorCode::CapabilityUnavailable => "capability_unavailable",
            ErrorCode::RetryablePlatform => "retryable_platform",
            ErrorCode::TimedOut => "timed_out",
            ErrorCode::ClipboardFailed => "clipboard_failed",
            ErrorCode::CommandRejected => "command_rejected",
            ErrorCode::InvalidState => "invalid_state",
            ErrorCode::ResourceLimitExceeded => "resource_limit_exceeded",
            ErrorCode::AlreadyRunning => "already_running",
            ErrorCode::SingleInstanceBusy => "single_instance_busy",
            ErrorCode::NotRunning => "not_running",
            ErrorCode::NotFound => "not_found",
            ErrorCode::Cancelled => "cancelled",
            ErrorCode::Internal => "internal",
        }
    }
}

/// An error with a stable code and a diagnostic message.
#[derive(Debug, Clone, PartialEq, Eq)]
pub struct PinoraError {
    pub code: ErrorCode,
    pub message: String,
}

impl PinoraError {
    pub fn new(code: ErrorCode, message: &str) -> (e: PinoraError)
        ensures
            e.code == code,
            e.message@ == message@,
    {
        PinoraError { code, message: message.to_owned() }
    }
}

} // verus!
