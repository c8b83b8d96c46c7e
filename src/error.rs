use vstd::prelude::*;

verus! {

/// The engine's status code for a call that succeeded.
pub const RESULT_SUCCESS: u32 = 0;

/// The engine's status code for a library built against another embedder API.
pub const RESULT_INVALID_LIBRARY_VERSION: u32 = 1;

/// The engine's status code for arguments it could not accept.
pub const RESULT_INVALID_ARGUMENTS: u32 = 2;

/// The engine's status code for a broken internal invariant.
pub const RESULT_INTERNAL_INCONSISTENCY: u32 = 3;

/// A failure reported by the engine through one of its status codes.
#[derive(Debug, Clone, Copy, PartialEq, Eq, Structural)]
pub enum FlutterEngineError {
    InvalidLibraryVersion,
    InvalidArguments,
    InternalInconsistency,
    Unknown(u32),
}

pub type FlutterEngineResult = Result<(), FlutterEngineError>;

/// What a raw engine status code means.
pub open spec fn engine_result_of(code: u32) -> FlutterEngineResult {
    if code == RESULT_SUCCESS {
        Ok(())
    } else if code == RESULT_INVALID_LIBRARY_VERSION {
        Err(FlutterEngineError::InvalidLibraryVersion)
    } else if code == RESULT_INVALID_ARGUMENTS {
        Err(FlutterEngineError::InvalidArguments)
    } else if code == RESULT_INTERNAL_INCONSISTENCY {
        Err(FlutterEngineError::InternalInconsistency)
    } else {
        Err(FlutterEngineError::Unknown(code))
    }
}

/// Turns a raw status code returned across the engine boundary into a typed result.
pub trait FFIFlutterEngineResultExt: Sized {
    spec fn engine_result(&self) -> FlutterEngineResult;

    fn into_flutter_engine_result(self) -> (r: FlutterEngineResult)
        ensures
            r == self.engine_result(),
    ;
}

impl FFIFlutterEngineResultExt for u32 {
    open spec fn engine_result(&self) -> FlutterEngineResult {
        engine_result_of(*self)
    }

    fn into_flutter_engine_result(self) -> (r: FlutterEngineResult) {
        if self == RESULT_SUCCESS {
            Ok(())
        } else if self == RESULT_INVALID_LIBRARY_VERSION {
            Err(FlutterEngineError::InvalidLibraryVersion)
        } else if self == RESULT_INVALID_ARGUMENTS {
            Err(FlutterEngineError::InvalidArguments)
        } else if self == RESULT_INTERNAL_INCONSISTENCY {
            Err(FlutterEngineError::InternalInconsistency)
        } else {
            Err(FlutterEngineError::Unknown(self))
        }
    }
}

/// Why an embedding session has to end.
#[derive(Debug, Clone, Copy, PartialEq, Eq, Structural)]
pub enum EmbedderError {
    /// A call into the engine failed.
    Engine(FlutterEngineError),
    /// The engine handed over a structure smaller than the one this embedder fills.
    InvalidBackingStoreAbi,
    /// The engine referred to a backing store that was never created or already collected.
    UnknownBackingStore,
    /// A task the engine posted could not reach the task runner.
    TaskPostFailed,
    /// Every backing-store token has been handed out.
    BackingStoresExhausted,
    /// Binding a GPU context or swapping a surface's buffers failed.
    GpuBindingFailed,
    /// Every sender of the termination channel was dropped without a message.
    TerminateChannelClosed,
}

/// How the session ends once the termination channel yields `message`
/// (`None` when the channel closed).
pub open spec fn session_outcome(message: Option<Result<(), EmbedderError>>) -> Result<(), EmbedderError> {
    match message {
        None => Err(EmbedderError::TerminateChannelClosed),
        Some(r) => r,
    }
}

/// Decides how the session ends from what the termination channel delivered:
/// a closed channel and a reported error both end it with a failure.
pub fn session_result(message: Option<Result<(), EmbedderError>>) -> (r: Result<(), EmbedderError>)
    ensures
        r == session_outcome(message),
{
    match message {
        None => Err(EmbedderError::TerminateChannelClosed),
        Some(r) => r,
    }
}

/// Lifts an engine status code into the embedder's error type.
pub fn check_engine_call(code: u32) -> (r: Result<(), EmbedderError>)
    ensures
        r == match engine_result_of(code) {
            Ok(()) => Ok(()),
            Err(e) => Err(EmbedderError::Engine(e)),
        },
{
    match code.into_flutter_engine_result() {
        Ok(()) => Ok(()),
        Err(e) => Err(EmbedderError::Engine(e)),
    }
}

} // verus!
