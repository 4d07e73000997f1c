//! Speech recognition that is switched off: requests to load an engine or to
//! transcribe a file are refused, and samples give an empty transcript.

use crate::dev_paths::DirPath;
use parking_lot::Mutex;
use std::sync::Arc;
use vstd::prelude::*;

verus! {

/// Result of a transcription call.
#[derive(Debug, Clone, PartialEq, Eq)]
pub struct TranscriptionResult {
    pub text: String,
    /// Bit pattern of the single-precision average log probability.
    pub avg_logprob: Option<u32>,
    pub segments_accepted: usize,
    pub segments_total: usize,
}

/// Stands where a loaded engine would be.
#[derive(Debug)]
pub struct StubEngine;

/// Why the engine does nothing.
#[derive(Debug, Clone, Copy, PartialEq, Eq, Structural)]
pub enum EngineError {
    /// The recognizer is not part of this build.
    Disabled,
}

impl EngineError {
    /// The error in words.
    pub open spec fn text(self) -> Seq<char> {
        "whisper-rs disabled: requires libclang for whisper-rs-sys build"@
    }

    /// The error in words.
    pub fn message(&self) -> (s: String)
        ensures
            s@ == self.text(),
    {
        "whisper-rs disabled: requires libclang for whisper-rs-sys build".to_owned()
    }
}

/// `lock_api::Mutex`, of which `parking_lot::Mutex` is an instance.
#[verifier::external_type_specification]
#[verifier::external_body]
#[verifier::reject_recursive_types(R)]
#[verifier::reject_recursive_types(T)]
pub struct ExMutex<R, T: ?Sized>(parking_lot::lock_api::Mutex<R, T>);

/// The raw lock inside a `parking_lot::Mutex`.
#[verifier::external_type_specification]
#[verifier::external_body]
pub struct ExRawMutex(parking_lot::RawMutex);

/// Thread-safe handle to an optionally-loaded engine.
pub type WhisperEngineHandle = Arc<Mutex<Option<StubEngine>>>;

/// The engine that a mutex was made around.
pub uninterp spec fn made_around(slot: Mutex<Option<StubEngine>>) -> Option<StubEngine>;

/// `parking_lot::Mutex::new`: an unlocked mutex around the given value. What it
/// holds after somebody has locked it is not stated.
#[verifier::external_body]
fn new_slot(engine: Option<StubEngine>) -> (slot: Mutex<Option<StubEngine>>)
    ensures
        made_around(slot) == engine,
{
    Mutex::new(engine)
}

/// Create a new empty engine handle.
pub fn new_handle() -> (handle: WhisperEngineHandle)
    ensures
        made_around(*handle) is None,
{
    Arc::new(new_slot(None))
}

/// Check if the engine is loaded: it never is.
pub fn is_loaded(_handle: &WhisperEngineHandle) -> (r: bool)
    ensures
        !r,
{
    false
}

/// Load the engine: refused.
pub fn load_engine(
    _handle: &WhisperEngineHandle,
    _model_path: &DirPath,
    _use_gpu: bool,
    _gpu_desc: Option<&str>,
) -> (r: Result<(), EngineError>)
    ensures
        r == Err::<(), EngineError>(EngineError::Disabled),
{
    Err(EngineError::Disabled)
}

/// Transcribe PCM audio: the transcript is empty, of no segments.
pub fn transcribe_pcm_i16(
    _handle: &WhisperEngineHandle,
    _samples: &[i16],
    _language: Option<&str>,
    _prompt: Option<&str>,
) -> (r: Result<TranscriptionResult, EngineError>)
    ensures
        r is Ok,
        r->Ok_0.text@ == Seq::<char>::empty(),
        r->Ok_0.avg_logprob is None,
        r->Ok_0.segments_accepted == 0,
        r->Ok_0.segments_total == 0,
{
    Ok(
        TranscriptionResult {
            text: String::new(),
            avg_logprob: None,
            segments_accepted: 0,
            segments_total: 0,
        },
    )
}

/// Load engine from model path: refused.
pub fn load_engine_from_path(_model_path: &DirPath) -> (r: Result<StubEngine, EngineError>)
    ensures
        r == Err::<StubEngine, EngineError>(EngineError::Disabled),
{
    Err(EngineError::Disabled)
}

/// Transcribe a WAV file: refused, with the reason in words.
pub fn transcribe_wav_file(
    _handle: &WhisperEngineHandle,
    _wav_path: &DirPath,
    _language: Option<&str>,
    _prompt: Option<&str>,
) -> (r: Result<TranscriptionResult, String>)
    ensures
        r is Err,
        r->Err_0@ == EngineError::Disabled.text(),
{
    Err(EngineError::Disabled.message())
}

/// However often and with whatever arguments an engine is asked for, every request
/// is refused with the same words, and a handle that was made empty counts as not
/// loaded.
pub proof fn law_loading_never_succeeds(
    handle: WhisperEngineHandle,
    model_paths: Seq<DirPath>,
    use_gpu: Seq<bool>,
    gpu_descs: Seq<Option<&str>>,
    results: Seq<Result<(), EngineError>>,
    loaded: bool,
    i: int,
)
    requires
        call_ensures(new_handle, (), handle),
        forall|k: int|
            0 <= k < results.len() ==> call_ensures(
                load_engine,
                (&handle, &model_paths[k], use_gpu[k], gpu_descs[k]),
                #[trigger] results[k],
            ),
        call_ensures(is_loaded, (&handle,), loaded),
        0 <= i < results.len(),
    ensures
        made_around(*handle) is None,
        results[i] is Err,
        results[i]->Err_0.text()
            == "whisper-rs disabled: requires libclang for whisper-rs-sys build"@,
        !loaded,
{
}

} // verus!
