//! One shared stream that delivers microphone and system audio at once, and what its
//! worker reports.

use crate::capture_error::{CaptureError, TccService};
use crate::frame::{CapturedFrameRecord, FrameStamper};
use crate::rebinding::BindingKind;
use vstd::prelude::*;

verus! {

/// Which outputs to enable on the shared stream.
#[derive(Debug, Clone, Copy, PartialEq, Eq, Structural)]
pub struct StreamOutputs {
    pub microphone: bool,
    pub system_audio: bool,
}

/// How a capture worker ended.
#[derive(Debug, Clone, Copy, PartialEq, Eq, Structural)]
pub enum CaptureExit {
    StoppedByRequest,
    DeviceLost,
    /// A permission was denied, or withdrawn during the session.
    PermissionDenied,
}

/// What a worker sends over its channel. `S` is the sample type.
#[derive(Debug, Clone, PartialEq)]
pub enum CaptureEvent<S> {
    Frame { record: CapturedFrameRecord, samples: Vec<S> },
    StreamStarted {
        stream: BindingKind,
        sample_rate: u32,
        channels: u16,
        /// The engine's nominal callback interval.
        nominal_frame_interval_ns: u64,
    },
    StreamError { stream: BindingKind, error: String },
    StreamStopped { stream: BindingKind, exit: CaptureExit },
}

/// What a worker leaves behind; this, and not the events, is what counts as its end.
#[derive(Debug, Clone, PartialEq, Eq)]
pub enum CaptureThreadOutcome {
    Stopped { exit: CaptureExit },
    Errored { error: CaptureError },
}

/// A stop notification: once given, it stays given.
#[derive(Debug, Clone, PartialEq, Eq)]
pub struct StopSignal {
    pub stopped: bool,
}

impl StopSignal {
    pub fn new() -> (signal: Self)
        ensures
            !signal.stopped,
    {
        StopSignal { stopped: false }
    }

    pub fn signal(&mut self)
        ensures
            final(self).stopped,
    {
        self.stopped = true;
    }

    pub fn is_signaled(&self) -> (signaled: bool)
        ensures
            signaled == self.stopped,
    {
        self.stopped
    }

    /// The result of a wait that began in this state and, where it had to wait, ended
    /// by running out of time or not.
    pub fn wait_timeout(&self, timed_out: bool) -> (signaled: bool)
        ensures
            signaled == (self.stopped || !timed_out),
    {
        if self.is_signaled() {
            return true;
        }
        !timed_out
    }
}

impl Default for StopSignal {
    fn default() -> (signal: Self)
        ensures
            !signal.stopped,
    {
        StopSignal::new()
    }
}

/// The bindings that a stream with these outputs serves, in order.
pub open spec fn served(outputs: StreamOutputs, system_audio: BindingKind) -> Seq<BindingKind> {
    (if outputs.microphone {
        seq![BindingKind::Microphone]
    } else {
        Seq::empty()
    }) + (if outputs.system_audio {
        seq![system_audio]
    } else {
        Seq::empty()
    })
}

/// The bindings that a stream delivers frames for. One stream can serve two.
pub fn bindings(outputs: StreamOutputs, system_audio_binding: BindingKind) -> (kinds: Vec<
    BindingKind,
>)
    ensures
        kinds@ == served(outputs, system_audio_binding),
{
    let mut kinds: Vec<BindingKind> = Vec::new();
    if outputs.microphone {
        kinds.push(BindingKind::Microphone);
    }
    if outputs.system_audio {
        kinds.push(system_audio_binding);
    }
    assert(kinds@ =~= served(outputs, system_audio_binding));
    kinds
}

/// A fresh stamper for each binding that a stream serves, under the binding's own epoch.
/// The outputs share one stream, but each binding has an epoch of its own.
pub fn stampers(
    outputs: StreamOutputs,
    system_audio_binding: BindingKind,
    channels: u16,
    microphone_epoch: Option<u64>,
    system_audio_epoch: Option<u64>,
) -> (stampers: Vec<FrameStamper>)
    requires
        outputs.microphone ==> microphone_epoch is Some,
        outputs.system_audio ==> system_audio_epoch is Some,
    ensures
        stampers@.len() == served(outputs, system_audio_binding).len(),
        outputs.microphone ==> stampers@[0] == (FrameStamper {
            binding: BindingKind::Microphone,
            channels,
            capture_epoch: microphone_epoch->0,
            packet_seq: 0,
            device_position_frames: 0,
        }),
        outputs.system_audio ==> stampers@.last() == (FrameStamper {
            binding: system_audio_binding,
            channels,
            capture_epoch: system_audio_epoch->0,
            packet_seq: 0,
            device_position_frames: 0,
        }),
{
    let mut stampers: Vec<FrameStamper> = Vec::new();
    if outputs.microphone {
        stampers.push(
            FrameStamper::new(BindingKind::Microphone, channels, microphone_epoch.unwrap()),
        );
    }
    if outputs.system_audio {
        stampers.push(
            FrameStamper::new(system_audio_binding, channels, system_audio_epoch.unwrap()),
        );
    }
    stampers
}

/// The permission that a failure to start a stream is put down to: the larger of the two
/// that it needed.
pub fn start_error_service(outputs: StreamOutputs) -> (service: TccService)
    ensures
        service == if outputs.system_audio {
            TccService::ScreenAndSystemAudioRecording
        } else {
            TccService::Microphone
        },
{
    if outputs.system_audio {
        TccService::ScreenAndSystemAudioRecording
    } else {
        TccService::Microphone
    }
}

/// Where the system reports that it stopped the stream on its own.
#[derive(Debug, Clone, PartialEq, Eq)]
pub struct StreamErrorDelegate {
    pub error: Option<String>,
    pub stream_dead: StopSignal,
}

impl StreamErrorDelegate {
    pub fn new() -> (delegate: Self)
        ensures
            delegate.error is None,
            !delegate.stream_dead.stopped,
    {
        StreamErrorDelegate { error: None, stream_dead: StopSignal::new() }
    }

    /// The system stopped the stream. The last report wins.
    pub fn did_stop_with_error(&mut self, error: String)
        ensures
            final(self).error == Some(error),
            final(self).stream_dead.stopped,
    {
        self.error = Some(error);
        self.stream_dead.signal();
    }
}

/// Whether the worker of a stream goes on waiting: neither its caller nor the system has
/// stopped it.
pub fn keeps_running(stop_requested: bool, stream_dead: bool) -> (keeps: bool)
    ensures
        keeps == (!stop_requested && !stream_dead),
{
    !stop_requested && !stream_dead
}

/// How a worker that no longer waits has ended. A stop that was asked for counts as
/// clean even where the stream died at the same moment; a stream that died without being
/// asked to is an error, which is what makes the binding recover.
pub fn run_result(stop_requested: bool, delegate: StreamErrorDelegate) -> (result: Result<
    CaptureExit,
    CaptureError,
>)
    ensures
        stop_requested || !delegate.stream_dead.stopped ==> result == Ok::<
            CaptureExit,
            CaptureError,
        >(CaptureExit::StoppedByRequest),
        !stop_requested && delegate.stream_dead.stopped ==> {
            &&& result matches Err(CaptureError::ScreenCaptureKit(message))
            &&& message@ == match delegate.error {
                Some(error) => error@,
                None => "stream stopped unexpectedly"@,
            }
        },
{
    if !stop_requested && delegate.stream_dead.is_signaled() {
        let message: String = match delegate.error {
            Some(error) => error,
            None => String::from_str("stream stopped unexpectedly"),
        };
        return Err(CaptureError::ScreenCaptureKit(message));
    }
    Ok(CaptureExit::StoppedByRequest)
}

/// Whether an event is what a worker with this result reports for a binding.
pub open spec fn reports<S>(
    event: CaptureEvent<S>,
    binding: BindingKind,
    result: Result<CaptureExit, CaptureError>,
) -> bool {
    match result {
        Ok(exit) => event == (CaptureEvent::<S>::StreamStopped { stream: binding, exit }),
        Err(error) => event matches CaptureEvent::StreamError { stream, error: text } && stream
            == binding && text@ == crate::capture_error::error_text(error),
    }
}

/// What a worker reports at its end: one event for each binding that it served, and the
/// outcome that it leaves behind.
pub fn worker_report<S>(kinds: &[BindingKind], result: Result<CaptureExit, CaptureError>) -> (report:
    (Vec<CaptureEvent<S>>, CaptureThreadOutcome))
    ensures
        report.0@.len() == kinds@.len(),
        forall|i: int|
            #![trigger report.0@[i]]
            0 <= i < kinds@.len() ==> reports(report.0@[i], kinds@[i], result),
        report.1 == match result {
            Ok(exit) => CaptureThreadOutcome::Stopped { exit },
            Err(error) => CaptureThreadOutcome::Errored { error },
        },
{
    let mut events: Vec<CaptureEvent<S>> = Vec::new();
    let mut i: usize = 0;
    while i < kinds.len()
        invariant
            i <= kinds@.len(),
            events@.len() == i,
            forall|k: int|
                #![trigger events@[k]]
                0 <= k < i ==> reports(events@[k], kinds@[k], result),
        decreases kinds@.len() - i,
    {
        let event: CaptureEvent<S> = match &result {
            Ok(exit) => CaptureEvent::StreamStopped { stream: kinds[i], exit: *exit },
            Err(error) => CaptureEvent::StreamError { stream: kinds[i], error: error.message() },
        };
        events.push(event);
        i = i + 1;
    }
    let outcome: CaptureThreadOutcome = match result {
        Ok(exit) => CaptureThreadOutcome::Stopped { exit },
        Err(error) => CaptureThreadOutcome::Errored { error },
    };
    (events, outcome)
}

/// The four-byte words of a buffer, in order; what is left over at the end is dropped.
pub fn sample_words(data: &[u8]) -> (words: Vec<[u8; 4]>)
    ensures
        words@.len() == data@.len() / 4,
        forall|i: int|
            #![trigger words@[i]]
            0 <= i < words@.len() ==> words@[i]@ == data@.subrange(4 * i, 4 * i + 4),
{
    let mut words: Vec<[u8; 4]> = Vec::new();
    let mut at: usize = 0;
    while 4 <= data.len() - at
        invariant
            at <= data@.len(),
            at == 4 * words@.len(),
            forall|i: int|
                #![trigger words@[i]]
                0 <= i < words@.len() ==> words@[i]@ == data@.subrange(4 * i, 4 * i + 4),
        decreases data@.len() - at,
    {
        let word: [u8; 4] = [data[at], data[at + 1], data[at + 2], data[at + 3]];
        assert(word@ =~= data@.subrange(at as int, at + 4));
        words.push(word);
        at = at + 4;
    }
    words
}

/// A stream serves the bindings of the outputs that are enabled, the microphone first, and
/// no others.
pub proof fn law_enabled_outputs_are_served(outputs: StreamOutputs, system_audio: BindingKind)
    requires
        system_audio != BindingKind::Microphone,
    ensures
        ({
            let kinds = served(outputs, system_audio);
            &&& kinds.contains(BindingKind::Microphone) <==> outputs.microphone
            &&& kinds.contains(system_audio) <==> outputs.system_audio
            &&& forall|kind: BindingKind| #[trigger]
                kinds.contains(kind) ==> kind == BindingKind::Microphone || kind == system_audio
            &&& outputs.microphone && outputs.system_audio ==> kinds[0] == BindingKind::Microphone
                && kinds[1] == system_audio
            &&& kinds.no_duplicates()
        }),
{
    let kinds = served(outputs, system_audio);
    if outputs.microphone {
        assert(kinds[0] == BindingKind::Microphone);
    }
    if outputs.system_audio {
        assert(kinds[kinds.len() - 1] == system_audio);
    }
}

/// What a worker reports of its end names the binding that it is for, and tells a stop
/// from an error, with the error in words.
pub proof fn law_an_end_is_reported_for_its_binding<S>(
    event: CaptureEvent<S>,
    binding: BindingKind,
    result: Result<CaptureExit, CaptureError>,
)
    requires
        reports(event, binding, result),
    ensures
        result is Ok <==> event is StreamStopped,
        result is Err <==> event is StreamError,
        event is StreamStopped ==> event->StreamStopped_stream == binding
            && event->exit == result->Ok_0,
        event is StreamError ==> event->StreamError_stream == binding && event->error@
            == crate::capture_error::error_text(result->Err_0),
{
}

} // verus!
