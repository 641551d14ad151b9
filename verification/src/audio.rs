//! The capture session: which device to record from, the start and stop
//! transitions, and what the real-time callback adds to the sample buffer.
//!
//! The session does not talk to the audio subsystem itself. Its driver does,
//! and tells the session what came of it; the session decides what state
//! follows and which error a failure is reported as.

use crate::types::{text_of, AudioDevice};
use crate::wav::{encode_wav, frame_count, is_container_of, is_encoding};
use vstd::prelude::*;
use vstd::string::StringExecFns;

verus! {

/// Why an operation of the capture pipeline failed.
#[derive(Debug, Clone, Copy, PartialEq, Eq, Structural)]
pub enum AudioError {
    /// `start` while a recording is in progress.
    AlreadyRecording,
    /// `stop` while no recording is in progress.
    NotRecording,
    /// The audio subsystem could not list its devices, or one device's
    /// description could not be read.
    DeviceEnumerationError,
    /// No device was asked for and the system has no default input device.
    NoDefaultDevice,
    /// No device has the identifier or name that was asked for.
    DeviceNotFound,
    /// The device delivers samples in an encoding that is not handled.
    UnsupportedSampleFormat,
    /// The device's configuration could not be read, or its stream could not
    /// be opened or started.
    StreamError,
    /// The captured samples could not be written into a container.
    EncodingError,
    /// The session is marked as recording but holds no stream.
    StreamNotInitialized,
    /// The session is marked as recording but holds no sample rate.
    MissingSampleRate,
}

impl AudioError {
    /// A description of the error for people to read.
    pub fn message(&self) -> (r: String)
        ensures
            r@ == match *self {
                AudioError::AlreadyRecording => "Recording already in progress"@,
                AudioError::NotRecording => "Recording is not active"@,
                AudioError::DeviceEnumerationError => "Input devices could not be listed"@,
                AudioError::NoDefaultDevice => "No default input device available"@,
                AudioError::DeviceNotFound => "Input device not found"@,
                AudioError::UnsupportedSampleFormat => "Unsupported sample format"@,
                AudioError::StreamError => "Audio stream could not be opened"@,
                AudioError::EncodingError => "Audio could not be encoded"@,
                AudioError::StreamNotInitialized => "Audio stream was not initialized"@,
                AudioError::MissingSampleRate => "Sample rate missing"@,
            },
    {
        match self {
            AudioError::AlreadyRecording => String::from_str("Recording already in progress"),
            AudioError::NotRecording => String::from_str("Recording is not active"),
            AudioError::DeviceEnumerationError => String::from_str(
                "Input devices could not be listed",
            ),
            AudioError::NoDefaultDevice => String::from_str("No default input device available"),
            AudioError::DeviceNotFound => String::from_str("Input device not found"),
            AudioError::UnsupportedSampleFormat => String::from_str("Unsupported sample format"),
            AudioError::StreamError => String::from_str("Audio stream could not be opened"),
            AudioError::EncodingError => String::from_str("Audio could not be encoded"),
            AudioError::StreamNotInitialized => String::from_str(
                "Audio stream was not initialized",
            ),
            AudioError::MissingSampleRate => String::from_str("Sample rate missing"),
        }
    }
}

/// The encoding in which a device delivers its samples.
#[derive(Debug, Clone, Copy, PartialEq, Eq, Structural)]
pub enum SampleEncoding {
    Signed8,
    Signed16,
    Signed24,
    Signed32,
    Signed64,
    Unsigned8,
    Unsigned16,
    Unsigned24,
    Unsigned32,
    Unsigned64,
    Float32,
    Float64,
    /// One-bit direct stream digital, in words of 8, 16 or 32 bits.
    Dsd8,
    Dsd16,
    Dsd32,
    /// Any encoding that is not known.
    Unknown,
}

impl SampleEncoding {
    /// The encodings that a recording can be made from: signed and unsigned
    /// integers of 8 to 64 bits, and floating point of 32 and 64 bits.
    pub open spec fn is_supported(self) -> bool {
        !(self is Dsd8 || self is Dsd16 || self is Dsd32 || self is Unknown)
    }

    /// Whether a recording can be made from this encoding.
    pub fn supported(self) -> (r: bool)
        ensures
            r == self.is_supported(),
    {
        match self {
            SampleEncoding::Dsd8
            | SampleEncoding::Dsd16
            | SampleEncoding::Dsd32
            | SampleEncoding::Unknown => false,
            _ => true,
        }
    }
}

/// What the audio subsystem tells of one input device.
#[derive(Debug, Clone)]
pub struct DeviceReport {
    pub name: String,
    pub id: String,
}

/// Whether the device with this name and identifier is the default one: its
/// identifier is the default device's, or else its name is.
pub open spec fn is_default_device(
    name: Seq<char>,
    id: Seq<char>,
    default_id: Option<Seq<char>>,
    default_name: Option<Seq<char>>,
) -> bool {
    default_id == Some(id) || default_name == Some(name)
}

/// Whether every device of the enumeration could be read.
pub open spec fn all_readable(reports: Seq<Option<DeviceReport>>) -> bool {
    forall|i: int| 0 <= i < reports.len() ==> (#[trigger] reports[i]) is Some
}

/// Whether `entry` is the listing of the device that `report` describes.
pub open spec fn describes(
    entry: AudioDevice,
    report: Option<DeviceReport>,
    default_id: Option<Seq<char>>,
    default_name: Option<Seq<char>>,
) -> bool {
    &&& report matches Some(device)
    &&& entry.name@ == device.name@
    &&& entry.id@ == device.id@
    &&& entry.is_default == is_default_device(device.name@, device.id@, default_id, default_name)
}

/// Whether `entries` list the devices of `reports`, in order, each marked as
/// default or not.
pub open spec fn lists_devices(
    entries: Seq<AudioDevice>,
    reports: Seq<Option<DeviceReport>>,
    default_id: Option<Seq<char>>,
    default_name: Option<Seq<char>>,
) -> bool {
    &&& entries.len() == reports.len()
    &&& forall|i: int|
        0 <= i < reports.len() ==> describes(
            #[trigger] entries[i],
            reports[i],
            default_id,
            default_name,
        )
}

/// Lists the input devices that the audio subsystem reported. `enumeration`
/// is `None` where the subsystem could not list its devices, and holds `None`
/// for a device whose description could not be read; either fails the whole
/// listing. `default_id` and `default_name` describe the system's default
/// input device, as far as they are known.
pub fn list_audio_devices(
    enumeration: &Option<Vec<Option<DeviceReport>>>,
    default_id: &Option<String>,
    default_name: &Option<String>,
) -> (r: Result<Vec<AudioDevice>, AudioError>)
    ensures
        match r {
            Ok(entries) => enumeration matches Some(reports) && lists_devices(
                entries@,
                reports@,
                text_of(*default_id),
                text_of(*default_name),
            ),
            Err(e) => e == AudioError::DeviceEnumerationError && !(enumeration matches Some(reports)
                && all_readable(reports@)),
        },
{
    let reports = match enumeration {
        Some(reports) => reports,
        None => return Err(AudioError::DeviceEnumerationError),
    };
    let mut entries: Vec<AudioDevice> = Vec::new();
    let mut i: usize = 0;
    while i < reports.len()
        invariant
            i <= reports.len(),
            *enumeration == Some(*reports),
            entries@.len() == i,
            forall|j: int|
                0 <= j < i ==> describes(
                    #[trigger] entries@[j],
                    reports@[j],
                    text_of(*default_id),
                    text_of(*default_name),
                ),
        decreases reports.len() - i,
    {
        match &reports[i] {
            None => {
                assert(reports@[i as int] is None);
                return Err(AudioError::DeviceEnumerationError);
            },
            Some(report) => {
                let by_id = match default_id {
                    Some(d) => *d == report.id,
                    None => false,
                };
                let by_name = match default_name {
                    Some(d) => *d == report.name,
                    None => false,
                };
                entries.push(
                    AudioDevice {
                        name: report.name.clone(),
                        id: report.id.clone(),
                        is_default: by_id || by_name,
                    },
                );
            },
        }
        i += 1;
    }
    Ok(entries)
}

/// Whether a device answers to `selector`: by its identifier or by its name.
pub open spec fn answers_to(report: DeviceReport, selector: Seq<char>) -> bool {
    report.id@ == selector || report.name@ == selector
}

/// Whether the first `k` devices could all be read and none of them answers
/// to `selector`.
pub open spec fn none_before(
    reports: Seq<Option<DeviceReport>>,
    selector: Seq<char>,
    k: int,
) -> bool {
    forall|j: int|
        0 <= j < k ==> (#[trigger] reports[j] matches Some(report) && !answers_to(report, selector))
}

/// Whether the device at place `k` is the first that answers to `selector`.
pub open spec fn found_at(reports: Seq<Option<DeviceReport>>, selector: Seq<char>, k: int) -> bool {
    &&& 0 <= k < reports.len()
    &&& none_before(reports, selector, k)
    &&& reports[k] matches Some(report) && answers_to(report, selector)
}

/// Whether the search for `selector` stops at place `k` on a device that
/// cannot be read.
pub open spec fn unreadable_at(
    reports: Seq<Option<DeviceReport>>,
    selector: Seq<char>,
    k: int,
) -> bool {
    &&& 0 <= k < reports.len()
    &&& none_before(reports, selector, k)
    &&& reports[k] is None
}

/// Whether `r` is the outcome of searching `enumeration` for `selector`.
pub open spec fn is_search_outcome(
    enumeration: Option<Vec<Option<DeviceReport>>>,
    selector: Seq<char>,
    r: Result<usize, AudioError>,
) -> bool {
    match r {
        Ok(k) => enumeration matches Some(reports) && found_at(reports@, selector, k as int),
        Err(e) => if enumeration matches Some(reports) && none_before(
            reports@,
            selector,
            reports.len() as int,
        ) {
            e == AudioError::DeviceNotFound
        } else {
            &&& e == AudioError::DeviceEnumerationError
            &&& enumeration matches Some(reports) ==> exists|k: int|
                unreadable_at(reports@, selector, k)
        },
    }
}

/// Finds the first device that answers to `device_id`, by identifier or by
/// name, and returns its place in the enumeration. The devices are looked at
/// in order: one that cannot be read fails the search, unless a device before
/// it answers.
pub fn find_input_device(enumeration: &Option<Vec<Option<DeviceReport>>>, device_id: &str) -> (r:
    Result<usize, AudioError>)
    ensures
        is_search_outcome(*enumeration, device_id@, r),
{
    let reports = match enumeration {
        Some(reports) => reports,
        None => return Err(AudioError::DeviceEnumerationError),
    };
    let wanted = String::from_str(device_id);
    let mut i: usize = 0;
    while i < reports.len()
        invariant
            i <= reports.len(),
            *enumeration == Some(*reports),
            wanted@ == device_id@,
            none_before(reports@, device_id@, i as int),
        decreases reports.len() - i,
    {
        match &reports[i] {
            None => {
                assert(unreadable_at(reports@, device_id@, i as int));
                return Err(AudioError::DeviceEnumerationError);
            },
            Some(report) => {
                if report.id == wanted || report.name == wanted {
                    return Ok(i);
                }
            },
        }
        i += 1;
    }
    Err(AudioError::DeviceNotFound)
}

/// A request for the device to record from, with what the audio subsystem
/// answered to it.
#[derive(Debug, Clone)]
pub enum DeviceQuery {
    /// A device was asked for by identifier or name; the subsystem listed its
    /// devices.
    Selected { selector: String, enumeration: Option<Vec<Option<DeviceReport>>> },
    /// No device was asked for; the subsystem said whether it has a default
    /// input device.
    SystemDefault { present: bool },
}

/// The device to record from.
#[derive(Debug, Clone, Copy, PartialEq, Eq, Structural)]
pub enum DeviceChoice {
    /// The device at this place in the enumeration.
    Listed(usize),
    /// The system's default input device.
    SystemDefault,
}

/// Whether `r` is the answer to `query`: the first device that answers to
/// the selector, else the system's default, else the error that says what is
/// missing.
pub open spec fn is_resolution(query: DeviceQuery, r: Result<DeviceChoice, AudioError>) -> bool {
    match query {
        DeviceQuery::SystemDefault { present } => r == if present {
            Ok::<DeviceChoice, AudioError>(DeviceChoice::SystemDefault)
        } else {
            Err::<DeviceChoice, AudioError>(AudioError::NoDefaultDevice)
        },
        DeviceQuery::Selected { selector, enumeration } => match r {
            Ok(DeviceChoice::Listed(k)) => is_search_outcome(
                enumeration,
                selector@,
                Ok::<usize, AudioError>(k),
            ),
            Ok(DeviceChoice::SystemDefault) => false,
            Err(e) => is_search_outcome(enumeration, selector@, Err::<usize, AudioError>(e)),
        },
    }
}

/// Decides which device to record from: the one asked for, else the system's
/// default.
pub fn resolve_device(query: &DeviceQuery) -> (r: Result<DeviceChoice, AudioError>)
    ensures
        is_resolution(*query, r),
{
    match query {
        DeviceQuery::SystemDefault { present } => {
            if *present {
                Ok(DeviceChoice::SystemDefault)
            } else {
                Err(AudioError::NoDefaultDevice)
            }
        },
        DeviceQuery::Selected { selector, enumeration } => {
            match find_input_device(enumeration, selector.as_str()) {
                Ok(k) => Ok(DeviceChoice::Listed(k)),
                Err(e) => Err(e),
            }
        },
    }
}

/// The first sample of each frame of `input`, where a frame is `channels`
/// samples and the last frame may be shorter. No channels, no samples.
pub open spec fn first_channel<T>(input: Seq<T>, channels: int) -> Seq<T>
    decreases input.len(),
{
    if channels <= 0 || input.len() == 0 {
        Seq::empty()
    } else if input.len() <= channels {
        seq![input[0]]
    } else {
        seq![input[0]] + first_channel(input.skip(channels), channels)
    }
}

/// Reduces interleaved frames to one channel by keeping the first sample of
/// each frame.
pub fn capture_input_data<T: Copy>(input: &[T], channels: u16) -> (r: Vec<T>)
    ensures
        r@ == first_channel(input@, channels as int),
{
    let mut collected: Vec<T> = Vec::new();
    if channels == 0 {
        return collected;
    }
    let step: usize = channels as usize;
    let n: usize = input.len();
    let mut i: usize = 0;
    assert(input@.skip(0) =~= input@);
    assert(collected@ + first_channel(input@, channels as int) =~= first_channel(
        input@,
        channels as int,
    ));
    while i < n
        invariant
            i <= n,
            n == input@.len(),
            step == channels,
            step > 0,
            first_channel(input@, channels as int) == collected@ + first_channel(
                input@.skip(i as int),
                channels as int,
            ),
        decreases n - i,
    {
        let ghost rest = input@.skip(i as int);
        let ghost before = collected@;
        collected.push(input[i]);
        if n - i <= step {
            assert(first_channel(rest, channels as int) =~= seq![rest[0]]);
            assert(input@.skip(n as int).len() == 0);
            assert(collected@ + first_channel(input@.skip(n as int), channels as int)
                =~= before + seq![rest[0]]);
            i = n;
        } else {
            assert(rest.skip(channels as int) =~= input@.skip(i + step));
            assert(collected@ + first_channel(input@.skip(i + step), channels as int) =~= before
                + (seq![rest[0]] + first_channel(rest.skip(channels as int), channels as int)));
            i = i + step;
        }
    }
    assert(input@.skip(n as int).len() == 0);
    assert(collected@ + first_channel(input@.skip(n as int), channels as int) =~= collected@);
    collected
}

/// Frames that are all whole give one sample each.
pub proof fn lemma_one_sample_per_frame<T>(input: Seq<T>, channels: int, frames: int)
    requires
        channels > 0,
        frames >= 0,
        input.len() == frames * channels,
    ensures
        first_channel(input, channels).len() == frames,
    decreases input.len(),
{
    if frames == 0 {
        assert(input.len() == 0) by (nonlinear_arith)
            requires
                input.len() == frames * channels,
                frames == 0,
        ;
    } else if frames == 1 {
        assert(input.len() == channels) by (nonlinear_arith)
            requires
                input.len() == frames * channels,
                frames == 1,
        ;
    } else {
        assert(input.len() == (frames - 1) * channels + channels && (frames - 1) * channels
            >= channels) by (nonlinear_arith)
            requires
                input.len() == frames * channels,
                frames >= 2,
                channels > 0,
        ;
        lemma_one_sample_per_frame(input.skip(channels), channels, frames - 1);
    }
}

/// The state of the capture session. `S` is the handle of an open device
/// stream. A sample is held as the bit pattern of a 32-bit IEEE-754 number.
#[derive(Debug)]
pub struct AudioState<S> {
    /// Whether a recording is in progress. This flag alone decides whether a
    /// start or a stop is admitted.
    pub is_recording: bool,
    /// The samples captured so far, one per frame.
    pub samples: Vec<u32>,
    /// The open stream, held from the end of a start to the next stop.
    pub stream: Option<S>,
    /// The sample rate that the device delivers at.
    pub sample_rate: Option<u32>,
}

/// The mathematical value of an [`AudioState`].
pub struct SessionView<S> {
    pub is_recording: bool,
    pub samples: Seq<u32>,
    pub stream: Option<S>,
    pub sample_rate: Option<u32>,
}

impl<S> View for AudioState<S> {
    type V = SessionView<S>;

    open spec fn view(&self) -> SessionView<S> {
        SessionView {
            is_recording: self.is_recording,
            samples: self.samples@,
            stream: self.stream,
            sample_rate: self.sample_rate,
        }
    }
}

/// What a stop hands over: the captured samples and their rate.
#[derive(Debug)]
pub struct Recording {
    pub samples: Vec<u32>,
    pub sample_rate: u32,
}

/// The mathematical value of a [`Recording`].
pub struct RecordingView {
    pub samples: Seq<u32>,
    pub sample_rate: u32,
}

impl View for Recording {
    type V = RecordingView;

    open spec fn view(&self) -> RecordingView {
        RecordingView { samples: self.samples@, sample_rate: self.sample_rate }
    }
}

impl<S> SessionView<S> {
    /// The session at rest: not recording, and holding nothing.
    pub open spec fn idle() -> Self {
        SessionView { is_recording: false, samples: Seq::empty(), stream: None, sample_rate: None }
    }

    /// The invariant of the session: it holds a stream only while recording
    /// and with a sample rate, and holds nothing while not recording.
    pub open spec fn wf(self) -> bool {
        &&& self.stream is Some ==> self.is_recording && self.sample_rate is Some
        &&& !self.is_recording ==> self == Self::idle()
    }

    /// The session after a start was admitted.
    pub open spec fn begun(self) -> Self {
        SessionView { is_recording: true, ..self }
    }

    /// The session after the buffer was reset for a capture at `sample_rate`.
    pub open spec fn prepared(self, sample_rate: u32) -> Self {
        SessionView { samples: Seq::empty(), sample_rate: Some(sample_rate), ..self }
    }

    /// The session after it took over the playing stream.
    pub open spec fn committed(self, stream: S) -> Self {
        SessionView { stream: Some(stream), ..self }
    }

    /// The session after the callback delivered `collected`.
    pub open spec fn delivered(self, collected: Seq<u32>) -> Self {
        SessionView { samples: self.samples + collected, ..self }
    }

    /// What a stop returns.
    pub open spec fn stop_outcome(self) -> Result<RecordingView, AudioError> {
        if !self.is_recording {
            Err(AudioError::NotRecording)
        } else if self.stream is None {
            Err(AudioError::StreamNotInitialized)
        } else {
            match self.sample_rate {
                None => Err(AudioError::MissingSampleRate),
                Some(sample_rate) => Ok(RecordingView { samples: self.samples, sample_rate }),
            }
        }
    }

    /// The session after a stop: unchanged where the stop was refused because
    /// nothing was being recorded, else at rest.
    pub open spec fn stopped(self) -> Self {
        if self.is_recording {
            Self::idle()
        } else {
            self
        }
    }
}

/// Whether `r` is what `expected` says, up to the view.
pub open spec fn stops_as(
    r: Result<Recording, AudioError>,
    expected: Result<RecordingView, AudioError>,
) -> bool {
    match r {
        Ok(recording) => expected == Ok::<RecordingView, AudioError>(recording@),
        Err(e) => expected == Err::<RecordingView, AudioError>(e),
    }
}

impl<S> AudioState<S> {
    /// A session at rest.
    pub fn new() -> (r: Self)
        ensures
            r@ == SessionView::<S>::idle(),
            r@.wf(),
    {
        AudioState { is_recording: false, samples: Vec::new(), stream: None, sample_rate: None }
    }

    /// Puts the session to rest, closing a stream that it holds.
    fn reset(&mut self)
        ensures
            final(self)@ == SessionView::<S>::idle(),
    {
        self.is_recording = false;
        self.samples.clear();
        self.stream = None;
        self.sample_rate = None;
    }
}

/// First step of a start: admits it unless a recording is in progress. A
/// refused start leaves the session as it was.
pub fn begin_recording<S>(state: &mut AudioState<S>) -> (r: Result<(), AudioError>)
    ensures
        old(state)@.is_recording ==> r == Err::<(), AudioError>(AudioError::AlreadyRecording)
            && final(state)@ == old(state)@,
        !old(state)@.is_recording ==> r is Ok && final(state)@ == old(state)@.begun(),
        old(state)@.wf() ==> final(state)@.wf(),
{
    if state.is_recording {
        return Err(AudioError::AlreadyRecording);
    }
    state.is_recording = true;
    Ok(())
}

/// Second step of a start, once the device's configuration is known: resets
/// the buffer and records the sample rate. An encoding that is not handled
/// fails the start and puts the session to rest.
pub fn prepare_capture<S>(
    state: &mut AudioState<S>,
    encoding: SampleEncoding,
    sample_rate: u32,
) -> (r: Result<(), AudioError>)
    ensures
        encoding.is_supported() ==> r is Ok && final(state)@ == old(state)@.prepared(sample_rate),
        !encoding.is_supported() ==> r == Err::<(), AudioError>(
            AudioError::UnsupportedSampleFormat,
        ) && final(state)@ == SessionView::<S>::idle(),
        old(state)@.wf() && old(state)@.is_recording ==> final(state)@.wf(),
{
    if !encoding.supported() {
        state.reset();
        return Err(AudioError::UnsupportedSampleFormat);
    }
    state.samples.clear();
    state.sample_rate = Some(sample_rate);
    Ok(())
}

/// Last step of a start. `opened` is the playing stream, or why the driver
/// could not get that far. With a stream the session takes it over; with an
/// error it is put to rest and the error is handed on.
pub fn finish_start<S>(state: &mut AudioState<S>, opened: Result<S, AudioError>) -> (r:
    Result<(), AudioError>)
    ensures
        match opened {
            Ok(stream) => r is Ok && final(state)@ == old(state)@.committed(stream),
            Err(e) => r == Err::<(), AudioError>(e) && final(state)@ == SessionView::<S>::idle(),
        },
        old(state)@.wf() && old(state)@.is_recording && old(state)@.sample_rate is Some
            ==> final(state)@.wf(),
{
    match opened {
        Ok(stream) => {
            state.stream = Some(stream);
            Ok(())
        },
        Err(e) => {
            state.reset();
            Err(e)
        },
    }
}

/// The configuration that a device delivers its samples in.
#[derive(Debug, Clone, Copy, PartialEq, Eq, Structural)]
pub struct CaptureConfig {
    pub channels: u16,
    pub sample_rate: u32,
    pub encoding: SampleEncoding,
}

/// What the driver of a start reports to the session.
pub enum StartEvent<S> {
    /// A start was asked for.
    Requested,
    /// The audio subsystem answered the query for the device.
    Resolved(DeviceQuery),
    /// The configuration of the chosen device was read, or could not be.
    Configured(DeviceChoice, Option<CaptureConfig>),
    /// A stream on the device was opened and started, or could not be.
    Opened(Option<S>),
}

/// What the session asks of the driver of a start.
#[derive(Debug, Clone, Copy, PartialEq, Eq, Structural)]
pub enum StartAction {
    /// Ask the audio subsystem for the device to record from, and report
    /// `Resolved`.
    Resolve,
    /// Read the device's default input configuration, and report
    /// `Configured`.
    Configure(DeviceChoice),
    /// Open a stream on the device, start it, and report `Opened`.
    Open(DeviceChoice, CaptureConfig),
    /// The recording has started.
    Started,
    /// The start has failed, and the session is as it was before it.
    Failed(AudioError),
}

/// Whether `action` and `after` are what the session answers to `event` in
/// the state `before`. A start is refused while a recording is in progress,
/// without any change. Once admitted it goes from the device to its
/// configuration to the stream; the buffer is reset before the stream is
/// opened; and whatever fails puts the session to rest.
pub open spec fn is_start_step<S>(
    before: SessionView<S>,
    event: StartEvent<S>,
    action: StartAction,
    after: SessionView<S>,
) -> bool {
    match event {
        StartEvent::Requested => if before.is_recording {
            action == StartAction::Failed(AudioError::AlreadyRecording) && after == before
        } else {
            action == StartAction::Resolve && after == before.begun()
        },
        StartEvent::Resolved(query) => match action {
            StartAction::Configure(device) => is_resolution(
                query,
                Ok::<DeviceChoice, AudioError>(device),
            ) && after == before,
            StartAction::Failed(e) => is_resolution(query, Err::<DeviceChoice, AudioError>(e))
                && after == SessionView::<S>::idle(),
            _ => false,
        },
        StartEvent::Configured(device, None) => action == StartAction::Failed(
            AudioError::StreamError,
        ) && after == SessionView::<S>::idle(),
        StartEvent::Configured(device, Some(config)) => if config.encoding.is_supported() {
            action == StartAction::Open(device, config) && after == before.prepared(
                config.sample_rate,
            )
        } else {
            action == StartAction::Failed(AudioError::UnsupportedSampleFormat) && after
                == SessionView::<S>::idle()
        },
        StartEvent::Opened(None) => action == StartAction::Failed(AudioError::StreamError) && after
            == SessionView::<S>::idle(),
        StartEvent::Opened(Some(stream)) => action == StartAction::Started && after
            == before.committed(stream),
    }
}

/// Takes one step of a start: the session's answer to what its driver
/// reports. The driver begins with `Requested`, does what each answer asks
/// for, and ends at `Started` or `Failed`.
pub fn start_recording<S>(state: &mut AudioState<S>, event: StartEvent<S>) -> (action:
    StartAction)
    ensures
        is_start_step(old(state)@, event, action, final(state)@),
{
    match event {
        StartEvent::Requested => match begin_recording(state) {
            Ok(()) => StartAction::Resolve,
            Err(e) => StartAction::Failed(e),
        },
        StartEvent::Resolved(query) => match resolve_device(&query) {
            Ok(device) => StartAction::Configure(device),
            Err(e) => {
                state.reset();
                StartAction::Failed(e)
            },
        },
        StartEvent::Configured(device, None) => {
            state.reset();
            StartAction::Failed(AudioError::StreamError)
        },
        StartEvent::Configured(device, Some(config)) => match prepare_capture(
            state,
            config.encoding,
            config.sample_rate,
        ) {
            Ok(()) => StartAction::Open(device, config),
            Err(e) => StartAction::Failed(e),
        },
        StartEvent::Opened(None) => {
            state.reset();
            StartAction::Failed(AudioError::StreamError)
        },
        StartEvent::Opened(Some(stream)) => match finish_start(state, Ok(stream)) {
            Ok(()) => StartAction::Started,
            Err(e) => StartAction::Failed(e),
        },
    }
}

/// Adds what the callback collected to the buffer.
pub fn append_samples<S>(state: &mut AudioState<S>, collected: Vec<u32>)
    ensures
        final(state)@ == old(state)@.delivered(collected@),
        old(state)@.wf() && old(state)@.is_recording ==> final(state)@.wf(),
{
    let mut collected = collected;
    state.samples.append(&mut collected);
}

/// The state transition of a stop: closes the stream and hands over the
/// captured samples with their rate. Refused with `NotRecording`, and without
/// any change, where nothing is being recorded. A session that is marked as
/// recording but lacks its stream or its rate fails the stop and is put to
/// rest.
pub fn take_recording<S>(state: &mut AudioState<S>) -> (r: Result<Recording, AudioError>)
    ensures
        stops_as(r, old(state)@.stop_outcome()),
        final(state)@ == old(state)@.stopped(),
        old(state)@.wf() ==> final(state)@.wf(),
{
    if !state.is_recording {
        return Err(AudioError::NotRecording);
    }
    state.is_recording = false;
    let stream = state.stream.take();
    let mut samples: Vec<u32> = Vec::new();
    std::mem::swap(&mut state.samples, &mut samples);
    let sample_rate = state.sample_rate.take();
    if stream.is_none() {
        return Err(AudioError::StreamNotInitialized);
    }
    match sample_rate {
        None => Err(AudioError::MissingSampleRate),
        Some(sample_rate) => Ok(Recording { samples, sample_rate }),
    }
}

/// Whether `r` is what a stop returns in the state `before`: the error of
/// the state transition, else the container that holds the captured samples
/// at their rate.
pub open spec fn is_stop_result<S>(before: SessionView<S>, r: Result<Vec<u8>, AudioError>) -> bool {
    match before.stop_outcome() {
        Err(e) => r == Err::<Vec<u8>, AudioError>(e),
        Ok(recording) => is_encoding(recording.samples, recording.sample_rate, r),
    }
}

/// Stops the recording: closes the stream, drains the captured samples and
/// their rate, and returns them encoded as a container.
pub fn stop_recording<S>(state: &mut AudioState<S>) -> (r: Result<Vec<u8>, AudioError>)
    ensures
        is_stop_result(old(state)@, r),
        final(state)@ == old(state)@.stopped(),
        old(state)@.wf() ==> final(state)@.wf(),
{
    match take_recording(state) {
        Ok(recording) => encode_wav(&recording.samples, recording.sample_rate),
        Err(e) => Err(e),
    }
}

/// A start that runs through and a stop, with the callback delivering whole
/// frames in between, hand over exactly one sample per frame, in order, at
/// the rate that the start recorded.
pub proof fn lemma_cycle_yields_frames<S>(
    stream: S,
    sample_rate: u32,
    input: Seq<u32>,
    channels: int,
    frames: int,
)
    requires
        channels > 0,
        frames >= 0,
        input.len() == frames * channels,
    ensures
        ({
            let collected = first_channel(input, channels);
            let session = SessionView::<S>::idle().begun().prepared(sample_rate).committed(
                stream,
            ).delivered(collected);
            &&& session.wf()
            &&& collected.len() == frames
            &&& session.stop_outcome() == Ok::<RecordingView, AudioError>(
                RecordingView { samples: collected, sample_rate },
            )
            &&& session.stopped() == SessionView::<S>::idle()
            &&& forall|r: Result<Vec<u8>, AudioError>| #[trigger]
                is_stop_result(session, r) ==> match r {
                    Ok(bytes) => is_container_of(bytes@, sample_rate, collected) && frame_count(
                        bytes@,
                    ) == frames,
                    Err(e) => e == AudioError::EncodingError,
                }
        }),
{
    lemma_one_sample_per_frame(input, channels, frames);
    let collected = first_channel(input, channels);
    assert(Seq::<u32>::empty() + collected =~= collected);
}

/// A start that runs through leaves the session recording, with an empty
/// buffer, the stream and the device's sample rate; the invariant holds after
/// every step.
pub proof fn lemma_start_runs_through<S>(
    query: DeviceQuery,
    device: DeviceChoice,
    config: CaptureConfig,
    stream: S,
    s0: SessionView<S>,
    s1: SessionView<S>,
    s2: SessionView<S>,
    s3: SessionView<S>,
    s4: SessionView<S>,
)
    requires
        s0.wf(),
        is_start_step(s0, StartEvent::Requested, StartAction::Resolve, s1),
        is_start_step(s1, StartEvent::Resolved(query), StartAction::Configure(device), s2),
        is_start_step(
            s2,
            StartEvent::Configured(device, Some(config)),
            StartAction::Open(device, config),
            s3,
        ),
        is_start_step(s3, StartEvent::Opened(Some(stream)), StartAction::Started, s4),
    ensures
        s0 == SessionView::<S>::idle(),
        s1.wf() && s2.wf() && s3.wf() && s4.wf(),
        s4 == (SessionView::<S> {
            is_recording: true,
            samples: Seq::<u32>::empty(),
            stream: Some(stream),
            sample_rate: Some(config.sample_rate),
        }),
{
}

/// Every step of a start keeps the session's invariant, where the steps come
/// in order: only `Requested` is reported to a session that is not recording,
/// and `Opened` only once the sample rate is recorded.
pub proof fn lemma_start_step_keeps_invariant<S>(
    before: SessionView<S>,
    event: StartEvent<S>,
    action: StartAction,
    after: SessionView<S>,
)
    requires
        before.wf(),
        is_start_step(before, event, action, after),
        !(event is Requested) ==> before.is_recording,
        event is Opened ==> before.sample_rate is Some,
    ensures
        after.wf(),
{
}

/// A step that fails a start leaves the session at rest, unless the start
/// was refused because a recording is in progress: then nothing changes.
pub proof fn lemma_failed_start_strands_nothing<S>(
    before: SessionView<S>,
    event: StartEvent<S>,
    e: AudioError,
    after: SessionView<S>,
)
    requires
        is_start_step(before, event, StartAction::Failed(e), after),
    ensures
        if event is Requested {
            e == AudioError::AlreadyRecording && before.is_recording && after == before
        } else {
            after == SessionView::<S>::idle()
        },
{
}

/// Exclusivity: while a recording is in progress a start is refused with
/// `AlreadyRecording` and changes nothing; while none is in progress a stop is
/// refused with `NotRecording` and changes nothing.
pub proof fn lemma_start_and_stop_exclude<S>(
    before: SessionView<S>,
    action: StartAction,
    after: SessionView<S>,
)
    ensures
        before.is_recording && is_start_step(before, StartEvent::Requested, action, after) ==> action
            == StartAction::Failed(AudioError::AlreadyRecording) && after == before,
        !before.is_recording ==> before.stop_outcome() == Err::<RecordingView, AudioError>(
            AudioError::NotRecording,
        ) && before.stopped() == before,
        !before.is_recording ==> forall|r: Result<Vec<u8>, AudioError>| #[trigger]
            is_stop_result(before, r) ==> r == Err::<Vec<u8>, AudioError>(
                AudioError::NotRecording,
            ),
{
}

/// A session that keeps its invariant never fails a stop for want of a
/// stream's sample rate, and a stop always leaves it at rest.
pub proof fn lemma_stop_of_valid_session<S>(session: SessionView<S>)
    requires
        session.wf(),
    ensures
        session.stop_outcome() != Err::<RecordingView, AudioError>(
            AudioError::MissingSampleRate,
        ),
        session.stopped() == SessionView::<S>::idle(),
        session.stop_outcome() is Ok <==> session.stream is Some,
{
}

} // verus!
