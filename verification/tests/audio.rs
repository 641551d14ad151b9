use voice_client::audio::{
    append_samples, begin_recording, capture_input_data, find_input_device, finish_start,
    list_audio_devices, prepare_capture, resolve_device, start_recording, stop_recording,
    take_recording, AudioError, AudioState, CaptureConfig, DeviceChoice, DeviceQuery,
    DeviceReport, SampleEncoding, StartAction, StartEvent,
};
use voice_client::wav::encode_wav;

fn bits(samples: &[f32]) -> Vec<u32> {
    samples.iter().map(|x| x.to_bits()).collect()
}

fn read_back(container: Vec<u8>) -> (u32, Vec<u32>) {
    let mut reader = hound::WavReader::new(std::io::Cursor::new(container)).unwrap();
    let rate = reader.spec().sample_rate;
    let samples = reader.samples::<f32>().map(|x| x.unwrap().to_bits()).collect();
    (rate, samples)
}

fn report(name: &str, id: &str) -> Option<DeviceReport> {
    Some(DeviceReport { name: name.to_string(), id: id.to_string() })
}

fn started(rate: u32, stream: u8) -> AudioState<u8> {
    let mut state = AudioState::new();
    assert_eq!(begin_recording(&mut state), Ok(()));
    assert_eq!(prepare_capture(&mut state, SampleEncoding::Float32, rate), Ok(()));
    assert_eq!(finish_start(&mut state, Ok(stream)), Ok(()));
    state
}

fn is_idle(state: &AudioState<u8>) -> bool {
    !state.is_recording
        && state.samples.is_empty()
        && state.stream.is_none()
        && state.sample_rate.is_none()
}

#[test]
fn only_the_reported_default_is_marked() {
    let enumeration = Some(vec![report("Built-in Mic", "dev0"), report("USB Mic", "dev1")]);
    let entries = list_audio_devices(
        &enumeration,
        &Some("dev0".to_string()),
        &Some("Built-in Mic".to_string()),
    )
    .unwrap();
    assert_eq!(entries.len(), 2);
    assert_eq!(entries[0].name, "Built-in Mic");
    assert_eq!(entries[0].id, "dev0");
    assert!(entries[0].is_default);
    assert_eq!(entries[1].name, "USB Mic");
    assert_eq!(entries[1].id, "dev1");
    assert!(!entries[1].is_default);
}

#[test]
fn the_default_is_found_by_identifier_or_by_name() {
    let enumeration = Some(vec![report("A", "1"), report("B", "2"), report("B", "3")]);
    let by_name = list_audio_devices(&enumeration, &Some("9".to_string()), &Some("B".to_string()))
        .unwrap();
    let marks: Vec<bool> = by_name.iter().map(|d| d.is_default).collect();
    assert_eq!(marks, vec![false, true, true]);
    let by_id = list_audio_devices(&enumeration, &Some("3".to_string()), &None).unwrap();
    let marks: Vec<bool> = by_id.iter().map(|d| d.is_default).collect();
    assert_eq!(marks, vec![false, false, true]);
    let none = list_audio_devices(&enumeration, &None, &None).unwrap();
    assert!(none.iter().all(|d| !d.is_default));
    assert!(list_audio_devices(&Some(vec![]), &None, &None).unwrap().is_empty());
}

#[test]
fn an_unreadable_device_fails_the_listing() {
    let enumeration = Some(vec![report("A", "1"), None, report("B", "2")]);
    assert_eq!(
        list_audio_devices(&enumeration, &None, &None).unwrap_err(),
        AudioError::DeviceEnumerationError
    );
    assert_eq!(
        list_audio_devices(&None, &None, &None).unwrap_err(),
        AudioError::DeviceEnumerationError
    );
}

#[test]
fn a_device_is_found_by_identifier_or_name() {
    let enumeration = Some(vec![report("A", "1"), report("B", "2"), report("2", "3"), None]);
    assert_eq!(find_input_device(&enumeration, "1"), Ok(0));
    assert_eq!(find_input_device(&enumeration, "B"), Ok(1));
    assert_eq!(find_input_device(&enumeration, "2"), Ok(1));
    assert_eq!(find_input_device(&enumeration, "3"), Ok(2));
    assert_eq!(find_input_device(&enumeration, "C"), Err(AudioError::DeviceEnumerationError));
    assert_eq!(find_input_device(&None, "A"), Err(AudioError::DeviceEnumerationError));
    let readable = Some(vec![report("A", "1")]);
    assert_eq!(find_input_device(&readable, "C"), Err(AudioError::DeviceNotFound));
    assert_eq!(find_input_device(&Some(vec![]), "A"), Err(AudioError::DeviceNotFound));
}

#[test]
fn the_device_is_the_one_asked_for_or_the_default() {
    let query = DeviceQuery::Selected {
        selector: "B".to_string(),
        enumeration: Some(vec![report("A", "1"), report("B", "2")]),
    };
    assert_eq!(resolve_device(&query), Ok(DeviceChoice::Listed(1)));
    let query = DeviceQuery::Selected {
        selector: "C".to_string(),
        enumeration: Some(vec![report("A", "1"), report("B", "2")]),
    };
    assert_eq!(resolve_device(&query), Err(AudioError::DeviceNotFound));
    assert_eq!(
        resolve_device(&DeviceQuery::SystemDefault { present: true }),
        Ok(DeviceChoice::SystemDefault)
    );
    assert_eq!(
        resolve_device(&DeviceQuery::SystemDefault { present: false }),
        Err(AudioError::NoDefaultDevice)
    );
}

#[test]
fn the_first_channel_of_each_frame_is_kept() {
    assert_eq!(capture_input_data(&[1.0f32, 2.0, 3.0, 4.0, 5.0, 6.0], 2), vec![1.0, 3.0, 5.0]);
    assert_eq!(capture_input_data(&[1i16, 2, 3, 4, 5, 6, 7], 3), vec![1, 4, 7]);
    assert_eq!(capture_input_data(&[1i16, 2, 3], 1), vec![1, 2, 3]);
    assert_eq!(capture_input_data(&[1i16, 2, 3], 5), vec![1]);
    assert_eq!(capture_input_data(&[1i16, 2, 3], 0), Vec::<i16>::new());
    assert_eq!(capture_input_data(&[] as &[u8], 2), Vec::<u8>::new());
}

#[test]
fn a_second_start_is_refused_and_changes_nothing() {
    let mut state = started(48000, 7);
    append_samples(&mut state, bits(&[0.5, -0.5]));
    assert_eq!(begin_recording(&mut state), Err(AudioError::AlreadyRecording));
    assert!(state.is_recording);
    assert_eq!(state.samples, bits(&[0.5, -0.5]));
    assert_eq!(state.sample_rate, Some(48000));
    assert_eq!(state.stream, Some(7));
}

#[test]
fn a_stop_at_rest_is_refused() {
    let mut state: AudioState<u8> = AudioState::new();
    assert!(is_idle(&state));
    assert_eq!(stop_recording(&mut state).unwrap_err(), AudioError::NotRecording);
    assert!(is_idle(&state));
}

#[test]
fn a_cycle_hands_over_one_sample_per_frame() {
    let mut state = started(44100, 1);
    assert!(state.is_recording);
    let input: Vec<f32> = (0..20).map(|i| i as f32).collect();
    append_samples(&mut state, bits(&capture_input_data(&input[..8], 2)));
    append_samples(&mut state, bits(&capture_input_data(&input[8..], 2)));
    let container = stop_recording(&mut state).unwrap();
    assert_eq!(container.len(), 68 + 4 * 10);
    let (rate, samples) = read_back(container);
    assert_eq!(rate, 44100);
    assert_eq!(samples.len(), 10);
    let expected: Vec<f32> = (0..10).map(|i| (2 * i) as f32).collect();
    assert_eq!(samples, bits(&expected));
    assert!(is_idle(&state));
    assert_eq!(begin_recording(&mut state), Ok(()));
}

#[test]
fn a_stop_without_samples_succeeds() {
    let mut state = started(16000, 1);
    let container = stop_recording(&mut state).unwrap();
    assert_eq!(container, encode_wav(&vec![], 16000).unwrap());
    assert_eq!(read_back(container), (16000, vec![]));
    assert!(is_idle(&state));
}

#[test]
fn the_state_transition_of_a_stop_hands_over_samples_and_rate() {
    let mut state = started(22050, 1);
    append_samples(&mut state, vec![7, 8]);
    append_samples(&mut state, vec![]);
    append_samples(&mut state, vec![9]);
    let recording = take_recording(&mut state).unwrap();
    assert_eq!(recording.samples, vec![7, 8, 9]);
    assert_eq!(recording.sample_rate, 22050);
    assert!(is_idle(&state));
    assert_eq!(take_recording(&mut state).unwrap_err(), AudioError::NotRecording);
}

#[test]
fn a_recording_that_cannot_be_written_fails_the_stop() {
    let mut state = started(0, 1);
    append_samples(&mut state, vec![1]);
    assert_eq!(stop_recording(&mut state).unwrap_err(), AudioError::EncodingError);
    assert!(is_idle(&state));
}

#[test]
fn a_start_resets_what_an_earlier_recording_left() {
    let mut state = started(8000, 1);
    append_samples(&mut state, bits(&[1.0]));
    stop_recording(&mut state).unwrap();
    assert_eq!(begin_recording(&mut state), Ok(()));
    assert_eq!(prepare_capture(&mut state, SampleEncoding::Unsigned24, 22050), Ok(()));
    assert!(state.samples.is_empty());
    assert_eq!(state.sample_rate, Some(22050));
    assert_eq!(finish_start(&mut state, Ok(2)), Ok(()));
    assert_eq!(state.stream, Some(2));
}

#[test]
fn a_failed_start_leaves_the_session_at_rest() {
    let mut state: AudioState<u8> = AudioState::new();
    assert_eq!(begin_recording(&mut state), Ok(()));
    assert_eq!(
        finish_start(&mut state, Err(AudioError::NoDefaultDevice)),
        Err(AudioError::NoDefaultDevice)
    );
    assert!(is_idle(&state));
    for encoding in [
        SampleEncoding::Dsd8,
        SampleEncoding::Dsd16,
        SampleEncoding::Dsd32,
        SampleEncoding::Unknown,
    ] {
        assert!(!encoding.supported());
        assert_eq!(begin_recording(&mut state), Ok(()));
        assert_eq!(
            prepare_capture(&mut state, encoding, 48000),
            Err(AudioError::UnsupportedSampleFormat)
        );
        assert!(is_idle(&state));
    }
    assert_eq!(begin_recording(&mut state), Ok(()));
    assert_eq!(prepare_capture(&mut state, SampleEncoding::Signed16, 48000), Ok(()));
    assert_eq!(
        finish_start(&mut state, Err(AudioError::DeviceEnumerationError)),
        Err(AudioError::DeviceEnumerationError)
    );
    assert!(is_idle(&state));
}

#[test]
fn every_integer_and_float_encoding_is_handled() {
    for encoding in [
        SampleEncoding::Signed8,
        SampleEncoding::Signed16,
        SampleEncoding::Signed24,
        SampleEncoding::Signed32,
        SampleEncoding::Signed64,
        SampleEncoding::Unsigned8,
        SampleEncoding::Unsigned16,
        SampleEncoding::Unsigned24,
        SampleEncoding::Unsigned32,
        SampleEncoding::Unsigned64,
        SampleEncoding::Float32,
        SampleEncoding::Float64,
    ] {
        assert!(encoding.supported());
    }
}

#[test]
fn a_broken_session_fails_the_stop() {
    let mut state: AudioState<u8> = AudioState::new();
    assert_eq!(begin_recording(&mut state), Ok(()));
    assert_eq!(stop_recording(&mut state).unwrap_err(), AudioError::StreamNotInitialized);
    assert!(is_idle(&state));
    let mut state: AudioState<u8> = AudioState {
        is_recording: true,
        samples: vec![1],
        stream: Some(1),
        sample_rate: None,
    };
    assert_eq!(stop_recording(&mut state).unwrap_err(), AudioError::MissingSampleRate);
    assert!(is_idle(&state));
}

#[test]
fn each_error_says_what_went_wrong() {
    assert_eq!(AudioError::AlreadyRecording.message(), "Recording already in progress");
    assert_eq!(AudioError::NotRecording.message(), "Recording is not active");
    assert_eq!(AudioError::NoDefaultDevice.message(), "No default input device available");
    assert_eq!(AudioError::StreamNotInitialized.message(), "Audio stream was not initialized");
    assert_eq!(AudioError::MissingSampleRate.message(), "Sample rate missing");
    assert_eq!(AudioError::DeviceNotFound.message(), "Input device not found");
    assert_eq!(AudioError::UnsupportedSampleFormat.message(), "Unsupported sample format");
    assert_eq!(AudioError::DeviceEnumerationError.message(), "Input devices could not be listed");
    assert_eq!(AudioError::EncodingError.message(), "Audio could not be encoded");
    assert_eq!(AudioError::StreamError.message(), "Audio stream could not be opened");
}

#[test]
fn a_start_goes_from_the_device_to_its_configuration_to_the_stream() {
    let mut state: AudioState<u8> = AudioState::new();
    assert_eq!(start_recording(&mut state, StartEvent::Requested), StartAction::Resolve);
    assert!(state.is_recording);
    let query = DeviceQuery::Selected {
        selector: "USB Mic".to_string(),
        enumeration: Some(vec![report("Built-in Mic", "dev0"), report("USB Mic", "dev1")]),
    };
    let device = DeviceChoice::Listed(1);
    assert_eq!(
        start_recording(&mut state, StartEvent::Resolved(query)),
        StartAction::Configure(device)
    );
    let config =
        CaptureConfig { channels: 2, sample_rate: 48000, encoding: SampleEncoding::Signed16 };
    assert_eq!(
        start_recording(&mut state, StartEvent::Configured(device, Some(config))),
        StartAction::Open(device, config)
    );
    assert!(state.is_recording);
    assert!(state.samples.is_empty());
    assert_eq!(state.sample_rate, Some(48000));
    assert_eq!(state.stream, None);
    assert_eq!(start_recording(&mut state, StartEvent::Opened(Some(9))), StartAction::Started);
    assert_eq!(state.stream, Some(9));
    append_samples(
        &mut state,
        bits(&capture_input_data(&[0.25f32, 0.0, 0.5, 0.0], config.channels)),
    );
    assert_eq!(
        start_recording(&mut state, StartEvent::Requested),
        StartAction::Failed(AudioError::AlreadyRecording)
    );
    assert_eq!(state.samples, bits(&[0.25, 0.5]));
    assert_eq!(state.sample_rate, Some(48000));
    assert_eq!(state.stream, Some(9));
    let container = stop_recording(&mut state).unwrap();
    assert_eq!(read_back(container), (48000, bits(&[0.25, 0.5])));
    assert!(is_idle(&state));
}

#[test]
fn a_start_on_the_default_device() {
    let mut state: AudioState<u8> = AudioState::new();
    assert_eq!(start_recording(&mut state, StartEvent::Requested), StartAction::Resolve);
    assert_eq!(
        start_recording(
            &mut state,
            StartEvent::Resolved(DeviceQuery::SystemDefault { present: true })
        ),
        StartAction::Configure(DeviceChoice::SystemDefault)
    );
    assert!(state.is_recording);
}

#[test]
fn each_failing_step_puts_the_session_to_rest() {
    let config =
        CaptureConfig { channels: 1, sample_rate: 16000, encoding: SampleEncoding::Float32 };
    let dsd = CaptureConfig { channels: 1, sample_rate: 16000, encoding: SampleEncoding::Dsd8 };
    let device = DeviceChoice::SystemDefault;
    let failing: Vec<(StartEvent<u8>, AudioError)> = vec![
        (
            StartEvent::Resolved(DeviceQuery::SystemDefault { present: false }),
            AudioError::NoDefaultDevice,
        ),
        (
            StartEvent::Resolved(DeviceQuery::Selected {
                selector: "x".to_string(),
                enumeration: Some(vec![report("A", "1")]),
            }),
            AudioError::DeviceNotFound,
        ),
        (
            StartEvent::Resolved(DeviceQuery::Selected {
                selector: "x".to_string(),
                enumeration: None,
            }),
            AudioError::DeviceEnumerationError,
        ),
        (StartEvent::Configured(device, None), AudioError::StreamError),
        (StartEvent::Configured(device, Some(dsd)), AudioError::UnsupportedSampleFormat),
        (StartEvent::Opened(None), AudioError::StreamError),
    ];
    for (event, error) in failing {
        let mut state: AudioState<u8> = AudioState::new();
        assert_eq!(start_recording(&mut state, StartEvent::Requested), StartAction::Resolve);
        if matches!(event, StartEvent::Opened(_)) {
            assert_eq!(
                start_recording(&mut state, StartEvent::Configured(device, Some(config))),
                StartAction::Open(device, config)
            );
        }
        assert_eq!(start_recording(&mut state, event), StartAction::Failed(error));
        assert!(is_idle(&state));
        assert_eq!(start_recording(&mut state, StartEvent::Requested), StartAction::Resolve);
    }
}
