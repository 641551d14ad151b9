use voice_client::audio::AudioError;
use voice_client::wav::{
    container_result, encode_wav, BITS_PER_SAMPLE, CHANNELS, HEADER_LEN, MAX_SAMPLE_RATE,
};

fn reread(container: &[u8]) -> (hound::WavSpec, Vec<u32>) {
    let mut reader = hound::WavReader::new(std::io::Cursor::new(container.to_vec())).unwrap();
    let spec = reader.spec();
    let samples = reader.samples::<f32>().map(|x| x.unwrap().to_bits()).collect();
    (spec, samples)
}

fn le(bytes: &[u8], at: usize) -> u32 {
    u32::from_le_bytes([bytes[at], bytes[at + 1], bytes[at + 2], bytes[at + 3]])
}

#[test]
fn no_samples_give_a_container_without_frames() {
    let container = encode_wav(&vec![], 16000).unwrap();
    assert_eq!(container.len(), HEADER_LEN);
    assert_eq!(&container[0..4], b"RIFF");
    assert_eq!(&container[8..12], b"WAVE");
    assert_eq!(le(&container, 24), 16000);
    assert_eq!(le(&container, 64), 0);
    let (spec, samples) = reread(&container);
    assert_eq!(spec.channels, 1);
    assert_eq!(spec.channels, CHANNELS);
    assert_eq!(spec.sample_rate, 16000);
    assert_eq!(spec.bits_per_sample, 32);
    assert_eq!(spec.bits_per_sample, BITS_PER_SAMPLE);
    assert_eq!(spec.sample_format, hound::SampleFormat::Float);
    assert!(samples.is_empty());
}

#[test]
fn rereading_gives_the_samples_back_bit_for_bit() {
    let values: Vec<f32> = vec![
        0.0,
        -0.0,
        1.0,
        -1.0,
        0.1,
        std::f32::consts::PI,
        f32::MIN_POSITIVE,
        f32::MAX,
        f32::MIN,
        f32::EPSILON,
        f32::INFINITY,
        f32::NEG_INFINITY,
        1.0e-40,
    ];
    let samples: Vec<u32> = values.iter().map(|x| x.to_bits()).collect();
    for n in 0..=samples.len() {
        let container = encode_wav(&samples[..n].to_vec(), 44100).unwrap();
        assert_eq!(container.len(), HEADER_LEN + 4 * n);
        assert_eq!(le(&container, 24), 44100);
        assert_eq!(le(&container, 64) as usize, 4 * n);
        for i in 0..n {
            assert_eq!(le(&container, HEADER_LEN + 4 * i), samples[i]);
        }
        let (spec, reread) = reread(&container);
        assert_eq!(spec.sample_rate, 44100);
        assert_eq!(reread, samples[..n]);
    }
}

#[test]
fn the_container_is_what_the_writer_gives_for_the_same_numbers() {
    let values: Vec<f32> = vec![0.5, -0.25, 0.125];
    let samples: Vec<u32> = values.iter().map(|x| x.to_bits()).collect();
    let spec = hound::WavSpec {
        channels: 1,
        sample_rate: 8000,
        bits_per_sample: 32,
        sample_format: hound::SampleFormat::Float,
    };
    let mut cursor = std::io::Cursor::new(Vec::new());
    let mut writer = hound::WavWriter::new(&mut cursor, spec).unwrap();
    for value in &values {
        writer.write_sample(*value).unwrap();
    }
    writer.finalize().unwrap();
    assert_eq!(encode_wav(&samples, 8000).unwrap(), cursor.into_inner());
}

#[test]
fn a_rate_that_cannot_be_stated_is_an_encoding_error() {
    assert_eq!(encode_wav(&vec![1, 2], 0), Err(AudioError::EncodingError));
    assert_eq!(encode_wav(&vec![], 0), Err(AudioError::EncodingError));
    assert_eq!(encode_wav(&vec![1], MAX_SAMPLE_RATE + 1), Err(AudioError::EncodingError));
    assert_eq!(encode_wav(&vec![1], u32::MAX), Err(AudioError::EncodingError));
    let container = encode_wav(&vec![1], MAX_SAMPLE_RATE).unwrap();
    assert_eq!(le(&container, 24), MAX_SAMPLE_RATE);
    assert_eq!(le(&container, 28), 4 * MAX_SAMPLE_RATE);
}

#[test]
fn a_writer_that_failed_is_an_encoding_error() {
    assert_eq!(container_result(None), Err(AudioError::EncodingError));
    assert_eq!(container_result(Some(vec![1, 2])), Ok(vec![1, 2]));
}
