use g_flite::audio::{combine, combine_wav, AudioSpec, ChunkAudio};
use g_flite::error::Error;

fn spec_cd() -> AudioSpec {
    AudioSpec {
        channels: 1,
        sample_rate: 44_100,
        bits_per_sample: 16,
    }
}

fn chunk(spec: AudioSpec, samples: Vec<i16>) -> ChunkAudio {
    ChunkAudio { spec, samples }
}

fn wav_bytes_of(spec: AudioSpec, samples: &[i16]) -> Vec<u8> {
    let hound_spec = hound::WavSpec {
        channels: spec.channels,
        sample_rate: spec.sample_rate,
        bits_per_sample: spec.bits_per_sample,
        sample_format: hound::SampleFormat::Int,
    };
    let mut cursor = std::io::Cursor::new(Vec::new());
    let mut writer = hound::WavWriter::new(&mut cursor, hound_spec).unwrap();
    for s in samples {
        writer.write_sample(*s).unwrap();
    }
    writer.finalize().unwrap();
    cursor.into_inner()
}

fn decoded(bytes: &[u8]) -> (AudioSpec, Vec<i16>) {
    let mut reader = hound::WavReader::new(bytes).unwrap();
    let spec = reader.spec();
    let samples: Vec<i16> = reader.samples::<i16>().map(|s| s.unwrap()).collect();
    (
        AudioSpec {
            channels: spec.channels,
            sample_rate: spec.sample_rate,
            bits_per_sample: spec.bits_per_sample,
        },
        samples,
    )
}

#[test]
fn merges_sample_counts_in_chunk_order() {
    // Three artifacts of 10, 5 and 7 samples sharing one format merge into
    // 22 samples, in chunk order.
    let s = spec_cd();
    let first: Vec<i16> = (0..10).collect();
    let second: Vec<i16> = (100..105).collect();
    let third: Vec<i16> = (200..207).collect();
    let merged = combine(&vec![
        chunk(s, first.clone()),
        chunk(s, second.clone()),
        chunk(s, third.clone()),
    ])
    .unwrap();
    assert_eq!(merged.spec, s);
    assert_eq!(merged.samples.len(), 22);
    let mut expected = first;
    expected.extend(second);
    expected.extend(third);
    assert_eq!(merged.samples, expected);
}

#[test]
fn rejects_empty_result_set() {
    let err = combine(&Vec::new()).unwrap_err();
    assert_eq!(
        err,
        Error::Validation {
            detail: "no results to combine".to_string()
        }
    );
}

#[test]
fn rejects_mismatched_format_naming_the_chunk() {
    let s = spec_cd();
    let other = AudioSpec {
        channels: 2,
        sample_rate: 44_100,
        bits_per_sample: 16,
    };
    let err = combine(&vec![
        chunk(s, vec![1, 2]),
        chunk(other, vec![3, 4]),
        chunk(s, vec![5]),
    ])
    .unwrap_err();
    assert_eq!(
        err,
        Error::FormatMismatch {
            chunk: 1,
            expected: s,
            found: other,
        }
    );
    assert_eq!(
        err.message(),
        "chunk 1 has an audio format different from the first chunk"
    );
}

#[test]
fn merged_wav_round_trips_through_real_codec() {
    let s = spec_cd();
    let parts = vec![
        wav_bytes_of(s, &[1, -2, 3]),
        wav_bytes_of(s, &[40, 50]),
        wav_bytes_of(s, &[-600]),
    ];
    let merged = combine_wav(&parts).unwrap();
    let (out_spec, out_samples) = decoded(&merged);
    assert_eq!(out_spec, s);
    assert_eq!(out_samples, vec![1, -2, 3, 40, 50, -600]);
}

#[test]
fn wav_merge_rejects_mismatched_specs() {
    let s = spec_cd();
    let slower = AudioSpec {
        channels: 1,
        sample_rate: 22_050,
        bits_per_sample: 16,
    };
    let parts = vec![wav_bytes_of(s, &[1, 2]), wav_bytes_of(slower, &[3])];
    let err = combine_wav(&parts).unwrap_err();
    assert_eq!(
        err,
        Error::FormatMismatch {
            chunk: 1,
            expected: s,
            found: slower,
        }
    );
}

#[test]
fn wav_merge_rejects_unparsable_artifact() {
    let s = spec_cd();
    let parts = vec![wav_bytes_of(s, &[1, 2]), vec![0, 1, 2, 3]];
    let err = combine_wav(&parts).unwrap_err();
    assert!(matches!(err, Error::Protocol { .. }));
    assert!(err
        .message()
        .starts_with("protocol error: parsing WAVE input from chunk 1: "));
}

fn push_le16(bytes: &mut Vec<u8>, v: u16) {
    bytes.extend_from_slice(&v.to_le_bytes());
}

fn push_le32(bytes: &mut Vec<u8>, v: u32) {
    bytes.extend_from_slice(&v.to_le_bytes());
}

/// A zero-sample WAVEFORMATEXTENSIBLE file whose `wValidBitsPerSample`
/// field claims the given bit depth; hound adopts that field as the bit
/// depth of the decoded format.
fn extensible_wav_with_valid_bits(valid_bits: u16) -> Vec<u8> {
    let subtype_pcm: [u8; 16] = [
        0x01, 0x00, 0x00, 0x00, 0x00, 0x00, 0x10, 0x00, 0x80, 0x00, 0x00, 0xaa, 0x00, 0x38,
        0x9b, 0x71,
    ];
    let mut bytes: Vec<u8> = Vec::new();
    bytes.extend_from_slice(b"RIFF");
    push_le32(&mut bytes, 60);
    bytes.extend_from_slice(b"WAVE");
    bytes.extend_from_slice(b"fmt ");
    push_le32(&mut bytes, 40);
    push_le16(&mut bytes, 0xfffe); // WAVE_FORMAT_EXTENSIBLE
    push_le16(&mut bytes, 1); // channels
    push_le32(&mut bytes, 1); // sample rate
    push_le32(&mut bytes, 2); // bytes per second = block align * rate
    push_le16(&mut bytes, 2); // block align
    push_le16(&mut bytes, 16); // container bits per sample
    push_le16(&mut bytes, 22); // cbSize
    push_le16(&mut bytes, valid_bits);
    push_le32(&mut bytes, 0); // channel mask
    bytes.extend_from_slice(&subtype_pcm);
    bytes.extend_from_slice(b"data");
    push_le32(&mut bytes, 0);
    bytes
}

#[test]
fn wav_merge_rejects_oversized_bit_depth() {
    // The artifact decodes (zero samples, claimed bit depth 65535); the
    // merge must refuse the format rather than hand it to the encoder.
    let parts = vec![extensible_wav_with_valid_bits(65535)];
    let err = combine_wav(&parts).unwrap_err();
    assert_eq!(
        err,
        Error::Validation {
            detail: "unsupported audio format in results".to_string()
        }
    );
}

#[test]
fn wav_merge_rejects_empty_result_set() {
    let err = combine_wav(&Vec::new()).unwrap_err();
    assert_eq!(
        err,
        Error::Validation {
            detail: "no results to combine".to_string()
        }
    );
}

#[test]
fn io_error_message_names_the_path() {
    let err = Error::Io {
        path: "/tmp/x".to_string(),
        detail: "boom".to_string(),
    };
    assert_eq!(err.message(), "filesystem error at '/tmp/x': boom");
}
