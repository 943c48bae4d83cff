//! Audio aggregation: per-chunk result artifacts are validated to share one
//! audio format and their sample streams are concatenated in original chunk
//! order, never in completion order.

use vstd::prelude::*;
use vstd::arithmetic::div_mod::lemma_fundamental_div_mod;
use crate::error::Error;
use crate::text::dec_rep;
use crate::text::u64_to_dec;

verus! {

/// The audio format of a result artifact: authoritative for the merged
/// output once read from the first chunk.
#[derive(Clone, Copy, Debug, PartialEq, Eq, Structural)]
pub struct AudioSpec {
    /// Number of interleaved channels.
    pub channels: u16,
    /// Samples per second.
    pub sample_rate: u32,
    /// Bits per stored sample.
    pub bits_per_sample: u16,
}

/// One chunk's decoded result artifact: its format and its sample stream.
#[derive(Debug)]
pub struct ChunkAudio {
    pub spec: AudioSpec,
    pub samples: Vec<i16>,
}

/// The samples of a sequence of chunk artifacts, concatenated in order.
pub open spec fn concat_samples(ps: Seq<ChunkAudio>) -> Seq<i16>
    decreases ps.len(),
{
    if ps.len() == 0 {
        Seq::empty()
    } else {
        ps[0].samples@ + concat_samples(ps.drop_first())
    }
}

/// Concatenation grows one artifact at a time.
pub proof fn lemma_concat_samples_push(ps: Seq<ChunkAudio>, c: ChunkAudio)
    ensures
        concat_samples(ps.push(c)) == concat_samples(ps) + c.samples@,
    decreases ps.len(),
{
    if ps.len() == 0 {
        assert(ps.push(c)[0] == c);
        assert(ps.push(c).drop_first() =~= Seq::<ChunkAudio>::empty());
        assert(concat_samples(ps.push(c)) == ps.push(c)[0].samples@ + concat_samples(
            ps.push(c).drop_first(),
        ));
        assert(concat_samples(Seq::<ChunkAudio>::empty()) == Seq::<i16>::empty());
        assert(concat_samples(ps) == Seq::<i16>::empty());
        assert(concat_samples(ps.push(c)) =~= concat_samples(ps) + c.samples@);
    } else {
        assert(ps.push(c)[0] == ps[0]);
        assert(ps.push(c).drop_first() =~= ps.drop_first().push(c));
        lemma_concat_samples_push(ps.drop_first(), c);
        assert(concat_samples(ps.push(c)) =~= concat_samples(ps) + c.samples@);
    }
}

/// The first index at or after `i` whose format differs from chunk 0's.
pub open spec fn first_mismatch_from(ps: Seq<ChunkAudio>, i: int) -> Option<int>
    decreases ps.len() - i,
    when 0 <= i <= ps.len()
{
    if i >= ps.len() {
        None
    } else if ps[i].spec != ps[0].spec {
        Some(i)
    } else {
        first_mismatch_from(ps, i + 1)
    }
}

/// The first chunk whose format differs from chunk 0's, if any.
pub open spec fn first_mismatch(ps: Seq<ChunkAudio>) -> Option<int> {
    if ps.len() == 0 {
        None
    } else {
        first_mismatch_from(ps, 1)
    }
}

/// A matching prefix pushes the first mismatch past it.
proof fn lemma_mismatch_none(ps: Seq<ChunkAudio>, i: int)
    requires
        0 <= i <= ps.len(),
        forall|j: int| i <= j < ps.len() ==> (#[trigger] ps[j]).spec == ps[0].spec,
    ensures
        first_mismatch_from(ps, i) is None,
    decreases ps.len() - i,
{
    if i < ps.len() {
        lemma_mismatch_none(ps, i + 1);
    }
}

/// A found mismatch lies inside the sequence.
proof fn lemma_mismatch_in_range(ps: Seq<ChunkAudio>, i: int)
    requires
        0 <= i <= ps.len(),
    ensures
        first_mismatch_from(ps, i) matches Some(m) ==> i <= m < ps.len(),
    decreases ps.len() - i,
{
    if i < ps.len() {
        lemma_mismatch_in_range(ps, i + 1);
    }
}

/// A matching prefix up to a differing chunk pins the first mismatch.
proof fn lemma_mismatch_found(ps: Seq<ChunkAudio>, i: int, m: int)
    requires
        0 <= i <= m < ps.len(),
        forall|j: int| i <= j < m ==> (#[trigger] ps[j]).spec == ps[0].spec,
        ps[m].spec != ps[0].spec,
    ensures
        first_mismatch_from(ps, i) == Some(m),
    decreases m - i,
{
    if i < m {
        lemma_mismatch_found(ps, i + 1, m);
    }
}

/// Appends every sample of `src` to `dst`, in order.
fn append_samples(dst: &mut Vec<i16>, src: &Vec<i16>)
    ensures
        final(dst)@ == old(dst)@ + src@,
{
    let mut t: usize = 0;
    while t < src.len()
        invariant
            t <= src@.len(),
            dst@ == old(dst)@ + src@.take(t as int),
        decreases src@.len() - t,
    {
        dst.push(src[t]);
        proof {
            assert(src@.take(t as int).push(src@[t as int]) =~= src@.take(t as int + 1));
            assert(dst@ =~= old(dst)@ + src@.take(t as int + 1));
        }
        t = t + 1;
    }
    proof {
        assert(src@.take(src@.len() as int) =~= src@);
        assert(dst@ =~= old(dst)@ + src@);
    }
}

/// Merges the chunk artifacts in original chunk order.
///
/// The first chunk's format is authoritative; every later chunk must match
/// it exactly, else the merge fails naming the first offending chunk and
/// produces nothing. On success the merged artifact carries that format
/// and exactly the concatenation of all sample streams. An empty result
/// set is rejected.
pub fn combine(parts: &Vec<ChunkAudio>) -> (r: Result<ChunkAudio, Error>)
    ensures
        parts@.len() == 0 ==> (r matches Err(e) && (e matches Error::Validation { detail }
            && detail@ == "no results to combine"@)),
        parts@.len() > 0 && first_mismatch(parts@) is None ==> (r matches Ok(c) && c.spec
            == parts@[0].spec && c.samples@ == concat_samples(parts@)),
        first_mismatch(parts@) matches Some(i) ==> (r matches Err(e) && (e
            matches Error::FormatMismatch { chunk, expected, found } && chunk == i && expected
            == parts@[0].spec && found == parts@[i].spec)),
{
    if parts.len() == 0 {
        return Err(Error::Validation { detail: String::from_str("no results to combine") });
    }
    let spec0: AudioSpec = parts[0].spec;
    let mut samples: Vec<i16> = Vec::new();
    append_samples(&mut samples, &parts[0].samples);
    proof {
        assert(parts@.take(1).len() == 1);
        assert(parts@.take(1).drop_first() =~= Seq::<ChunkAudio>::empty());
        assert(parts@.take(1)[0] == parts@[0]);
        assert(concat_samples(parts@.take(1)) == parts@.take(1)[0].samples@ + concat_samples(
            parts@.take(1).drop_first(),
        ));
        assert(concat_samples(Seq::<ChunkAudio>::empty()) == Seq::<i16>::empty());
        assert(concat_samples(parts@.take(1)) =~= parts@[0].samples@);
        assert(samples@ =~= concat_samples(parts@.take(1)));
    }
    let mut i: usize = 1;
    while i < parts.len()
        invariant
            1 <= i <= parts@.len(),
            spec0 == parts@[0].spec,
            forall|j: int| 1 <= j < i ==> (#[trigger] parts@[j]).spec == parts@[0].spec,
            samples@ == concat_samples(parts@.take(i as int)),
        decreases parts@.len() - i,
    {
        if parts[i].spec != spec0 {
            proof {
                lemma_mismatch_found(parts@, 1, i as int);
            }
            return Err(
                Error::FormatMismatch { chunk: i, expected: spec0, found: parts[i].spec },
            );
        }
        append_samples(&mut samples, &parts[i].samples);
        proof {
            lemma_concat_samples_push(parts@.take(i as int), parts@[i as int]);
            assert(parts@.take(i as int).push(parts@[i as int]) =~= parts@.take(i as int + 1));
        }
        i = i + 1;
    }
    proof {
        lemma_mismatch_none(parts@, 1);
        assert(parts@.take(parts@.len() as int) =~= parts@);
    }
    Ok(ChunkAudio { spec: spec0, samples })
}

/// What hound parses out of WAV bytes: the format fields (channels, sample
/// rate, bits per sample) and the 16-bit sample stream on success, nothing
/// when it rejects the bytes. Decoding depends on the bytes alone.
pub uninterp spec fn wav_parse(bytes: Seq<u8>) -> Option<((u16, u32, u16), Seq<i16>)>;

/// The WAV encoding hound produces for the given format fields and sample
/// stream; a function of them alone.
pub uninterp spec fn wav_bytes(
    channels: u16,
    sample_rate: u32,
    bits_per_sample: u16,
    samples: Seq<i16>,
) -> Seq<u8>;

/// The format a parsed artifact carries.
pub open spec fn parsed_spec_of(bytes: Seq<u8>) -> AudioSpec
    recommends
        wav_parse(bytes) is Some,
{
    AudioSpec {
        channels: wav_parse(bytes)->Some_0.0.0,
        sample_rate: wav_parse(bytes)->Some_0.0.1,
        bits_per_sample: wav_parse(bytes)->Some_0.0.2,
    }
}

/// The sample stream a parsed artifact carries.
pub open spec fn parsed_samples_of(bytes: Seq<u8>) -> Seq<i16>
    recommends
        wav_parse(bytes) is Some,
{
    wav_parse(bytes)->Some_0.1
}

/// Relies on `hound::WavReader`: `new` parses the WAV header from the
/// bytes, `spec` hands out the format fields, and the `samples::<i16>`
/// iterator yields the sample stream, failing on bytes hound rejects; all
/// of it a function of the bytes alone.
#[verifier::external_body]
fn decode_wav(bytes: &Vec<u8>) -> (r: Result<ChunkAudio, String>)
    ensures
        r matches Ok(c) ==> wav_parse(bytes@) matches Some(p) && c.spec.channels == p.0.0
            && c.spec.sample_rate == p.0.1 && c.spec.bits_per_sample == p.0.2 && c.samples@
            == p.1,
        r is Err ==> wav_parse(bytes@) is None,
{
    let mut reader = hound::WavReader::new(bytes.as_slice()).map_err(|e| e.to_string())?;
    let spec = reader.spec();
    let samples = reader.samples::<i16>().collect::<Result<Vec<i16>, _>>().map_err(
        |e| e.to_string(),
    )?;
    let format = AudioSpec {
        channels: spec.channels,
        sample_rate: spec.sample_rate,
        bits_per_sample: spec.bits_per_sample,
    };
    Ok(ChunkAudio { spec: format, samples })
}

/// Relies on `hound::WavWriter` over an in-memory cursor: `new` writes the
/// header (failing on bit depths hound cannot write),
/// `write_sample::<i16>` appends each sample, and `finalize` completes the
/// header; the bytes are a function of the format fields and samples
/// alone, and hound accepts every 16-bit stream whose length is a multiple
/// of the channel count. The bounds keep hound's arithmetic total: the bit
/// depth cap its 16-bit bytes-per-sample computation (hound writes at most
/// 32 bits anyway), the products its 32-bit header fields, and the
/// positive rate and channel count its block-align division and its
/// whole-frame check.
#[verifier::external_body]
fn encode_wav(spec: AudioSpec, samples: &Vec<i16>) -> (r: Result<Vec<u8>, String>)
    requires
        spec.channels >= 1,
        spec.sample_rate >= 1,
        spec.bits_per_sample <= 32,
        (spec.sample_rate as int) * (((spec.bits_per_sample as int) + 7) / 8) * (
        spec.channels as int) <= u32::MAX as int,
        samples@.len() * (((spec.bits_per_sample as int) + 7) / 8) + 68 <= u32::MAX as int,
    ensures
        r matches Ok(b) ==> b@ == wav_bytes(
            spec.channels,
            spec.sample_rate,
            spec.bits_per_sample,
            samples@,
        ),
        r is Err ==> !(spec.bits_per_sample == 16 && (samples@.len() as int) % (
        spec.channels as int) == 0),
{
    let wav_spec = hound::WavSpec {
        channels: spec.channels,
        sample_rate: spec.sample_rate,
        bits_per_sample: spec.bits_per_sample,
        sample_format: hound::SampleFormat::Int,
    };
    let mut cursor = std::io::Cursor::new(Vec::new());
    let mut writer = hound::WavWriter::new(&mut cursor, wav_spec).map_err(|e| e.to_string())?;
    for s in samples.iter() {
        writer.write_sample(*s).map_err(|e| e.to_string())?;
    }
    writer.finalize().map_err(|e| e.to_string())?;
    Ok(cursor.into_inner())
}

/// Every artifact's bytes parse as WAV.
pub open spec fn all_parse(parts: Seq<Vec<u8>>) -> bool {
    forall|k: int| 0 <= k < parts.len() ==> wav_parse((#[trigger] parts[k])@) is Some
}

/// The sample streams of parsed artifacts, concatenated in order.
pub open spec fn wav_concat_samples(parts: Seq<Vec<u8>>) -> Seq<i16>
    decreases parts.len(),
{
    if parts.len() == 0 {
        Seq::empty()
    } else {
        parsed_samples_of(parts[0]@) + wav_concat_samples(parts.drop_first())
    }
}

/// The first parsed artifact at or after `i` whose format differs from
/// artifact 0's.
pub open spec fn wav_mismatch_from(parts: Seq<Vec<u8>>, i: int) -> Option<int>
    decreases parts.len() - i,
    when 0 <= i <= parts.len()
{
    if i >= parts.len() {
        None
    } else if parsed_spec_of(parts[i]@) != parsed_spec_of(parts[0]@) {
        Some(i)
    } else {
        wav_mismatch_from(parts, i + 1)
    }
}

/// The first parsed artifact whose format differs from artifact 0's.
pub open spec fn wav_first_mismatch(parts: Seq<Vec<u8>>) -> Option<int> {
    if parts.len() == 0 {
        None
    } else {
        wav_mismatch_from(parts, 1)
    }
}

/// Decoded artifacts mirror the byte-level mismatch search.
proof fn lemma_mismatch_bridge(parts: Seq<Vec<u8>>, decoded: Seq<ChunkAudio>, i: int)
    requires
        parts.len() == decoded.len(),
        forall|j: int| 0 <= j < parts.len() ==> (#[trigger] decoded[j]).spec == parsed_spec_of(
            parts[j]@,
        ),
        0 <= i <= parts.len(),
    ensures
        wav_mismatch_from(parts, i) == first_mismatch_from(decoded, i),
    decreases parts.len() - i,
{
    if i < parts.len() {
        lemma_mismatch_bridge(parts, decoded, i + 1);
    }
}

/// Decoded artifacts mirror the byte-level sample concatenation.
proof fn lemma_concat_bridge(parts: Seq<Vec<u8>>, decoded: Seq<ChunkAudio>)
    requires
        parts.len() == decoded.len(),
        forall|j: int| 0 <= j < parts.len() ==> (#[trigger] decoded[j]).samples@
            == parsed_samples_of(parts[j]@),
    ensures
        wav_concat_samples(parts) == concat_samples(decoded),
    decreases parts.len(),
{
    if parts.len() > 0 {
        assert(forall|j: int|
            0 <= j < parts.drop_first().len() ==> (#[trigger] parts.drop_first()[j]) == parts[j
                + 1]);
        assert(forall|j: int|
            0 <= j < decoded.drop_first().len() ==> (#[trigger] decoded.drop_first()[j])
                == decoded[j + 1]);
        lemma_concat_bridge(parts.drop_first(), decoded.drop_first());
    }
}

/// Bytes hound stores per sample of this format.
pub open spec fn bytes_per_sample_of(spec: AudioSpec) -> int {
    ((spec.bits_per_sample as int) + 7) / 8
}

/// Whether the merge hands this format to the encoder at all: at least one
/// channel, a positive sample rate, a bit depth within what hound writes,
/// and a byte rate inside hound's 32-bit header field.
pub open spec fn format_guard_ok(spec: AudioSpec) -> bool {
    &&& spec.channels >= 1
    &&& spec.sample_rate >= 1
    &&& 1 <= spec.bits_per_sample <= 32
    &&& (spec.sample_rate as int) * bytes_per_sample_of(spec) * (spec.channels as int)
        <= u32::MAX as int
}

/// Whether the merged sample stream fits hound's 32-bit size fields.
pub open spec fn fits_wav_size(spec: AudioSpec, samples: Seq<i16>) -> bool {
    samples.len() <= ((u32::MAX - 68) as int) / bytes_per_sample_of(spec)
}

/// Whether hound is promised to encode this format and sample stream: a
/// 16-bit integer stream of whole frames, under a format and size the
/// merge accepts.
pub open spec fn encodable(spec: AudioSpec, samples: Seq<i16>) -> bool {
    &&& spec.bits_per_sample == 16
    &&& format_guard_ok(spec)
    &&& fits_wav_size(spec, samples)
    &&& (samples.len() as int) % (spec.channels as int) == 0
}

/// The first artifact at or after `i` that hound does not parse.
pub open spec fn first_unparsed_from(parts: Seq<Vec<u8>>, i: int) -> Option<int>
    decreases parts.len() - i,
    when 0 <= i <= parts.len()
{
    if i >= parts.len() {
        None
    } else if wav_parse(parts[i]@) is None {
        Some(i)
    } else {
        first_unparsed_from(parts, i + 1)
    }
}

/// The first artifact hound does not parse, if any.
pub open spec fn first_unparsed(parts: Seq<Vec<u8>>) -> Option<int> {
    first_unparsed_from(parts, 0)
}

/// A parsed prefix up to an unparsable artifact pins the first failure.
proof fn lemma_unparsed_found(parts: Seq<Vec<u8>>, i: int, m: int)
    requires
        0 <= i <= m < parts.len(),
        forall|j: int| i <= j < m ==> wav_parse((#[trigger] parts[j])@) is Some,
        wav_parse(parts[m]@) is None,
    ensures
        first_unparsed_from(parts, i) == Some(m),
    decreases m - i,
{
    if i < m {
        lemma_unparsed_found(parts, i + 1, m);
    }
}

/// When every artifact parses, there is no first failure.
proof fn lemma_unparsed_none(parts: Seq<Vec<u8>>, i: int)
    requires
        0 <= i <= parts.len(),
        forall|j: int| i <= j < parts.len() ==> wav_parse((#[trigger] parts[j])@) is Some,
    ensures
        first_unparsed_from(parts, i) is None,
    decreases parts.len() - i,
{
    if i < parts.len() {
        lemma_unparsed_none(parts, i + 1);
    }
}

/// Merges per-chunk WAV result artifacts into one WAV output.
///
/// Decodes each artifact in original chunk order, requires every format to
/// match the first artifact's exactly, concatenates the sample streams and
/// encodes the merged stream under the authoritative format. An empty
/// result set is rejected; an artifact hound cannot parse is a protocol
/// error naming the first offending chunk; a format disagreement names the
/// first offending chunk; either way no output is produced. A format the
/// encoder is not promised to handle is refused as a validation error
/// before hound sees it.
pub fn combine_wav(parts: &Vec<Vec<u8>>) -> (r: Result<Vec<u8>, Error>)
    ensures
        parts@.len() == 0 ==> (r matches Err(e) && (e matches Error::Validation { detail }
            && detail@ == "no results to combine"@)),
        r matches Ok(out) ==> parts@.len() > 0 && all_parse(parts@) && wav_first_mismatch(
            parts@,
        ) is None && out@ == wav_bytes(
            parsed_spec_of(parts@[0]@).channels,
            parsed_spec_of(parts@[0]@).sample_rate,
            parsed_spec_of(parts@[0]@).bits_per_sample,
            wav_concat_samples(parts@),
        ),
        parts@.len() > 0 && !all_parse(parts@) ==> (r matches Err(e) && e
            matches Error::Protocol { .. }),
        first_unparsed(parts@) matches Some(b) ==> (r matches Err(e) && (e
            matches Error::Protocol { detail } && ("parsing WAVE input from chunk "@ + dec_rep(
            b as nat,
        ) + ": "@).is_prefix_of(detail@))),
        wav_first_mismatch(parts@) matches Some(i) ==> (all_parse(parts@) ==> (r matches Err(e)
            && (e matches Error::FormatMismatch { chunk, expected, found } && chunk == i
            && expected == parsed_spec_of(parts@[0]@) && found == parsed_spec_of(
            parts@[i]@,
        )))),
        parts@.len() > 0 && all_parse(parts@) && wav_first_mismatch(parts@) is None
            && !format_guard_ok(parsed_spec_of(parts@[0]@)) ==> (r matches Err(e) && (e
            matches Error::Validation { detail } && detail@
            == "unsupported audio format in results"@)),
        parts@.len() > 0 && all_parse(parts@) && wav_first_mismatch(parts@) is None
            && format_guard_ok(parsed_spec_of(parts@[0]@)) && !fits_wav_size(
            parsed_spec_of(parts@[0]@),
            wav_concat_samples(parts@),
        ) ==> (r matches Err(e) && (e matches Error::Validation { detail } && detail@
            == "merged audio is too long for a WAVE file"@)),
        parts@.len() > 0 && all_parse(parts@) && wav_first_mismatch(parts@) is None
            && encodable(parsed_spec_of(parts@[0]@), wav_concat_samples(parts@)) ==> r is Ok,
        parts@.len() > 0 && all_parse(parts@) && wav_first_mismatch(parts@) is None
            && format_guard_ok(parsed_spec_of(parts@[0]@)) && fits_wav_size(
            parsed_spec_of(parts@[0]@),
            wav_concat_samples(parts@),
        ) && r is Err ==> (r matches Err(e) && (e matches Error::Validation { detail }
            && ("encoding merged WAVE output: "@).is_prefix_of(detail@)
            && !(parsed_spec_of(parts@[0]@).bits_per_sample == 16 && (wav_concat_samples(
            parts@,
        ).len() as int) % (parsed_spec_of(parts@[0]@).channels as int) == 0))),
{
    if parts.len() == 0 {
        proof {
            assert(first_unparsed(parts@) is None);
        }
        return Err(Error::Validation { detail: String::from_str("no results to combine") });
    }
    let mut decoded: Vec<ChunkAudio> = Vec::new();
    let mut k: usize = 0;
    while k < parts.len()
        invariant
            k <= parts@.len(),
            decoded@.len() == k,
            forall|j: int|
                0 <= j < k ==> wav_parse((#[trigger] parts@[j])@) is Some && decoded@[j].spec
                    == parsed_spec_of(parts@[j]@) && decoded@[j].samples@ == parsed_samples_of(
                    parts@[j]@,
                ),
        decreases parts@.len() - k,
    {
        match decode_wav(&parts[k]) {
            Ok(c) => {
                decoded.push(c);
            },
            Err(m) => {
                proof {
                    lemma_unparsed_found(parts@, 0, k as int);
                }
                let mut detail: String = String::from_str("parsing WAVE input from chunk ");
                let idx: String = u64_to_dec(k as u64);
                detail.append(idx.as_str());
                detail.append(": ");
                detail.append(m.as_str());
                proof {
                    let prefix = "parsing WAVE input from chunk "@ + dec_rep(k as nat) + ": "@;
                    assert(detail@ =~= prefix + m@);
                    assert(prefix =~= detail@.subrange(0, prefix.len() as int));
                    assert(prefix.is_prefix_of(detail@));
                }
                return Err(Error::Protocol { detail });
            },
        }
        k = k + 1;
    }
    proof {
        lemma_unparsed_none(parts@, 0);
        lemma_mismatch_bridge(parts@, decoded@, 1);
        lemma_concat_bridge(parts@, decoded@);
        assert(decoded@[0].spec == parsed_spec_of(parts@[0]@));
        assert(all_parse(parts@));
        assert(wav_first_mismatch(parts@) == first_mismatch(decoded@));
        assert(wav_concat_samples(parts@) == concat_samples(decoded@));
    }
    let ghost espec: AudioSpec = parsed_spec_of(parts@[0]@);
    let ghost esamps: Seq<i16> = wav_concat_samples(parts@);
    match combine(&decoded) {
        Ok(c) => {
            let s: AudioSpec = c.spec;
            proof {
                assert(c.spec == espec);
                assert(c.samples@ == esamps);
            }
            let bps: u64 = ((s.bits_per_sample as u64) + 7) / 8;
            proof {
                assert(bps as int == bytes_per_sample_of(espec));
            }
            if s.channels == 0 || s.sample_rate == 0 || s.bits_per_sample > 32 || bps == 0 {
                proof {
                    if format_guard_ok(espec) {
                        assert(s.bits_per_sample >= 1);
                        assert(bps >= 1);
                        assert(false);
                    }
                }
                return Err(
                    Error::Validation {
                        detail: String::from_str("unsupported audio format in results"),
                    },
                );
            }
            proof {
                assert(bps <= 8192);
                assert((s.sample_rate as int) * (bps as int) <= 0xFFFF_FFFFint * 8192)
                    by (nonlinear_arith)
                    requires
                        0 <= (s.sample_rate as int) <= 0xFFFF_FFFFint,
                        0 <= (bps as int) <= 8192,
                ;
            }
            let m1: u64 = (s.sample_rate as u64) * bps;
            proof {
                assert((m1 as int) * (s.channels as int) <= 0xFFFF_FFFFint * 8192 * 0xFFFF)
                    by (nonlinear_arith)
                    requires
                        0 <= (m1 as int) <= 0xFFFF_FFFFint * 8192,
                        0 <= (s.channels as int) <= 0xFFFF,
                ;
            }
            let m2: u64 = m1 * (s.channels as u64);
            proof {
                assert(m1 as int == (s.sample_rate as int) * (bps as int));
                assert(m2 as int == (s.sample_rate as int) * (bps as int) * (s.channels as int));
            }
            if m2 > u32::MAX as u64 {
                proof {
                    if format_guard_ok(espec) {
                        assert(false);
                    }
                }
                return Err(
                    Error::Validation {
                        detail: String::from_str("unsupported audio format in results"),
                    },
                );
            }
            let cap: u64 = ((u32::MAX as u64) - 68) / bps;
            proof {
                assert(format_guard_ok(espec));
                assert(cap as int == ((u32::MAX - 68) as int) / bytes_per_sample_of(espec));
            }
            if (c.samples.len() as u64) > cap {
                proof {
                    assert(!fits_wav_size(espec, esamps));
                }
                return Err(
                    Error::Validation {
                        detail: String::from_str("merged audio is too long for a WAVE file"),
                    },
                );
            }
            proof {
                assert(fits_wav_size(espec, esamps));
                lemma_fundamental_div_mod((u32::MAX - 68) as int, bps as int);
                assert((c.samples@.len() as int) * (bps as int) <= (cap as int) * (bps as int))
                    by (nonlinear_arith)
                    requires
                        0 <= (c.samples@.len() as int) <= (cap as int),
                        (bps as int) >= 1,
                ;
                assert((cap as int) * (bps as int) <= (u32::MAX - 68) as int) by {
                    assert((u32::MAX - 68) as int == (bps as int) * (cap as int) + ((u32::MAX
                        - 68) as int) % (bps as int));
                    assert((bps as int) * (cap as int) == (cap as int) * (bps as int))
                        by (nonlinear_arith);
                }
            }
            match encode_wav(s, &c.samples) {
                Ok(bytes) => Ok(bytes),
                Err(m) => {
                    proof {
                        if encodable(espec, esamps) {
                            assert(s.bits_per_sample == 16);
                            assert((c.samples@.len() as int) % (s.channels as int) == 0);
                            assert(false);
                        }
                    }
                    let mut detail: String = String::from_str("encoding merged WAVE output: ");
                    detail.append(m.as_str());
                    proof {
                        let prefix = "encoding merged WAVE output: "@;
                        assert(detail@ =~= prefix + m@);
                        assert(prefix =~= detail@.subrange(0, prefix.len() as int));
                        assert(prefix.is_prefix_of(detail@));
                    }
                    Err(Error::Validation { detail })
                },
            }
        },
        Err(e) => {
            proof {
                let fm = first_mismatch(decoded@);
                if fm is Some {
                    let fi = fm->Some_0;
                    lemma_mismatch_in_range(decoded@, 1);
                    assert(1 <= fi < decoded@.len());
                    assert(wav_parse(parts@[fi]@) is Some);
                    assert(decoded@[fi].spec == parsed_spec_of(parts@[fi]@));
                }
            }
            Err(e)
        },
    }
}

} // verus!
