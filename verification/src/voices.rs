//! Voice-sample intake: identifier sanitizing, payload decoding and WAV
//! validation. Writing the file is the caller's job; everything that
//! decides is here.

use vstd::prelude::*;
use vstd::string::StrSliceExecFns;
use vstd::string::StringExecFns;
use vstd::string::StringSliceAdditionalSpecFns;

use crate::text::{
    find_char, spec_find_char, spec_starts_with, spec_trim, str_starts_with, trim_str,
};

verus! {

/// The largest accepted voice payload, in bytes.
pub const MAX_VOICE_SIZE: usize = 10 * 1024 * 1024;

/// Whether a character is alphanumeric; the result depends on the
/// character alone.
pub uninterp spec fn is_alnum(c: char) -> bool;

/// Relies on char::is_alphanumeric: the Unicode letter-or-number test,
/// a pure function of the character.
#[verifier::external_body]
fn char_alphanumeric(c: char) -> (r: bool)
    ensures
        r == is_alnum(c),
{
    c.is_alphanumeric()
}

/// A character acceptable in a voice identifier.
pub open spec fn valid_voice_char(c: char) -> bool {
    is_alnum(c) || c == '_' || c == '-'
}

/// An acceptable voice identifier: nonempty, at most 255 bytes, and made
/// of alphanumerics, underscores and hyphens alone.
pub open spec fn spec_valid_voice_id(s: &str) -> bool {
    &&& s@.len() > 0
    &&& s.spec_bytes().len() <= 255
    &&& forall|i: int| 0 <= i < s@.len() ==> valid_voice_char(s@[i])
}

/// The rejection message of an unacceptable voice identifier.
pub open spec fn spec_sanitize_err(s: &str) -> Seq<char> {
    if s@.len() == 0 {
        "Voice ID cannot be empty"@
    } else if s.spec_bytes().len() > 255 {
        "Voice ID too long (max 255 characters)"@
    } else {
        "Voice ID contains an invalid character: only alphanumeric, underscore, and hyphen are allowed"@
    }
}

/// Accepts a voice identifier unchanged, or rejects it with the reason.
pub fn sanitize_voice_id(voice_id: &str) -> (r: Result<String, String>)
    ensures
        r is Ok <==> spec_valid_voice_id(voice_id),
        r matches Ok(s) ==> s@ == voice_id@,
        r matches Err(m) ==> m@ == spec_sanitize_err(voice_id),
{
    if voice_id.is_empty() {
        return Err(String::from_str("Voice ID cannot be empty"));
    }
    if voice_id.as_bytes().len() > 255 {
        return Err(String::from_str("Voice ID too long (max 255 characters)"));
    }
    let n = voice_id.unicode_len();
    let mut i: usize = 0;
    loop
        invariant
            i <= n,
            n == voice_id@.len(),
            forall|j: int| 0 <= j < i ==> valid_voice_char(voice_id@[j]),
        ensures
            i <= n,
            forall|j: int| 0 <= j < i ==> valid_voice_char(voice_id@[j]),
            i == n || !valid_voice_char(voice_id@[i as int]),
        decreases n - i,
    {
        if i >= n {
            break ;
        }
        let c = voice_id.get_char(i);
        if !char_alphanumeric(c) && c != '_' && c != '-' {
            break ;
        }
        i += 1;
    }
    if i < n {
        Err(
            String::from_str(
                "Voice ID contains an invalid character: only alphanumeric, underscore, and hyphen are allowed",
            ),
        )
    } else {
        Ok(String::from_str(voice_id))
    }
}

/// The RIFF/WAVE container header: `RIFF`, four size bytes, `WAVE`.
pub open spec fn spec_wav_header(d: Seq<u8>) -> bool {
    &&& d.len() >= 12
    &&& d[0] == 82u8  // 'R'
    &&& d[1] == 73u8  // 'I'
    &&& d[2] == 70u8  // 'F'
    &&& d[3] == 70u8  // 'F'
    &&& d[8] == 87u8  // 'W'
    &&& d[9] == 65u8  // 'A'
    &&& d[10] == 86u8  // 'V'
    &&& d[11] == 69u8  // 'E'
}

/// Checks the RIFF/WAVE container header.
pub fn is_valid_wav_header(data: &[u8]) -> (r: bool)
    ensures
        r == spec_wav_header(data@),
{
    if data.len() < 12 {
        return false;
    }
    data[0] == 82 && data[1] == 73 && data[2] == 70 && data[3] == 70 && data[8] == 87 && data[9]
        == 65 && data[10] == 86 && data[11] == 69
}

/// The base64 text carried by a payload: for a data URL, the text between
/// the first comma and the next; otherwise the payload itself. `None` when
/// a data URL has no comma.
pub open spec fn spec_data_url_payload(s: Seq<char>) -> Option<Seq<char>> {
    if spec_starts_with(s, "data:"@) {
        let c1 = spec_find_char(s, ',');
        if c1 == s.len() {
            None
        } else {
            let rest = s.skip(c1 + 1);
            Some(rest.take(spec_find_char(rest, ',')))
        }
    } else {
        Some(s)
    }
}

/// What base64's standard-alphabet decode produces; a pure function of the
/// input text, `Some` exactly on well-formed input.
pub uninterp spec fn b64_standard_decoded(s: Seq<char>) -> Option<Seq<u8>>;

/// Relies on base64's `Engine::decode` with the standard-alphabet engine:
/// deterministic in the input text, `Ok` exactly on well-formed base64.
#[verifier::external_body]
fn b64_decode(s: &str) -> (r: Result<Vec<u8>, base64::DecodeError>)
    ensures
        r matches Ok(v) ==> b64_standard_decoded(s@) == Some(v@),
        r is Err ==> b64_standard_decoded(s@) is None,
{
    base64::Engine::decode(&base64::engine::general_purpose::STANDARD, s)
}

#[verifier::external_type_specification]
#[verifier::external_body]
pub struct ExDecodeError(base64::DecodeError);

/// The bytes a payload decodes to, after data-URL unwrapping and trimming.
pub open spec fn spec_decoded_voice(b: &str) -> Option<Seq<u8>> {
    match spec_data_url_payload(b@) {
        Some(p) => b64_standard_decoded(spec_trim(p)),
        None => None,
    }
}

/// Whether a payload is accepted: it decodes, fits the size bound, and
/// carries the RIFF/WAVE header.
pub open spec fn spec_voice_accepts(b: &str) -> bool {
    match spec_decoded_voice(b) {
        Some(d) => d.len() <= MAX_VOICE_SIZE && spec_wav_header(d),
        None => false,
    }
}

/// The rejection message of an unacceptable payload.
pub open spec fn spec_decode_err(b: &str) -> Seq<char> {
    match spec_data_url_payload(b@) {
        None => "Invalid data URL format"@,
        Some(p) => match b64_standard_decoded(spec_trim(p)) {
            None => "Failed to decode base64 data"@,
            Some(d) => if d.len() > MAX_VOICE_SIZE {
                "Voice file too large"@
            } else {
                "Invalid WAV file: missing RIFF/WAVE header"@
            },
        },
    }
}

/// Decodes a voice payload — a bare base64 text or a data URL — and
/// validates size and container header.
pub fn decode_voice_payload(base64_wav: &str) -> (r: Result<Vec<u8>, String>)
    ensures
        r is Ok <==> spec_voice_accepts(base64_wav),
        r matches Ok(v) ==> Some(v@) == spec_decoded_voice(base64_wav),
        r matches Err(m) ==> m@ == spec_decode_err(base64_wav),
{
    let n = base64_wav.unicode_len();
    let payload: &str = if str_starts_with(base64_wav, "data:") {
        let c1 = find_char(base64_wav, ',');
        if c1 == n {
            return Err(String::from_str("Invalid data URL format"));
        }
        let rest = base64_wav.substring_char(c1 + 1, n);
        proof {
            assert(rest@ =~= base64_wav@.skip(c1 + 1));
        }
        let c2 = find_char(rest, ',');
        let piece = rest.substring_char(0, c2);
        proof {
            assert(piece@ =~= base64_wav@.skip(c1 + 1).take(c2 as int));
        }
        piece
    } else {
        base64_wav
    };
    let trimmed = trim_str(payload);
    let decoded = match b64_decode(trimmed) {
        Ok(v) => v,
        Err(_) => {
            return Err(String::from_str("Failed to decode base64 data"));
        },
    };
    if decoded.len() > MAX_VOICE_SIZE {
        return Err(String::from_str("Voice file too large"));
    }
    if !is_valid_wav_header(decoded.as_slice()) {
        return Err(String::from_str("Invalid WAV file: missing RIFF/WAVE header"));
    }
    Ok(decoded)
}

/// Sanitizes the identifier, then decodes and validates the payload: the
/// accepted identifier and bytes, or the first rejection, identifier
/// first.
pub fn validate_voice_wav(voice_id: &str, base64_wav: &str) -> (r: Result<
    (String, Vec<u8>),
    String,
>)
    ensures
        r is Ok <==> (spec_valid_voice_id(voice_id) && spec_voice_accepts(base64_wav)),
        r matches Ok(p) ==> p.0@ == voice_id@ && Some(p.1@) == spec_decoded_voice(base64_wav),
        r matches Err(m) ==> m@ == (if !spec_valid_voice_id(voice_id) {
            spec_sanitize_err(voice_id)
        } else {
            spec_decode_err(base64_wav)
        }),
{
    let id = match sanitize_voice_id(voice_id) {
        Ok(id) => id,
        Err(m) => {
            return Err(m);
        },
    };
    match decode_voice_payload(base64_wav) {
        Ok(v) => Ok((id, v)),
        Err(m) => Err(m),
    }
}

/// The file a voice sample is stored at, inside the voices directory.
pub fn voice_file_path(voices_dir: &String, voice_id: &String) -> (r: String)
    ensures
        r@ == voices_dir@ + "/"@ + voice_id@ + ".wav"@,
{
    voices_dir.clone().concat("/").concat(voice_id.as_str()).concat(".wav")
}

} // verus!
