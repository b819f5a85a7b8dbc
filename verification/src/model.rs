//! The radio service's subsystem model: read-only telemetry accessors and
//! the pure halves of the fallback file-transfer commands.
//!
//! The service keeps basic capability to move files even when nothing but
//! the radio is running. The file system work (open, read, create, write)
//! happens outside this crate; deciding what bytes to write and how to
//! render what was read — including the optional base64 step for binary
//! payloads — happens here.
use vstd::prelude::*;
use vstd::utf8::encode_utf8;

verus! {

/// The communication engine's telemetry counters, as this service reads
/// them: packets moved and failed in each direction, and the accumulated
/// error reports, in order.
pub struct Telemetry {
    pub packets_up: i32,
    pub packets_down: i32,
    pub failed_packets_up: i32,
    pub failed_packets_down: i32,
    pub errors: Vec<String>,
}

/// The service's view of the subsystem it exposes: a snapshot of the
/// engine's telemetry.
pub struct Subsystem {
    pub telem: Telemetry,
}

/// What the base64 encoding (standard alphabet, padded) of a byte sequence
/// is. Stated only through the facts the trusted wrappers give.
pub uninterp spec fn base64_of(b: Seq<u8>) -> Seq<char>;

/// What base64 decoding (standard alphabet, padded) makes of a character
/// sequence: the decoded bytes, or nothing when the input is not well-formed
/// base64.
pub uninterp spec fn base64_decode_of(s: Seq<char>) -> Option<Seq<u8>>;

/// What the lossy UTF-8 reading of a byte sequence is (invalid sequences
/// become replacement characters).
pub uninterp spec fn utf8_lossy_of(b: Seq<u8>) -> Seq<char>;

/// Relies on base64::encode (standard alphabet, padded): the output is a
/// function of the input bytes alone, four characters for every whole or
/// partial group of three bytes, and base64::decode accepts the canonical
/// padded output and returns the input bytes. The bound keeps the output
/// size computable within a machine word, where base64::encode would panic.
#[verifier::external_body]
fn base64_encode(b: &[u8]) -> (r: String)
    requires
        b@.len() + 2 <= (usize::MAX as nat / 4) * 3,
    ensures
        r@ == base64_of(b@),
        r@.len() == ((b@.len() + 2) / 3) * 4,
        base64_decode_of(r@) == Some(b@),
{
    base64::encode(b)
}

/// The error base64 decoding reports; opaque here, mapped to this crate's
/// own report by the caller.
#[verifier::external_type_specification]
#[verifier::external_body]
pub struct ExDecodeError(base64::DecodeError);

/// Relies on base64::decode (standard alphabet, padded): success and output
/// are functions of the input characters alone.
#[verifier::external_body]
fn base64_decode(s: &str) -> (r: Result<Vec<u8>, base64::DecodeError>)
    ensures
        (match r {
            Ok(v) => base64_decode_of(s@) == Some(v@),
            Err(_) => base64_decode_of(s@) is None,
        }),
{
    base64::decode(s)
}

/// Relies on String::from_utf8_lossy: the output is a function of the input
/// bytes alone.
#[verifier::external_body]
fn utf8_lossy(b: &[u8]) -> (r: String)
    ensures
        r@ == utf8_lossy_of(b@),
{
    String::from_utf8_lossy(b).into_owned()
}

impl Subsystem {
    /// A subsystem over the given telemetry snapshot.
    pub fn new(telem: Telemetry) -> (r: Subsystem)
        ensures
            r.telem == telem,
    {
        Subsystem { telem }
    }

    /// The number of uplinked packets that failed.
    pub fn failed_packets_up(&self) -> (r: Result<i32, String>)
        ensures
            r == Ok::<i32, String>(self.telem.failed_packets_up),
    {
        Ok(self.telem.failed_packets_up)
    }

    /// The number of downlinked packets that failed.
    pub fn failed_packets_down(&self) -> (r: Result<i32, String>)
        ensures
            r == Ok::<i32, String>(self.telem.failed_packets_down),
    {
        Ok(self.telem.failed_packets_down)
    }

    /// The number of packets successfully uplinked.
    pub fn packets_up(&self) -> (r: Result<i32, String>)
        ensures
            r == Ok::<i32, String>(self.telem.packets_up),
    {
        Ok(self.telem.packets_up)
    }

    /// The number of packets successfully downlinked.
    pub fn packets_down(&self) -> (r: Result<i32, String>)
        ensures
            r == Ok::<i32, String>(self.telem.packets_down),
    {
        Ok(self.telem.packets_down)
    }

    /// The accumulated error reports, in order.
    pub fn errors(&self) -> (r: Result<Vec<String>, String>)
        ensures
            (r matches Ok(v) && v@ == self.telem.errors@),
    {
        let v = self.telem.errors.clone();
        proof {
            assert(v@ =~= self.telem.errors@);
        }
        Ok(v)
    }
}

/// The bytes an uploaded file's content stands for: the payload decoded from
/// base64 when the decode flag is set, the raw bytes of the text otherwise.
/// Fails when no payload was given or the payload is not well-formed base64,
/// with the report the service returns for that case.
pub fn prepare_upload(data: Option<String>, dec: Option<bool>) -> (r: Result<Vec<u8>, String>)
    ensures
        (match data {
            Option::None => (r matches Err(e) && e@ == "No data for file"@),
            Option::Some(d) => {
                if dec == Some(true) {
                    match base64_decode_of(d@) {
                        Option::Some(v) => (r matches Ok(b) && b@ == v),
                        Option::None => (r matches Err(e) && e@ == "Failed to decode data"@),
                    }
                } else {
                    (r matches Ok(b) && b@ == encode_utf8(d@))
                }
            }
        }),
{
    let d = match data {
        Option::Some(d) => d,
        Option::None => {
            return Err("No data for file".to_owned());
        }
    };
    let decode_flag = match dec {
        Option::Some(b) => b,
        Option::None => false,
    };
    if decode_flag {
        match base64_decode(d.as_str()) {
            Ok(v) => Ok(v),
            Err(_) => Err("Failed to decode data".to_owned()),
        }
    } else {
        Ok(d.as_str().as_bytes_vec())
    }
}

/// The text a downloaded file's bytes are rendered as: their base64 encoding
/// when the encode flag is set (for binary files), their lossy UTF-8 reading
/// otherwise.
pub fn encode_download(buffer: &Vec<u8>, enc: Option<bool>) -> (r: String)
    requires
        buffer@.len() + 2 <= (usize::MAX as nat / 4) * 3,
    ensures
        (if enc == Some(true) {
            r@ == base64_of(buffer@)
        } else {
            r@ == utf8_lossy_of(buffer@)
        }),
{
    let encode_flag = match enc {
        Option::Some(b) => b,
        Option::None => false,
    };
    if encode_flag {
        base64_encode(buffer.as_slice())
    } else {
        utf8_lossy(buffer.as_slice())
    }
}

/// The program a ground command names, or the report the service returns
/// when none was given.
pub fn command_path(path: Option<String>) -> (r: Result<String, String>)
    ensures
        (match path {
            Option::Some(p) => (r matches Ok(v) && v@ == p@),
            Option::None => (r matches Err(e) && e@ == "No command path specified"@),
        }),
{
    match path {
        Option::Some(p) => Ok(p),
        Option::None => Err("No command path specified".to_owned()),
    }
}

/// The report a ground command's output is rendered as: both streams read
/// lossily as text, under their labels.
pub fn command_report(stdout: &Vec<u8>, stderr: &Vec<u8>) -> (r: String)
    ensures
        r@ == "stdout: "@ + utf8_lossy_of(stdout@) + "\n\nstderr: "@ + utf8_lossy_of(
            stderr@,
        ),
{
    let mut r = String::new();
    r.append("stdout: ");
    let out_text = utf8_lossy(stdout.as_slice());
    r.append(out_text.as_str());
    r.append("\n\nstderr: ");
    let err_text = utf8_lossy(stderr.as_slice());
    r.append(err_text.as_str());
    proof {
        assert(r@ =~= "stdout: "@ + utf8_lossy_of(stdout@) + "\n\nstderr: "@
            + utf8_lossy_of(stderr@));
    }
    r
}

} // verus!
