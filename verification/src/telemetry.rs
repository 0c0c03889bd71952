//! Telemetry record parsing for the TCP console channel: length-prefixed
//! strings, console and error records, version records, and the accumulated
//! power-rail fault counters.

use vstd::prelude::*;
use vstd::string::StringExecFns;

use crate::codec::{be16_val, be32_at};
use crate::types::{ConsoleMessage, PowerData, VersionInfo};

verus! {

/// What `String::from_utf8_lossy` decodes the given bytes to; a function of
/// the bytes alone.
pub uninterp spec fn lossy_utf8_of(bytes: Seq<u8>) -> Seq<char>;

/// What `str::trim_end` leaves of the given characters; a function of the
/// characters alone.
pub uninterp spec fn trim_end_of(s: Seq<char>) -> Seq<char>;

/// Relies on String::from_utf8_lossy: the decoding depends on the bytes
/// alone, and no bytes decode to no characters.
#[verifier::external_body]
fn utf8_lossy(bytes: &[u8]) -> (r: String)
    ensures
        r@ == lossy_utf8_of(bytes@),
        bytes@.len() == 0 ==> r@.len() == 0,
{
    String::from_utf8_lossy(bytes).into_owned()
}

/// Relies on str::trim_end: the result is the longest prefix without
/// trailing whitespace, so a prefix of the input, and depends on the
/// characters alone.
#[verifier::external_body]
fn trim_end_str(s: &str) -> (r: String)
    ensures
        r@ == trim_end_of(s@),
        r@.len() <= s@.len(),
        r@ == s@.subrange(0, r@.len() as int),
{
    s.trim_end().to_owned()
}

/// Decode bytes leniently and strip trailing whitespace.
fn lossy_trimmed(bytes: &[u8]) -> (r: String)
    ensures
        r@ == trim_end_of(lossy_utf8_of(bytes@)),
{
    let s = utf8_lossy(bytes);
    trim_end_str(s.as_str())
}

// ---------------------------------------------------------------------------
// Length-prefixed strings
// ---------------------------------------------------------------------------

/// The declared length of the prefixed string at `off`.
pub open spec fn prefixed_len(data: Seq<u8>, off: int) -> int {
    be16_val(data[off], data[off + 1]) as int
}

/// Whether a whole length-prefixed string lies at `off`.
pub open spec fn prefixed_ok(data: Seq<u8>, off: int) -> bool {
    0 <= off && off + 2 <= data.len() && off + 2 + prefixed_len(data, off) <= data.len()
}

/// The prefixed string at `off`: its bytes decoded leniently, trailing
/// whitespace stripped.
pub open spec fn prefixed_str(data: Seq<u8>, off: int) -> Seq<char> {
    trim_end_of(lossy_utf8_of(data.subrange(off + 2, off + 2 + prefixed_len(data, off))))
}

/// The offset just past the prefixed string at `off`.
pub open spec fn prefixed_next(data: Seq<u8>, off: int) -> int {
    off + 2 + prefixed_len(data, off)
}

/// Read a length-prefixed string: a two-byte big-endian length, then that
/// many UTF-8 bytes, decoded leniently and stripped of trailing whitespace.
/// Returns the string and the offset just past it, or nothing where the
/// declared bytes run past the buffer.
pub fn read_prefixed_string(data: &[u8], offset: usize) -> (r: Option<(String, usize)>)
    ensures
        prefixed_ok(data@, offset as int) ==> (r matches Some(p) && p.0@ == prefixed_str(
            data@,
            offset as int,
        ) && p.1 == prefixed_next(data@, offset as int)),
        !prefixed_ok(data@, offset as int) ==> r is None,
{
    let n = data.len();
    if n < 2 || offset > n - 2 {
        return None;
    }
    let len = (data[offset] as usize) * 256 + (data[offset + 1] as usize);
    let start = offset + 2;
    if len > n - start {
        return None;
    }
    let s = lossy_trimmed(&data[start..start + len]);
    Some((s, start + len))
}

// ---------------------------------------------------------------------------
// Record parsing
// ---------------------------------------------------------------------------

/// What one telemetry record produces.
pub enum TelemetryEvent {
    Nothing,
    Console(ConsoleMessage),
    Power(PowerData),
    Version(VersionInfo),
}

/// The console text of a standard-output record's payload.
pub open spec fn stdout_message(data: Seq<u8>) -> Seq<char> {
    trim_end_of(lossy_utf8_of(data.subrange(6, data.len() as int)))
}

/// The details string of an error record, or empty.
pub open spec fn error_details(data: Seq<u8>) -> Seq<char> {
    if prefixed_ok(data, 13) {
        prefixed_str(data, 13)
    } else {
        Seq::empty()
    }
}

/// The offset of an error record's location string.
pub open spec fn error_loc_off(data: Seq<u8>) -> int {
    if prefixed_ok(data, 13) {
        prefixed_next(data, 13)
    } else {
        13
    }
}

/// The location string of an error record, or empty.
pub open spec fn error_location(data: Seq<u8>) -> Seq<char> {
    if prefixed_ok(data, error_loc_off(data)) {
        prefixed_str(data, error_loc_off(data))
    } else {
        Seq::empty()
    }
}

/// The offset of an error record's call-stack string.
pub open spec fn error_stack_off(data: Seq<u8>) -> int {
    if prefixed_ok(data, error_loc_off(data)) {
        prefixed_next(data, error_loc_off(data))
    } else {
        error_loc_off(data)
    }
}

/// The call-stack string of an error record, or empty.
pub open spec fn error_callstack(data: Seq<u8>) -> Seq<char> {
    if prefixed_ok(data, error_stack_off(data)) {
        prefixed_str(data, error_stack_off(data))
    } else {
        Seq::empty()
    }
}

/// The composed console text of an error record: the details, then
/// `" @ "` and the location when one is present, then a newline and the
/// call stack when one is present.
pub open spec fn error_message(data: Seq<u8>) -> Seq<char> {
    error_details(data) + (if error_location(data).len() > 0 {
        " @ "@ + error_location(data)
    } else {
        Seq::empty()
    }) + (if error_callstack(data).len() > 0 {
        "\n"@ + error_callstack(data)
    } else {
        Seq::empty()
    })
}

/// The version strings of a version record; absent strings are empty.
pub open spec fn version_image(data: Seq<u8>) -> Seq<char> {
    if prefixed_ok(data, 0) {
        prefixed_str(data, 0)
    } else {
        Seq::empty()
    }
}

/// The offset of a version record's library version string.
pub open spec fn version_lib_off(data: Seq<u8>) -> int {
    if prefixed_ok(data, 0) {
        prefixed_next(data, 0)
    } else {
        0
    }
}

/// The library version string of a version record, or empty.
pub open spec fn version_lib(data: Seq<u8>) -> Seq<char> {
    if prefixed_ok(data, version_lib_off(data)) {
        prefixed_str(data, version_lib_off(data))
    } else {
        Seq::empty()
    }
}

/// The offset of a version record's controller version string.
pub open spec fn version_rio_off(data: Seq<u8>) -> int {
    if prefixed_ok(data, version_lib_off(data)) {
        prefixed_next(data, version_lib_off(data))
    } else {
        version_lib_off(data)
    }
}

/// The controller version string of a version record, or empty.
pub open spec fn version_rio(data: Seq<u8>) -> Seq<char> {
    if prefixed_ok(data, version_rio_off(data)) {
        prefixed_str(data, version_rio_off(data))
    } else {
        Seq::empty()
    }
}

/// Whether a framed record's declared size is taken: zero and oversized
/// sizes are skipped by the reader.
pub fn tcp_size_valid(size: u16) -> (r: bool)
    ensures
        r == (size != 0 && size <= 32768),
{
    size != 0 && size <= 32768
}

/// Read the four timestamp bytes and two sequence bytes of a console-shaped
/// payload.
fn read_ts_seq(data: &[u8]) -> (r: (u32, u16))
    requires
        data@.len() >= 6,
    ensures
        r.0 == be32_at(data@, 0),
        r.1 == be16_val(data@[4], data@[5]),
{
    let n = data.len();
    assert(n >= 6);
    let ts = (data[0] as u32) * 0x1000000 + (data[1] as u32) * 0x10000 + (data[2] as u32) * 256
        + (data[3] as u32);
    let sq = (data[4] as u16) * 256 + (data[5] as u16);
    (ts, sq)
}

/// Read a length-prefixed string, or give the empty string and leave the
/// offset where it was.
fn read_prefixed_or_empty(data: &[u8], offset: usize) -> (r: (String, usize))
    ensures
        prefixed_ok(data@, offset as int) ==> (r.0@ == prefixed_str(data@, offset as int) && r.1
            == prefixed_next(data@, offset as int)),
        !prefixed_ok(data@, offset as int) ==> (r.0@ == Seq::<char>::empty() && r.1 == offset),
{
    match read_prefixed_string(data, offset) {
        Some(p) => p,
        None => (String::new(), offset),
    }
}

/// Parse one telemetry record — its tag byte and payload — and fold any
/// power-rail counters into the accumulated `power` snapshot.
///
/// Standard-output and error records yield console entries when their text is
/// non-empty; fault records update and republish the power counters; version
/// records yield the three version strings; anything else yields nothing.
/// An error record shorter than its structured form but long enough for the
/// plain form is read as standard output marked as an error.
pub fn process_record(payload: &[u8], power: &mut PowerData) -> (ev: TelemetryEvent)
    ensures
        ({
            let n = payload@.len() as int;
            let data = payload@.subrange(1, n);
            &&& (n == 0 ==> ((ev is Nothing) && *final(power) == *old(power)))
            &&& ((n >= 1 && payload@[0] == 0x0C) ==> ((*final(power) == *old(power)) && (if data.len()
                >= 6 && stdout_message(data).len() > 0 {
                ev matches TelemetryEvent::Console(m) && m.timestamp_bits == be32_at(data, 0)
                    && m.sequence == be16_val(data[4], data[5]) && m.message@ == stdout_message(
                    data,
                ) && m.is_error == false
            } else {
                ev is Nothing
            })))
            &&& ((n >= 1 && payload@[0] == 0x0B) ==> ((*final(power) == *old(power)) && (if data.len()
                >= 13 {
                if error_message(data).len() > 0 {
                    ev matches TelemetryEvent::Console(m) && m.timestamp_bits == be32_at(data, 0)
                        && m.sequence == be16_val(data[4], data[5]) && m.message@ == error_message(
                        data,
                    ) && m.is_error == ((data[12] & 0x01) != 0)
                } else {
                    ev is Nothing
                }
            } else if data.len() >= 6 {
                if stdout_message(data).len() > 0 {
                    ev matches TelemetryEvent::Console(m) && m.timestamp_bits == be32_at(data, 0)
                        && m.sequence == be16_val(data[4], data[5]) && m.message@ == stdout_message(
                        data,
                    ) && m.is_error == true
                } else {
                    ev is Nothing
                }
            } else {
                ev is Nothing
            })))
            &&& ((n >= 1 && payload@[0] == 0x04) ==> (if data.len() >= 4 {
                (*final(power) == (PowerData {
                    disable_count_comms: be16_val(data[0], data[1]),
                    disable_count_12v: be16_val(data[2], data[3]),
                    ..*old(power)
                })) && (ev matches TelemetryEvent::Power(p) && p == *final(power))
            } else {
                (ev is Nothing) && *final(power) == *old(power)
            }))
            &&& ((n >= 1 && payload@[0] == 0x05) ==> (if data.len() >= 6 {
                (*final(power) == (PowerData {
                    rail_faults_6v: be16_val(data[0], data[1]),
                    rail_faults_5v: be16_val(data[2], data[3]),
                    rail_faults_3v3: be16_val(data[4], data[5]),
                    ..*old(power)
                })) && (ev matches TelemetryEvent::Power(p) && p == *final(power))
            } else {
                (ev is Nothing) && *final(power) == *old(power)
            }))
            &&& ((n >= 1 && payload@[0] == 0x0A) ==> ((*final(power) == *old(power)) && (ev matches
                TelemetryEvent::Version(v) && v.image_version@ == version_image(data)
                && v.wpilib_version@ == version_lib(data) && v.rio_version@ == version_rio(data))))
            &&& ((n >= 1 && payload@[0] != 0x0C && payload@[0] != 0x0B && payload@[0] != 0x04
                && payload@[0] != 0x05 && payload@[0] != 0x0A) ==> ((ev is Nothing)
                && *final(power) == *old(power)))
        }),
{
    let n = payload.len();
    if n == 0 {
        return TelemetryEvent::Nothing;
    }
    let tag = payload[0];
    let data = &payload[1..n];

    if tag == 0x0C {
        if data.len() >= 6 {
            let (ts, sq) = read_ts_seq(data);
            let message = lossy_trimmed(&data[6..data.len()]);
            if !message.as_str().is_empty() {
                return TelemetryEvent::Console(
                    ConsoleMessage { timestamp_bits: ts, message, is_error: false, sequence: sq },
                );
            }
        }
        TelemetryEvent::Nothing
    } else if tag == 0x0B {
        if data.len() >= 13 {
            let (ts, sq) = read_ts_seq(data);
            let flags = data[12];
            let is_error = (flags & 0x01) != 0;
            let (details, off2) = read_prefixed_or_empty(data, 13);
            let (location, off3) = read_prefixed_or_empty(data, off2);
            let (callstack, _off4) = read_prefixed_or_empty(data, off3);

            let mut message = details;
            if !location.as_str().is_empty() {
                message.append(" @ ");
                message.append(location.as_str());
            }
            if !callstack.as_str().is_empty() {
                message.append("\n");
                message.append(callstack.as_str());
            }
            proof {
                assert(message@ =~= error_message(payload@.subrange(1, payload@.len() as int)));
            }
            if !message.as_str().is_empty() {
                return TelemetryEvent::Console(
                    ConsoleMessage { timestamp_bits: ts, message, is_error, sequence: sq },
                );
            }
            TelemetryEvent::Nothing
        } else if data.len() >= 6 {
            let (ts, sq) = read_ts_seq(data);
            let message = lossy_trimmed(&data[6..data.len()]);
            if !message.as_str().is_empty() {
                return TelemetryEvent::Console(
                    ConsoleMessage { timestamp_bits: ts, message, is_error: true, sequence: sq },
                );
            }
            TelemetryEvent::Nothing
        } else {
            TelemetryEvent::Nothing
        }
    } else if tag == 0x04 {
        if data.len() >= 4 {
            power.disable_count_comms = (data[0] as u16) * 256 + (data[1] as u16);
            power.disable_count_12v = (data[2] as u16) * 256 + (data[3] as u16);
            TelemetryEvent::Power(*power)
        } else {
            TelemetryEvent::Nothing
        }
    } else if tag == 0x05 {
        if data.len() >= 6 {
            power.rail_faults_6v = (data[0] as u16) * 256 + (data[1] as u16);
            power.rail_faults_5v = (data[2] as u16) * 256 + (data[3] as u16);
            power.rail_faults_3v3 = (data[4] as u16) * 256 + (data[5] as u16);
            TelemetryEvent::Power(*power)
        } else {
            TelemetryEvent::Nothing
        }
    } else if tag == 0x0A {
        let (image, o2) = read_prefixed_or_empty(data, 0);
        let (wpilib, o3) = read_prefixed_or_empty(data, o2);
        let (rio, _o4) = read_prefixed_or_empty(data, o3);
        TelemetryEvent::Version(
            VersionInfo { image_version: image, wpilib_version: wpilib, rio_version: rio },
        )
    } else {
        TelemetryEvent::Nothing
    }
}

} // verus!
