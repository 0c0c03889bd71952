//! Wire codec for the UDP control channel: big-endian primitives, the
//! proleptic-Gregorian date conversion for the date/time tag, the outbound
//! frame builder, and the inbound status-frame parser.

use vstd::prelude::*;

use crate::types::{
    lemma_mode_bits_round_trip, Alliance, DiagnosticData, DiagnosticDataView, DsState,
    JoystickState, Mode, RobotState,
};

verus! {

// ---------------------------------------------------------------------------
// Big-endian primitives
// ---------------------------------------------------------------------------

/// The two big-endian bytes of a 16-bit value.
pub open spec fn be16(x: u16) -> Seq<u8> {
    seq![(x / 256) as u8, (x % 256) as u8]
}

/// The four big-endian bytes of a 32-bit value.
pub open spec fn be32(x: u32) -> Seq<u8> {
    seq![
        (x / 0x1000000) as u8,
        ((x / 0x10000) % 256) as u8,
        ((x / 256) % 256) as u8,
        (x % 256) as u8,
    ]
}

/// The 16-bit value read from two big-endian bytes.
pub open spec fn be16_val(hi: u8, lo: u8) -> u16 {
    (hi * 256 + lo) as u16
}

/// The 32-bit value read from four big-endian bytes.
pub open spec fn be32_val(b0: u8, b1: u8, b2: u8, b3: u8) -> u32 {
    (b0 * 0x1000000 + b1 * 0x10000 + b2 * 256 + b3) as u32
}

// ---------------------------------------------------------------------------
// Civil-calendar conversion (proleptic Gregorian, era-of-400-years scheme)
// ---------------------------------------------------------------------------

/// Days from the start of a 400-year era to the start of era-year `y`
/// (era-years run March to February, so every leap day falls at an era-year's
/// end and these offsets need no further correction).
pub open spec fn era_year_start(y: int) -> int {
    365 * y + y / 4 - y / 100 + y / 400
}

/// The era-year containing day-of-era `doe`: the largest `y <= 399` whose
/// start does not lie past `doe`. `cur` is the candidate already known to
/// start at or before `doe`.
pub open spec fn yoe_search(doe: int, cur: int) -> int
    decreases 399 - cur,
{
    if cur >= 399 {
        399
    } else if era_year_start(cur + 1) > doe {
        cur
    } else {
        yoe_search(doe, cur + 1)
    }
}

/// Days from March 1 to the start of shifted month `mp` (0 = March .. 11 =
/// February).
pub open spec fn month_offset(mp: int) -> int {
    if mp == 0 {
        0
    } else if mp == 1 {
        31
    } else if mp == 2 {
        61
    } else if mp == 3 {
        92
    } else if mp == 4 {
        122
    } else if mp == 5 {
        153
    } else if mp == 6 {
        184
    } else if mp == 7 {
        214
    } else if mp == 8 {
        245
    } else if mp == 9 {
        275
    } else if mp == 10 {
        306
    } else {
        337
    }
}

/// The shifted month containing day-of-era-year `doy`.
pub open spec fn month_of_doy(doy: int) -> int {
    if doy < 31 {
        0
    } else if doy < 61 {
        1
    } else if doy < 92 {
        2
    } else if doy < 122 {
        3
    } else if doy < 153 {
        4
    } else if doy < 184 {
        5
    } else if doy < 214 {
        6
    } else if doy < 245 {
        7
    } else if doy < 275 {
        8
    } else if doy < 306 {
        9
    } else if doy < 337 {
        10
    } else {
        11
    }
}

/// The civil date (year, month, day) of the given count of days since the
/// Unix epoch, as ghost mathematics.
pub open spec fn civil_of_days(days: u64) -> (int, int, int) {
    let z = days + 719468;
    let era = z / 146097;
    let doe = z % 146097;
    let yoe = yoe_search(doe, 0);
    let doy = doe - era_year_start(yoe);
    let mp = month_of_doy(doy);
    let d = doy - month_offset(mp) + 1;
    let m = if mp < 10 {
        mp + 3
    } else {
        mp - 9
    };
    let y = era * 400 + yoe + if m <= 2 {
        1int
    } else {
        0int
    };
    (y, m, d)
}

/// An era-year's start always lies strictly before the next one's.
proof fn lemma_era_year_start_increasing(y: int)
    requires
        0 <= y,
    ensures
        era_year_start(y) + 364 <= era_year_start(y + 1),
        era_year_start(y + 1) <= era_year_start(y) + 366,
{
    assert(y / 4 <= (y + 1) / 4 <= y / 4 + 1) by (nonlinear_arith)
        requires 0 <= y;
    assert(y / 100 <= (y + 1) / 100 <= y / 100 + 1) by (nonlinear_arith)
        requires 0 <= y;
    assert(y / 400 <= (y + 1) / 400 <= y / 400 + 1) by (nonlinear_arith)
        requires 0 <= y;
}

/// The search result is an era-year whose span contains `doe`.
proof fn lemma_yoe_search_bounds(doe: int, cur: int)
    requires
        0 <= cur <= 399,
        0 <= doe < 146097,
        era_year_start(cur) <= doe,
    ensures
        cur <= yoe_search(doe, cur) <= 399,
        era_year_start(yoe_search(doe, cur)) <= doe,
        doe < era_year_start(yoe_search(doe, cur) + 1),
    decreases 399 - cur,
{
    if cur >= 399 {
        assert(era_year_start(400) == 146097);
    } else if era_year_start(cur + 1) > doe {
    } else {
        lemma_yoe_search_bounds(doe, cur + 1);
    }
}

/// The leap-year rule of the proleptic Gregorian calendar.
pub open spec fn is_leap_year(y: int) -> bool {
    y % 4 == 0 && (y % 100 != 0 || y % 400 == 0)
}

/// How many days the given month of the given year has.
pub open spec fn days_in_month(y: int, m: int) -> int {
    if m == 2 {
        if is_leap_year(y) {
            29
        } else {
            28
        }
    } else if m == 4 || m == 6 || m == 9 || m == 11 {
        30
    } else {
        31
    }
}

/// Days since the Unix epoch of a civil date at or after the epoch: the
/// mathematical inverse of the day-count conversion.
pub open spec fn days_from_civil(y: int, m: int, d: int) -> int {
    let yy = if m <= 2 {
        y - 1
    } else {
        y
    };
    let era = yy / 400;
    let yoe = yy - era * 400;
    let mp = if m > 2 {
        m - 3
    } else {
        m + 9
    };
    let doy = month_offset(mp) + d - 1;
    era * 146097 + era_year_start(yoe) + doy - 719468
}

/// Stepping the dividend by one raises the quotient exactly when the new
/// value is a multiple.
proof fn lemma_div_step(a: int, n: int)
    requires
        0 <= a,
        0 < n,
    ensures
        (a + 1) / n == a / n + (if (a + 1) % n == 0 {
            1int
        } else {
            0int
        }),
{
    vstd::arithmetic::div_mod::lemma_fundamental_div_mod(a, n);
    vstd::arithmetic::div_mod::lemma_mod_bound(a, n);
    let q = a / n;
    let r = a % n;
    vstd::arithmetic::mul::lemma_mul_is_commutative(n, q);
    assert(a + 1 == q * n + (r + 1));
    if r + 1 < n {
        vstd::arithmetic::div_mod::lemma_fundamental_div_mod_converse_div(a + 1, n, q, r + 1);
        vstd::arithmetic::div_mod::lemma_fundamental_div_mod_converse_mod(a + 1, n, q, r + 1);
    } else {
        vstd::arithmetic::mul::lemma_mul_is_distributive_add_other_way(n, q, 1);
        assert(a + 1 == (q + 1) * n + 0);
        vstd::arithmetic::div_mod::lemma_fundamental_div_mod_converse_div(a + 1, n, q + 1, 0);
        vstd::arithmetic::div_mod::lemma_fundamental_div_mod_converse_mod(a + 1, n, q + 1, 0);
    }
}

/// An era-year has 366 days exactly when the Gregorian rule marks the
/// year-number ending it as leap.
proof fn lemma_era_year_length(yoe: int)
    requires
        0 <= yoe < 400,
    ensures
        era_year_start(yoe + 1) - era_year_start(yoe) == 365 + (if (yoe + 1) % 4 == 0 && ((yoe + 1)
            % 100 != 0 || (yoe + 1) % 400 == 0) {
            1int
        } else {
            0int
        }),
{
    let v = yoe + 1;
    lemma_div_step(yoe, 4);
    lemma_div_step(yoe, 100);
    lemma_div_step(yoe, 400);
    if v % 100 == 0 {
        vstd::arithmetic::div_mod::lemma_fundamental_div_mod(v, 100);
        let q = v / 100;
        assert(v == 4 * (25 * q));
        vstd::arithmetic::div_mod::lemma_mod_multiples_vanish(25 * q, 0, 4);
    }
    if v % 400 == 0 {
        vstd::arithmetic::div_mod::lemma_fundamental_div_mod(v, 400);
        let q = v / 400;
        assert(v == 100 * (4 * q));
        vstd::arithmetic::div_mod::lemma_mod_multiples_vanish(4 * q, 0, 100);
    }
}

/// The day-count conversion is exact over the whole representable range:
/// its result is a valid proleptic-Gregorian date whose day count is the
/// input again.
pub proof fn lemma_civil_of_days_inverse(days: u64)
    requires
        days <= u64::MAX - 719468,
    ensures
        ({
            let t = civil_of_days(days);
            &&& 1 <= t.1 <= 12
            &&& 1 <= t.2 <= days_in_month(t.0, t.1)
            &&& days_from_civil(t.0, t.1, t.2) == days
        }),
{
    let z = days + 719468;
    vstd::arithmetic::div_mod::lemma_fundamental_div_mod(z as int, 146097);
    let era = z as int / 146097;
    let doe = z as int % 146097;

    assert(era_year_start(0) == 0);
    lemma_yoe_search_bounds(doe, 0);
    let yoe = yoe_search(doe, 0);
    lemma_era_year_start_increasing(yoe);
    let doy = doe - era_year_start(yoe);
    let mp = month_of_doy(doy);
    let d = doy - month_offset(mp) + 1;
    let m = if mp < 10 {
        mp + 3
    } else {
        mp - 9
    };
    let y = era * 400 + yoe + if m <= 2 {
        1int
    } else {
        0int
    };

    // The day stays within its month; February needs the leap rule.
    if mp == 11 {
        let v = yoe + 1;
        lemma_era_year_length(yoe);
        vstd::arithmetic::div_mod::lemma_mod_multiples_vanish(100 * era, v, 4);
        vstd::arithmetic::div_mod::lemma_mod_multiples_vanish(4 * era, v, 100);
        vstd::arithmetic::div_mod::lemma_mod_multiples_vanish(era, v, 400);
        assert(y == 4 * (100 * era) + v);
        assert(y == 100 * (4 * era) + v);
        assert(y == 400 * era + v);
        assert(is_leap_year(y) == ((v % 4 == 0) && (v % 100 != 0 || v % 400 == 0)));
    }

    // Re-encoding the date gives the day count back.
    let yy = era * 400 + yoe;
    vstd::arithmetic::div_mod::lemma_fundamental_div_mod_converse_div(yy, 400, era, yoe);
    assert(yy / 400 == era);
    assert(days_from_civil(y, m, d) == era * 146097 + era_year_start(yoe) + doy - 719468);
    assert(era * 146097 + doe == z);
}

/// Convert days since the Unix epoch to a civil (year, month, day) in UTC.
///
/// The bound on `days` only keeps the era arithmetic inside `u64`.
pub fn days_to_date(days: u64) -> (r: (u64, u8, u8))
    requires
        days <= u64::MAX - 719468,
    ensures
        (r.0 as int, r.1 as int, r.2 as int) == civil_of_days(days),
        1 <= r.1 <= 12,
        1 <= r.2 <= 31,
{
    let z: u64 = days + 719468;
    let era: u64 = z / 146097;
    let doe: u64 = z % 146097;

    let mut yoe: u64 = 0;
    proof {
        assert(era_year_start(0) == 0);
    }
    while yoe < 399 && 365 * (yoe + 1) + (yoe + 1) / 4 - (yoe + 1) / 100 + (yoe + 1) / 400 <= doe
        invariant
            0 <= yoe <= 399,
            doe < 146097,
            era_year_start(yoe as int) <= doe,
            yoe_search(doe as int, 0) == yoe_search(doe as int, yoe as int),
        decreases 399 - yoe,
    {
        proof {
            assert(365 * ((yoe + 1) as int) + ((yoe + 1) as int) / 4 - ((yoe + 1) as int) / 100
                + ((yoe + 1) as int) / 400 == era_year_start(yoe as int + 1));
        }
        yoe = yoe + 1;
    }
    proof {
        lemma_yoe_search_bounds(doe as int, 0);
        if yoe < 399 {
            assert(era_year_start(yoe as int + 1) > doe);
        } else {
            assert(era_year_start(400) == 146097);
        }
        assert(yoe_search(doe as int, yoe as int) == yoe as int);
        assert(yoe_search(doe as int, 0) == yoe as int);
    }

    let ys: u64 = 365 * yoe + yoe / 4 - yoe / 100 + yoe / 400;
    proof {
        assert(ys == era_year_start(yoe as int));
        lemma_era_year_start_increasing(yoe as int);
    }
    let doy: u64 = doe - ys;
    assert(doy <= 365);

    let mp: u64 = if doy < 31 {
        0
    } else if doy < 61 {
        1
    } else if doy < 92 {
        2
    } else if doy < 122 {
        3
    } else if doy < 153 {
        4
    } else if doy < 184 {
        5
    } else if doy < 214 {
        6
    } else if doy < 245 {
        7
    } else if doy < 275 {
        8
    } else if doy < 306 {
        9
    } else if doy < 337 {
        10
    } else {
        11
    };
    let off: u64 = if mp == 0 {
        0
    } else if mp == 1 {
        31
    } else if mp == 2 {
        61
    } else if mp == 3 {
        92
    } else if mp == 4 {
        122
    } else if mp == 5 {
        153
    } else if mp == 6 {
        184
    } else if mp == 7 {
        214
    } else if mp == 8 {
        245
    } else if mp == 9 {
        275
    } else if mp == 10 {
        306
    } else {
        337
    };
    let d: u64 = doy - off + 1;
    let m: u64 = if mp < 10 {
        mp + 3
    } else {
        mp - 9
    };
    let y: u64 = era * 400 + yoe + if m <= 2 {
        1
    } else {
        0
    };

    (y, m as u8, d as u8)
}

// ---------------------------------------------------------------------------
// Outbound frame (driver station -> robot, UDP port 1110)
// ---------------------------------------------------------------------------

/// The control byte: bit 7 emergency stop, bit 2 enabled, bits 0-1 mode.
pub open spec fn control_byte_spec(ds: DsState) -> u8 {
    ((if ds.estop {
        0x80int
    } else {
        0int
    }) + (if ds.enabled {
        0x04int
    } else {
        0int
    }) + ds.mode.to_bits_spec()) as u8
}

/// The request byte: bit 3 reboot, bit 2 restart robot code.
pub open spec fn request_byte_spec(ds: DsState) -> u8 {
    ((if ds.request_reboot {
        0x08int
    } else {
        0x00int
    }) + (if ds.request_restart_code {
        0x04int
    } else {
        0x00int
    })) as u8
}

/// The contribution of one button to its packed byte.
pub open spec fn button_bit(b: bool, weight: int) -> int {
    if b {
        weight
    } else {
        0
    }
}

/// Eight buttons packed into one byte, most significant bit first.
pub open spec fn button_byte(bs: Seq<bool>, base: int) -> u8 {
    (button_bit(bs[base + 0], 128) + button_bit(bs[base + 1], 64) + button_bit(bs[base + 2], 32)
        + button_bit(bs[base + 3], 16) + button_bit(bs[base + 4], 8) + button_bit(
        bs[base + 5],
        4,
    ) + button_bit(bs[base + 6], 2) + button_bit(bs[base + 7], 1)) as u8
}

/// One joystick tag record: size, tag 0x0C, then counted axes, packed
/// buttons, and POV angles. The size byte counts the tag byte plus the
/// payload but not itself.
pub open spec fn js_record(js: JoystickState) -> Seq<u8> {
    seq![
        14u8,
        0x0Cu8,
        6u8,
        js.axes@[0] as u8,
        js.axes@[1] as u8,
        js.axes@[2] as u8,
        js.axes@[3] as u8,
        js.axes@[4] as u8,
        js.axes@[5] as u8,
        16u8,
        button_byte(js.buttons@, 0),
        button_byte(js.buttons@, 8),
        1u8,
        ((js.povs@[0] as u16) / 256) as u8,
        ((js.povs@[0] as u16) % 256) as u8,
    ]
}

/// The concatenated joystick records of a snapshot, in slot order.
pub open spec fn js_records(list: Seq<JoystickState>) -> Seq<u8>
    decreases list.len(),
{
    if list.len() == 0 {
        Seq::empty()
    } else {
        js_records(list.drop_last()) + js_record(list.last())
    }
}

/// The date/time tag record for the given Unix time, fields in UTC. The
/// month is sent zero-indexed; the year as `year - 1900` truncated to a byte.
pub open spec fn datetime_record(secs: u64, micros: u32) -> Seq<u8> {
    let t = civil_of_days((secs / 86400) as u64);
    seq![11u8, 0x0Fu8] + be32(micros) + seq![
        (secs % 60) as u8,
        ((secs / 60) % 60) as u8,
        ((secs / 3600) % 24) as u8,
        t.2 as u8,
        (t.1 - 1) as u8,
        ((t.0 - 1900) % 256) as u8,
    ]
}

/// The game-data tag record: a length-prefixed string.
pub open spec fn gamedata_record(gd: Seq<u8>) -> Seq<u8> {
    seq![(2 + gd.len()) as u8, 0x10u8, gd.len() as u8] + gd
}

/// The UTF-8 bytes of the state's game data.
pub open spec fn game_bytes(ds: DsState) -> Seq<u8> {
    vstd::utf8::encode_utf8(ds.game_data@)
}

/// A complete outbound frame: six-byte header, one record per joystick, the
/// date/time record on every 50th sequence number, and the game data when
/// non-empty.
pub open spec fn frame_spec(
    seq_num: u16,
    ds: DsState,
    js: Seq<JoystickState>,
    secs: u64,
    micros: u32,
) -> Seq<u8> {
    be16(seq_num) + seq![
        0x01u8,
        control_byte_spec(ds),
        request_byte_spec(ds),
        ds.alliance.to_byte_spec(),
    ] + js_records(js) + (if seq_num % 50 == 0 {
        datetime_record(secs, micros)
    } else {
        Seq::empty()
    }) + (if game_bytes(ds).len() > 0 {
        gamedata_record(game_bytes(ds))
    } else {
        Seq::empty()
    })
}

/// Pack eight buttons starting at `base` into one byte, bit 7 first.
#[verifier::rlimit(20)]
fn pack_button_byte(bs: &Vec<bool>, base: usize) -> (r: u8)
    requires
        base + 8 <= bs@.len(),
    ensures
        r == button_byte(bs@, base as int),
{
    let n = bs.len();
    assert(base + 8 <= n);
    let mut v: u8 = 0;
    if bs[base] {
        v = v + 128;
    }
    if bs[base + 1] {
        v = v + 64;
    }
    if bs[base + 2] {
        v = v + 32;
    }
    if bs[base + 3] {
        v = v + 16;
    }
    if bs[base + 4] {
        v = v + 8;
    }
    if bs[base + 5] {
        v = v + 4;
    }
    if bs[base + 6] {
        v = v + 2;
    }
    if bs[base + 7] {
        v = v + 1;
    }
    v
}

/// Appending one joystick extends the record concatenation by its record.
proof fn lemma_js_records_snoc(list: Seq<JoystickState>, i: int)
    requires
        0 <= i < list.len(),
    ensures
        js_records(list.take(i + 1)) == js_records(list.take(i)) + js_record(list[i]),
{
    let t = list.take(i + 1);
    assert(t.drop_last() =~= list.take(i));
    assert(t.last() == list[i]);
}

/// Append one joystick tag record.
fn push_js_record(pkt: &mut Vec<u8>, js: &JoystickState)
    requires
        js.wf(),
    ensures
        final(pkt)@ == old(pkt)@ + js_record(*js),
{
    let ghost before = pkt@;
    pkt.push(14);
    pkt.push(0x0C);
    pkt.push(6);
    pkt.push(js.axes[0] as u8);
    pkt.push(js.axes[1] as u8);
    pkt.push(js.axes[2] as u8);
    pkt.push(js.axes[3] as u8);
    pkt.push(js.axes[4] as u8);
    pkt.push(js.axes[5] as u8);
    pkt.push(16);
    pkt.push(pack_button_byte(&js.buttons, 0));
    pkt.push(pack_button_byte(&js.buttons, 8));
    pkt.push(1);
    let pov_bits: u16 = js.povs[0] as u16;
    pkt.push((pov_bits / 256) as u8);
    pkt.push((pov_bits % 256) as u8);
    proof {
        assert(pkt@ =~= before + js_record(*js));
    }
}

/// Append the date/time tag record for the given Unix time.
fn push_datetime_record(pkt: &mut Vec<u8>, epoch_secs: u64, epoch_micros: u32)
    ensures
        final(pkt)@ == old(pkt)@ + datetime_record(epoch_secs, epoch_micros),
{
    let ghost before = pkt@;
    let days: u64 = epoch_secs / 86400;
    let (y, m, d) = days_to_date(days);
    pkt.push(11);
    pkt.push(0x0F);
    pkt.push((epoch_micros / 0x1000000) as u8);
    pkt.push(((epoch_micros / 0x10000) % 256) as u8);
    pkt.push(((epoch_micros / 256) % 256) as u8);
    pkt.push((epoch_micros % 256) as u8);
    pkt.push((epoch_secs % 60) as u8);
    pkt.push(((epoch_secs / 60) % 60) as u8);
    pkt.push(((epoch_secs / 3600) % 24) as u8);
    pkt.push(d);
    pkt.push(m - 1);
    let year_byte: u8 = ((y % 256 + 148) % 256) as u8;
    pkt.push(year_byte);
    proof {
        let yi = y as int;
        vstd::arithmetic::div_mod::lemma_mod_multiples_vanish(-8, yi + 148, 256);
        vstd::arithmetic::div_mod::lemma_add_mod_noop(yi, 148, 256);
        assert((yi - 1900) % 256 == (yi + 148 + (-8) * 256) % 256);
        assert(year_byte == ((yi - 1900) % 256) as u8);
        assert(pkt@ =~= before + datetime_record(epoch_secs, epoch_micros));
    }
}

/// Append the game-data tag record for a non-empty game data string.
fn push_gamedata_record(pkt: &mut Vec<u8>, state: &DsState)
    requires
        state.wf(),
        game_bytes(*state).len() > 0,
    ensures
        final(pkt)@ == old(pkt)@ + gamedata_record(game_bytes(*state)),
{
    let ghost before = pkt@;
    let gd = state.game_data.as_str().as_bytes();
    pkt.push((2 + gd.len()) as u8);
    pkt.push(0x10);
    pkt.push(gd.len() as u8);
    let mut k: usize = 0;
    while k < gd.len()
        invariant
            0 <= k <= gd@.len(),
            gd@ == game_bytes(*state),
            gd@.len() <= 64,
            pkt@ == before + seq![(2 + gd@.len()) as u8, 0x10u8, gd@.len() as u8] + gd@.take(
                k as int,
            ),
        decreases gd@.len() - k,
    {
        pkt.push(gd[k]);
        proof {
            assert(gd@.take(k + 1) =~= gd@.take(k as int) + seq![gd@[k as int]]);
        }
        k = k + 1;
    }
    proof {
        assert(gd@.take(gd@.len() as int) =~= gd@);
        assert(pkt@ =~= before + gamedata_record(game_bytes(*state)));
    }
}

/// Build one outbound control frame.
///
/// The returned bytes are exactly `frame_spec` of the arguments: header,
/// joystick records in order, the date/time record on every 50th sequence
/// number, and the game data record when game data is present.
pub fn build_outbound_packet(
    seq_num: u16,
    state: &DsState,
    joysticks: &Vec<JoystickState>,
    epoch_secs: u64,
    epoch_micros: u32,
) -> (pkt: Vec<u8>)
    requires
        state.wf(),
        joysticks@.len() <= 6,
        forall|i: int| 0 <= i < joysticks@.len() ==> (#[trigger] joysticks@[i]).wf(),
    ensures
        pkt@ == frame_spec(seq_num, *state, joysticks@, epoch_secs, epoch_micros),
{
    let ghost header = be16(seq_num) + seq![
        0x01u8,
        control_byte_spec(*state),
        request_byte_spec(*state),
        state.alliance.to_byte_spec(),
    ];

    let mut pkt: Vec<u8> = Vec::new();

    // Header: sequence, comm version, control, request, alliance.
    pkt.push((seq_num / 256) as u8);
    pkt.push((seq_num % 256) as u8);
    pkt.push(0x01);
    let mut control: u8 = 0;
    if state.estop {
        control = control + 0x80;
    }
    if state.enabled {
        control = control + 0x04;
    }
    control = control + state.mode.to_bits();
    pkt.push(control);
    let mut request: u8 = 0;
    if state.request_reboot {
        request = request + 0x08;
    }
    if state.request_restart_code {
        request = request + 0x04;
    }
    pkt.push(request);
    pkt.push(state.alliance.to_byte());
    proof {
        assert(pkt@ =~= header);
    }

    // One tag record per joystick slot, in order.
    let mut i: usize = 0;
    while i < joysticks.len()
        invariant
            0 <= i <= joysticks@.len(),
            joysticks@.len() <= 6,
            forall|k: int| 0 <= k < joysticks@.len() ==> (#[trigger] joysticks@[k]).wf(),
            pkt@ == header + js_records(joysticks@.take(i as int)),
        decreases joysticks@.len() - i,
    {
        push_js_record(&mut pkt, &joysticks[i]);
        proof {
            lemma_js_records_snoc(joysticks@, i as int);
        }
        i = i + 1;
    }
    proof {
        assert(joysticks@.take(joysticks@.len() as int) =~= joysticks@);
    }

    // Date/time record, once every 50 ticks.
    if seq_num % 50 == 0 {
        push_datetime_record(&mut pkt, epoch_secs, epoch_micros);
    }

    // Game data record, when any is set.
    if state.game_data.as_str().as_bytes().len() > 0 {
        push_gamedata_record(&mut pkt, state);
    }

    proof {
        assert(pkt@ =~= frame_spec(seq_num, *state, joysticks@, epoch_secs, epoch_micros));
    }
    pkt
}

// ---------------------------------------------------------------------------
// Inbound frame (robot -> driver station, UDP port 1150)
// ---------------------------------------------------------------------------

/// The 32-bit big-endian value at `off` in `data`.
pub open spec fn be32_at(data: Seq<u8>, off: int) -> u32 {
    be32_val(data[off], data[off + 1], data[off + 2], data[off + 3])
}

/// The per-core CPU usage bit patterns of a CPU tag's payload.
pub open spec fn cpu_cores_spec(td: Seq<u8>, count: int) -> Seq<u32> {
    Seq::new(count as nat, |c: int| be32_at(td, 1 + 4 * c))
}

/// What one inbound tag record does to the diagnostics. Records too short
/// for their tag are ignored.
pub open spec fn apply_tag(tag: u8, td: Seq<u8>, d: DiagnosticDataView) -> DiagnosticDataView {
    if tag == 0x04 {
        if td.len() >= 4 {
            DiagnosticDataView { disk_usage: be32_at(td, 0), ..d }
        } else {
            d
        }
    } else if tag == 0x05 {
        if td.len() >= 1 && td[0] > 0 && td.len() >= 1 + 4 * (td[0] as int) {
            DiagnosticDataView { cpu_core_bits: cpu_cores_spec(td, td[0] as int), ..d }
        } else {
            d
        }
    } else if tag == 0x06 {
        if td.len() >= 4 {
            DiagnosticDataView { ram_usage_bits: be32_at(td, 0), ..d }
        } else {
            d
        }
    } else if tag == 0x0E {
        if td.len() >= 14 {
            DiagnosticDataView {
                can_utilization_bits: be32_at(td, 0),
                can_bus_off: be32_at(td, 4),
                can_tx_full: be32_at(td, 8),
                ..d
            }
        } else {
            d
        }
    } else {
        d
    }
}

/// The diagnostics after scanning the tag records of `data` from offset `i`.
/// A zero size or one that runs past the frame ends the scan.
pub open spec fn scan_tags(data: Seq<u8>, i: int, d: DiagnosticDataView) -> DiagnosticDataView
    decreases data.len() - i,
{
    if i < 0 || i >= data.len() {
        d
    } else {
        let size = data[i] as int;
        if size == 0 || i + 1 + size > data.len() {
            d
        } else {
            scan_tags(data, i + 1 + size, apply_tag(data[i + 1], data.subrange(i + 2, i + 1 + size), d))
        }
    }
}

/// The robot status carried by an inbound frame of at least 7 bytes, given
/// the status it replaces.
pub open spec fn status_of_frame(data: Seq<u8>) -> RobotState {
    RobotState {
        connected: true,
        code_running: (data[4] & 0x20) != 0,
        enabled: (data[3] & 0x04) != 0,
        estopped: (data[3] & 0x80) != 0,
        mode: Mode::from_bits_spec(data[3]),
        battery_voltage_q8: be16_val(data[5], data[6]),
        brownout: (data[3] & 0x10) != 0,
        sequence_number: be16_val(data[0], data[1]),
    }
}

// ---------------------------------------------------------------------------
// Laws of the outbound encoding
// ---------------------------------------------------------------------------

/// Size-field invariant: every emitted tag record's size byte counts the tag
/// byte plus the payload and excludes itself, so it equals the record's
/// length less one — the emitter writes exactly the bytes it declares.
pub proof fn lemma_record_size_invariant(js: JoystickState, secs: u64, micros: u32, gd: Seq<u8>)
    requires
        js.wf(),
        0 < gd.len() <= 64,
    ensures
        js_record(js).len() == 15,
        js_record(js)[0] == js_record(js).len() - 1,
        datetime_record(secs, micros).len() == 12,
        datetime_record(secs, micros)[0] == datetime_record(secs, micros).len() - 1,
        gamedata_record(gd).len() == 3 + gd.len(),
        gamedata_record(gd)[0] == gamedata_record(gd).len() - 1,
{
}

/// The joystick records lie end to end: record `k` occupies the 15 bytes
/// starting at `15 k`.
pub proof fn lemma_js_records_index(list: Seq<JoystickState>, k: int)
    requires
        0 <= k < list.len(),
    ensures
        js_records(list).len() == 15 * list.len(),
        js_records(list).subrange(15 * k, 15 * k + 15) == js_record(list[k]),
    decreases list.len(),
{
    lemma_js_records_len(list);
    if k == list.len() - 1 {
        assert(js_records(list).subrange(15 * k, 15 * k + 15) =~= js_record(list[k]));
    } else {
        lemma_js_records_index(list.drop_last(), k);
        assert(list.drop_last()[k] == list[k]);
        assert(js_records(list).subrange(15 * k, 15 * k + 15) =~= js_records(
            list.drop_last(),
        ).subrange(15 * k, 15 * k + 15));
    }
}

/// The concatenated joystick records take 15 bytes per joystick.
pub proof fn lemma_js_records_len(list: Seq<JoystickState>)
    ensures
        js_records(list).len() == 15 * list.len(),
    decreases list.len(),
{
    if list.len() > 0 {
        lemma_js_records_len(list.drop_last());
    }
}

/// Decoding one joystick record recovers every axis, button, and POV value.
pub proof fn lemma_js_record_decode(js: JoystickState)
    requires
        js.wf(),
    ensures
        forall|a: int|
            0 <= a < 6 ==> (#[trigger] js_record(js)[3 + a]) as i8 == js.axes@[a],
        forall|b: int|
            0 <= b < 8 ==> ((js_record(js)[10] & button_mask(b)) != 0) == #[trigger] js
                .buttons@[b],
        forall|b: int|
            8 <= b < 16 ==> ((js_record(js)[11] & button_mask(b - 8)) != 0) == #[trigger] js
                .buttons@[b],
        (js_record(js)[13] as u16 * 256 + js_record(js)[14] as u16) as i16 == js.povs@[0],
{
    let r = js_record(js);
    assert forall|a: int| 0 <= a < 6 implies (#[trigger] r[3 + a]) as i8 == js.axes@[a] by {
        let x = js.axes@[a];
        assert((x as u8) as i8 == x) by (bit_vector);
    }
    lemma_button_byte_decode(js.buttons@, 0);
    lemma_button_byte_decode(js.buttons@, 8);
    assert forall|b: int| 0 <= b < 8 implies ((r[10] & button_mask(b)) != 0) == #[trigger] js
        .buttons@[b] by {
        assert(r[10] == button_byte(js.buttons@, 0));
    }
    assert forall|b: int| 8 <= b < 16 implies ((r[11] & button_mask(b - 8)) != 0) == #[trigger] js
        .buttons@[b] by {
        assert(r[11] == button_byte(js.buttons@, 8));
    }
    let p = js.povs@[0];
    assert(r[13] == (p as u16 / 256) as u8 && r[14] == (p as u16 % 256) as u8);
    assert(((p as u16 / 256) as u8 as u16 * 256 + (p as u16 % 256) as u8 as u16) as i16 == p)
        by (bit_vector);
}

/// The mask of button `b` within its packed byte (bit 7 is button 0).
pub open spec fn button_mask(b: int) -> u8 {
    if b == 0 {
        0x80
    } else if b == 1 {
        0x40
    } else if b == 2 {
        0x20
    } else if b == 3 {
        0x10
    } else if b == 4 {
        0x08
    } else if b == 5 {
        0x04
    } else if b == 6 {
        0x02
    } else {
        0x01
    }
}

/// Each bit of a packed button byte reads back its button.
proof fn lemma_button_byte_decode(bs: Seq<bool>, base: int)
    requires
        0 <= base,
        base + 8 <= bs.len(),
    ensures
        forall|b: int|
            0 <= b < 8 ==> ((button_byte(bs, base) & button_mask(b)) != 0) == bs[base + b],
{
    let t0: u8 = if bs[base + 0] { 1 } else { 0 };
    let t1: u8 = if bs[base + 1] { 1 } else { 0 };
    let t2: u8 = if bs[base + 2] { 1 } else { 0 };
    let t3: u8 = if bs[base + 3] { 1 } else { 0 };
    let t4: u8 = if bs[base + 4] { 1 } else { 0 };
    let t5: u8 = if bs[base + 5] { 1 } else { 0 };
    let t6: u8 = if bs[base + 6] { 1 } else { 0 };
    let t7: u8 = if bs[base + 7] { 1 } else { 0 };
    let v = button_byte(bs, base);
    assert(v == (t0 * 128 + t1 * 64 + t2 * 32 + t3 * 16 + t4 * 8 + t5 * 4 + t6 * 2 + t7) as u8);
    assert({
        let w = (t0 * 128 + t1 * 64 + t2 * 32 + t3 * 16 + t4 * 8 + t5 * 4 + t6 * 2 + t7) as u8;
        ((w & 0x80 != 0) == (t0 == 1)) && ((w & 0x40 != 0) == (t1 == 1)) && ((w & 0x20 != 0) == (t2
            == 1)) && ((w & 0x10 != 0) == (t3 == 1)) && ((w & 0x08 != 0) == (t4 == 1)) && ((w & 0x04
            != 0) == (t5 == 1)) && ((w & 0x02 != 0) == (t6 == 1)) && ((w & 0x01 != 0) == (t7 == 1))
    }) by (bit_vector)
        requires
            t0 <= 1 && t1 <= 1 && t2 <= 1 && t3 <= 1 && t4 <= 1 && t5 <= 1 && t6 <= 1 && t7 <= 1;
}

/// Encode/decode round trip for a whole outbound frame: the header bytes give
/// back the sequence number, the control and request bits, and the alliance
/// byte, and each joystick's record sits at its fixed offset, from which
/// every axis, button, and POV value reads back exactly.
pub proof fn lemma_frame_round_trip(
    seq_num: u16,
    ds: DsState,
    js: Seq<JoystickState>,
    secs: u64,
    micros: u32,
)
    requires
        ds.wf(),
        js.len() <= 6,
        forall|i: int| 0 <= i < js.len() ==> (#[trigger] js[i]).wf(),
    ensures
        ({
            let f = frame_spec(seq_num, ds, js, secs, micros);
            &&& f.len() >= 6 + 15 * js.len()
            &&& f[0] as u16 * 256 + f[1] as u16 == seq_num
            &&& f[2] == 0x01
            &&& ((f[3] & 0x80) != 0) == ds.estop
            &&& ((f[3] & 0x04) != 0) == ds.enabled
            &&& Mode::from_bits_spec(f[3]) == ds.mode
            &&& ((f[4] & 0x08) != 0) == ds.request_reboot
            &&& ((f[4] & 0x04) != 0) == ds.request_restart_code
            &&& f[5] == ds.alliance.to_byte_spec()
            &&& forall|k: int|
                0 <= k < js.len() ==> f.subrange(6 + 15 * k, 21 + 15 * k) == js_record(#[trigger] js[k])
            &&& forall|k: int, a: int|
                0 <= k < js.len() && 0 <= a < 6 ==> (f[6 + 15 * k + 3 + a] as i8) == #[trigger] js[k].axes@[a]
            &&& forall|k: int, b: int|
                0 <= k < js.len() && 0 <= b < 8 ==> ((f[6 + 15 * k + 10] & button_mask(b)) != 0)
                    == #[trigger] js[k].buttons@[b]
            &&& forall|k: int, b: int|
                0 <= k < js.len() && 8 <= b < 16 ==> ((f[6 + 15 * k + 11] & button_mask(b - 8))
                    != 0) == #[trigger] js[k].buttons@[b]
            &&& forall|k: int|
                0 <= k < js.len() ==> (f[6 + 15 * k + 13] as u16 * 256 + f[6 + 15 * k
                    + 14] as u16) as i16 == #[trigger] js[k].povs@[0]
        }),
{
    let f = frame_spec(seq_num, ds, js, secs, micros);
    lemma_js_records_len(js);

    assert(f[0] as u16 * 256 + f[1] as u16 == seq_num) by {
        assert(seq_num / 256 * 256 + seq_num % 256 == seq_num) by (nonlinear_arith);
        assert((seq_num / 256) as u8 as u16 == seq_num / 256);
        assert((seq_num % 256) as u8 as u16 == seq_num % 256);
    }

    let e: u8 = if ds.estop { 0x80 } else { 0 };
    let en: u8 = if ds.enabled { 0x04 } else { 0 };
    let mb: u8 = ds.mode.to_bits_spec();
    assert(f[3] == (e + en + mb) as u8);
    assert({
        let c = (e + en + mb) as u8;
        (c & 0x80 == e) && (c & 0x04 == en) && (c & 0x03 == mb)
    }) by (bit_vector)
        requires
            (e == 0 || e == 0x80) && (en == 0 || en == 0x04) && mb <= 2;
    lemma_mode_bits_round_trip_local(ds.mode, f[3]);

    let rb: u8 = if ds.request_reboot { 0x08 } else { 0 };
    let rc: u8 = if ds.request_restart_code { 0x04 } else { 0 };
    assert(f[4] == (rb + rc) as u8);
    assert({
        let r = (rb + rc) as u8;
        (r & 0x08 == rb) && (r & 0x04 == rc)
    }) by (bit_vector)
        requires
            (rb == 0 || rb == 0x08) && (rc == 0 || rc == 0x04);

    assert forall|k: int| 0 <= k < js.len() implies f.subrange(6 + 15 * k, 21 + 15 * k)
        == js_record(#[trigger] js[k]) by {
        lemma_js_records_index(js, k);
        assert(f.subrange(6 + 15 * k, 21 + 15 * k) =~= js_records(js).subrange(
            15 * k,
            15 * k + 15,
        ));
    }

    assert forall|k: int, a: int|
        0 <= k < js.len() && 0 <= a < 6 implies (f[6 + 15 * k + 3 + a] as i8) == #[trigger] js[k]
        .axes@[a] by {
        lemma_js_record_decode(js[k]);
        assert(f[6 + 15 * k + 3 + a] == f.subrange(6 + 15 * k, 21 + 15 * k)[3 + a]);
    }
    assert forall|k: int, b: int|
        0 <= k < js.len() && 0 <= b < 8 implies ((f[6 + 15 * k + 10] & button_mask(b)) != 0)
        == #[trigger] js[k].buttons@[b] by {
        lemma_js_record_decode(js[k]);
        assert(f[6 + 15 * k + 10] == f.subrange(6 + 15 * k, 21 + 15 * k)[10]);
    }
    assert forall|k: int, b: int|
        0 <= k < js.len() && 8 <= b < 16 implies ((f[6 + 15 * k + 11] & button_mask(b - 8)) != 0)
        == #[trigger] js[k].buttons@[b] by {
        lemma_js_record_decode(js[k]);
        assert(f[6 + 15 * k + 11] == f.subrange(6 + 15 * k, 21 + 15 * k)[11]);
    }
    assert forall|k: int|
        0 <= k < js.len() implies (f[6 + 15 * k + 13] as u16 * 256 + f[6 + 15 * k
        + 14] as u16) as i16 == #[trigger] js[k].povs@[0] by {
        lemma_js_record_decode(js[k]);
        assert(f[6 + 15 * k + 13] == f.subrange(6 + 15 * k, 21 + 15 * k)[13]);
        assert(f[6 + 15 * k + 14] == f.subrange(6 + 15 * k, 21 + 15 * k)[14]);
    }
}

/// The mode bits of a control byte decode to the encoded mode.
proof fn lemma_mode_bits_round_trip_local(m: Mode, c: u8)
    requires
        c & 0x03 == m.to_bits_spec(),
    ensures
        Mode::from_bits_spec(c) == m,
{
    lemma_mode_bits_round_trip(m);
    let mb = m.to_bits_spec();
    assert(c & 0x03 == mb);
    assert((c & 0x03) & 0x03 == c & 0x03) by (bit_vector);
    assert(mb & 0x03 == mb) by (bit_vector)
        requires
            mb <= 2;
}

/// Read the 32-bit big-endian value at `off`.
fn read_be32(td: &[u8], off: usize) -> (r: u32)
    requires
        off + 4 <= td@.len(),
    ensures
        r == be32_at(td@, off as int),
{
    let n = td.len();
    assert(off + 4 <= n);
    (td[off] as u32) * 0x1000000 + (td[off + 1] as u32) * 0x10000 + (td[off + 2] as u32) * 256
        + (td[off + 3] as u32)
}

/// Parse one inbound status frame.
///
/// Frames shorter than 7 bytes are dropped without any change. Otherwise the
/// robot status is replaced by the frame's header fields and the tag records
/// update the diagnostics; a malformed size ends tag parsing silently.
pub fn parse_inbound_packet(data: &[u8], robot: &mut RobotState, diag: &mut DiagnosticData)
    ensures
        data@.len() < 7 ==> *final(robot) == *old(robot) && final(diag)@ == old(diag)@,
        data@.len() >= 7 ==> *final(robot) == status_of_frame(data@),
        data@.len() >= 7 ==> final(diag)@ == scan_tags(data@, 7, old(diag)@),
{
    let n = data.len();
    if n < 7 {
        return ;
    }

    robot.sequence_number = (data[0] as u16) * 256 + (data[1] as u16);
    let status = data[3];
    robot.estopped = (status & 0x80) != 0;
    robot.brownout = (status & 0x10) != 0;
    robot.enabled = (status & 0x04) != 0;
    robot.mode = Mode::from_bits(status);
    let trace = data[4];
    robot.code_running = (trace & 0x20) != 0;
    robot.battery_voltage_q8 = (data[5] as u16) * 256 + (data[6] as u16);
    robot.connected = true;

    let ghost d0 = diag@;
    let mut i: usize = 7;
    let mut stop = false;
    while !stop && i < n
        invariant
            7 <= i,
            n == data@.len(),
            scan_tags(data@, 7, d0) == scan_tags(data@, i as int, diag@),
            stop ==> scan_tags(data@, i as int, diag@) == diag@,
        decreases
            n - i,
            (if stop {
                0int
            } else {
                1int
            }),
    {
        let size = data[i] as usize;
        if size == 0 || size > n - i - 1 {
            stop = true;
        } else {
            let ghost d_before = diag@;
            let tag = data[i + 1];
            let td = &data[i + 2..i + 1 + size];
            if tag == 0x04 {
                if td.len() >= 4 {
                    diag.disk_usage = read_be32(td, 0);
                }
            } else if tag == 0x05 {
                if td.len() >= 1 {
                    let count = td[0] as usize;
                    if count > 0 && td.len() >= 1 + 4 * count {
                        let mut cores: Vec<u32> = Vec::new();
                        let mut c: usize = 0;
                        while c < count
                            invariant
                                0 <= c <= count,
                                1 <= count <= 255,
                                1 + 4 * count <= td@.len(),
                                cores@ =~= cpu_cores_spec(td@, count as int).take(c as int),
                            decreases count - c,
                        {
                            cores.push(read_be32(td, 1 + 4 * c));
                            proof {
                                assert(cpu_cores_spec(td@, count as int).take(c + 1) =~= cpu_cores_spec(
                                    td@,
                                    count as int,
                                ).take(c as int) + seq![be32_at(td@, 1 + 4 * (c as int))]);
                            }
                            c = c + 1;
                        }
                        proof {
                            assert(cpu_cores_spec(td@, count as int).take(count as int)
                                =~= cpu_cores_spec(td@, count as int));
                        }
                        diag.cpu_core_bits = cores;
                    }
                }
            } else if tag == 0x06 {
                if td.len() >= 4 {
                    diag.ram_usage_bits = read_be32(td, 0);
                }
            } else if tag == 0x0E {
                if td.len() >= 14 {
                    diag.can_utilization_bits = read_be32(td, 0);
                    diag.can_bus_off = read_be32(td, 4);
                    diag.can_tx_full = read_be32(td, 8);
                }
            }
            proof {
                assert(td@ == data@.subrange(i + 2, i as int + 1 + size));
                assert(diag@ == apply_tag(tag, td@, d_before));
                assert(scan_tags(data@, i as int, d_before) == scan_tags(
                    data@,
                    i as int + 1 + size,
                    diag@,
                ));
            }
            i = i + 1 + size;
        }
    }
}

} // verus!
