//! Protocol-level laws: what framing and decoding guarantee, proved once and
//! for all inputs.

use vstd::prelude::*;

verus! {

use crate::packer::{be_i16, be_i32, be_u32, i16_be, i32_be, u16_be, u32_be};
use crate::command::{
    crc16_of,
    frame_of,
    full_values_at,
    mask_has,
    payload_of,
    sel_values_at,
    spec_decode,
    spec_parse_payload,
    Command,
    CommandReply,
    Error,
    Values,
    ValuesMask,
    sel_gate,
    sel_off_amp_hours,
    sel_off_amp_hours_charged,
    sel_off_avg_current_d,
    sel_off_avg_current_input,
    sel_off_avg_current_motor,
    sel_off_avg_current_q,
    sel_off_avg_voltage_d,
    sel_off_avg_voltage_q,
    sel_off_controller_id,
    sel_off_duty_cycle,
    sel_off_fault_code,
    sel_off_pid_pos,
    sel_off_rpm,
    sel_off_status,
    sel_off_tachometer,
    sel_off_tachometer_abs,
    sel_off_temp_mosfet,
    sel_off_temp_mosfet_all,
    sel_off_temp_motor,
    sel_off_voltage_in,
    sel_off_watt_hours,
    sel_off_watt_hours_charged,
    sel_size,
    CMD_GET_VALUES,
    CMD_GET_VALUES_SELECTIVE,
    CMD_SET_CURRENT,
    CMD_SET_RPM,
    FRAME_END,
    FRAME_START_SHORT,
};

/// Encoded frame sizes depend only on the command's shape: a frame is its
/// payload plus five framing bytes, a `GetValues` payload is one byte, a
/// `SetCurrent`, `SetRpm` or `GetValuesSelective` payload is five bytes, and
/// forwarding over CAN adds exactly two bytes to the inner command's payload.
pub proof fn lemma_payload_sizes(
    milliamps: i32,
    rpm: i32,
    controller_id: u8,
    inner: Box<Command>,
    mask: ValuesMask,
)
    ensures
        payload_of(Command::GetValues).len() == 1,
        payload_of(Command::SetCurrent(milliamps)).len() == 5,
        payload_of(Command::SetRpm(rpm)).len() == 5,
        payload_of(Command::ForwardCan(controller_id, inner)).len() == payload_of(*inner).len()
            + 2,
        payload_of(Command::GetValuesSelective(mask)).len() == 5,
        forall|p: Seq<u8>| #[trigger] frame_of(p).len() == p.len() + 5,
{
}

/// Encoding writes each command's fields where its payload layout puts them:
/// the identifier first, then the field bytes, recoverable unchanged.
pub proof fn lemma_payload_reproduces_fields(
    milliamps: i32,
    rpm: i32,
    controller_id: u8,
    inner: Box<Command>,
    mask: ValuesMask,
)
    ensures
        payload_of(Command::GetValues) == seq![CMD_GET_VALUES],
        payload_of(Command::SetCurrent(milliamps))[0] == CMD_SET_CURRENT,
        be_i32(payload_of(Command::SetCurrent(milliamps)), 1) == milliamps,
        payload_of(Command::SetRpm(rpm))[0] == CMD_SET_RPM,
        be_i32(payload_of(Command::SetRpm(rpm)), 1) == rpm,
        payload_of(Command::ForwardCan(controller_id, inner))[1] == controller_id,
        payload_of(Command::ForwardCan(controller_id, inner)).skip(2) == payload_of(*inner),
        be_u32(payload_of(Command::GetValuesSelective(mask)), 1) == mask.bits,
{
    let pc = payload_of(Command::SetCurrent(milliamps));
    crate::packer::lemma_be_i32_roundtrip(pc, 1, milliamps);
    let pr = payload_of(Command::SetRpm(rpm));
    crate::packer::lemma_be_i32_roundtrip(pr, 1, rpm);
    let pm = payload_of(Command::GetValuesSelective(mask));
    crate::packer::lemma_be_u32_roundtrip(pm, 1, mask.bits);
    assert(payload_of(Command::ForwardCan(controller_id, inner)).skip(2) =~= payload_of(*inner));
}

/// Field bytes one to six of a full telemetry reply: both temperatures and
/// the four average currents, 20 bytes.
pub open spec fn full_fields_a(v: Values) -> Seq<u8> {
    i16_be(v.temp_mosfet) + i16_be(v.temp_motor) + i32_be(v.avg_current_motor) + i32_be(
        v.avg_current_input,
    ) + i32_be(v.avg_current_d) + i32_be(v.avg_current_q)
}

/// Field bytes seven to twelve of a full telemetry reply: duty cycle, rpm,
/// input voltage, and the charge and energy counters through `watt_hours`,
/// 20 bytes.
pub open spec fn full_fields_b(v: Values) -> Seq<u8> {
    i16_be(v.duty_cycle) + i32_be(v.rpm) + i16_be(v.voltage_in) + i32_be(v.amp_hours) + i32_be(
        v.amp_hours_charged,
    ) + i32_be(v.watt_hours)
}

/// Field bytes thirteen to eighteen of a full telemetry reply: recovered
/// energy, both tachometers, fault code, PID position and controller id,
/// 18 bytes.
pub open spec fn full_fields_c(v: Values) -> Seq<u8> {
    i32_be(v.watt_hours_charged) + i32_be(v.tachometer) + i32_be(v.tachometer_abs) + seq![
        v.fault_code,
    ] + i32_be(v.pid_pos) + seq![v.controller_id]
}

/// The last field bytes of a full telemetry reply: the three per-MOSFET
/// temperatures, both axis voltages and the status byte, 15 bytes.
pub open spec fn full_fields_d(v: Values) -> Seq<u8> {
    i16_be(v.temp_mosfet1) + i16_be(v.temp_mosfet2) + i16_be(v.temp_mosfet3) + i32_be(
        v.avg_voltage_d,
    ) + i32_be(v.avg_voltage_q) + seq![v.status]
}

/// The wire bytes of a full telemetry reply's fields, in the fixed order and
/// width of the layout, 73 bytes in all.
pub open spec fn full_fields(v: Values) -> Seq<u8> {
    full_fields_a(v) + full_fields_b(v) + full_fields_c(v) + full_fields_d(v)
}

/// The payload of a full telemetry reply frame carrying `v`.
pub open spec fn get_values_payload(v: Values) -> Seq<u8> {
    seq![CMD_GET_VALUES] + full_fields(v)
}

/// Reading back the first six fields from where a full reply stores them
/// yields the values they were built from.
proof fn lemma_read_back_a(s: Seq<u8>, p: int, v: Values)
    requires
        0 <= p,
        p + 20 <= s.len(),
        s.subrange(p, p + 20) == full_fields_a(v),
    ensures
        be_i16(s, p) == v.temp_mosfet,
        be_i16(s, p + 2) == v.temp_motor,
        be_i32(s, p + 4) == v.avg_current_motor,
        be_i32(s, p + 8) == v.avg_current_input,
        be_i32(s, p + 12) == v.avg_current_d,
        be_i32(s, p + 16) == v.avg_current_q,
{
    assert(s[p + 0] == full_fields_a(v)[0]);
    assert(s[p + 1] == full_fields_a(v)[1]);
    assert(s[p + 2] == full_fields_a(v)[2]);
    assert(s[p + 3] == full_fields_a(v)[3]);
    assert(s[p + 4] == full_fields_a(v)[4]);
    assert(s[p + 5] == full_fields_a(v)[5]);
    assert(s[p + 6] == full_fields_a(v)[6]);
    assert(s[p + 7] == full_fields_a(v)[7]);
    assert(s[p + 8] == full_fields_a(v)[8]);
    assert(s[p + 9] == full_fields_a(v)[9]);
    assert(s[p + 10] == full_fields_a(v)[10]);
    assert(s[p + 11] == full_fields_a(v)[11]);
    assert(s[p + 12] == full_fields_a(v)[12]);
    assert(s[p + 13] == full_fields_a(v)[13]);
    assert(s[p + 14] == full_fields_a(v)[14]);
    assert(s[p + 15] == full_fields_a(v)[15]);
    assert(s[p + 16] == full_fields_a(v)[16]);
    assert(s[p + 17] == full_fields_a(v)[17]);
    assert(s[p + 18] == full_fields_a(v)[18]);
    assert(s[p + 19] == full_fields_a(v)[19]);
    crate::packer::lemma_be_i16_roundtrip(s, p, v.temp_mosfet);
    crate::packer::lemma_be_i16_roundtrip(s, p + 2, v.temp_motor);
    crate::packer::lemma_be_i32_roundtrip(s, p + 4, v.avg_current_motor);
    crate::packer::lemma_be_i32_roundtrip(s, p + 8, v.avg_current_input);
    crate::packer::lemma_be_i32_roundtrip(s, p + 12, v.avg_current_d);
    crate::packer::lemma_be_i32_roundtrip(s, p + 16, v.avg_current_q);
}

/// Reading back fields seven to twelve from where a full reply stores them
/// yields the values they were built from.
proof fn lemma_read_back_b(s: Seq<u8>, p: int, v: Values)
    requires
        0 <= p,
        p + 20 <= s.len(),
        s.subrange(p, p + 20) == full_fields_b(v),
    ensures
        be_i16(s, p) == v.duty_cycle,
        be_i32(s, p + 2) == v.rpm,
        be_i16(s, p + 6) == v.voltage_in,
        be_i32(s, p + 8) == v.amp_hours,
        be_i32(s, p + 12) == v.amp_hours_charged,
        be_i32(s, p + 16) == v.watt_hours,
{
    assert(s[p + 0] == full_fields_b(v)[0]);
    assert(s[p + 1] == full_fields_b(v)[1]);
    assert(s[p + 2] == full_fields_b(v)[2]);
    assert(s[p + 3] == full_fields_b(v)[3]);
    assert(s[p + 4] == full_fields_b(v)[4]);
    assert(s[p + 5] == full_fields_b(v)[5]);
    assert(s[p + 6] == full_fields_b(v)[6]);
    assert(s[p + 7] == full_fields_b(v)[7]);
    assert(s[p + 8] == full_fields_b(v)[8]);
    assert(s[p + 9] == full_fields_b(v)[9]);
    assert(s[p + 10] == full_fields_b(v)[10]);
    assert(s[p + 11] == full_fields_b(v)[11]);
    assert(s[p + 12] == full_fields_b(v)[12]);
    assert(s[p + 13] == full_fields_b(v)[13]);
    assert(s[p + 14] == full_fields_b(v)[14]);
    assert(s[p + 15] == full_fields_b(v)[15]);
    assert(s[p + 16] == full_fields_b(v)[16]);
    assert(s[p + 17] == full_fields_b(v)[17]);
    assert(s[p + 18] == full_fields_b(v)[18]);
    assert(s[p + 19] == full_fields_b(v)[19]);
    crate::packer::lemma_be_i16_roundtrip(s, p, v.duty_cycle);
    crate::packer::lemma_be_i32_roundtrip(s, p + 2, v.rpm);
    crate::packer::lemma_be_i16_roundtrip(s, p + 6, v.voltage_in);
    crate::packer::lemma_be_i32_roundtrip(s, p + 8, v.amp_hours);
    crate::packer::lemma_be_i32_roundtrip(s, p + 12, v.amp_hours_charged);
    crate::packer::lemma_be_i32_roundtrip(s, p + 16, v.watt_hours);
}

/// Reading back fields thirteen to eighteen from where a full reply stores
/// them yields the values they were built from.
proof fn lemma_read_back_c(s: Seq<u8>, p: int, v: Values)
    requires
        0 <= p,
        p + 18 <= s.len(),
        s.subrange(p, p + 18) == full_fields_c(v),
    ensures
        be_i32(s, p) == v.watt_hours_charged,
        be_i32(s, p + 4) == v.tachometer,
        be_i32(s, p + 8) == v.tachometer_abs,
        s[p + 12] == v.fault_code,
        be_i32(s, p + 13) == v.pid_pos,
        s[p + 17] == v.controller_id,
{
    assert(s[p + 0] == full_fields_c(v)[0]);
    assert(s[p + 1] == full_fields_c(v)[1]);
    assert(s[p + 2] == full_fields_c(v)[2]);
    assert(s[p + 3] == full_fields_c(v)[3]);
    assert(s[p + 4] == full_fields_c(v)[4]);
    assert(s[p + 5] == full_fields_c(v)[5]);
    assert(s[p + 6] == full_fields_c(v)[6]);
    assert(s[p + 7] == full_fields_c(v)[7]);
    assert(s[p + 8] == full_fields_c(v)[8]);
    assert(s[p + 9] == full_fields_c(v)[9]);
    assert(s[p + 10] == full_fields_c(v)[10]);
    assert(s[p + 11] == full_fields_c(v)[11]);
    assert(s[p + 12] == full_fields_c(v)[12]);
    assert(s[p + 13] == full_fields_c(v)[13]);
    assert(s[p + 14] == full_fields_c(v)[14]);
    assert(s[p + 15] == full_fields_c(v)[15]);
    assert(s[p + 16] == full_fields_c(v)[16]);
    assert(s[p + 17] == full_fields_c(v)[17]);
    crate::packer::lemma_be_i32_roundtrip(s, p, v.watt_hours_charged);
    crate::packer::lemma_be_i32_roundtrip(s, p + 4, v.tachometer);
    crate::packer::lemma_be_i32_roundtrip(s, p + 8, v.tachometer_abs);
    crate::packer::lemma_be_i32_roundtrip(s, p + 13, v.pid_pos);
}

/// Reading back the last fields from where a full reply stores them yields
/// the values they were built from.
proof fn lemma_read_back_d(s: Seq<u8>, p: int, v: Values)
    requires
        0 <= p,
        p + 15 <= s.len(),
        s.subrange(p, p + 15) == full_fields_d(v),
    ensures
        be_i16(s, p) == v.temp_mosfet1,
        be_i16(s, p + 2) == v.temp_mosfet2,
        be_i16(s, p + 4) == v.temp_mosfet3,
        be_i32(s, p + 6) == v.avg_voltage_d,
        be_i32(s, p + 10) == v.avg_voltage_q,
        s[p + 14] == v.status,
{
    assert(s[p + 0] == full_fields_d(v)[0]);
    assert(s[p + 1] == full_fields_d(v)[1]);
    assert(s[p + 2] == full_fields_d(v)[2]);
    assert(s[p + 3] == full_fields_d(v)[3]);
    assert(s[p + 4] == full_fields_d(v)[4]);
    assert(s[p + 5] == full_fields_d(v)[5]);
    assert(s[p + 6] == full_fields_d(v)[6]);
    assert(s[p + 7] == full_fields_d(v)[7]);
    assert(s[p + 8] == full_fields_d(v)[8]);
    assert(s[p + 9] == full_fields_d(v)[9]);
    assert(s[p + 10] == full_fields_d(v)[10]);
    assert(s[p + 11] == full_fields_d(v)[11]);
    assert(s[p + 12] == full_fields_d(v)[12]);
    assert(s[p + 13] == full_fields_d(v)[13]);
    assert(s[p + 14] == full_fields_d(v)[14]);
    crate::packer::lemma_be_i16_roundtrip(s, p, v.temp_mosfet1);
    crate::packer::lemma_be_i16_roundtrip(s, p + 2, v.temp_mosfet2);
    crate::packer::lemma_be_i16_roundtrip(s, p + 4, v.temp_mosfet3);
    crate::packer::lemma_be_i32_roundtrip(s, p + 6, v.avg_voltage_d);
    crate::packer::lemma_be_i32_roundtrip(s, p + 10, v.avg_voltage_q);
}

/// Round trip for full telemetry replies: a frame built around any record's
/// field bytes decodes to exactly that record, consuming the whole frame.
/// The field bytes of a full telemetry reply frame read back as the record
/// they were built from.
#[verifier::rlimit(100)]
proof fn lemma_full_frame_fields(v: Values)
    ensures
        full_values_at(frame_of(get_values_payload(v)), 3) == v,
        get_values_payload(v).len() == 74,
{
    let p = get_values_payload(v);
    let s = frame_of(p);
    let f = full_fields(v);
    assert(full_fields_a(v).len() == 20);
    assert(full_fields_b(v).len() == 20);
    assert(full_fields_c(v).len() == 18);
    assert(full_fields_d(v).len() == 15);
    assert(p.len() == 74);
    assert(s.len() == 79);
    assert forall|i: int| 0 <= i < 73 implies s[3 + i] == f[i] by {}
    assert(s.subrange(3, 23) =~= full_fields_a(v));
    assert(s.subrange(23, 43) =~= full_fields_b(v));
    assert(s.subrange(43, 61) =~= full_fields_c(v));
    assert(s.subrange(61, 76) =~= full_fields_d(v));
    lemma_read_back_a(s, 3, v);
    lemma_read_back_b(s, 23, v);
    lemma_read_back_c(s, 43, v);
    lemma_read_back_d(s, 61, v);
}

/// Round trip for full telemetry replies: a frame built around any record's
/// field bytes decodes to exactly that record, consuming the whole frame.
#[verifier::rlimit(100)]
pub proof fn lemma_get_values_round_trip(v: Values)
    ensures
        spec_decode(frame_of(get_values_payload(v))) == Ok::<(int, CommandReply), Error>(
            (79int, CommandReply::GetValues(v)),
        ),
{
    lemma_full_frame_fields(v);
    let p = get_values_payload(v);
    let s = frame_of(p);
    assert(s.len() == 79);
    assert(s[0] == FRAME_START_SHORT);
    assert(s[1] == 74);
    assert(s[2] == CMD_GET_VALUES);
    assert(spec_parse_payload(s) == Ok::<(int, CommandReply), Error>(
        (76int, CommandReply::GetValues(v)),
    ));
    assert(s.subrange(2, 76) =~= p);
    crate::packer::lemma_be_u16_roundtrip(s, 76, crc16_of(p));
    assert(s[78] == FRAME_END);
}

/// The bytes a 16-bit field contributes to a selective reply: its two
/// big-endian bytes if the mask requests its group, nothing otherwise.
pub open spec fn seg_i16(mask: u32, bit: u32, x: i16) -> Seq<u8> {
    if mask_has(mask, bit) {
        i16_be(x)
    } else {
        Seq::empty()
    }
}

/// The bytes a 32-bit field contributes to a selective reply.
pub open spec fn seg_i32(mask: u32, bit: u32, x: i32) -> Seq<u8> {
    if mask_has(mask, bit) {
        i32_be(x)
    } else {
        Seq::empty()
    }
}

/// The byte an 8-bit field contributes to a selective reply.
pub open spec fn seg_u8(mask: u32, bit: u32, x: u8) -> Seq<u8> {
    if mask_has(mask, bit) {
        seq![x]
    } else {
        Seq::empty()
    }
}

/// The bytes the three per-MOSFET temperatures contribute to a selective
/// reply: all three together, or nothing.
pub open spec fn seg_3i16(mask: u32, bit: u32, x1: i16, x2: i16, x3: i16) -> Seq<u8> {
    if mask_has(mask, bit) {
        i16_be(x1) + i16_be(x2) + i16_be(x3)
    } else {
        Seq::empty()
    }
}

/// The bytes the first six groups contribute to a selective reply.
pub open spec fn sel_fields_q1(mask: u32, v: Values) -> Seq<u8> {
    seg_i16(mask, ValuesMask::TEMP_MOSFET, v.temp_mosfet) + seg_i16(
        mask,
        ValuesMask::TEMP_MOTOR,
        v.temp_motor,
    ) + seg_i32(mask, ValuesMask::AVG_CURRENT_MOTOR, v.avg_current_motor) + seg_i32(
        mask,
        ValuesMask::AVG_CURRENT_INPUT,
        v.avg_current_input,
    ) + seg_i32(mask, ValuesMask::AVG_CURRENT_D, v.avg_current_d) + seg_i32(
        mask,
        ValuesMask::AVG_CURRENT_Q,
        v.avg_current_q,
    )
}

/// The bytes the next six groups contribute to a selective reply.
pub open spec fn sel_fields_q2(mask: u32, v: Values) -> Seq<u8> {
    seg_i16(mask, ValuesMask::DUTY_CYCLE, v.duty_cycle) + seg_i32(mask, ValuesMask::RPM, v.rpm)
        + seg_i16(mask, ValuesMask::VOLTAGE_IN, v.voltage_in) + seg_i32(
        mask,
        ValuesMask::AMP_HOURS,
        v.amp_hours,
    ) + seg_i32(mask, ValuesMask::AMP_HOURS_CHARGED, v.amp_hours_charged) + seg_i32(
        mask,
        ValuesMask::WATT_HOURS,
        v.watt_hours,
    )
}

/// The bytes the next five groups contribute to a selective reply.
pub open spec fn sel_fields_q3(mask: u32, v: Values) -> Seq<u8> {
    seg_i32(mask, ValuesMask::WATT_HOURS_CHARGED, v.watt_hours_charged) + seg_i32(
        mask,
        ValuesMask::TACHOMETER,
        v.tachometer,
    ) + seg_i32(mask, ValuesMask::TACHOMETER_ABS, v.tachometer_abs) + seg_u8(
        mask,
        ValuesMask::FAULT_CODE,
        v.fault_code,
    ) + seg_i32(mask, ValuesMask::PID_POS, v.pid_pos)
}

/// The bytes the last five groups contribute to a selective reply.
pub open spec fn sel_fields_q4(mask: u32, v: Values) -> Seq<u8> {
    seg_u8(mask, ValuesMask::CONTROLLER_ID, v.controller_id) + seg_3i16(
        mask,
        ValuesMask::TEMP_MOSFET_ALL,
        v.temp_mosfet1,
        v.temp_mosfet2,
        v.temp_mosfet3,
    ) + seg_i32(mask, ValuesMask::AVG_VOLTAGE_D, v.avg_voltage_d) + seg_i32(
        mask,
        ValuesMask::AVG_VOLTAGE_Q,
        v.avg_voltage_q,
    ) + seg_u8(mask, ValuesMask::STATUS, v.status)
}

/// The field bytes a selective reply with `mask` carries for the record `v`:
/// each requested group's bytes, in ascending bit order.
pub open spec fn sel_fields(mask: u32, v: Values) -> Seq<u8> {
    sel_fields_q1(mask, v) + sel_fields_q2(mask, v) + sel_fields_q3(mask, v) + sel_fields_q4(
        mask,
        v,
    )
}

/// The payload of a selective telemetry reply frame carrying the requested
/// fields of `v`.
pub open spec fn selective_payload(mask: u32, v: Values) -> Seq<u8> {
    seq![CMD_GET_VALUES_SELECTIVE] + u32_be(mask) + sel_fields(mask, v)
}

/// The record `v` with every field whose group the mask does not request
/// replaced by zero.
pub open spec fn mask_restrict(mask: u32, v: Values) -> Values {
    Values {
        temp_mosfet: if mask_has(mask, ValuesMask::TEMP_MOSFET) {
            v.temp_mosfet
        } else {
            0i16
        },
        temp_motor: if mask_has(mask, ValuesMask::TEMP_MOTOR) {
            v.temp_motor
        } else {
            0i16
        },
        avg_current_motor: if mask_has(mask, ValuesMask::AVG_CURRENT_MOTOR) {
            v.avg_current_motor
        } else {
            0i32
        },
        avg_current_input: if mask_has(mask, ValuesMask::AVG_CURRENT_INPUT) {
            v.avg_current_input
        } else {
            0i32
        },
        avg_current_d: if mask_has(mask, ValuesMask::AVG_CURRENT_D) {
            v.avg_current_d
        } else {
            0i32
        },
        avg_current_q: if mask_has(mask, ValuesMask::AVG_CURRENT_Q) {
            v.avg_current_q
        } else {
            0i32
        },
        duty_cycle: if mask_has(mask, ValuesMask::DUTY_CYCLE) {
            v.duty_cycle
        } else {
            0i16
        },
        rpm: if mask_has(mask, ValuesMask::RPM) {
            v.rpm
        } else {
            0i32
        },
        voltage_in: if mask_has(mask, ValuesMask::VOLTAGE_IN) {
            v.voltage_in
        } else {
            0i16
        },
        amp_hours: if mask_has(mask, ValuesMask::AMP_HOURS) {
            v.amp_hours
        } else {
            0i32
        },
        amp_hours_charged: if mask_has(mask, ValuesMask::AMP_HOURS_CHARGED) {
            v.amp_hours_charged
        } else {
            0i32
        },
        watt_hours: if mask_has(mask, ValuesMask::WATT_HOURS) {
            v.watt_hours
        } else {
            0i32
        },
        watt_hours_charged: if mask_has(mask, ValuesMask::WATT_HOURS_CHARGED) {
            v.watt_hours_charged
        } else {
            0i32
        },
        tachometer: if mask_has(mask, ValuesMask::TACHOMETER) {
            v.tachometer
        } else {
            0i32
        },
        tachometer_abs: if mask_has(mask, ValuesMask::TACHOMETER_ABS) {
            v.tachometer_abs
        } else {
            0i32
        },
        fault_code: if mask_has(mask, ValuesMask::FAULT_CODE) {
            v.fault_code
        } else {
            0u8
        },
        pid_pos: if mask_has(mask, ValuesMask::PID_POS) {
            v.pid_pos
        } else {
            0i32
        },
        controller_id: if mask_has(mask, ValuesMask::CONTROLLER_ID) {
            v.controller_id
        } else {
            0u8
        },
        temp_mosfet1: if mask_has(mask, ValuesMask::TEMP_MOSFET_ALL) {
            v.temp_mosfet1
        } else {
            0i16
        },
        temp_mosfet2: if mask_has(mask, ValuesMask::TEMP_MOSFET_ALL) {
            v.temp_mosfet2
        } else {
            0i16
        },
        temp_mosfet3: if mask_has(mask, ValuesMask::TEMP_MOSFET_ALL) {
            v.temp_mosfet3
        } else {
            0i16
        },
        avg_voltage_d: if mask_has(mask, ValuesMask::AVG_VOLTAGE_D) {
            v.avg_voltage_d
        } else {
            0i32
        },
        avg_voltage_q: if mask_has(mask, ValuesMask::AVG_VOLTAGE_Q) {
            v.avg_voltage_q
        } else {
            0i32
        },
        status: if mask_has(mask, ValuesMask::STATUS) {
            v.status
        } else {
            0u8
        },
    }
}

/// The step equations of the offset chain: each group's offset is the one
/// before it plus the width the mask gates in.
proof fn lemma_sel_off_steps(mask: u32)
    ensures
        sel_off_temp_mosfet(mask) == 0,
        sel_off_temp_motor(mask) == sel_off_temp_mosfet(mask) + sel_gate(mask, ValuesMask::TEMP_MOSFET, 2),
        sel_off_avg_current_motor(mask) == sel_off_temp_motor(mask) + sel_gate(mask, ValuesMask::TEMP_MOTOR, 2),
        sel_off_avg_current_input(mask) == sel_off_avg_current_motor(mask) + sel_gate(mask, ValuesMask::AVG_CURRENT_MOTOR, 4),
        sel_off_avg_current_d(mask) == sel_off_avg_current_input(mask) + sel_gate(mask, ValuesMask::AVG_CURRENT_INPUT, 4),
        sel_off_avg_current_q(mask) == sel_off_avg_current_d(mask) + sel_gate(mask, ValuesMask::AVG_CURRENT_D, 4),
        sel_off_duty_cycle(mask) == sel_off_avg_current_q(mask) + sel_gate(mask, ValuesMask::AVG_CURRENT_Q, 4),
        sel_off_rpm(mask) == sel_off_duty_cycle(mask) + sel_gate(mask, ValuesMask::DUTY_CYCLE, 2),
        sel_off_voltage_in(mask) == sel_off_rpm(mask) + sel_gate(mask, ValuesMask::RPM, 4),
        sel_off_amp_hours(mask) == sel_off_voltage_in(mask) + sel_gate(mask, ValuesMask::VOLTAGE_IN, 2),
        sel_off_amp_hours_charged(mask) == sel_off_amp_hours(mask) + sel_gate(mask, ValuesMask::AMP_HOURS, 4),
        sel_off_watt_hours(mask) == sel_off_amp_hours_charged(mask) + sel_gate(mask, ValuesMask::AMP_HOURS_CHARGED, 4),
        sel_off_watt_hours_charged(mask) == sel_off_watt_hours(mask) + sel_gate(mask, ValuesMask::WATT_HOURS, 4),
        sel_off_tachometer(mask) == sel_off_watt_hours_charged(mask) + sel_gate(mask, ValuesMask::WATT_HOURS_CHARGED, 4),
        sel_off_tachometer_abs(mask) == sel_off_tachometer(mask) + sel_gate(mask, ValuesMask::TACHOMETER, 4),
        sel_off_fault_code(mask) == sel_off_tachometer_abs(mask) + sel_gate(mask, ValuesMask::TACHOMETER_ABS, 4),
        sel_off_pid_pos(mask) == sel_off_fault_code(mask) + sel_gate(mask, ValuesMask::FAULT_CODE, 1),
        sel_off_controller_id(mask) == sel_off_pid_pos(mask) + sel_gate(mask, ValuesMask::PID_POS, 4),
        sel_off_temp_mosfet_all(mask) == sel_off_controller_id(mask) + sel_gate(mask, ValuesMask::CONTROLLER_ID, 1),
        sel_off_avg_voltage_d(mask) == sel_off_temp_mosfet_all(mask) + sel_gate(mask, ValuesMask::TEMP_MOSFET_ALL, 6),
        sel_off_avg_voltage_q(mask) == sel_off_avg_voltage_d(mask) + sel_gate(mask, ValuesMask::AVG_VOLTAGE_D, 4),
        sel_off_status(mask) == sel_off_avg_voltage_q(mask) + sel_gate(mask, ValuesMask::AVG_VOLTAGE_Q, 4),
        sel_size(mask) == sel_off_status(mask) + sel_gate(mask, ValuesMask::STATUS, 1),
{
}

/// A subrange of a subrange is the inner window of the outer one.
proof fn lemma_subrange_of_subrange<T>(s: Seq<T>, lo: int, hi: int, i: int, j: int)
    requires
        0 <= lo <= hi <= s.len(),
        0 <= i <= j <= hi - lo,
    ensures
        s.subrange(lo, hi).subrange(i, j) == s.subrange(lo + i, lo + j),
{
    assert(s.subrange(lo, hi).subrange(i, j) =~= s.subrange(lo + i, lo + j));
}

/// A 16-bit signed value whose two bytes sit at `pos` reads back unchanged.
proof fn lemma_be_i16_at(s: Seq<u8>, pos: int, x: i16)
    requires
        0 <= pos,
        pos + 2 <= s.len(),
        s.subrange(pos, pos + 2) == i16_be(x),
    ensures
        be_i16(s, pos) == x,
{
    assert(s[pos] == s.subrange(pos, pos + 2)[0]);
    assert(s[pos + 1] == s.subrange(pos, pos + 2)[1]);
    crate::packer::lemma_be_i16_roundtrip(s, pos, x);
}

/// A 32-bit signed value whose four bytes sit at `pos` reads back unchanged.
proof fn lemma_be_i32_at(s: Seq<u8>, pos: int, x: i32)
    requires
        0 <= pos,
        pos + 4 <= s.len(),
        s.subrange(pos, pos + 4) == i32_be(x),
    ensures
        be_i32(s, pos) == x,
{
    assert(s[pos] == s.subrange(pos, pos + 4)[0]);
    assert(s[pos + 1] == s.subrange(pos, pos + 4)[1]);
    assert(s[pos + 2] == s.subrange(pos, pos + 4)[2]);
    assert(s[pos + 3] == s.subrange(pos, pos + 4)[3]);
    crate::packer::lemma_be_i32_roundtrip(s, pos, x);
}

/// Reading back the first six groups from where a selective reply stores
/// them yields the values they were built from.
#[verifier::rlimit(100)]
proof fn lemma_sel_read_back_q1(mask: u32, s: Seq<u8>, p: int, v: Values)
    requires
        0 <= p,
        0 <= sel_off_temp_mosfet(mask),
        p + sel_off_duty_cycle(mask) <= s.len(),
        s.subrange(p + sel_off_temp_mosfet(mask), p + sel_off_duty_cycle(mask)) == sel_fields_q1(mask, v),
    ensures
        mask_has(mask, ValuesMask::TEMP_MOSFET) ==> be_i16(s, p + sel_off_temp_mosfet(mask)) == v.temp_mosfet,
        mask_has(mask, ValuesMask::TEMP_MOTOR) ==> be_i16(s, p + sel_off_temp_motor(mask)) == v.temp_motor,
        mask_has(mask, ValuesMask::AVG_CURRENT_MOTOR) ==> be_i32(s, p + sel_off_avg_current_motor(mask)) == v.avg_current_motor,
        mask_has(mask, ValuesMask::AVG_CURRENT_INPUT) ==> be_i32(s, p + sel_off_avg_current_input(mask)) == v.avg_current_input,
        mask_has(mask, ValuesMask::AVG_CURRENT_D) ==> be_i32(s, p + sel_off_avg_current_d(mask)) == v.avg_current_d,
        mask_has(mask, ValuesMask::AVG_CURRENT_Q) ==> be_i32(s, p + sel_off_avg_current_q(mask)) == v.avg_current_q,
{
    lemma_sel_off_steps(mask);
    let s1 = seg_i16(mask, ValuesMask::TEMP_MOSFET, v.temp_mosfet);
    let s2 = seg_i16(mask, ValuesMask::TEMP_MOTOR, v.temp_motor);
    let s3 = seg_i32(mask, ValuesMask::AVG_CURRENT_MOTOR, v.avg_current_motor);
    let s4 = seg_i32(mask, ValuesMask::AVG_CURRENT_INPUT, v.avg_current_input);
    let s5 = seg_i32(mask, ValuesMask::AVG_CURRENT_D, v.avg_current_d);
    let s6 = seg_i32(mask, ValuesMask::AVG_CURRENT_Q, v.avg_current_q);
    assert(s1.len() == sel_gate(mask, ValuesMask::TEMP_MOSFET, 2));
    assert(s2.len() == sel_gate(mask, ValuesMask::TEMP_MOTOR, 2));
    assert(s3.len() == sel_gate(mask, ValuesMask::AVG_CURRENT_MOTOR, 4));
    assert(s4.len() == sel_gate(mask, ValuesMask::AVG_CURRENT_INPUT, 4));
    assert(s5.len() == sel_gate(mask, ValuesMask::AVG_CURRENT_D, 4));
    assert(s6.len() == sel_gate(mask, ValuesMask::AVG_CURRENT_Q, 4));
    let a = sel_off_temp_mosfet(mask);
    let b = sel_off_duty_cycle(mask);
    assert(sel_fields_q1(mask, v) == s1 + s2 + s3 + s4 + s5 + s6);
    if mask_has(mask, ValuesMask::TEMP_MOSFET) {
        let o = sel_off_temp_mosfet(mask) - a;
        lemma_concat_prefix_subrange(s1 + s2 + s3 + s4 + s5, s6, o, o + 2);
        lemma_concat_prefix_subrange(s1 + s2 + s3 + s4, s5, o, o + 2);
        lemma_concat_prefix_subrange(s1 + s2 + s3, s4, o, o + 2);
        lemma_concat_prefix_subrange(s1 + s2, s3, o, o + 2);
        lemma_concat_prefix_subrange(s1, s2, o, o + 2);
        assert((s1).subrange(0, 2) =~= s1);
        assert(s1 == i16_be(v.temp_mosfet));
        lemma_subrange_of_subrange(s, p + a, p + b, o, o + 2);
        assert(s.subrange(p + sel_off_temp_mosfet(mask), p + sel_off_temp_mosfet(mask) + 2) == s1);
        lemma_be_i16_at(s, p + sel_off_temp_mosfet(mask), v.temp_mosfet);
    }
    if mask_has(mask, ValuesMask::TEMP_MOTOR) {
        let o = sel_off_temp_motor(mask) - a;
        lemma_concat_prefix_subrange(s1 + s2 + s3 + s4 + s5, s6, o, o + 2);
        lemma_concat_prefix_subrange(s1 + s2 + s3 + s4, s5, o, o + 2);
        lemma_concat_prefix_subrange(s1 + s2 + s3, s4, o, o + 2);
        lemma_concat_prefix_subrange(s1 + s2, s3, o, o + 2);
        lemma_concat_suffix(s1, s2);
        assert(s2 == i16_be(v.temp_motor));
        lemma_subrange_of_subrange(s, p + a, p + b, o, o + 2);
        assert(s.subrange(p + sel_off_temp_motor(mask), p + sel_off_temp_motor(mask) + 2) == s2);
        lemma_be_i16_at(s, p + sel_off_temp_motor(mask), v.temp_motor);
    }
    if mask_has(mask, ValuesMask::AVG_CURRENT_MOTOR) {
        let o = sel_off_avg_current_motor(mask) - a;
        lemma_concat_prefix_subrange(s1 + s2 + s3 + s4 + s5, s6, o, o + 4);
        lemma_concat_prefix_subrange(s1 + s2 + s3 + s4, s5, o, o + 4);
        lemma_concat_prefix_subrange(s1 + s2 + s3, s4, o, o + 4);
        lemma_concat_suffix(s1 + s2, s3);
        assert(s3 == i32_be(v.avg_current_motor));
        lemma_subrange_of_subrange(s, p + a, p + b, o, o + 4);
        assert(s.subrange(p + sel_off_avg_current_motor(mask), p + sel_off_avg_current_motor(mask) + 4) == s3);
        lemma_be_i32_at(s, p + sel_off_avg_current_motor(mask), v.avg_current_motor);
    }
    if mask_has(mask, ValuesMask::AVG_CURRENT_INPUT) {
        let o = sel_off_avg_current_input(mask) - a;
        lemma_concat_prefix_subrange(s1 + s2 + s3 + s4 + s5, s6, o, o + 4);
        lemma_concat_prefix_subrange(s1 + s2 + s3 + s4, s5, o, o + 4);
        lemma_concat_suffix(s1 + s2 + s3, s4);
        assert(s4 == i32_be(v.avg_current_input));
        lemma_subrange_of_subrange(s, p + a, p + b, o, o + 4);
        assert(s.subrange(p + sel_off_avg_current_input(mask), p + sel_off_avg_current_input(mask) + 4) == s4);
        lemma_be_i32_at(s, p + sel_off_avg_current_input(mask), v.avg_current_input);
    }
    if mask_has(mask, ValuesMask::AVG_CURRENT_D) {
        let o = sel_off_avg_current_d(mask) - a;
        lemma_concat_prefix_subrange(s1 + s2 + s3 + s4 + s5, s6, o, o + 4);
        lemma_concat_suffix(s1 + s2 + s3 + s4, s5);
        assert(s5 == i32_be(v.avg_current_d));
        lemma_subrange_of_subrange(s, p + a, p + b, o, o + 4);
        assert(s.subrange(p + sel_off_avg_current_d(mask), p + sel_off_avg_current_d(mask) + 4) == s5);
        lemma_be_i32_at(s, p + sel_off_avg_current_d(mask), v.avg_current_d);
    }
    if mask_has(mask, ValuesMask::AVG_CURRENT_Q) {
        let o = sel_off_avg_current_q(mask) - a;
        lemma_concat_suffix(s1 + s2 + s3 + s4 + s5, s6);
        assert(s6 == i32_be(v.avg_current_q));
        lemma_subrange_of_subrange(s, p + a, p + b, o, o + 4);
        assert(s.subrange(p + sel_off_avg_current_q(mask), p + sel_off_avg_current_q(mask) + 4) == s6);
        lemma_be_i32_at(s, p + sel_off_avg_current_q(mask), v.avg_current_q);
    }
}

/// Reading back the next six groups from where a selective reply stores
/// them yields the values they were built from.
#[verifier::rlimit(100)]
proof fn lemma_sel_read_back_q2(mask: u32, s: Seq<u8>, p: int, v: Values)
    requires
        0 <= p,
        0 <= sel_off_duty_cycle(mask),
        p + sel_off_watt_hours_charged(mask) <= s.len(),
        s.subrange(p + sel_off_duty_cycle(mask), p + sel_off_watt_hours_charged(mask)) == sel_fields_q2(mask, v),
    ensures
        mask_has(mask, ValuesMask::DUTY_CYCLE) ==> be_i16(s, p + sel_off_duty_cycle(mask)) == v.duty_cycle,
        mask_has(mask, ValuesMask::RPM) ==> be_i32(s, p + sel_off_rpm(mask)) == v.rpm,
        mask_has(mask, ValuesMask::VOLTAGE_IN) ==> be_i16(s, p + sel_off_voltage_in(mask)) == v.voltage_in,
        mask_has(mask, ValuesMask::AMP_HOURS) ==> be_i32(s, p + sel_off_amp_hours(mask)) == v.amp_hours,
        mask_has(mask, ValuesMask::AMP_HOURS_CHARGED) ==> be_i32(s, p + sel_off_amp_hours_charged(mask)) == v.amp_hours_charged,
        mask_has(mask, ValuesMask::WATT_HOURS) ==> be_i32(s, p + sel_off_watt_hours(mask)) == v.watt_hours,
{
    lemma_sel_off_steps(mask);
    let s1 = seg_i16(mask, ValuesMask::DUTY_CYCLE, v.duty_cycle);
    let s2 = seg_i32(mask, ValuesMask::RPM, v.rpm);
    let s3 = seg_i16(mask, ValuesMask::VOLTAGE_IN, v.voltage_in);
    let s4 = seg_i32(mask, ValuesMask::AMP_HOURS, v.amp_hours);
    let s5 = seg_i32(mask, ValuesMask::AMP_HOURS_CHARGED, v.amp_hours_charged);
    let s6 = seg_i32(mask, ValuesMask::WATT_HOURS, v.watt_hours);
    assert(s1.len() == sel_gate(mask, ValuesMask::DUTY_CYCLE, 2));
    assert(s2.len() == sel_gate(mask, ValuesMask::RPM, 4));
    assert(s3.len() == sel_gate(mask, ValuesMask::VOLTAGE_IN, 2));
    assert(s4.len() == sel_gate(mask, ValuesMask::AMP_HOURS, 4));
    assert(s5.len() == sel_gate(mask, ValuesMask::AMP_HOURS_CHARGED, 4));
    assert(s6.len() == sel_gate(mask, ValuesMask::WATT_HOURS, 4));
    let a = sel_off_duty_cycle(mask);
    let b = sel_off_watt_hours_charged(mask);
    assert(sel_fields_q2(mask, v) == s1 + s2 + s3 + s4 + s5 + s6);
    if mask_has(mask, ValuesMask::DUTY_CYCLE) {
        let o = sel_off_duty_cycle(mask) - a;
        lemma_concat_prefix_subrange(s1 + s2 + s3 + s4 + s5, s6, o, o + 2);
        lemma_concat_prefix_subrange(s1 + s2 + s3 + s4, s5, o, o + 2);
        lemma_concat_prefix_subrange(s1 + s2 + s3, s4, o, o + 2);
        lemma_concat_prefix_subrange(s1 + s2, s3, o, o + 2);
        lemma_concat_prefix_subrange(s1, s2, o, o + 2);
        assert((s1).subrange(0, 2) =~= s1);
        assert(s1 == i16_be(v.duty_cycle));
        lemma_subrange_of_subrange(s, p + a, p + b, o, o + 2);
        assert(s.subrange(p + sel_off_duty_cycle(mask), p + sel_off_duty_cycle(mask) + 2) == s1);
        lemma_be_i16_at(s, p + sel_off_duty_cycle(mask), v.duty_cycle);
    }
    if mask_has(mask, ValuesMask::RPM) {
        let o = sel_off_rpm(mask) - a;
        lemma_concat_prefix_subrange(s1 + s2 + s3 + s4 + s5, s6, o, o + 4);
        lemma_concat_prefix_subrange(s1 + s2 + s3 + s4, s5, o, o + 4);
        lemma_concat_prefix_subrange(s1 + s2 + s3, s4, o, o + 4);
        lemma_concat_prefix_subrange(s1 + s2, s3, o, o + 4);
        lemma_concat_suffix(s1, s2);
        assert(s2 == i32_be(v.rpm));
        lemma_subrange_of_subrange(s, p + a, p + b, o, o + 4);
        assert(s.subrange(p + sel_off_rpm(mask), p + sel_off_rpm(mask) + 4) == s2);
        lemma_be_i32_at(s, p + sel_off_rpm(mask), v.rpm);
    }
    if mask_has(mask, ValuesMask::VOLTAGE_IN) {
        let o = sel_off_voltage_in(mask) - a;
        lemma_concat_prefix_subrange(s1 + s2 + s3 + s4 + s5, s6, o, o + 2);
        lemma_concat_prefix_subrange(s1 + s2 + s3 + s4, s5, o, o + 2);
        lemma_concat_prefix_subrange(s1 + s2 + s3, s4, o, o + 2);
        lemma_concat_suffix(s1 + s2, s3);
        assert(s3 == i16_be(v.voltage_in));
        lemma_subrange_of_subrange(s, p + a, p + b, o, o + 2);
        assert(s.subrange(p + sel_off_voltage_in(mask), p + sel_off_voltage_in(mask) + 2) == s3);
        lemma_be_i16_at(s, p + sel_off_voltage_in(mask), v.voltage_in);
    }
    if mask_has(mask, ValuesMask::AMP_HOURS) {
        let o = sel_off_amp_hours(mask) - a;
        lemma_concat_prefix_subrange(s1 + s2 + s3 + s4 + s5, s6, o, o + 4);
        lemma_concat_prefix_subrange(s1 + s2 + s3 + s4, s5, o, o + 4);
        lemma_concat_suffix(s1 + s2 + s3, s4);
        assert(s4 == i32_be(v.amp_hours));
        lemma_subrange_of_subrange(s, p + a, p + b, o, o + 4);
        assert(s.subrange(p + sel_off_amp_hours(mask), p + sel_off_amp_hours(mask) + 4) == s4);
        lemma_be_i32_at(s, p + sel_off_amp_hours(mask), v.amp_hours);
    }
    if mask_has(mask, ValuesMask::AMP_HOURS_CHARGED) {
        let o = sel_off_amp_hours_charged(mask) - a;
        lemma_concat_prefix_subrange(s1 + s2 + s3 + s4 + s5, s6, o, o + 4);
        lemma_concat_suffix(s1 + s2 + s3 + s4, s5);
        assert(s5 == i32_be(v.amp_hours_charged));
        lemma_subrange_of_subrange(s, p + a, p + b, o, o + 4);
        assert(s.subrange(p + sel_off_amp_hours_charged(mask), p + sel_off_amp_hours_charged(mask) + 4) == s5);
        lemma_be_i32_at(s, p + sel_off_amp_hours_charged(mask), v.amp_hours_charged);
    }
    if mask_has(mask, ValuesMask::WATT_HOURS) {
        let o = sel_off_watt_hours(mask) - a;
        lemma_concat_suffix(s1 + s2 + s3 + s4 + s5, s6);
        assert(s6 == i32_be(v.watt_hours));
        lemma_subrange_of_subrange(s, p + a, p + b, o, o + 4);
        assert(s.subrange(p + sel_off_watt_hours(mask), p + sel_off_watt_hours(mask) + 4) == s6);
        lemma_be_i32_at(s, p + sel_off_watt_hours(mask), v.watt_hours);
    }
}

/// Reading back the next five groups from where a selective reply stores
/// them yields the values they were built from.
#[verifier::rlimit(100)]
proof fn lemma_sel_read_back_q3(mask: u32, s: Seq<u8>, p: int, v: Values)
    requires
        0 <= p,
        0 <= sel_off_watt_hours_charged(mask),
        p + sel_off_controller_id(mask) <= s.len(),
        s.subrange(p + sel_off_watt_hours_charged(mask), p + sel_off_controller_id(mask)) == sel_fields_q3(mask, v),
    ensures
        mask_has(mask, ValuesMask::WATT_HOURS_CHARGED) ==> be_i32(s, p + sel_off_watt_hours_charged(mask)) == v.watt_hours_charged,
        mask_has(mask, ValuesMask::TACHOMETER) ==> be_i32(s, p + sel_off_tachometer(mask)) == v.tachometer,
        mask_has(mask, ValuesMask::TACHOMETER_ABS) ==> be_i32(s, p + sel_off_tachometer_abs(mask)) == v.tachometer_abs,
        mask_has(mask, ValuesMask::FAULT_CODE) ==> s[p + sel_off_fault_code(mask)] == v.fault_code,
        mask_has(mask, ValuesMask::PID_POS) ==> be_i32(s, p + sel_off_pid_pos(mask)) == v.pid_pos,
{
    lemma_sel_off_steps(mask);
    let s1 = seg_i32(mask, ValuesMask::WATT_HOURS_CHARGED, v.watt_hours_charged);
    let s2 = seg_i32(mask, ValuesMask::TACHOMETER, v.tachometer);
    let s3 = seg_i32(mask, ValuesMask::TACHOMETER_ABS, v.tachometer_abs);
    let s4 = seg_u8(mask, ValuesMask::FAULT_CODE, v.fault_code);
    let s5 = seg_i32(mask, ValuesMask::PID_POS, v.pid_pos);
    assert(s1.len() == sel_gate(mask, ValuesMask::WATT_HOURS_CHARGED, 4));
    assert(s2.len() == sel_gate(mask, ValuesMask::TACHOMETER, 4));
    assert(s3.len() == sel_gate(mask, ValuesMask::TACHOMETER_ABS, 4));
    assert(s4.len() == sel_gate(mask, ValuesMask::FAULT_CODE, 1));
    assert(s5.len() == sel_gate(mask, ValuesMask::PID_POS, 4));
    let a = sel_off_watt_hours_charged(mask);
    let b = sel_off_controller_id(mask);
    assert(sel_fields_q3(mask, v) == s1 + s2 + s3 + s4 + s5);
    if mask_has(mask, ValuesMask::WATT_HOURS_CHARGED) {
        let o = sel_off_watt_hours_charged(mask) - a;
        lemma_concat_prefix_subrange(s1 + s2 + s3 + s4, s5, o, o + 4);
        lemma_concat_prefix_subrange(s1 + s2 + s3, s4, o, o + 4);
        lemma_concat_prefix_subrange(s1 + s2, s3, o, o + 4);
        lemma_concat_prefix_subrange(s1, s2, o, o + 4);
        assert((s1).subrange(0, 4) =~= s1);
        assert(s1 == i32_be(v.watt_hours_charged));
        lemma_subrange_of_subrange(s, p + a, p + b, o, o + 4);
        assert(s.subrange(p + sel_off_watt_hours_charged(mask), p + sel_off_watt_hours_charged(mask) + 4) == s1);
        lemma_be_i32_at(s, p + sel_off_watt_hours_charged(mask), v.watt_hours_charged);
    }
    if mask_has(mask, ValuesMask::TACHOMETER) {
        let o = sel_off_tachometer(mask) - a;
        lemma_concat_prefix_subrange(s1 + s2 + s3 + s4, s5, o, o + 4);
        lemma_concat_prefix_subrange(s1 + s2 + s3, s4, o, o + 4);
        lemma_concat_prefix_subrange(s1 + s2, s3, o, o + 4);
        lemma_concat_suffix(s1, s2);
        assert(s2 == i32_be(v.tachometer));
        lemma_subrange_of_subrange(s, p + a, p + b, o, o + 4);
        assert(s.subrange(p + sel_off_tachometer(mask), p + sel_off_tachometer(mask) + 4) == s2);
        lemma_be_i32_at(s, p + sel_off_tachometer(mask), v.tachometer);
    }
    if mask_has(mask, ValuesMask::TACHOMETER_ABS) {
        let o = sel_off_tachometer_abs(mask) - a;
        lemma_concat_prefix_subrange(s1 + s2 + s3 + s4, s5, o, o + 4);
        lemma_concat_prefix_subrange(s1 + s2 + s3, s4, o, o + 4);
        lemma_concat_suffix(s1 + s2, s3);
        assert(s3 == i32_be(v.tachometer_abs));
        lemma_subrange_of_subrange(s, p + a, p + b, o, o + 4);
        assert(s.subrange(p + sel_off_tachometer_abs(mask), p + sel_off_tachometer_abs(mask) + 4) == s3);
        lemma_be_i32_at(s, p + sel_off_tachometer_abs(mask), v.tachometer_abs);
    }
    if mask_has(mask, ValuesMask::FAULT_CODE) {
        let o = sel_off_fault_code(mask) - a;
        lemma_concat_prefix_subrange(s1 + s2 + s3 + s4, s5, o, o + 1);
        lemma_concat_suffix(s1 + s2 + s3, s4);
        assert(s4 == seq![v.fault_code]);
        lemma_subrange_of_subrange(s, p + a, p + b, o, o + 1);
        assert(s.subrange(p + sel_off_fault_code(mask), p + sel_off_fault_code(mask) + 1) == s4);
        assert(s[p + sel_off_fault_code(mask)] == s.subrange(p + sel_off_fault_code(mask), p + sel_off_fault_code(mask) + 1)[0]);
    }
    if mask_has(mask, ValuesMask::PID_POS) {
        let o = sel_off_pid_pos(mask) - a;
        lemma_concat_suffix(s1 + s2 + s3 + s4, s5);
        assert(s5 == i32_be(v.pid_pos));
        lemma_subrange_of_subrange(s, p + a, p + b, o, o + 4);
        assert(s.subrange(p + sel_off_pid_pos(mask), p + sel_off_pid_pos(mask) + 4) == s5);
        lemma_be_i32_at(s, p + sel_off_pid_pos(mask), v.pid_pos);
    }
}

/// Reading back the last five groups from where a selective reply stores
/// them yields the values they were built from.
#[verifier::rlimit(100)]
proof fn lemma_sel_read_back_q4(mask: u32, s: Seq<u8>, p: int, v: Values)
    requires
        0 <= p,
        0 <= sel_off_controller_id(mask),
        p + sel_size(mask) <= s.len(),
        s.subrange(p + sel_off_controller_id(mask), p + sel_size(mask)) == sel_fields_q4(mask, v),
    ensures
        mask_has(mask, ValuesMask::CONTROLLER_ID) ==> s[p + sel_off_controller_id(mask)] == v.controller_id,
        mask_has(mask, ValuesMask::TEMP_MOSFET_ALL) ==> be_i16(
            s,
            p + sel_off_temp_mosfet_all(mask),
        ) == v.temp_mosfet1 && be_i16(s, p + sel_off_temp_mosfet_all(mask) + 2) == v.temp_mosfet2
            && be_i16(s, p + sel_off_temp_mosfet_all(mask) + 4) == v.temp_mosfet3,
        mask_has(mask, ValuesMask::AVG_VOLTAGE_D) ==> be_i32(s, p + sel_off_avg_voltage_d(mask)) == v.avg_voltage_d,
        mask_has(mask, ValuesMask::AVG_VOLTAGE_Q) ==> be_i32(s, p + sel_off_avg_voltage_q(mask)) == v.avg_voltage_q,
        mask_has(mask, ValuesMask::STATUS) ==> s[p + sel_off_status(mask)] == v.status,
{
    lemma_sel_off_steps(mask);
    let s1 = seg_u8(mask, ValuesMask::CONTROLLER_ID, v.controller_id);
    let s2 = seg_3i16(mask, ValuesMask::TEMP_MOSFET_ALL, v.temp_mosfet1, v.temp_mosfet2, v.temp_mosfet3);
    let s3 = seg_i32(mask, ValuesMask::AVG_VOLTAGE_D, v.avg_voltage_d);
    let s4 = seg_i32(mask, ValuesMask::AVG_VOLTAGE_Q, v.avg_voltage_q);
    let s5 = seg_u8(mask, ValuesMask::STATUS, v.status);
    assert(s1.len() == sel_gate(mask, ValuesMask::CONTROLLER_ID, 1));
    assert(s2.len() == sel_gate(mask, ValuesMask::TEMP_MOSFET_ALL, 6));
    assert(s3.len() == sel_gate(mask, ValuesMask::AVG_VOLTAGE_D, 4));
    assert(s4.len() == sel_gate(mask, ValuesMask::AVG_VOLTAGE_Q, 4));
    assert(s5.len() == sel_gate(mask, ValuesMask::STATUS, 1));
    let a = sel_off_controller_id(mask);
    let b = sel_size(mask);
    assert(sel_fields_q4(mask, v) == s1 + s2 + s3 + s4 + s5);
    if mask_has(mask, ValuesMask::CONTROLLER_ID) {
        let o = sel_off_controller_id(mask) - a;
        lemma_concat_prefix_subrange(s1 + s2 + s3 + s4, s5, o, o + 1);
        lemma_concat_prefix_subrange(s1 + s2 + s3, s4, o, o + 1);
        lemma_concat_prefix_subrange(s1 + s2, s3, o, o + 1);
        lemma_concat_prefix_subrange(s1, s2, o, o + 1);
        assert((s1).subrange(0, 1) =~= s1);
        assert(s1 == seq![v.controller_id]);
        lemma_subrange_of_subrange(s, p + a, p + b, o, o + 1);
        assert(s.subrange(p + sel_off_controller_id(mask), p + sel_off_controller_id(mask) + 1) == s1);
        assert(s[p + sel_off_controller_id(mask)] == s.subrange(p + sel_off_controller_id(mask), p + sel_off_controller_id(mask) + 1)[0]);
    }
    if mask_has(mask, ValuesMask::TEMP_MOSFET_ALL) {
        let o = sel_off_temp_mosfet_all(mask) - a;
        lemma_concat_prefix_subrange(s1 + s2 + s3 + s4, s5, o, o + 6);
        lemma_concat_prefix_subrange(s1 + s2 + s3, s4, o, o + 6);
        lemma_concat_prefix_subrange(s1 + s2, s3, o, o + 6);
        lemma_concat_suffix(s1, s2);
        assert(s2 == i16_be(v.temp_mosfet1) + i16_be(v.temp_mosfet2) + i16_be(v.temp_mosfet3));
        lemma_subrange_of_subrange(s, p + a, p + b, o, o + 6);
        assert(s.subrange(p + sel_off_temp_mosfet_all(mask), p + sel_off_temp_mosfet_all(mask) + 6) == s2);
        let w3 = i16_be(v.temp_mosfet1) + i16_be(v.temp_mosfet2) + i16_be(v.temp_mosfet3);
        assert(w3.subrange(0, 2) =~= i16_be(v.temp_mosfet1));
        assert(w3.subrange(2, 4) =~= i16_be(v.temp_mosfet2));
        assert(w3.subrange(4, 6) =~= i16_be(v.temp_mosfet3));
        lemma_subrange_of_subrange(s, p + sel_off_temp_mosfet_all(mask), p + sel_off_temp_mosfet_all(mask) + 6, 0, 2);
        lemma_subrange_of_subrange(s, p + sel_off_temp_mosfet_all(mask), p + sel_off_temp_mosfet_all(mask) + 6, 2, 4);
        lemma_subrange_of_subrange(s, p + sel_off_temp_mosfet_all(mask), p + sel_off_temp_mosfet_all(mask) + 6, 4, 6);
        lemma_be_i16_at(s, p + sel_off_temp_mosfet_all(mask), v.temp_mosfet1);
        lemma_be_i16_at(s, p + sel_off_temp_mosfet_all(mask) + 2, v.temp_mosfet2);
        lemma_be_i16_at(s, p + sel_off_temp_mosfet_all(mask) + 4, v.temp_mosfet3);
    }
    if mask_has(mask, ValuesMask::AVG_VOLTAGE_D) {
        let o = sel_off_avg_voltage_d(mask) - a;
        lemma_concat_prefix_subrange(s1 + s2 + s3 + s4, s5, o, o + 4);
        lemma_concat_prefix_subrange(s1 + s2 + s3, s4, o, o + 4);
        lemma_concat_suffix(s1 + s2, s3);
        assert(s3 == i32_be(v.avg_voltage_d));
        lemma_subrange_of_subrange(s, p + a, p + b, o, o + 4);
        assert(s.subrange(p + sel_off_avg_voltage_d(mask), p + sel_off_avg_voltage_d(mask) + 4) == s3);
        lemma_be_i32_at(s, p + sel_off_avg_voltage_d(mask), v.avg_voltage_d);
    }
    if mask_has(mask, ValuesMask::AVG_VOLTAGE_Q) {
        let o = sel_off_avg_voltage_q(mask) - a;
        lemma_concat_prefix_subrange(s1 + s2 + s3 + s4, s5, o, o + 4);
        lemma_concat_suffix(s1 + s2 + s3, s4);
        assert(s4 == i32_be(v.avg_voltage_q));
        lemma_subrange_of_subrange(s, p + a, p + b, o, o + 4);
        assert(s.subrange(p + sel_off_avg_voltage_q(mask), p + sel_off_avg_voltage_q(mask) + 4) == s4);
        lemma_be_i32_at(s, p + sel_off_avg_voltage_q(mask), v.avg_voltage_q);
    }
    if mask_has(mask, ValuesMask::STATUS) {
        let o = sel_off_status(mask) - a;
        lemma_concat_suffix(s1 + s2 + s3 + s4, s5);
        assert(s5 == seq![v.status]);
        lemma_subrange_of_subrange(s, p + a, p + b, o, o + 1);
        assert(s.subrange(p + sel_off_status(mask), p + sel_off_status(mask) + 1) == s5);
        assert(s[p + sel_off_status(mask)] == s.subrange(p + sel_off_status(mask), p + sel_off_status(mask) + 1)[0]);
    }
}

/// The payload a selective reply carries is five bytes of identifier and
/// mask plus the requested field bytes.
#[verifier::rlimit(100)]
proof fn lemma_selective_payload_len(mask: u32, v: Values)
    ensures
        sel_fields_q1(mask, v).len() == sel_off_duty_cycle(mask),
        sel_fields_q2(mask, v).len() == sel_off_watt_hours_charged(mask) - sel_off_duty_cycle(
            mask,
        ),
        sel_fields_q3(mask, v).len() == sel_off_controller_id(mask) - sel_off_watt_hours_charged(
            mask,
        ),
        sel_fields_q4(mask, v).len() == sel_size(mask) - sel_off_controller_id(mask),
        sel_fields(mask, v).len() == sel_size(mask),
        0 <= sel_size(mask) <= 73,
        selective_payload(mask, v).len() == 5 + sel_size(mask),
{
    assert(seg_i16(mask, ValuesMask::TEMP_MOSFET, v.temp_mosfet).len() == sel_gate(mask, ValuesMask::TEMP_MOSFET, 2));
    assert(seg_i16(mask, ValuesMask::TEMP_MOTOR, v.temp_motor).len() == sel_gate(mask, ValuesMask::TEMP_MOTOR, 2));
    assert(seg_i32(mask, ValuesMask::AVG_CURRENT_MOTOR, v.avg_current_motor).len() == sel_gate(mask, ValuesMask::AVG_CURRENT_MOTOR, 4));
    assert(seg_i32(mask, ValuesMask::AVG_CURRENT_INPUT, v.avg_current_input).len() == sel_gate(mask, ValuesMask::AVG_CURRENT_INPUT, 4));
    assert(seg_i32(mask, ValuesMask::AVG_CURRENT_D, v.avg_current_d).len() == sel_gate(mask, ValuesMask::AVG_CURRENT_D, 4));
    assert(seg_i32(mask, ValuesMask::AVG_CURRENT_Q, v.avg_current_q).len() == sel_gate(mask, ValuesMask::AVG_CURRENT_Q, 4));
    assert(seg_i16(mask, ValuesMask::DUTY_CYCLE, v.duty_cycle).len() == sel_gate(mask, ValuesMask::DUTY_CYCLE, 2));
    assert(seg_i32(mask, ValuesMask::RPM, v.rpm).len() == sel_gate(mask, ValuesMask::RPM, 4));
    assert(seg_i16(mask, ValuesMask::VOLTAGE_IN, v.voltage_in).len() == sel_gate(mask, ValuesMask::VOLTAGE_IN, 2));
    assert(seg_i32(mask, ValuesMask::AMP_HOURS, v.amp_hours).len() == sel_gate(mask, ValuesMask::AMP_HOURS, 4));
    assert(seg_i32(mask, ValuesMask::AMP_HOURS_CHARGED, v.amp_hours_charged).len() == sel_gate(mask, ValuesMask::AMP_HOURS_CHARGED, 4));
    assert(seg_i32(mask, ValuesMask::WATT_HOURS, v.watt_hours).len() == sel_gate(mask, ValuesMask::WATT_HOURS, 4));
    assert(seg_i32(mask, ValuesMask::WATT_HOURS_CHARGED, v.watt_hours_charged).len() == sel_gate(mask, ValuesMask::WATT_HOURS_CHARGED, 4));
    assert(seg_i32(mask, ValuesMask::TACHOMETER, v.tachometer).len() == sel_gate(mask, ValuesMask::TACHOMETER, 4));
    assert(seg_i32(mask, ValuesMask::TACHOMETER_ABS, v.tachometer_abs).len() == sel_gate(mask, ValuesMask::TACHOMETER_ABS, 4));
    assert(seg_u8(mask, ValuesMask::FAULT_CODE, v.fault_code).len() == sel_gate(mask, ValuesMask::FAULT_CODE, 1));
    assert(seg_i32(mask, ValuesMask::PID_POS, v.pid_pos).len() == sel_gate(mask, ValuesMask::PID_POS, 4));
    assert(seg_u8(mask, ValuesMask::CONTROLLER_ID, v.controller_id).len() == sel_gate(mask, ValuesMask::CONTROLLER_ID, 1));
    assert(seg_3i16(mask, ValuesMask::TEMP_MOSFET_ALL, v.temp_mosfet1, v.temp_mosfet2, v.temp_mosfet3).len() == sel_gate(mask, ValuesMask::TEMP_MOSFET_ALL, 6));
    assert(seg_i32(mask, ValuesMask::AVG_VOLTAGE_D, v.avg_voltage_d).len() == sel_gate(mask, ValuesMask::AVG_VOLTAGE_D, 4));
    assert(seg_i32(mask, ValuesMask::AVG_VOLTAGE_Q, v.avg_voltage_q).len() == sel_gate(mask, ValuesMask::AVG_VOLTAGE_Q, 4));
    assert(seg_u8(mask, ValuesMask::STATUS, v.status).len() == sel_gate(mask, ValuesMask::STATUS, 1));
}

/// The suffix of a concatenation after the first part is the second part.
proof fn lemma_concat_suffix<T>(x: Seq<T>, y: Seq<T>)
    ensures
        (x + y).subrange(x.len() as int, (x + y).len() as int) == y,
{
    assert((x + y).subrange(x.len() as int, (x + y).len() as int) =~= y);
}

/// A subrange that lies inside the first part of a concatenation ignores the
/// second part.
proof fn lemma_concat_prefix_subrange<T>(x: Seq<T>, y: Seq<T>, i: int, j: int)
    requires
        0 <= i <= j <= x.len(),
    ensures
        (x + y).subrange(i, j) == x.subrange(i, j),
{
    assert((x + y).subrange(i, j) =~= x.subrange(i, j));
}

/// In a selective reply frame the first run of field bytes lies at its
/// offset behind the identifier and mask.
#[verifier::rlimit(100)]
proof fn lemma_selective_frame_layout_q1(mask: u32, v: Values)
    ensures
        frame_of(selective_payload(mask, v)).subrange(7, 7 + sel_off_duty_cycle(mask)) == sel_fields_q1(mask, v),
{
    lemma_sel_off_steps(mask);
    lemma_selective_payload_len(mask, v);
    let p = selective_payload(mask, v);
    let f = sel_fields(mask, v);
    let s = frame_of(p);
    let n = sel_size(mask);
    assert forall|i: int| 0 <= i < n implies s[7 + i] == f[i] by {}
    assert(s.subrange(7, 7 + sel_off_duty_cycle(mask)) =~= sel_fields_q1(mask, v));
}

/// In a selective reply frame the second run of field bytes lies at its
/// offset behind the identifier and mask.
#[verifier::rlimit(100)]
proof fn lemma_selective_frame_layout_q2(mask: u32, v: Values)
    ensures
        frame_of(selective_payload(mask, v)).subrange(7 + sel_off_duty_cycle(mask), 7 + sel_off_watt_hours_charged(mask)) == sel_fields_q2(mask, v),
{
    lemma_sel_off_steps(mask);
    lemma_selective_payload_len(mask, v);
    let q1 = sel_fields_q1(mask, v);
    let q2 = sel_fields_q2(mask, v);
    let q3 = sel_fields_q3(mask, v);
    let q4 = sel_fields_q4(mask, v);
    let u = q1 + q2;
    let w = u + q3;
    let f = sel_fields(mask, v);
    let s = frame_of(selective_payload(mask, v));
    let n = sel_size(mask);
    let lo = sel_off_duty_cycle(mask);
    let hi = sel_off_watt_hours_charged(mask);
    lemma_concat_suffix(q1, q2);
    lemma_concat_prefix_subrange(u, q3, lo, hi);
    lemma_concat_prefix_subrange(w, q4, lo, hi);
    assert(f.subrange(lo, hi) == q2);
    assert forall|i: int| 0 <= i < n implies s[7 + i] == f[i] by {}
    assert(s.subrange(7 + lo, 7 + hi) =~= f.subrange(lo, hi));
}

/// In a selective reply frame the third run of field bytes lies at its
/// offset behind the identifier and mask.
#[verifier::rlimit(100)]
proof fn lemma_selective_frame_layout_q3(mask: u32, v: Values)
    ensures
        frame_of(selective_payload(mask, v)).subrange(7 + sel_off_watt_hours_charged(mask), 7 + sel_off_controller_id(mask)) == sel_fields_q3(mask, v),
{
    lemma_sel_off_steps(mask);
    lemma_selective_payload_len(mask, v);
    let q1 = sel_fields_q1(mask, v);
    let q2 = sel_fields_q2(mask, v);
    let q3 = sel_fields_q3(mask, v);
    let q4 = sel_fields_q4(mask, v);
    let u = q1 + q2;
    let w = u + q3;
    let f = sel_fields(mask, v);
    let s = frame_of(selective_payload(mask, v));
    let n = sel_size(mask);
    let lo = sel_off_watt_hours_charged(mask);
    let hi = sel_off_controller_id(mask);
    lemma_concat_suffix(u, q3);
    lemma_concat_prefix_subrange(w, q4, lo, hi);
    assert(f.subrange(lo, hi) == q3);
    assert forall|i: int| 0 <= i < n implies s[7 + i] == f[i] by {}
    assert(s.subrange(7 + lo, 7 + hi) =~= f.subrange(lo, hi));
}

/// In a selective reply frame the fourth run of field bytes lies at its
/// offset behind the identifier and mask.
#[verifier::rlimit(100)]
proof fn lemma_selective_frame_layout_q4(mask: u32, v: Values)
    ensures
        frame_of(selective_payload(mask, v)).subrange(7 + sel_off_controller_id(mask), 7 + sel_size(mask)) == sel_fields_q4(mask, v),
{
    lemma_sel_off_steps(mask);
    lemma_selective_payload_len(mask, v);
    let p = selective_payload(mask, v);
    let f = sel_fields(mask, v);
    let s = frame_of(p);
    let n = sel_size(mask);
    assert forall|i: int| 0 <= i < n implies s[7 + i] == f[i] by {}
    assert(s.subrange(7 + sel_off_controller_id(mask), 7 + sel_size(mask)) =~= sel_fields_q4(mask, v));
}

/// In a selective reply frame the four runs of field bytes lie at their
/// offsets behind the identifier and mask.
proof fn lemma_selective_frame_layout(mask: u32, v: Values)
    ensures
        frame_of(selective_payload(mask, v)).subrange(7, 7 + sel_off_duty_cycle(mask))
            == sel_fields_q1(mask, v),
        frame_of(selective_payload(mask, v)).subrange(
            7 + sel_off_duty_cycle(mask),
            7 + sel_off_watt_hours_charged(mask),
        ) == sel_fields_q2(mask, v),
        frame_of(selective_payload(mask, v)).subrange(
            7 + sel_off_watt_hours_charged(mask),
            7 + sel_off_controller_id(mask),
        ) == sel_fields_q3(mask, v),
        frame_of(selective_payload(mask, v)).subrange(
            7 + sel_off_controller_id(mask),
            7 + sel_size(mask),
        ) == sel_fields_q4(mask, v),
{
    lemma_selective_frame_layout_q1(mask, v);
    lemma_selective_frame_layout_q2(mask, v);
    lemma_selective_frame_layout_q3(mask, v);
    lemma_selective_frame_layout_q4(mask, v);
}

/// Round trip for selective telemetry replies: for any subset of mask bits,
/// a frame built with exactly the requested groups of a record decodes to
/// that record restricted to the mask, consuming the whole frame. Every
/// field whose group the mask does not request comes back zero.
#[verifier::rlimit(100)]
pub proof fn lemma_get_values_selective_round_trip(mask: u32, v: Values)
    ensures
        spec_decode(frame_of(selective_payload(mask, v))) == Ok::<(int, CommandReply), Error>(
            (10 + sel_size(mask), CommandReply::GetValuesSelective(mask_restrict(mask, v))),
        ),
{
    lemma_selective_payload_len(mask, v);
    let p = selective_payload(mask, v);
    let f = sel_fields(mask, v);
    let s = frame_of(p);
    let n = sel_size(mask);
    assert(p.len() == 5 + n);
    assert(s.len() == 10 + n);
    assert(s[0] == FRAME_START_SHORT);
    assert(s[1] == (5 + n) as u8);
    assert(s[2] == CMD_GET_VALUES_SELECTIVE);
    assert(s[3] == u32_be(mask)[0]);
    assert(s[4] == u32_be(mask)[1]);
    assert(s[5] == u32_be(mask)[2]);
    assert(s[6] == u32_be(mask)[3]);
    crate::packer::lemma_be_u32_roundtrip(s, 3, mask);
    lemma_selective_frame_layout(mask, v);
    lemma_sel_read_back_q1(mask, s, 7, v);
    lemma_sel_read_back_q2(mask, s, 7, v);
    lemma_sel_read_back_q3(mask, s, 7, v);
    lemma_sel_read_back_q4(mask, s, 7, v);
    proof_sel_values(mask, s, v);
    assert(spec_parse_payload(s) == Ok::<(int, CommandReply), Error>(
        (7 + n, CommandReply::GetValuesSelective(mask_restrict(mask, v))),
    ));
    assert(s.subrange(2, 7 + n) =~= p);
    crate::packer::lemma_be_u16_roundtrip(s, 7 + n, crc16_of(p));
    assert(s[9 + n] == FRAME_END);
}

/// Helper: with every group's read-back fact in scope, the decoded record is
/// the mask-restricted one.
#[verifier::rlimit(100)]
proof fn proof_sel_values(mask: u32, s: Seq<u8>, v: Values)
    requires
        mask_has(mask, ValuesMask::TEMP_MOSFET) ==> be_i16(s, 7 + sel_off_temp_mosfet(mask)) == v.temp_mosfet,
        mask_has(mask, ValuesMask::TEMP_MOTOR) ==> be_i16(s, 7 + sel_off_temp_motor(mask)) == v.temp_motor,
        mask_has(mask, ValuesMask::AVG_CURRENT_MOTOR) ==> be_i32(s, 7 + sel_off_avg_current_motor(mask)) == v.avg_current_motor,
        mask_has(mask, ValuesMask::AVG_CURRENT_INPUT) ==> be_i32(s, 7 + sel_off_avg_current_input(mask)) == v.avg_current_input,
        mask_has(mask, ValuesMask::AVG_CURRENT_D) ==> be_i32(s, 7 + sel_off_avg_current_d(mask)) == v.avg_current_d,
        mask_has(mask, ValuesMask::AVG_CURRENT_Q) ==> be_i32(s, 7 + sel_off_avg_current_q(mask)) == v.avg_current_q,
        mask_has(mask, ValuesMask::DUTY_CYCLE) ==> be_i16(s, 7 + sel_off_duty_cycle(mask)) == v.duty_cycle,
        mask_has(mask, ValuesMask::RPM) ==> be_i32(s, 7 + sel_off_rpm(mask)) == v.rpm,
        mask_has(mask, ValuesMask::VOLTAGE_IN) ==> be_i16(s, 7 + sel_off_voltage_in(mask)) == v.voltage_in,
        mask_has(mask, ValuesMask::AMP_HOURS) ==> be_i32(s, 7 + sel_off_amp_hours(mask)) == v.amp_hours,
        mask_has(mask, ValuesMask::AMP_HOURS_CHARGED) ==> be_i32(s, 7 + sel_off_amp_hours_charged(mask)) == v.amp_hours_charged,
        mask_has(mask, ValuesMask::WATT_HOURS) ==> be_i32(s, 7 + sel_off_watt_hours(mask)) == v.watt_hours,
        mask_has(mask, ValuesMask::WATT_HOURS_CHARGED) ==> be_i32(s, 7 + sel_off_watt_hours_charged(mask)) == v.watt_hours_charged,
        mask_has(mask, ValuesMask::TACHOMETER) ==> be_i32(s, 7 + sel_off_tachometer(mask)) == v.tachometer,
        mask_has(mask, ValuesMask::TACHOMETER_ABS) ==> be_i32(s, 7 + sel_off_tachometer_abs(mask)) == v.tachometer_abs,
        mask_has(mask, ValuesMask::FAULT_CODE) ==> s[7 + sel_off_fault_code(mask)] == v.fault_code,
        mask_has(mask, ValuesMask::PID_POS) ==> be_i32(s, 7 + sel_off_pid_pos(mask)) == v.pid_pos,
        mask_has(mask, ValuesMask::CONTROLLER_ID) ==> s[7 + sel_off_controller_id(mask)] == v.controller_id,
        mask_has(mask, ValuesMask::TEMP_MOSFET_ALL) ==> be_i16(s, 7 + sel_off_temp_mosfet_all(mask)) == v.temp_mosfet1
            && be_i16(s, 7 + sel_off_temp_mosfet_all(mask) + 2) == v.temp_mosfet2
            && be_i16(s, 7 + sel_off_temp_mosfet_all(mask) + 4) == v.temp_mosfet3,
        mask_has(mask, ValuesMask::AVG_VOLTAGE_D) ==> be_i32(s, 7 + sel_off_avg_voltage_d(mask)) == v.avg_voltage_d,
        mask_has(mask, ValuesMask::AVG_VOLTAGE_Q) ==> be_i32(s, 7 + sel_off_avg_voltage_q(mask)) == v.avg_voltage_q,
        mask_has(mask, ValuesMask::STATUS) ==> s[7 + sel_off_status(mask)] == v.status,
    ensures
        sel_values_at(mask, s, 7) == mask_restrict(mask, v),
{
    reveal(sel_values_at);
}

/// A corrupted payload byte in a full telemetry reply frame is caught by the
/// checksum, never silently misparsed: whenever the corruption changes the
/// payload's CRC16, decoding reports exactly the mismatch between the stored
/// checksum and the recomputed one. The identifier byte is not covered: a
/// corruption there changes which layout is parsed and is reported as
/// `UnknownPacket` instead.
pub proof fn lemma_corrupted_field_byte_detected(v: Values, j: int, b: u8)
    requires
        3 <= j < 76,
        crc16_of(frame_of(get_values_payload(v)).update(j, b).subrange(2, 76)) != crc16_of(
            get_values_payload(v),
        ),
    ensures
        spec_decode(frame_of(get_values_payload(v)).update(j, b)) == Err::<
            (int, CommandReply),
            Error,
        >(
            Error::ChecksumMismatch {
                expected: crc16_of(get_values_payload(v)),
                actual: crc16_of(frame_of(get_values_payload(v)).update(j, b).subrange(2, 76)),
            },
        ),
{
    lemma_full_frame_fields(v);
    let p = get_values_payload(v);
    let s = frame_of(p);
    let t = s.update(j, b);
    assert(s.len() == 79);
    assert(t.len() == 79);
    assert(t[0] == FRAME_START_SHORT);
    assert(t[1] == 74);
    assert(t[2] == CMD_GET_VALUES);
    assert(spec_parse_payload(t) == Ok::<(int, CommandReply), Error>(
        (76int, CommandReply::GetValues(full_values_at(t, 3))),
    ));
    assert(t[76] == u16_be(crc16_of(p))[0]);
    assert(t[77] == u16_be(crc16_of(p))[1]);
    crate::packer::lemma_be_u16_roundtrip(t, 76, crc16_of(p));
}

} // verus!
