//! Command and reply vocabularies of the protocol, their binary layouts, and
//! the outer frame: start marker, payload length, payload (command identifier
//! plus fields), CRC16 checksum, end marker.
//!
//! Fields that the protocol transmits as scaled fixed-point integers are held
//! as the wire integers themselves; the scale of each is noted on its field.

use vstd::prelude::*;

verus! {

use crate::packer::{
    be_i16,
    be_i32,
    be_u16,
    be_u32,
    i16_be,
    i32_be,
    u16_be,
    u32_be,
    Packer,
    Unpacker,
};

/// Start marker of a short frame.
pub const FRAME_START_SHORT: u8 = 2;

/// End marker of every frame.
pub const FRAME_END: u8 = 3;

/// Command identifier of [`Command::GetValues`].
pub const CMD_GET_VALUES: u8 = 4;

/// Command identifier of [`Command::SetCurrent`].
pub const CMD_SET_CURRENT: u8 = 6;

/// Command identifier of [`Command::SetRpm`].
pub const CMD_SET_RPM: u8 = 8;

/// Command identifier of [`Command::ForwardCan`].
pub const CMD_FORWARD_CAN: u8 = 34;

/// Command identifier of [`Command::GetValuesSelective`].
pub const CMD_GET_VALUES_SELECTIVE: u8 = 50;

/// Errors raised while encoding a command or decoding a reply frame.
#[derive(Debug, Clone, Copy, PartialEq, Eq, Structural)]
#[non_exhaustive]
pub enum Error {
    /// The output buffer provided for encoding is too small.
    BufferTooSmall,
    /// The input buffer does not contain enough data for a complete frame.
    IncompleteData,
    /// The stored checksum does not match the one computed over the payload.
    ChecksumMismatch { expected: u16, actual: u16 },
    /// A well-formed frame carries an identifier this codec does not know.
    UnknownPacket { id: u8 },
    /// The start or end marker is wrong, or the declared payload length
    /// reaches back past the start of the buffer.
    InvalidFrame,
}

/// A bitmask naming which telemetry field groups a
/// [`Command::GetValuesSelective`] request asks for. Twenty-two bits are
/// defined; unknown bits are retained, not rejected.
#[derive(Debug, Clone, Copy, PartialEq, Eq, Structural)]
pub struct ValuesMask {
    pub bits: u32,
}

impl ValuesMask {
    pub const TEMP_MOSFET: u32 = 1u32 << 0;

    pub const TEMP_MOTOR: u32 = 1u32 << 1;

    pub const AVG_CURRENT_MOTOR: u32 = 1u32 << 2;

    pub const AVG_CURRENT_INPUT: u32 = 1u32 << 3;

    pub const AVG_CURRENT_D: u32 = 1u32 << 4;

    pub const AVG_CURRENT_Q: u32 = 1u32 << 5;

    pub const DUTY_CYCLE: u32 = 1u32 << 6;

    pub const RPM: u32 = 1u32 << 7;

    pub const VOLTAGE_IN: u32 = 1u32 << 8;

    pub const AMP_HOURS: u32 = 1u32 << 9;

    pub const AMP_HOURS_CHARGED: u32 = 1u32 << 10;

    pub const WATT_HOURS: u32 = 1u32 << 11;

    pub const WATT_HOURS_CHARGED: u32 = 1u32 << 12;

    pub const TACHOMETER: u32 = 1u32 << 13;

    pub const TACHOMETER_ABS: u32 = 1u32 << 14;

    pub const FAULT_CODE: u32 = 1u32 << 15;

    pub const PID_POS: u32 = 1u32 << 16;

    pub const CONTROLLER_ID: u32 = 1u32 << 17;

    /// Gates all three per-MOSFET temperatures as one group.
    pub const TEMP_MOSFET_ALL: u32 = 1u32 << 18;

    pub const AVG_VOLTAGE_D: u32 = 1u32 << 19;

    pub const AVG_VOLTAGE_Q: u32 = 1u32 << 20;

    pub const STATUS: u32 = 1u32 << 21;

    /// Builds a mask from raw bits, keeping bits with no defined meaning.
    pub fn from_bits_retain(bits: u32) -> (r: ValuesMask)
        ensures
            r.bits == bits,
    {
        ValuesMask { bits }
    }

    /// The raw bits of the mask.
    pub fn bits(self) -> (r: u32)
        ensures
            r == self.bits,
    {
        self.bits
    }

    /// Whether every bit of `other` is set in `self`.
    pub fn contains(self, other: ValuesMask) -> (r: bool)
        ensures
            r <==> self.bits & other.bits == other.bits,
    {
        self.bits & other.bits == other.bits
    }

    /// The bitwise union of two masks.
    pub fn union(self, other: ValuesMask) -> (r: ValuesMask)
        ensures
            r.bits == self.bits | other.bits,
    {
        ValuesMask { bits: self.bits | other.bits }
    }

    /// The mask with no bits set.
    pub fn empty() -> (r: ValuesMask)
        ensures
            r.bits == 0,
    {
        ValuesMask { bits: 0 }
    }
}

/// Commands that can be sent to the motor controller. Scaled fields hold the
/// wire integer; the scale turns it back into the physical value.
#[derive(Debug)]
pub enum Command {
    /// Requests the complete set of telemetry data.
    GetValues,
    /// Sets the motor current, in milliamperes (amperes scaled by 1000,
    /// truncated toward zero).
    SetCurrent(i32),
    /// Sets the motor speed, in revolutions per minute.
    SetRpm(i32),
    /// Forwards a command to another controller on the CAN bus: the target
    /// controller id, then the embedded command. The inner command's
    /// identifier and fields become part of this command's payload; there is
    /// exactly one frame, not a nested one.
    ForwardCan(u8, Box<Command>),
    /// Requests the subset of telemetry data named by the mask.
    GetValuesSelective(ValuesMask),
}

/// Telemetry data returned by the motor controller. Each scaled field holds
/// the wire integer; dividing by the scale yields the physical value.
#[derive(Debug, Clone, Copy, PartialEq, Eq, Structural)]
pub struct Values {
    /// MOSFET temperature, tenths of a degree (16-bit, scale 10).
    pub temp_mosfet: i16,
    /// Motor temperature, tenths of a degree (16-bit, scale 10).
    pub temp_motor: i16,
    /// Average motor current, centiamperes (32-bit, scale 100).
    pub avg_current_motor: i32,
    /// Average input current, centiamperes (32-bit, scale 100).
    pub avg_current_input: i32,
    /// Average d-axis current, centiamperes (32-bit, scale 100).
    pub avg_current_d: i32,
    /// Average q-axis current, centiamperes (32-bit, scale 100).
    pub avg_current_q: i32,
    /// Duty cycle, thousandths (16-bit, scale 1000).
    pub duty_cycle: i16,
    /// Motor speed, revolutions per minute (32-bit, scale 1).
    pub rpm: i32,
    /// Input voltage, tenths of a volt (16-bit, scale 10).
    pub voltage_in: i16,
    /// Consumed charge, tenths of a milliampere-hour (32-bit, scale 10000).
    pub amp_hours: i32,
    /// Recovered charge, tenths of a milliampere-hour (32-bit, scale 10000).
    pub amp_hours_charged: i32,
    /// Consumed energy, tenths of a milliwatt-hour (32-bit, scale 10000).
    pub watt_hours: i32,
    /// Recovered energy, tenths of a milliwatt-hour (32-bit, scale 10000).
    pub watt_hours_charged: i32,
    /// Tachometer count (32-bit, raw).
    pub tachometer: i32,
    /// Absolute tachometer count (32-bit, raw).
    pub tachometer_abs: i32,
    /// Fault code (8-bit, raw).
    pub fault_code: u8,
    /// PID position, millionths of a turn (32-bit, scale 1000000).
    pub pid_pos: i32,
    /// Controller id (8-bit, raw).
    pub controller_id: u8,
    /// First per-MOSFET temperature, tenths of a degree (16-bit, scale 10).
    pub temp_mosfet1: i16,
    /// Second per-MOSFET temperature, tenths of a degree (16-bit, scale 10).
    pub temp_mosfet2: i16,
    /// Third per-MOSFET temperature, tenths of a degree (16-bit, scale 10).
    pub temp_mosfet3: i16,
    /// Average d-axis voltage, millivolts (32-bit, scale 1000).
    pub avg_voltage_d: i32,
    /// Average q-axis voltage, millivolts (32-bit, scale 1000).
    pub avg_voltage_q: i32,
    /// Status byte (8-bit, raw).
    pub status: u8,
}

impl Values {
    /// The record with every field at its type's zero.
    pub open spec fn zero() -> Values {
        Values {
            temp_mosfet: 0i16,
            temp_motor: 0i16,
            avg_current_motor: 0i32,
            avg_current_input: 0i32,
            avg_current_d: 0i32,
            avg_current_q: 0i32,
            duty_cycle: 0i16,
            rpm: 0i32,
            voltage_in: 0i16,
            amp_hours: 0i32,
            amp_hours_charged: 0i32,
            watt_hours: 0i32,
            watt_hours_charged: 0i32,
            tachometer: 0i32,
            tachometer_abs: 0i32,
            fault_code: 0u8,
            pid_pos: 0i32,
            controller_id: 0u8,
            temp_mosfet1: 0i16,
            temp_mosfet2: 0i16,
            temp_mosfet3: 0i16,
            avg_voltage_d: 0i32,
            avg_voltage_q: 0i32,
            status: 0u8,
        }
    }
}

impl Default for Values {
    /// Every field starts at its type's zero.
    fn default() -> (r: Values)
        ensures
            r == Values::zero(),
    {
        Values {
            temp_mosfet: 0,
            temp_motor: 0,
            avg_current_motor: 0,
            avg_current_input: 0,
            avg_current_d: 0,
            avg_current_q: 0,
            duty_cycle: 0,
            rpm: 0,
            voltage_in: 0,
            amp_hours: 0,
            amp_hours_charged: 0,
            watt_hours: 0,
            watt_hours_charged: 0,
            tachometer: 0,
            tachometer_abs: 0,
            fault_code: 0,
            pid_pos: 0,
            controller_id: 0,
            temp_mosfet1: 0,
            temp_mosfet2: 0,
            temp_mosfet3: 0,
            avg_voltage_d: 0,
            avg_voltage_q: 0,
            status: 0,
        }
    }
}

/// Reply messages received from the controller in response to commands.
#[derive(Debug, Clone, Copy, PartialEq, Eq, Structural)]
pub enum CommandReply {
    /// Complete telemetry data, in response to [`Command::GetValues`].
    GetValues(Values),
    /// Selective telemetry data, in response to
    /// [`Command::GetValuesSelective`]: only the requested fields are
    /// populated, all others keep their zero default.
    GetValuesSelective(Values),
}

/// The XMODEM CRC16 of a byte sequence, exactly as the `crc` crate's
/// `Crc::<u16>::checksum` computes it for `CRC_16_XMODEM`.
pub uninterp spec fn crc16_of(bytes: Seq<u8>) -> u16;

/// Relies on `crc::Crc::<u16>::checksum` with the `CRC_16_XMODEM` parameters
/// (polynomial 0x1021, no reflection): the checksum is a deterministic
/// function of the input bytes alone.
#[verifier::external_body]
fn crc16(data: &[u8]) -> (r: u16)
    ensures
        r == crc16_of(data@),
{
    crc::Crc::<u16>::new(&crc::CRC_16_XMODEM).checksum(data)
}

/// The payload a command serializes to: its identifier byte followed by its
/// fields in declared order. A forwarded command embeds its inner command's
/// payload in place.
pub open spec fn payload_of(c: Command) -> Seq<u8>
    decreases c,
{
    match c {
        Command::GetValues => seq![CMD_GET_VALUES],
        Command::SetCurrent(milliamps) => seq![CMD_SET_CURRENT] + i32_be(milliamps),
        Command::SetRpm(rpm) => seq![CMD_SET_RPM] + i32_be(rpm),
        Command::ForwardCan(controller_id, inner) => seq![CMD_FORWARD_CAN, controller_id]
            + payload_of(*inner),
        Command::GetValuesSelective(mask) => seq![CMD_GET_VALUES_SELECTIVE] + u32_be(mask.bits),
    }
}

/// The complete frame around a payload: start marker, payload length (the
/// payload's byte count, truncated to one byte), the payload, its big-endian
/// XMODEM CRC16, and the end marker.
pub open spec fn frame_of(payload: Seq<u8>) -> Seq<u8> {
    seq![FRAME_START_SHORT, payload.len() as u8] + payload + u16_be(crc16_of(payload)) + seq![
        FRAME_END,
    ]
}

impl Command {
    /// Appends this command's payload at the writer's cursor. Fails with
    /// `BufferTooSmall` exactly when the payload does not fit in the
    /// remaining capacity; bytes written before the failure stay in place.
    fn pack_into(&self, packer: &mut Packer) -> (r: Result<(), Error>)
        requires
            old(packer).wf(),
        ensures
            final(packer).wf(),
            final(packer).buf@.len() == old(packer).buf@.len(),
            r is Ok <==> old(packer).pos + payload_of(*self).len() <= old(packer).buf@.len(),
            r matches Ok(()) ==> final(packer).pos == old(packer).pos + payload_of(*self).len()
                && final(packer).buf@ == old(packer).buf@.take(old(packer).pos as int)
                    + payload_of(*self) + old(packer).buf@.skip(
                old(packer).pos + payload_of(*self).len(),
            ),
            r is Err ==> r == Err::<(), Error>(Error::BufferTooSmall) && final(packer).pos >= old(
                packer,
            ).pos,
        decreases *self,
    {
        match self {
            Command::GetValues => {
                packer.pack_u8(CMD_GET_VALUES)?;
            },
            Command::SetCurrent(milliamps) => {
                packer.pack_u8(CMD_SET_CURRENT)?;
                packer.pack_i32(*milliamps)?;
            },
            Command::SetRpm(rpm) => {
                packer.pack_u8(CMD_SET_RPM)?;
                packer.pack_i32(*rpm)?;
            },
            Command::ForwardCan(controller_id, inner) => {
                packer.pack_u8(CMD_FORWARD_CAN)?;
                packer.pack_u8(*controller_id)?;
                inner.pack_into(packer)?;
            },
            Command::GetValuesSelective(mask) => {
                packer.pack_u8(CMD_GET_VALUES_SELECTIVE)?;
                packer.pack_u32(mask.bits)?;
            },
        }
        proof {
            assert(packer.buf@ =~= old(packer).buf@.take(old(packer).pos as int) + payload_of(
                *self,
            ) + old(packer).buf@.skip(old(packer).pos + payload_of(*self).len()));
        }
        Ok(())
    }
}

/// Writes the complete frame for `command` into the front of `buf`, whose
/// length is the fixed capacity. Returns the number of bytes written, the
/// payload's length plus the five framing bytes; bytes past the frame are
/// left as they were. Fails with `BufferTooSmall` exactly when the frame
/// does not fit, in which case the buffer's length is unchanged but a
/// partial frame may be present.
pub fn encode(command: &Command, buf: &mut Vec<u8>) -> (r: Result<usize, Error>)
    ensures
        final(buf)@.len() == old(buf)@.len(),
        r is Ok <==> payload_of(*command).len() + 5 <= old(buf)@.len(),
        r matches Ok(n) ==> n == payload_of(*command).len() + 5 && final(buf)@ == frame_of(
            payload_of(*command),
        ) + old(buf)@.skip(n as int),
        r is Err ==> r == Err::<usize, Error>(Error::BufferTooSmall),
{
    let mut tmp: Vec<u8> = Vec::new();
    core::mem::swap(buf, &mut tmp);
    let mut packer = Packer::new(tmp);
    let result = encode_into(command, &mut packer);
    core::mem::swap(buf, &mut packer.buf);
    result
}

/// The encode path proper, over a writer whose cursor is at the start.
fn encode_into(command: &Command, packer: &mut Packer) -> (r: Result<usize, Error>)
    requires
        old(packer).wf(),
        old(packer).pos == 0,
    ensures
        final(packer).wf(),
        final(packer).buf@.len() == old(packer).buf@.len(),
        r is Ok <==> payload_of(*command).len() + 5 <= old(packer).buf@.len(),
        r matches Ok(n) ==> n == payload_of(*command).len() + 5 && final(packer).buf@ == frame_of(
            payload_of(*command),
        ) + old(packer).buf@.skip(n as int),
        r is Err ==> r == Err::<usize, Error>(Error::BufferTooSmall),
{
    packer.pack_u8(FRAME_START_SHORT)?;
    packer.pack_u8(0)?;
    command.pack_into(packer)?;
    let payload_len: usize = packer.pos - 2;
    let len_byte: u8 = payload_len as u8;
    packer.buf[1] = len_byte;
    let checksum = crc16(vstd::slice::slice_subrange(packer.buf.as_slice(), 2, packer.pos));
    proof {
        assert(packer.buf@.subrange(2, packer.pos as int) =~= payload_of(*command));
    }
    packer.pack_u16(checksum)?;
    packer.pack_u8(FRAME_END)?;
    proof {
        assert(packer.buf@ =~= frame_of(payload_of(*command)) + old(packer).buf@.skip(
            payload_of(*command).len() + 5int,
        ));
    }
    Ok(packer.pos)
}

/// Whether every bit of `bit` is set in `mask`.
pub open spec fn mask_has(mask: u32, bit: u32) -> bool {
    mask & bit == bit
}

/// The byte width a field group contributes to a selective reply: its wire
/// width if the mask requests it, zero otherwise.
pub open spec fn sel_gate(mask: u32, bit: u32, width: int) -> int {
    if mask_has(mask, bit) {
        width
    } else {
        0
    }
}

/// Offset of the first group's bytes among the fields of a selective reply.
pub open spec fn sel_off_temp_mosfet(mask: u32) -> int {
    0
}

/// Offset of the `temp_motor` group's bytes among the fields of a selective
/// reply: the total width of the requested groups before it.
pub open spec fn sel_off_temp_motor(mask: u32) -> int {
    sel_off_temp_mosfet(mask) + sel_gate(mask, ValuesMask::TEMP_MOSFET, 2)
}

/// Offset of the `avg_current_motor` group's bytes among the fields of a selective
/// reply: the total width of the requested groups before it.
pub open spec fn sel_off_avg_current_motor(mask: u32) -> int {
    sel_off_temp_motor(mask) + sel_gate(mask, ValuesMask::TEMP_MOTOR, 2)
}

/// Offset of the `avg_current_input` group's bytes among the fields of a selective
/// reply: the total width of the requested groups before it.
pub open spec fn sel_off_avg_current_input(mask: u32) -> int {
    sel_off_avg_current_motor(mask) + sel_gate(mask, ValuesMask::AVG_CURRENT_MOTOR, 4)
}

/// Offset of the `avg_current_d` group's bytes among the fields of a selective
/// reply: the total width of the requested groups before it.
pub open spec fn sel_off_avg_current_d(mask: u32) -> int {
    sel_off_avg_current_input(mask) + sel_gate(mask, ValuesMask::AVG_CURRENT_INPUT, 4)
}

/// Offset of the `avg_current_q` group's bytes among the fields of a selective
/// reply: the total width of the requested groups before it.
pub open spec fn sel_off_avg_current_q(mask: u32) -> int {
    sel_off_avg_current_d(mask) + sel_gate(mask, ValuesMask::AVG_CURRENT_D, 4)
}

/// Offset of the `duty_cycle` group's bytes among the fields of a selective
/// reply: the total width of the requested groups before it.
pub open spec fn sel_off_duty_cycle(mask: u32) -> int {
    sel_off_avg_current_q(mask) + sel_gate(mask, ValuesMask::AVG_CURRENT_Q, 4)
}

/// Offset of the `rpm` group's bytes among the fields of a selective
/// reply: the total width of the requested groups before it.
pub open spec fn sel_off_rpm(mask: u32) -> int {
    sel_off_duty_cycle(mask) + sel_gate(mask, ValuesMask::DUTY_CYCLE, 2)
}

/// Offset of the `voltage_in` group's bytes among the fields of a selective
/// reply: the total width of the requested groups before it.
pub open spec fn sel_off_voltage_in(mask: u32) -> int {
    sel_off_rpm(mask) + sel_gate(mask, ValuesMask::RPM, 4)
}

/// Offset of the `amp_hours` group's bytes among the fields of a selective
/// reply: the total width of the requested groups before it.
pub open spec fn sel_off_amp_hours(mask: u32) -> int {
    sel_off_voltage_in(mask) + sel_gate(mask, ValuesMask::VOLTAGE_IN, 2)
}

/// Offset of the `amp_hours_charged` group's bytes among the fields of a selective
/// reply: the total width of the requested groups before it.
pub open spec fn sel_off_amp_hours_charged(mask: u32) -> int {
    sel_off_amp_hours(mask) + sel_gate(mask, ValuesMask::AMP_HOURS, 4)
}

/// Offset of the `watt_hours` group's bytes among the fields of a selective
/// reply: the total width of the requested groups before it.
pub open spec fn sel_off_watt_hours(mask: u32) -> int {
    sel_off_amp_hours_charged(mask) + sel_gate(mask, ValuesMask::AMP_HOURS_CHARGED, 4)
}

/// Offset of the `watt_hours_charged` group's bytes among the fields of a selective
/// reply: the total width of the requested groups before it.
pub open spec fn sel_off_watt_hours_charged(mask: u32) -> int {
    sel_off_watt_hours(mask) + sel_gate(mask, ValuesMask::WATT_HOURS, 4)
}

/// Offset of the `tachometer` group's bytes among the fields of a selective
/// reply: the total width of the requested groups before it.
pub open spec fn sel_off_tachometer(mask: u32) -> int {
    sel_off_watt_hours_charged(mask) + sel_gate(mask, ValuesMask::WATT_HOURS_CHARGED, 4)
}

/// Offset of the `tachometer_abs` group's bytes among the fields of a selective
/// reply: the total width of the requested groups before it.
pub open spec fn sel_off_tachometer_abs(mask: u32) -> int {
    sel_off_tachometer(mask) + sel_gate(mask, ValuesMask::TACHOMETER, 4)
}

/// Offset of the `fault_code` group's bytes among the fields of a selective
/// reply: the total width of the requested groups before it.
pub open spec fn sel_off_fault_code(mask: u32) -> int {
    sel_off_tachometer_abs(mask) + sel_gate(mask, ValuesMask::TACHOMETER_ABS, 4)
}

/// Offset of the `pid_pos` group's bytes among the fields of a selective
/// reply: the total width of the requested groups before it.
pub open spec fn sel_off_pid_pos(mask: u32) -> int {
    sel_off_fault_code(mask) + sel_gate(mask, ValuesMask::FAULT_CODE, 1)
}

/// Offset of the `controller_id` group's bytes among the fields of a selective
/// reply: the total width of the requested groups before it.
pub open spec fn sel_off_controller_id(mask: u32) -> int {
    sel_off_pid_pos(mask) + sel_gate(mask, ValuesMask::PID_POS, 4)
}

/// Offset of the `temp_mosfet_all` group's bytes among the fields of a selective
/// reply: the total width of the requested groups before it.
pub open spec fn sel_off_temp_mosfet_all(mask: u32) -> int {
    sel_off_controller_id(mask) + sel_gate(mask, ValuesMask::CONTROLLER_ID, 1)
}

/// Offset of the `avg_voltage_d` group's bytes among the fields of a selective
/// reply: the total width of the requested groups before it.
pub open spec fn sel_off_avg_voltage_d(mask: u32) -> int {
    sel_off_temp_mosfet_all(mask) + sel_gate(mask, ValuesMask::TEMP_MOSFET_ALL, 6)
}

/// Offset of the `avg_voltage_q` group's bytes among the fields of a selective
/// reply: the total width of the requested groups before it.
pub open spec fn sel_off_avg_voltage_q(mask: u32) -> int {
    sel_off_avg_voltage_d(mask) + sel_gate(mask, ValuesMask::AVG_VOLTAGE_D, 4)
}

/// Offset of the `status` group's bytes among the fields of a selective
/// reply: the total width of the requested groups before it.
pub open spec fn sel_off_status(mask: u32) -> int {
    sel_off_avg_voltage_q(mask) + sel_gate(mask, ValuesMask::AVG_VOLTAGE_Q, 4)
}

/// Total byte width of the fields a selective reply with `mask` carries.
pub open spec fn sel_size(mask: u32) -> int {
    sel_off_status(mask) + sel_gate(mask, ValuesMask::STATUS, 1)
}

/// The full telemetry record stored at `p` in `s`: every field, in the fixed
/// order and width of the wire layout, 73 bytes in all.
pub open spec fn full_values_at(s: Seq<u8>, p: int) -> Values {
    Values {
        temp_mosfet: be_i16(s, p),
        temp_motor: be_i16(s, p + 2),
        avg_current_motor: be_i32(s, p + 4),
        avg_current_input: be_i32(s, p + 8),
        avg_current_d: be_i32(s, p + 12),
        avg_current_q: be_i32(s, p + 16),
        duty_cycle: be_i16(s, p + 20),
        rpm: be_i32(s, p + 22),
        voltage_in: be_i16(s, p + 26),
        amp_hours: be_i32(s, p + 28),
        amp_hours_charged: be_i32(s, p + 32),
        watt_hours: be_i32(s, p + 36),
        watt_hours_charged: be_i32(s, p + 40),
        tachometer: be_i32(s, p + 44),
        tachometer_abs: be_i32(s, p + 48),
        fault_code: s[p + 52],
        pid_pos: be_i32(s, p + 53),
        controller_id: s[p + 57],
        temp_mosfet1: be_i16(s, p + 58),
        temp_mosfet2: be_i16(s, p + 60),
        temp_mosfet3: be_i16(s, p + 62),
        avg_voltage_d: be_i32(s, p + 64),
        avg_voltage_q: be_i32(s, p + 68),
        status: s[p + 72],
    }
}

/// The telemetry record a selective reply stores at `p` in `s`: each group
/// the mask requests sits at its offset among the requested groups, in
/// ascending bit order; every other field is zero.
#[verifier::opaque]
pub open spec fn sel_values_at(mask: u32, s: Seq<u8>, p: int) -> Values {
    Values {
        temp_mosfet: if mask_has(mask, ValuesMask::TEMP_MOSFET) {
            be_i16(s, p + sel_off_temp_mosfet(mask))
        } else {
            0i16
        },
        temp_motor: if mask_has(mask, ValuesMask::TEMP_MOTOR) {
            be_i16(s, p + sel_off_temp_motor(mask))
        } else {
            0i16
        },
        avg_current_motor: if mask_has(mask, ValuesMask::AVG_CURRENT_MOTOR) {
            be_i32(s, p + sel_off_avg_current_motor(mask))
        } else {
            0i32
        },
        avg_current_input: if mask_has(mask, ValuesMask::AVG_CURRENT_INPUT) {
            be_i32(s, p + sel_off_avg_current_input(mask))
        } else {
            0i32
        },
        avg_current_d: if mask_has(mask, ValuesMask::AVG_CURRENT_D) {
            be_i32(s, p + sel_off_avg_current_d(mask))
        } else {
            0i32
        },
        avg_current_q: if mask_has(mask, ValuesMask::AVG_CURRENT_Q) {
            be_i32(s, p + sel_off_avg_current_q(mask))
        } else {
            0i32
        },
        duty_cycle: if mask_has(mask, ValuesMask::DUTY_CYCLE) {
            be_i16(s, p + sel_off_duty_cycle(mask))
        } else {
            0i16
        },
        rpm: if mask_has(mask, ValuesMask::RPM) {
            be_i32(s, p + sel_off_rpm(mask))
        } else {
            0i32
        },
        voltage_in: if mask_has(mask, ValuesMask::VOLTAGE_IN) {
            be_i16(s, p + sel_off_voltage_in(mask))
        } else {
            0i16
        },
        amp_hours: if mask_has(mask, ValuesMask::AMP_HOURS) {
            be_i32(s, p + sel_off_amp_hours(mask))
        } else {
            0i32
        },
        amp_hours_charged: if mask_has(mask, ValuesMask::AMP_HOURS_CHARGED) {
            be_i32(s, p + sel_off_amp_hours_charged(mask))
        } else {
            0i32
        },
        watt_hours: if mask_has(mask, ValuesMask::WATT_HOURS) {
            be_i32(s, p + sel_off_watt_hours(mask))
        } else {
            0i32
        },
        watt_hours_charged: if mask_has(mask, ValuesMask::WATT_HOURS_CHARGED) {
            be_i32(s, p + sel_off_watt_hours_charged(mask))
        } else {
            0i32
        },
        tachometer: if mask_has(mask, ValuesMask::TACHOMETER) {
            be_i32(s, p + sel_off_tachometer(mask))
        } else {
            0i32
        },
        tachometer_abs: if mask_has(mask, ValuesMask::TACHOMETER_ABS) {
            be_i32(s, p + sel_off_tachometer_abs(mask))
        } else {
            0i32
        },
        fault_code: if mask_has(mask, ValuesMask::FAULT_CODE) {
            s[p + sel_off_fault_code(mask)]
        } else {
            0u8
        },
        pid_pos: if mask_has(mask, ValuesMask::PID_POS) {
            be_i32(s, p + sel_off_pid_pos(mask))
        } else {
            0i32
        },
        controller_id: if mask_has(mask, ValuesMask::CONTROLLER_ID) {
            s[p + sel_off_controller_id(mask)]
        } else {
            0u8
        },
        temp_mosfet1: if mask_has(mask, ValuesMask::TEMP_MOSFET_ALL) {
            be_i16(s, p + sel_off_temp_mosfet_all(mask))
        } else {
            0i16
        },
        temp_mosfet2: if mask_has(mask, ValuesMask::TEMP_MOSFET_ALL) {
            be_i16(s, p + sel_off_temp_mosfet_all(mask) + 2)
        } else {
            0i16
        },
        temp_mosfet3: if mask_has(mask, ValuesMask::TEMP_MOSFET_ALL) {
            be_i16(s, p + sel_off_temp_mosfet_all(mask) + 4)
        } else {
            0i16
        },
        avg_voltage_d: if mask_has(mask, ValuesMask::AVG_VOLTAGE_D) {
            be_i32(s, p + sel_off_avg_voltage_d(mask))
        } else {
            0i32
        },
        avg_voltage_q: if mask_has(mask, ValuesMask::AVG_VOLTAGE_Q) {
            be_i32(s, p + sel_off_avg_voltage_q(mask))
        } else {
            0i32
        },
        status: if mask_has(mask, ValuesMask::STATUS) {
            s[p + sel_off_status(mask)]
        } else {
            0u8
        },
    }
}

/// The fields of the first six groups of a selective reply, as stored at `p` in
/// `s`; every other field comes from `rest`.
pub open spec fn sel_values_q1(mask: u32, s: Seq<u8>, p: int, rest: Values) -> Values {
    Values {
        temp_mosfet: if mask_has(mask, ValuesMask::TEMP_MOSFET) {
            be_i16(s, p + sel_off_temp_mosfet(mask))
        } else {
            0i16
        },
        temp_motor: if mask_has(mask, ValuesMask::TEMP_MOTOR) {
            be_i16(s, p + sel_off_temp_motor(mask))
        } else {
            0i16
        },
        avg_current_motor: if mask_has(mask, ValuesMask::AVG_CURRENT_MOTOR) {
            be_i32(s, p + sel_off_avg_current_motor(mask))
        } else {
            0i32
        },
        avg_current_input: if mask_has(mask, ValuesMask::AVG_CURRENT_INPUT) {
            be_i32(s, p + sel_off_avg_current_input(mask))
        } else {
            0i32
        },
        avg_current_d: if mask_has(mask, ValuesMask::AVG_CURRENT_D) {
            be_i32(s, p + sel_off_avg_current_d(mask))
        } else {
            0i32
        },
        avg_current_q: if mask_has(mask, ValuesMask::AVG_CURRENT_Q) {
            be_i32(s, p + sel_off_avg_current_q(mask))
        } else {
            0i32
        },
        ..rest
    }
}

/// The fields of the next six groups of a selective reply, as stored at `p` in
/// `s`; every other field comes from `rest`.
pub open spec fn sel_values_q2(mask: u32, s: Seq<u8>, p: int, rest: Values) -> Values {
    Values {
        duty_cycle: if mask_has(mask, ValuesMask::DUTY_CYCLE) {
            be_i16(s, p + sel_off_duty_cycle(mask))
        } else {
            0i16
        },
        rpm: if mask_has(mask, ValuesMask::RPM) {
            be_i32(s, p + sel_off_rpm(mask))
        } else {
            0i32
        },
        voltage_in: if mask_has(mask, ValuesMask::VOLTAGE_IN) {
            be_i16(s, p + sel_off_voltage_in(mask))
        } else {
            0i16
        },
        amp_hours: if mask_has(mask, ValuesMask::AMP_HOURS) {
            be_i32(s, p + sel_off_amp_hours(mask))
        } else {
            0i32
        },
        amp_hours_charged: if mask_has(mask, ValuesMask::AMP_HOURS_CHARGED) {
            be_i32(s, p + sel_off_amp_hours_charged(mask))
        } else {
            0i32
        },
        watt_hours: if mask_has(mask, ValuesMask::WATT_HOURS) {
            be_i32(s, p + sel_off_watt_hours(mask))
        } else {
            0i32
        },
        ..rest
    }
}

/// The fields of the next five groups of a selective reply, as stored at `p` in
/// `s`; every other field comes from `rest`.
pub open spec fn sel_values_q3(mask: u32, s: Seq<u8>, p: int, rest: Values) -> Values {
    Values {
        watt_hours_charged: if mask_has(mask, ValuesMask::WATT_HOURS_CHARGED) {
            be_i32(s, p + sel_off_watt_hours_charged(mask))
        } else {
            0i32
        },
        tachometer: if mask_has(mask, ValuesMask::TACHOMETER) {
            be_i32(s, p + sel_off_tachometer(mask))
        } else {
            0i32
        },
        tachometer_abs: if mask_has(mask, ValuesMask::TACHOMETER_ABS) {
            be_i32(s, p + sel_off_tachometer_abs(mask))
        } else {
            0i32
        },
        fault_code: if mask_has(mask, ValuesMask::FAULT_CODE) {
            s[p + sel_off_fault_code(mask)]
        } else {
            0u8
        },
        pid_pos: if mask_has(mask, ValuesMask::PID_POS) {
            be_i32(s, p + sel_off_pid_pos(mask))
        } else {
            0i32
        },
        ..rest
    }
}

/// The fields of the last five groups of a selective reply, as stored at `p` in
/// `s`; every other field comes from `rest`.
pub open spec fn sel_values_q4(mask: u32, s: Seq<u8>, p: int, rest: Values) -> Values {
    Values {
        controller_id: if mask_has(mask, ValuesMask::CONTROLLER_ID) {
            s[p + sel_off_controller_id(mask)]
        } else {
            0u8
        },
        temp_mosfet1: if mask_has(mask, ValuesMask::TEMP_MOSFET_ALL) {
            be_i16(s, p + sel_off_temp_mosfet_all(mask))
        } else {
            0i16
        },
        temp_mosfet2: if mask_has(mask, ValuesMask::TEMP_MOSFET_ALL) {
            be_i16(s, p + sel_off_temp_mosfet_all(mask) + 2)
        } else {
            0i16
        },
        temp_mosfet3: if mask_has(mask, ValuesMask::TEMP_MOSFET_ALL) {
            be_i16(s, p + sel_off_temp_mosfet_all(mask) + 4)
        } else {
            0i16
        },
        avg_voltage_d: if mask_has(mask, ValuesMask::AVG_VOLTAGE_D) {
            be_i32(s, p + sel_off_avg_voltage_d(mask))
        } else {
            0i32
        },
        avg_voltage_q: if mask_has(mask, ValuesMask::AVG_VOLTAGE_Q) {
            be_i32(s, p + sel_off_avg_voltage_q(mask))
        } else {
            0i32
        },
        status: if mask_has(mask, ValuesMask::STATUS) {
            s[p + sel_off_status(mask)]
        } else {
            0u8
        },
        ..rest
    }
}

/// A selective record is its four runs of groups laid over the zero record.
proof fn lemma_sel_values_split(mask: u32, s: Seq<u8>, p: int)
    ensures
        sel_values_at(mask, s, p) == sel_values_q4(
            mask,
            s,
            p,
            sel_values_q3(mask, s, p, sel_values_q2(mask, s, p, sel_values_q1(mask, s, p, Values::zero()))),
        ),
{
    reveal(sel_values_at);
}

/// The reply a frame's payload decodes to, together with the position just
/// past the payload. The payload starts at byte 2 of the frame with the
/// identifier byte; which bytes follow is fixed by the identifier (and, for
/// a selective reply, by the mask).
pub open spec fn spec_parse_payload(s: Seq<u8>) -> Result<(int, CommandReply), Error> {
    if s.len() < 3 {
        Err(Error::IncompleteData)
    } else if s[2] == CMD_GET_VALUES {
        if s.len() < 76 {
            Err(Error::IncompleteData)
        } else {
            Ok((76int, CommandReply::GetValues(full_values_at(s, 3))))
        }
    } else if s[2] == CMD_GET_VALUES_SELECTIVE {
        if s.len() < 7 {
            Err(Error::IncompleteData)
        } else {
            let mask = be_u32(s, 3);
            if s.len() < 7 + sel_size(mask) {
                Err(Error::IncompleteData)
            } else {
                Ok((7 + sel_size(mask), CommandReply::GetValuesSelective(sel_values_at(mask, s, 7))))
            }
        }
    } else {
        Err(Error::UnknownPacket { id: s[2] })
    }
}

/// What decoding a byte buffer yields: either the number of bytes one whole
/// frame occupies together with the typed reply, or the first error the
/// frame exhibits. How many bytes the payload occupies is fixed by the
/// identifier alone; the declared payload length only locates the start of
/// the checksum window, whose last byte is the last payload byte. A declared
/// length that would reach back past the start of the buffer is rejected;
/// the stored checksum must equal the one computed over the window; the
/// frame must begin with the start marker and close with the end marker.
pub open spec fn spec_decode(s: Seq<u8>) -> Result<(int, CommandReply), Error> {
    if s.len() < 1 {
        Err(Error::IncompleteData)
    } else if s[0] != FRAME_START_SHORT {
        Err(Error::InvalidFrame)
    } else if s.len() < 2 {
        Err(Error::IncompleteData)
    } else {
        match spec_parse_payload(s) {
            Err(e) => Err(e),
            Ok((end, reply)) => {
                if s[1] > end {
                    Err(Error::InvalidFrame)
                } else if s.len() < end + 2 {
                    Err(Error::IncompleteData)
                } else {
                    let expected = be_u16(s, end);
                    let actual = crc16_of(s.subrange(end - s[1], end));
                    if actual != expected {
                        Err(Error::ChecksumMismatch { expected, actual })
                    } else if s.len() < end + 3 {
                        Err(Error::IncompleteData)
                    } else if s[end + 2] != FRAME_END {
                        Err(Error::InvalidFrame)
                    } else {
                        Ok((end + 3, reply))
                    }
                }
            },
        }
    }
}

impl CommandReply {
    /// Reads the identifier byte at the cursor and dispatches to the reply
    /// layout it names.
    fn unpack_from(unpacker: &mut Unpacker) -> (r: Result<CommandReply, Error>)
        requires
            old(unpacker).wf(),
            old(unpacker).pos == 2,
        ensures
            final(unpacker).wf(),
            final(unpacker).buf == old(unpacker).buf,
            (match spec_parse_payload(old(unpacker).buf@) {
                Ok(p) => r matches Ok(rep) && rep == p.1 && final(unpacker).pos == p.0 && p.0 >= 3,
                Err(e) => r == Err::<CommandReply, Error>(e),
            }),
    {
        let id = unpacker.unpack_u8()?;
        if id == CMD_GET_VALUES {
            Self::unpack_get_values(unpacker)
        } else if id == CMD_GET_VALUES_SELECTIVE {
            Self::unpack_get_values_selective(unpacker)
        } else {
            Err(Error::UnknownPacket { id })
        }
    }

    /// Reads the full telemetry record, every field unconditionally in the
    /// fixed order of the wire layout.
    fn unpack_get_values(unpacker: &mut Unpacker) -> (r: Result<CommandReply, Error>)
        requires
            old(unpacker).wf(),
        ensures
            final(unpacker).wf(),
            final(unpacker).buf == old(unpacker).buf,
            r is Ok <==> old(unpacker).pos + 73 <= old(unpacker).buf@.len(),
            r matches Ok(rep) ==> rep == CommandReply::GetValues(
                full_values_at(old(unpacker).buf@, old(unpacker).pos as int),
            ) && final(unpacker).pos == old(unpacker).pos + 73,
            r is Err ==> r == Err::<CommandReply, Error>(Error::IncompleteData),
    {
        let temp_mosfet = unpacker.unpack_i16()?;
        let temp_motor = unpacker.unpack_i16()?;
        let avg_current_motor = unpacker.unpack_i32()?;
        let avg_current_input = unpacker.unpack_i32()?;
        let avg_current_d = unpacker.unpack_i32()?;
        let avg_current_q = unpacker.unpack_i32()?;
        let duty_cycle = unpacker.unpack_i16()?;
        let rpm = unpacker.unpack_i32()?;
        let voltage_in = unpacker.unpack_i16()?;
        let amp_hours = unpacker.unpack_i32()?;
        let amp_hours_charged = unpacker.unpack_i32()?;
        let watt_hours = unpacker.unpack_i32()?;
        let watt_hours_charged = unpacker.unpack_i32()?;
        let tachometer = unpacker.unpack_i32()?;
        let tachometer_abs = unpacker.unpack_i32()?;
        let fault_code = unpacker.unpack_u8()?;
        let pid_pos = unpacker.unpack_i32()?;
        let controller_id = unpacker.unpack_u8()?;
        let temp_mosfet1 = unpacker.unpack_i16()?;
        let temp_mosfet2 = unpacker.unpack_i16()?;
        let temp_mosfet3 = unpacker.unpack_i16()?;
        let avg_voltage_d = unpacker.unpack_i32()?;
        let avg_voltage_q = unpacker.unpack_i32()?;
        let status = unpacker.unpack_u8()?;
        let values = Values {
            temp_mosfet,
            temp_motor,
            avg_current_motor,
            avg_current_input,
            avg_current_d,
            avg_current_q,
            duty_cycle,
            rpm,
            voltage_in,
            amp_hours,
            amp_hours_charged,
            watt_hours,
            watt_hours_charged,
            tachometer,
            tachometer_abs,
            fault_code,
            pid_pos,
            controller_id,
            temp_mosfet1,
            temp_mosfet2,
            temp_mosfet3,
            avg_voltage_d,
            avg_voltage_q,
            status,
        };
        Ok(CommandReply::GetValues(values))
    }

    /// Reads the mask, then only the field groups it requests, in ascending
    /// bit order; every other field keeps its zero default.
    fn unpack_get_values_selective(unpacker: &mut Unpacker) -> (r: Result<CommandReply, Error>)
        requires
            old(unpacker).wf(),
        ensures
            final(unpacker).wf(),
            final(unpacker).buf == old(unpacker).buf,
            r is Ok <==> old(unpacker).pos + 4 + sel_size(
                be_u32(old(unpacker).buf@, old(unpacker).pos as int),
            ) <= old(unpacker).buf@.len() && old(unpacker).pos + 4 <= old(unpacker).buf@.len(),
            sel_size(be_u32(old(unpacker).buf@, old(unpacker).pos as int)) >= 0,
            r matches Ok(rep) ==> rep == CommandReply::GetValuesSelective(
                sel_values_at(
                    be_u32(old(unpacker).buf@, old(unpacker).pos as int),
                    old(unpacker).buf@,
                    old(unpacker).pos + 4,
                ),
            ) && final(unpacker).pos == old(unpacker).pos + 4 + sel_size(
                be_u32(old(unpacker).buf@, old(unpacker).pos as int),
            ),
            r is Err ==> r == Err::<CommandReply, Error>(Error::IncompleteData),
    {
        let ghost s = old(unpacker).buf@;
        let ghost base = old(unpacker).pos + 4int;
        let m: u32 = unpacker.unpack_u32()?;
        let mut values = Values::default();
        Self::unpack_sel_q1(unpacker, m, &mut values, Ghost(base))?;
        Self::unpack_sel_q2(unpacker, m, &mut values, Ghost(base))?;
        Self::unpack_sel_q3(unpacker, m, &mut values, Ghost(base))?;
        Self::unpack_sel_q4(unpacker, m, &mut values, Ghost(base))?;
        proof {
            lemma_sel_values_split(m, s, base);
        }
        Ok(CommandReply::GetValuesSelective(values))
    }

    /// Reads the first six field groups a selective reply may carry.
    #[verifier::rlimit(100)]
    fn unpack_sel_q1(
        unpacker: &mut Unpacker,
        m: u32,
        values: &mut Values,
        Ghost(base): Ghost<int>,
    ) -> (r: Result<(), Error>)
        requires
            old(unpacker).wf(),
            old(unpacker).pos == base + sel_off_temp_mosfet(m),
        ensures
            final(unpacker).wf(),
            final(unpacker).buf == old(unpacker).buf,
            r is Ok <==> base + sel_off_duty_cycle(m) <= old(unpacker).buf@.len(),
            r matches Ok(()) ==> final(unpacker).pos == base + sel_off_duty_cycle(m)
                && *final(values) == sel_values_q1(m, old(unpacker).buf@, base, *old(values)),
            r is Err ==> r == Err::<(), Error>(Error::IncompleteData),
    {
        let ghost s = old(unpacker).buf@;
        let temp_mosfet: i16 = if m & ValuesMask::TEMP_MOSFET == ValuesMask::TEMP_MOSFET {
            unpacker.unpack_i16()?
        } else {
            0
        };
        proof {
            assert(unpacker.pos == base + sel_off_temp_motor(m));
        }
        let temp_motor: i16 = if m & ValuesMask::TEMP_MOTOR == ValuesMask::TEMP_MOTOR {
            unpacker.unpack_i16()?
        } else {
            0
        };
        proof {
            assert(unpacker.pos == base + sel_off_avg_current_motor(m));
        }
        let avg_current_motor: i32 = if m & ValuesMask::AVG_CURRENT_MOTOR == ValuesMask::AVG_CURRENT_MOTOR {
            unpacker.unpack_i32()?
        } else {
            0
        };
        proof {
            assert(unpacker.pos == base + sel_off_avg_current_input(m));
        }
        let avg_current_input: i32 = if m & ValuesMask::AVG_CURRENT_INPUT == ValuesMask::AVG_CURRENT_INPUT {
            unpacker.unpack_i32()?
        } else {
            0
        };
        proof {
            assert(unpacker.pos == base + sel_off_avg_current_d(m));
        }
        let avg_current_d: i32 = if m & ValuesMask::AVG_CURRENT_D == ValuesMask::AVG_CURRENT_D {
            unpacker.unpack_i32()?
        } else {
            0
        };
        proof {
            assert(unpacker.pos == base + sel_off_avg_current_q(m));
        }
        let avg_current_q: i32 = if m & ValuesMask::AVG_CURRENT_Q == ValuesMask::AVG_CURRENT_Q {
            unpacker.unpack_i32()?
        } else {
            0
        };
        proof {
            assert(unpacker.pos == base + sel_off_duty_cycle(m));
        }
        values.temp_mosfet = temp_mosfet;
        values.temp_motor = temp_motor;
        values.avg_current_motor = avg_current_motor;
        values.avg_current_input = avg_current_input;
        values.avg_current_d = avg_current_d;
        values.avg_current_q = avg_current_q;
        Ok(())
    }

    /// Reads the next six field groups a selective reply may carry.
    #[verifier::rlimit(100)]
    fn unpack_sel_q2(
        unpacker: &mut Unpacker,
        m: u32,
        values: &mut Values,
        Ghost(base): Ghost<int>,
    ) -> (r: Result<(), Error>)
        requires
            old(unpacker).wf(),
            old(unpacker).pos == base + sel_off_duty_cycle(m),
        ensures
            final(unpacker).wf(),
            final(unpacker).buf == old(unpacker).buf,
            r is Ok <==> base + sel_off_watt_hours_charged(m) <= old(unpacker).buf@.len(),
            r matches Ok(()) ==> final(unpacker).pos == base + sel_off_watt_hours_charged(m)
                && *final(values) == sel_values_q2(m, old(unpacker).buf@, base, *old(values)),
            r is Err ==> r == Err::<(), Error>(Error::IncompleteData),
    {
        let ghost s = old(unpacker).buf@;
        let duty_cycle: i16 = if m & ValuesMask::DUTY_CYCLE == ValuesMask::DUTY_CYCLE {
            unpacker.unpack_i16()?
        } else {
            0
        };
        proof {
            assert(unpacker.pos == base + sel_off_rpm(m));
        }
        let rpm: i32 = if m & ValuesMask::RPM == ValuesMask::RPM {
            unpacker.unpack_i32()?
        } else {
            0
        };
        proof {
            assert(unpacker.pos == base + sel_off_voltage_in(m));
        }
        let voltage_in: i16 = if m & ValuesMask::VOLTAGE_IN == ValuesMask::VOLTAGE_IN {
            unpacker.unpack_i16()?
        } else {
            0
        };
        proof {
            assert(unpacker.pos == base + sel_off_amp_hours(m));
        }
        let amp_hours: i32 = if m & ValuesMask::AMP_HOURS == ValuesMask::AMP_HOURS {
            unpacker.unpack_i32()?
        } else {
            0
        };
        proof {
            assert(unpacker.pos == base + sel_off_amp_hours_charged(m));
        }
        let amp_hours_charged: i32 = if m & ValuesMask::AMP_HOURS_CHARGED == ValuesMask::AMP_HOURS_CHARGED {
            unpacker.unpack_i32()?
        } else {
            0
        };
        proof {
            assert(unpacker.pos == base + sel_off_watt_hours(m));
        }
        let watt_hours: i32 = if m & ValuesMask::WATT_HOURS == ValuesMask::WATT_HOURS {
            unpacker.unpack_i32()?
        } else {
            0
        };
        proof {
            assert(unpacker.pos == base + sel_off_watt_hours_charged(m));
        }
        values.duty_cycle = duty_cycle;
        values.rpm = rpm;
        values.voltage_in = voltage_in;
        values.amp_hours = amp_hours;
        values.amp_hours_charged = amp_hours_charged;
        values.watt_hours = watt_hours;
        Ok(())
    }

    /// Reads the next five field groups a selective reply may carry.
    #[verifier::rlimit(100)]
    fn unpack_sel_q3(
        unpacker: &mut Unpacker,
        m: u32,
        values: &mut Values,
        Ghost(base): Ghost<int>,
    ) -> (r: Result<(), Error>)
        requires
            old(unpacker).wf(),
            old(unpacker).pos == base + sel_off_watt_hours_charged(m),
        ensures
            final(unpacker).wf(),
            final(unpacker).buf == old(unpacker).buf,
            r is Ok <==> base + sel_off_controller_id(m) <= old(unpacker).buf@.len(),
            r matches Ok(()) ==> final(unpacker).pos == base + sel_off_controller_id(m)
                && *final(values) == sel_values_q3(m, old(unpacker).buf@, base, *old(values)),
            r is Err ==> r == Err::<(), Error>(Error::IncompleteData),
    {
        let ghost s = old(unpacker).buf@;
        let watt_hours_charged: i32 = if m & ValuesMask::WATT_HOURS_CHARGED == ValuesMask::WATT_HOURS_CHARGED {
            unpacker.unpack_i32()?
        } else {
            0
        };
        proof {
            assert(unpacker.pos == base + sel_off_tachometer(m));
        }
        let tachometer: i32 = if m & ValuesMask::TACHOMETER == ValuesMask::TACHOMETER {
            unpacker.unpack_i32()?
        } else {
            0
        };
        proof {
            assert(unpacker.pos == base + sel_off_tachometer_abs(m));
        }
        let tachometer_abs: i32 = if m & ValuesMask::TACHOMETER_ABS == ValuesMask::TACHOMETER_ABS {
            unpacker.unpack_i32()?
        } else {
            0
        };
        proof {
            assert(unpacker.pos == base + sel_off_fault_code(m));
        }
        let fault_code: u8 = if m & ValuesMask::FAULT_CODE == ValuesMask::FAULT_CODE {
            unpacker.unpack_u8()?
        } else {
            0
        };
        proof {
            assert(unpacker.pos == base + sel_off_pid_pos(m));
        }
        let pid_pos: i32 = if m & ValuesMask::PID_POS == ValuesMask::PID_POS {
            unpacker.unpack_i32()?
        } else {
            0
        };
        proof {
            assert(unpacker.pos == base + sel_off_controller_id(m));
        }
        values.watt_hours_charged = watt_hours_charged;
        values.tachometer = tachometer;
        values.tachometer_abs = tachometer_abs;
        values.fault_code = fault_code;
        values.pid_pos = pid_pos;
        Ok(())
    }

    /// Reads the last five field groups a selective reply may carry.
    #[verifier::rlimit(100)]
    fn unpack_sel_q4(
        unpacker: &mut Unpacker,
        m: u32,
        values: &mut Values,
        Ghost(base): Ghost<int>,
    ) -> (r: Result<(), Error>)
        requires
            old(unpacker).wf(),
            old(unpacker).pos == base + sel_off_controller_id(m),
        ensures
            final(unpacker).wf(),
            final(unpacker).buf == old(unpacker).buf,
            r is Ok <==> base + sel_size(m) <= old(unpacker).buf@.len(),
            r matches Ok(()) ==> final(unpacker).pos == base + sel_size(m)
                && *final(values) == sel_values_q4(m, old(unpacker).buf@, base, *old(values)),
            r is Err ==> r == Err::<(), Error>(Error::IncompleteData),
    {
        let ghost s = old(unpacker).buf@;
        let controller_id: u8 = if m & ValuesMask::CONTROLLER_ID == ValuesMask::CONTROLLER_ID {
            unpacker.unpack_u8()?
        } else {
            0
        };
        proof {
            assert(unpacker.pos == base + sel_off_temp_mosfet_all(m));
        }
        let all3 = m & ValuesMask::TEMP_MOSFET_ALL == ValuesMask::TEMP_MOSFET_ALL;
        let temp_mosfet1: i16 = if all3 {
            unpacker.unpack_i16()?
        } else {
            0
        };
        let temp_mosfet2: i16 = if all3 {
            unpacker.unpack_i16()?
        } else {
            0
        };
        let temp_mosfet3: i16 = if all3 {
            unpacker.unpack_i16()?
        } else {
            0
        };
        proof {
            assert(unpacker.pos == base + sel_off_avg_voltage_d(m));
        }
        let avg_voltage_d: i32 = if m & ValuesMask::AVG_VOLTAGE_D == ValuesMask::AVG_VOLTAGE_D {
            unpacker.unpack_i32()?
        } else {
            0
        };
        proof {
            assert(unpacker.pos == base + sel_off_avg_voltage_q(m));
        }
        let avg_voltage_q: i32 = if m & ValuesMask::AVG_VOLTAGE_Q == ValuesMask::AVG_VOLTAGE_Q {
            unpacker.unpack_i32()?
        } else {
            0
        };
        proof {
            assert(unpacker.pos == base + sel_off_status(m));
        }
        let status: u8 = if m & ValuesMask::STATUS == ValuesMask::STATUS {
            unpacker.unpack_u8()?
        } else {
            0
        };
        proof {
            assert(unpacker.pos == base + sel_size(m));
        }
        values.controller_id = controller_id;
        values.temp_mosfet1 = temp_mosfet1;
        values.temp_mosfet2 = temp_mosfet2;
        values.temp_mosfet3 = temp_mosfet3;
        values.avg_voltage_d = avg_voltage_d;
        values.avg_voltage_q = avg_voltage_q;
        values.status = status;
        Ok(())
    }
}

/// Decodes one complete frame from the front of `buf`: validates the start
/// marker, reads the typed reply the payload's identifier names, recomputes
/// the checksum over the declared-length window ending at the last payload
/// byte and compares it to the stored one, and validates the end marker.
/// Returns the number of bytes the frame occupies and the reply.
pub fn decode(buf: &[u8]) -> (r: Result<(usize, CommandReply), Error>)
    ensures
        (match spec_decode(buf@) {
            Ok(p) => r matches Ok(q) && q.0 == p.0 && q.1 == p.1,
            Err(e) => r == Err::<(usize, CommandReply), Error>(e),
        }),
{
    let mut unpacker = Unpacker::new(buf);
    let start = unpacker.unpack_u8()?;
    if start != FRAME_START_SHORT {
        return Err(Error::InvalidFrame);
    }
    let payload_len = unpacker.unpack_u8()?;
    let reply = CommandReply::unpack_from(&mut unpacker)?;
    let payload_end = unpacker.pos;
    if payload_len as usize > payload_end {
        return Err(Error::InvalidFrame);
    }
    let expected = unpacker.unpack_u16()?;
    let actual = crc16(
        vstd::slice::slice_subrange(
            unpacker.buf,
            payload_end - payload_len as usize,
            payload_end,
        ),
    );
    if actual != expected {
        return Err(Error::ChecksumMismatch { expected, actual });
    }
    let end_marker = unpacker.unpack_u8()?;
    if end_marker != FRAME_END {
        return Err(Error::InvalidFrame);
    }
    Ok((unpacker.pos, reply))
}

} // verus!
