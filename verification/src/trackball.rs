//! Decisions of the trackball driver: what the bytes of the sensor mean and what is
//! written to it.
use vstd::prelude::*;

use crate::mouse::MouseMove;
use crate::mouse_move::to_signed16;

verus! {

/// Resolution of the sensor at the start, in counts per inch
pub const DEFAULT_CPI: u16 = 800;

/// Default angle tune value, the sensor will be turned 32 degrees
pub const DEFAULT_ANGLE_TUNE: u8 = 32;

/// Largest resolution, in counts per inch
pub const MAX_CPI: u16 = 12000;

/// Commands to the sensor
#[derive(Debug, Clone, Copy, PartialEq, Eq, Structural)]
pub enum SensorCommand {
    IncreaseCpi,
    DecreaseCpi,
}

/// The registers of the sensor that the driver uses
#[derive(Debug, Clone, Copy, PartialEq, Eq, Structural)]
pub enum Register {
    ProductId,
    Motion,
    DeltaXL,
    DeltaXH,
    DeltaYL,
    DeltaYH,
    Config1,
    Config2,
    AngleTune,
    SromEnable,
    DataOutLower,
    DataOutUpper,
    SromId,
    PowerUpReset,
    InverseProductId,
    MotionBurst,
    SromLoadBurst,
    LiftConfig,
}

/// A motion that the sensor reports
#[derive(Debug, Clone, Copy, PartialEq, Eq, Structural)]
pub struct BurstData {
    pub motion: bool,
    pub dx: i16,
    pub dy: i16,
}

/// What can go wrong with the sensor
#[derive(Debug, Clone, Copy, PartialEq, Eq, Structural)]
pub enum TrackballError {
    /// The sensor is not the expected one
    InvalidSignature,
    /// The bus failed
    Spi,
}

/// A move of one count is a glitch.
pub open spec fn without_glitch(d: int) -> int {
    if d == 1 || d == -1 {
        0
    } else {
        d
    }
}

/// The signed number made of two bytes.
pub open spec fn signed_bytes(hi: u8, lo: u8) -> int {
    crate::mouse_move::signed16(hi * 256 + lo)
}

/// What the six bytes of a burst mean. The moves are valid only if the motion bit, the
/// highest of the first byte, is set. Glitches are dropped, and there is no motion if
/// nothing is left.
pub open spec fn burst_of(buf: Seq<u8>) -> BurstData {
    let valid = buf[0] >= 0x80;
    let dx = if valid {
        without_glitch(signed_bytes(buf[5], buf[4]))
    } else {
        0
    };
    let dy = if valid {
        without_glitch(signed_bytes(buf[3], buf[2]))
    } else {
        0
    };
    BurstData { motion: dx != 0 || dy != 0, dx: dx as i16, dy: dy as i16 }
}

fn drop_glitch(d: i16) -> (r: i16)
    ensures
        r == without_glitch(d as int),
{
    if d == 1 || d == -1 {
        0
    } else {
        d
    }
}

/// The value of the resolution register, in steps of 100 counts per inch; out of range
/// resolutions are clamped.
pub open spec fn cpi_setting(cpi: int) -> int {
    if cpi < 100 {
        0
    } else if cpi > MAX_CPI {
        0x77
    } else {
        cpi / 100 - 1
    }
}

/// The resolution that a value of the register stands for.
pub open spec fn setting_cpi(setting: int) -> int {
    (setting + 1) * 100
}

/// The byte that addresses a register to write to it: its highest bit is set
pub fn write_address(register: u8) -> (address: u8)
    ensures
        address == register % 128 + 128,
{
    register % 128 + 128
}

/// The byte that addresses a register to read it: its highest bit is not set
pub fn read_address(register: u8) -> (address: u8)
    ensures
        address == register % 128,
{
    register % 128
}

/// State of the trackball driver
#[derive(Debug, Clone, Copy, PartialEq, Eq, Structural)]
pub struct Trackball {
    /// Whether the last write was to the motion burst register, so that bursts can be
    /// read
    pub in_burst: bool,
    /// Last Dx value
    pub last_dx: i16,
    /// Last Dy value
    pub last_dy: i16,
}

impl Trackball {
    /// Create a new Trackball driver
    pub fn new() -> (ball: Self)
        ensures
            ball == (Trackball { in_burst: false, last_dx: 0, last_dy: 0 }),
    {
        Trackball { in_burst: false, last_dx: 0, last_dy: 0 }
    }

    /// The value to write to the resolution register to set a resolution
    pub fn set_cpi(cpi: u16) -> (setting: u8)
        ensures
            setting == cpi_setting(cpi as int),
    {
        if cpi < 100 {
            0
        } else if cpi > MAX_CPI {
            0x77
        } else {
            ((cpi - 100) / 100) as u8
        }
    }

    /// The resolution, given what was read from the resolution register
    pub fn get_cpi(setting: u8) -> (cpi: u16)
        ensures
            cpi == setting_cpi(setting as int),
    {
        (setting as u16 + 1) * 100
    }

    /// The value to write to the resolution register to follow a command, given what was
    /// read from it
    pub fn setting_after_command(command: SensorCommand, setting: u8) -> (after: u8)
        ensures
            after == cpi_setting(
                match command {
                    SensorCommand::IncreaseCpi => setting_cpi(setting as int) + 100,
                    SensorCommand::DecreaseCpi => setting_cpi(setting as int) - 100,
                },
            ),
    {
        let cpi: u16 = Trackball::get_cpi(setting);
        match command {
            SensorCommand::IncreaseCpi => Trackball::set_cpi(cpi + 100),
            SensorCommand::DecreaseCpi => Trackball::set_cpi(cpi - 100),
        }
    }

    /// Check if the sensor is connected and has the correct signature, given what was
    /// read from its registers
    pub fn check_signature(srom: u8, pid: u8, ipid: u8) -> (r: Result<(), TrackballError>)
        ensures
            r is Ok <==> srom == 0x04 && pid == 0x42 && ipid == 0xBD,
            r matches Err(e) ==> e == TrackballError::InvalidSignature,
    {
        // signature for SROM 0x04
        if srom != 0x04 || pid != 0x42 || ipid != 0xBD {
            Err(TrackballError::InvalidSignature)
        } else {
            Ok(())
        }
    }

    /// Whether the self test has given the expected result
    pub fn self_test(upper: u8, lower: u8) -> (b: bool)
        ensures
            b == (upper == 0xBE && lower == 0xEF),
    {
        upper == 0xBE && lower == 0xEF
    }

    /// Whether the motion burst register has to be written before a burst is read
    pub fn needs_burst_write(&self) -> (b: bool)
        ensures
            b == !self.in_burst,
    {
        !self.in_burst
    }

    /// A register is written
    pub fn on_write(&mut self, register: Register)
        ensures
            *final(self) == (Trackball {
                in_burst: register == Register::MotionBurst,
                ..*old(self)
            }),
    {
        self.in_burst = register == Register::MotionBurst;
    }

    /// The bytes of a burst have been read. Where one of the three lowest bits of the
    /// first byte is set, the burst went wrong and has to be started anew.
    pub fn burst_get(&mut self, buf: &[u8; 6]) -> (data: BurstData)
        ensures
            data == burst_of(buf@),
            *final(self) == (Trackball {
                in_burst: old(self).in_burst && buf@[0] % 8 == 0,
                ..*old(self)
            }),
    {
        let mut data = BurstData {
            motion: buf[0] >= 0x80,
            dy: to_signed16((buf[3] as u16) * 256 + (buf[2] as u16)),
            dx: to_signed16((buf[5] as u16) * 256 + (buf[4] as u16)),
        };
        if buf[0] % 8 != 0 {
            self.in_burst = false;
        }
        // if the motion bit is not set, the dx and dy values are not valid
        if !data.motion {
            data.dx = 0;
            data.dy = 0;
        }
        // avoid small glitches
        data.dx = drop_glitch(data.dx);
        data.dy = drop_glitch(data.dy);
        // if the dx or dy values are 0, the sensor is not moving
        data.motion = data.dx != 0 || data.dy != 0;
        data
    }

    /// A burst has been read: tells the move, if it is not the same as the last one
    pub fn on_burst(&mut self, burst: &BurstData) -> (r: Option<MouseMove>)
        ensures
            r == if burst.dx == old(self).last_dx && burst.dy == old(self).last_dy {
                None
            } else {
                Some(MouseMove { dx: burst.dx, dy: burst.dy, pressure: 0 })
            },
            *final(self) == (Trackball { last_dx: burst.dx, last_dy: burst.dy, ..*old(self) }),
    {
        if self.last_dx != burst.dx || self.last_dy != burst.dy {
            self.last_dx = burst.dx;
            self.last_dy = burst.dy;
            Some(MouseMove { dx: burst.dx, dy: burst.dy, pressure: 0 })
        } else {
            None
        }
    }
}

/// A burst has a motion exactly if it moves, and it never moves by a single count.
pub proof fn law_burst_motion_is_a_move(buf: Seq<u8>)
    requires
        buf.len() == 6,
    ensures
        burst_of(buf).motion <==> burst_of(buf).dx != 0 || burst_of(buf).dy != 0,
        burst_of(buf).dx != 1 && burst_of(buf).dx != -1,
        burst_of(buf).dy != 1 && burst_of(buf).dy != -1,
        burst_of(buf).motion ==> buf[0] >= 0x80,
{
}

/// Every resolution in range that is a multiple of 100 is read back as it was set, and
/// every other one is rounded down or clamped to one that is.
pub proof fn law_cpi_roundtrip(cpi: int)
    requires
        0 <= cpi <= u16::MAX,
    ensures
        100 <= setting_cpi(cpi_setting(cpi)) <= MAX_CPI,
        100 <= cpi <= MAX_CPI ==> setting_cpi(cpi_setting(cpi)) == cpi - cpi % 100,
{
}

/// Increasing and then decreasing the resolution gives it back, unless it is already
/// the largest one; and the other way round.
pub proof fn law_cpi_steps_undo(setting: int)
    requires
        0 <= setting <= 0x77,
    ensures
        setting < 0x77 ==> cpi_setting(
            setting_cpi(cpi_setting(setting_cpi(setting) + 100)) - 100,
        ) == setting,
        setting > 0 ==> cpi_setting(setting_cpi(cpi_setting(setting_cpi(setting) - 100)) + 100)
            == setting,
{
}

/// The bytes of a burst: if the highest bit of the first is set, the sensor has moved by the
/// signed numbers in the last two bytes and in the two before them, each with its low byte
/// first. A move by a single count is dropped. Without that bit there is no move.
pub proof fn law_burst_is_the_move(ball: &mut Trackball, buf: [u8; 6], data: BurstData)
    requires
        call_ensures(Trackball::burst_get, (ball, &buf), data),
    ensures
        buf@[0] < 0x80 ==> data.dx == 0 && data.dy == 0 && !data.motion,
        buf@[0] >= 0x80 && data.dx != 0 ==> (buf@[4] + 256 * buf@[5] - data.dx) % 0x10000 == 0,
        buf@[0] >= 0x80 && data.dy != 0 ==> (buf@[2] + 256 * buf@[3] - data.dy) % 0x10000 == 0,
        buf@[0] >= 0x80 ==> (data.dx == 0 <==> buf@[4] + 256 * buf@[5] == 0 || buf@[4] + 256
            * buf@[5] == 1 || buf@[4] + 256 * buf@[5] == 0xFFFF),
        buf@[0] >= 0x80 ==> (data.dy == 0 <==> buf@[2] + 256 * buf@[3] == 0 || buf@[2] + 256
            * buf@[3] == 1 || buf@[2] + 256 * buf@[3] == 0xFFFF),
        data.motion <==> data.dx != 0 || data.dy != 0,
        final(ball).in_burst <==> old(ball).in_burst && buf@[0] as int % 8 == 0,
        final(ball).last_dx == old(ball).last_dx,
        final(ball).last_dy == old(ball).last_dy,
{
}

/// A move is told exactly if it differs from the one before, as it is.
pub proof fn law_move_is_told_if_it_differs(
    ball: &mut Trackball,
    burst: BurstData,
    r: Option<MouseMove>,
)
    requires
        call_ensures(Trackball::on_burst, (ball, &burst), r),
    ensures
        r is Some <==> burst.dx != old(ball).last_dx || burst.dy != old(ball).last_dy,
        r matches Some(m) ==> m.dx == burst.dx && m.dy == burst.dy && m.pressure == 0,
        final(ball).last_dx == burst.dx,
        final(ball).last_dy == burst.dy,
        final(ball).in_burst == old(ball).in_burst,
{
}

/// The resolution that is set is the one asked for, rounded down to a multiple of 100, and
/// is not less than 100 nor more than 12000.
pub proof fn law_resolution_is_rounded_down(cpi: u16, setting: u8, read: u16)
    requires
        call_ensures(Trackball::set_cpi, (cpi,), setting),
        call_ensures(Trackball::get_cpi, (setting,), read),
    ensures
        read as int % 100 == 0,
        100 <= cpi <= 12000 ==> read <= cpi < read + 100,
        cpi < 100 ==> read == 100,
        cpi > 12000 ==> read == 12000,
        setting as int == read as int / 100 - 1,
{
}

/// A command changes the resolution by one step of 100, within its limits.
pub proof fn law_command_is_one_step(command: SensorCommand, setting: u8, after: u8)
    requires
        call_ensures(Trackball::setting_after_command, (command, setting), after),
    ensures
        command == SensorCommand::IncreaseCpi && setting < 0x77 ==> after == setting + 1,
        command == SensorCommand::IncreaseCpi && setting >= 0x77 ==> after == 0x77,
        command == SensorCommand::DecreaseCpi && setting == 0 ==> after == 0,
        command == SensorCommand::DecreaseCpi && 0 < setting <= 0x78 ==> after == setting - 1,
        command == SensorCommand::DecreaseCpi && setting > 0x78 ==> after == 0x77,
{
}

/// The two addresses of a register differ in the highest bit only, which is set to write.
pub proof fn law_addresses(register: u8, write: u8, read: u8)
    requires
        call_ensures(write_address, (register,), write),
        call_ensures(read_address, (register,), read),
    ensures
        read < 128,
        read == register || read + 128 == register,
        write == read + 128,
{
}

/// A burst has to be started unless the last register that was written is the one for bursts.
pub proof fn law_burst_is_started_once(ball: &mut Trackball, register: Register, needed: bool)
    requires
        call_ensures(Trackball::on_write, (ball, register), ()),
        call_ensures(Trackball::needs_burst_write, (&*final(ball),), needed),
    ensures
        needed <==> register != Register::MotionBurst,
        final(ball).last_dx == old(ball).last_dx,
        final(ball).last_dy == old(ball).last_dy,
{
}

/// The sensor is the expected one exactly if its three identifiers are, where the last one is
/// the complement of the one before.
pub proof fn law_signature(srom: u8, pid: u8, ipid: u8, r: Result<(), TrackballError>)
    requires
        call_ensures(Trackball::check_signature, (srom, pid, ipid), r),
    ensures
        r is Ok <==> srom == 4 && pid == 0x42 && pid + ipid == 0xFF,
        r is Err ==> r == Err::<(), TrackballError>(TrackballError::InvalidSignature),
{
}

/// The self test has passed exactly if its two bytes are the expected ones.
pub proof fn law_self_test(upper: u8, lower: u8, b: bool)
    requires
        call_ensures(Trackball::self_test, (upper, lower), b),
    ensures
        b <==> upper * 256 + lower == 0xBEEF,
{
}

/// A new driver is at rest, and starts a burst before it reads one.
pub proof fn law_new_driver_is_at_rest(ball: Trackball, needed: bool)
    requires
        call_ensures(Trackball::new, (), ball),
        call_ensures(Trackball::needs_burst_write, (&ball,), needed),
    ensures
        needed,
        ball.last_dx == 0,
        ball.last_dy == 0,
{
}

} // verus!
