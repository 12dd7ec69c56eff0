//! micro:bit V2 motion sensors (LSM303AGR accelerometer + magnetometer):
//! subscriptions, register-to-unit conversions and the polling interval.
use vstd::prelude::*;

use super::{DeviceState, DeviceView};

verus! {

/// LSM303AGR accelerometer I2C address
pub const ACCEL_ADDR: u8 = 0x19;

/// LSM303AGR magnetometer I2C address
pub const MAGNET_ADDR: u8 = 0x1E;

/// Accelerometer control register 1
pub const ACCEL_CTRL_REG1: u8 = 0x20;

/// First accelerometer output register
pub const ACCEL_OUT_X_L: u8 = 0x28;

/// Magnetometer configuration register A
pub const MAGNET_CFG_REG_A: u8 = 0x60;

/// First magnetometer output register
pub const MAGNET_OUT_X_L: u8 = 0x68;

/// CTRL_REG1_A value: ODR=100Hz, normal mode, X/Y/Z enabled
pub const ACCEL_CTRL_REG1_VALUE: u8 = 0x57;

/// CFG_REG_A_M value: temperature compensation, ODR=100Hz, continuous mode
pub const MAGNET_CFG_REG_A_VALUE: u8 = 0x8C;

/// Register address bit that makes the accelerometer auto-increment on multi-byte reads
pub const ACCEL_AUTO_INCREMENT: u8 = 0x80;

/// Accelerometer data event (3-axis, unit 0.01g)
#[derive(Debug, Clone, Copy)]
pub struct AccelData {
    pub x: i16,
    pub y: i16,
    pub z: i16,
}

/// Magnetometer data event (3-axis, unit 0.1uT)
#[derive(Debug, Clone, Copy)]
pub struct MagnetData {
    pub x: i16,
    pub y: i16,
    pub z: i16,
}

/// Set the accelerometer subscription
pub fn set_accel_subscribed(dev: &mut DeviceState, yes: bool)
    ensures
        final(dev).view() == (DeviceView { accel_subscribed: yes, ..old(dev).view() }),
{
    dev.accel_subscribed = yes;
}

/// Whether accelerometer data is subscribed
pub fn is_accel_subscribed(dev: &DeviceState) -> (b: bool)
    ensures
        b == dev.view().accel_subscribed,
{
    dev.accel_subscribed
}

/// Set the magnetometer subscription
pub fn set_magnet_subscribed(dev: &mut DeviceState, yes: bool)
    ensures
        final(dev).view() == (DeviceView { magnet_subscribed: yes, ..old(dev).view() }),
{
    dev.magnet_subscribed = yes;
}

/// Whether magnetometer data is subscribed
pub fn is_magnet_subscribed(dev: &DeviceState) -> (b: bool)
    ensures
        b == dev.view().magnet_subscribed,
{
    dev.magnet_subscribed
}

/// The polling interval of the motion task: 50ms (~20Hz) while something is
/// subscribed, 200ms when idle.
pub fn poll_interval_ms(dev: &DeviceState) -> (ms: u64)
    ensures
        ms == if dev.view().accel_subscribed || dev.view().magnet_subscribed {
            50u64
        } else {
            200u64
        },
{
    if dev.accel_subscribed || dev.magnet_subscribed {
        50
    } else {
        200
    }
}

/// The signed 16-bit value of two little-endian bytes.
pub open spec fn le_i16(lo: u8, hi: u8) -> int {
    let v = lo as int + 256 * (hi as int);
    if v >= 32768 {
        v - 65536
    } else {
        v
    }
}

/// One accelerometer axis in 0.01g: the 10-bit left-justified reading
/// (arithmetic shift right by 6), times 4.
pub open spec fn accel_axis(lo: u8, hi: u8) -> int {
    (le_i16(lo, hi) / 64) * 4
}

/// Integer division by 2 rounding toward zero.
pub open spec fn half_toward_zero(v: int) -> int {
    if v >= 0 {
        v / 2
    } else {
        -((-v) / 2)
    }
}

/// One magnetometer axis in 0.1uT: the reading times 1.5 (as `(raw * 3) / 2`),
/// truncated to 16 bits.
pub open spec fn magnet_axis(lo: u8, hi: u8) -> i16 {
    half_toward_zero(le_i16(lo, hi) * 3) as i16
}

fn read_le_i16(lo: u8, hi: u8) -> (v: i32)
    ensures
        v == le_i16(lo, hi),
        -32768 <= v <= 32767,
{
    let u: i32 = lo as i32 + (hi as i32) * 256;
    if u >= 32768 {
        u - 65536
    } else {
        u
    }
}

fn accel_value(lo: u8, hi: u8) -> (a: i16)
    ensures
        a == accel_axis(lo, hi),
{
    let v = read_le_i16(lo, hi);
    let u: i32 = v + 32768;
    let q: i32 = u / 64;
    assert(q == v / 64 + 512 && -512 <= v / 64 <= 511) by (nonlinear_arith)
        requires
            -32768 <= v <= 32767,
            u == v + 32768,
            q == u / 64,
    ;
    ((q - 512) * 4) as i16
}

fn magnet_value(lo: u8, hi: u8) -> (m: i16)
    ensures
        m == magnet_axis(lo, hi),
{
    let v = read_le_i16(lo, hi);
    let t: i32 = v * 3;
    let q: i32 = if t >= 0 {
        t / 2
    } else {
        -((-t) / 2)
    };
    q as i16
}

/// Convert the six accelerometer output registers (X_L, X_H, Y_L, Y_H, Z_L, Z_H)
/// to 0.01g units.
pub fn accel_from_registers(buf: &[u8; 6]) -> (d: AccelData)
    ensures
        d.x == accel_axis(buf@[0], buf@[1]),
        d.y == accel_axis(buf@[2], buf@[3]),
        d.z == accel_axis(buf@[4], buf@[5]),
{
    AccelData {
        x: accel_value(buf[0], buf[1]),
        y: accel_value(buf[2], buf[3]),
        z: accel_value(buf[4], buf[5]),
    }
}

/// Convert the six magnetometer output registers (X_L, X_H, Y_L, Y_H, Z_L, Z_H)
/// to 0.1uT units.
pub fn magnet_from_registers(buf: &[u8; 6]) -> (d: MagnetData)
    ensures
        d.x == magnet_axis(buf@[0], buf@[1]),
        d.y == magnet_axis(buf@[2], buf@[3]),
        d.z == magnet_axis(buf@[4], buf@[5]),
{
    MagnetData {
        x: magnet_value(buf[0], buf[1]),
        y: magnet_value(buf[2], buf[3]),
        z: magnet_value(buf[4], buf[5]),
    }
}

} // verus!
