//! micro:bit V2 buzzer/speaker control: tone requests and the sound task's timing.
use vstd::prelude::*;

use super::{DeviceState, DeviceView};

verus! {

/// Tone command
#[derive(Clone, Copy)]
pub enum ToneCommand {
    /// Play tone at frequency (Hz) for duration (ms)
    Play { freq_hz: u16, duration_ms: u16 },
    /// Stop playing immediately
    Stop,
}

/// Request to play a tone (replaces any pending request)
pub fn play_tone(dev: &mut DeviceState, freq_hz: u16, duration_ms: u16)
    ensures
        final(dev).view() == (DeviceView {
            tone_request: Some(ToneCommand::Play { freq_hz, duration_ms }),
            ..old(dev).view()
        }),
{
    dev.tone_request = Some(ToneCommand::Play { freq_hz, duration_ms });
}

/// Request to stop playing
pub fn stop_tone(dev: &mut DeviceState)
    ensures
        final(dev).view() == (DeviceView {
            tone_request: Some(ToneCommand::Stop),
            ..old(dev).view()
        }),
{
    dev.tone_request = Some(ToneCommand::Stop);
}

/// Check if currently playing
pub fn is_playing(dev: &DeviceState) -> (b: bool)
    ensures
        b == dev.view().playing,
{
    dev.playing
}

/// Whether a new tone request is pending (the sound task stops the current tone then).
pub fn tone_requested(dev: &DeviceState) -> (b: bool)
    ensures
        b == dev.view().tone_request is Some,
{
    dev.tone_request.is_some()
}

/// Take the pending tone request, if any.
pub fn take_tone_request(dev: &mut DeviceState) -> (cmd: Option<ToneCommand>)
    ensures
        cmd == old(dev).view().tone_request,
        final(dev).view() == (DeviceView { tone_request: None, ..old(dev).view() }),
{
    let c = dev.tone_request;
    dev.tone_request = None;
    c
}

/// How the sound task plays a tone: half a square-wave period and the number of periods.
pub struct ToneTiming {
    pub half_period_us: u64,
    pub cycles: u64,
}

/// The square-wave timing of a tone: half period `500_000 / freq` microseconds,
/// and as many whole periods as fit in the duration.
pub open spec fn tone_timing(freq_hz: u16, duration_ms: u16) -> (u64, u64) {
    let half = 500_000int / (freq_hz as int);
    (half as u64, ((duration_ms as int * 1000) / (half * 2)) as u64)
}

/// Tone timing: for every non-zero frequency, the half period is 500000 / freq
/// microseconds rounded down (so a full period is at most 1/freq s and less than
/// one microsecond per half longer), and the tone lasts its requested duration
/// to within one period: the number of full periods is the largest whose total
/// time does not exceed `duration_ms` milliseconds.
pub proof fn lemma_tone_duration(freq_hz: u16, duration_ms: u16)
    requires
        freq_hz > 0,
    ensures
        ({
            let (half, cycles) = tone_timing(freq_hz, duration_ms);
            &&& half > 0
            &&& half * freq_hz <= 500_000 < (half + 1) * freq_hz
            &&& cycles * 2 * half <= duration_ms * 1000
            &&& duration_ms * 1000 < (cycles + 1) * 2 * half
        }),
{
    let f = freq_hz as int;
    let h = 500_000int / f;
    let t = duration_ms as int * 1000;
    assert(h * f <= 500_000 < (h + 1) * f && 7 <= h <= 500_000) by (nonlinear_arith)
        requires
            1 <= f <= 65535,
            h == 500_000int / f,
    ;
    let c = t / (h * 2);
    assert(c * (h * 2) <= t < (c + 1) * (h * 2) && 0 <= c <= t) by (nonlinear_arith)
        requires
            h >= 7,
            t >= 0,
            c == t / (h * 2),
    ;
    assert(c * 2 * h == c * (h * 2) && (c + 1) * 2 * h == (c + 1) * (h * 2)) by (nonlinear_arith);
    assert(t <= 65_535_000);
}

/// The sound task starts handling a command: a tone with zero frequency or
/// duration is ignored; a tone starts playing with its timing; a stop silences.
pub fn begin_tone(dev: &mut DeviceState, cmd: ToneCommand) -> (t: Option<ToneTiming>)
    ensures
        match cmd {
            ToneCommand::Play { freq_hz, duration_ms } => if freq_hz == 0 || duration_ms == 0 {
                t is None && final(dev).view() == old(dev).view()
            } else {
                t matches Some(tt) && (tt.half_period_us, tt.cycles) == tone_timing(
                    freq_hz,
                    duration_ms,
                ) && tt.half_period_us > 0 && final(dev).view() == (DeviceView {
                    playing: true,
                    ..old(dev).view()
                })
            },
            ToneCommand::Stop => t is None && final(dev).view() == (DeviceView {
                playing: false,
                ..old(dev).view()
            }),
        },
{
    match cmd {
        ToneCommand::Play { freq_hz, duration_ms } => {
            if freq_hz == 0 || duration_ms == 0 {
                return None;
            }
            dev.playing = true;
            // half_period_us = 1_000_000 / (2 * freq_hz)
            let f = freq_hz as u64;
            assert(500_000u64 / f >= 7 && 500_000u64 / f <= 500_000) by (nonlinear_arith)
                requires
                    1 <= f <= 65535,
            ;
            let half_period_us: u64 = 500_000 / f;
            let total_cycles = (duration_ms as u64 * 1000) / (half_period_us * 2);
            Some(ToneTiming { half_period_us, cycles: total_cycles })
        },
        ToneCommand::Stop => {
            dev.playing = false;
            None
        },
    }
}

/// The tone ended (played out or stopped by a new request): silence.
pub fn end_tone(dev: &mut DeviceState)
    ensures
        final(dev).view() == (DeviceView { playing: false, ..old(dev).view() }),
{
    dev.playing = false;
}

} // verus!
