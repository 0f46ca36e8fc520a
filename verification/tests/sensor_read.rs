use air_sensors::capability::{DigitalPin, MicrosecondDelay};
use air_sensors::dht22::{Dht22, DhtError};
use std::cell::RefCell;
use std::rc::Rc;

#[derive(Debug, Clone, Copy, PartialEq, Eq)]
enum Did {
    SetLow,
    SetHigh,
    Sleep(u32),
    Sample,
}

/// A line on a simulated clock: sampling takes no time, sleeping moves the
/// clock, and after the host releases the line the sensor plays its script.
struct Bench {
    now: u64,
    released_at: Option<u64>,
    driven_low: bool,
    /// What the sensor does after the release: a duration and whether the
    /// line is high for it.
    script: Vec<(u64, bool)>,
    /// The level once the script is over.
    idle_high: bool,
    log: Vec<Did>,
    samples: usize,
    fault_at_sample: Option<usize>,
    fail_set_low: bool,
    fail_set_high: bool,
}

impl Bench {
    fn with_script(script: Vec<(u64, bool)>, idle_high: bool) -> Rc<RefCell<Bench>> {
        Rc::new(RefCell::new(Bench {
            now: 0,
            released_at: None,
            driven_low: false,
            script,
            idle_high,
            log: Vec::new(),
            samples: 0,
            fault_at_sample: None,
            fail_set_low: false,
            fail_set_high: false,
        }))
    }

    fn is_high(&self) -> bool {
        if self.driven_low {
            return false;
        }
        let released = match self.released_at {
            Some(at) => at,
            None => return true,
        };
        let mut until = released;
        for (duration, high) in &self.script {
            until += duration;
            if self.now < until {
                return *high;
            }
        }
        self.idle_high
    }

    fn sample(&mut self) -> Result<bool, &'static str> {
        self.log.push(Did::Sample);
        self.samples += 1;
        if self.fault_at_sample == Some(self.samples) {
            return Err("sample fault");
        }
        Ok(self.is_high())
    }
}

struct Pin(Rc<RefCell<Bench>>);

struct Clock(Rc<RefCell<Bench>>);

impl DigitalPin for Pin {
    type Error = &'static str;

    fn set_low(&mut self) -> Result<(), Self::Error> {
        let mut bench = self.0.borrow_mut();
        bench.log.push(Did::SetLow);
        if bench.fail_set_low {
            return Err("cannot drive");
        }
        bench.driven_low = true;
        Ok(())
    }

    fn set_high(&mut self) -> Result<(), Self::Error> {
        let mut bench = self.0.borrow_mut();
        bench.log.push(Did::SetHigh);
        if bench.fail_set_high {
            return Err("cannot release");
        }
        bench.driven_low = false;
        bench.released_at = Some(bench.now);
        Ok(())
    }

    fn is_high(&mut self) -> Result<bool, Self::Error> {
        self.0.borrow_mut().sample()
    }

    fn is_low(&mut self) -> Result<bool, Self::Error> {
        self.0.borrow_mut().sample().map(|high| !high)
    }
}

impl MicrosecondDelay for Clock {
    fn sleep_us(&mut self, us: u32) {
        let mut bench = self.0.borrow_mut();
        bench.log.push(Did::Sleep(us));
        bench.now += us as u64;
    }
}

fn sensor(bench: &Rc<RefCell<Bench>>) -> Dht22<Clock, Pin> {
    Dht22::new(Clock(bench.clone()), Pin(bench.clone()))
}

/// The script of a sensor that answers with the first `bits` bits of `frame`
/// and then leaves the line at `after`.
fn answer(frame: [u8; 5], bits: usize, zero: u64, one: u64) -> Vec<(u64, bool)> {
    let mut script = vec![(20, true), (80, false), (80, true)];
    for i in 0..bits {
        let bit = (frame[i / 8] >> (7 - i % 8)) & 1;
        script.push((50, false));
        script.push((if bit == 1 { one } else { zero }, true));
    }
    script
}

fn full_answer(frame: [u8; 5]) -> Vec<(u64, bool)> {
    let mut script = answer(frame, 40, 26, 70);
    script.push((50, false));
    script
}

#[test]
fn reads_a_frame_from_the_line() {
    let bench = Bench::with_script(full_answer([0x02, 0x8C, 0x01, 0x0A, 0x99]), true);
    let readout = sensor(&bench).read().unwrap();
    assert_eq!(readout.humidity(), 652);
    assert_eq!(readout.temperature(), 266);
    assert!(!readout.is_negative());
    assert_eq!(readout.humidity() as f32 / 10.0, 65.2);
}

#[test]
fn reads_a_negative_temperature_from_the_line() {
    let bench = Bench::with_script(full_answer([0x01, 0xF4, 0x80, 0x0A, 0x7F]), true);
    let readout = sensor(&bench).read().unwrap();
    assert_eq!(readout.humidity(), 500);
    assert_eq!(readout.temperature(), -10);
    assert!(readout.is_negative());
    assert_eq!(readout.temperature() as f32 / 10.0, -1.0);
}

#[test]
fn read_wakes_the_sensor_before_sampling() {
    let bench = Bench::with_script(full_answer([0, 0, 0, 0, 0]), true);
    assert!(sensor(&bench).read().is_ok());
    let log = bench.borrow().log.clone();
    assert_eq!(
        log[..5],
        [Did::SetLow, Did::Sleep(3000), Did::SetHigh, Did::Sleep(25), Did::Sample]
    );
    assert!(log[5..].iter().all(|did| *did == Did::Sample || *did == Did::Sleep(1)));
}

#[test]
fn read_takes_what_the_protocol_takes() {
    let bench = Bench::with_script(full_answer([0xFF, 0xFF, 0xFF, 0xFF, 0xFC]), true);
    assert!(sensor(&bench).read().is_ok());
    let ones = 38u64;
    let zeros = 2u64;
    let elapsed = 3000 + 20 + 80 + 80 + 40 * 50 + ones * 70 + zeros * 26;
    assert_eq!(bench.borrow().now, elapsed);
}

#[test]
fn line_that_never_goes_high_is_sensor_not_found() {
    let bench = Bench::with_script(Vec::new(), false);
    assert_eq!(sensor(&bench).read(), Err(DhtError::NotFoundOnGPio));
    assert_eq!(bench.borrow().samples, 86);
    assert_eq!(bench.borrow().now, 3000 + 25 + 86);
}

#[test]
fn line_that_never_goes_low_is_sensor_not_found() {
    let bench = Bench::with_script(Vec::new(), true);
    assert_eq!(sensor(&bench).read(), Err(DhtError::NotFoundOnGPio));
    assert_eq!(bench.borrow().samples, 1 + 86);
}

#[test]
fn handshake_that_is_too_slow_is_sensor_not_found() {
    let script = vec![(20, true), (91, false), (80, true)];
    let bench = Bench::with_script(script, false);
    assert_eq!(sensor(&bench).read(), Err(DhtError::NotFoundOnGPio));
}

#[test]
fn silence_after_any_bit_is_read_timeout() {
    let frame = [0xA5, 0x5A, 0xC3, 0x3C, 0xFE];
    for bits in 0..40 {
        let stuck_low = Bench::with_script(answer(frame, bits, 26, 70), false);
        assert_eq!(sensor(&stuck_low).read(), Err(DhtError::ReadTimeout));
        let mut script = answer(frame, bits, 26, 70);
        script.push((50, false));
        let stuck_high = Bench::with_script(script, true);
        assert_eq!(sensor(&stuck_high).read(), Err(DhtError::ReadTimeout));
    }
}

#[test]
fn pulse_longer_than_70_is_read_timeout() {
    let bench = Bench::with_script(answer([0xFF; 5], 40, 26, 71), false);
    assert_eq!(sensor(&bench).read(), Err(DhtError::ReadTimeout));
}

#[test]
fn pulse_width_threshold_is_30() {
    let mut script = answer([0xFF, 0xFF, 0xFF, 0xFF, 0xFC], 40, 30, 31);
    script.push((50, false));
    let bench = Bench::with_script(script, true);
    let readout = sensor(&bench).read().unwrap();
    assert_eq!(readout.humidity(), 0xFFFF);
    assert_eq!(readout.temperature(), -0x7FFF);
    let mut script = answer([0xFF, 0xFF, 0xFF, 0xFF, 0xFC], 40, 30, 30);
    script.push((50, false));
    let bench = Bench::with_script(script, true);
    let readout = sensor(&bench).read().unwrap();
    assert_eq!(readout.humidity(), 0);
    assert_eq!(readout.temperature(), 0);
    assert!(!readout.is_negative());
}

#[test]
fn wrong_checksum_on_the_line_is_reported() {
    let bench = Bench::with_script(full_answer([0x02, 0x8C, 0x01, 0x0A, 0x6E]), true);
    assert_eq!(sensor(&bench).read(), Err(DhtError::CheckSum(0x99, 0x6E)));
}

#[test]
fn fault_while_driving_low_is_pin_error() {
    let bench = Bench::with_script(full_answer([0; 5]), true);
    bench.borrow_mut().fail_set_low = true;
    assert_eq!(sensor(&bench).read(), Err(DhtError::PinError("cannot drive")));
    assert_eq!(bench.borrow().log, vec![Did::SetLow]);
}

#[test]
fn fault_while_releasing_is_pin_error() {
    let bench = Bench::with_script(full_answer([0; 5]), true);
    bench.borrow_mut().fail_set_high = true;
    assert_eq!(sensor(&bench).read(), Err(DhtError::PinError("cannot release")));
    assert_eq!(bench.borrow().log, vec![Did::SetLow, Did::Sleep(3000), Did::SetHigh]);
}

#[test]
fn fault_while_sampling_is_pin_error() {
    for at in [1usize, 2, 80, 200, 1000, 2500] {
        let bench = Bench::with_script(full_answer([0x12, 0x34, 0x56, 0x78, 0x14]), true);
        bench.borrow_mut().fault_at_sample = Some(at);
        assert_eq!(sensor(&bench).read(), Err(DhtError::PinError("sample fault")));
        assert_eq!(bench.borrow().samples, at);
    }
}

#[test]
fn failed_read_leaves_the_next_read_clean() {
    let bench = Bench::with_script(Vec::new(), false);
    let mut dht = sensor(&bench);
    assert_eq!(dht.read(), Err(DhtError::NotFoundOnGPio));
    bench.borrow_mut().script = full_answer([0x02, 0x8C, 0x01, 0x0A, 0x99]);
    bench.borrow_mut().idle_high = true;
    let readout = dht.read().unwrap();
    assert_eq!(readout.humidity(), 652);
    assert_eq!(readout.temperature(), 266);
}
