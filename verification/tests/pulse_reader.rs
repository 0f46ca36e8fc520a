use air_sensors::dht22::DhtError;
use air_sensors::pulse::{Command, PinLevel, PulseReader, Reply, Step};

type Fault = &'static str;

fn next(reader: PulseReader, reply: Reply<Fault>) -> PulseReader {
    match reader.advance(reply) {
        Step::Continue(reader) => reader,
        Step::Frame(frame) => panic!("frame {:?} came early", frame),
        Step::Failed(error) => panic!("read failed early: {:?}", error),
    }
}

fn failure(reader: PulseReader, reply: Reply<Fault>) -> DhtError<Fault> {
    match reader.advance(reply) {
        Step::Failed(error) => error,
        Step::Continue(_) => panic!("the read went on"),
        Step::Frame(frame) => panic!("frame {:?} came", frame),
    }
}

/// Steps through the wake-up: both line writes and both delays.
fn woken() -> PulseReader {
    let mut reader = PulseReader::start();
    for _ in 0..4 {
        reader = next(reader, Reply::Done);
    }
    reader
}

/// Lets the line miss `wait` samples and then hit.
fn arrive(mut reader: PulseReader, level: PinLevel, wait: u32) -> Step<Fault> {
    for _ in 0..wait {
        assert_eq!(reader.command(), Command::Sample(level));
        reader = next(reader, Reply::Level(false));
        assert_eq!(reader.command(), Command::Delay(1));
        reader = next(reader, Reply::Done);
    }
    assert_eq!(reader.command(), Command::Sample(level));
    reader.advance(Reply::Level(true))
}

fn arrived(reader: PulseReader, level: PinLevel, wait: u32) -> PulseReader {
    match arrive(reader, level, wait) {
        Step::Continue(reader) => reader,
        _ => panic!("the read ended"),
    }
}

/// Lets the line miss every sample until the read gives up; returns the
/// failure and the number of samples taken.
fn starve(mut reader: PulseReader, level: PinLevel) -> (DhtError<Fault>, u32) {
    let mut samples = 0;
    loop {
        assert_eq!(reader.command(), Command::Sample(level));
        reader = next(reader, Reply::Level(false));
        samples += 1;
        assert_eq!(reader.command(), Command::Delay(1));
        match reader.advance(Reply::Done) {
            Step::Continue(after) => reader = after,
            Step::Failed(error) => return (error, samples),
            Step::Frame(_) => panic!("a frame came of silence"),
        }
    }
}

fn through_handshake() -> PulseReader {
    let reader = arrived(woken(), PinLevel::High, 75);
    arrived(reader, PinLevel::Low, 80)
}

/// Feeds the pulses of the given widths, each after a gap of 50 microseconds.
fn feed_bits(mut reader: PulseReader, widths: &[u32]) -> Step<Fault> {
    let mut last = None;
    for (i, width) in widths.iter().enumerate() {
        assert!(last.is_none());
        reader = arrived(reader, PinLevel::High, 50);
        match arrive(reader, PinLevel::Low, *width) {
            Step::Continue(after) => reader = after,
            ended => {
                assert_eq!(i, widths.len() - 1);
                last = Some(ended);
                reader = PulseReader::start();
            },
        }
    }
    match last {
        Some(ended) => ended,
        None => Step::Continue(reader),
    }
}

fn widths_of(frame: [u8; 5], zero: u32, one: u32) -> Vec<u32> {
    let mut widths = Vec::new();
    for i in 0..40 {
        let bit = (frame[i / 8] >> (7 - i % 8)) & 1;
        widths.push(if bit == 1 { one } else { zero });
    }
    widths
}

#[test]
fn wake_sequence_is_low_3000_high_25() {
    let mut reader = PulseReader::start();
    assert_eq!(reader.command(), Command::SetLow);
    reader = next(reader, Reply::Done);
    assert_eq!(reader.command(), Command::Delay(3000));
    reader = next(reader, Reply::Done);
    assert_eq!(reader.command(), Command::SetHigh);
    reader = next(reader, Reply::Done);
    assert_eq!(reader.command(), Command::Delay(25));
    reader = next(reader, Reply::Done);
    assert_eq!(reader.command(), Command::Sample(PinLevel::High));
}

#[test]
fn handshake_waits_for_high_then_low() {
    let reader = arrived(woken(), PinLevel::High, 0);
    assert_eq!(reader.command(), Command::Sample(PinLevel::Low));
    let reader = arrived(reader, PinLevel::Low, 85);
    assert_eq!(reader.command(), Command::Sample(PinLevel::High));
}

#[test]
fn missed_sample_is_followed_by_one_microsecond() {
    let reader = next(woken(), Reply::Level(false));
    assert_eq!(reader.command(), Command::Delay(1));
    let reader = next(reader, Reply::Done);
    assert_eq!(reader.command(), Command::Sample(PinLevel::High));
}

#[test]
fn silent_handshake_is_sensor_not_found_after_86_samples() {
    assert_eq!(starve(woken(), PinLevel::High), (DhtError::NotFoundOnGPio, 86));
}

#[test]
fn handshake_stuck_high_is_sensor_not_found() {
    let reader = arrived(woken(), PinLevel::High, 3);
    assert_eq!(starve(reader, PinLevel::Low), (DhtError::NotFoundOnGPio, 86));
}

#[test]
fn handshake_hit_at_85_is_in_time() {
    let reader = arrived(woken(), PinLevel::High, 85);
    assert_eq!(reader.command(), Command::Sample(PinLevel::Low));
}

#[test]
fn missing_pulse_is_read_timeout_after_56_samples() {
    assert_eq!(starve(through_handshake(), PinLevel::High), (DhtError::ReadTimeout, 56));
}

#[test]
fn endless_pulse_is_read_timeout_after_71_samples() {
    let reader = arrived(through_handshake(), PinLevel::High, 55);
    assert_eq!(starve(reader, PinLevel::Low), (DhtError::ReadTimeout, 71));
}

#[test]
fn silence_at_any_bit_is_read_timeout() {
    for silent in 0..40usize {
        let widths = vec![70u32; silent];
        let reader = match feed_bits(through_handshake(), &widths) {
            Step::Continue(reader) => reader,
            _ => panic!("the read ended before bit {}", silent),
        };
        assert_eq!(starve(reader, PinLevel::High), (DhtError::ReadTimeout, 56));
        let reader = match feed_bits(through_handshake(), &widths) {
            Step::Continue(reader) => reader,
            _ => panic!("the read ended before bit {}", silent),
        };
        let reader = arrived(reader, PinLevel::High, 10);
        assert_eq!(starve(reader, PinLevel::Low), (DhtError::ReadTimeout, 71));
    }
}

#[test]
fn forty_pulses_make_the_frame() {
    let frame = [0x02, 0x8C, 0x01, 0x0A, 0x99];
    match feed_bits(through_handshake(), &widths_of(frame, 26, 70)) {
        Step::Frame(read) => assert_eq!(read, frame),
        _ => panic!("no frame"),
    }
}

#[test]
fn frame_is_not_validated_by_the_reader() {
    let frame = [0x02, 0x8C, 0x01, 0x0A, 0x6E];
    match feed_bits(through_handshake(), &widths_of(frame, 26, 70)) {
        Step::Frame(read) => assert_eq!(read, frame),
        _ => panic!("no frame"),
    }
}

#[test]
fn thirty_nine_pulses_make_no_frame() {
    let widths = vec![70u32; 39];
    match feed_bits(through_handshake(), &widths) {
        Step::Continue(reader) => assert_eq!(reader.command(), Command::Sample(PinLevel::High)),
        _ => panic!("the read ended after 39 bits"),
    }
}

#[test]
fn pulse_wider_than_30_is_a_one() {
    let all_ones = [0xFF; 5];
    let all_zeros = [0x00; 5];
    match feed_bits(through_handshake(), &[31; 40]) {
        Step::Frame(read) => assert_eq!(read, all_ones),
        _ => panic!("no frame"),
    }
    match feed_bits(through_handshake(), &[30; 40]) {
        Step::Frame(read) => assert_eq!(read, all_zeros),
        _ => panic!("no frame"),
    }
    match feed_bits(through_handshake(), &[0; 40]) {
        Step::Frame(read) => assert_eq!(read, all_zeros),
        _ => panic!("no frame"),
    }
}

#[test]
fn bits_are_packed_most_significant_first() {
    for index in 0..40usize {
        let mut widths = vec![26u32; 40];
        widths[index] = 70;
        let mut expected = [0u8; 5];
        expected[index / 8] = 1 << (7 - index % 8);
        match feed_bits(through_handshake(), &widths) {
            Step::Frame(read) => assert_eq!(read, expected),
            _ => panic!("no frame"),
        }
    }
}

#[test]
fn fault_ends_the_read_at_every_stage() {
    assert_eq!(failure(PulseReader::start(), Reply::Fault("low")), DhtError::PinError("low"));
    let holding = next(PulseReader::start(), Reply::Done);
    let releasing = next(holding, Reply::Done);
    assert_eq!(failure(releasing, Reply::Fault("high")), DhtError::PinError("high"));
    assert_eq!(failure(woken(), Reply::Fault("sample")), DhtError::PinError("sample"));
    assert_eq!(failure(through_handshake(), Reply::Fault("bit")), DhtError::PinError("bit"));
    let timing = arrived(through_handshake(), PinLevel::High, 1);
    assert_eq!(failure(timing, Reply::Fault("pulse")), DhtError::PinError("pulse"));
}

#[test]
fn reply_of_the_wrong_kind_is_ignored() {
    let reader = next(PulseReader::start(), Reply::Level(true));
    assert_eq!(reader.command(), Command::SetLow);
    let reader = next(reader, Reply::Level(false));
    assert_eq!(reader.command(), Command::SetLow);
    let reader = next(woken(), Reply::Done);
    assert_eq!(reader.command(), Command::Sample(PinLevel::High));
    let resting = next(reader, Reply::Level(false));
    let resting = next(resting, Reply::Level(true));
    assert_eq!(resting.command(), Command::Delay(1));
}

#[test]
fn replies_are_made_from_results() {
    assert_eq!(Reply::<Fault>::from_write(Ok(())), Reply::Done);
    assert_eq!(Reply::<Fault>::from_write(Err("w")), Reply::Fault("w"));
    assert_eq!(Reply::<Fault>::from_sample(Ok(true)), Reply::Level(true));
    assert_eq!(Reply::<Fault>::from_sample(Ok(false)), Reply::Level(false));
    assert_eq!(Reply::<Fault>::from_sample(Err("s")), Reply::Fault("s"));
}
