use kakarot_aec::host;
use kakarot_aec::processor::{AecProcessor, CancellerSettings, InvalidConfiguration, ProcessorConfig};
use kakarot_aec::scheduler::FrameScheduler;

fn tone(start: i16, count: usize) -> Vec<i16> {
    (0..count).map(|i| start.wrapping_add((i as i16).wrapping_mul(5))).collect()
}

/// Stands in for the canceller: subtracts the reference from the near end.
fn cancel(near: &[i16], reference: &[i16]) -> Vec<i16> {
    near.iter().zip(reference.iter()).map(|(n, r)| n.wrapping_sub(*r)).collect()
}

fn run_frames(job: &mut FrameScheduler) -> usize {
    let mut frames = 0;
    while job.has_pending() {
        let cleaned = match job.next_frame() {
            Some((near, reference)) => cancel(near, reference),
            None => unreachable!(),
        };
        job.accept(&cleaned);
        frames += 1;
    }
    frames
}

fn process(session: &mut AecProcessor, input: &[i16], elapsed_us: u64) -> Vec<i16> {
    let mut job = session.begin_process(input.to_vec());
    run_frames(&mut job);
    session.finish_process(job, elapsed_us)
}

#[test]
fn zero_frame_size_is_rejected() {
    let outcome = AecProcessor::new(16000, 0, 256);
    assert_eq!(outcome.unwrap_err(), InvalidConfiguration::FrameSize(0));
}

#[test]
fn short_filter_is_rejected() {
    let outcome = AecProcessor::new(16000, 256, 32);
    assert_eq!(outcome.unwrap_err(), InvalidConfiguration::FilterLength(32));
}

#[test]
fn valid_configuration_is_accepted() {
    let session = AecProcessor::new(16000, 256, 256).unwrap();
    assert_eq!(session.sample_rate(), 16000);
    assert_eq!(session.frame_size(), 256);
    assert_eq!(session.filter_length(), 256);
    assert_eq!(session.reference_len(), 0);
    assert_eq!(session.get_metrics(), (0, 0));
}

#[test]
fn frame_size_limits() {
    assert!(AecProcessor::new(48000, 1, 64).is_ok());
    assert!(AecProcessor::new(48000, 16384, 64).is_ok());
    assert_eq!(
        AecProcessor::new(48000, 16385, 64).unwrap_err(),
        InvalidConfiguration::FrameSize(16385)
    );
    assert_eq!(
        AecProcessor::new(48000, usize::MAX, 64).unwrap_err(),
        InvalidConfiguration::FrameSize(usize::MAX)
    );
}

#[test]
fn filter_length_limits() {
    assert!(AecProcessor::new(48000, 160, 64).is_ok());
    assert!(AecProcessor::new(48000, 160, 2048).is_ok());
    assert_eq!(
        AecProcessor::new(48000, 160, 63).unwrap_err(),
        InvalidConfiguration::FilterLength(63)
    );
    assert_eq!(
        AecProcessor::new(48000, 160, 2049).unwrap_err(),
        InvalidConfiguration::FilterLength(2049)
    );
    assert_eq!(
        AecProcessor::new(48000, 160, 0).unwrap_err(),
        InvalidConfiguration::FilterLength(0)
    );
}

#[test]
fn frame_size_is_checked_before_filter_length() {
    assert_eq!(
        AecProcessor::new(16000, 0, 32).unwrap_err(),
        InvalidConfiguration::FrameSize(0)
    );
    assert_eq!(
        AecProcessor::new(16000, 20000, 4096).unwrap_err(),
        InvalidConfiguration::FrameSize(20000)
    );
}

#[test]
fn sample_rate_is_not_checked() {
    assert!(AecProcessor::new(0, 160, 256).is_ok());
    assert!(AecProcessor::new(u32::MAX, 160, 256).is_ok());
}

#[test]
fn validate_names_the_value_out_of_range() {
    let config = ProcessorConfig { sample_rate: 16000, frame_size: 160, filter_length: 256 };
    assert_eq!(config.validate(), Ok(()));
    let config = ProcessorConfig { sample_rate: 16000, frame_size: 0, filter_length: 256 };
    assert_eq!(config.validate(), Err(InvalidConfiguration::FrameSize(0)));
    let config = ProcessorConfig { sample_rate: 16000, frame_size: 160, filter_length: 5000 };
    assert_eq!(config.validate(), Err(InvalidConfiguration::FilterLength(5000)));
}

#[test]
fn canceller_settings_follow_the_configuration() {
    let session = AecProcessor::new(16000, 160, 2048).unwrap();
    assert_eq!(
        session.canceller_settings(),
        CancellerSettings {
            frame_size: 160,
            filter_length: 2048,
            sample_rate: 16000,
            enable_preprocess: false,
        }
    );
    let config = ProcessorConfig { sample_rate: 8000, frame_size: 80, filter_length: 64 };
    assert_eq!(
        config.canceller_settings(),
        CancellerSettings {
            frame_size: 80,
            filter_length: 64,
            sample_rate: 8000,
            enable_preprocess: false,
        }
    );
}

#[test]
fn reference_is_bounded_by_four_filter_lengths() {
    let mut session = AecProcessor::new(16000, 160, 64).unwrap();
    for size in [100usize, 100, 56, 1, 500, 127, 2, 256, 0, 1] {
        session.feed_reference(&tone(0, size));
        assert!(session.reference_len() <= 256);
    }
}

#[test]
fn reference_past_the_ceiling_settles_at_two_filter_lengths() {
    let mut session = AecProcessor::new(16000, 160, 64).unwrap();
    session.feed_reference(&tone(0, 256));
    assert_eq!(session.reference_len(), 256);
    session.feed_reference(&tone(0, 1));
    assert_eq!(session.reference_len(), 128);

    let mut session = AecProcessor::new(16000, 160, 2048).unwrap();
    session.feed_reference(&tone(0, 8000));
    assert_eq!(session.reference_len(), 8000);
    session.feed_reference(&tone(0, 193));
    assert_eq!(session.reference_len(), 4096);
}

#[test]
fn reference_kept_after_eviction_is_the_newest() {
    let mut session = AecProcessor::new(16000, 4, 64).unwrap();
    let far = tone(-700, 300);
    session.feed_reference(&far);
    assert_eq!(session.reference_len(), 128);
    let mut job = session.begin_process(vec![0i16; 128]);
    let mut seen: Vec<i16> = Vec::new();
    while job.has_pending() {
        if let Some((_, reference)) = job.next_frame() {
            seen.extend_from_slice(reference);
        }
        job.accept(&[0, 0, 0, 0]);
    }
    assert_eq!(seen, far[172..300].to_vec());
    assert_eq!(session.finish_process(job, 0), vec![0i16; 128]);
}

#[test]
fn process_without_reference_returns_a_chunk_of_the_same_length() {
    let mut session = AecProcessor::new(16000, 160, 256).unwrap();
    let input = tone(100, 350);
    let mut job = session.begin_process(input.clone());
    let mut references: Vec<i16> = Vec::new();
    while job.has_pending() {
        let cleaned = match job.next_frame() {
            Some((near, reference)) => {
                references.extend_from_slice(reference);
                cancel(near, reference)
            }
            None => unreachable!(),
        };
        job.accept(&cleaned);
    }
    let output = session.finish_process(job, 1);
    assert_eq!(references, vec![0i16; 320]);
    assert_eq!(output.len(), 350);
    assert_eq!(output, input);
    assert_eq!(session.reference_len(), 0);
}

#[test]
fn process_takes_its_reference_from_the_front() {
    let mut session = AecProcessor::new(16000, 160, 256).unwrap();
    let far = tone(-3000, 500);
    session.feed_reference(&far);
    let input = tone(100, 350);
    let output = process(&mut session, &input, 10);
    assert_eq!(session.reference_len(), 150);
    assert_eq!(output.len(), 350);
    assert_eq!(output[0..320].to_vec(), cancel(&input[0..320], &far[0..320]));
    assert_eq!(output[320..350].to_vec(), input[320..350].to_vec());

    let second = process(&mut session, &input[0..150], 10);
    assert_eq!(session.reference_len(), 0);
    assert_eq!(second, input[0..150].to_vec());
}

#[test]
fn process_with_too_little_reference_leaves_the_buffer_alone() {
    let mut session = AecProcessor::new(16000, 160, 256).unwrap();
    session.feed_reference(&tone(50, 100));
    let input = tone(100, 160);
    let output = process(&mut session, &input, 10);
    assert_eq!(output, input);
    assert_eq!(session.reference_len(), 100);
}

#[test]
fn every_process_call_counts_once() {
    let mut session = AecProcessor::new(16000, 160, 256).unwrap();
    process(&mut session, &tone(0, 480), 40);
    let before = session.get_metrics();
    assert_eq!(before, (1, 40));
    let mut previous_time = before.1;
    let elapsed: [u64; 5] = [12, 0, 7, 300, 1];
    for (index, elapsed_us) in elapsed.iter().enumerate() {
        process(&mut session, &tone(0, 100 * index), *elapsed_us);
        let now = session.get_metrics();
        assert!(now.1 >= previous_time);
        previous_time = now.1;
    }
    assert_eq!(session.get_metrics(), (before.0 + 5, 360));
}

#[test]
fn feeding_reference_does_not_count_as_processing() {
    let mut session = AecProcessor::new(16000, 160, 256).unwrap();
    session.feed_reference(&tone(0, 100));
    assert_eq!(session.get_metrics(), (0, 0));
}

#[test]
fn reset_clears_reference_and_counters_and_keeps_the_configuration() {
    let mut session = AecProcessor::new(44100, 160, 256).unwrap();
    session.feed_reference(&tone(0, 700));
    process(&mut session, &tone(0, 160), 99);
    assert_eq!(session.get_metrics(), (1, 99));
    assert_eq!(session.reference_len(), 540);
    session.reset();
    assert_eq!(session.get_metrics(), (0, 0));
    assert_eq!(session.reference_len(), 0);
    assert_eq!(session.sample_rate(), 44100);
    assert_eq!(session.frame_size(), 160);
    assert_eq!(session.filter_length(), 256);
    session.feed_reference(&tone(0, 1024));
    assert_eq!(session.reference_len(), 1024);
    session.feed_reference(&tone(0, 1));
    assert_eq!(session.reference_len(), 512);
}

#[test]
fn host_feed_reference_decodes_the_bytes() {
    let mut session = AecProcessor::new(16000, 2, 64).unwrap();
    host::feed_reference(&mut session, &[0x01, 0x00, 0xff, 0xff, 0x34, 0x12, 0x99]);
    assert_eq!(session.reference_len(), 3);
    let mut job = session.begin_process(vec![10, 20, 30]);
    let first = job.next_frame().map(|(near, reference)| (near.to_vec(), reference.to_vec()));
    assert_eq!(first, Some((vec![10i16, 20], vec![1i16, -1])));
    job.accept(&[0, 0]);
    assert_eq!(session.finish_process(job, 0), vec![0i16, 0, 30]);
}

#[test]
fn host_process_returns_as_many_bytes_as_it_was_given() {
    let mut session = AecProcessor::new(16000, 160, 256).unwrap();
    host::feed_reference(&mut session, &vec![0x11u8; 2000]);
    for samples in [0usize, 1, 159, 160, 161, 320, 350, 1000] {
        let bytes: Vec<u8> = (0..2 * samples).map(|i| (i % 251) as u8).collect();
        let mut job = host::begin_process(&mut session, &bytes);
        let frames = run_frames(&mut job);
        assert_eq!(frames, samples / 160);
        let output = host::finish_process(&mut session, job, 3);
        assert_eq!(output.len(), 2 * samples);
    }
    assert_eq!(session.get_metrics(), (8, 24));
}

#[test]
fn host_process_copies_the_remainder_byte_for_byte() {
    let mut session = AecProcessor::new(16000, 160, 256).unwrap();
    host::feed_reference(&mut session, &vec![0x22u8; 700]);
    let bytes: Vec<u8> = (0..700).map(|i| (i % 253) as u8).collect();
    let mut job = host::begin_process(&mut session, &bytes);
    assert_eq!(run_frames(&mut job), 2);
    let output = host::finish_process(&mut session, job, 3);
    assert_eq!(output.len(), 700);
    assert_eq!(output[640..700].to_vec(), bytes[640..700].to_vec());
    assert_eq!(session.reference_len(), 0);
}

#[test]
fn host_process_drops_a_trailing_odd_byte() {
    let mut session = AecProcessor::new(16000, 160, 256).unwrap();
    let bytes: Vec<u8> = vec![1, 2, 3, 4, 5];
    let mut job = host::begin_process(&mut session, &bytes);
    assert_eq!(run_frames(&mut job), 0);
    assert_eq!(host::finish_process(&mut session, job, 0), vec![1u8, 2, 3, 4]);
}
