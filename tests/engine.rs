use voice_changer_core::capture::{mix_to_mono, Capture};
use voice_changer_core::config::{AudioConfig, QUEUE_CAPACITY};
use voice_changer_core::device::{
    choose_rate, select_input, select_output, ConfigRange, EngineError, SampleFormat,
    StreamChoice,
};
use voice_changer_core::lifecycle::{Controller, EngineState};
use voice_changer_core::pcm::{decode_samples, encode_samples, read_sample, sample_bytes};
use voice_changer_core::playback::fill;
use voice_changer_core::queue::FrameQueue;
use voice_changer_core::session::{inbound_playable, Phase, Session, StatsMessage};

fn range(channels: u16, format: SampleFormat, min_rate: u32, max_rate: u32) -> ConfigRange {
    ConfigRange { channels, format, min_rate, max_rate }
}

fn frame_of(samples: &[i16]) -> Vec<u8> {
    encode_samples(samples)
}

#[test]
fn default_config_values() {
    let cfg = AudioConfig::default();
    assert_eq!(cfg.sample_rate, 48000);
    assert_eq!(cfg.channels, 1);
    assert_eq!(cfg.frame_size, 480);
    assert_eq!(cfg.samples_per_frame(), 480);
    assert_eq!(cfg.frame_bytes(), 960);
    assert!(cfg.is_valid());
    assert!(!AudioConfig::new(48000, 0, 480).is_valid());
    assert!(!AudioConfig::new(48000, 1, 0).is_valid());
    assert_eq!(AudioConfig::new(16000, 2, 160).frame_bytes(), 640);
}

#[test]
fn pcm_is_little_endian() {
    assert_eq!(encode_samples(&[1, -2, 0x1234]), vec![1, 0, 0xFE, 0xFF, 0x34, 0x12]);
    assert_eq!(sample_bytes(i16::MIN), (0x00, 0x80));
    assert_eq!(read_sample(0xFF, 0x7F), i16::MAX);
    assert_eq!(decode_samples(&[0x34, 0x12, 0xFE, 0xFF, 0x07]), vec![0x1234, -2]);
    let samples: Vec<i16> = vec![0, 1, -1, 16384, i16::MIN, i16::MAX];
    assert_eq!(decode_samples(&encode_samples(&samples)), samples);
}

#[test]
fn handshake_literal() {
    let cfg = AudioConfig::default();
    let mut s = Session::new(&cfg);
    assert_eq!(s.phase(), Phase::Handshake);
    let init = s.open(5);
    assert_eq!(init.kind, "init");
    assert_eq!(init.sample_rate, 48000);
    assert_eq!(init.channels, 1);
    assert_eq!(init.format, "S16LE");
    assert_eq!(init.frame_size, 480);
    assert_eq!(s.phase(), Phase::Streaming);
}

#[test]
fn outbound_frames_have_exact_size() {
    let cfg = AudioConfig::default();
    let mut s = Session::new(&cfg);
    s.open(0);
    assert!(s.outbound(&vec![0u8; 960]));
    assert!(!s.outbound(&vec![0u8; 958]));
    assert!(!s.outbound(&[]));
    assert!(s.outbound(&vec![1u8; 960]));
    assert_eq!(s.frames_sent(), 2);
    assert_eq!(s.bytes_sent(), 1920);
    assert!(inbound_playable(&cfg, &vec![0u8; 960]));
    assert!(!inbound_playable(&cfg, &vec![0u8; 961]));
}

#[test]
fn stats_period_and_content() {
    let cfg = AudioConfig::default();
    let mut s = Session::new(&cfg);
    s.open(10_000);
    assert_eq!(s.tick(10_500), None);
    assert!(s.outbound(&vec![0u8; 960]));
    assert_eq!(s.tick(10_999), None);
    assert_eq!(
        s.tick(11_003),
        Some(StatsMessage { elapsed_ms: 1003, frames: 1, bytes: 960 })
    );
    assert_eq!(s.tick(11_900), None);
    assert_eq!(s.tick(12_002), None);
    assert_eq!(
        s.tick(12_003),
        Some(StatsMessage { elapsed_ms: 2003, frames: 1, bytes: 960 })
    );
}

#[test]
fn stats_elapsed_never_decreases() {
    let cfg = AudioConfig::default();
    let mut s = Session::new(&cfg);
    s.open(0);
    let a = s.tick(1500).unwrap();
    // a clock reading from the past does not move elapsed time back
    assert_eq!(s.tick(200), None);
    let b = s.tick(2600).unwrap();
    assert!(a.elapsed_ms <= b.elapsed_ms);
    assert_eq!(a.elapsed_ms, 1500);
    assert_eq!(b.elapsed_ms, 2600);
}

#[test]
fn close_ends_session() {
    let mut s = Session::new(&AudioConfig::default());
    s.open(0);
    s.close();
    assert_eq!(s.phase(), Phase::Closed);
    s.close();
    assert_eq!(s.phase(), Phase::Closed);
}

#[test]
fn stereo_device_down_mix() {
    let cfg = AudioConfig::default();
    let ranges = vec![range(2, SampleFormat::I16, 44100, 48000)];
    let choice = select_input(&ranges, &cfg).unwrap();
    assert_eq!(
        choice,
        StreamChoice { channels: 2, sample_rate: 48000, format: SampleFormat::I16 }
    );
    let mut cap = Capture::new(&cfg, choice.channels);
    let mut data: Vec<i16> = Vec::new();
    for _ in 0..480 {
        data.push(10000);
        data.push(-10000);
    }
    let frames = cap.push(&data);
    assert_eq!(frames.len(), 1);
    assert_eq!(frames[0].len(), 960);
    for s in decode_samples(&frames[0]) {
        assert!(s.abs() <= 1);
    }
}

#[test]
fn down_mix_rounds_toward_zero_and_keeps_partial_frame() {
    assert_eq!(mix_to_mono(&[3, 4, -3, -4, 7], 2), vec![3, -3, 3]);
    assert_eq!(mix_to_mono(&[i16::MAX, i16::MAX, i16::MIN, i16::MIN], 2), vec![i16::MAX, i16::MIN]);
    assert_eq!(mix_to_mono(&[5, -6, 7], 1), vec![5, -6, 7]);
    assert_eq!(mix_to_mono(&[1, 2, 3], 3), vec![2]);
    assert_eq!(mix_to_mono(&[], 2), Vec::<i16>::new());
}

#[test]
fn capture_frames_and_carries_remainder() {
    let cfg = AudioConfig::new(8000, 1, 4);
    let mut cap = Capture::new(&cfg, 1);
    assert!(cap.push(&[1, 2, 3]).is_empty());
    let frames = cap.push(&[4, 5, 6, 7, 8, 9, 10]);
    assert_eq!(frames, vec![frame_of(&[1, 2, 3, 4]), frame_of(&[5, 6, 7, 8])]);
    let frames = cap.push(&[11, 12]);
    assert_eq!(frames, vec![frame_of(&[9, 10, 11, 12])]);
}

#[test]
fn capture_frame_length_is_frame_size_times_channels_times_two() {
    let cfg = AudioConfig::new(48000, 2, 480);
    let mut cap = Capture::new(&cfg, 1);
    let frames = cap.push(&vec![7i16; 960 * 3 + 5]);
    assert_eq!(frames.len(), 3);
    for f in &frames {
        assert_eq!(f.len(), 480 * 2 * 2);
    }
}

#[test]
fn no_input_device_config() {
    let cfg = AudioConfig::default();
    assert_eq!(select_input(&vec![], &cfg), Err(EngineError::DeviceUnavailable));
    let only_float = vec![range(1, SampleFormat::F32, 8000, 48000), range(2, SampleFormat::F32, 8000, 48000)];
    assert_eq!(select_input(&only_float, &cfg), Err(EngineError::DeviceUnavailable));
}

#[test]
fn input_ladder_prefers_wire_channels() {
    let cfg = AudioConfig::default();
    let ranges = vec![
        range(2, SampleFormat::I16, 8000, 96000),
        range(1, SampleFormat::I16, 8000, 44100),
        range(1, SampleFormat::I16, 8000, 48000),
    ];
    assert_eq!(
        select_input(&ranges, &cfg),
        Ok(StreamChoice { channels: 1, sample_rate: 44100, format: SampleFormat::I16 })
    );
}

#[test]
fn output_ladder_order() {
    let cfg = AudioConfig::default();
    let f32_stereo = range(2, SampleFormat::F32, 8000, 48000);
    let f32_mono = range(1, SampleFormat::F32, 8000, 48000);
    let i16_stereo = range(2, SampleFormat::I16, 8000, 48000);
    let i16_mono = range(1, SampleFormat::I16, 8000, 48000);
    let all = vec![f32_stereo, f32_mono, i16_stereo, i16_mono];
    assert_eq!(select_output(&all, &cfg).unwrap().channels, 1);
    assert_eq!(select_output(&all, &cfg).unwrap().format, SampleFormat::I16);
    let no_i16_mono = vec![f32_stereo, f32_mono, i16_stereo];
    assert_eq!(
        select_output(&no_i16_mono, &cfg),
        Ok(StreamChoice { channels: 2, sample_rate: 48000, format: SampleFormat::I16 })
    );
    let floats = vec![f32_stereo, f32_mono];
    assert_eq!(
        select_output(&floats, &cfg),
        Ok(StreamChoice { channels: 1, sample_rate: 48000, format: SampleFormat::F32 })
    );
    let f32_only_stereo = vec![range(6, SampleFormat::I16, 8000, 48000), f32_stereo];
    assert_eq!(
        select_output(&f32_only_stereo, &cfg),
        Ok(StreamChoice { channels: 2, sample_rate: 48000, format: SampleFormat::F32 })
    );
}

#[test]
fn output_ladder_fallbacks_and_errors() {
    let cfg = AudioConfig::default();
    let six = vec![range(6, SampleFormat::I16, 8000, 22050), range(4, SampleFormat::F32, 8000, 48000)];
    assert_eq!(
        select_output(&six, &cfg),
        Ok(StreamChoice { channels: 6, sample_rate: 22050, format: SampleFormat::I16 })
    );
    let other = vec![range(1, SampleFormat::Other, 8000, 48000)];
    assert_eq!(select_output(&other, &cfg), Err(EngineError::ConfigUnsupported));
    assert_eq!(select_output(&vec![], &cfg), Err(EngineError::ConfigUnsupported));
}

#[test]
fn sample_rate_choice() {
    assert_eq!(choose_rate(&range(1, SampleFormat::I16, 8000, 96000), 48000), 48000);
    assert_eq!(choose_rate(&range(1, SampleFormat::I16, 8000, 44100), 48000), 44100);
    assert_eq!(choose_rate(&range(1, SampleFormat::I16, 88200, 96000), 48000), 96000);
    assert_eq!(choose_rate(&range(1, SampleFormat::I16, 48000, 48000), 48000), 48000);
}

#[test]
fn f32_output_up_mix() {
    let mut q = FrameQueue::new(QUEUE_CAPACITY);
    assert!(q.offer(frame_of(&vec![16384i16; 480])));
    let mut out = vec![1i16; 960];
    fill(&mut out, &mut q, 2);
    assert_eq!(q.len(), 0);
    for pair in out.chunks(2) {
        let l = pair[0] as f32 / 32768.0;
        let r = pair[1] as f32 / 32768.0;
        assert!((l - 0.5).abs() < 1e-4);
        assert!((r - 0.5).abs() < 1e-4);
    }
}

#[test]
fn playback_duplicates_each_sample_into_every_channel() {
    let mut q = FrameQueue::new(4);
    assert!(q.offer(frame_of(&[1, 2])));
    assert!(q.offer(frame_of(&[3, 4])));
    let mut out = vec![9i16; 9];
    fill(&mut out, &mut q, 3);
    assert_eq!(out, vec![1, 1, 1, 2, 2, 2, 3, 3, 3]);
    // the rest of the cut frame is not kept
    assert_eq!(q.len(), 0);
}

#[test]
fn playback_keeps_unused_frames() {
    let mut q = FrameQueue::new(4);
    assert!(q.offer(frame_of(&[1, 2])));
    assert!(q.offer(frame_of(&[3, 4])));
    let mut out = vec![0i16; 2];
    fill(&mut out, &mut q, 1);
    assert_eq!(out, vec![1, 2]);
    assert_eq!(q.len(), 1);
    assert_eq!(q.take(), Some(frame_of(&[3, 4])));
}

#[test]
fn starvation_plays_silence() {
    let mut q = FrameQueue::new(QUEUE_CAPACITY);
    let mut out = vec![123i16; 64];
    fill(&mut out, &mut q, 2);
    assert!(out.iter().all(|&s| s == 0));
    assert!(q.offer(frame_of(&[5, 6])));
    let mut out = vec![123i16; 6];
    fill(&mut out, &mut q, 1);
    assert_eq!(out, vec![5, 6, 0, 0, 0, 0]);
    let mut out = vec![123i16; 6];
    fill(&mut out, &mut q, 1);
    assert_eq!(out, vec![0; 6]);
}

#[test]
fn queue_drops_newest_when_full() {
    let mut q = FrameQueue::new(QUEUE_CAPACITY);
    let mut kept = 0;
    for i in 0..100u8 {
        if q.offer(vec![i]) {
            kept += 1;
        }
    }
    assert_eq!(kept, 64);
    assert_eq!(q.len(), 64);
    assert!(q.is_full());
    assert_eq!(q.capacity(), 64);
    for i in 0..64u8 {
        assert_eq!(q.take(), Some(vec![i]));
    }
    assert_eq!(q.take(), None);
}

#[test]
fn restart_after_stop() {
    let mut c = Controller::new();
    assert!(c.request_start());
    c.startup_finished(true);
    assert_eq!(c.state(), EngineState::Running);
    assert!(!c.request_start());
    assert_eq!(c.state(), EngineState::Running);
    assert!(c.request_stop());
    assert_eq!(c.state(), EngineState::Terminating);
    assert!(!c.request_stop());
    c.worker_exited();
    assert_eq!(c.state(), EngineState::Idle);
    assert!(!c.request_stop());
    assert!(c.request_start());
    c.startup_finished(true);
    assert_eq!(c.state(), EngineState::Running);
}

#[test]
fn failed_startup_returns_to_idle() {
    let mut c = Controller::new();
    assert!(c.request_start());
    c.startup_finished(false);
    assert_eq!(c.state(), EngineState::Idle);
}

#[test]
fn roundtrip_echo_through_library() {
    // two seconds of a tone, captured, sent, echoed back and played
    let cfg = AudioConfig::default();
    let mut cap = Capture::new(&cfg, 1);
    let mut session = Session::new(&cfg);
    session.open(0);
    let mut inbound = FrameQueue::new(QUEUE_CAPACITY);
    let mut sent_samples: Vec<i16> = Vec::new();
    let mut played: Vec<i16> = Vec::new();
    let mut stats: Vec<StatsMessage> = Vec::new();
    for block in 0..200u64 {
        let mut data: Vec<i16> = Vec::new();
        for i in 0..480u64 {
            let t = block * 480 + i;
            let v: i16 = if (t / 24) % 2 == 0 { 8000 } else { -8000 };
            data.push(v);
        }
        sent_samples.extend_from_slice(&data);
        for frame in cap.push(&data) {
            assert!(session.outbound(&frame));
            if inbound_playable(&cfg, &frame) {
                assert!(inbound.offer(frame));
            }
        }
        let mut out = vec![0i16; 480];
        fill(&mut out, &mut inbound, 1);
        played.extend_from_slice(&out);
        if let Some(m) = session.tick((block + 1) * 10) {
            stats.push(m);
        }
    }
    assert_eq!(session.frames_sent(), 200);
    assert_eq!(played, sent_samples);
    assert_eq!(stats.len(), 2);
    assert_eq!(stats[1].frames, 200);
}
