use oxygen::clip::AudioClip;
use oxygen::clip::Timestamp;
use oxygen::error::AudioError;
use oxygen::format::SampleKind;
use oxygen::format::SampleRepresentation;
use oxygen::session::DeviceConfig;
use oxygen::session::DeviceProbe;
use oxygen::session::Direction;
use oxygen::session::Session;
use oxygen::session::StreamShape;

fn stereo_i16() -> DeviceConfig {
    DeviceConfig { sample_rate: 48000, channels: 2, kind: SampleKind::Signed, bits: 16 }
}

#[test]
fn missing_device_is_unavailable() {
    assert_eq!(
        Session::open(Direction::Capture, DeviceProbe::Missing).err(),
        Some(AudioError::DeviceUnavailable)
    );
    assert_eq!(
        Session::open(Direction::Playback, DeviceProbe::Missing).err(),
        Some(AudioError::DeviceUnavailable)
    );
}

#[test]
fn device_without_configuration_is_a_configuration_error() {
    assert_eq!(
        Session::open(Direction::Capture, DeviceProbe::Unconfigured).err(),
        Some(AudioError::ConfigurationError)
    );
}

#[test]
fn configuration_without_channels_or_rate_is_a_configuration_error() {
    let mut config = stereo_i16();
    config.channels = 0;
    assert_eq!(
        Session::open(Direction::Capture, DeviceProbe::Ready(config)).err(),
        Some(AudioError::ConfigurationError)
    );
    let mut config = stereo_i16();
    config.sample_rate = 0;
    assert_eq!(
        Session::open(Direction::Playback, DeviceProbe::Ready(config)).err(),
        Some(AudioError::ConfigurationError)
    );
}

#[test]
fn open_session_takes_the_native_configuration() {
    let session = Session::open(Direction::Capture, DeviceProbe::Ready(stereo_i16())).ok().unwrap();
    assert_eq!(
        session.describe(),
        StreamShape {
            direction: Direction::Capture,
            sample_rate: 48000,
            channels: 2,
            representation: SampleRepresentation::Int16,
        }
    );
    let exotic = DeviceConfig { sample_rate: 44100, channels: 1, kind: SampleKind::Signed, bits: 24 };
    let session = Session::open(Direction::Playback, DeviceProbe::Ready(exotic)).ok().unwrap();
    assert_eq!(session.describe().representation, SampleRepresentation::Float32);
    assert_eq!(session.describe().direction, Direction::Playback);
}

#[test]
fn capture_session_fills_a_clip_at_the_device_rate() {
    let session = Session::open(Direction::Capture, DeviceProbe::Ready(stereo_i16())).ok().unwrap();
    let stamp = Timestamp { secs: 10, nanos: 0 };
    let mut slot = Some(session.new_clip(String::from("memo"), stamp));
    session.capture(&[1, 2, 3, 4], &mut slot);
    session.capture(&[5, 6], &mut slot);
    let clip = slot.unwrap();
    assert_eq!(clip.sample_rate, 48000);
    assert_eq!(clip.samples, vec![1, 3, 5]);
    assert_eq!(clip.id, None);
}

#[test]
fn playback_session_renders_to_every_channel() {
    let session = Session::open(Direction::Playback, DeviceProbe::Ready(stereo_i16())).ok().unwrap();
    let stamp = Timestamp { secs: 10, nanos: 0 };
    let mut slot = Some(AudioClip::from_stored(1, String::from("a"), stamp, 48000, vec![8, 9]));
    let mut period = [77u32; 6];
    session.render(&mut period, &mut slot);
    assert_eq!(period, [8, 8, 9, 9, 0, 0]);
    assert_eq!(slot.unwrap().playback_position, 2);
    let mut empty: Option<AudioClip> = None;
    let mut period = [77u32; 2];
    session.render(&mut period, &mut empty);
    assert_eq!(period, [0, 0]);
}
