use hippo_core::audio::{
    choose_output_device, DeviceChoice, EventReply, HippoAudio, HippoMessage, OutputDeviceInfo,
    DEFAULT_DEVICE_NAME,
};
use hippo_core::callback::DataCallback;
use hippo_core::playback::{HippoPlayback, WRITE_STREAM_CAPACITY};

fn device(name: &str, min_ch: u32, max_ch: u32, min_rate: u32, max_rate: u32) -> OutputDeviceInfo {
    OutputDeviceInfo {
        name: name.to_string(),
        min_channels: min_ch,
        max_channels: max_ch,
        min_sample_rate: min_rate,
        max_sample_rate: max_rate,
    }
}

fn devices() -> Vec<OutputDeviceInfo> {
    vec![
        device("Speakers", 1, 2, 44100, 48000),
        device("Headphones", 2, 2, 22050, 96000),
        device("Speakers", 1, 8, 8000, 192000),
    ]
}

#[test]
fn new_output_uses_the_default_device() {
    let audio: HippoAudio<u32, u8> = HippoAudio::new();
    assert_eq!(audio.device_name, DEFAULT_DEVICE_NAME);
    assert_eq!(audio.device_name, "Default Sound Device");
    assert!(audio.output_device.is_none());
    assert!(audio.output_devices.is_none());
    assert!(audio.playbacks.is_empty());
    assert!(!audio.can_start());
}

#[test]
fn default_name_chooses_the_default_device() {
    assert!(matches!(choose_output_device(&devices(), "Default Sound Device"), DeviceChoice::Default));
}

#[test]
fn first_device_of_a_name_is_chosen() {
    assert!(matches!(choose_output_device(&devices(), "Speakers"), DeviceChoice::Device(0)));
    assert!(matches!(choose_output_device(&devices(), "Headphones"), DeviceChoice::Device(1)));
}

#[test]
fn unknown_name_keeps_the_device() {
    assert!(matches!(choose_output_device(&devices(), "HDMI"), DeviceChoice::Unchanged));
    assert!(matches!(choose_output_device(&devices(), "speakers"), DeviceChoice::Unchanged));
    assert!(matches!(choose_output_device(&Vec::new(), "Speakers"), DeviceChoice::Unchanged));
}

#[test]
fn init_device_looks_in_the_enumerated_devices() {
    let mut audio: HippoAudio<u32, u8> = HippoAudio::new();
    audio.set_output_devices(devices());
    assert!(matches!(audio.init_device("Headphones"), DeviceChoice::Device(1)));
    assert!(matches!(audio.init_device(DEFAULT_DEVICE_NAME), DeviceChoice::Default));
}

#[test]
fn no_reply_before_enumeration() {
    let audio: HippoAudio<u32, u8> = HippoAudio::new();
    assert!(audio.replay_output_devices().is_none());
}

#[test]
fn reply_lists_every_device() {
    let mut audio: HippoAudio<u32, u8> = HippoAudio::new();
    audio.set_output_devices(devices());
    let reply = audio.replay_output_devices().unwrap();
    assert_eq!(reply.current_device, "Default Sound Device");
    assert_eq!(reply.devices.len(), 3);
    let names: Vec<&str> = reply.devices.iter().map(|d| d.name.as_str()).collect();
    assert_eq!(names, ["Speakers", "Headphones", "Speakers"]);
    assert_eq!(reply.devices[1].min_channels, 2);
    assert_eq!(reply.devices[2].max_channels, 8);
    assert_eq!(reply.devices[0].min_sample_rate, 44100);
}

#[test]
fn reply_gives_max_channels_as_max_sample_rate() {
    let mut audio: HippoAudio<u32, u8> = HippoAudio::new();
    audio.set_output_devices(devices());
    let reply = audio.replay_output_devices().unwrap();
    assert_eq!(reply.devices[0].max_sample_rate, 2);
    assert_eq!(reply.devices[2].max_sample_rate, 8);
}

#[test]
fn reply_wraps_large_values() {
    let mut audio: HippoAudio<u32, u8> = HippoAudio::new();
    audio.set_output_devices(vec![device("Odd", u32::MAX, 3_000_000_000, 7, 7)]);
    let reply = audio.replay_output_devices().unwrap();
    assert_eq!(reply.devices[0].min_channels, -1);
    assert_eq!(reply.devices[0].max_channels, 3_000_000_000u32 as i32);
}

#[test]
fn selecting_a_device_records_its_name_on_success() {
    let mut audio: HippoAudio<u32, u8> = HippoAudio::new();
    assert_eq!(audio.select_output_device::<String>("Headphones", Ok(())), Ok(()));
    assert_eq!(audio.device_name, "Headphones");
}

#[test]
fn failed_selection_keeps_the_name() {
    let mut audio: HippoAudio<u32, u8> = HippoAudio::new();
    let r = audio.select_output_device("Headphones", Err("busy".to_string()));
    assert_eq!(r, Err("busy".to_string()));
    assert_eq!(audio.device_name, "Default Sound Device");
}

#[test]
fn closing_takes_the_device_out() {
    let mut audio: HippoAudio<u32, u8> = HippoAudio::new();
    assert_eq!(audio.close_device(), None);
    audio.set_output_device(5);
    assert_eq!(audio.close_device(), Some(5));
    assert!(audio.output_device.is_none());
}

#[test]
fn start_needs_an_open_and_enumerated_device() {
    let mut audio: HippoAudio<u32, u8> = HippoAudio::new();
    let mut cb: DataCallback<u32> = DataCallback::new(8);
    let started = HippoPlayback::start_with_file(&3, 99, 0);
    assert!(!audio.start_with_file(&mut cb, started));
    assert!(cb.players().is_empty());
    assert!(audio.playbacks.is_empty());

    audio.set_output_devices(devices());
    assert!(!audio.can_start());
    audio.set_output_device(1);
    assert!(audio.can_start());
    let started = HippoPlayback::start_with_file(&3, 99, 0);
    assert!(audio.start_with_file(&mut cb, started));
    assert_eq!(cb.players().len(), 1);
    assert_eq!(cb.players()[0].plugin_user_data, 99);
    assert_eq!(audio.playbacks.len(), 1);
    assert_eq!(audio.playbacks[0].plugin_user_data, 99);
}

#[test]
fn failed_open_starts_nothing() {
    let mut audio: HippoAudio<u32, u8> = HippoAudio::new();
    let mut cb: DataCallback<u32> = DataCallback::new(8);
    audio.set_output_devices(devices());
    audio.set_output_device(1);
    let started = HippoPlayback::start_with_file(&3, 99, -1);
    assert!(started.is_none());
    assert!(!audio.start_with_file(&mut cb, started));
    assert!(cb.players().is_empty());
}

#[test]
fn second_start_replaces_the_running_playback() {
    let mut audio: HippoAudio<u32, u8> = HippoAudio::new();
    let mut cb: DataCallback<u32> = DataCallback::new(8);
    audio.set_output_devices(devices());
    audio.set_output_device(1);
    assert!(audio.start_with_file(&mut cb, HippoPlayback::start_with_file(&3, 1, 0)));
    assert!(audio.start_with_file(&mut cb, HippoPlayback::start_with_file(&4, 2, 5)));
    assert_eq!(cb.players().len(), 1);
    assert_eq!(cb.players()[0].plugin_user_data, 2);
    assert_eq!(cb.players()[0].plugin, 4);
    assert_eq!(audio.playbacks.len(), 2);
}

#[test]
fn started_playback_gets_an_empty_write_stream() {
    let (playback, instance) = HippoPlayback::start_with_file(&3u32, 42, 0).unwrap();
    assert_eq!(playback.plugin_user_data, 42);
    assert!(!playback.is_paused);
    assert_eq!(playback.plugin, 3);
    assert_eq!(instance.plugin, 3);
    assert_eq!(instance.plugin_user_data, 42);
    assert_eq!(instance.write_stream.capacity(), WRITE_STREAM_CAPACITY);
    assert_eq!(instance.write_stream.capacity(), 256);
    assert!(instance.write_stream.is_empty());
}

#[test]
fn stop_clears_every_playback() {
    let mut audio: HippoAudio<u32, u8> = HippoAudio::new();
    let mut cb: DataCallback<u32> = DataCallback::new(8);
    audio.set_output_devices(devices());
    audio.set_output_device(1);
    assert!(audio.start_with_file(&mut cb, HippoPlayback::start_with_file(&3, 1, 0)));
    audio.stop(&mut cb);
    assert!(cb.players().is_empty());
    assert!(audio.playbacks.is_empty());
    assert!(audio.output_device.is_some());
}

#[test]
fn pause_request_reaches_the_running_playback() {
    let mut audio: HippoAudio<u32, u8> = HippoAudio::new();
    let mut cb: DataCallback<u32> = DataCallback::new(8);
    audio.set_output_devices(devices());
    audio.set_output_device(1);
    assert!(audio.start_with_file(&mut cb, HippoPlayback::start_with_file(&3, 1, 0)));
    let reply = audio.event(&mut cb, &HippoMessage::RequestSelectSong { pause: true, force: false });
    assert!(matches!(reply, EventReply::Nothing));
    assert!(cb.active_playback().is_none());
    audio.request_select_song(&mut cb, true, true);
    assert!(cb.active_playback().is_some());
}

#[test]
fn device_request_is_answered() {
    let mut audio: HippoAudio<u32, u8> = HippoAudio::new();
    let mut cb: DataCallback<u32> = DataCallback::new(8);
    assert!(matches!(audio.event(&mut cb, &HippoMessage::RequestOutputDevices), EventReply::Nothing));
    audio.set_output_devices(devices());
    match audio.event(&mut cb, &HippoMessage::RequestOutputDevices) {
        EventReply::OutputDevices(reply) => assert_eq!(reply.devices.len(), 3),
        _ => panic!("expected a device list"),
    }
}

#[test]
fn device_switch_is_handed_back() {
    let mut audio: HippoAudio<u32, u8> = HippoAudio::new();
    let mut cb: DataCallback<u32> = DataCallback::new(8);
    let msg = HippoMessage::SelectOutputDevice { name: "Headphones".to_string() };
    match audio.event(&mut cb, &msg) {
        EventReply::SelectOutputDevice(name) => assert_eq!(name, "Headphones"),
        _ => panic!("expected a device switch"),
    }
    assert_eq!(audio.device_name, "Default Sound Device");
    assert!(matches!(audio.event(&mut cb, &HippoMessage::Other), EventReply::Nothing));
}
