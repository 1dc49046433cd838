//! The player's audio output: which output device is in use, which devices
//! there are, the playbacks that were started, and the handling of the
//! requests that reach it.
//!
//! Opening, starting and closing a device, enumerating the devices and
//! decoding are done by the caller; this module decides what is done and
//! keeps the books.  `D` is the type of an open output device and `P` that
//! of a decoder plugin.

use vstd::prelude::*;
use vstd::string::StringSliceAdditionalSpecFns;
use crate::callback::{DataCallback, after_pause_request};
use crate::playback::{HippoPlayback, Instance};

verus! {

broadcast use vstd::utf8::encode_utf8_decode_utf8;

/// Name under which the system's default output device is selected.
pub const DEFAULT_DEVICE_NAME: &'static str = "Default Sound Device";

/// What the player knows of an output device.
pub struct OutputDeviceInfo {
    pub name: String,
    pub min_channels: u32,
    pub max_channels: u32,
    pub min_sample_rate: u32,
    pub max_sample_rate: u32,
}

/// One device in the reply to a request for the output devices.
pub struct OutputDeviceEntry {
    pub name: String,
    pub min_channels: i32,
    pub max_channels: i32,
    pub min_sample_rate: i32,
    pub max_sample_rate: i32,
}

/// The reply to a request for the output devices.
pub struct OutputDevicesReply {
    /// Name of the device in use.
    pub current_device: String,
    /// The devices, in the order in which they were enumerated.
    pub devices: Vec<OutputDeviceEntry>,
}

/// The entry that describes `info` in a reply.  The maximal sample rate
/// that the reply gives is the device's maximal channel count.
pub open spec fn device_entry(info: OutputDeviceInfo) -> OutputDeviceEntry {
    OutputDeviceEntry {
        name: info.name,
        min_channels: info.min_channels as i32,
        max_channels: info.max_channels as i32,
        min_sample_rate: info.min_sample_rate as i32,
        max_sample_rate: info.max_channels as i32,
    }
}

/// Which output device a request for a device name leads to.
pub enum DeviceChoice {
    /// The system's default device.
    Default,
    /// The enumerated device at this position.
    Device(usize),
    /// No device has that name: the device in use stays.
    Unchanged,
}

/// A request that reaches the audio output.
pub enum HippoMessage {
    /// Pause or resume the running playback.
    RequestSelectSong { pause: bool, force: bool },
    /// Ask for the output devices.
    RequestOutputDevices,
    /// Switch to the output device of this name.
    SelectOutputDevice { name: String },
    /// Any other request.
    Other,
}

/// What handling a request leads to.
pub enum EventReply {
    /// Nothing to send and nothing to do.
    Nothing,
    /// Send this reply.
    OutputDevices(OutputDevicesReply),
    /// Switch the output to the device of this name
    /// ([`HippoAudio::select_output_device`] once the device is open).
    SelectOutputDevice(String),
}

/// `name` is the name of the system's default device.
pub open spec fn is_default_device_name(name: Seq<char>) -> bool {
    name == DEFAULT_DEVICE_NAME@
}

/// `i` is the first position in `devices` of a device called `name`.
pub open spec fn is_first_named(devices: Seq<OutputDeviceInfo>, name: Seq<char>, i: int) -> bool {
    &&& 0 <= i < devices.len()
    &&& devices[i].name@ == name
    &&& forall|j: int| 0 <= j < i ==> devices[j].name@ != name
}

/// Whether two texts are equal.
fn same_text(a: &str, b: &str) -> (r: bool)
    ensures
        r == (a@ == b@),
{
    let x = a.as_bytes();
    let y = b.as_bytes();
    if x.len() != y.len() {
        return false;
    }
    let mut i: usize = 0;
    while i < x.len()
        invariant
            i <= x@.len(),
            x@.len() == y@.len(),
            x@ == a.spec_bytes(),
            y@ == b.spec_bytes(),
            forall|j: int| 0 <= j < i ==> x@[j] == y@[j],
        decreases x@.len() - i,
    {
        if x[i] != y[i] {
            return false;
        }
        i = i + 1;
    }
    assert(x@ =~= y@);
    assert(vstd::utf8::decode_utf8(a.spec_bytes()) == a@);
    assert(vstd::utf8::decode_utf8(b.spec_bytes()) == b@);
    true
}

/// The output device that a request for `playback_device` selects among
/// `devices`: the default device for [`DEFAULT_DEVICE_NAME`], else the first
/// device of that name.
pub fn choose_output_device(devices: &Vec<OutputDeviceInfo>, playback_device: &str) -> (r:
    DeviceChoice)
    ensures
        r is Default <==> is_default_device_name(playback_device@),
        r matches DeviceChoice::Device(i) ==> is_first_named(devices@, playback_device@, i as int),
        r matches DeviceChoice::Device(i) ==> {
            &&& i < devices@.len()
            &&& devices@[i as int].name@ == playback_device@
            &&& forall|j: int| 0 <= j < i ==> devices@[j].name@ != playback_device@
            &&& playback_device@ != DEFAULT_DEVICE_NAME@
        },
        r is Unchanged <==> !is_default_device_name(playback_device@) && forall|j: int|
            0 <= j < devices@.len() ==> devices@[j].name@ != playback_device@,
{
    if same_text(playback_device, DEFAULT_DEVICE_NAME) {
        return DeviceChoice::Default;
    }
    let mut i: usize = 0;
    while i < devices.len()
        invariant
            i <= devices@.len(),
            !is_default_device_name(playback_device@),
            forall|j: int| 0 <= j < i ==> devices@[j].name@ != playback_device@,
        decreases devices@.len() - i,
    {
        if same_text(devices[i].name.as_str(), playback_device) {
            return DeviceChoice::Device(i);
        }
        i = i + 1;
    }
    DeviceChoice::Unchanged
}

/// The audio output of the player.
pub struct HippoAudio<P, D> {
    /// Name of the output device in use.
    pub device_name: String,
    /// The open output device, if any.
    pub output_device: Option<D>,
    /// The output devices, once enumerated.
    pub output_devices: Option<Vec<OutputDeviceInfo>>,
    /// The playbacks that were started.
    pub playbacks: Vec<Instance<P>>,
}

impl<P, D> HippoAudio<P, D> {
    /// An output on the default device, with no device open yet, no device
    /// enumerated and no playback.
    pub fn new() -> (r: Self)
        ensures
            r.device_name@ == DEFAULT_DEVICE_NAME@,
            r.output_device is None,
            r.output_devices is None,
            r.playbacks@.len() == 0,
    {
        HippoAudio {
            device_name: DEFAULT_DEVICE_NAME.to_owned(),
            output_device: None,
            output_devices: None,
            playbacks: Vec::new(),
        }
    }

    /// Stops every playback: none runs and none is kept.
    pub fn stop(&mut self, callback: &mut DataCallback<P>)
        ensures
            final(callback).player_list() == Seq::<HippoPlayback<P>>::empty(),
            final(callback).read_pos() == old(callback).read_pos(),
            final(callback).decoded_len() == old(callback).decoded_len(),
            final(callback).buffer_len() == old(callback).buffer_len(),
            final(self).playbacks@.len() == 0,
            final(self).device_name == old(self).device_name,
            final(self).output_device == old(self).output_device,
            final(self).output_devices == old(self).output_devices,
    {
        callback.clear_players();
        self.playbacks.clear();
    }

    /// Records the switch to the output device `name` once opening it gave
    /// `opened`: on success `name` becomes the device in use; an error is
    /// handed back and changes nothing.
    pub fn select_output_device<E>(&mut self, name: &str, opened: Result<(), E>) -> (r: Result<
        (),
        E,
    >)
        ensures
            r == opened,
            opened is Ok ==> final(self).device_name@ == name@,
            opened is Err ==> final(self).device_name == old(self).device_name,
            final(self).output_device == old(self).output_device,
            final(self).output_devices == old(self).output_devices,
            final(self).playbacks == old(self).playbacks,
    {
        if opened.is_ok() {
            self.device_name = name.to_owned();
        }
        opened
    }

    /// The reply to a request for the output devices: the device in use and
    /// every enumerated device; nothing while the devices are not enumerated.
    pub fn replay_output_devices(&self) -> (r: Option<OutputDevicesReply>)
        ensures
            r is Some <==> self.output_devices is Some,
            r matches Some(reply) ==> {
                &&& reply.current_device == self.device_name
                &&& reply.devices@.len() == self.output_devices->0@.len()
                &&& forall|i: int|
                    0 <= i < reply.devices@.len() ==> reply.devices@[i] == device_entry(
                        self.output_devices->0@[i],
                    )
                &&& forall|i: int|
                    #![trigger reply.devices@[i]]
                    0 <= i < reply.devices@.len() ==> {
                        let info = self.output_devices->0@[i];
                        let entry = reply.devices@[i];
                        &&& entry.name == info.name
                        &&& entry.min_channels == info.min_channels as i32
                        &&& entry.max_channels == info.max_channels as i32
                        &&& entry.min_sample_rate == info.min_sample_rate as i32
                        &&& entry.max_sample_rate == info.max_channels as i32
                    }
            },
    {
        match &self.output_devices {
            None => None,
            Some(devices) => {
                let mut entries: Vec<OutputDeviceEntry> = Vec::new();
                let mut i: usize = 0;
                while i < devices.len()
                    invariant
                        i <= devices@.len(),
                        entries@.len() == i,
                        forall|j: int|
                            0 <= j < i ==> entries@[j] == device_entry(#[trigger] devices@[j]),
                    decreases devices@.len() - i,
                {
                    let dev = &devices[i];
                    entries.push(
                        OutputDeviceEntry {
                            name: dev.name.clone(),
                            min_channels: dev.min_channels as i32,
                            max_channels: dev.max_channels as i32,
                            min_sample_rate: dev.min_sample_rate as i32,
                            max_sample_rate: dev.max_channels as i32,
                        },
                    );
                    i = i + 1;
                }
                Some(OutputDevicesReply { current_device: self.device_name.clone(), devices: entries })
            },
        }
    }

    /// Pauses or resumes the running playback; `force` resumes it whatever
    /// `pause` says.
    pub fn request_select_song(&self, callback: &mut DataCallback<P>, pause: bool, force: bool)
        ensures
            final(callback).player_list() == after_pause_request(
                old(callback).player_list(),
                pause,
                force,
            ),
            final(callback).player_list().len() == old(callback).player_list().len(),
            old(callback).player_list().len() == 1 ==> {
                &&& final(callback).player_list()[0].is_paused == (pause && !force)
                &&& final(callback).player_list()[0].plugin_user_data == old(
                    callback,
                ).player_list()[0].plugin_user_data
                &&& final(callback).player_list()[0].plugin == old(callback).player_list()[0].plugin
            },
            old(callback).player_list().len() != 1 ==> final(callback).player_list() == old(
                callback,
            ).player_list(),
            final(callback).read_pos() == old(callback).read_pos(),
            final(callback).decoded_len() == old(callback).decoded_len(),
            final(callback).buffer_len() == old(callback).buffer_len(),
    {
        callback.set_paused(pause, force);
    }

    /// Handles a request: a pause request changes the running playback, a
    /// request for the output devices is answered, a request to switch the
    /// device is handed back to be carried out, and anything else is ignored.
    pub fn event(&mut self, callback: &mut DataCallback<P>, msg: &HippoMessage) -> (r: EventReply)
        ensures
            match *msg {
                HippoMessage::RequestSelectSong { pause, force } => {
                    &&& r is Nothing
                    &&& final(callback).player_list() == after_pause_request(
                        old(callback).player_list(),
                        pause,
                        force,
                    )
                },
                HippoMessage::RequestOutputDevices => {
                    &&& (r is OutputDevices <==> old(self).output_devices is Some)
                    &&& (r is Nothing <==> old(self).output_devices is None)
                    &&& r matches EventReply::OutputDevices(reply) ==> {
                        &&& reply.current_device == old(self).device_name
                        &&& reply.devices@.len() == old(self).output_devices->0@.len()
                        &&& forall|i: int|
                            0 <= i < reply.devices@.len() ==> reply.devices@[i] == device_entry(
                                old(self).output_devices->0@[i],
                            )
                    }
                    &&& final(callback).player_list() == old(callback).player_list()
                },
                HippoMessage::SelectOutputDevice { name } => {
                    &&& r matches EventReply::SelectOutputDevice(n) && n@ == name@
                    &&& final(callback).player_list() == old(callback).player_list()
                },
                HippoMessage::Other => {
                    &&& r is Nothing
                    &&& final(callback).player_list() == old(callback).player_list()
                },
            },
            *final(self) == *old(self),
            final(callback).read_pos() == old(callback).read_pos(),
            final(callback).decoded_len() == old(callback).decoded_len(),
            final(callback).buffer_len() == old(callback).buffer_len(),
    {
        match msg {
            HippoMessage::RequestSelectSong { pause, force } => {
                self.request_select_song(callback, *pause, *force);
                EventReply::Nothing
            },
            HippoMessage::RequestOutputDevices => match self.replay_output_devices() {
                Some(reply) => EventReply::OutputDevices(reply),
                None => EventReply::Nothing,
            },
            HippoMessage::SelectOutputDevice { name } => EventReply::SelectOutputDevice(
                name.clone(),
            ),
            HippoMessage::Other => EventReply::Nothing,
        }
    }

    /// Records the enumerated output devices.
    pub fn set_output_devices(&mut self, devices: Vec<OutputDeviceInfo>)
        ensures
            final(self).output_devices == Some(devices),
            final(self).device_name == old(self).device_name,
            final(self).output_device == old(self).output_device,
            final(self).playbacks == old(self).playbacks,
    {
        self.output_devices = Some(devices);
    }

    /// Takes out the open output device, to be closed; none is open after.
    pub fn close_device(&mut self) -> (r: Option<D>)
        ensures
            r == old(self).output_device,
            final(self).output_device is None,
            final(self).device_name == old(self).device_name,
            final(self).output_devices == old(self).output_devices,
            final(self).playbacks == old(self).playbacks,
    {
        let mut device = None;
        std::mem::swap(&mut device, &mut self.output_device);
        device
    }

    /// Records `device` as the open output device.
    pub fn set_output_device(&mut self, device: D)
        ensures
            final(self).output_device == Some(device),
            final(self).device_name == old(self).device_name,
            final(self).output_devices == old(self).output_devices,
            final(self).playbacks == old(self).playbacks,
    {
        self.output_device = Some(device);
    }

    /// Which device a request to switch to `playback_device` opens, once the
    /// devices are enumerated.
    pub fn init_device(&self, playback_device: &str) -> (r: DeviceChoice)
        requires
            self.output_devices is Some,
        ensures
            r is Default <==> is_default_device_name(playback_device@),
            r matches DeviceChoice::Device(i) ==> is_first_named(
                self.output_devices->0@,
                playback_device@,
                i as int,
            ),
            r is Unchanged <==> !is_default_device_name(playback_device@) && forall|j: int|
                0 <= j < self.output_devices->0@.len() ==> self.output_devices->0@[j].name@
                    != playback_device@,
    {
        match &self.output_devices {
            Some(devices) => choose_output_device(devices, playback_device),
            None => DeviceChoice::Unchanged,
        }
    }

    /// Whether a playback can start: a device is open and the devices are
    /// enumerated.
    pub fn can_start(&self) -> (r: bool)
        ensures
            r == (self.output_device is Some && self.output_devices is Some),
    {
        self.output_device.is_some() && self.output_devices.is_some()
    }

    /// Puts a started playback (see [`HippoPlayback::start_with_file`]) in
    /// place: its callback view becomes the one running playback and its
    /// other view is kept.  Nothing changes, and the result is false, where
    /// no device is ready or the playback did not start.
    pub fn start_with_file(
        &mut self,
        callback: &mut DataCallback<P>,
        started: Option<(HippoPlayback<P>, Instance<P>)>,
    ) -> (r: bool)
        ensures
            r == (old(self).can_start_spec() && started is Some),
            r == (old(self).output_device is Some && old(self).output_devices is Some
                && started is Some),
            r ==> final(callback).player_list() == seq![started.unwrap().0],
            r ==> final(self).playbacks@ == old(self).playbacks@.push(started.unwrap().1),
            !r ==> final(callback).player_list() == old(callback).player_list(),
            !r ==> final(self).playbacks == old(self).playbacks,
            final(callback).read_pos() == old(callback).read_pos(),
            final(callback).decoded_len() == old(callback).decoded_len(),
            final(callback).buffer_len() == old(callback).buffer_len(),
            final(self).device_name == old(self).device_name,
            final(self).output_device == old(self).output_device,
            final(self).output_devices == old(self).output_devices,
    {
        if !self.can_start() {
            return false;
        }
        match started {
            Some((playback, instance)) => {
                callback.install_playback(playback);
                self.playbacks.push(instance);
                true
            },
            None => false,
        }
    }

    /// A playback can start: a device is open and the devices are enumerated.
    pub open spec fn can_start_spec(&self) -> bool {
        self.output_device is Some && self.output_devices is Some
    }
}

} // verus!
