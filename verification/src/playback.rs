//! A running playback: the decoder plugin that produces its samples, the
//! plugin's handle for it, and the stream of messages queued for it.

use vstd::prelude::*;
use ringbuf::{Producer, RingBuffer};

verus! {

#[verifier::external_type_specification]
#[verifier::external_body]
#[verifier::reject_recursive_types(T)]
pub struct ExProducer<T>(Producer<T>);

/// The messages waiting in a write stream, oldest first.
pub uninterp spec fn write_stream_contents(stream: Producer<Box<[u8]>>) -> Seq<Seq<u8>>;

/// The number of messages a write stream holds at most.
pub uninterp spec fn write_stream_capacity(stream: Producer<Box<[u8]>>) -> nat;

/// The number of messages that a playback's write stream can hold.
pub const WRITE_STREAM_CAPACITY: usize = 256;

/// Creates a ring buffer of `capacity` messages with `ringbuf::RingBuffer::new`
/// and keeps its producer half (`RingBuffer::split`).  The source shows a new
/// buffer holding no item, whose `capacity()` is the capacity it was made with.
#[verifier::external_body]
fn new_write_stream(capacity: usize) -> (stream: Producer<Box<[u8]>>)
    requires
        capacity < usize::MAX,
    ensures
        write_stream_capacity(stream) == capacity,
        write_stream_contents(stream) == Seq::<Seq<u8>>::empty(),
{
    RingBuffer::<Box<[u8]>>::new(capacity).split().0
}

/// A playback as the audio callback sees it.
#[derive(Clone)]
pub struct HippoPlayback<P> {
    /// The decoder plugin's handle for this playback.
    pub plugin_user_data: u64,
    /// The decoder plugin.
    pub plugin: P,
    /// A paused playback produces no samples.
    pub is_paused: bool,
}

/// A playback as the rest of the player sees it.
pub struct Instance<P> {
    /// The decoder plugin's handle for this playback.
    pub plugin_user_data: u64,
    /// The decoder plugin.
    pub plugin: P,
    /// Messages for the decoder.
    pub write_stream: Producer<Box<[u8]>>,
}

impl<P: Clone> HippoPlayback<P> {
    /// Builds the two views of a playback once the decoder plugin has made a
    /// handle for it (`plugin_user_data`) and tried to open the song
    /// (`open_state`, negative when it failed).  A failed open starts nothing.
    pub fn start_with_file(plugin: &P, plugin_user_data: u64, open_state: i32) -> (r: Option<
        (HippoPlayback<P>, Instance<P>),
    >)
        ensures
            r is Some <==> open_state >= 0,
            r matches Some((playback, instance)) ==> {
                &&& playback.plugin_user_data == plugin_user_data
                &&& !playback.is_paused
                &&& cloned(*plugin, playback.plugin)
                &&& instance.plugin_user_data == plugin_user_data
                &&& cloned(*plugin, instance.plugin)
                &&& write_stream_capacity(instance.write_stream) == WRITE_STREAM_CAPACITY
                &&& write_stream_contents(instance.write_stream) == Seq::<Seq<u8>>::empty()
            },
    {
        if open_state < 0 {
            return None;
        }
        let write_stream = new_write_stream(WRITE_STREAM_CAPACITY);
        let playback = HippoPlayback {
            plugin_user_data,
            plugin: plugin.clone(),
            is_paused: false,
        };
        let instance = Instance { plugin_user_data, plugin: plugin.clone(), write_stream };
        Some((playback, instance))
    }
}

} // verus!
