//! The mixing hub: a composite node that owns one video mixer, one audio
//! mixer and one fan-out stage per media type, and exposes dynamically
//! requestable input and output ports.
//!
//! Every exposed port is backed by an internal chain: a buffer queue plus a
//! request pad on the mixer (for inputs) or on the fan-out (for outputs).
//! The exposed-pad table is the single source of truth for teardown, and the
//! per-(media type, direction) counters are monotone for the hub's lifetime:
//! an identifier is never reused, even after its port is released.

use vstd::prelude::*;
use crate::error::DkcError;
use crate::media::{Direction, MediaType, ParamValue};
use crate::names::{port_name, port_name_seq, str_eq};

verus! {

/// IEEE-754 bit pattern of the mixers' neutral alpha (fully opaque).
pub const DEFAULT_ALPHA_BITS: u64 = 0x3ff0000000000000;

/// IEEE-754 bit pattern of the mixers' neutral volume (unity gain).
pub const DEFAULT_VOLUME_BITS: u64 = 0x3ff0000000000000;

/// The per-input control surface of one video mixer request pad.
#[derive(Clone, Copy, PartialEq, Eq, Structural, Debug)]
pub struct VideoInputSettings {
    pub width: i32,
    pub height: i32,
    pub xpos: i32,
    pub ypos: i32,
    pub alpha_bits: u64,
    pub zorder: u32,
}

/// The per-input control surface of one audio mixer request pad.
#[derive(Clone, Copy, PartialEq, Eq, Structural, Debug)]
pub struct AudioInputSettings {
    pub mute: bool,
    pub volume_bits: u64,
}

impl VideoInputSettings {
    /// The settings a fresh video mixer input starts with.
    pub fn initial() -> (s: VideoInputSettings)
        ensures
            s == VideoInputSettings::initial_spec(),
    {
        VideoInputSettings {
            width: 0,
            height: 0,
            xpos: 0,
            ypos: 0,
            alpha_bits: DEFAULT_ALPHA_BITS,
            zorder: 0,
        }
    }

    pub open spec fn initial_spec() -> VideoInputSettings {
        VideoInputSettings {
            width: 0,
            height: 0,
            xpos: 0,
            ypos: 0,
            alpha_bits: DEFAULT_ALPHA_BITS,
            zorder: 0,
        }
    }
}

impl AudioInputSettings {
    /// The settings a fresh audio mixer input starts with.
    pub fn initial() -> (s: AudioInputSettings)
        ensures
            s == AudioInputSettings::initial_spec(),
    {
        AudioInputSettings { mute: false, volume_bits: DEFAULT_VOLUME_BITS }
    }

    pub open spec fn initial_spec() -> AudioInputSettings {
        AudioInputSettings { mute: false, volume_bits: DEFAULT_VOLUME_BITS }
    }
}

/// One request pad of the video mixer, with its control surface.
#[derive(Clone, Copy, PartialEq, Eq, Structural, Debug)]
pub struct VideoMixerPad {
    pub index: u32,
    pub settings: VideoInputSettings,
}

/// One request pad of the audio mixer, with its control surface.
#[derive(Clone, Copy, PartialEq, Eq, Structural, Debug)]
pub struct AudioMixerPad {
    pub index: u32,
    pub settings: AudioInputSettings,
}

/// The video mixer node: its request pads and the counter that names them.
pub struct VideoMixer {
    pub next_index: u32,
    pub pads: Vec<VideoMixerPad>,
}

/// The audio mixer node: its request pads and the counter that names them.
pub struct AudioMixer {
    pub next_index: u32,
    pub pads: Vec<AudioMixerPad>,
}

/// A fan-out node (one per media type): its request pads carry no settings.
pub struct Tee {
    pub next_index: u32,
    pub pads: Vec<u32>,
}

/// The hub's four internal processing nodes.  The video mixer feeds the
/// video fan-out and the audio mixer feeds the audio fan-out; those two
/// internal links are fixed at construction and never change.
pub struct State {
    pub video_mixer: VideoMixer,
    pub audio_mixer: AudioMixer,
    pub video_tee: Tee,
    pub audio_tee: Tee,
}

/// A buffer queue node sitting between an exposed port and its mixer or
/// fan-out request pad.
#[derive(Clone, Copy, PartialEq, Eq, Structural, Debug)]
pub struct BufferQueue {
    pub id: u64,
}

/// An exposed, dynamically created port of the hub, identified by its media
/// type, its direction and its never-reused counter value.
#[derive(Clone, Copy, PartialEq, Eq, Structural, Debug)]
pub struct ProxyPort {
    pub media: MediaType,
    pub dir: Direction,
    pub index: u32,
}

/// The external pad a hub port is connected to, with the media type that
/// pad carries.  A source pad always faces a hub input; a sink pad always
/// faces a hub output.
#[derive(Clone, Copy, PartialEq, Eq, Structural, Debug)]
pub enum PeerPad {
    SourcePad { source_id: usize, media: MediaType },
    SinkPad { sink_id: usize, media: MediaType },
}

/// One row of the exposed-pad table: the proxy port, its rendered name, the
/// buffer queue of its internal chain, and the peer it is connected to, if
/// any.  The mixer-or-fan-out request pad of the chain carries the same
/// index as the port itself.
pub struct HubPad {
    pub port: ProxyPort,
    pub name: String,
    pub queue_id: u64,
    pub peer: Option<PeerPad>,
}

/// The hub.
pub struct DkcScene {
    pub name: String,
    pub state: State,
    pub queues: Vec<BufferQueue>,
    pub queue_next: u64,
    pub pads: Vec<HubPad>,
}

impl DkcScene {
    /// The monotone counter for ports of the given media type and direction:
    /// the mixers number the input ports, the fan-outs the output ports.
    pub open spec fn next_of(self, media: MediaType, dir: Direction) -> u32 {
        match (media, dir) {
            (MediaType::Video, Direction::Input) => self.state.video_mixer.next_index,
            (MediaType::Audio, Direction::Input) => self.state.audio_mixer.next_index,
            (MediaType::Video, Direction::Output) => self.state.video_tee.next_index,
            (MediaType::Audio, Direction::Output) => self.state.audio_tee.next_index,
        }
    }

    /// Whether `port` is currently exposed.
    pub open spec fn has_pad(self, port: ProxyPort) -> bool {
        exists|i: int| 0 <= i < self.pads@.len() && self.pads@[i].port == port
    }

    /// Whether the mixer or fan-out serving (`media`, `dir`) currently has a
    /// request pad with the given index.
    pub open spec fn has_request_pad(self, media: MediaType, dir: Direction, index: u32) -> bool {
        match (media, dir) {
            (MediaType::Video, Direction::Input) => exists|k: int|
                0 <= k < self.state.video_mixer.pads@.len()
                    && self.state.video_mixer.pads@[k].index == index,
            (MediaType::Audio, Direction::Input) => exists|k: int|
                0 <= k < self.state.audio_mixer.pads@.len()
                    && self.state.audio_mixer.pads@[k].index == index,
            (MediaType::Video, Direction::Output) => exists|k: int|
                0 <= k < self.state.video_tee.pads@.len()
                    && self.state.video_tee.pads@[k] == index,
            (MediaType::Audio, Direction::Output) => exists|k: int|
                0 <= k < self.state.audio_tee.pads@.len()
                    && self.state.audio_tee.pads@[k] == index,
        }
    }

    /// Whether some exposed pad's chain uses the buffer queue `id`.
    pub open spec fn queue_in_use(self, id: u64) -> bool {
        exists|i: int| 0 <= i < self.pads@.len() && self.pads@[i].queue_id == id
    }

    /// Each exposed pad bears the name its triple renders to, its counter
    /// value lies below the relevant monotone counter, no triple occurs
    /// twice, and a connected pad's peer faces it with the same media type.
    pub open spec fn pads_wf(self) -> bool {
        &&& forall|i: int| 0 <= i < self.pads@.len() ==> {
            let p = #[trigger] self.pads@[i];
            &&& p.name@ == port_name_seq(p.port.media, p.port.dir, p.port.index as nat)
            &&& p.port.index < self.next_of(p.port.media, p.port.dir)
            &&& match p.peer {
                Some(PeerPad::SourcePad { source_id: _, media }) => p.port.dir
                    == Direction::Input && media == p.port.media,
                Some(PeerPad::SinkPad { sink_id: _, media }) => p.port.dir == Direction::Output
                    && media == p.port.media,
                None => true,
            }
        }
        &&& forall|i: int, j: int|
            0 <= i < j < self.pads@.len() ==> (#[trigger] self.pads@[i]).port != (
            #[trigger] self.pads@[j]).port
    }

    /// Queue node ids are distinct and below the queue counter.
    pub open spec fn queues_wf(self) -> bool {
        &&& forall|i: int|
            0 <= i < self.queues@.len() ==> (#[trigger] self.queues@[i]).id < self.queue_next
        &&& forall|i: int, j: int|
            0 <= i < j < self.queues@.len() ==> (#[trigger] self.queues@[i]).id != (
            #[trigger] self.queues@[j]).id
    }

    /// Every exposed pad resolves to exactly one internal chain: its buffer
    /// queue is present in the hub's node set and shared with no other pad,
    /// and its mixer-or-fan-out request pad exists.
    pub open spec fn chains_wf(self) -> bool {
        &&& forall|i: int| 0 <= i < self.pads@.len() ==> {
            let p = #[trigger] self.pads@[i];
            &&& exists|k: int| 0 <= k < self.queues@.len() && (#[trigger] self.queues@[k]).id
                == p.queue_id
            &&& self.has_request_pad(p.port.media, p.port.dir, p.port.index)
        }
        &&& forall|i: int, j: int|
            0 <= i < j < self.pads@.len() ==> (#[trigger] self.pads@[i]).queue_id != (
            #[trigger] self.pads@[j]).queue_id
    }

    /// Request pads of the internal nodes have distinct indexes below their
    /// node's counter, and each of them backs an exposed pad: the exposed-pad
    /// table is the only source of truth.
    pub open spec fn nodes_wf(self) -> bool {
        &&& forall|k: int| 0 <= k < self.state.video_mixer.pads@.len() ==> (
        #[trigger] self.state.video_mixer.pads@[k]).index < self.state.video_mixer.next_index
        &&& forall|k: int, l: int|
            0 <= k < l < self.state.video_mixer.pads@.len() ==> (
            #[trigger] self.state.video_mixer.pads@[k]).index != (
            #[trigger] self.state.video_mixer.pads@[l]).index
        &&& forall|k: int| 0 <= k < self.state.audio_mixer.pads@.len() ==> (
        #[trigger] self.state.audio_mixer.pads@[k]).index < self.state.audio_mixer.next_index
        &&& forall|k: int, l: int|
            0 <= k < l < self.state.audio_mixer.pads@.len() ==> (
            #[trigger] self.state.audio_mixer.pads@[k]).index != (
            #[trigger] self.state.audio_mixer.pads@[l]).index
        &&& forall|k: int| 0 <= k < self.state.video_tee.pads@.len() ==> (
        #[trigger] self.state.video_tee.pads@[k]) < self.state.video_tee.next_index
        &&& forall|k: int, l: int|
            0 <= k < l < self.state.video_tee.pads@.len() ==> (
            #[trigger] self.state.video_tee.pads@[k]) != (#[trigger] self.state.video_tee.pads@[l])
        &&& forall|k: int| 0 <= k < self.state.audio_tee.pads@.len() ==> (
        #[trigger] self.state.audio_tee.pads@[k]) < self.state.audio_tee.next_index
        &&& forall|k: int, l: int|
            0 <= k < l < self.state.audio_tee.pads@.len() ==> (
            #[trigger] self.state.audio_tee.pads@[k]) != (#[trigger] self.state.audio_tee.pads@[l])
        &&& forall|k: int|
            0 <= k < self.state.video_mixer.pads@.len() ==> exists|i: int|
                0 <= i < self.pads@.len() && (#[trigger] self.pads@[i]).port == (ProxyPort {
                    media: MediaType::Video,
                    dir: Direction::Input,
                    index: (#[trigger] self.state.video_mixer.pads@[k]).index,
                })
        &&& forall|k: int|
            0 <= k < self.state.audio_mixer.pads@.len() ==> exists|i: int|
                0 <= i < self.pads@.len() && (#[trigger] self.pads@[i]).port == (ProxyPort {
                    media: MediaType::Audio,
                    dir: Direction::Input,
                    index: (#[trigger] self.state.audio_mixer.pads@[k]).index,
                })
        &&& forall|k: int|
            0 <= k < self.state.video_tee.pads@.len() ==> exists|i: int|
                0 <= i < self.pads@.len() && (#[trigger] self.pads@[i]).port == (ProxyPort {
                    media: MediaType::Video,
                    dir: Direction::Output,
                    index: (#[trigger] self.state.video_tee.pads@[k]),
                })
        &&& forall|k: int|
            0 <= k < self.state.audio_tee.pads@.len() ==> exists|i: int|
                0 <= i < self.pads@.len() && (#[trigger] self.pads@[i]).port == (ProxyPort {
                    media: MediaType::Audio,
                    dir: Direction::Output,
                    index: (#[trigger] self.state.audio_tee.pads@[k]),
                })
    }

    /// Every buffer queue in the hub's node set belongs to some exposed
    /// pad's chain, and the queue counter counts one queue per request ever
    /// made.
    pub open spec fn counts_wf(self) -> bool {
        &&& forall|k: int|
            0 <= k < self.queues@.len() ==> self.queue_in_use((#[trigger] self.queues@[k]).id)
        &&& self.queue_next == self.state.video_mixer.next_index
            + self.state.audio_mixer.next_index + self.state.video_tee.next_index
            + self.state.audio_tee.next_index
    }

    /// The hub's full internal invariant.
    pub open spec fn wf(self) -> bool {
        &&& self.pads_wf()
        &&& self.queues_wf()
        &&& self.chains_wf()
        &&& self.nodes_wf()
        &&& self.counts_wf()
    }

    /// A freshly constructed hub: no exposed ports, no queues, all counters
    /// at zero.
    pub open spec fn fresh(self, name: Seq<char>) -> bool {
        &&& self.name@ == name
        &&& self.pads@.len() == 0
        &&& self.queues@.len() == 0
        &&& self.queue_next == 0
        &&& self.state.video_mixer.next_index == 0
        &&& self.state.video_mixer.pads@.len() == 0
        &&& self.state.audio_mixer.next_index == 0
        &&& self.state.audio_mixer.pads@.len() == 0
        &&& self.state.video_tee.next_index == 0
        &&& self.state.video_tee.pads@.len() == 0
        &&& self.state.audio_tee.next_index == 0
        &&& self.state.audio_tee.pads@.len() == 0
    }
}

impl ProxyPort {
    /// Renders this port's exposed name, `{video|audio}_{sink|src}_{n}`.
    pub fn name(&self) -> (r: String)
        ensures
            r@ == port_name_seq(self.media, self.dir, self.index as nat),
    {
        port_name(self.media, self.dir, self.index)
    }
}

/// Whether `peer` may face `port`: a source pad faces an input, a sink pad
/// faces an output, and the media types agree.
pub open spec fn peer_compatible(port: ProxyPort, peer: PeerPad) -> bool {
    match peer {
        PeerPad::SourcePad { source_id: _, media } => port.dir == Direction::Input && media
            == port.media,
        PeerPad::SinkPad { sink_id: _, media } => port.dir == Direction::Output && media
            == port.media,
    }
}

/// The successful connect transition: the exposed pad carrying `port`
/// records `peer`, and nothing else changes.
pub open spec fn connect_ok(pre: DkcScene, post: DkcScene, port: ProxyPort, peer: PeerPad) -> bool {
    &&& exists|i: int|
        0 <= i < pre.pads@.len() && (#[trigger] pre.pads@[i]).port == port && pre.pads@[i].peer
            is None && post.pads@ == pre.pads@.update(
            i,
            HubPad {
                port: pre.pads@[i].port,
                name: pre.pads@[i].name,
                queue_id: pre.pads@[i].queue_id,
                peer: Some(peer),
            },
        )
    &&& post.queues@ == pre.queues@
    &&& post.queue_next == pre.queue_next
    &&& post.state == pre.state
    &&& post.name == pre.name
}

impl VideoMixer {
    /// Requests a fresh input pad from the video mixer; its control surface
    /// starts at the initial settings.
    fn request_pad(&mut self) -> (idx: u32)
        requires
            old(self).next_index < u32::MAX,
        ensures
            idx == old(self).next_index,
            final(self).next_index == idx + 1,
            final(self).pads@ == old(self).pads@.push(
                VideoMixerPad { index: idx, settings: VideoInputSettings::initial_spec() },
            ),
    {
        let idx = self.next_index;
        self.next_index = idx + 1;
        self.pads.push(VideoMixerPad { index: idx, settings: VideoInputSettings::initial() });
        idx
    }
}

impl AudioMixer {
    /// Requests a fresh input pad from the audio mixer; its control surface
    /// starts at the initial settings.
    fn request_pad(&mut self) -> (idx: u32)
        requires
            old(self).next_index < u32::MAX,
        ensures
            idx == old(self).next_index,
            final(self).next_index == idx + 1,
            final(self).pads@ == old(self).pads@.push(
                AudioMixerPad { index: idx, settings: AudioInputSettings::initial_spec() },
            ),
    {
        let idx = self.next_index;
        self.next_index = idx + 1;
        self.pads.push(AudioMixerPad { index: idx, settings: AudioInputSettings::initial() });
        idx
    }
}

impl Tee {
    /// Requests a fresh output pad from the fan-out.
    fn request_pad(&mut self) -> (idx: u32)
        requires
            old(self).next_index < u32::MAX,
        ensures
            idx == old(self).next_index,
            final(self).next_index == idx + 1,
            final(self).pads@ == old(self).pads@.push(idx),
    {
        let idx = self.next_index;
        self.next_index = idx + 1;
        self.pads.push(idx);
        idx
    }
}

/// How the hub's four internal nodes change when a port of the given media
/// type and direction is requested: the serving node gains one request pad
/// carrying the fresh index, the other three keep their pads.
pub open spec fn request_nodes_ok(
    pre: DkcScene,
    post: DkcScene,
    media: MediaType,
    dir: Direction,
) -> bool {
    match (media, dir) {
        (MediaType::Video, Direction::Input) => {
            &&& post.state.video_mixer.pads@ == pre.state.video_mixer.pads@.push(
                VideoMixerPad {
                    index: pre.state.video_mixer.next_index,
                    settings: VideoInputSettings::initial_spec(),
                },
            )
            &&& post.state.audio_mixer.pads@ == pre.state.audio_mixer.pads@
            &&& post.state.video_tee.pads@ == pre.state.video_tee.pads@
            &&& post.state.audio_tee.pads@ == pre.state.audio_tee.pads@
        },
        (MediaType::Audio, Direction::Input) => {
            &&& post.state.audio_mixer.pads@ == pre.state.audio_mixer.pads@.push(
                AudioMixerPad {
                    index: pre.state.audio_mixer.next_index,
                    settings: AudioInputSettings::initial_spec(),
                },
            )
            &&& post.state.video_mixer.pads@ == pre.state.video_mixer.pads@
            &&& post.state.video_tee.pads@ == pre.state.video_tee.pads@
            &&& post.state.audio_tee.pads@ == pre.state.audio_tee.pads@
        },
        (MediaType::Video, Direction::Output) => {
            &&& post.state.video_tee.pads@ == pre.state.video_tee.pads@.push(
                pre.state.video_tee.next_index,
            )
            &&& post.state.video_mixer.pads@ == pre.state.video_mixer.pads@
            &&& post.state.audio_mixer.pads@ == pre.state.audio_mixer.pads@
            &&& post.state.audio_tee.pads@ == pre.state.audio_tee.pads@
        },
        (MediaType::Audio, Direction::Output) => {
            &&& post.state.audio_tee.pads@ == pre.state.audio_tee.pads@.push(
                pre.state.audio_tee.next_index,
            )
            &&& post.state.video_mixer.pads@ == pre.state.video_mixer.pads@
            &&& post.state.audio_mixer.pads@ == pre.state.audio_mixer.pads@
            &&& post.state.video_tee.pads@ == pre.state.video_tee.pads@
        },
    }
}

/// The successful request transition.  The returned port carries the value
/// of the pre-state counter for its media type and direction; that counter
/// advances by one and the other three stand still; one buffer queue is
/// created and one exposed pad, named after the port's triple, connected to
/// nothing yet, is appended to the table.
pub open spec fn request_port_ok(
    pre: DkcScene,
    post: DkcScene,
    media: MediaType,
    dir: Direction,
    port: ProxyPort,
) -> bool {
    &&& port.media == media
    &&& port.dir == dir
    &&& port.index == pre.next_of(media, dir)
    &&& pre.next_of(media, dir) < u32::MAX
    &&& post.next_of(media, dir) == pre.next_of(media, dir) + 1
    &&& forall|m: MediaType, d: Direction|
        !(m == media && d == dir) ==> post.next_of(m, d) == pre.next_of(m, d)
    &&& post.queue_next == pre.queue_next + 1
    &&& post.queues@ == pre.queues@.push(BufferQueue { id: pre.queue_next })
    &&& post.pads@.len() == pre.pads@.len() + 1
    &&& post.pads@.subrange(0, pre.pads@.len() as int) == pre.pads@
    &&& post.pads@.last().port == port
    &&& post.pads@.last().name@ == port_name_seq(media, dir, port.index as nat)
    &&& post.pads@.last().queue_id == pre.queue_next
    &&& post.pads@.last().peer is None
    &&& request_nodes_ok(pre, post, media, dir)
    &&& post.name == pre.name
}

/// How the hub's four internal nodes change when the port with the given
/// media type, direction and index is released: the serving node loses its
/// request pad with that index, the other three keep their pads.
pub open spec fn release_nodes_ok(
    pre: DkcScene,
    post: DkcScene,
    media: MediaType,
    dir: Direction,
    index: u32,
) -> bool {
    match (media, dir) {
        (MediaType::Video, Direction::Input) => {
            &&& exists|k: int|
                0 <= k < pre.state.video_mixer.pads@.len() && (
                #[trigger] pre.state.video_mixer.pads@[k]).index == index
                    && post.state.video_mixer.pads@ == pre.state.video_mixer.pads@.remove(k)
            &&& post.state.audio_mixer.pads@ == pre.state.audio_mixer.pads@
            &&& post.state.video_tee.pads@ == pre.state.video_tee.pads@
            &&& post.state.audio_tee.pads@ == pre.state.audio_tee.pads@
        },
        (MediaType::Audio, Direction::Input) => {
            &&& exists|k: int|
                0 <= k < pre.state.audio_mixer.pads@.len() && (
                #[trigger] pre.state.audio_mixer.pads@[k]).index == index
                    && post.state.audio_mixer.pads@ == pre.state.audio_mixer.pads@.remove(k)
            &&& post.state.video_mixer.pads@ == pre.state.video_mixer.pads@
            &&& post.state.video_tee.pads@ == pre.state.video_tee.pads@
            &&& post.state.audio_tee.pads@ == pre.state.audio_tee.pads@
        },
        (MediaType::Video, Direction::Output) => {
            &&& exists|k: int|
                0 <= k < pre.state.video_tee.pads@.len() && (
                #[trigger] pre.state.video_tee.pads@[k]) == index && post.state.video_tee.pads@
                    == pre.state.video_tee.pads@.remove(k)
            &&& post.state.video_mixer.pads@ == pre.state.video_mixer.pads@
            &&& post.state.audio_mixer.pads@ == pre.state.audio_mixer.pads@
            &&& post.state.audio_tee.pads@ == pre.state.audio_tee.pads@
        },
        (MediaType::Audio, Direction::Output) => {
            &&& exists|k: int|
                0 <= k < pre.state.audio_tee.pads@.len() && (
                #[trigger] pre.state.audio_tee.pads@[k]) == index && post.state.audio_tee.pads@
                    == pre.state.audio_tee.pads@.remove(k)
            &&& post.state.video_mixer.pads@ == pre.state.video_mixer.pads@
            &&& post.state.audio_mixer.pads@ == pre.state.audio_mixer.pads@
            &&& post.state.video_tee.pads@ == pre.state.video_tee.pads@
        },
    }
}

/// The successful release transition: teardown exactly reverses
/// construction.  The exposed pad leaves the table, its buffer queue leaves
/// the node set, the mixer-or-fan-out request pad of its chain is released,
/// and every counter stands still: identifiers are never handed back.
pub open spec fn release_port_ok(pre: DkcScene, post: DkcScene, port: ProxyPort) -> bool {
    &&& exists|i: int|
        0 <= i < pre.pads@.len() && (#[trigger] pre.pads@[i]).port == port && post.pads@
            == pre.pads@.remove(i) && queue_removed(pre, post, pre.pads@[i].queue_id)
    &&& release_nodes_ok(pre, post, port.media, port.dir, port.index)
    &&& forall|m: MediaType, d: Direction| #[trigger] post.next_of(m, d) == pre.next_of(m, d)
    &&& post.queue_next == pre.queue_next
    &&& post.name == pre.name
}

/// The buffer queue with the given id leaves the node set, and nothing else
/// changes among the queues.
pub open spec fn queue_removed(pre: DkcScene, post: DkcScene, id: u64) -> bool {
    exists|k: int|
        0 <= k < pre.queues@.len() && (#[trigger] pre.queues@[k]).id == id && post.queues@
            == pre.queues@.remove(k)
}

impl VideoMixer {
    /// Finds the request pad with the given index.
    fn find_pad(&self, index: u32) -> (k: usize)
        requires
            exists|j: int|
                0 <= j < self.pads@.len() && (#[trigger] self.pads@[j]).index == index,
        ensures
            k < self.pads@.len(),
            self.pads@[k as int].index == index,
    {
        let mut k: usize = 0;
        while k < self.pads.len() && self.pads[k].index != index
            invariant
                k <= self.pads@.len(),
                exists|j: int|
                    0 <= j < self.pads@.len() && (#[trigger] self.pads@[j]).index == index,
                forall|j: int| 0 <= j < k ==> (#[trigger] self.pads@[j]).index != index,
            decreases self.pads@.len() - k,
        {
            k += 1;
        }
        k
    }
}

impl AudioMixer {
    /// Finds the request pad with the given index.
    fn find_pad(&self, index: u32) -> (k: usize)
        requires
            exists|j: int|
                0 <= j < self.pads@.len() && (#[trigger] self.pads@[j]).index == index,
        ensures
            k < self.pads@.len(),
            self.pads@[k as int].index == index,
    {
        let mut k: usize = 0;
        while k < self.pads.len() && self.pads[k].index != index
            invariant
                k <= self.pads@.len(),
                exists|j: int|
                    0 <= j < self.pads@.len() && (#[trigger] self.pads@[j]).index == index,
                forall|j: int| 0 <= j < k ==> (#[trigger] self.pads@[j]).index != index,
            decreases self.pads@.len() - k,
        {
            k += 1;
        }
        k
    }
}

impl Tee {
    /// Finds the request pad with the given index.
    fn find_pad(&self, index: u32) -> (k: usize)
        requires
            exists|j: int| 0 <= j < self.pads@.len() && (#[trigger] self.pads@[j]) == index,
        ensures
            k < self.pads@.len(),
            self.pads@[k as int] == index,
    {
        let mut k: usize = 0;
        while k < self.pads.len() && self.pads[k] != index
            invariant
                k <= self.pads@.len(),
                exists|j: int| 0 <= j < self.pads@.len() && (#[trigger] self.pads@[j]) == index,
                forall|j: int| 0 <= j < k ==> (#[trigger] self.pads@[j]) != index,
            decreases self.pads@.len() - k,
        {
            k += 1;
        }
        k
    }
}

impl State {
    /// Creates the hub's four internal nodes, each without request pads yet.
    /// The mixer-to-fan-out link per media type is fixed here once and for
    /// all.
    pub fn new() -> (s: State)
        ensures
            s.video_mixer.next_index == 0,
            s.video_mixer.pads@.len() == 0,
            s.audio_mixer.next_index == 0,
            s.audio_mixer.pads@.len() == 0,
            s.video_tee.next_index == 0,
            s.video_tee.pads@.len() == 0,
            s.audio_tee.next_index == 0,
            s.audio_tee.pads@.len() == 0,
    {
        State {
            video_mixer: VideoMixer { next_index: 0, pads: Vec::new() },
            audio_mixer: AudioMixer { next_index: 0, pads: Vec::new() },
            video_tee: Tee { next_index: 0, pads: Vec::new() },
            audio_tee: Tee { next_index: 0, pads: Vec::new() },
        }
    }
}

impl DkcScene {
    /// Constructs a hub with the given element name.
    pub fn new(name: &str) -> (s: DkcScene)
        ensures
            s.fresh(name@),
            s.wf(),
    {
        DkcScene {
            name: String::from_str(name),
            state: State::new(),
            queues: Vec::new(),
            queue_next: 0,
            pads: Vec::new(),
        }
    }

    /// The shared body of the request protocol: create a buffer queue,
    /// request a pad from the serving mixer or fan-out, chain the two, and
    /// expose the result under its rendered name.
    fn request_port(&mut self, media: MediaType, dir: Direction) -> (r: Result<
        ProxyPort,
        DkcError,
    >)
        requires
            old(self).wf(),
        ensures
            final(self).wf(),
            r is Ok <==> old(self).next_of(media, dir) < u32::MAX,
            r is Ok ==> request_port_ok(*old(self), *final(self), media, dir, r->Ok_0),
            r is Err ==> *final(self) == *old(self),
    {
        let capacity = match (media, dir) {
            (MediaType::Video, Direction::Input) => self.state.video_mixer.next_index,
            (MediaType::Audio, Direction::Input) => self.state.audio_mixer.next_index,
            (MediaType::Video, Direction::Output) => self.state.video_tee.next_index,
            (MediaType::Audio, Direction::Output) => self.state.audio_tee.next_index,
        };
        if capacity == u32::MAX {
            return Err(
                DkcError::new(self.name.as_str(), "DkcScene", "No free request capability."),
            );
        }
        let ghost pre = *self;
        let idx = match (media, dir) {
            (MediaType::Video, Direction::Input) => self.state.video_mixer.request_pad(),
            (MediaType::Audio, Direction::Input) => self.state.audio_mixer.request_pad(),
            (MediaType::Video, Direction::Output) => self.state.video_tee.request_pad(),
            (MediaType::Audio, Direction::Output) => self.state.audio_tee.request_pad(),
        };
        let qid = self.queue_next;
        self.queue_next = qid + 1;
        self.queues.push(BufferQueue { id: qid });
        let port = ProxyPort { media, dir, index: idx };
        let pad_name = port_name(media, dir, idx);
        self.pads.push(HubPad { port, name: pad_name, queue_id: qid, peer: None });
        proof {
            let post = *self;
            let n = pre.pads@.len() as int;
            assert(post.pads@.subrange(0, n) =~= pre.pads@);
            assert(request_port_ok(pre, post, media, dir, port));
            lemma_request_preserves_wf(pre, post, media, dir, port);
        }
        Ok(port)
    }

    /// Finds the exposed pad carrying `port`, if any.
    fn find_pad(&self, port: &ProxyPort) -> (r: Option<usize>)
        ensures
            match r {
                Some(i) => i < self.pads@.len() && self.pads@[i as int].port == *port,
                None => !self.has_pad(*port),
            },
    {
        let mut i: usize = 0;
        while i < self.pads.len()
            invariant
                i <= self.pads@.len(),
                forall|j: int| 0 <= j < i ==> (#[trigger] self.pads@[j]).port != *port,
            decreases self.pads@.len() - i,
        {
            if self.pads[i].port == *port {
                return Some(i);
            }
            i += 1;
        }
        None
    }

    /// Finds the buffer queue with the given id.
    fn find_queue(&self, id: u64) -> (k: usize)
        requires
            exists|j: int| 0 <= j < self.queues@.len() && (#[trigger] self.queues@[j]).id == id,
        ensures
            k < self.queues@.len(),
            self.queues@[k as int].id == id,
    {
        let mut k: usize = 0;
        while k < self.queues.len() && self.queues[k].id != id
            invariant
                k <= self.queues@.len(),
                exists|j: int|
                    0 <= j < self.queues@.len() && (#[trigger] self.queues@[j]).id == id,
                forall|j: int| 0 <= j < k ==> (#[trigger] self.queues@[j]).id != id,
            decreases self.queues@.len() - k,
        {
            k += 1;
        }
        k
    }

    /// Releases an exposed port.  Teardown exactly reverses construction:
    /// the chain's mixer-or-fan-out request pad is released, the buffer
    /// queue is removed from the node set, and the exposed pad leaves the
    /// table.  Releasing a port that is not currently exposed — never
    /// requested, or already released — fails and leaves the hub unchanged.
    pub fn release_port(&mut self, port: &ProxyPort) -> (r: Result<(), DkcError>)
        requires
            old(self).wf(),
        ensures
            final(self).wf(),
            r is Ok <==> old(self).has_pad(*port),
            r is Ok ==> release_port_ok(*old(self), *final(self), *port),
            r is Err ==> *final(self) == *old(self),
    {
        let media = port.media;
        let dir = port.dir;
        let i = match self.find_pad(port) {
            Some(i) => i,
            None => {
                return Err(
                    DkcError::new(self.name.as_str(), "DkcScene", "Port is not currently exposed."),
                );
            },
        };
        let ghost pre = *self;
        let qid = self.pads[i].queue_id;
        let idx = self.pads[i].port.index;
        proof {
            // The pad's chain exists: instantiate the chain invariant at i.
            assert(pre.pads@[i as int] == pre.pads@[i as int]);
            assert(pre.has_request_pad(media, dir, idx));
        }
        match (media, dir) {
            (MediaType::Video, Direction::Input) => {
                let k = self.state.video_mixer.find_pad(idx);
                self.state.video_mixer.pads.remove(k);
            },
            (MediaType::Audio, Direction::Input) => {
                let k = self.state.audio_mixer.find_pad(idx);
                self.state.audio_mixer.pads.remove(k);
            },
            (MediaType::Video, Direction::Output) => {
                let k = self.state.video_tee.find_pad(idx);
                self.state.video_tee.pads.remove(k);
            },
            (MediaType::Audio, Direction::Output) => {
                let k = self.state.audio_tee.find_pad(idx);
                self.state.audio_tee.pads.remove(k);
            },
        }
        proof {
            // Transport the queue witness to the mutated state: the node-pad
            // removal left the queue set untouched.
            let k0 = choose|j: int|
                0 <= j < pre.queues@.len() && (#[trigger] pre.queues@[j]).id == qid;
            assert(self.queues@[k0].id == qid);
        }
        let kq = self.find_queue(qid);
        self.queues.remove(kq);
        self.pads.remove(i);
        proof {
            let post = *self;
            assert(release_nodes_ok(pre, post, media, dir, idx));
            assert(queue_removed(pre, post, qid));
            lemma_release_preserves_wf(pre, post, *port, i as int, kq as int);
            assert(release_port_ok(pre, post, *port));
        }
        Ok(())
    }

    /// Whether `port` is exposed and not yet connected to a peer.
    pub open spec fn pad_free(self, port: ProxyPort) -> bool {
        exists|i: int|
            0 <= i < self.pads@.len() && (#[trigger] self.pads@[i]).port == port
                && self.pads@[i].peer is None
    }

    /// Connects an external pad to an exposed port.  The connection fails —
    /// as a pad link with mismatched capabilities would — when the port is
    /// not exposed, already connected, or of the wrong direction or media
    /// type for `peer`.
    pub fn connect_peer(&mut self, port: &ProxyPort, peer: PeerPad) -> (r: Result<(), DkcError>)
        requires
            old(self).wf(),
        ensures
            final(self).wf(),
            r is Ok <==> (old(self).pad_free(*port) && peer_compatible(*port, peer)),
            r is Ok ==> connect_ok(*old(self), *final(self), *port, peer),
            r is Err ==> *final(self) == *old(self),
    {
        let i = match self.find_pad(port) {
            Some(i) => i,
            None => {
                return Err(
                    DkcError::new(self.name.as_str(), "DkcScene", "Port is not currently exposed."),
                );
            },
        };
        proof {
            assert forall|j: int|
                0 <= j < self.pads@.len() && (#[trigger] self.pads@[j]).port == *port implies j
                == i as int by {}
        }
        if self.pads[i].peer.is_some() {
            return Err(DkcError::new(self.name.as_str(), "DkcScene", "Port is already linked."));
        }
        let compatible = match peer {
            PeerPad::SourcePad { source_id: _, media } => port.dir == Direction::Input && media
                == port.media,
            PeerPad::SinkPad { sink_id: _, media } => port.dir == Direction::Output && media
                == port.media,
        };
        if !compatible {
            return Err(DkcError::new(self.name.as_str(), "DkcScene", "Could not link pads."));
        }
        let nm = self.pads[i].name.clone();
        let qid = self.pads[i].queue_id;
        let p = self.pads[i].port;
        self.pads[i] = HubPad { port: p, name: nm, queue_id: qid, peer: Some(peer) };
        proof {
            lemma_connect_preserves_wf(*old(self), *self, i as int, peer);
        }
        Ok(())
    }

    /// Finds the exposed pad bearing `name`, if any.
    fn find_pad_named(&self, name: &str) -> (r: Option<usize>)
        ensures
            match r {
                Some(i) => i < self.pads@.len() && self.pads@[i as int].name@ == name@,
                None => forall|j: int|
                    0 <= j < self.pads@.len() ==> (#[trigger] self.pads@[j]).name@ != name@,
            },
    {
        let mut i: usize = 0;
        while i < self.pads.len()
            invariant
                i <= self.pads@.len(),
                forall|j: int| 0 <= j < i ==> (#[trigger] self.pads@[j]).name@ != name@,
            decreases self.pads@.len() - i,
        {
            if str_eq(name, self.pads[i].name.as_str()) {
                return Some(i);
            }
            i += 1;
        }
        None
    }

    /// Attempts one per-input parameter update, dispatching on the named
    /// pad's media type through the fixed parameter table.  Every failure —
    /// unknown pad name, a pad that is not an input, an unknown parameter, a
    /// value of the wrong runtime type — is reported by returning `false`
    /// and leaves the hub unchanged; no failure here is an error.
    pub fn update_input(&mut self, sink_pad_name: &str, param_name: &str, v: ParamValue) -> (r:
        bool)
        requires
            old(self).wf(),
        ensures
            final(self).wf(),
            r == old(self).update_accepted(sink_pad_name@, param_name@, v),
            update_input_frame(*old(self), *final(self)),
            r ==> update_applied(*old(self), *final(self), sink_pad_name@, param_name@, v),
            !r ==> *final(self) == *old(self),
    {
        let int_val: Option<i32> = match v {
            ParamValue::IntVal(x) => Some(x),
            _ => None,
        };
        let uint_val: Option<u32> = match v {
            ParamValue::UIntVal(x) => Some(x),
            _ => None,
        };
        let dbl_val: Option<u64> = match v {
            ParamValue::DoubleBits(x) => Some(x),
            _ => None,
        };
        let bool_val: Option<bool> = match v {
            ParamValue::BoolVal(x) => Some(x),
            _ => None,
        };
        let i = match self.find_pad_named(sink_pad_name) {
            Some(i) => i,
            None => {
                return false;
            },
        };
        proof {
            lemma_pad_name_unique(*self, i as int);
        }
        let port = self.pads[i].port;
        if port.dir == Direction::Output {
            return false;
        }
        proof {
            // Mention the pad row so the chain invariant instantiates at i.
            assert(self.pads@[i as int] == self.pads@[i as int]);
            assert(self.has_request_pad(port.media, port.dir, port.index));
        }
        match port.media {
            MediaType::Video => {
                let kp = self.state.video_mixer.find_pad(port.index);
                let cur = self.state.video_mixer.pads[kp];
                let applied: Option<VideoInputSettings> = if str_eq(param_name, "width")
                    && int_val.is_some() {
                    Some(VideoInputSettings { width: int_val.unwrap(), ..cur.settings })
                } else if str_eq(param_name, "height") && int_val.is_some() {
                    Some(VideoInputSettings { height: int_val.unwrap(), ..cur.settings })
                } else if str_eq(param_name, "xpos") && int_val.is_some() {
                    Some(VideoInputSettings { xpos: int_val.unwrap(), ..cur.settings })
                } else if str_eq(param_name, "ypos") && int_val.is_some() {
                    Some(VideoInputSettings { ypos: int_val.unwrap(), ..cur.settings })
                } else if str_eq(param_name, "alpha") && dbl_val.is_some() {
                    Some(VideoInputSettings { alpha_bits: dbl_val.unwrap(), ..cur.settings })
                } else if str_eq(param_name, "zorder") && uint_val.is_some() {
                    Some(VideoInputSettings { zorder: uint_val.unwrap(), ..cur.settings })
                } else {
                    None
                };
                match applied {
                    Some(ns) => {
                        self.state.video_mixer.pads[kp] = VideoMixerPad {
                            index: cur.index,
                            settings: ns,
                        };
                        proof {
                            assert(ns == apply_video_param(cur.settings, param_name@, v));
                            lemma_update_preserves_wf(*old(self), *self);
                        }
                        true
                    },
                    None => {
                        proof {
                            if old(self).update_accepted(sink_pad_name@, param_name@, v) {
                                let j = choose|j: int|
                                    0 <= j < old(self).pads@.len() && {
                                        let p = #[trigger] old(self).pads@[j];
                                        &&& p.name@ == sink_pad_name@
                                        &&& p.port.dir == Direction::Input
                                        &&& match p.port.media {
                                            MediaType::Video => video_param_ok(param_name@, v),
                                            MediaType::Audio => audio_param_ok(param_name@, v),
                                        }
                                    };
                                assert(j == i as int);
                            }
                        }
                        false
                    },
                }
            },
            MediaType::Audio => {
                let kp = self.state.audio_mixer.find_pad(port.index);
                let cur = self.state.audio_mixer.pads[kp];
                let applied: Option<AudioInputSettings> = if str_eq(param_name, "mute")
                    && bool_val.is_some() {
                    Some(AudioInputSettings { mute: bool_val.unwrap(), ..cur.settings })
                } else if str_eq(param_name, "volume") && dbl_val.is_some() {
                    Some(AudioInputSettings { volume_bits: dbl_val.unwrap(), ..cur.settings })
                } else {
                    None
                };
                match applied {
                    Some(ns) => {
                        self.state.audio_mixer.pads[kp] = AudioMixerPad {
                            index: cur.index,
                            settings: ns,
                        };
                        proof {
                            assert(ns == apply_audio_param(cur.settings, param_name@, v));
                            lemma_update_preserves_wf(*old(self), *self);
                        }
                        true
                    },
                    None => {
                        proof {
                            if old(self).update_accepted(sink_pad_name@, param_name@, v) {
                                let j = choose|j: int|
                                    0 <= j < old(self).pads@.len() && {
                                        let p = #[trigger] old(self).pads@[j];
                                        &&& p.name@ == sink_pad_name@
                                        &&& p.port.dir == Direction::Input
                                        &&& match p.port.media {
                                            MediaType::Video => video_param_ok(param_name@, v),
                                            MediaType::Audio => audio_param_ok(param_name@, v),
                                        }
                                    };
                                assert(j == i as int);
                            }
                        }
                        false
                    },
                }
            },
        }
    }

    /// Reads one parameter of the mixer input backing the named exposed
    /// input pad; the read-back counterpart of [`Self::update_input`].
    pub fn input_setting(&self, sink_pad_name: &str, param_name: &str) -> (r: Option<ParamValue>)
        requires
            self.wf(),
        ensures
            r == self.input_setting_spec(sink_pad_name@, param_name@),
    {
        let i = match self.find_pad_named(sink_pad_name) {
            Some(i) => i,
            None => {
                return None;
            },
        };
        proof {
            lemma_pad_name_unique(*self, i as int);
        }
        let port = self.pads[i].port;
        if port.dir == Direction::Output {
            return None;
        }
        proof {
            // Mention the pad row so the chain invariant instantiates at i.
            assert(self.pads@[i as int] == self.pads@[i as int]);
            assert(self.has_request_pad(port.media, port.dir, port.index));
        }
        match port.media {
            MediaType::Video => {
                let kp = self.state.video_mixer.find_pad(port.index);
                proof {
                    assert forall|k2: int|
                        0 <= k2 < self.state.video_mixer.pads@.len() && (
                        #[trigger] self.state.video_mixer.pads@[k2]).index == port.index implies k2
                        == kp as int by {}
                }
                let cur = self.state.video_mixer.pads[kp];
                if str_eq(param_name, "width") {
                    Some(ParamValue::IntVal(cur.settings.width))
                } else if str_eq(param_name, "height") {
                    Some(ParamValue::IntVal(cur.settings.height))
                } else if str_eq(param_name, "xpos") {
                    Some(ParamValue::IntVal(cur.settings.xpos))
                } else if str_eq(param_name, "ypos") {
                    Some(ParamValue::IntVal(cur.settings.ypos))
                } else if str_eq(param_name, "alpha") {
                    Some(ParamValue::DoubleBits(cur.settings.alpha_bits))
                } else if str_eq(param_name, "zorder") {
                    Some(ParamValue::UIntVal(cur.settings.zorder))
                } else {
                    None
                }
            },
            MediaType::Audio => {
                let kp = self.state.audio_mixer.find_pad(port.index);
                proof {
                    assert forall|k2: int|
                        0 <= k2 < self.state.audio_mixer.pads@.len() && (
                        #[trigger] self.state.audio_mixer.pads@[k2]).index == port.index implies k2
                        == kp as int by {}
                }
                let cur = self.state.audio_mixer.pads[kp];
                if str_eq(param_name, "mute") {
                    Some(ParamValue::BoolVal(cur.settings.mute))
                } else if str_eq(param_name, "volume") {
                    Some(ParamValue::DoubleBits(cur.settings.volume_bits))
                } else {
                    None
                }
            },
        }
    }

    /// Requests a fresh input port of the given media type, exposed as
    /// `{video|audio}_sink_{n}`.  It fails exactly when the serving mixer
    /// has no request capability left.
    pub fn request_input_port(&mut self, media: MediaType) -> (r: Result<ProxyPort, DkcError>)
        requires
            old(self).wf(),
        ensures
            final(self).wf(),
            r is Ok <==> old(self).next_of(media, Direction::Input) < u32::MAX,
            r is Ok ==> request_port_ok(
                *old(self),
                *final(self),
                media,
                Direction::Input,
                r->Ok_0,
            ),
            r is Err ==> *final(self) == *old(self),
    {
        self.request_port(media, Direction::Input)
    }

    /// Requests a fresh output port of the given media type, exposed as
    /// `{video|audio}_src_{n}`.  It fails exactly when the serving fan-out
    /// has no request capability left.
    pub fn request_output_port(&mut self, media: MediaType) -> (r: Result<ProxyPort, DkcError>)
        requires
            old(self).wf(),
        ensures
            final(self).wf(),
            r is Ok <==> old(self).next_of(media, Direction::Output) < u32::MAX,
            r is Ok ==> request_port_ok(
                *old(self),
                *final(self),
                media,
                Direction::Output,
                r->Ok_0,
            ),
            r is Err ==> *final(self) == *old(self),
    {
        self.request_port(media, Direction::Output)
    }
}

/// A successful request preserves the hub invariant.
proof fn lemma_request_preserves_wf(
    pre: DkcScene,
    post: DkcScene,
    media: MediaType,
    dir: Direction,
    port: ProxyPort,
)
    requires
        pre.wf(),
        request_port_ok(pre, post, media, dir, port),
    ensures
        post.wf(),
{
    let n = pre.pads@.len() as int;
    assert forall|i: int| 0 <= i < post.pads@.len() implies post.pads@[i] == if i < n {
        pre.pads@[i]
    } else {
        post.pads@.last()
    } by {
        if i < n {
            assert(post.pads@.subrange(0, n)[i] == post.pads@[i]);
        }
    }
    // pads_wf: counters only grow, the new pad is in bounds, and the new
    // port differs from every old one because old same-class indexes lie
    // below the old counter.
    assert forall|i: int| 0 <= i < post.pads@.len() implies {
        let p = #[trigger] post.pads@[i];
        &&& p.name@ == port_name_seq(p.port.media, p.port.dir, p.port.index as nat)
        &&& p.port.index < post.next_of(p.port.media, p.port.dir)
        &&& match p.peer {
            Some(PeerPad::SourcePad { source_id: _, media }) => p.port.dir == Direction::Input
                && media == p.port.media,
            Some(PeerPad::SinkPad { sink_id: _, media }) => p.port.dir == Direction::Output
                && media == p.port.media,
            None => true,
        }
    } by {
        if i < n {
            let p = pre.pads@[i];
            assert(p.port.index < pre.next_of(p.port.media, p.port.dir));
            assert(post.next_of(p.port.media, p.port.dir) >= pre.next_of(
                p.port.media,
                p.port.dir,
            ));
        }
    }
    assert forall|i: int, j: int| 0 <= i < j < post.pads@.len() implies (
    #[trigger] post.pads@[i]).port != (#[trigger] post.pads@[j]).port by {
        if j == n {
            let p = pre.pads@[i];
            if p.port.media == media && p.port.dir == dir {
                assert(p.port.index < pre.next_of(media, dir));
            }
        }
    }
    // queues_wf: the new queue id equals the old counter, above every old id.
    assert forall|i: int| 0 <= i < post.queues@.len() implies (
    #[trigger] post.queues@[i]).id < post.queue_next by {
        if i < pre.queues@.len() {
            assert(post.queues@[i] == pre.queues@[i]);
        }
    }
    assert forall|i: int, j: int| 0 <= i < j < post.queues@.len() implies (
    #[trigger] post.queues@[i]).id != (#[trigger] post.queues@[j]).id by {
        if j == pre.queues@.len() {
            assert(post.queues@[i] == pre.queues@[i]);
            assert(pre.queues@[i].id < pre.queue_next);
        }
    }
    // chains_wf: old chains keep their witnesses; the new pad's chain is the
    // new queue and the new request pad.
    assert forall|i: int| 0 <= i < post.pads@.len() implies {
        let p = #[trigger] post.pads@[i];
        &&& exists|k: int| 0 <= k < post.queues@.len() && (#[trigger] post.queues@[k]).id
            == p.queue_id
        &&& post.has_request_pad(p.port.media, p.port.dir, p.port.index)
    } by {
        if i < n {
            let p = pre.pads@[i];
            let k = choose|k: int|
                0 <= k < pre.queues@.len() && (#[trigger] pre.queues@[k]).id == p.queue_id;
            assert(post.queues@[k].id == p.queue_id);
            assert(pre.has_request_pad(p.port.media, p.port.dir, p.port.index));
            lemma_request_keeps_request_pads(pre, post, media, dir, p.port.media, p.port.dir,
                p.port.index);
        } else {
            let k = pre.queues@.len() as int;
            assert(post.queues@[k].id == pre.queue_next);
            lemma_request_adds_request_pad(pre, post, media, dir);
        }
    }
    assert forall|i: int, j: int| 0 <= i < j < post.pads@.len() implies (
    #[trigger] post.pads@[i]).queue_id != (#[trigger] post.pads@[j]).queue_id by {
        if j == n {
            let p = pre.pads@[i];
            let k = choose|k: int|
                0 <= k < pre.queues@.len() && (#[trigger] pre.queues@[k]).id == p.queue_id;
            assert(pre.queues@[k].id < pre.queue_next);
        }
    }
    lemma_request_nodes_wf(pre, post, media, dir, port);
    // counts_wf: every old queue keeps its pad, the new queue serves the new
    // pad, and the queue counter matches the counter sum.
    assert forall|k: int| 0 <= k < post.queues@.len() implies post.queue_in_use(
        (#[trigger] post.queues@[k]).id,
    ) by {
        if k < pre.queues@.len() {
            assert(post.queues@[k] == pre.queues@[k]);
            assert(pre.queue_in_use(pre.queues@[k].id));
            let i = choose|i: int|
                0 <= i < pre.pads@.len() && (#[trigger] pre.pads@[i]).queue_id
                    == pre.queues@[k].id;
            assert(post.pads@[i].queue_id == pre.queues@[k].id);
        } else {
            assert(post.pads@[n].queue_id == pre.queue_next);
        }
    }
    // The three untouched counters: instantiate the frame condition.
    assert(media == MediaType::Video && dir == Direction::Input || post.next_of(
        MediaType::Video,
        Direction::Input,
    ) == pre.next_of(MediaType::Video, Direction::Input));
    assert(media == MediaType::Audio && dir == Direction::Input || post.next_of(
        MediaType::Audio,
        Direction::Input,
    ) == pre.next_of(MediaType::Audio, Direction::Input));
    assert(media == MediaType::Video && dir == Direction::Output || post.next_of(
        MediaType::Video,
        Direction::Output,
    ) == pre.next_of(MediaType::Video, Direction::Output));
    assert(media == MediaType::Audio && dir == Direction::Output || post.next_of(
        MediaType::Audio,
        Direction::Output,
    ) == pre.next_of(MediaType::Audio, Direction::Output));
}

/// Request pads present before a request are still present after it.
proof fn lemma_request_keeps_request_pads(
    pre: DkcScene,
    post: DkcScene,
    media: MediaType,
    dir: Direction,
    m: MediaType,
    d: Direction,
    index: u32,
)
    requires
        request_nodes_ok(pre, post, media, dir),
        pre.has_request_pad(m, d, index),
    ensures
        post.has_request_pad(m, d, index),
{
    match (m, d) {
        (MediaType::Video, Direction::Input) => {
            let k = choose|k: int|
                0 <= k < pre.state.video_mixer.pads@.len() && (
                #[trigger] pre.state.video_mixer.pads@[k]).index == index;
            assert(post.state.video_mixer.pads@[k].index == index);
        },
        (MediaType::Audio, Direction::Input) => {
            let k = choose|k: int|
                0 <= k < pre.state.audio_mixer.pads@.len() && (
                #[trigger] pre.state.audio_mixer.pads@[k]).index == index;
            assert(post.state.audio_mixer.pads@[k].index == index);
        },
        (MediaType::Video, Direction::Output) => {
            let k = choose|k: int|
                0 <= k < pre.state.video_tee.pads@.len() && (
                #[trigger] pre.state.video_tee.pads@[k]) == index;
            assert(post.state.video_tee.pads@[k] == index);
        },
        (MediaType::Audio, Direction::Output) => {
            let k = choose|k: int|
                0 <= k < pre.state.audio_tee.pads@.len() && (
                #[trigger] pre.state.audio_tee.pads@[k]) == index;
            assert(post.state.audio_tee.pads@[k] == index);
        },
    }
}

/// The request adds a request pad carrying the fresh index to the serving
/// node.
proof fn lemma_request_adds_request_pad(
    pre: DkcScene,
    post: DkcScene,
    media: MediaType,
    dir: Direction,
)
    requires
        request_nodes_ok(pre, post, media, dir),
    ensures
        post.has_request_pad(media, dir, pre.next_of(media, dir)),
{
    match (media, dir) {
        (MediaType::Video, Direction::Input) => {
            let k = pre.state.video_mixer.pads@.len() as int;
            assert(post.state.video_mixer.pads@[k].index == pre.state.video_mixer.next_index);
        },
        (MediaType::Audio, Direction::Input) => {
            let k = pre.state.audio_mixer.pads@.len() as int;
            assert(post.state.audio_mixer.pads@[k].index == pre.state.audio_mixer.next_index);
        },
        (MediaType::Video, Direction::Output) => {
            let k = pre.state.video_tee.pads@.len() as int;
            assert(post.state.video_tee.pads@[k] == pre.state.video_tee.next_index);
        },
        (MediaType::Audio, Direction::Output) => {
            let k = pre.state.audio_tee.pads@.len() as int;
            assert(post.state.audio_tee.pads@[k] == pre.state.audio_tee.next_index);
        },
    }
}

/// A successful request preserves the internal nodes' invariant.
proof fn lemma_request_nodes_wf(
    pre: DkcScene,
    post: DkcScene,
    media: MediaType,
    dir: Direction,
    port: ProxyPort,
)
    requires
        pre.wf(),
        request_port_ok(pre, post, media, dir, port),
    ensures
        post.nodes_wf(),
{
    let n = pre.pads@.len() as int;
    assert forall|i: int| 0 <= i < post.pads@.len() implies post.pads@[i] == if i < n {
        pre.pads@[i]
    } else {
        post.pads@.last()
    } by {
        if i < n {
            assert(post.pads@.subrange(0, n)[i] == post.pads@[i]);
        }
    }
    assert forall|k: int| 0 <= k < post.state.video_mixer.pads@.len() implies exists|i: int|
        0 <= i < post.pads@.len() && (#[trigger] post.pads@[i]).port == (ProxyPort {
            media: MediaType::Video,
            dir: Direction::Input,
            index: (#[trigger] post.state.video_mixer.pads@[k]).index,
        }) by {
        if k < pre.state.video_mixer.pads@.len() {
            let idx = pre.state.video_mixer.pads@[k].index;
            let i = choose|i: int|
                0 <= i < pre.pads@.len() && (#[trigger] pre.pads@[i]).port == (ProxyPort {
                    media: MediaType::Video,
                    dir: Direction::Input,
                    index: idx,
                });
            assert(post.pads@[i] == pre.pads@[i]);
        } else {
            assert(post.pads@[n].port == port);
        }
    }
    assert forall|k: int| 0 <= k < post.state.audio_mixer.pads@.len() implies exists|i: int|
        0 <= i < post.pads@.len() && (#[trigger] post.pads@[i]).port == (ProxyPort {
            media: MediaType::Audio,
            dir: Direction::Input,
            index: (#[trigger] post.state.audio_mixer.pads@[k]).index,
        }) by {
        if k < pre.state.audio_mixer.pads@.len() {
            let idx = pre.state.audio_mixer.pads@[k].index;
            let i = choose|i: int|
                0 <= i < pre.pads@.len() && (#[trigger] pre.pads@[i]).port == (ProxyPort {
                    media: MediaType::Audio,
                    dir: Direction::Input,
                    index: idx,
                });
            assert(post.pads@[i] == pre.pads@[i]);
        } else {
            assert(post.pads@[n].port == port);
        }
    }
    assert forall|k: int| 0 <= k < post.state.video_tee.pads@.len() implies exists|i: int|
        0 <= i < post.pads@.len() && (#[trigger] post.pads@[i]).port == (ProxyPort {
            media: MediaType::Video,
            dir: Direction::Output,
            index: (#[trigger] post.state.video_tee.pads@[k]),
        }) by {
        if k < pre.state.video_tee.pads@.len() {
            let idx = pre.state.video_tee.pads@[k];
            let i = choose|i: int|
                0 <= i < pre.pads@.len() && (#[trigger] pre.pads@[i]).port == (ProxyPort {
                    media: MediaType::Video,
                    dir: Direction::Output,
                    index: idx,
                });
            assert(post.pads@[i] == pre.pads@[i]);
        } else {
            assert(post.pads@[n].port == port);
        }
    }
    assert forall|k: int| 0 <= k < post.state.audio_tee.pads@.len() implies exists|i: int|
        0 <= i < post.pads@.len() && (#[trigger] post.pads@[i]).port == (ProxyPort {
            media: MediaType::Audio,
            dir: Direction::Output,
            index: (#[trigger] post.state.audio_tee.pads@[k]),
        }) by {
        if k < pre.state.audio_tee.pads@.len() {
            let idx = pre.state.audio_tee.pads@[k];
            let i = choose|i: int|
                0 <= i < pre.pads@.len() && (#[trigger] pre.pads@[i]).port == (ProxyPort {
                    media: MediaType::Audio,
                    dir: Direction::Output,
                    index: idx,
                });
            assert(post.pads@[i] == pre.pads@[i]);
        } else {
            assert(post.pads@[n].port == port);
        }
    }
}

/// The video parameter table: `width`, `height`, `xpos` and `ypos` accept a
/// 32-bit signed integer, `alpha` a double, `zorder` a 32-bit unsigned
/// integer.  Any other name, or a value of the wrong runtime type, is
/// refused.
pub open spec fn video_param_ok(param: Seq<char>, v: ParamValue) -> bool {
    ||| ((param == "width"@ || param == "height"@ || param == "xpos"@ || param == "ypos"@) && v
        is IntVal)
    ||| (param == "alpha"@ && v is DoubleBits)
    ||| (param == "zorder"@ && v is UIntVal)
}

/// The audio parameter table: `mute` accepts a boolean, `volume` a double.
pub open spec fn audio_param_ok(param: Seq<char>, v: ParamValue) -> bool {
    ||| (param == "mute"@ && v is BoolVal)
    ||| (param == "volume"@ && v is DoubleBits)
}

/// The video control surface after one accepted parameter write; an
/// unaccepted write leaves it unchanged.
pub open spec fn apply_video_param(
    s: VideoInputSettings,
    param: Seq<char>,
    v: ParamValue,
) -> VideoInputSettings {
    if param == "width"@ && v is IntVal {
        VideoInputSettings { width: v->IntVal_0, ..s }
    } else if param == "height"@ && v is IntVal {
        VideoInputSettings { height: v->IntVal_0, ..s }
    } else if param == "xpos"@ && v is IntVal {
        VideoInputSettings { xpos: v->IntVal_0, ..s }
    } else if param == "ypos"@ && v is IntVal {
        VideoInputSettings { ypos: v->IntVal_0, ..s }
    } else if param == "alpha"@ && v is DoubleBits {
        VideoInputSettings { alpha_bits: v->DoubleBits_0, ..s }
    } else if param == "zorder"@ && v is UIntVal {
        VideoInputSettings { zorder: v->UIntVal_0, ..s }
    } else {
        s
    }
}

/// The audio control surface after one accepted parameter write.
pub open spec fn apply_audio_param(
    s: AudioInputSettings,
    param: Seq<char>,
    v: ParamValue,
) -> AudioInputSettings {
    if param == "mute"@ && v is BoolVal {
        AudioInputSettings { mute: v->BoolVal_0, ..s }
    } else if param == "volume"@ && v is DoubleBits {
        AudioInputSettings { volume_bits: v->DoubleBits_0, ..s }
    } else {
        s
    }
}

/// Reads one named parameter off a video control surface.
pub open spec fn video_setting_value(s: VideoInputSettings, param: Seq<char>) -> Option<
    ParamValue,
> {
    if param == "width"@ {
        Some(ParamValue::IntVal(s.width))
    } else if param == "height"@ {
        Some(ParamValue::IntVal(s.height))
    } else if param == "xpos"@ {
        Some(ParamValue::IntVal(s.xpos))
    } else if param == "ypos"@ {
        Some(ParamValue::IntVal(s.ypos))
    } else if param == "alpha"@ {
        Some(ParamValue::DoubleBits(s.alpha_bits))
    } else if param == "zorder"@ {
        Some(ParamValue::UIntVal(s.zorder))
    } else {
        None
    }
}

/// Reads one named parameter off an audio control surface.
pub open spec fn audio_setting_value(s: AudioInputSettings, param: Seq<char>) -> Option<
    ParamValue,
> {
    if param == "mute"@ {
        Some(ParamValue::BoolVal(s.mute))
    } else if param == "volume"@ {
        Some(ParamValue::DoubleBits(s.volume_bits))
    } else {
        None
    }
}

impl DkcScene {
    /// Whether an input-parameter update with these arguments is accepted:
    /// the name resolves to an exposed pad, that pad is an input, and the
    /// parameter table of its media type accepts the (name, value) pair.
    pub open spec fn update_accepted(self, name: Seq<char>, param: Seq<char>, v: ParamValue) -> bool {
        exists|i: int|
            0 <= i < self.pads@.len() && {
                let p = #[trigger] self.pads@[i];
                &&& p.name@ == name
                &&& p.port.dir == Direction::Input
                &&& match p.port.media {
                    MediaType::Video => video_param_ok(param, v),
                    MediaType::Audio => audio_param_ok(param, v),
                }
            }
    }

    /// Whether some exposed input pad bears the name `name`.
    pub open spec fn has_input_pad_named(self, name: Seq<char>) -> bool {
        exists|i: int|
            0 <= i < self.pads@.len() && (#[trigger] self.pads@[i]).name@ == name
                && self.pads@[i].port.dir == Direction::Input
    }

    /// The current value of one parameter of the mixer input that backs the
    /// named exposed input pad, if the pad and the parameter exist.
    pub open spec fn input_setting_spec(self, name: Seq<char>, param: Seq<char>) -> Option<
        ParamValue,
    > {
        if self.has_input_pad_named(name) {
            let i = choose|i: int|
                0 <= i < self.pads@.len() && (#[trigger] self.pads@[i]).name@ == name
                    && self.pads@[i].port.dir == Direction::Input;
            let p = self.pads@[i];
            match p.port.media {
                MediaType::Video => {
                    if exists|k: int|
                        0 <= k < self.state.video_mixer.pads@.len() && (
                        #[trigger] self.state.video_mixer.pads@[k]).index == p.port.index {
                        let k = choose|k: int|
                            0 <= k < self.state.video_mixer.pads@.len() && (
                            #[trigger] self.state.video_mixer.pads@[k]).index == p.port.index;
                        video_setting_value(self.state.video_mixer.pads@[k].settings, param)
                    } else {
                        None
                    }
                },
                MediaType::Audio => {
                    if exists|k: int|
                        0 <= k < self.state.audio_mixer.pads@.len() && (
                        #[trigger] self.state.audio_mixer.pads@[k]).index == p.port.index {
                        let k = choose|k: int|
                            0 <= k < self.state.audio_mixer.pads@.len() && (
                            #[trigger] self.state.audio_mixer.pads@[k]).index == p.port.index;
                        audio_setting_value(self.state.audio_mixer.pads@[k].settings, param)
                    } else {
                        None
                    }
                },
            }
        } else {
            None
        }
    }
}

/// What an input-parameter update never touches, accepted or not: the
/// exposed-pad table, the queues, every counter, the fan-outs, and the
/// indexes (though not the settings) of the mixers' request pads.
pub open spec fn update_input_frame(pre: DkcScene, post: DkcScene) -> bool {
    &&& post.name == pre.name
    &&& post.pads@ == pre.pads@
    &&& post.queues@ == pre.queues@
    &&& post.queue_next == pre.queue_next
    &&& post.state.video_mixer.next_index == pre.state.video_mixer.next_index
    &&& post.state.audio_mixer.next_index == pre.state.audio_mixer.next_index
    &&& post.state.video_tee.next_index == pre.state.video_tee.next_index
    &&& post.state.audio_tee.next_index == pre.state.audio_tee.next_index
    &&& post.state.video_tee.pads@ == pre.state.video_tee.pads@
    &&& post.state.audio_tee.pads@ == pre.state.audio_tee.pads@
    &&& post.state.video_mixer.pads@.len() == pre.state.video_mixer.pads@.len()
    &&& post.state.audio_mixer.pads@.len() == pre.state.audio_mixer.pads@.len()
    &&& forall|k: int|
        0 <= k < pre.state.video_mixer.pads@.len() ==> (
        #[trigger] post.state.video_mixer.pads@[k]).index == pre.state.video_mixer.pads@[k].index
    &&& forall|k: int|
        0 <= k < pre.state.audio_mixer.pads@.len() ==> (
        #[trigger] post.state.audio_mixer.pads@[k]).index == pre.state.audio_mixer.pads@[k].index
}

/// An accepted update writes exactly one parameter of exactly one mixer
/// input: the one backing the named exposed input pad.
pub open spec fn update_applied(
    pre: DkcScene,
    post: DkcScene,
    name: Seq<char>,
    param: Seq<char>,
    v: ParamValue,
) -> bool {
    exists|i: int|
        0 <= i < pre.pads@.len() && (#[trigger] pre.pads@[i]).name@ == name && pre.pads@[i].port.dir
            == Direction::Input && settings_updated(
            pre,
            post,
            pre.pads@[i].port.media,
            pre.pads@[i].port.index,
            param,
            v,
        )
}

/// The mixer input carrying `index` takes one parameter write; the other
/// mixer is untouched.
pub open spec fn settings_updated(
    pre: DkcScene,
    post: DkcScene,
    media: MediaType,
    index: u32,
    param: Seq<char>,
    v: ParamValue,
) -> bool {
    match media {
        MediaType::Video => exists|k: int|
            0 <= k < pre.state.video_mixer.pads@.len() && (
            #[trigger] pre.state.video_mixer.pads@[k]).index == index
                && post.state.video_mixer.pads@ == pre.state.video_mixer.pads@.update(
                k,
                VideoMixerPad {
                    index,
                    settings: apply_video_param(
                        pre.state.video_mixer.pads@[k].settings,
                        param,
                        v,
                    ),
                },
            ) && post.state.audio_mixer.pads@ == pre.state.audio_mixer.pads@,
        MediaType::Audio => exists|k: int|
            0 <= k < pre.state.audio_mixer.pads@.len() && (
            #[trigger] pre.state.audio_mixer.pads@[k]).index == index
                && post.state.audio_mixer.pads@ == pre.state.audio_mixer.pads@.update(
                k,
                AudioMixerPad {
                    index,
                    settings: apply_audio_param(
                        pre.state.audio_mixer.pads@[k].settings,
                        param,
                        v,
                    ),
                },
            ) && post.state.video_mixer.pads@ == pre.state.video_mixer.pads@,
    }
}

/// Under the pad invariant, at most one exposed pad bears a given name.
proof fn lemma_pad_name_unique(s: DkcScene, i: int)
    requires
        s.pads_wf(),
        0 <= i < s.pads@.len(),
    ensures
        forall|j: int|
            0 <= j < s.pads@.len() && (#[trigger] s.pads@[j]).name@ == s.pads@[i].name@ ==> j == i,
{
    assert forall|j: int|
        0 <= j < s.pads@.len() && (#[trigger] s.pads@[j]).name@ == s.pads@[i].name@ implies j
        == i by {
        if j != i {
            crate::names::lemma_port_name_injective(
                s.pads@[j].port.media,
                s.pads@[j].port.dir,
                s.pads@[j].port.index as nat,
                s.pads@[i].port.media,
                s.pads@[i].port.dir,
                s.pads@[i].port.index as nat,
            );
        }
    }
}

/// A parameter write on a mixer input preserves the hub invariant: no
/// counter, index, queue or pad-table row changes.
proof fn lemma_update_preserves_wf(pre: DkcScene, post: DkcScene)
    requires
        pre.wf(),
        update_input_frame(pre, post),
    ensures
        post.wf(),
{
    assert forall|i: int| 0 <= i < post.pads@.len() implies {
        let p = #[trigger] post.pads@[i];
        &&& exists|k: int| 0 <= k < post.queues@.len() && (#[trigger] post.queues@[k]).id
            == p.queue_id
        &&& post.has_request_pad(p.port.media, p.port.dir, p.port.index)
    } by {
        let p = pre.pads@[i];
        // Mention the pad row so the chain invariant instantiates at i.
        assert(pre.pads@[i] == pre.pads@[i]);
        let k = choose|k: int|
            0 <= k < pre.queues@.len() && (#[trigger] pre.queues@[k]).id == p.queue_id;
        assert(post.queues@[k].id == p.queue_id);
        match (p.port.media, p.port.dir) {
            (MediaType::Video, Direction::Input) => {
                let k2 = choose|k2: int|
                    0 <= k2 < pre.state.video_mixer.pads@.len() && (
                    #[trigger] pre.state.video_mixer.pads@[k2]).index == p.port.index;
                assert(post.state.video_mixer.pads@[k2].index == p.port.index);
            },
            (MediaType::Audio, Direction::Input) => {
                let k2 = choose|k2: int|
                    0 <= k2 < pre.state.audio_mixer.pads@.len() && (
                    #[trigger] pre.state.audio_mixer.pads@[k2]).index == p.port.index;
                assert(post.state.audio_mixer.pads@[k2].index == p.port.index);
            },
            (MediaType::Video, Direction::Output) => {},
            (MediaType::Audio, Direction::Output) => {},
        }
    }
    assert forall|k: int| 0 <= k < post.state.video_mixer.pads@.len() implies exists|i: int|
        0 <= i < post.pads@.len() && (#[trigger] post.pads@[i]).port == (ProxyPort {
            media: MediaType::Video,
            dir: Direction::Input,
            index: (#[trigger] post.state.video_mixer.pads@[k]).index,
        }) by {
        assert(post.state.video_mixer.pads@[k].index == pre.state.video_mixer.pads@[k].index);
        let i = choose|i: int|
            0 <= i < pre.pads@.len() && (#[trigger] pre.pads@[i]).port == (ProxyPort {
                media: MediaType::Video,
                dir: Direction::Input,
                index: pre.state.video_mixer.pads@[k].index,
            });
        assert(post.pads@[i] == pre.pads@[i]);
    }
    assert forall|k: int| 0 <= k < post.state.audio_mixer.pads@.len() implies exists|i: int|
        0 <= i < post.pads@.len() && (#[trigger] post.pads@[i]).port == (ProxyPort {
            media: MediaType::Audio,
            dir: Direction::Input,
            index: (#[trigger] post.state.audio_mixer.pads@[k]).index,
        }) by {
        assert(post.state.audio_mixer.pads@[k].index == pre.state.audio_mixer.pads@[k].index);
        let i = choose|i: int|
            0 <= i < pre.pads@.len() && (#[trigger] pre.pads@[i]).port == (ProxyPort {
                media: MediaType::Audio,
                dir: Direction::Input,
                index: pre.state.audio_mixer.pads@[k].index,
            });
        assert(post.pads@[i] == pre.pads@[i]);
    }
    assert forall|k: int| 0 <= k < post.queues@.len() implies post.queue_in_use(
        (#[trigger] post.queues@[k]).id,
    ) by {
        assert(pre.queue_in_use(pre.queues@[k].id));
        let i = choose|i: int|
            0 <= i < pre.pads@.len() && (#[trigger] pre.pads@[i]).queue_id == pre.queues@[k].id;
        assert(post.pads@[i].queue_id == pre.queues@[k].id);
    }
}

/// Recording a peer on an exposed pad preserves the hub invariant: the
/// pad's port, name and chain stay as they were.
proof fn lemma_connect_preserves_wf(pre: DkcScene, post: DkcScene, i: int, peer: PeerPad)
    requires
        pre.wf(),
        0 <= i < pre.pads@.len(),
        pre.pads@[i].peer is None,
        peer_compatible(pre.pads@[i].port, peer),
        post.pads@ == pre.pads@.update(
            i,
            HubPad {
                port: pre.pads@[i].port,
                name: pre.pads@[i].name,
                queue_id: pre.pads@[i].queue_id,
                peer: Some(peer),
            },
        ),
        post.queues@ == pre.queues@,
        post.queue_next == pre.queue_next,
        post.state == pre.state,
    ensures
        post.wf(),
{
    assert forall|x: int| 0 <= x < post.pads@.len() implies {
        &&& (#[trigger] post.pads@[x]).port == pre.pads@[x].port
        &&& post.pads@[x].queue_id == pre.pads@[x].queue_id
        &&& post.pads@[x].name == pre.pads@[x].name
    } by {}
    assert forall|x: int| 0 <= x < post.pads@.len() implies {
        let p = #[trigger] post.pads@[x];
        &&& exists|k: int| 0 <= k < post.queues@.len() && (#[trigger] post.queues@[k]).id
            == p.queue_id
        &&& post.has_request_pad(p.port.media, p.port.dir, p.port.index)
    } by {
        // Mention the pad row so the chain invariant instantiates at x.
        assert(pre.pads@[x] == pre.pads@[x]);
        let k = choose|k: int|
            0 <= k < pre.queues@.len() && (#[trigger] pre.queues@[k]).id == pre.pads@[x].queue_id;
        assert(post.queues@[k].id == post.pads@[x].queue_id);
        assert(pre.has_request_pad(pre.pads@[x].port.media, pre.pads@[x].port.dir,
            pre.pads@[x].port.index));
    }
    assert forall|k: int| 0 <= k < post.state.video_mixer.pads@.len() implies exists|x: int|
        0 <= x < post.pads@.len() && (#[trigger] post.pads@[x]).port == (ProxyPort {
            media: MediaType::Video,
            dir: Direction::Input,
            index: (#[trigger] post.state.video_mixer.pads@[k]).index,
        }) by {
        let x = choose|x: int|
            0 <= x < pre.pads@.len() && (#[trigger] pre.pads@[x]).port == (ProxyPort {
                media: MediaType::Video,
                dir: Direction::Input,
                index: pre.state.video_mixer.pads@[k].index,
            });
        assert(post.pads@[x].port == pre.pads@[x].port);
    }
    assert forall|k: int| 0 <= k < post.state.audio_mixer.pads@.len() implies exists|x: int|
        0 <= x < post.pads@.len() && (#[trigger] post.pads@[x]).port == (ProxyPort {
            media: MediaType::Audio,
            dir: Direction::Input,
            index: (#[trigger] post.state.audio_mixer.pads@[k]).index,
        }) by {
        let x = choose|x: int|
            0 <= x < pre.pads@.len() && (#[trigger] pre.pads@[x]).port == (ProxyPort {
                media: MediaType::Audio,
                dir: Direction::Input,
                index: pre.state.audio_mixer.pads@[k].index,
            });
        assert(post.pads@[x].port == pre.pads@[x].port);
    }
    assert forall|k: int| 0 <= k < post.state.video_tee.pads@.len() implies exists|x: int|
        0 <= x < post.pads@.len() && (#[trigger] post.pads@[x]).port == (ProxyPort {
            media: MediaType::Video,
            dir: Direction::Output,
            index: (#[trigger] post.state.video_tee.pads@[k]),
        }) by {
        let x = choose|x: int|
            0 <= x < pre.pads@.len() && (#[trigger] pre.pads@[x]).port == (ProxyPort {
                media: MediaType::Video,
                dir: Direction::Output,
                index: pre.state.video_tee.pads@[k],
            });
        assert(post.pads@[x].port == pre.pads@[x].port);
    }
    assert forall|k: int| 0 <= k < post.state.audio_tee.pads@.len() implies exists|x: int|
        0 <= x < post.pads@.len() && (#[trigger] post.pads@[x]).port == (ProxyPort {
            media: MediaType::Audio,
            dir: Direction::Output,
            index: (#[trigger] post.state.audio_tee.pads@[k]),
        }) by {
        let x = choose|x: int|
            0 <= x < pre.pads@.len() && (#[trigger] pre.pads@[x]).port == (ProxyPort {
                media: MediaType::Audio,
                dir: Direction::Output,
                index: pre.state.audio_tee.pads@[k],
            });
        assert(post.pads@[x].port == pre.pads@[x].port);
    }
    assert forall|k: int| 0 <= k < post.queues@.len() implies post.queue_in_use(
        (#[trigger] post.queues@[k]).id,
    ) by {
        assert(pre.queue_in_use(pre.queues@[k].id));
        let x = choose|x: int|
            0 <= x < pre.pads@.len() && (#[trigger] pre.pads@[x]).queue_id == pre.queues@[k].id;
        assert(post.pads@[x].queue_id == pre.queues@[k].id);
    }
}

/// Request pads of classes other than the released one, and request pads of
/// the released class with another index, survive a release.
proof fn lemma_release_keeps_request_pads(
    pre: DkcScene,
    post: DkcScene,
    media: MediaType,
    dir: Direction,
    ridx: u32,
    m: MediaType,
    d: Direction,
    index: u32,
)
    requires
        pre.nodes_wf(),
        release_nodes_ok(pre, post, media, dir, ridx),
        pre.has_request_pad(m, d, index),
        !(m == media && d == dir && index == ridx),
    ensures
        post.has_request_pad(m, d, index),
{
    match (m, d) {
        (MediaType::Video, Direction::Input) => {
            let j = choose|j: int|
                0 <= j < pre.state.video_mixer.pads@.len() && (
                #[trigger] pre.state.video_mixer.pads@[j]).index == index;
            if m == media && d == dir {
                let k = choose|k: int|
                    0 <= k < pre.state.video_mixer.pads@.len() && (
                    #[trigger] pre.state.video_mixer.pads@[k]).index == ridx
                        && post.state.video_mixer.pads@ == pre.state.video_mixer.pads@.remove(k);
                pre.state.video_mixer.pads@.remove_ensures(k);
                let jn = if j < k {
                    j
                } else {
                    j - 1
                };
                assert(post.state.video_mixer.pads@[jn].index == index);
            } else {
                assert(post.state.video_mixer.pads@[j].index == index);
            }
        },
        (MediaType::Audio, Direction::Input) => {
            let j = choose|j: int|
                0 <= j < pre.state.audio_mixer.pads@.len() && (
                #[trigger] pre.state.audio_mixer.pads@[j]).index == index;
            if m == media && d == dir {
                let k = choose|k: int|
                    0 <= k < pre.state.audio_mixer.pads@.len() && (
                    #[trigger] pre.state.audio_mixer.pads@[k]).index == ridx
                        && post.state.audio_mixer.pads@ == pre.state.audio_mixer.pads@.remove(k);
                pre.state.audio_mixer.pads@.remove_ensures(k);
                let jn = if j < k {
                    j
                } else {
                    j - 1
                };
                assert(post.state.audio_mixer.pads@[jn].index == index);
            } else {
                assert(post.state.audio_mixer.pads@[j].index == index);
            }
        },
        (MediaType::Video, Direction::Output) => {
            let j = choose|j: int|
                0 <= j < pre.state.video_tee.pads@.len() && (
                #[trigger] pre.state.video_tee.pads@[j]) == index;
            if m == media && d == dir {
                let k = choose|k: int|
                    0 <= k < pre.state.video_tee.pads@.len() && (
                    #[trigger] pre.state.video_tee.pads@[k]) == ridx && post.state.video_tee.pads@
                        == pre.state.video_tee.pads@.remove(k);
                pre.state.video_tee.pads@.remove_ensures(k);
                let jn = if j < k {
                    j
                } else {
                    j - 1
                };
                assert(post.state.video_tee.pads@[jn] == index);
            } else {
                assert(post.state.video_tee.pads@[j] == index);
            }
        },
        (MediaType::Audio, Direction::Output) => {
            let j = choose|j: int|
                0 <= j < pre.state.audio_tee.pads@.len() && (
                #[trigger] pre.state.audio_tee.pads@[j]) == index;
            if m == media && d == dir {
                let k = choose|k: int|
                    0 <= k < pre.state.audio_tee.pads@.len() && (
                    #[trigger] pre.state.audio_tee.pads@[k]) == ridx && post.state.audio_tee.pads@
                        == pre.state.audio_tee.pads@.remove(k);
                pre.state.audio_tee.pads@.remove_ensures(k);
                let jn = if j < k {
                    j
                } else {
                    j - 1
                };
                assert(post.state.audio_tee.pads@[jn] == index);
            } else {
                assert(post.state.audio_tee.pads@[j] == index);
            }
        },
    }
}

/// A pad other than the removed one survives the removal.
proof fn lemma_pad_survives(pre: DkcScene, post: DkcScene, i: int, q: ProxyPort)
    requires
        0 <= i < pre.pads@.len(),
        post.pads@ == pre.pads@.remove(i),
        exists|x: int| 0 <= x < pre.pads@.len() && (#[trigger] pre.pads@[x]).port == q,
        pre.pads@[i].port != q,
    ensures
        exists|x: int| 0 <= x < post.pads@.len() && (#[trigger] post.pads@[x]).port == q,
{
    let x = choose|x: int| 0 <= x < pre.pads@.len() && (#[trigger] pre.pads@[x]).port == q;
    pre.pads@.remove_ensures(i);
    let xn = if x < i {
        x
    } else {
        x - 1
    };
    assert(post.pads@[xn].port == q);
}

/// After a release, the internal nodes' request-pad indexes keep their
/// bounds, their distinctness, and their difference from the released index.
#[verifier::rlimit(100)]
proof fn lemma_release_nodes_indexes(pre: DkcScene, post: DkcScene, port: ProxyPort)
    requires
        pre.wf(),
        release_nodes_ok(pre, post, port.media, port.dir, port.index),
        forall|m: MediaType, d: Direction| #[trigger] post.next_of(m, d) == pre.next_of(m, d),
    ensures
        forall|k: int|
            0 <= k < post.state.video_mixer.pads@.len() ==> (
            #[trigger] post.state.video_mixer.pads@[k]).index
                < post.state.video_mixer.next_index,
        forall|k: int, l: int|
            0 <= k < l < post.state.video_mixer.pads@.len() ==> (
            #[trigger] post.state.video_mixer.pads@[k]).index != (
            #[trigger] post.state.video_mixer.pads@[l]).index,
        forall|k: int|
            0 <= k < post.state.audio_mixer.pads@.len() ==> (
            #[trigger] post.state.audio_mixer.pads@[k]).index
                < post.state.audio_mixer.next_index,
        forall|k: int, l: int|
            0 <= k < l < post.state.audio_mixer.pads@.len() ==> (
            #[trigger] post.state.audio_mixer.pads@[k]).index != (
            #[trigger] post.state.audio_mixer.pads@[l]).index,
        forall|k: int|
            0 <= k < post.state.video_tee.pads@.len() ==> (
            #[trigger] post.state.video_tee.pads@[k]) < post.state.video_tee.next_index,
        forall|k: int, l: int|
            0 <= k < l < post.state.video_tee.pads@.len() ==> (
            #[trigger] post.state.video_tee.pads@[k]) != (
            #[trigger] post.state.video_tee.pads@[l]),
        forall|k: int|
            0 <= k < post.state.audio_tee.pads@.len() ==> (
            #[trigger] post.state.audio_tee.pads@[k]) < post.state.audio_tee.next_index,
        forall|k: int, l: int|
            0 <= k < l < post.state.audio_tee.pads@.len() ==> (
            #[trigger] post.state.audio_tee.pads@[k]) != (
            #[trigger] post.state.audio_tee.pads@[l]),
        forall|k: int|
            0 <= k < post.state.video_mixer.pads@.len() ==> (port.media == MediaType::Video
                && port.dir == Direction::Input ==> (
            #[trigger] post.state.video_mixer.pads@[k]).index != port.index),
        forall|k: int|
            0 <= k < post.state.audio_mixer.pads@.len() ==> (port.media == MediaType::Audio
                && port.dir == Direction::Input ==> (
            #[trigger] post.state.audio_mixer.pads@[k]).index != port.index),
        forall|k: int|
            0 <= k < post.state.video_tee.pads@.len() ==> (port.media == MediaType::Video
                && port.dir == Direction::Output ==> (
            #[trigger] post.state.video_tee.pads@[k]) != port.index),
        forall|k: int|
            0 <= k < post.state.audio_tee.pads@.len() ==> (port.media == MediaType::Audio
                && port.dir == Direction::Output ==> (
            #[trigger] post.state.audio_tee.pads@[k]) != port.index),
{
    assert(post.next_of(MediaType::Video, Direction::Input) == pre.next_of(
        MediaType::Video,
        Direction::Input,
    ));
    assert(post.next_of(MediaType::Audio, Direction::Input) == pre.next_of(
        MediaType::Audio,
        Direction::Input,
    ));
    assert(post.next_of(MediaType::Video, Direction::Output) == pre.next_of(
        MediaType::Video,
        Direction::Output,
    ));
    assert(post.next_of(MediaType::Audio, Direction::Output) == pre.next_of(
        MediaType::Audio,
        Direction::Output,
    ));
    // The serving node: its surviving pads map into the pre-state pads with
    // a shift, so index bounds and distinctness carry over; the other three
    // nodes keep their pad sequences.
    match (port.media, port.dir) {
        (MediaType::Video, Direction::Input) => {
            let k = choose|k: int|
                0 <= k < pre.state.video_mixer.pads@.len() && (
                #[trigger] pre.state.video_mixer.pads@[k]).index == port.index
                    && post.state.video_mixer.pads@ == pre.state.video_mixer.pads@.remove(k);
            pre.state.video_mixer.pads@.remove_ensures(k);
            assert forall|y: int| 0 <= y < post.state.video_mixer.pads@.len() implies (
            #[trigger] post.state.video_mixer.pads@[y]) == pre.state.video_mixer.pads@[if y < k {
                y
            } else {
                y + 1
            }] by {}
            assert forall|y: int, l: int|
                0 <= y < l < post.state.video_mixer.pads@.len() implies (
            #[trigger] post.state.video_mixer.pads@[y]).index != (
            #[trigger] post.state.video_mixer.pads@[l]).index by {
                let yo = if y < k {
                    y
                } else {
                    y + 1
                };
                let lo = if l < k {
                    l
                } else {
                    l + 1
                };
                assert(pre.state.video_mixer.pads@[yo].index
                    != pre.state.video_mixer.pads@[lo].index);
            }
            assert forall|y: int| 0 <= y < post.state.video_mixer.pads@.len() implies (
            #[trigger] post.state.video_mixer.pads@[y]).index != port.index by {
                let yo = if y < k {
                    y
                } else {
                    y + 1
                };
                assert(pre.state.video_mixer.pads@[yo].index
                    != pre.state.video_mixer.pads@[k].index);
            }
        },
        (MediaType::Audio, Direction::Input) => {
            let k = choose|k: int|
                0 <= k < pre.state.audio_mixer.pads@.len() && (
                #[trigger] pre.state.audio_mixer.pads@[k]).index == port.index
                    && post.state.audio_mixer.pads@ == pre.state.audio_mixer.pads@.remove(k);
            pre.state.audio_mixer.pads@.remove_ensures(k);
            assert forall|y: int| 0 <= y < post.state.audio_mixer.pads@.len() implies (
            #[trigger] post.state.audio_mixer.pads@[y]) == pre.state.audio_mixer.pads@[if y < k {
                y
            } else {
                y + 1
            }] by {}
            assert forall|y: int, l: int|
                0 <= y < l < post.state.audio_mixer.pads@.len() implies (
            #[trigger] post.state.audio_mixer.pads@[y]).index != (
            #[trigger] post.state.audio_mixer.pads@[l]).index by {
                let yo = if y < k {
                    y
                } else {
                    y + 1
                };
                let lo = if l < k {
                    l
                } else {
                    l + 1
                };
                assert(pre.state.audio_mixer.pads@[yo].index
                    != pre.state.audio_mixer.pads@[lo].index);
            }
            assert forall|y: int| 0 <= y < post.state.audio_mixer.pads@.len() implies (
            #[trigger] post.state.audio_mixer.pads@[y]).index != port.index by {
                let yo = if y < k {
                    y
                } else {
                    y + 1
                };
                assert(pre.state.audio_mixer.pads@[yo].index
                    != pre.state.audio_mixer.pads@[k].index);
            }
        },
        (MediaType::Video, Direction::Output) => {
            let k = choose|k: int|
                0 <= k < pre.state.video_tee.pads@.len() && (
                #[trigger] pre.state.video_tee.pads@[k]) == port.index
                    && post.state.video_tee.pads@ == pre.state.video_tee.pads@.remove(k);
            pre.state.video_tee.pads@.remove_ensures(k);
            assert forall|y: int| 0 <= y < post.state.video_tee.pads@.len() implies (
            #[trigger] post.state.video_tee.pads@[y]) == pre.state.video_tee.pads@[if y < k {
                y
            } else {
                y + 1
            }] by {}
            assert forall|y: int, l: int|
                0 <= y < l < post.state.video_tee.pads@.len() implies (
            #[trigger] post.state.video_tee.pads@[y]) != (
            #[trigger] post.state.video_tee.pads@[l]) by {
                let yo = if y < k {
                    y
                } else {
                    y + 1
                };
                let lo = if l < k {
                    l
                } else {
                    l + 1
                };
                assert(pre.state.video_tee.pads@[yo] != pre.state.video_tee.pads@[lo]);
            }
            assert forall|y: int| 0 <= y < post.state.video_tee.pads@.len() implies (
            #[trigger] post.state.video_tee.pads@[y]) != port.index by {
                let yo = if y < k {
                    y
                } else {
                    y + 1
                };
                assert(pre.state.video_tee.pads@[yo] != pre.state.video_tee.pads@[k]);
            }
        },
        (MediaType::Audio, Direction::Output) => {
            let k = choose|k: int|
                0 <= k < pre.state.audio_tee.pads@.len() && (
                #[trigger] pre.state.audio_tee.pads@[k]) == port.index
                    && post.state.audio_tee.pads@ == pre.state.audio_tee.pads@.remove(k);
            pre.state.audio_tee.pads@.remove_ensures(k);
            assert forall|y: int| 0 <= y < post.state.audio_tee.pads@.len() implies (
            #[trigger] post.state.audio_tee.pads@[y]) == pre.state.audio_tee.pads@[if y < k {
                y
            } else {
                y + 1
            }] by {}
            assert forall|y: int, l: int|
                0 <= y < l < post.state.audio_tee.pads@.len() implies (
            #[trigger] post.state.audio_tee.pads@[y]) != (
            #[trigger] post.state.audio_tee.pads@[l]) by {
                let yo = if y < k {
                    y
                } else {
                    y + 1
                };
                let lo = if l < k {
                    l
                } else {
                    l + 1
                };
                assert(pre.state.audio_tee.pads@[yo] != pre.state.audio_tee.pads@[lo]);
            }
            assert forall|y: int| 0 <= y < post.state.audio_tee.pads@.len() implies (
            #[trigger] post.state.audio_tee.pads@[y]) != port.index by {
                let yo = if y < k {
                    y
                } else {
                    y + 1
                };
                assert(pre.state.audio_tee.pads@[yo] != pre.state.audio_tee.pads@[k]);
            }
        },
    }
}

/// A successful release preserves the internal nodes' invariant.
#[verifier::rlimit(100)]
proof fn lemma_release_nodes_wf(pre: DkcScene, post: DkcScene, port: ProxyPort, i: int)
    requires
        pre.wf(),
        0 <= i < pre.pads@.len(),
        pre.pads@[i].port == port,
        post.pads@ == pre.pads@.remove(i),
        release_nodes_ok(pre, post, port.media, port.dir, port.index),
        forall|m: MediaType, d: Direction| #[trigger] post.next_of(m, d) == pre.next_of(m, d),
    ensures
        post.nodes_wf(),
{
    lemma_release_nodes_indexes(pre, post, port);
    // Every surviving request pad still backs an exposed pad: its port
    // differs from the released one, by index within the released class and
    // by class everywhere else.
    assert forall|y: int| 0 <= y < post.state.video_mixer.pads@.len() implies exists|x: int|
        0 <= x < post.pads@.len() && (#[trigger] post.pads@[x]).port == (ProxyPort {
            media: MediaType::Video,
            dir: Direction::Input,
            index: (#[trigger] post.state.video_mixer.pads@[y]).index,
        }) by {
        let idx = post.state.video_mixer.pads@[y].index;
        let q = ProxyPort { media: MediaType::Video, dir: Direction::Input, index: idx };
        assert(q != port);
        lemma_pad_survives(pre, post, i, q);
    }
    assert forall|y: int| 0 <= y < post.state.audio_mixer.pads@.len() implies exists|x: int|
        0 <= x < post.pads@.len() && (#[trigger] post.pads@[x]).port == (ProxyPort {
            media: MediaType::Audio,
            dir: Direction::Input,
            index: (#[trigger] post.state.audio_mixer.pads@[y]).index,
        }) by {
        let idx = post.state.audio_mixer.pads@[y].index;
        let q = ProxyPort { media: MediaType::Audio, dir: Direction::Input, index: idx };
        assert(q != port);
        lemma_pad_survives(pre, post, i, q);
    }
    assert forall|y: int| 0 <= y < post.state.video_tee.pads@.len() implies exists|x: int|
        0 <= x < post.pads@.len() && (#[trigger] post.pads@[x]).port == (ProxyPort {
            media: MediaType::Video,
            dir: Direction::Output,
            index: (#[trigger] post.state.video_tee.pads@[y]),
        }) by {
        let idx = post.state.video_tee.pads@[y];
        let q = ProxyPort { media: MediaType::Video, dir: Direction::Output, index: idx };
        assert(q != port);
        lemma_pad_survives(pre, post, i, q);
    }
    assert forall|y: int| 0 <= y < post.state.audio_tee.pads@.len() implies exists|x: int|
        0 <= x < post.pads@.len() && (#[trigger] post.pads@[x]).port == (ProxyPort {
            media: MediaType::Audio,
            dir: Direction::Output,
            index: (#[trigger] post.state.audio_tee.pads@[y]),
        }) by {
        let idx = post.state.audio_tee.pads@[y];
        let q = ProxyPort { media: MediaType::Audio, dir: Direction::Output, index: idx };
        assert(q != port);
        lemma_pad_survives(pre, post, i, q);
    }
    assert(forall|k: int|
        0 <= k < post.state.video_mixer.pads@.len() ==> (
        #[trigger] post.state.video_mixer.pads@[k]).index < post.state.video_mixer.next_index);
    assert(forall|k: int, l: int|
        0 <= k < l < post.state.video_mixer.pads@.len() ==> (
        #[trigger] post.state.video_mixer.pads@[k]).index != (
        #[trigger] post.state.video_mixer.pads@[l]).index);
    assert(forall|k: int|
        0 <= k < post.state.audio_mixer.pads@.len() ==> (
        #[trigger] post.state.audio_mixer.pads@[k]).index < post.state.audio_mixer.next_index);
    assert(forall|k: int, l: int|
        0 <= k < l < post.state.audio_mixer.pads@.len() ==> (
        #[trigger] post.state.audio_mixer.pads@[k]).index != (
        #[trigger] post.state.audio_mixer.pads@[l]).index);
    assert(forall|k: int|
        0 <= k < post.state.video_tee.pads@.len() ==> (#[trigger] post.state.video_tee.pads@[k])
            < post.state.video_tee.next_index);
    assert(forall|k: int, l: int|
        0 <= k < l < post.state.video_tee.pads@.len() ==> (
        #[trigger] post.state.video_tee.pads@[k]) != (#[trigger] post.state.video_tee.pads@[l]));
    assert(forall|k: int|
        0 <= k < post.state.audio_tee.pads@.len() ==> (#[trigger] post.state.audio_tee.pads@[k])
            < post.state.audio_tee.next_index);
    assert(forall|k: int, l: int|
        0 <= k < l < post.state.audio_tee.pads@.len() ==> (
        #[trigger] post.state.audio_tee.pads@[k]) != (#[trigger] post.state.audio_tee.pads@[l]));
}

/// A successful release preserves the hub invariant.
proof fn lemma_release_preserves_wf(
    pre: DkcScene,
    post: DkcScene,
    port: ProxyPort,
    i: int,
    kq: int,
)
    requires
        pre.wf(),
        0 <= i < pre.pads@.len(),
        pre.pads@[i].port == port,
        post.pads@ == pre.pads@.remove(i),
        0 <= kq < pre.queues@.len(),
        pre.queues@[kq].id == pre.pads@[i].queue_id,
        post.queues@ == pre.queues@.remove(kq),
        release_nodes_ok(pre, post, port.media, port.dir, port.index),
        post.queue_next == pre.queue_next,
        forall|m: MediaType, d: Direction| #[trigger] post.next_of(m, d) == pre.next_of(m, d),
    ensures
        post.wf(),
{
    let n = pre.pads@.len() as int;
    assert forall|x: int| 0 <= x < post.pads@.len() implies #[trigger] post.pads@[x]
        == pre.pads@[if x < i {
        x
    } else {
        x + 1
    }] by {
        pre.pads@.remove_ensures(i);
    }
    assert forall|x: int| 0 <= x < post.queues@.len() implies #[trigger] post.queues@[x]
        == pre.queues@[if x < kq {
        x
    } else {
        x + 1
    }] by {
        pre.queues@.remove_ensures(kq);
    }
    // pads_wf: every surviving pad keeps its pre-state row, and the
    // counters stand still.
    assert forall|x: int| 0 <= x < post.pads@.len() implies {
        let p = #[trigger] post.pads@[x];
        &&& p.name@ == port_name_seq(p.port.media, p.port.dir, p.port.index as nat)
        &&& p.port.index < post.next_of(p.port.media, p.port.dir)
        &&& match p.peer {
            Some(PeerPad::SourcePad { source_id: _, media }) => p.port.dir == Direction::Input
                && media == p.port.media,
            Some(PeerPad::SinkPad { sink_id: _, media }) => p.port.dir == Direction::Output
                && media == p.port.media,
            None => true,
        }
    } by {
        let xo = if x < i {
            x
        } else {
            x + 1
        };
        assert(pre.pads@[xo] == pre.pads@[xo]);
    }
    assert forall|x: int, y: int| 0 <= x < y < post.pads@.len() implies (
    #[trigger] post.pads@[x]).port != (#[trigger] post.pads@[y]).port by {
        let xo = if x < i {
            x
        } else {
            x + 1
        };
        let yo = if y < i {
            y
        } else {
            y + 1
        };
        assert(pre.pads@[xo].port != pre.pads@[yo].port);
    }
    // queues_wf.
    assert forall|x: int| 0 <= x < post.queues@.len() implies (#[trigger] post.queues@[x]).id
        < post.queue_next by {
        let xo = if x < kq {
            x
        } else {
            x + 1
        };
        assert(pre.queues@[xo].id < pre.queue_next);
    }
    assert forall|x: int, y: int| 0 <= x < y < post.queues@.len() implies (
    #[trigger] post.queues@[x]).id != (#[trigger] post.queues@[y]).id by {
        let xo = if x < kq {
            x
        } else {
            x + 1
        };
        let yo = if y < kq {
            y
        } else {
            y + 1
        };
        assert(pre.queues@[xo].id != pre.queues@[yo].id);
    }
    // chains_wf: a surviving pad's queue differs from the released one, so
    // its witness survives the removal; its request pad carries another
    // index of the same class, or another class entirely.
    assert forall|x: int| 0 <= x < post.pads@.len() implies {
        let p = #[trigger] post.pads@[x];
        &&& exists|k: int| 0 <= k < post.queues@.len() && (#[trigger] post.queues@[k]).id
            == p.queue_id
        &&& post.has_request_pad(p.port.media, p.port.dir, p.port.index)
    } by {
        let xo = if x < i {
            x
        } else {
            x + 1
        };
        let p = pre.pads@[xo];
        // Mention the pad row so the chain invariant instantiates at xo.
        assert(pre.pads@[xo] == pre.pads@[xo]);
        let k = choose|k: int|
            0 <= k < pre.queues@.len() && (#[trigger] pre.queues@[k]).id == p.queue_id;
        assert(p.queue_id != pre.pads@[i].queue_id);
        assert(k != kq);
        let knew = if k < kq {
            k
        } else {
            k - 1
        };
        assert(post.queues@[knew].id == p.queue_id);
        if p.port.media == port.media && p.port.dir == port.dir {
            assert(p.port.index != port.index);
        }
        lemma_release_keeps_request_pads(
            pre,
            post,
            port.media,
            port.dir,
            port.index,
            p.port.media,
            p.port.dir,
            p.port.index,
        );
    }
    assert forall|x: int, y: int| 0 <= x < y < post.pads@.len() implies (
    #[trigger] post.pads@[x]).queue_id != (#[trigger] post.pads@[y]).queue_id by {
        let xo = if x < i {
            x
        } else {
            x + 1
        };
        let yo = if y < i {
            y
        } else {
            y + 1
        };
        assert(pre.pads@[xo].queue_id != pre.pads@[yo].queue_id);
    }
    lemma_release_nodes_wf(pre, post, port, i);
    // counts_wf: every surviving queue's user pad survives too.
    assert forall|k: int| 0 <= k < post.queues@.len() implies post.queue_in_use(
        (#[trigger] post.queues@[k]).id,
    ) by {
        let ko = if k < kq {
            k
        } else {
            k + 1
        };
        let id = pre.queues@[ko].id;
        assert(pre.queue_in_use(id));
        let x = choose|x: int|
            0 <= x < pre.pads@.len() && (#[trigger] pre.pads@[x]).queue_id == id;
        assert(pre.queues@[ko].id != pre.queues@[kq].id);
        assert(x != i);
        let xn = if x < i {
            x
        } else {
            x - 1
        };
        assert(post.pads@[xn].queue_id == id);
    }
    assert(post.next_of(MediaType::Video, Direction::Input) == pre.next_of(
        MediaType::Video,
        Direction::Input,
    ));
    assert(post.next_of(MediaType::Audio, Direction::Input) == pre.next_of(
        MediaType::Audio,
        Direction::Input,
    ));
    assert(post.next_of(MediaType::Video, Direction::Output) == pre.next_of(
        MediaType::Video,
        Direction::Output,
    ));
    assert(post.next_of(MediaType::Audio, Direction::Output) == pre.next_of(
        MediaType::Audio,
        Direction::Output,
    ));
}

} // verus!
