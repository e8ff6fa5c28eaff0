//! A dynamic media-graph composition engine.
//!
//! The crate models a compositing hub (a scene element owning a video mixer,
//! an audio mixer and one fan-out stage per media type) together with the
//! orchestration layer that attaches producer and consumer nodes to it.  Ports
//! can be requested and released while the graph is live, per-input parameters
//! are dispatched by a typed table, and the container drives an idle/active
//! lifecycle around a status-message drain.

use vstd::prelude::*;

pub mod elements;
pub mod error;
pub mod laws;
pub mod media;
pub mod names;
pub mod scene;

use elements::{element_like, make_element, Element, ElementPad};
use error::DkcError;
use media::{Direction, MediaType, StatusMessage};
use names::port_name_seq;
use scene::{connect_ok, request_port_ok, DkcScene, HubPad, PeerPad, ProxyPort};

verus! {

/// Brings the media runtime up.  The modeled runtime needs no global state,
/// so initialisation always succeeds and is idempotent.
pub fn init() -> (r: Result<(), DkcError>)
    ensures
        r is Ok,
{
    Ok(())
}

/// Tears the media runtime down; the counterpart of [`init`].
pub fn terminate() -> (r: Result<(), DkcError>)
    ensures
        r is Ok,
{
    Ok(())
}

/// The container's lifecycle state: idle, or actively streaming.
#[derive(Clone, Copy, PartialEq, Eq, Structural, Debug)]
pub enum ContainerState {
    Idle,
    Active,
}

/// A producer node tracked by the orchestrator, with its stable id.
pub struct Source {
    pub id: usize,
    pub element: Element,
}

impl Clone for Source {
    fn clone(&self) -> (r: Self)
        ensures
            r.id == self.id,
            element_like(r.element, self.element),
    {
        Source { id: self.id, element: self.element.clone() }
    }
}

/// A consumer node tracked by the orchestrator, with its stable id.
pub struct Sink {
    pub id: usize,
    pub element: Element,
}

impl Clone for Sink {
    fn clone(&self) -> (r: Self)
        ensures
            r.id == self.id,
            element_like(r.element, self.element),
    {
        Sink { id: self.id, element: self.element.clone() }
    }
}

/// A source as tracked by a logical scene wrapper.
#[derive(Clone, Copy, PartialEq, Eq, Structural, Debug)]
pub struct WrappedSource {
    pub source_id: usize,
}

/// A named grouping of sources associated with the single physical hub.  A
/// scene wrapper does not allocate a hub of its own: every scene shares the
/// container's one hub.
pub struct Scene {
    pub id: usize,
    pub wrapped_sources: Vec<WrappedSource>,
}

impl Scene {
    /// Tracks a source in this logical scene.
    pub fn add_source(&mut self, source: &Source) -> (r: Result<WrappedSource, DkcError>)
        ensures
            r is Ok,
            r->Ok_0.source_id == source.id,
            final(self).id == old(self).id,
            final(self).wrapped_sources@ == old(self).wrapped_sources@.push(r->Ok_0),
    {
        let wrapped = WrappedSource { source_id: source.id };
        self.wrapped_sources.push(wrapped);
        Ok(wrapped)
    }
}

/// The top-level container: the hub, every producer and consumer node, the
/// logical scenes, and the idle/active lifecycle state.
pub struct App {
    pub name: String,
    pub width: u16,
    pub height: u16,
    pub gst_scene: DkcScene,
    pub sources: Vec<Source>,
    pub scenes: Vec<Scene>,
    pub sinks: Vec<Sink>,
    pub state: ContainerState,
}

impl App {
    /// The container invariant: the hub is well formed, and every node and
    /// scene sits at the position its sequentially assigned id names.
    pub open spec fn wf(self) -> bool {
        &&& self.gst_scene.wf()
        &&& forall|i: int| 0 <= i < self.sources@.len() ==> (#[trigger] self.sources@[i]).id == i
        &&& forall|i: int| 0 <= i < self.sinks@.len() ==> (#[trigger] self.sinks@[i]).id == i
        &&& forall|i: int| 0 <= i < self.scenes@.len() ==> (#[trigger] self.scenes@[i]).id == i
    }
}

/// The element name a node is created under: the given one, or the empty
/// name when none is given.
pub open spec fn opt_name_seq(name: Option<&str>) -> Seq<char> {
    match name {
        Some(n) => n@,
        None => Seq::<char>::empty(),
    }
}

/// Builds a container: a fresh hub and empty node and scene sets, idle.
pub fn make_app(name: Option<&str>, width: u16, height: u16) -> (r: Result<App, DkcError>)
    ensures
        r is Ok,
        r->Ok_0.wf(),
        r->Ok_0.name@ == opt_name_seq(name),
        r->Ok_0.width == width,
        r->Ok_0.height == height,
        r->Ok_0.gst_scene.fresh(opt_name_seq(name)),
        r->Ok_0.sources@.len() == 0,
        r->Ok_0.sinks@.len() == 0,
        r->Ok_0.scenes@.len() == 0,
        r->Ok_0.state == ContainerState::Idle,
{
    let n = match name {
        Some(n) => n,
        None => "",
    };
    proof {
        reveal_strlit("");
        assert(""@ =~= Seq::<char>::empty());
    }
    Ok(
        App {
            name: String::from_str(n),
            width,
            height,
            gst_scene: DkcScene::new(n),
            sources: Vec::new(),
            scenes: Vec::new(),
            sinks: Vec::new(),
            state: ContainerState::Idle,
        },
    )
}

/// Whether a source kind resolves in the node factory: the factory element
/// name is `dkc{kind}source`.
pub open spec fn source_kind_known(kind: Seq<char>) -> bool {
    "dkc"@ + kind + "source"@ == "dkcdummysource"@
}

/// Whether a sink kind resolves in the node factory: the factory element
/// name is `dkc{kind}sink`.
pub open spec fn sink_kind_known(kind: Seq<char>) -> bool {
    "dkc"@ + kind + "sink"@ == "dkcdummysink"@
}

/// A fully wired dummy producer: its video output faces the hub input port
/// numbered `vi`, its audio output the one numbered `ai`.
pub open spec fn source_wired(e: Element, name: Seq<char>, vi: nat, ai: nat) -> bool {
    &&& e.name@ == name
    &&& e.pads@.len() == 2
    &&& e.pads@[0].name@ == "video_src"@
    &&& e.pads@[0].media == MediaType::Video
    &&& e.pads@[0].dir == Direction::Output
    &&& e.pads@[0].peer is Some
    &&& e.pads@[0].peer->0@ == port_name_seq(MediaType::Video, Direction::Input, vi)
    &&& e.pads@[1].name@ == "audio_src"@
    &&& e.pads@[1].media == MediaType::Audio
    &&& e.pads@[1].dir == Direction::Output
    &&& e.pads@[1].peer is Some
    &&& e.pads@[1].peer->0@ == port_name_seq(MediaType::Audio, Direction::Input, ai)
}

/// A fully wired dummy consumer: its video input faces the hub output port
/// numbered `vi`, its audio input the one numbered `ai`.
pub open spec fn sink_wired(e: Element, name: Seq<char>, vi: nat, ai: nat) -> bool {
    &&& e.name@ == name
    &&& e.pads@.len() == 2
    &&& e.pads@[0].name@ == "video_sink"@
    &&& e.pads@[0].media == MediaType::Video
    &&& e.pads@[0].dir == Direction::Input
    &&& e.pads@[0].peer is Some
    &&& e.pads@[0].peer->0@ == port_name_seq(MediaType::Video, Direction::Output, vi)
    &&& e.pads@[1].name@ == "audio_sink"@
    &&& e.pads@[1].media == MediaType::Audio
    &&& e.pads@[1].dir == Direction::Input
    &&& e.pads@[1].peer is Some
    &&& e.pads@[1].peer->0@ == port_name_seq(MediaType::Audio, Direction::Output, ai)
}

/// The successful make-source transition: the node is appended under the
/// next sequential id, both its always-present pads are wired to freshly
/// requested hub input ports, and the hub records the node as their peer.
#[verifier::opaque]
pub open spec fn make_source_ok(pre: App, post: App, src: Source, name: Seq<char>) -> bool {
    let vi = pre.gst_scene.next_of(MediaType::Video, Direction::Input) as nat;
    let ai = pre.gst_scene.next_of(MediaType::Audio, Direction::Input) as nat;
    let hn = pre.gst_scene.pads@.len() as int;
    &&& src.id == pre.sources@.len()
    &&& source_wired(src.element, name, vi, ai)
    &&& post.sources@.len() == pre.sources@.len() + 1
    &&& post.sources@.subrange(0, pre.sources@.len() as int) == pre.sources@
    &&& post.sources@.last().id == src.id
    &&& element_like(post.sources@.last().element, src.element)
    &&& post.gst_scene.next_of(MediaType::Video, Direction::Input) == vi + 1
    &&& post.gst_scene.next_of(MediaType::Audio, Direction::Input) == ai + 1
    &&& post.gst_scene.next_of(MediaType::Video, Direction::Output) == pre.gst_scene.next_of(
        MediaType::Video,
        Direction::Output,
    )
    &&& post.gst_scene.next_of(MediaType::Audio, Direction::Output) == pre.gst_scene.next_of(
        MediaType::Audio,
        Direction::Output,
    )
    &&& post.gst_scene.pads@.len() == hn + 2
    &&& post.gst_scene.pads@.subrange(0, hn) == pre.gst_scene.pads@
    &&& post.gst_scene.pads@[hn].port == (ProxyPort {
        media: MediaType::Video,
        dir: Direction::Input,
        index: vi as u32,
    })
    &&& post.gst_scene.pads@[hn].peer == Some(
        PeerPad::SourcePad { source_id: src.id, media: MediaType::Video },
    )
    &&& post.gst_scene.pads@[hn + 1].port == (ProxyPort {
        media: MediaType::Audio,
        dir: Direction::Input,
        index: ai as u32,
    })
    &&& post.gst_scene.pads@[hn + 1].peer == Some(
        PeerPad::SourcePad { source_id: src.id, media: MediaType::Audio },
    )
}

/// The successful make-sink transition, symmetric to make-source over the
/// hub's output ports.
#[verifier::opaque]
pub open spec fn make_sink_ok(pre: App, post: App, snk: Sink, name: Seq<char>) -> bool {
    let vi = pre.gst_scene.next_of(MediaType::Video, Direction::Output) as nat;
    let ai = pre.gst_scene.next_of(MediaType::Audio, Direction::Output) as nat;
    let hn = pre.gst_scene.pads@.len() as int;
    &&& snk.id == pre.sinks@.len()
    &&& sink_wired(snk.element, name, vi, ai)
    &&& post.sinks@.len() == pre.sinks@.len() + 1
    &&& post.sinks@.subrange(0, pre.sinks@.len() as int) == pre.sinks@
    &&& post.sinks@.last().id == snk.id
    &&& element_like(post.sinks@.last().element, snk.element)
    &&& post.gst_scene.next_of(MediaType::Video, Direction::Output) == vi + 1
    &&& post.gst_scene.next_of(MediaType::Audio, Direction::Output) == ai + 1
    &&& post.gst_scene.next_of(MediaType::Video, Direction::Input) == pre.gst_scene.next_of(
        MediaType::Video,
        Direction::Input,
    )
    &&& post.gst_scene.next_of(MediaType::Audio, Direction::Input) == pre.gst_scene.next_of(
        MediaType::Audio,
        Direction::Input,
    )
    &&& post.gst_scene.pads@.len() == hn + 2
    &&& post.gst_scene.pads@.subrange(0, hn) == pre.gst_scene.pads@
    &&& post.gst_scene.pads@[hn].port == (ProxyPort {
        media: MediaType::Video,
        dir: Direction::Output,
        index: vi as u32,
    })
    &&& post.gst_scene.pads@[hn].peer == Some(
        PeerPad::SinkPad { sink_id: snk.id, media: MediaType::Video },
    )
    &&& post.gst_scene.pads@[hn + 1].port == (ProxyPort {
        media: MediaType::Audio,
        dir: Direction::Output,
        index: ai as u32,
    })
    &&& post.gst_scene.pads@[hn + 1].peer == Some(
        PeerPad::SinkPad { sink_id: snk.id, media: MediaType::Audio },
    )
}

/// The outcome of draining a status-message stream: the error message of
/// the first error signal, unless an end-of-stream signal (or the end of
/// the stream itself) comes first.
pub open spec fn drain_outcome(msgs: Seq<StatusMessage>) -> Option<Seq<char>>
    decreases msgs.len(),
{
    if msgs.len() == 0 {
        None
    } else {
        match msgs[0] {
            StatusMessage::Eos => None,
            StatusMessage::Error(m) => Some(m@),
            StatusMessage::Other => drain_outcome(msgs.drop_first()),
        }
    }
}

impl App {
    /// Creates a producer node of the given kind, inserts it into the
    /// container, and wires each of its always-present output pads to a
    /// freshly requested hub input port.  An unknown kind fails with a graph
    /// error and changes nothing; a wiring failure after the node was added
    /// leaves the node in the container, as no automatic rollback is
    /// performed.
    #[verifier::rlimit(100)]
    pub fn make_source(&mut self, source_type: &str, name: Option<&str>) -> (r: Result<
        Source,
        DkcError,
    >)
        requires
            old(self).wf(),
        ensures
            final(self).wf(),
            final(self).sinks@ == old(self).sinks@,
            final(self).scenes@ == old(self).scenes@,
            final(self).width == old(self).width,
            final(self).height == old(self).height,
            final(self).state == old(self).state,
            final(self).name == old(self).name,
            !source_kind_known(source_type@) ==> r is Err && *final(self) == *old(self),
            source_kind_known(source_type@) && old(self).gst_scene.next_of(
                MediaType::Video,
                Direction::Input,
            ) < u32::MAX && old(self).gst_scene.next_of(MediaType::Audio, Direction::Input)
                < u32::MAX ==> r is Ok,
            r is Ok ==> source_kind_known(source_type@) && make_source_ok(
                *old(self),
                *final(self),
                r->Ok_0,
                opt_name_seq(name),
            ),
            r is Err && source_kind_known(source_type@) ==> final(self).sources@.len() == old(
                self,
            ).sources@.len() + 1,
    {
        let mut full_kind = String::from_str("dkc");
        full_kind.append(source_type);
        full_kind.append("source");
        let element_name = match name {
            Some(n) => n,
            None => "",
        };
        proof {
            reveal_strlit("");
            assert(""@ =~= Seq::<char>::empty());
        }
        let element = match make_element(full_kind.as_str(), element_name) {
            Ok(e) => e,
            Err(_) => {
                return Err(
                    DkcError::new(element_name, "DkcSource", "Could not make source element."),
                );
            },
        };
        proof {
            lemma_source_name_not_sink(source_type@);
            assert(source_kind_known(source_type@));
        }
        let id = self.sources.len();
        self.sources.push(Source { id, element });
        let ghost h0 = self.gst_scene;
        let vport = match self.gst_scene.request_input_port(MediaType::Video) {
            Ok(p) => p,
            Err(_) => {
                return Err(
                    DkcError::new(element_name, "DkcSource", "Could not find video sink pad."),
                );
            },
        };
        let ghost h1 = self.gst_scene;
        match self.gst_scene.connect_peer(
            &vport,
            PeerPad::SourcePad { source_id: id, media: MediaType::Video },
        ) {
            Ok(_) => {},
            Err(_) => {
                return Err(DkcError::new(element_name, "DkcSource", "Could not link video pads."));
            },
        }
        let ghost h2 = self.gst_scene;
        let aport = match self.gst_scene.request_input_port(MediaType::Audio) {
            Ok(p) => p,
            Err(_) => {
                return Err(
                    DkcError::new(element_name, "DkcSource", "Could not find audio sink pad."),
                );
            },
        };
        let ghost h3 = self.gst_scene;
        match self.gst_scene.connect_peer(
            &aport,
            PeerPad::SourcePad { source_id: id, media: MediaType::Audio },
        ) {
            Ok(_) => {},
            Err(_) => {
                return Err(DkcError::new(element_name, "DkcSource", "Could not link audio pads."));
            },
        }
        let ghost h4 = self.gst_scene;
        proof {
            lemma_two_requests_two_connects(
                h0,
                h1,
                h2,
                h3,
                h4,
                vport,
                aport,
                PeerPad::SourcePad { source_id: id, media: MediaType::Video },
                PeerPad::SourcePad { source_id: id, media: MediaType::Audio },
                Direction::Input,
            );
        }
        let mut source = match self.sources.pop() {
            Some(s) => s,
            None => {
                proof {
                    assert(false);
                }
                Source { id, element: Element { name: String::new(), pads: Vec::new() } }
            },
        };
        let vname = vport.name();
        let aname = aport.name();
        source.element.pads[0] = ElementPad {
            name: String::from_str("video_src"),
            media: MediaType::Video,
            dir: Direction::Output,
            peer: Some(vname),
        };
        source.element.pads[1] = ElementPad {
            name: String::from_str("audio_src"),
            media: MediaType::Audio,
            dir: Direction::Output,
            peer: Some(aname),
        };
        let stored = source.clone();
        self.sources.push(stored);
        proof {
            reveal(make_source_ok);
            let pre = *old(self);
            let vi = pre.gst_scene.next_of(MediaType::Video, Direction::Input) as nat;
            let ai = pre.gst_scene.next_of(MediaType::Audio, Direction::Input) as nat;
            assert(self.sources@.len() == pre.sources@.len() + 1);
            assert((pre.sources@.push(Source { id, element })).drop_last() =~= pre.sources@);
            assert(self.sources@.subrange(0, pre.sources@.len() as int) =~= pre.sources@);
            assert(source.element.pads@.len() == 2);
            assert(source_wired(source.element, opt_name_seq(name), vi, ai));
            assert(make_source_ok(pre, *self, source, opt_name_seq(name)));
            assert forall|i2: int| 0 <= i2 < self.sources@.len() implies (
            #[trigger] self.sources@[i2]).id == i2 by {
                if i2 < pre.sources@.len() {
                    assert(self.sources@.subrange(0, pre.sources@.len() as int)[i2]
                        == self.sources@[i2]);
                }
            }
        }
        Ok(source)
    }

    /// Creates a consumer node of the given kind, inserts it into the
    /// container, and wires each of its always-present input pads to a
    /// freshly requested hub output port; symmetric to
    /// [`Self::make_source`].
    #[verifier::rlimit(100)]
    pub fn make_sink(&mut self, sink_type: &str, name: Option<&str>) -> (r: Result<Sink, DkcError>)
        requires
            old(self).wf(),
        ensures
            final(self).wf(),
            final(self).sources@ == old(self).sources@,
            final(self).scenes@ == old(self).scenes@,
            final(self).width == old(self).width,
            final(self).height == old(self).height,
            final(self).state == old(self).state,
            final(self).name == old(self).name,
            !sink_kind_known(sink_type@) ==> r is Err && *final(self) == *old(self),
            sink_kind_known(sink_type@) && old(self).gst_scene.next_of(
                MediaType::Video,
                Direction::Output,
            ) < u32::MAX && old(self).gst_scene.next_of(MediaType::Audio, Direction::Output)
                < u32::MAX ==> r is Ok,
            r is Ok ==> sink_kind_known(sink_type@) && make_sink_ok(
                *old(self),
                *final(self),
                r->Ok_0,
                opt_name_seq(name),
            ),
            r is Err && sink_kind_known(sink_type@) ==> final(self).sinks@.len() == old(
                self,
            ).sinks@.len() + 1,
    {
        let mut full_kind = String::from_str("dkc");
        full_kind.append(sink_type);
        full_kind.append("sink");
        let element_name = match name {
            Some(n) => n,
            None => "",
        };
        proof {
            reveal_strlit("");
            assert(""@ =~= Seq::<char>::empty());
        }
        let element = match make_element(full_kind.as_str(), element_name) {
            Ok(e) => e,
            Err(_) => {
                return Err(DkcError::new(element_name, "DkcSink", "Could not make sink element."));
            },
        };
        proof {
            lemma_sink_name_not_source(sink_type@);
            assert(sink_kind_known(sink_type@));
        }
        let id = self.sinks.len();
        self.sinks.push(Sink { id, element });
        let ghost h0 = self.gst_scene;
        let vport = match self.gst_scene.request_output_port(MediaType::Video) {
            Ok(p) => p,
            Err(_) => {
                return Err(DkcError::new(element_name, "DkcSink", "Could not find video src pad."));
            },
        };
        let ghost h1 = self.gst_scene;
        match self.gst_scene.connect_peer(
            &vport,
            PeerPad::SinkPad { sink_id: id, media: MediaType::Video },
        ) {
            Ok(_) => {},
            Err(_) => {
                return Err(DkcError::new(element_name, "DkcSink", "Could not link video pads."));
            },
        }
        let ghost h2 = self.gst_scene;
        let aport = match self.gst_scene.request_output_port(MediaType::Audio) {
            Ok(p) => p,
            Err(_) => {
                return Err(DkcError::new(element_name, "DkcSink", "Could not find audio src pad."));
            },
        };
        let ghost h3 = self.gst_scene;
        match self.gst_scene.connect_peer(
            &aport,
            PeerPad::SinkPad { sink_id: id, media: MediaType::Audio },
        ) {
            Ok(_) => {},
            Err(_) => {
                return Err(DkcError::new(element_name, "DkcSink", "Could not link audio pads."));
            },
        }
        let ghost h4 = self.gst_scene;
        proof {
            lemma_two_requests_two_connects(
                h0,
                h1,
                h2,
                h3,
                h4,
                vport,
                aport,
                PeerPad::SinkPad { sink_id: id, media: MediaType::Video },
                PeerPad::SinkPad { sink_id: id, media: MediaType::Audio },
                Direction::Output,
            );
        }
        let mut sink = match self.sinks.pop() {
            Some(s) => s,
            None => {
                proof {
                    assert(false);
                }
                Sink { id, element: Element { name: String::new(), pads: Vec::new() } }
            },
        };
        let vname = vport.name();
        let aname = aport.name();
        sink.element.pads[0] = ElementPad {
            name: String::from_str("video_sink"),
            media: MediaType::Video,
            dir: Direction::Input,
            peer: Some(vname),
        };
        sink.element.pads[1] = ElementPad {
            name: String::from_str("audio_sink"),
            media: MediaType::Audio,
            dir: Direction::Input,
            peer: Some(aname),
        };
        let stored = sink.clone();
        self.sinks.push(stored);
        proof {
            reveal(make_sink_ok);
            let pre = *old(self);
            let vi = pre.gst_scene.next_of(MediaType::Video, Direction::Output) as nat;
            let ai = pre.gst_scene.next_of(MediaType::Audio, Direction::Output) as nat;
            assert(self.sinks@.len() == pre.sinks@.len() + 1);
            assert((pre.sinks@.push(Sink { id, element })).drop_last() =~= pre.sinks@);
            assert(self.sinks@.subrange(0, pre.sinks@.len() as int) =~= pre.sinks@);
            assert(sink.element.pads@.len() == 2);
            assert(sink_wired(sink.element, opt_name_seq(name), vi, ai));
            assert(make_sink_ok(pre, *self, sink, opt_name_seq(name)));
            assert forall|i2: int| 0 <= i2 < self.sinks@.len() implies (
            #[trigger] self.sinks@[i2]).id == i2 by {
                if i2 < pre.sinks@.len() {
                    assert(self.sinks@.subrange(0, pre.sinks@.len() as int)[i2]
                        == self.sinks@[i2]);
                }
            }
        }
        Ok(sink)
    }

    /// Creates a logical scene wrapper under the next sequential id.  No new
    /// hub is allocated: the wrapper only groups sources.
    pub fn make_scene(&mut self, name: Option<&str>) -> (r: Result<Scene, DkcError>)
        requires
            old(self).wf(),
        ensures
            final(self).wf(),
            r is Ok,
            r->Ok_0.id == old(self).scenes@.len(),
            r->Ok_0.wrapped_sources@.len() == 0,
            final(self).scenes@.len() == old(self).scenes@.len() + 1,
            final(self).scenes@.subrange(0, old(self).scenes@.len() as int) == old(self).scenes@,
            final(self).scenes@.last().id == r->Ok_0.id,
            final(self).scenes@.last().wrapped_sources@.len() == 0,
            final(self).sources@ == old(self).sources@,
            final(self).sinks@ == old(self).sinks@,
            final(self).gst_scene == old(self).gst_scene,
            final(self).width == old(self).width,
            final(self).height == old(self).height,
            final(self).state == old(self).state,
            final(self).name == old(self).name,
    {
        let _ = name;
        let id = self.scenes.len();
        self.scenes.push(Scene { id, wrapped_sources: Vec::new() });
        Ok(Scene { id, wrapped_sources: Vec::new() })
    }

    /// Turns the container on: the state goes active, the status-message
    /// stream is drained until an end-of-stream or error signal, and the
    /// state is forced back to idle.  The first error signal is surfaced to
    /// the caller; end-of-stream (or a stream that ends) is success.
    pub fn turn_on(&mut self, messages: &Vec<StatusMessage>) -> (r: Result<(), DkcError>)
        requires
            old(self).wf(),
        ensures
            final(self).wf(),
            final(self).state == ContainerState::Idle,
            final(self).gst_scene == old(self).gst_scene,
            final(self).sources@ == old(self).sources@,
            final(self).sinks@ == old(self).sinks@,
            final(self).scenes@ == old(self).scenes@,
            final(self).width == old(self).width,
            final(self).height == old(self).height,
            final(self).name == old(self).name,
            match drain_outcome(messages@) {
                None => r is Ok,
                Some(m) => r is Err && r->Err_0.error_msg@ == m,
            },
    {
        self.state = ContainerState::Active;
        proof {
            assert(messages@.skip(0) =~= messages@);
        }
        let mut i: usize = 0;
        while i < messages.len()
            invariant
                i <= messages@.len(),
                drain_outcome(messages@) == drain_outcome(messages@.skip(i as int)),
                self.name == old(self).name,
                self.gst_scene == old(self).gst_scene,
                self.sources@ == old(self).sources@,
                self.sinks@ == old(self).sinks@,
                self.scenes@ == old(self).scenes@,
                self.width == old(self).width,
                self.height == old(self).height,
                old(self).wf(),
            decreases messages@.len() - i,
        {
            proof {
                assert(messages@.skip(i as int)[0] == messages@[i as int]);
                assert(messages@.skip(i as int).drop_first() =~= messages@.skip(i as int + 1));
            }
            match &messages[i] {
                StatusMessage::Eos => {
                    self.state = ContainerState::Idle;
                    return Ok(());
                },
                StatusMessage::Error(m) => {
                    self.state = ContainerState::Idle;
                    return Err(DkcError::new(self.name.as_str(), "DkcApp", m.as_str()));
                },
                StatusMessage::Other => {},
            }
            i += 1;
        }
        proof {
            assert(messages@.skip(messages@.len() as int).len() == 0);
        }
        self.state = ContainerState::Idle;
        Ok(())
    }
}

/// Two port requests of distinct media types, each followed by connecting a
/// compatible peer, compose to: both counters advanced once, two new
/// exposed pads appended in order — each carrying its fresh port and its
/// recorded peer — and every pre-existing pad untouched.
proof fn lemma_two_requests_two_connects(
    h0: DkcScene,
    h1: DkcScene,
    h2: DkcScene,
    h3: DkcScene,
    h4: DkcScene,
    vport: ProxyPort,
    aport: ProxyPort,
    vpeer: PeerPad,
    apeer: PeerPad,
    dir: Direction,
)
    requires
        h0.wf(),
        h1.wf(),
        h2.wf(),
        h3.wf(),
        request_port_ok(h0, h1, MediaType::Video, dir, vport),
        connect_ok(h1, h2, vport, vpeer),
        request_port_ok(h2, h3, MediaType::Audio, dir, aport),
        connect_ok(h3, h4, aport, apeer),
    ensures
        h4.next_of(MediaType::Video, dir) == h0.next_of(MediaType::Video, dir) + 1,
        h4.next_of(MediaType::Audio, dir) == h0.next_of(MediaType::Audio, dir) + 1,
        forall|m: MediaType, d: Direction|
            d != dir ==> #[trigger] h4.next_of(m, d) == h0.next_of(m, d),
        vport == (ProxyPort {
            media: MediaType::Video,
            dir,
            index: h0.next_of(MediaType::Video, dir),
        }),
        aport == (ProxyPort {
            media: MediaType::Audio,
            dir,
            index: h0.next_of(MediaType::Audio, dir),
        }),
        h4.pads@.len() == h0.pads@.len() + 2,
        h4.pads@.subrange(0, h0.pads@.len() as int) == h0.pads@,
        h4.pads@[h0.pads@.len() as int].port == vport,
        h4.pads@[h0.pads@.len() as int].peer == Some(vpeer),
        h4.pads@[h0.pads@.len() as int].name@ == port_name_seq(
            MediaType::Video,
            dir,
            vport.index as nat,
        ),
        h4.pads@[h0.pads@.len() as int + 1].port == aport,
        h4.pads@[h0.pads@.len() as int + 1].peer == Some(apeer),
        h4.pads@[h0.pads@.len() as int + 1].name@ == port_name_seq(
            MediaType::Audio,
            dir,
            aport.index as nat,
        ),
{
    let hn = h0.pads@.len() as int;
    // The video connect hit the pad the video request appended: a port
    // occurs at most once in the table.
    let iv = choose|i: int|
        0 <= i < h1.pads@.len() && (#[trigger] h1.pads@[i]).port == vport && h1.pads@[i].peer
            is None && h2.pads@ == h1.pads@.update(
            i,
            HubPad {
                port: h1.pads@[i].port,
                name: h1.pads@[i].name,
                queue_id: h1.pads@[i].queue_id,
                peer: Some(vpeer),
            },
        );
    assert(h1.pads@[hn].port == vport);
    assert(iv == hn);
    let ia = choose|i: int|
        0 <= i < h3.pads@.len() && (#[trigger] h3.pads@[i]).port == aport && h3.pads@[i].peer
            is None && h4.pads@ == h3.pads@.update(
            i,
            HubPad {
                port: h3.pads@[i].port,
                name: h3.pads@[i].name,
                queue_id: h3.pads@[i].queue_id,
                peer: Some(apeer),
            },
        );
    assert(h3.pads@[hn + 1].port == aport);
    assert(ia == hn + 1);
    assert forall|j: int| 0 <= j < hn implies #[trigger] h4.pads@[j] == h0.pads@[j] by {
        assert(h1.pads@.subrange(0, hn)[j] == h1.pads@[j]);
        assert(h2.pads@[j] == h1.pads@[j]);
        assert(h3.pads@.subrange(0, hn + 1)[j] == h3.pads@[j]);
        assert(h4.pads@[j] == h3.pads@[j]);
    }
    assert(h4.pads@.subrange(0, hn) =~= h0.pads@);
    assert(h3.pads@.subrange(0, hn + 1)[hn] == h3.pads@[hn]);
    assert(h2.pads@[hn].port == vport && h2.pads@[hn].peer == Some(vpeer));
    assert(h4.pads@[hn] == h3.pads@[hn]);
    assert(h3.pads@[hn + 1] == h3.pads@.last());
    // Counters: the connects carry the state over unchanged, and each
    // request's frame condition covers every pair but its own.
    assert forall|m: MediaType, d: Direction| #[trigger] h2.next_of(m, d) == h1.next_of(
        m,
        d,
    ) by {}
    assert forall|m: MediaType, d: Direction| #[trigger] h4.next_of(m, d) == h3.next_of(
        m,
        d,
    ) by {}
    assert forall|m: MediaType, d: Direction|
        !(m == MediaType::Video && d == dir) implies #[trigger] h1.next_of(m, d) == h0.next_of(
        m,
        d,
    ) by {}
    assert forall|m: MediaType, d: Direction|
        !(m == MediaType::Audio && d == dir) implies #[trigger] h3.next_of(m, d) == h2.next_of(
        m,
        d,
    ) by {}
    assert forall|m: MediaType, d: Direction| d != dir implies #[trigger] h4.next_of(m, d)
        == h0.next_of(m, d) by {
        assert(h1.next_of(m, d) == h0.next_of(m, d));
        assert(h3.next_of(m, d) == h2.next_of(m, d));
    }
    assert(h4.next_of(MediaType::Video, dir) == h0.next_of(MediaType::Video, dir) + 1);
    assert(h4.next_of(MediaType::Audio, dir) == h0.next_of(MediaType::Audio, dir) + 1);
}


/// A factory name ending in `source` is never the dummy-sink kind.
proof fn lemma_source_name_not_sink(t: Seq<char>)
    ensures
        "dkc"@ + t + "source"@ != "dkcdummysink"@,
{
    reveal_strlit("dkc");
    reveal_strlit("source");
    reveal_strlit("dkcdummysink");
    let s = "dkc"@ + t + "source"@;
    if s == "dkcdummysink"@ {
        assert(s[s.len() - 1] == "source"@[5]);
        assert(false);
    }
}

/// A factory name ending in `sink` is never the dummy-source kind.
proof fn lemma_sink_name_not_source(t: Seq<char>)
    ensures
        "dkc"@ + t + "sink"@ != "dkcdummysource"@,
{
    reveal_strlit("dkc");
    reveal_strlit("sink");
    reveal_strlit("dkcdummysource");
    let s = "dkc"@ + t + "sink"@;
    if s == "dkcdummysource"@ {
        assert(s[s.len() - 1] == "sink"@[3]);
        assert(false);
    }
}

} // verus!
