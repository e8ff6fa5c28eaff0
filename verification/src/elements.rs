//! Producer and consumer nodes: opaque elements exposing fixed,
//! always-present ports of known media type, created by kind name through a
//! factory.

use vstd::prelude::*;
use crate::error::DkcError;
use crate::media::{Direction, MediaType};
use crate::names::str_eq;

verus! {

/// An always-present port of a producer or consumer element, together with
/// the name of the hub pad it is connected to, if any.
pub struct ElementPad {
    pub name: String,
    pub media: MediaType,
    pub dir: Direction,
    pub peer: Option<String>,
}

/// A producer or consumer node: a name and its fixed port list.
pub struct Element {
    pub name: String,
    pub pads: Vec<ElementPad>,
}

impl Clone for ElementPad {
    fn clone(&self) -> (r: Self)
        ensures
            r == *self,
    {
        ElementPad {
            name: self.name.clone(),
            media: self.media,
            dir: self.dir,
            peer: match &self.peer {
                Some(p) => Some(p.clone()),
                None => None,
            },
        }
    }
}

/// Two element values describing the same node: equal names and equal pad
/// sequences (the backing vectors may be distinct allocations).
pub open spec fn element_like(a: Element, b: Element) -> bool {
    &&& a.name == b.name
    &&& a.pads@ == b.pads@
}

impl Clone for Element {
    fn clone(&self) -> (r: Self)
        ensures
            element_like(r, *self),
    {
        let mut pads: Vec<ElementPad> = Vec::new();
        let mut i: usize = 0;
        while i < self.pads.len()
            invariant
                i <= self.pads@.len(),
                pads@ =~= self.pads@.subrange(0, i as int),
            decreases self.pads@.len() - i,
        {
            pads.push(self.pads[i].clone());
            i += 1;
        }
        proof {
            assert(pads@ =~= self.pads@);
        }
        Element { name: self.name.clone(), pads }
    }
}

/// The shape of a dummy producer: one always-present video output pad named
/// `video_src` and one audio output pad named `audio_src`, connected to
/// nothing yet.
pub open spec fn dummy_source_shape(e: Element, name: Seq<char>) -> bool {
    &&& e.name@ == name
    &&& e.pads@.len() == 2
    &&& e.pads@[0].name@ == "video_src"@
    &&& e.pads@[0].media == MediaType::Video
    &&& e.pads@[0].dir == Direction::Output
    &&& e.pads@[0].peer is None
    &&& e.pads@[1].name@ == "audio_src"@
    &&& e.pads@[1].media == MediaType::Audio
    &&& e.pads@[1].dir == Direction::Output
    &&& e.pads@[1].peer is None
}

/// The shape of a dummy consumer: one always-present video input pad named
/// `video_sink` and one audio input pad named `audio_sink`.
pub open spec fn dummy_sink_shape(e: Element, name: Seq<char>) -> bool {
    &&& e.name@ == name
    &&& e.pads@.len() == 2
    &&& e.pads@[0].name@ == "video_sink"@
    &&& e.pads@[0].media == MediaType::Video
    &&& e.pads@[0].dir == Direction::Input
    &&& e.pads@[0].peer is None
    &&& e.pads@[1].name@ == "audio_sink"@
    &&& e.pads@[1].media == MediaType::Audio
    &&& e.pads@[1].dir == Direction::Input
    &&& e.pads@[1].peer is None
}

/// The dummy producer element: a test-pattern video generator and a test
/// audio generator behind two always-present output pads.
pub struct DkcDummySource {}

impl DkcDummySource {
    /// Builds a dummy producer with the given element name.
    pub fn make(name: &str) -> (e: Element)
        ensures
            dummy_source_shape(e, name@),
    {
        let mut pads: Vec<ElementPad> = Vec::new();
        pads.push(
            ElementPad {
                name: String::from_str("video_src"),
                media: MediaType::Video,
                dir: Direction::Output,
                peer: None,
            },
        );
        pads.push(
            ElementPad {
                name: String::from_str("audio_src"),
                media: MediaType::Audio,
                dir: Direction::Output,
                peer: None,
            },
        );
        Element { name: String::from_str(name), pads }
    }
}

/// The dummy consumer element: automatic video and audio sinks behind two
/// always-present input pads.
pub struct DkcDummySink {}

impl DkcDummySink {
    /// Builds a dummy consumer with the given element name.
    pub fn make(name: &str) -> (e: Element)
        ensures
            dummy_sink_shape(e, name@),
    {
        let mut pads: Vec<ElementPad> = Vec::new();
        pads.push(
            ElementPad {
                name: String::from_str("video_sink"),
                media: MediaType::Video,
                dir: Direction::Input,
                peer: None,
            },
        );
        pads.push(
            ElementPad {
                name: String::from_str("audio_sink"),
                media: MediaType::Audio,
                dir: Direction::Input,
                peer: None,
            },
        );
        Element { name: String::from_str(name), pads }
    }
}

/// The node factory: resolves a kind name to an element, and fails with a
/// graph error when the kind is unknown.
pub fn make_element(kind: &str, name: &str) -> (r: Result<Element, DkcError>)
    ensures
        r is Ok <==> (kind@ == "dkcdummysource"@ || kind@ == "dkcdummysink"@),
        kind@ == "dkcdummysource"@ ==> r is Ok && dummy_source_shape(r->Ok_0, name@),
        !(kind@ == "dkcdummysource"@) && kind@ == "dkcdummysink"@ ==> r is Ok && dummy_sink_shape(
            r->Ok_0,
            name@,
        ),
{
    if str_eq(kind, "dkcdummysource") {
        Ok(DkcDummySource::make(name))
    } else if str_eq(kind, "dkcdummysink") {
        Ok(DkcDummySink::make(name))
    } else {
        Err(DkcError::new(name, "ElementFactory", "Unknown element kind."))
    }
}

impl Element {
    /// Looks up an always-present pad of this element by name and returns
    /// the name of the hub pad its first match is connected to, if any.
    pub fn pad_peer(&self, pad_name: &str) -> (r: Option<String>)
        ensures
            match r {
                Some(p) => exists|i: int|
                    0 <= i < self.pads@.len() && (#[trigger] self.pads@[i]).name@ == pad_name@
                        && self.pads@[i].peer is Some && p@ == self.pads@[i].peer->0@,
                None => forall|i: int|
                    0 <= i < self.pads@.len() ==> ((#[trigger] self.pads@[i]).name@ != pad_name@
                        || self.pads@[i].peer is None),
            },
    {
        let mut i: usize = 0;
        while i < self.pads.len()
            invariant
                i <= self.pads@.len(),
                forall|j: int|
                    0 <= j < i ==> ((#[trigger] self.pads@[j]).name@ != pad_name@
                        || self.pads@[j].peer is None),
            decreases self.pads@.len() - i,
        {
            if str_eq(pad_name, self.pads[i].name.as_str()) {
                match &self.pads[i].peer {
                    Some(p) => {
                        return Some(p.clone());
                    },
                    None => {},
                }
            }
            i += 1;
        }
        None
    }
}

} // verus!
