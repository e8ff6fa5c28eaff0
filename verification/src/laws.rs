//! Hub-wide guarantees of the port request/release protocol, stated over the
//! transition predicates that the hub's methods ensure.

use vstd::prelude::*;
use crate::media::{Direction, MediaType};
use crate::names::{lemma_port_name_injective, port_name_seq};
use crate::scene::{release_port_ok, request_port_ok, DkcScene, ProxyPort};

verus! {

/// A run of successive successful requests, all for the same media type and
/// direction: `states[j]` steps to `states[j + 1]` yielding `ports[j]`.
pub open spec fn requests_chain(
    states: Seq<DkcScene>,
    ports: Seq<ProxyPort>,
    media: MediaType,
    dir: Direction,
) -> bool {
    &&& states.len() == ports.len() + 1
    &&& forall|j: int|
        0 <= j < ports.len() ==> request_port_ok(
            #[trigger] states[j],
            states[j + 1],
            media,
            dir,
            ports[j],
        )
}

/// Requesting N ports of one media type and direction from a fresh hub
/// yields ports numbered 0 through N - 1 in request order, each exposed
/// under the name its number renders to, and those N names are distinct.
#[verifier::rlimit(100)]
pub proof fn lemma_sequential_request_names(
    states: Seq<DkcScene>,
    ports: Seq<ProxyPort>,
    media: MediaType,
    dir: Direction,
)
    requires
        requests_chain(states, ports, media, dir),
        states[0].next_of(media, dir) == 0,
        states[0].pads@.len() == 0,
    ensures
        states.last().next_of(media, dir) == ports.len(),
        states.last().pads@.len() == ports.len(),
        forall|j: int|
            0 <= j < ports.len() ==> (#[trigger] ports[j]) == (ProxyPort {
                media,
                dir,
                index: j as u32,
            }),
        forall|j: int|
            0 <= j < ports.len() ==> (#[trigger] states.last().pads@[j]).port == ports[j],
        forall|j: int|
            0 <= j < ports.len() ==> (#[trigger] states.last().pads@[j]).name@ == port_name_seq(
                media,
                dir,
                j as nat,
            ),
        forall|j1: int, j2: int|
            0 <= j1 < j2 < ports.len() ==> (#[trigger] states.last().pads@[j1]).name@ != (
            #[trigger] states.last().pads@[j2]).name@,
    decreases ports.len(),
{
    if ports.len() == 0 {
    } else {
        let n = ports.len() as int;
        let head_states = states.subrange(0, n);
        let head_ports = ports.subrange(0, n - 1);
        assert forall|j: int|
            0 <= j < head_ports.len() implies request_port_ok(
            #[trigger] head_states[j],
            head_states[j + 1],
            media,
            dir,
            head_ports[j],
        ) by {
            assert(request_port_ok(states[j], states[j + 1], media, dir, ports[j]));
        }
        lemma_sequential_request_names(head_states, head_ports, media, dir);
        let prev = states[n - 1];
        let last = states[n];
        assert(request_port_ok(prev, last, media, dir, ports[n - 1]));
        assert(prev == head_states.last());
        assert(prev.pads@.len() == n - 1);
        assert(prev.next_of(media, dir) == n - 1);
        assert(ports[n - 1].index == n - 1);
        assert forall|j: int| 0 <= j < n - 1 implies #[trigger] ports[j] == head_ports[j] by {}
        assert forall|j: int| 0 <= j < n - 1 implies #[trigger] last.pads@[j]
            == prev.pads@[j] by {
            assert(last.pads@.subrange(0, n - 1)[j] == last.pads@[j]);
        }
        assert(last.pads@[n - 1] == last.pads@.last());
        assert forall|j1: int, j2: int| 0 <= j1 < j2 < n implies (
        #[trigger] last.pads@[j1]).name@ != (#[trigger] last.pads@[j2]).name@ by {
            if last.pads@[j1].name@ == last.pads@[j2].name@ {
                lemma_port_name_injective(media, dir, j1 as nat, media, dir, j2 as nat);
            }
        }
    }
}

/// Requesting a port while the graph is live disturbs nothing that already
/// exists: every previously exposed pad keeps its whole row — its port, its
/// name, its internal chain and its peer connection.
pub proof fn lemma_request_disturbs_no_connection(
    pre: DkcScene,
    post: DkcScene,
    media: MediaType,
    dir: Direction,
    port: ProxyPort,
)
    requires
        request_port_ok(pre, post, media, dir, port),
    ensures
        forall|i: int| 0 <= i < pre.pads@.len() ==> #[trigger] post.pads@[i] == pre.pads@[i],
{
    let n = pre.pads@.len() as int;
    assert forall|i: int| 0 <= i < n implies #[trigger] post.pads@[i] == pre.pads@[i] by {
        assert(post.pads@.subrange(0, n)[i] == post.pads@[i]);
    }
}

/// Releasing a port and then requesting a new one of the same media type
/// and direction never hands the released identifier out again: the
/// counters are monotone for the hub's lifetime, so the fresh port carries
/// a strictly larger number and a different name.
pub proof fn lemma_no_identifier_reuse(
    h0: DkcScene,
    h1: DkcScene,
    h2: DkcScene,
    p: ProxyPort,
    q: ProxyPort,
)
    requires
        h0.wf(),
        h0.has_pad(p),
        release_port_ok(h0, h1, p),
        request_port_ok(h1, h2, p.media, p.dir, q),
    ensures
        q.index > p.index,
        port_name_seq(q.media, q.dir, q.index as nat) != port_name_seq(
            p.media,
            p.dir,
            p.index as nat,
        ),
{
    let i = choose|i: int| 0 <= i < h0.pads@.len() && (#[trigger] h0.pads@[i]).port == p;
    assert(h0.pads@[i].port.index < h0.next_of(p.media, p.dir));
    assert(h1.next_of(p.media, p.dir) == h0.next_of(p.media, p.dir));
    assert(q.index == h1.next_of(p.media, p.dir));
    if port_name_seq(q.media, q.dir, q.index as nat) == port_name_seq(
        p.media,
        p.dir,
        p.index as nat,
    ) {
        lemma_port_name_injective(
            q.media,
            q.dir,
            q.index as nat,
            p.media,
            p.dir,
            p.index as nat,
        );
    }
}

/// A successful release removes the port for good: it is no longer exposed
/// afterwards, so releasing it a second time must fail rather than silently
/// succeed.
pub proof fn lemma_release_is_final(h0: DkcScene, h1: DkcScene, p: ProxyPort)
    requires
        h0.wf(),
        release_port_ok(h0, h1, p),
    ensures
        !h1.has_pad(p),
{
    let i = choose|i: int|
        0 <= i < h0.pads@.len() && (#[trigger] h0.pads@[i]).port == p && h1.pads@ == h0.pads@.remove(
            i,
        ) && crate::scene::queue_removed(h0, h1, h0.pads@[i].queue_id);
    h0.pads@.remove_ensures(i);
    assert forall|x: int| 0 <= x < h1.pads@.len() implies (#[trigger] h1.pads@[x]).port != p by {
        let xo = if x < i {
            x
        } else {
            x + 1
        };
        assert(h1.pads@[x] == h0.pads@[xo]);
        assert(h0.pads@[xo].port != h0.pads@[i].port);
    }
}

} // verus!
