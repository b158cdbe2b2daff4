//! The hand-off of areas between game servers, one message or one frame at a
//! time.  Told to take areas, a server starts watching their rings and
//! either asks each area's owner for it or, when the area has no owner,
//! takes it at once.  Told that another server is ready to take one of its
//! areas, it queues the transfer; once per frame it hands the first queued
//! area over.  Areas come here as rectangles of chunks.  The topic patterns
//! built here are those over whole areas; the patterns over lists of chunks,
//! the hand-off topics and the hand-off messages are built by the caller.
use crate::core_types::chunks::{
    area_chunks, area_iterable, borders_defined, ring_chunks, ring_defined, GameChunk,
    GameChunkAera,
};
use crate::broker_protocol::topic_layers::LayerView;
use crate::broker_protocol::topic_patterns::{pattern_sendable, TopicPattern};
use crate::broker_protocol::topics::{head_byte, Namespace, SecurityDomain, Topic, TopicDefaults};
use crate::game_message::msg_dgs::ChunkHandOffAction;
use crate::game_server::chunk_directory::{
    outside, release_defined, released, AssignedChunks, ReleasePlan,
};
use crate::shared_replication::broker_message::NodeId;
use vstd::prelude::*;

verus! {

/// What the server does about one area it is told to take.
#[derive(Debug, Clone)]
pub struct TakeStep {
    /// The area: the server now listens to its inputs and hand-offs, and to
    /// its state too when it has an owner.
    pub area: GameChunkAera,
    /// The area's owner so far.  When there is one, it is asked to stop
    /// listening to the area's hand-offs and told that this server is ready
    /// to take the area.  When there is none, the area is taken at once and
    /// the spatial server is told.
    pub old_owner: Option<NodeId>,
    /// The chunks of the area's ring that become ghosts: the server listens
    /// to their inputs and state.
    pub border: Vec<GameChunk>,
}

/// What a hand-off message leads to.
#[derive(Debug, Clone)]
pub enum HandoffReaction {
    /// The areas to take, one step each, in order.
    Take(Vec<TakeStep>),
    /// The transfers were queued.
    Queued,
    /// The message is not for this server to act on.
    Ignored,
}

/// What the server does in one frame about its queued transfers.
#[derive(Debug, Clone)]
pub enum TransferStep {
    /// Nothing is queued.
    Idle,
    /// The first queued transfer named no server; it was dropped.  The
    /// (empty) unsubscription of inputs is still sent.
    Skipped,
    /// The area goes to `target`: it is sent the area's entities, the
    /// spatial server is told, the server stops listening to the area's
    /// hand-offs and drops what `plan` lists.
    HandOver { area: GameChunkAera, target: NodeId, plan: ReleasePlan },
}

/// The chunks simulated and the chunks watched.
pub open spec fn chunk_sets(d: AssignedChunks) -> (Set<GameChunk>, Set<GameChunk>) {
    (d.assigned(), d.ghosts())
}

/// The chunk sets after taking `area`: its ring's chunks that are not
/// simulated become ghosts; without an owner the area is simulated at once
/// and its chunks are no longer ghosts.
pub open spec fn take_state(
    st: (Set<GameChunk>, Set<GameChunk>),
    area: GameChunkAera,
    owner: Option<NodeId>,
) -> (Set<GameChunk>, Set<GameChunk>) {
    let g = st.1 + ring_chunks(area).filter(outside(st.0)).to_set();
    match owner {
        Some(_) => (st.0, g),
        None => (st.0 + area_chunks(area).to_set(), g - area_chunks(area).to_set()),
    }
}

/// The chunk sets after taking the areas one after the other.
pub open spec fn take_all_state(
    st: (Set<GameChunk>, Set<GameChunk>),
    areas: Seq<(GameChunkAera, Option<NodeId>)>,
) -> (Set<GameChunk>, Set<GameChunk>)
    decreases areas.len(),
{
    if areas.len() == 0 {
        st
    } else {
        take_state(take_all_state(st, areas.drop_last()), areas.last().0, areas.last().1)
    }
}

/// Every area's ring can be computed, and every area iterated.
pub open spec fn takeable(areas: Seq<(GameChunkAera, Option<NodeId>)>) -> bool {
    forall|i: int|
        0 <= i < areas.len() ==> ring_defined(#[trigger] areas[i].0) && area_iterable(areas[i].0)
}

/// A chunk hand-off message with its areas as chunks.  `TakeArea`: each area
/// is taken in turn (see `TakeStep`).  `ReadyToTake`: each area, with the
/// server that will take it, is queued.  Any other action is for the spatial
/// server and changes nothing here.
pub fn on_handoff(
    dir: &mut AssignedChunks,
    pending: &mut Vec<(GameChunkAera, Option<NodeId>)>,
    action: ChunkHandOffAction,
    areas: Vec<(GameChunkAera, Option<NodeId>)>,
) -> (r: HandoffReaction)
    requires
        old(dir).wf(),
        action == ChunkHandOffAction::TakeArea ==> takeable(areas@),
    ensures
        final(dir).wf(),
        action == ChunkHandOffAction::TakeArea ==> {
            &&& chunk_sets(*final(dir)) == take_all_state(chunk_sets(*old(dir)), areas@)
            &&& final(pending)@ == old(pending)@
            &&& r matches HandoffReaction::Take(steps) && steps@.len() == areas@.len() && forall|
                i: int,
            |
                0 <= i < areas@.len() ==> {
                    &&& (#[trigger] steps@[i]).area == areas@[i].0
                    &&& steps@[i].old_owner == areas@[i].1
                    &&& steps@[i].border@ == ring_chunks(areas@[i].0).filter(
                        outside(take_all_state(chunk_sets(*old(dir)), areas@.take(i)).0),
                    )
                }
        },
        action == ChunkHandOffAction::ReadyToTake ==> {
            &&& final(dir).assigned_chunks@ == old(dir).assigned_chunks@
            &&& final(dir).ghost_chunks@ == old(dir).ghost_chunks@
            &&& final(pending)@ == old(pending)@ + areas@
            &&& r is Queued
        },
        action != ChunkHandOffAction::TakeArea && action != ChunkHandOffAction::ReadyToTake ==> {
            &&& final(dir).assigned_chunks@ == old(dir).assigned_chunks@
            &&& final(dir).ghost_chunks@ == old(dir).ghost_chunks@
            &&& final(pending)@ == old(pending)@
            &&& r is Ignored
        },
{
    match action {
        ChunkHandOffAction::TakeArea => {
            let ghost st0 = chunk_sets(*dir);
            let ghost a = areas@;
            let mut steps: Vec<TakeStep> = Vec::new();
            let mut i: usize = 0;
            while i < areas.len()
                invariant
                    dir.wf(),
                    areas@ == a,
                    takeable(a),
                    0 <= i <= a.len(),
                    chunk_sets(*dir) == take_all_state(st0, a.take(i as int)),
                    steps@.len() == i,
                    forall|j: int|
                        0 <= j < i ==> {
                            &&& (#[trigger] steps@[j]).area == a[j].0
                            &&& steps@[j].old_owner == a[j].1
                            &&& steps@[j].border@ == ring_chunks(a[j].0).filter(
                                outside(take_all_state(st0, a.take(j)).0),
                            )
                        },
                decreases a.len() - i,
            {
                let (area, owner) = areas[i];
                assert(ring_defined(a[i as int].0) && area_iterable(a[i as int].0));
                let ghost st = chunk_sets(*dir);
                let border = dir.take_area_ring(&area);
                if owner.is_none() {
                    dir.take_chunks(&area);
                }
                proof {
                    assert(a.take(i + 1).drop_last() =~= a.take(i as int));
                    assert(a.take(i + 1).last() == a[i as int]);
                    assert(chunk_sets(*dir) =~~= take_state(st, area, owner));
                }
                steps.push(TakeStep { area, old_owner: owner, border });
                i = i + 1;
            }
            assert(a.take(a.len() as int) =~= a);
            HandoffReaction::Take(steps)
        },
        ChunkHandOffAction::ReadyToTake => {
            let ghost p0 = pending@;
            let mut i: usize = 0;
            while i < areas.len()
                invariant
                    0 <= i <= areas@.len(),
                    pending@ == p0 + areas@.take(i as int),
                decreases areas@.len() - i,
            {
                pending.push(areas[i]);
                assert(areas@.take(i + 1) =~= areas@.take(i as int).push(areas@[i as int]));
                i = i + 1;
            }
            assert(areas@.take(areas@.len() as int) =~= areas@);
            HandoffReaction::Queued
        },
        _ => HandoffReaction::Ignored,
    }
}

/// One frame's transfer: the first queued area is taken off the queue and,
/// when it names the server that takes it, handed over (see
/// `AssignedChunks::release_area`).
pub fn next_transfer(
    dir: &mut AssignedChunks,
    pending: &mut Vec<(GameChunkAera, Option<NodeId>)>,
) -> (r: TransferStep)
    requires
        old(dir).wf(),
        old(pending)@.len() > 0 && old(pending)@[0].1 is Some ==> release_defined(
            old(pending)@[0].0,
        ) && borders_defined(old(dir).assigned_chunks@, 1),
    ensures
        final(dir).wf(),
        old(pending)@.len() == 0 ==> {
            &&& r is Idle
            &&& final(pending)@ == old(pending)@
            &&& final(dir).assigned_chunks@ == old(dir).assigned_chunks@
            &&& final(dir).ghost_chunks@ == old(dir).ghost_chunks@
        },
        old(pending)@.len() > 0 ==> {
            &&& final(pending)@ == old(pending)@.drop_first()
            &&& match old(pending)@[0].1 {
                None => {
                    &&& r is Skipped
                    &&& final(dir).assigned_chunks@ == old(dir).assigned_chunks@
                    &&& final(dir).ghost_chunks@ == old(dir).ghost_chunks@
                },
                Some(t) => r matches TransferStep::HandOver { area, target, plan } && area == old(
                    pending,
                )@[0].0 && target == t && released(*old(dir), *final(dir), area, plan),
            }
        },
{
    if pending.len() == 0 {
        return TransferStep::Idle;
    }
    let (area, target) = pending.remove(0);
    assert(old(pending)@.remove(0) =~= old(pending)@.drop_first());
    match target {
        None => TransferStep::Skipped,
        Some(t) => {
            let plan = dir.release_area(Some(area));
            TransferStep::HandOver { area, target: t, plan }
        },
    }
}

/// The pattern of the inputs of an area's chunks: the input head byte, then
/// the area's x range and y range.
pub open spec fn area_inputs_pattern(a: GameChunkAera) -> Seq<LayerView> {
    seq![
        LayerView::ListU8(seq![head_byte(SecurityDomain::PrivateReadPublicWrite, Namespace::SpatialInput)]),
        LayerView::RangeI16(a.x_min, a.x_max),
        LayerView::RangeI16(a.y_min, a.y_max),
    ]
}

/// The pattern of the state of an area's chunks: the chunk-state head byte,
/// then the area's x range and y range.
pub open spec fn area_state_pattern(a: GameChunkAera) -> Seq<LayerView> {
    seq![
        LayerView::Fixed(seq![head_byte(SecurityDomain::PublicReadPrivateWrite, Namespace::Chunk)]),
        LayerView::RangeI16(a.x_min, a.x_max),
        LayerView::RangeI16(a.y_min, a.y_max),
    ]
}

/// After a hand-over, the pattern of the inputs of the area's inner part
/// (`ReleasePlan::inner`), which the server stops listening to.
pub fn inner_inputs_pattern(inner: GameChunkAera) -> (r: TopicPattern)
    ensures
        r@ == area_inputs_pattern(inner),
        pattern_sendable(r@),
{
    let mut list: Vec<u8> = Vec::new();
    list.push(
        <Topic as TopicDefaults>::security_namespace_as_u8(
            SecurityDomain::PrivateReadPublicWrite,
            Namespace::SpatialInput,
        ),
    );
    let r = TopicPattern::new().with_list(list).with_layers(inner);
    assert(r@ =~= area_inputs_pattern(inner));
    r
}

/// The data of the chunks of `origin` arrive from `old_owner` (none for an
/// area taken at once): the server simulates them from now on, and they are
/// no longer ghosts.  When they come from another server, the server stops
/// listening to their state, which it now makes: the pattern to unsubscribe
/// from is returned.
pub fn on_chunk_data(dir: &mut AssignedChunks, origin: &GameChunkAera, old_owner: Option<NodeId>) -> (r:
    Option<TopicPattern>)
    requires
        old(dir).wf(),
        area_iterable(*origin),
    ensures
        final(dir).wf(),
        final(dir).assigned() == old(dir).assigned() + area_chunks(*origin).to_set(),
        final(dir).ghosts() == old(dir).ghosts() - area_chunks(*origin).to_set(),
        r is Some <==> old_owner is Some,
        r matches Some(p) ==> p@ == area_state_pattern(*origin) && pattern_sendable(p@),
{
    let r = match old_owner {
        Some(_) => {
            let p = TopicPattern::new().with_head(
                Namespace::Chunk,
                SecurityDomain::PublicReadPrivateWrite,
            ).with_layers(*origin);
            assert(p@ =~= area_state_pattern(*origin));
            Some(p)
        },
        None => None,
    };
    dir.take_chunks(origin);
    r
}

} // verus!
