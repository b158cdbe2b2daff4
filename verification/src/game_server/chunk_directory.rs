//! The chunks a game server simulates (assigned) and those it only watches
//! (ghosts: the ring around its own).  Areas are taken over from other
//! servers and handed over to them; the directory says, at each step, which
//! chunks the server starts or stops watching.  The areas come here as
//! rectangles of chunks; turning world rectangles into chunk rectangles is
//! done by the caller.
use crate::collections::{
    lemma_insert_to_set, lemma_swap_remove_to_set, FastIterableSet, KeyEq,
};
use crate::core_types::chunks::{
    area_chunks, area_iterable, borders_defined, ring_chunks, ring_defined, touches, GameChunk,
    GameChunkAera,
};
use crate::game_server::Authority;
use vstd::prelude::*;

verus! {

impl KeyEq for GameChunk {
    fn key_eq(&self, other: &Self) -> (r: bool) {
        self.x == other.x && self.y == other.y
    }
}

/// The area without its outer ring of chunks.
pub open spec fn inner_area(a: GameChunkAera) -> GameChunkAera {
    GameChunkAera {
        x_min: (a.x_min + 1) as i16,
        x_max: (a.x_max - 1) as i16,
        y_min: (a.y_min + 1) as i16,
        y_max: (a.y_max - 1) as i16,
    }
}

/// An area can be handed over: it, its ring and the ring of its inner area
/// can be computed within sixteen bits.
pub open spec fn release_defined(a: GameChunkAera) -> bool {
    &&& area_iterable(a)
    &&& ring_defined(a)
    &&& a.x_min < i16::MAX
    &&& a.y_min < i16::MAX
    &&& a.x_max > i16::MIN
    &&& a.y_max > i16::MIN
    &&& ring_defined(inner_area(a))
}

/// The chunks outside `s` that touch a chunk of `s`, corners included.
pub open spec fn frontier(s: Set<GameChunk>) -> Set<GameChunk> {
    Set::new(|n: GameChunk| !s.contains(n) && exists|c: GameChunk| s.contains(c) && touches(n, c))
}

/// Whether a chunk is outside `s`.
pub open spec fn outside(s: Set<GameChunk>) -> spec_fn(GameChunk) -> bool {
    |c: GameChunk| !s.contains(c)
}

/// What a server stops watching when it hands an area over.
#[derive(Debug, Clone)]
pub struct ReleasePlan {
    /// The chunks of the area's ring it no longer needs as ghosts (inputs and
    /// state), each once.
    pub killed_ghosts: Vec<GameChunk>,
    /// The inner area, whose inputs it no longer needs.
    pub inner: Option<GameChunkAera>,
    /// The chunks of the inner area's ring whose inputs it no longer needs,
    /// each once.
    pub regular_unsubscribe: Vec<GameChunk>,
}

/// The chunks a server simulates and the chunks it watches.
#[derive(Debug, Clone)]
pub struct AssignedChunks {
    pub assigned_chunks: FastIterableSet<GameChunk>,
    pub ghost_chunks: FastIterableSet<GameChunk>,
}

/// `after` and `plan` are what handing the area `a` over makes of `before`:
/// the area's chunks are no longer simulated; of the area's ring, what no
/// longer touches a simulated chunk is no longer watched (and is listed in
/// the plan); of the inner area's ring, what no longer touches a simulated
/// chunk is listed for its inputs to be dropped.
pub open spec fn released(before: AssignedChunks, after: AssignedChunks, a: GameChunkAera, plan: ReleasePlan) -> bool {
    &&& after.assigned() == before.assigned() - area_chunks(a).to_set()
    &&& plan.killed_ghosts@.to_set() == ring_chunks(a).to_set() - frontier(after.assigned())
    &&& plan.regular_unsubscribe@.to_set() == ring_chunks(inner_area(a)).to_set() - frontier(
        after.assigned(),
    )
    &&& after.ghosts() == before.ghosts() - plan.killed_ghosts@.to_set()
    &&& plan.inner == Some(inner_area(a))
}

/// Bounds that hold of every chunk of a sequence hold of every chunk of a
/// sequence made of some of them.
proof fn lemma_borders_defined_sub(s: Seq<GameChunk>, t: Seq<GameChunk>)
    requires
        borders_defined(s, 1),
        forall|j: int| 0 <= j < t.len() ==> s.contains(#[trigger] t[j]),
    ensures
        borders_defined(t, 1),
{
    if t.len() > 0 {
        assert(s.contains(t[0]));
        assert forall|i: int| 0 <= i < t.len() implies i16::MIN < #[trigger] t[i].x <= 32765
            && i16::MIN < t[i].y <= 32765 by {
            assert(s.contains(t[i]));
            let k = choose|k: int| 0 <= k < s.len() && s[k] == t[i];
            assert(s[k] == t[i]);
        }
        assert forall|i: int, j: int| 0 <= i < t.len() && 0 <= j < t.len() implies #[trigger] t[i].x
            - #[trigger] t[j].x <= 32764 && t[i].y - t[j].y <= 32764 by {
            assert(s.contains(t[i]));
            assert(s.contains(t[j]));
            let k = choose|k: int| 0 <= k < s.len() && s[k] == t[i];
            let l = choose|l: int| 0 <= l < s.len() && s[l] == t[j];
            assert(s[k].x - s[l].x <= 32764);
        }
    }
}

/// The chunks of an area, in its iteration order.
fn area_chunk_list(a: &GameChunkAera) -> (r: Vec<GameChunk>)
    requires
        area_iterable(*a),
    ensures
        r@ == area_chunks(*a),
{
    let mut chunks: Vec<GameChunk> = Vec::new();
    let mut it = a.iter();
    loop
        invariant_except_break
            it.can_finish(),
        invariant
            it.area() == *a,
            chunks@ + it.remaining() == area_chunks(*a),
        ensures
            chunks@ == area_chunks(*a),
        decreases it.remaining().len(),
    {
        proof {
            it.lemma_can_finish();
        }
        match it.next() {
            Some(chunk) => {
                chunks.push(chunk);
                assert(chunks@ + it.remaining() =~= area_chunks(*a));
            },
            None => {
                assert(chunks@ =~= area_chunks(*a));
                break;
            },
        }
    }
    chunks
}

impl AssignedChunks {
    /// No chunk twice in either set.
    pub open spec fn wf(&self) -> bool {
        self.assigned_chunks.wf() && self.ghost_chunks.wf()
    }

    /// The chunks simulated.
    pub open spec fn assigned(&self) -> Set<GameChunk> {
        self.assigned_chunks@.to_set()
    }

    /// The chunks watched.
    pub open spec fn ghosts(&self) -> Set<GameChunk> {
        self.ghost_chunks@.to_set()
    }

    /// A server that simulates and watches nothing.
    pub fn new() -> (r: Self)
        ensures
            r.wf(),
            r.assigned() == Set::<GameChunk>::empty(),
            r.ghosts() == Set::<GameChunk>::empty(),
    {
        let r = AssignedChunks {
            assigned_chunks: FastIterableSet::new(),
            ghost_chunks: FastIterableSet::new(),
        };
        assert(r.assigned() =~= Set::<GameChunk>::empty());
        assert(r.ghosts() =~= Set::<GameChunk>::empty());
        r
    }

    /// Before a snapshot, for an entity standing in chunk `c`: one simulated
    /// here outside the assigned chunks is handed over, and is simulated
    /// here for one last frame.  True when it is handed over.
    pub fn relieve_authority(&self, authority: &mut Authority, c: GameChunk) -> (r: bool)
        ensures
            r == (*old(authority) == Authority::Authoritative && !self.assigned().contains(c)),
            *final(authority) == if r {
                Authority::LastAuthFrame
            } else {
                *old(authority)
            },
    {
        if *authority != Authority::Authoritative {
            return false;
        }
        if self.assigned_chunks.contains(&c) {
            return false;
        }
        *authority = Authority::LastAuthFrame;
        true
    }

    /// After a snapshot, for an entity standing in chunk `c`: one in its
    /// last frame here becomes a ghost.  True when the entity stays: its
    /// chunk is simulated or watched here; otherwise it is to be despawned.
    pub fn keeps_entity(&self, authority: &mut Authority, c: GameChunk) -> (r: bool)
        ensures
            *final(authority) == if *old(authority) == Authority::LastAuthFrame {
                Authority::GhostCopy
            } else {
                *old(authority)
            },
            r == (self.assigned().contains(c) || self.ghosts().contains(c)),
    {
        if *authority == Authority::LastAuthFrame {
            *authority = Authority::GhostCopy;
        }
        self.assigned_chunks.contains(&c) || self.ghost_chunks.contains(&c)
    }

    /// The server receives the chunks of `origin`: it simulates them from now
    /// on, and they are no longer ghosts.
    pub fn take_chunks(&mut self, origin: &GameChunkAera)
        requires
            old(self).wf(),
            area_iterable(*origin),
        ensures
            final(self).wf(),
            final(self).assigned() == old(self).assigned() + area_chunks(*origin).to_set(),
            final(self).ghosts() == old(self).ghosts() - area_chunks(*origin).to_set(),
    {
        let chunks = area_chunk_list(origin);
        let ghost s = area_chunks(*origin);
        let ghost a0 = self.assigned();
        let ghost g0 = self.ghosts();
        let mut i: usize = 0;
        while i < chunks.len()
            invariant
                chunks@ == s,
                0 <= i <= s.len(),
                self.wf(),
                self.assigned() == a0 + s.take(i as int).to_set(),
                self.ghosts() == g0 - s.take(i as int).to_set(),
            decreases s.len() - i,
        {
            let c = chunks[i];
            let ghost before_a = self.assigned_chunks@;
            let ghost before_g = self.ghost_chunks@;
            self.assigned_chunks.insert(c);
            self.ghost_chunks.swap_remove(&c);
            proof {
                assert(s.take(i + 1) =~= s.take(i as int).push(c));
                s.take(i as int).lemma_push_to_set_commute(c);
                lemma_insert_to_set(before_a, c);
                lemma_swap_remove_to_set(before_g, c);
                assert(self.assigned() =~= a0 + s.take(i + 1).to_set());
                assert(self.ghosts() =~= g0 - s.take(i + 1).to_set());
            }
            i = i + 1;
        }
        assert(s.take(s.len() as int) =~= s);
    }

    /// The server takes the area `taken` (as chunks): the chunks of the
    /// area's ring that it does not simulate become ghosts.  They are
    /// returned in ring order: the server starts watching them.
    pub fn take_area_ring(&mut self, taken: &GameChunkAera) -> (r: Vec<GameChunk>)
        requires
            old(self).wf(),
            ring_defined(*taken),
        ensures
            final(self).wf(),
            final(self).assigned_chunks@ == old(self).assigned_chunks@,
            r@ == ring_chunks(*taken).filter(outside(old(self).assigned())),
            final(self).ghosts() == old(self).ghosts() + r@.to_set(),
    {
        let ring = taken.get_borders(1);
        let ghost s = ring_chunks(*taken);
        let ghost a0 = self.assigned();
        let ghost g0 = self.ghosts();
        let mut fresh: Vec<GameChunk> = Vec::new();
        let mut i: usize = 0;
        while i < ring.len()
            invariant
                ring@ == s,
                0 <= i <= s.len(),
                self.wf(),
                self.assigned() == a0,
                self.assigned_chunks@ == old(self).assigned_chunks@,
                a0 == old(self).assigned(),
                fresh@ == s.take(i as int).filter(outside(a0)),
                self.ghosts() == g0 + fresh@.to_set(),
            decreases s.len() - i,
        {
            let c = ring[i];
            proof {
                assert(s.take(i + 1).drop_last() =~= s.take(i as int));
                reveal(Seq::filter);
            }
            if !self.assigned_chunks.contains(&c) {
                let ghost before_g = self.ghost_chunks@;
                let ghost before_f = fresh@;
                self.ghost_chunks.insert(c);
                fresh.push(c);
                proof {
                    lemma_insert_to_set(before_g, c);
                    before_f.lemma_push_to_set_commute(c);
                    assert(self.ghosts() =~= g0 + fresh@.to_set());
                }
            }
            i = i + 1;
        }
        assert(s.take(s.len() as int) =~= s);
        fresh
    }

    /// The set of the chunks of `v`, each once.
    fn chunk_set(v: &Vec<GameChunk>) -> (r: FastIterableSet<GameChunk>)
        ensures
            r.wf(),
            r@.to_set() == v@.to_set(),
    {
        let mut r: FastIterableSet<GameChunk> = FastIterableSet::new();
        let mut i: usize = 0;
        while i < v.len()
            invariant
                0 <= i <= v@.len(),
                r.wf(),
                r@.to_set() == v@.take(i as int).to_set(),
            decreases v@.len() - i,
        {
            let ghost before = r@;
            r.insert(v[i]);
            proof {
                lemma_insert_to_set(before, v@[i as int]);
                assert(v@.take(i + 1) =~= v@.take(i as int).push(v@[i as int]));
                v@.take(i as int).lemma_push_to_set_commute(v@[i as int]);
            }
            i = i + 1;
        }
        assert(v@.take(v@.len() as int) =~= v@);
        r
    }

    /// Removes the chunks of `v` from `set`.
    fn remove_all(set: &mut FastIterableSet<GameChunk>, v: &Vec<GameChunk>)
        requires
            old(set).wf(),
        ensures
            final(set).wf(),
            final(set)@.to_set() == old(set)@.to_set() - v@.to_set(),
    {
        let ghost s0 = set@.to_set();
        let mut i: usize = 0;
        while i < v.len()
            invariant
                0 <= i <= v@.len(),
                set.wf(),
                set@.to_set() == s0 - v@.take(i as int).to_set(),
            decreases v@.len() - i,
        {
            let ghost before = set@;
            set.swap_remove(&v[i]);
            proof {
                lemma_swap_remove_to_set(before, v@[i as int]);
                assert(v@.take(i + 1) =~= v@.take(i as int).push(v@[i as int]));
                v@.take(i as int).lemma_push_to_set_commute(v@[i as int]);
                assert(set@.to_set() =~= s0 - v@.take(i + 1).to_set());
            }
            i = i + 1;
        }
        assert(v@.take(v@.len() as int) =~= v@);
    }

    /// The server hands the area `area` (as chunks) over, or nothing when
    /// there is no one to hand it to.  It stops simulating the area's chunks;
    /// of the area's ring, it stops watching what no longer touches a chunk
    /// it simulates; of the inner area's ring, it stops listening to the
    /// inputs of what no longer touches a chunk it simulates.
    pub fn release_area(&mut self, area: Option<GameChunkAera>) -> (r: ReleasePlan)
        requires
            old(self).wf(),
            area matches Some(a) ==> release_defined(a) && borders_defined(
                old(self).assigned_chunks@,
                1,
            ),
        ensures
            final(self).wf(),
            r.killed_ghosts@.no_duplicates(),
            r.regular_unsubscribe@.no_duplicates(),
            match area {
                None => {
                    &&& final(self).assigned_chunks@ == old(self).assigned_chunks@
                    &&& final(self).ghost_chunks@ == old(self).ghost_chunks@
                    &&& r.killed_ghosts@.len() == 0
                    &&& r.inner is None
                    &&& r.regular_unsubscribe@.len() == 0
                },
                Some(a) => released(*old(self), *final(self), a, r),
            },
    {
        let a = match area {
            Some(a) => a,
            None => {
                return ReleasePlan {
                    killed_ghosts: Vec::new(),
                    inner: None,
                    regular_unsubscribe: Vec::new(),
                };
            },
        };
        let ghost old_assigned = self.assigned_chunks@;
        let ring = a.get_borders(1);
        let mut killed = Self::chunk_set(&ring);
        let chunks = area_chunk_list(&a);
        Self::remove_all(&mut self.assigned_chunks, &chunks);
        let inner = GameChunkAera {
            x_min: a.x_min + 1,
            y_min: a.y_min + 1,
            y_max: a.y_max - 1,
            x_max: a.x_max - 1,
        };
        let inner_ring = inner.get_borders(1);
        let mut regular = Self::chunk_set(&inner_ring);
        let kept = self.assigned_chunks.to_vec();
        proof {
            assert forall|j: int| 0 <= j < kept@.len() implies old_assigned.contains(
                #[trigger] kept@[j],
            ) by {
                assert(self.assigned().contains(kept@[j]));
            }
            lemma_borders_defined_sub(old_assigned, kept@);
        }
        let new_border = GameChunk::get_borders_of(&kept, 1);
        proof {
            let f = frontier(self.assigned());
            assert forall|n: GameChunk| new_border@.to_set().contains(n) <==> f.contains(n) by {
                if new_border@.contains(n) {
                    let i = choose|i: int| 0 <= i < kept@.len() && touches(n, #[trigger] kept@[i]);
                    assert(self.assigned().contains(kept@[i]));
                }
                if f.contains(n) {
                    let c = choose|c: GameChunk| self.assigned().contains(c) && touches(n, c);
                    let i = choose|i: int| 0 <= i < kept@.len() && kept@[i] == c;
                    assert(touches(n, kept@[i]));
                }
            }
            assert(new_border@.to_set() =~= f);
        }
        Self::remove_all(&mut killed, &new_border);
        Self::remove_all(&mut regular, &new_border);
        let ghosts = self.ghost_chunks.to_vec();
        let mut kept_ghosts: FastIterableSet<GameChunk> = FastIterableSet::new();
        let ghost k = killed@.to_set();
        let mut i: usize = 0;
        while i < ghosts.len()
            invariant
                0 <= i <= ghosts@.len(),
                kept_ghosts.wf(),
                killed@.to_set() == k,
                kept_ghosts@.to_set() == ghosts@.take(i as int).to_set() - k,
            decreases ghosts@.len() - i,
        {
            let c = ghosts[i];
            let ghost before = kept_ghosts@;
            proof {
                assert(ghosts@.take(i + 1) =~= ghosts@.take(i as int).push(c));
                ghosts@.take(i as int).lemma_push_to_set_commute(c);
            }
            if !killed.contains(&c) {
                kept_ghosts.insert(c);
                proof {
                    lemma_insert_to_set(before, c);
                }
            }
            assert(kept_ghosts@.to_set() =~= ghosts@.take(i + 1).to_set() - k);
            i = i + 1;
        }
        assert(ghosts@.take(ghosts@.len() as int) =~= ghosts@);
        self.ghost_chunks = kept_ghosts;
        ReleasePlan {
            killed_ghosts: killed.to_vec(),
            inner: Some(inner),
            regular_unsubscribe: regular.to_vec(),
        }
    }
}

/// Handing over an area that was just received, and that the server did not
/// simulate before, gives back the chunks it simulated before: what
/// `take_chunks` adds, `release_area` takes away.
pub proof fn lemma_release_undoes_take(assigned: Set<GameChunk>, a: GameChunkAera)
    requires
        forall|c: GameChunk| area_chunks(a).contains(c) ==> !assigned.contains(c),
    ensures
        (assigned + area_chunks(a).to_set()) - area_chunks(a).to_set() == assigned,
{
    assert((assigned + area_chunks(a).to_set()) - area_chunks(a).to_set() =~= assigned);
}

} // verus!
