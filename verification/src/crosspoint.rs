//! The crosspoint: a transport-agnostic N-source x M-output router. A source
//! publishes payload chunks; an output carries exactly one source at a time,
//! selected by `route`, matching how a hardware video router behaves.
//!
//! Distribution uses a broadcast channel per source and a watch channel per
//! output (the output task notices routing changes on it and re-subscribes).

use crate::assoc;
use crate::channels::{
    clone_payload_sender, payload_channel, receiver_of, replace_route, route_channel, route_value,
    subscribe_payload,
};
use bytes::Bytes;
use tokio::sync::{broadcast, watch};
use vstd::prelude::*;

verus! {

/// How many payload chunks a source will buffer for a lagging output before
/// that output starts dropping chunks instead of blocking the source.
pub const SOURCE_CHANNEL_CAPACITY: usize = 1024;

struct SourceSlot {
    id: String,
    tx: broadcast::Sender<Bytes>,
}

struct OutputSlot {
    id: String,
    /// The source this output is routed from: the value last put on `tx`.
    source: String,
    tx: watch::Sender<String>,
}

spec fn source_slot_pairs(v: Seq<SourceSlot>) -> Seq<(Seq<char>, broadcast::Sender<Bytes>)> {
    v.map_values(|s: SourceSlot| (s.id@, s.tx))
}

spec fn output_slot_pairs(v: Seq<OutputSlot>) -> Seq<(Seq<char>, Seq<char>)> {
    v.map_values(|o: OutputSlot| (o.id@, o.source@))
}

/// Each output's id with the route its channel holds.
spec fn told_pairs(v: Seq<OutputSlot>) -> Seq<(Seq<char>, Seq<char>)> {
    v.map_values(|o: OutputSlot| (o.id@, route_value(o.tx)))
}

/// Every output's channel holds the source it is routed from.
spec fn channels_told(v: Seq<OutputSlot>) -> bool {
    forall|i: int| 0 <= i < v.len() ==> route_value(#[trigger] v[i].tx) == v[i].source@
}

proof fn lemma_told(v: Seq<OutputSlot>)
    requires
        channels_told(v),
    ensures
        told_pairs(v) == output_slot_pairs(v),
{
    assert(told_pairs(v) =~= output_slot_pairs(v)) by {
        assert forall|i: int| 0 <= i < v.len() implies told_pairs(v)[i] == output_slot_pairs(v)[i] by {
            assert(route_value(v[i].tx) == v[i].source@);
        }
    }
}

/// The registry of sources and outputs and the routing table between them.
pub struct Crosspoint {
    sources: Vec<SourceSlot>,
    outputs: Vec<OutputSlot>,
}

/// What a crosspoint holds: the registered source ids, and for each output id
/// the source id it is routed from.
#[verifier::ext_equal]
pub struct CrosspointView {
    pub sources: Set<Seq<char>>,
    pub routes: Map<Seq<char>, Seq<char>>,
}

impl CrosspointView {
    pub open spec fn with_source(self, id: Seq<char>) -> CrosspointView {
        CrosspointView { sources: self.sources.insert(id), routes: self.routes }
    }

    pub open spec fn without_source(self, id: Seq<char>) -> CrosspointView {
        CrosspointView { sources: self.sources.remove(id), routes: self.routes }
    }

    pub open spec fn with_output(self, id: Seq<char>, source: Seq<char>) -> CrosspointView {
        CrosspointView { sources: self.sources, routes: self.routes.insert(id, source) }
    }

    pub open spec fn without_output(self, id: Seq<char>) -> CrosspointView {
        CrosspointView { sources: self.sources, routes: self.routes.remove(id) }
    }

    /// A route is taken only when both the source and the output are known.
    pub open spec fn accepts_route(self, output: Seq<char>, source: Seq<char>) -> bool {
        self.sources.contains(source) && self.routes.contains_key(output)
    }

    /// The crosspoint after a route request: the output now carries the
    /// source, or nothing changed if the request was refused.
    pub open spec fn after_route(self, output: Seq<char>, source: Seq<char>) -> CrosspointView {
        if self.accepts_route(output, source) {
            self.with_output(output, source)
        } else {
            self
        }
    }
}

impl Crosspoint {
    spec fn source_pairs(self) -> Seq<(Seq<char>, broadcast::Sender<Bytes>)> {
        source_slot_pairs(self.sources@)
    }

    /// For each registered source, the sender its chunks go out on: the one
    /// `register_source` handed back for it.
    pub closed spec fn source_senders(self) -> Map<Seq<char>, broadcast::Sender<Bytes>> {
        assoc::assoc_map(self.source_pairs())
    }

    spec fn output_pairs(self) -> Seq<(Seq<char>, Seq<char>)> {
        output_slot_pairs(self.outputs@)
    }

    #[verifier::type_invariant]
    spec fn well_formed(self) -> bool {
        &&& assoc::keys_distinct(self.source_pairs())
        &&& assoc::keys_distinct(self.output_pairs())
        &&& channels_told(self.outputs@)
    }

    /// For each output, the route its watch channel holds: what its task
    /// reads to learn which source to carry.
    pub closed spec fn announced(self) -> Map<Seq<char>, Seq<char>> {
        assoc::assoc_map(told_pairs(self.outputs@))
    }
}

impl View for Crosspoint {
    type V = CrosspointView;

    closed spec fn view(&self) -> CrosspointView {
        CrosspointView {
            sources: assoc::assoc_map(self.source_pairs()).dom(),
            routes: assoc::assoc_map(self.output_pairs()),
        }
    }
}

/// The string views of a list of ids.
pub open spec fn ids_view(v: Seq<String>) -> Seq<Seq<char>> {
    v.map_values(|s: String| s@)
}

/// The map that a list of `(key, value)` string pairs stands for.
pub open spec fn pairs_view(v: Seq<(String, String)>) -> Seq<(Seq<char>, Seq<char>)> {
    v.map_values(|p: (String, String)| (p.0@, p.1@))
}

impl Crosspoint {
    pub fn new() -> (xp: Self)
        ensures
            xp@.sources == Set::<Seq<char>>::empty(),
            xp@.routes == Map::<Seq<char>, Seq<char>>::empty(),
            xp.announced() == xp@.routes,
    {
        let xp = Crosspoint { sources: Vec::new(), outputs: Vec::new() };
        proof {
            assoc::lemma_assoc_empty(xp.source_pairs());
            assoc::lemma_assoc_empty(xp.output_pairs());
            lemma_told(xp.outputs@);
            assert(xp@.sources =~= Set::<Seq<char>>::empty());
        }
        xp
    }

    /// The index of the source with this id.
    fn find_source(&self, id: &String) -> (r: Option<usize>)
        ensures
            match r {
                Some(i) => i < self.sources@.len() && self.sources@[i as int].id@ == id@,
                None => !assoc::has_key(self.source_pairs(), id@),
            },
    {
        let mut i: usize = 0;
        while i < self.sources.len()
            invariant
                i <= self.sources@.len(),
                forall|j: int| 0 <= j < i ==> self.sources@[j].id@ != id@,
            decreases self.sources@.len() - i,
        {
            if self.sources[i].id == *id {
                return Some(i);
            }
            i = i + 1;
        }
        proof {
            if assoc::has_key(self.source_pairs(), id@) {
                let j = choose|j: int|
                    0 <= j < self.source_pairs().len() && self.source_pairs()[j].0 == id@;
                assert(self.sources@[j].id@ == id@);
            }
        }
        None
    }

    /// The index of the output with this id.
    fn find_output(&self, id: &String) -> (r: Option<usize>)
        ensures
            match r {
                Some(i) => i < self.outputs@.len() && self.outputs@[i as int].id@ == id@,
                None => !assoc::has_key(self.output_pairs(), id@),
            },
    {
        let mut i: usize = 0;
        while i < self.outputs.len()
            invariant
                i <= self.outputs@.len(),
                forall|j: int| 0 <= j < i ==> self.outputs@[j].id@ != id@,
            decreases self.outputs@.len() - i,
        {
            if self.outputs[i].id == *id {
                return Some(i);
            }
            i = i + 1;
        }
        proof {
            if assoc::has_key(self.output_pairs(), id@) {
                let j = choose|j: int|
                    0 <= j < self.output_pairs().len() && self.output_pairs()[j].0 == id@;
                assert(self.outputs@[j].id@ == id@);
            }
        }
        None
    }

    /// Registers a source and hands back the sender it should publish every
    /// payload chunk to. Re-registering an existing id replaces its channel.
    pub fn register_source(&mut self, id: String) -> (tx: broadcast::Sender<Bytes>)
        ensures
            final(self)@ == old(self)@.with_source(id@),
            final(self).source_senders() == old(self).source_senders().insert(id@, tx),
            final(self).announced() == final(self)@.routes,
    {
        proof {
            use_type_invariant(&*self);
            lemma_told(self.outputs@);
        }
        let tx = payload_channel(SOURCE_CHANNEL_CAPACITY);
        let out = clone_payload_sender(&tx);
        let ghost sender = tx;
        let ghost before = self.source_pairs();
        let ghost key = id@;
        match self.find_source(&id) {
            Some(i) => {
                proof {
                    assoc::lemma_assoc_update(before, i as int, sender);
                    assoc::lemma_assoc_at(before, i as int);
                }
                let mut v: Vec<SourceSlot> = Vec::new();
                std::mem::swap(&mut v, &mut self.sources);
                v.set(i, SourceSlot { id, tx });
                proof {
                    assert(source_slot_pairs(v@) =~= before.update(i as int, (before[i as int].0, sender)));
                }
                std::mem::swap(&mut v, &mut self.sources);
                proof {
                    assert(self.source_pairs() =~= before.update(i as int, (before[i as int].0, sender)));
                    assert(assoc::assoc_map(self.source_pairs()).dom() =~= assoc::assoc_map(before).dom().insert(key));
                    assert(self@.sources =~= old(self)@.sources.insert(key));
                }
            },
            None => {
                proof {
                    assoc::lemma_assoc_push(before, key, sender);
                }
                let mut v: Vec<SourceSlot> = Vec::new();
                std::mem::swap(&mut v, &mut self.sources);
                v.push(SourceSlot { id, tx });
                proof {
                    assert(source_slot_pairs(v@) =~= before.push((key, sender)));
                }
                std::mem::swap(&mut v, &mut self.sources);
                proof {
                    assert(self.source_pairs() =~= before.push((key, sender)));
                    assert(assoc::assoc_map(self.source_pairs()).dom() =~= assoc::assoc_map(before).dom().insert(key));
                    assert(self@.sources =~= old(self)@.sources.insert(key));
                }
            },
        }
        out
    }

    /// Registers an output routed from `initial_source`, and hands back the
    /// receiver its task should watch to learn of later routing changes.
    /// Re-registering an existing id replaces it.
    pub fn register_output(&mut self, id: String, initial_source: String) -> (rx: watch::Receiver<
        String,
    >)
        ensures
            final(self)@ == old(self)@.with_output(id@, initial_source@),
            final(self).source_senders() == old(self).source_senders(),
            final(self).announced() == final(self)@.routes,
    {
        proof {
            use_type_invariant(&*self);
        }
        let ghost key = id@;
        let ghost val = initial_source@;
        let (tx, rx) = route_channel(initial_source.clone());
        let ghost before = self.output_pairs();
        match self.find_output(&id) {
            Some(i) => {
                proof {
                    assoc::lemma_assoc_update(before, i as int, val);
                }
                let mut v: Vec<OutputSlot> = Vec::new();
                std::mem::swap(&mut v, &mut self.outputs);
                let ghost old_v = v@;
                v.set(i, OutputSlot { id, source: initial_source, tx });
                proof {
                    assert(output_slot_pairs(v@) =~= before.update(i as int, (key, val)));
                    assert forall|j: int| 0 <= j < v@.len() implies route_value(#[trigger] v@[j].tx)
                        == v@[j].source@ by {
                        if j != i {
                            assert(v@[j] == old_v[j]);
                        }
                    }
                    lemma_told(v@);
                }
                std::mem::swap(&mut v, &mut self.outputs);
                proof {
                    assert(self.output_pairs() =~= before.update(i as int, (key, val)));
                }
            },
            None => {
                proof {
                    assoc::lemma_assoc_push(before, key, val);
                }
                let mut v: Vec<OutputSlot> = Vec::new();
                std::mem::swap(&mut v, &mut self.outputs);
                let ghost old_v = v@;
                v.push(OutputSlot { id, source: initial_source, tx });
                proof {
                    assert(output_slot_pairs(v@) =~= before.push((key, val)));
                    assert forall|j: int| 0 <= j < v@.len() implies route_value(#[trigger] v@[j].tx)
                        == v@[j].source@ by {
                        if j < old_v.len() {
                            assert(v@[j] == old_v[j]);
                        }
                    }
                    lemma_told(v@);
                }
                std::mem::swap(&mut v, &mut self.outputs);
                proof {
                    assert(self.output_pairs() =~= before.push((key, val)));
                }
            },
        }
        rx
    }

    /// A fresh receiver of a source's payload stream, if the source exists.
    pub fn subscribe(&self, source: &str) -> (r: Option<broadcast::Receiver<Bytes>>)
        ensures
            r is Some <==> self@.sources.contains(source@),
            r matches Some(rx) ==> receiver_of(rx, self.source_senders()[source@]),
    {
        proof {
            use_type_invariant(self);
        }
        let key = source.to_owned();
        match self.find_source(&key) {
            Some(i) => {
                proof {
                    assoc::lemma_assoc_at(self.source_pairs(), i as int);
                }
                let rx = subscribe_payload(&self.sources[i].tx);
                proof {
                    assert(self.source_senders()[source@] == self.sources@[i as int].tx);
                    crate::channels::lemma_receiver_of(rx, self.sources@[i as int].tx);
                }
                Some(rx)
            },
            None => None,
        }
    }

    /// Removes a source. Any output routed to it keeps pointing at the
    /// now-gone id (routing is a separate concern) but can no longer
    /// subscribe to it. Returns `true` if a source with this id existed.
    pub fn deregister_source(&mut self, id: &str) -> (existed: bool)
        ensures
            existed == old(self)@.sources.contains(id@),
            final(self)@ == old(self)@.without_source(id@),
            final(self).source_senders() == old(self).source_senders().remove(id@),
            final(self).announced() == final(self)@.routes,
    {
        proof {
            use_type_invariant(&*self);
            lemma_told(self.outputs@);
        }
        let key = id.to_owned();
        let ghost before = self.source_pairs();
        match self.find_source(&key) {
            Some(i) => {
                proof {
                    assoc::lemma_assoc_remove(before, i as int);
                    assoc::lemma_assoc_at(before, i as int);
                }
                let mut v: Vec<SourceSlot> = Vec::new();
                std::mem::swap(&mut v, &mut self.sources);
                v.remove(i);
                proof {
                    assert(source_slot_pairs(v@) =~= before.remove(i as int));
                }
                std::mem::swap(&mut v, &mut self.sources);
                proof {
                    assert(self.source_pairs() =~= before.remove(i as int));
                    assert(self@.sources =~= old(self)@.sources.remove(id@));
                }
                true
            },
            None => {
                proof {
                    assert(old(self)@.sources =~= old(self)@.sources.remove(id@));
                }
                false
            },
        }
    }

    /// Removes an output. Returns `true` if an output with this id existed.
    pub fn deregister_output(&mut self, id: &str) -> (existed: bool)
        ensures
            existed == old(self)@.routes.contains_key(id@),
            final(self)@ == old(self)@.without_output(id@),
            final(self).source_senders() == old(self).source_senders(),
            final(self).announced() == final(self)@.routes,
    {
        proof {
            use_type_invariant(&*self);
            lemma_told(self.outputs@);
        }
        let key = id.to_owned();
        let ghost before = self.output_pairs();
        match self.find_output(&key) {
            Some(i) => {
                proof {
                    assoc::lemma_assoc_remove(before, i as int);
                    assoc::lemma_assoc_at(before, i as int);
                }
                let mut v: Vec<OutputSlot> = Vec::new();
                std::mem::swap(&mut v, &mut self.outputs);
                let ghost old_v = v@;
                v.remove(i);
                proof {
                    assert(output_slot_pairs(v@) =~= before.remove(i as int));
                    assert forall|j: int| 0 <= j < v@.len() implies route_value(#[trigger] v@[j].tx)
                        == v@[j].source@ by {
                        if j < i {
                            assert(v@[j] == old_v[j]);
                        } else {
                            assert(v@[j] == old_v[j + 1]);
                        }
                    }
                    lemma_told(v@);
                }
                std::mem::swap(&mut v, &mut self.outputs);
                proof {
                    assert(self.output_pairs() =~= before.remove(i as int));
                }
                true
            },
            None => {
                proof {
                    assert(old(self)@.routes =~= old(self)@.routes.remove(id@));
                }
                false
            },
        }
    }

    pub fn has_source(&self, id: &str) -> (r: bool)
        ensures
            r == self@.sources.contains(id@),
    {
        proof {
            use_type_invariant(self);
        }
        let key = id.to_owned();
        match self.find_source(&key) {
            Some(i) => {
                proof {
                    assoc::lemma_assoc_at(self.source_pairs(), i as int);
                }
                true
            },
            None => false,
        }
    }

    pub fn has_output(&self, id: &str) -> (r: bool)
        ensures
            r == self@.routes.contains_key(id@),
    {
        proof {
            use_type_invariant(self);
        }
        let key = id.to_owned();
        match self.find_output(&key) {
            Some(i) => {
                proof {
                    assoc::lemma_assoc_at(self.output_pairs(), i as int);
                }
                true
            },
            None => false,
        }
    }

    /// Points an output at a different source. Does nothing and returns
    /// `false` if either id is unknown, so callers can tell a bad request
    /// from a successful re-route.
    pub fn route(&mut self, output: &str, source: &str) -> (ok: bool)
        ensures
            ok == old(self)@.accepts_route(output@, source@),
            final(self)@ == old(self)@.after_route(output@, source@),
            final(self).source_senders() == old(self).source_senders(),
            final(self).announced() == final(self)@.routes,
    {
        proof {
            use_type_invariant(&*self);
            lemma_told(self.outputs@);
        }
        if !self.has_source(source) {
            return false;
        }
        let key = output.to_owned();
        let ghost before = self.output_pairs();
        match self.find_output(&key) {
            Some(i) => {
                let value = source.to_owned();
                proof {
                    assoc::lemma_assoc_update(before, i as int, source@);
                    assoc::lemma_assoc_at(before, i as int);
                }
                let mut v: Vec<OutputSlot> = Vec::new();
                std::mem::swap(&mut v, &mut self.outputs);
                let ghost old_v = v@;
                let mut slot = v.remove(i);
                replace_route(&mut slot.tx, value.clone());
                slot.source = value;
                v.insert(i, slot);
                proof {
                    assert(output_slot_pairs(v@) =~= before.update(i as int, (output@, source@)));
                    assert forall|j: int| 0 <= j < v@.len() implies route_value(#[trigger] v@[j].tx)
                        == v@[j].source@ by {
                        if j != i {
                            assert(v@[j] == old_v[j]);
                        }
                    }
                    lemma_told(v@);
                }
                std::mem::swap(&mut v, &mut self.outputs);
                proof {
                    assert(self.output_pairs() =~= before.update(i as int, (output@, source@)));
                }
                true
            },
            None => false,
        }
    }

    /// The registered source ids, each once.
    pub fn source_ids(&self) -> (ids: Vec<String>)
        ensures
            ids_view(ids@).to_set() == self@.sources,
            ids_view(ids@).no_duplicates(),
    {
        proof {
            use_type_invariant(self);
        }
        let mut ids: Vec<String> = Vec::new();
        let mut i: usize = 0;
        while i < self.sources.len()
            invariant
                i <= self.sources@.len(),
                ids_view(ids@) =~= assoc::keys_of(self.source_pairs()).take(i as int),
            decreases self.sources@.len() - i,
        {
            let id = self.sources[i].id.clone();
            proof {
                assert(assoc::keys_of(self.source_pairs())[i as int] == self.sources@[i as int].id@);
                assert(id@ == self.sources@[i as int].id@);
            }
            let ghost old_ids = ids@;
            ids.push(id);
            proof {
                let k = assoc::keys_of(self.source_pairs());
                assert(ids@ == old_ids.push(id));
                assert(ids_view(old_ids).len() == i);
                assert(old_ids.len() == i);
                assert(ids_view(ids@).len() == i + 1);
                assert(ids_view(ids@)[i as int] == id@);
                assert forall|j: int| 0 <= j < i implies ids_view(ids@)[j] == ids_view(old_ids)[j] by {
                    assert(ids@[j] == old_ids[j]);
                }
                assert(ids_view(ids@) =~= k.take(i + 1));
            }
            i = i + 1;
        }
        proof {
            assoc::lemma_keys_of(self.source_pairs());
            assert(assoc::keys_of(self.source_pairs()).take(i as int) =~= assoc::keys_of(
                self.source_pairs(),
            ));
        }
        ids
    }

    /// The registered output ids, each once.
    pub fn output_ids(&self) -> (ids: Vec<String>)
        ensures
            ids_view(ids@).to_set() == self@.routes.dom(),
            ids_view(ids@).no_duplicates(),
    {
        proof {
            use_type_invariant(self);
        }
        let mut ids: Vec<String> = Vec::new();
        let mut i: usize = 0;
        while i < self.outputs.len()
            invariant
                i <= self.outputs@.len(),
                ids_view(ids@) =~= assoc::keys_of(self.output_pairs()).take(i as int),
            decreases self.outputs@.len() - i,
        {
            let id = self.outputs[i].id.clone();
            proof {
                assert(assoc::keys_of(self.output_pairs())[i as int] == self.outputs@[i as int].id@);
                assert(id@ == self.outputs@[i as int].id@);
            }
            let ghost old_ids = ids@;
            ids.push(id);
            proof {
                assert(ids_view(old_ids).len() == i);
                assert(ids_view(ids@).len() == i + 1);
                assert(ids_view(ids@)[i as int] == id@);
                assert forall|j: int| 0 <= j < i implies ids_view(ids@)[j] == ids_view(old_ids)[j] by {
                    assert(ids@[j] == old_ids[j]);
                }
                assert(ids_view(ids@) =~= assoc::keys_of(self.output_pairs()).take(i + 1));
            }
            i = i + 1;
        }
        proof {
            assoc::lemma_keys_of(self.output_pairs());
            assert(assoc::keys_of(self.output_pairs()).take(i as int) =~= assoc::keys_of(
                self.output_pairs(),
            ));
        }
        ids
    }

    /// The current output -> source routing table, one pair per output.
    pub fn routes(&self) -> (table: Vec<(String, String)>)
        ensures
            assoc::keys_distinct(pairs_view(table@)),
            assoc::assoc_map(pairs_view(table@)) == self@.routes,
    {
        proof {
            use_type_invariant(self);
        }
        let mut table: Vec<(String, String)> = Vec::new();
        let mut i: usize = 0;
        while i < self.outputs.len()
            invariant
                i <= self.outputs@.len(),
                pairs_view(table@) =~= self.output_pairs().take(i as int),
            decreases self.outputs@.len() - i,
        {
            let id = self.outputs[i].id.clone();
            let src = self.outputs[i].source.clone();
            proof {
                assert(id@ == self.outputs@[i as int].id@);
                assert(src@ == self.outputs@[i as int].source@);
            }
            let ghost old_table = table@;
            table.push((id, src));
            proof {
                assert(pairs_view(old_table).len() == i);
                assert(pairs_view(table@).len() == i + 1);
                assert(pairs_view(table@)[i as int] == (id@, src@));
                assert forall|j: int| 0 <= j < i implies pairs_view(table@)[j] == pairs_view(
                    old_table,
                )[j] by {
                    assert(table@[j] == old_table[j]);
                }
                assert(pairs_view(table@) =~= self.output_pairs().take(i + 1));
            }
            i = i + 1;
        }
        proof {
            assert(self.output_pairs().take(i as int) =~= self.output_pairs());
        }
        table
    }
}

// ------------------------------------------------------------------ laws --

/// A route to a registered source, on a registered output, shows in the
/// routing table; every other output keeps its source and the set of sources
/// is untouched.
pub proof fn law_route_shows_in_table(
    v: CrosspointView,
    output: Seq<char>,
    source: Seq<char>,
    other: Seq<char>,
)
    requires
        v.accepts_route(output, source),
    ensures
        v.after_route(output, source).routes[output] == source,
        v.after_route(output, source).routes.dom() == v.routes.dom(),
        other != output && v.routes.contains_key(other) ==> v.after_route(output, source).routes[other]
            == v.routes[other],
        v.after_route(output, source).sources == v.sources,
{
    assert(v.routes.insert(output, source).dom() =~= v.routes.dom());
}

/// A route naming an unknown source or an unknown output changes nothing.
pub proof fn law_route_to_unknown_changes_nothing(
    v: CrosspointView,
    output: Seq<char>,
    source: Seq<char>,
)
    requires
        !v.sources.contains(source) || !v.routes.contains_key(output),
    ensures
        v.after_route(output, source) == v,
{
}

/// Repeating a route request changes nothing more.
pub proof fn law_route_idempotent(v: CrosspointView, output: Seq<char>, source: Seq<char>)
    ensures
        v.after_route(output, source).after_route(output, source) == v.after_route(output, source),
{
    if v.accepts_route(output, source) {
        assert(v.routes.insert(output, source).insert(output, source) =~= v.routes.insert(
            output,
            source,
        ));
    }
}

/// Each output carries exactly one source at a time: the last accepted route
/// wins.
pub proof fn law_last_route_wins(
    v: CrosspointView,
    output: Seq<char>,
    first: Seq<char>,
    second: Seq<char>,
)
    requires
        v.accepts_route(output, first),
        v.sources.contains(second),
    ensures
        v.after_route(output, first).after_route(output, second) == v.after_route(output, second),
{
    assert(v.routes.insert(output, first).insert(output, second) =~= v.routes.insert(
        output,
        second,
    ));
}

/// Removing a source forgets it (a second removal reports that nothing was
/// there) but leaves every output's route as it was.
pub proof fn law_deregister_source_keeps_routes(v: CrosspointView, id: Seq<char>)
    ensures
        !v.without_source(id).sources.contains(id),
        v.without_source(id).routes == v.routes,
        v.without_source(id).without_source(id) == v.without_source(id),
{
    assert(v.sources.remove(id).remove(id) =~= v.sources.remove(id));
}

/// Removing an output forgets it; a second removal reports nothing there.
pub proof fn law_deregister_output(v: CrosspointView, id: Seq<char>)
    ensures
        !v.without_output(id).routes.contains_key(id),
        v.without_output(id).sources == v.sources,
{
}

/// A registered source or output is known until it is removed; registering
/// again only replaces its channel.
pub proof fn law_register_then_known(v: CrosspointView, id: Seq<char>, source: Seq<char>)
    ensures
        v.with_source(id).sources.contains(id),
        v.with_source(id).with_source(id) == v.with_source(id),
        v.with_output(id, source).routes[id] == source,
        v.with_output(id, source).sources == v.sources,
{
    assert(v.sources.insert(id).insert(id) =~= v.sources.insert(id));
}

/// One call on a crosspoint, as far as its routing table is concerned.
pub enum CrosspointOp {
    RegisterSource(Seq<char>),
    RegisterOutput(Seq<char>, Seq<char>),
    Route(Seq<char>, Seq<char>),
    DeregisterSource(Seq<char>),
    DeregisterOutput(Seq<char>),
}

impl CrosspointView {
    /// The crosspoint after one call, as each call's contract states it.
    pub open spec fn apply(self, op: CrosspointOp) -> CrosspointView {
        match op {
            CrosspointOp::RegisterSource(id) => self.with_source(id),
            CrosspointOp::RegisterOutput(id, source) => self.with_output(id, source),
            CrosspointOp::Route(output, source) => self.after_route(output, source),
            CrosspointOp::DeregisterSource(id) => self.without_source(id),
            CrosspointOp::DeregisterOutput(id) => self.without_output(id),
        }
    }
}

/// The crosspoint after a sequence of calls.
pub open spec fn run_ops(v: CrosspointView, ops: Seq<CrosspointOp>) -> CrosspointView
    decreases ops.len(),
{
    if ops.len() == 0 {
        v
    } else {
        run_ops(v, ops.drop_last()).apply(ops.last())
    }
}

/// The source output `o` carries after the calls, read off their history:
/// the source of the latest `register_output(o, _)` or accepted
/// `route(o, _)` (one that returned `true`), `None` once `o` was
/// deregistered, and what `v` held if none of those came. Registering or
/// removing a source never counts.
pub open spec fn route_history(v: CrosspointView, ops: Seq<CrosspointOp>, o: Seq<char>) -> Option<
    Seq<char>,
>
    decreases ops.len(),
{
    if ops.len() == 0 {
        if v.routes.contains_key(o) {
            Some(v.routes[o])
        } else {
            None
        }
    } else {
        let earlier = ops.drop_last();
        match ops.last() {
            CrosspointOp::RegisterOutput(x, source) => if x == o {
                Some(source)
            } else {
                route_history(v, earlier, o)
            },
            CrosspointOp::Route(x, source) => if x == o && run_ops(v, earlier).accepts_route(
                x,
                source,
            ) {
                Some(source)
            } else {
                route_history(v, earlier, o)
            },
            CrosspointOp::DeregisterOutput(x) => if x == o {
                None
            } else {
                route_history(v, earlier, o)
            },
            _ => route_history(v, earlier, o),
        }
    }
}

/// After any sequence of calls, the routing table holds output `o` exactly
/// when its history says it is registered, and then carries the source of
/// the latest `register_output` or accepted `route` for it.
pub proof fn law_routes_follow_history(v: CrosspointView, ops: Seq<CrosspointOp>, o: Seq<char>)
    ensures
        run_ops(v, ops).routes.contains_key(o) == route_history(v, ops, o) is Some,
        route_history(v, ops, o) matches Some(s) ==> run_ops(v, ops).routes[o] == s,
    decreases ops.len(),
{
    if ops.len() > 0 {
        law_routes_follow_history(v, ops.drop_last(), o);
    }
}

/// An output's subscription reaches the source it names: once
/// `register_source(s)` has handed back `tx` (and calls since have kept the
/// senders, as every call but another registration or removal of `s` does),
/// the receiver `subscribe(s)` gives is a receiver of `tx`'s channel, not of
/// any other source's.
pub proof fn law_subscriber_hears_the_registered_sender(
    registered: Crosspoint,
    later: Crosspoint,
    s: Seq<char>,
    tx: broadcast::Sender<Bytes>,
    rx: broadcast::Receiver<Bytes>,
)
    requires
        registered.source_senders().contains_key(s),
        registered.source_senders()[s] == tx,
        later.source_senders() == registered.source_senders(),
        receiver_of(rx, later.source_senders()[s]),
    ensures
        receiver_of(rx, tx),
{
}

} // verus!
