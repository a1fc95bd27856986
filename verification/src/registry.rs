//! The transport kind and teardown handle of every source and output that is
//! running, whether it came from the config file at startup or was added
//! later through the management API: both go through the same
//! `insert_*`/`remove_*` calls, so both are equally listable and removable.

use crate::assoc;
use crate::kinds::TransportKind;
use tokio_util::sync::CancellationToken;
use vstd::prelude::*;

verus! {

#[verifier::external_type_specification]
#[verifier::external_body]
pub struct ExCancellationToken(CancellationToken);

pub struct Entry {
    pub kind: TransportKind,
    pub cancel: CancellationToken,
}

/// Id -> entry tables for sources and outputs.
pub struct Registry {
    sources: Vec<(String, Entry)>,
    outputs: Vec<(String, Entry)>,
}

/// What the registry holds: the transport kind of every running source and
/// output, by id.
#[verifier::ext_equal]
pub struct RegistryView {
    pub sources: Map<Seq<char>, TransportKind>,
    pub outputs: Map<Seq<char>, TransportKind>,
}

impl RegistryView {
    /// The kind of `id`, looked up among the sources first, then the outputs.
    pub open spec fn kind_of(self, id: Seq<char>) -> Option<TransportKind> {
        if self.sources.contains_key(id) {
            Some(self.sources[id])
        } else if self.outputs.contains_key(id) {
            Some(self.outputs[id])
        } else {
            None
        }
    }
}

spec fn kind_pairs(v: Seq<(String, Entry)>) -> Seq<(Seq<char>, TransportKind)> {
    v.map_values(|e: (String, Entry)| (e.0@, e.1.kind))
}

spec fn entry_pairs(v: Seq<(String, Entry)>) -> Seq<(Seq<char>, Entry)> {
    v.map_values(|e: (String, Entry)| (e.0@, e.1))
}

/// The kind pairs and the entry pairs of a table have the same keys.
proof fn lemma_same_keys(v: Seq<(String, Entry)>)
    ensures
        assoc::keys_distinct(kind_pairs(v)) == assoc::keys_distinct(entry_pairs(v)),
        forall|k: Seq<char>|
            assoc::has_key(kind_pairs(v), k) == #[trigger] assoc::has_key(entry_pairs(v), k),
{
    assert forall|k: Seq<char>|
        assoc::has_key(kind_pairs(v), k) == #[trigger] assoc::has_key(entry_pairs(v), k) by {
        if assoc::has_key(kind_pairs(v), k) {
            let i = choose|i: int| 0 <= i < kind_pairs(v).len() && kind_pairs(v)[i].0 == k;
            assert(entry_pairs(v)[i].0 == k);
        }
        if assoc::has_key(entry_pairs(v), k) {
            let i = choose|i: int| 0 <= i < entry_pairs(v).len() && entry_pairs(v)[i].0 == k;
            assert(kind_pairs(v)[i].0 == k);
        }
    }
    if assoc::keys_distinct(kind_pairs(v)) {
        assert forall|i: int, j: int|
            0 <= i < entry_pairs(v).len() && 0 <= j < entry_pairs(v).len() && i != j implies entry_pairs(
            v,
        )[i].0 != entry_pairs(v)[j].0 by {
            assert(kind_pairs(v)[i].0 != kind_pairs(v)[j].0);
        }
    }
    if assoc::keys_distinct(entry_pairs(v)) {
        assert forall|i: int, j: int|
            0 <= i < kind_pairs(v).len() && 0 <= j < kind_pairs(v).len() && i != j implies kind_pairs(
            v,
        )[i].0 != kind_pairs(v)[j].0 by {
            assert(entry_pairs(v)[i].0 != entry_pairs(v)[j].0);
        }
    }
}

/// With distinct keys, the entries stand for the same ids as the kinds, each
/// entry carrying its id's kind.
proof fn lemma_entries_kinds(v: Seq<(String, Entry)>)
    requires
        assoc::keys_distinct(kind_pairs(v)),
    ensures
        forall|k: Seq<char>|
            #[trigger] assoc::assoc_map(entry_pairs(v)).contains_key(k) == assoc::assoc_map(
                kind_pairs(v),
            ).contains_key(k),
        forall|k: Seq<char>|
            assoc::assoc_map(entry_pairs(v)).contains_key(k) ==> (#[trigger] assoc::assoc_map(
                entry_pairs(v),
            )[k]).kind == assoc::assoc_map(kind_pairs(v))[k],
{
    lemma_same_keys(v);
    assert forall|k: Seq<char>|
        assoc::assoc_map(entry_pairs(v)).contains_key(k) implies (#[trigger] assoc::assoc_map(
        entry_pairs(v),
    )[k]).kind == assoc::assoc_map(kind_pairs(v))[k] by {
        let i = choose|i: int| 0 <= i < entry_pairs(v).len() && entry_pairs(v)[i].0 == k;
        assoc::lemma_assoc_at(entry_pairs(v), i);
        assert(kind_pairs(v)[i].0 == k);
        assoc::lemma_assoc_at(kind_pairs(v), i);
    }
}

/// The kind pairs of a listing.
pub open spec fn listing_view(v: Seq<(String, TransportKind)>) -> Seq<(Seq<char>, TransportKind)> {
    v.map_values(|e: (String, TransportKind)| (e.0@, e.1))
}

impl Registry {
    #[verifier::type_invariant]
    spec fn well_formed(self) -> bool {
        &&& assoc::keys_distinct(kind_pairs(self.sources@))
        &&& assoc::keys_distinct(kind_pairs(self.outputs@))
    }
}

impl View for Registry {
    type V = RegistryView;

    closed spec fn view(&self) -> RegistryView {
        RegistryView {
            sources: assoc::assoc_map(kind_pairs(self.sources@)),
            outputs: assoc::assoc_map(kind_pairs(self.outputs@)),
        }
    }
}

fn find(v: &Vec<(String, Entry)>, id: &String) -> (r: Option<usize>)
    ensures
        match r {
            Some(i) => i < v@.len() && v@[i as int].0@ == id@,
            None => !assoc::has_key(kind_pairs(v@), id@),
        },
{
    let mut i: usize = 0;
    while i < v.len()
        invariant
            i <= v@.len(),
            forall|j: int| 0 <= j < i ==> v@[j].0@ != id@,
        decreases v@.len() - i,
    {
        if v[i].0 == *id {
            return Some(i);
        }
        i = i + 1;
    }
    proof {
        if assoc::has_key(kind_pairs(v@), id@) {
            let j = choose|j: int| 0 <= j < kind_pairs(v@).len() && kind_pairs(v@)[j].0 == id@;
            assert(v@[j].0@ == id@);
        }
    }
    None
}

/// Inserts or replaces the entry for `id`.
fn put(v: &mut Vec<(String, Entry)>, id: String, entry: Entry)
    requires
        assoc::keys_distinct(kind_pairs(old(v)@)),
    ensures
        assoc::keys_distinct(kind_pairs(final(v)@)),
        assoc::assoc_map(kind_pairs(final(v)@)) == assoc::assoc_map(kind_pairs(old(v)@)).insert(
            id@,
            entry.kind,
        ),
        assoc::assoc_map(entry_pairs(final(v)@)) == assoc::assoc_map(entry_pairs(old(v)@)).insert(
            id@,
            entry,
        ),
{
    let ghost before = kind_pairs(v@);
    let ghost ebefore = entry_pairs(v@);
    let ghost key = id@;
    let ghost kind = entry.kind;
    let ghost e = entry;
    proof {
        lemma_same_keys(v@);
    }
    match find(v, &id) {
        Some(i) => {
            proof {
                assoc::lemma_assoc_update(before, i as int, kind);
                assoc::lemma_assoc_update(ebefore, i as int, e);
            }
            v.set(i, (id, entry));
            proof {
                assert(kind_pairs(v@) =~= before.update(i as int, (key, kind)));
                assert(entry_pairs(v@) =~= ebefore.update(i as int, (key, e)));
            }
        },
        None => {
            proof {
                assoc::lemma_assoc_push(before, key, kind);
                assoc::lemma_assoc_push(ebefore, key, e);
            }
            v.push((id, entry));
            proof {
                assert(kind_pairs(v@) =~= before.push((key, kind)));
                assert(entry_pairs(v@) =~= ebefore.push((key, e)));
            }
        },
    }
}

/// Removes and returns the entry for `id`, if any.
fn take(v: &mut Vec<(String, Entry)>, id: &str) -> (r: Option<Entry>)
    requires
        assoc::keys_distinct(kind_pairs(old(v)@)),
    ensures
        assoc::keys_distinct(kind_pairs(final(v)@)),
        assoc::assoc_map(kind_pairs(final(v)@)) == assoc::assoc_map(kind_pairs(old(v)@)).remove(
            id@,
        ),
        assoc::assoc_map(entry_pairs(final(v)@)) == assoc::assoc_map(entry_pairs(old(v)@)).remove(
            id@,
        ),
        r is Some <==> assoc::assoc_map(kind_pairs(old(v)@)).contains_key(id@),
        r matches Some(e) ==> e.kind == assoc::assoc_map(kind_pairs(old(v)@))[id@] && e
            == assoc::assoc_map(entry_pairs(old(v)@))[id@],
{
    let ghost before = kind_pairs(v@);
    let ghost ebefore = entry_pairs(v@);
    proof {
        lemma_same_keys(v@);
    }
    let key = id.to_owned();
    match find(v, &key) {
        Some(i) => {
            proof {
                assoc::lemma_assoc_remove(before, i as int);
                assoc::lemma_assoc_at(before, i as int);
                assoc::lemma_assoc_remove(ebefore, i as int);
                assoc::lemma_assoc_at(ebefore, i as int);
            }
            let (_, entry) = v.remove(i);
            proof {
                assert(kind_pairs(v@) =~= before.remove(i as int));
                assert(entry_pairs(v@) =~= ebefore.remove(i as int));
            }
            Some(entry)
        },
        None => {
            proof {
                assert(assoc::assoc_map(before) =~= assoc::assoc_map(before).remove(id@));
                assert(assoc::assoc_map(ebefore) =~= assoc::assoc_map(ebefore).remove(id@));
            }
            None
        },
    }
}

/// The kind of `id` in the table, if present.
fn kind_in(v: &Vec<(String, Entry)>, id: &String) -> (r: Option<TransportKind>)
    requires
        assoc::keys_distinct(kind_pairs(v@)),
    ensures
        r == (if assoc::assoc_map(kind_pairs(v@)).contains_key(id@) {
            Some(assoc::assoc_map(kind_pairs(v@))[id@])
        } else {
            None::<TransportKind>
        }),
{
    match find(v, id) {
        Some(i) => {
            proof {
                assoc::lemma_assoc_at(kind_pairs(v@), i as int);
            }
            Some(v[i].1.kind)
        },
        None => None,
    }
}

/// The `(id, kind)` pairs of the table.
fn listing(v: &Vec<(String, Entry)>) -> (r: Vec<(String, TransportKind)>)
    ensures
        listing_view(r@) == kind_pairs(v@),
{
    let mut out: Vec<(String, TransportKind)> = Vec::new();
    let mut i: usize = 0;
    while i < v.len()
        invariant
            i <= v@.len(),
            listing_view(out@) =~= kind_pairs(v@).take(i as int),
        decreases v@.len() - i,
    {
        let id = v[i].0.clone();
        let kind = v[i].1.kind;
        let ghost before = out@;
        out.push((id, kind));
        proof {
            assert(listing_view(before).len() == i);
            assert(listing_view(out@).len() == i + 1);
            assert(listing_view(out@)[i as int] == kind_pairs(v@)[i as int]);
            assert forall|j: int| 0 <= j < i implies listing_view(out@)[j] == listing_view(
                before,
            )[j] by {
                assert(out@[j] == before[j]);
            }
            assert(listing_view(out@) =~= kind_pairs(v@).take(i + 1));
        }
        i = i + 1;
    }
    proof {
        assert(kind_pairs(v@).take(i as int) =~= kind_pairs(v@));
    }
    out
}

impl Registry {
    /// The stored entry of every source, by id, teardown token included.
    pub closed spec fn source_entries(self) -> Map<Seq<char>, Entry> {
        assoc::assoc_map(entry_pairs(self.sources@))
    }

    /// The stored entry of every output, by id.
    pub closed spec fn output_entries(self) -> Map<Seq<char>, Entry> {
        assoc::assoc_map(entry_pairs(self.outputs@))
    }

    /// The stored entries stand for exactly the view's ids, each carrying
    /// the kind the view gives it.
    pub open spec fn entries_match(self) -> bool {
        &&& forall|k: Seq<char>|
            #[trigger] self.source_entries().contains_key(k) == self@.sources.contains_key(k)
        &&& forall|k: Seq<char>|
            self.source_entries().contains_key(k) ==> (#[trigger] self.source_entries()[k]).kind
                == self@.sources[k]
        &&& forall|k: Seq<char>|
            #[trigger] self.output_entries().contains_key(k) == self@.outputs.contains_key(k)
        &&& forall|k: Seq<char>|
            self.output_entries().contains_key(k) ==> (#[trigger] self.output_entries()[k]).kind
                == self@.outputs[k]
    }

    proof fn lemma_entries_match(self)
        requires
            assoc::keys_distinct(kind_pairs(self.sources@)),
            assoc::keys_distinct(kind_pairs(self.outputs@)),
        ensures
            self.entries_match(),
    {
        lemma_entries_kinds(self.sources@);
        lemma_entries_kinds(self.outputs@);
    }

    pub fn new() -> (r: Self)
        ensures
            r@.sources == Map::<Seq<char>, TransportKind>::empty(),
            r@.outputs == Map::<Seq<char>, TransportKind>::empty(),
            r.source_entries() == Map::<Seq<char>, Entry>::empty(),
            r.output_entries() == Map::<Seq<char>, Entry>::empty(),
            r.entries_match(),
    {
        let r = Registry { sources: Vec::new(), outputs: Vec::new() };
        proof {
            assoc::lemma_assoc_empty(kind_pairs(r.sources@));
            assoc::lemma_assoc_empty(kind_pairs(r.outputs@));
            assoc::lemma_assoc_empty(entry_pairs(r.sources@));
            assoc::lemma_assoc_empty(entry_pairs(r.outputs@));
            r.lemma_entries_match();
        }
        r
    }

    pub fn insert_source(&mut self, id: String, kind: TransportKind, cancel: CancellationToken)
        ensures
            final(self)@.sources == old(self)@.sources.insert(id@, kind),
            final(self)@.outputs == old(self)@.outputs,
            final(self).source_entries() == old(self).source_entries().insert(
                id@,
                Entry { kind, cancel },
            ),
            final(self).output_entries() == old(self).output_entries(),
            final(self).entries_match(),
    {
        proof {
            use_type_invariant(&*self);
        }
        let mut v: Vec<(String, Entry)> = Vec::new();
        std::mem::swap(&mut v, &mut self.sources);
        put(&mut v, id, Entry { kind, cancel });
        std::mem::swap(&mut v, &mut self.sources);
        proof {
            use_type_invariant(&*self);
            (*self).lemma_entries_match();
        }
    }

    pub fn insert_output(&mut self, id: String, kind: TransportKind, cancel: CancellationToken)
        ensures
            final(self)@.outputs == old(self)@.outputs.insert(id@, kind),
            final(self)@.sources == old(self)@.sources,
            final(self).output_entries() == old(self).output_entries().insert(
                id@,
                Entry { kind, cancel },
            ),
            final(self).source_entries() == old(self).source_entries(),
            final(self).entries_match(),
    {
        proof {
            use_type_invariant(&*self);
        }
        let mut v: Vec<(String, Entry)> = Vec::new();
        std::mem::swap(&mut v, &mut self.outputs);
        put(&mut v, id, Entry { kind, cancel });
        std::mem::swap(&mut v, &mut self.outputs);
        proof {
            use_type_invariant(&*self);
            (*self).lemma_entries_match();
        }
    }

    /// Removes and returns the entry, so the caller can cancel its task;
    /// deregistering the id from the crosspoint is the caller's job.
    pub fn remove_source(&mut self, id: &str) -> (r: Option<Entry>)
        ensures
            r is Some <==> old(self)@.sources.contains_key(id@),
            r matches Some(e) ==> e.kind == old(self)@.sources[id@] && e == old(
                self,
            ).source_entries()[id@],
            final(self)@.sources == old(self)@.sources.remove(id@),
            final(self)@.outputs == old(self)@.outputs,
            final(self).source_entries() == old(self).source_entries().remove(id@),
            final(self).output_entries() == old(self).output_entries(),
            final(self).entries_match(),
    {
        proof {
            use_type_invariant(&*self);
        }
        let mut v: Vec<(String, Entry)> = Vec::new();
        std::mem::swap(&mut v, &mut self.sources);
        let r = take(&mut v, id);
        std::mem::swap(&mut v, &mut self.sources);
        proof {
            use_type_invariant(&*self);
            (*self).lemma_entries_match();
        }
        r
    }

    pub fn remove_output(&mut self, id: &str) -> (r: Option<Entry>)
        ensures
            r is Some <==> old(self)@.outputs.contains_key(id@),
            r matches Some(e) ==> e.kind == old(self)@.outputs[id@] && e == old(
                self,
            ).output_entries()[id@],
            final(self)@.outputs == old(self)@.outputs.remove(id@),
            final(self)@.sources == old(self)@.sources,
            final(self).output_entries() == old(self).output_entries().remove(id@),
            final(self).source_entries() == old(self).source_entries(),
            final(self).entries_match(),
    {
        proof {
            use_type_invariant(&*self);
        }
        let mut v: Vec<(String, Entry)> = Vec::new();
        std::mem::swap(&mut v, &mut self.outputs);
        let r = take(&mut v, id);
        std::mem::swap(&mut v, &mut self.outputs);
        proof {
            use_type_invariant(&*self);
            (*self).lemma_entries_match();
        }
        r
    }

    /// Every source id with its kind, each once.
    pub fn sources(&self) -> (r: Vec<(String, TransportKind)>)
        ensures
            assoc::keys_distinct(listing_view(r@)),
            assoc::assoc_map(listing_view(r@)) == self@.sources,
            self.entries_match(),
    {
        proof {
            use_type_invariant(self);
            (*self).lemma_entries_match();
        }
        listing(&self.sources)
    }

    /// Every output id with its kind, each once.
    pub fn outputs(&self) -> (r: Vec<(String, TransportKind)>)
        ensures
            assoc::keys_distinct(listing_view(r@)),
            assoc::assoc_map(listing_view(r@)) == self@.outputs,
            self.entries_match(),
    {
        proof {
            use_type_invariant(self);
            (*self).lemma_entries_match();
        }
        listing(&self.outputs)
    }

    /// The transport kind of `id`, checking sources then outputs. Source and
    /// output ids are not namespaced, so one lookup serves both.
    pub fn kind_of(&self, id: &str) -> (r: Option<TransportKind>)
        ensures
            r == self@.kind_of(id@),
            self.entries_match(),
    {
        proof {
            use_type_invariant(self);
            (*self).lemma_entries_match();
        }
        let key = id.to_owned();
        match kind_in(&self.sources, &key) {
            Some(k) => Some(k),
            None => kind_in(&self.outputs, &key),
        }
    }
}

// ------------------------------------------------------------------ laws --

/// Whatever added it (the config file at startup or the management API), an
/// inserted source is reported with its kind, and removing it, when its id
/// was new, leaves the sources exactly as they were before the insert; the
/// outputs are never touched.
pub proof fn law_inserted_source_is_listed_and_removable(
    v: RegistryView,
    id: Seq<char>,
    kind: TransportKind,
)
    requires
        !v.sources.contains_key(id),
    ensures
        (RegistryView { sources: v.sources.insert(id, kind), outputs: v.outputs }).kind_of(id) == Some(
            kind,
        ),
        v.sources.insert(id, kind).contains_key(id),
        v.sources.insert(id, kind).remove(id) == v.sources,
{
    assert(v.sources.insert(id, kind).remove(id) =~= v.sources);
}

/// As for sources, for outputs; an output's kind is reported only when no
/// source shares its id, since one lookup serves both and sources come first.
pub proof fn law_inserted_output_is_listed_and_removable(
    v: RegistryView,
    id: Seq<char>,
    kind: TransportKind,
)
    requires
        !v.outputs.contains_key(id),
    ensures
        !v.sources.contains_key(id) ==> (RegistryView {
            sources: v.sources,
            outputs: v.outputs.insert(id, kind),
        }).kind_of(id) == Some(kind),
        v.sources.contains_key(id) ==> (RegistryView {
            sources: v.sources,
            outputs: v.outputs.insert(id, kind),
        }).kind_of(id) == Some(v.sources[id]),
        v.outputs.insert(id, kind).remove(id) == v.outputs,
{
    assert(v.outputs.insert(id, kind).remove(id) =~= v.outputs);
}

/// One call on a registry, as far as the kinds are concerned.
pub enum RegistryOp {
    InsertSource(Seq<char>, TransportKind),
    InsertOutput(Seq<char>, TransportKind),
    RemoveSource(Seq<char>),
    RemoveOutput(Seq<char>),
}

impl RegistryView {
    /// The registry after one call, as each call's contract states it.
    pub open spec fn apply(self, op: RegistryOp) -> RegistryView {
        match op {
            RegistryOp::InsertSource(id, k) => RegistryView {
                sources: self.sources.insert(id, k),
                outputs: self.outputs,
            },
            RegistryOp::InsertOutput(id, k) => RegistryView {
                sources: self.sources,
                outputs: self.outputs.insert(id, k),
            },
            RegistryOp::RemoveSource(id) => RegistryView {
                sources: self.sources.remove(id),
                outputs: self.outputs,
            },
            RegistryOp::RemoveOutput(id) => RegistryView {
                sources: self.sources,
                outputs: self.outputs.remove(id),
            },
        }
    }
}

/// The registry after a sequence of calls.
pub open spec fn run_registry(v: RegistryView, ops: Seq<RegistryOp>) -> RegistryView
    decreases ops.len(),
{
    if ops.len() == 0 {
        v
    } else {
        run_registry(v, ops.drop_last()).apply(ops.last())
    }
}

/// The kind of source `id` by its history: that of the latest
/// `insert_source(id, _)`, `None` once removed, else what `v` held.
pub open spec fn source_history(v: RegistryView, ops: Seq<RegistryOp>, id: Seq<char>) -> Option<
    TransportKind,
>
    decreases ops.len(),
{
    if ops.len() == 0 {
        if v.sources.contains_key(id) {
            Some(v.sources[id])
        } else {
            None
        }
    } else {
        match ops.last() {
            RegistryOp::InsertSource(x, k) => if x == id {
                Some(k)
            } else {
                source_history(v, ops.drop_last(), id)
            },
            RegistryOp::RemoveSource(x) => if x == id {
                None
            } else {
                source_history(v, ops.drop_last(), id)
            },
            _ => source_history(v, ops.drop_last(), id),
        }
    }
}

/// The kind of output `id` by its history, as for sources.
pub open spec fn output_history(v: RegistryView, ops: Seq<RegistryOp>, id: Seq<char>) -> Option<
    TransportKind,
>
    decreases ops.len(),
{
    if ops.len() == 0 {
        if v.outputs.contains_key(id) {
            Some(v.outputs[id])
        } else {
            None
        }
    } else {
        match ops.last() {
            RegistryOp::InsertOutput(x, k) => if x == id {
                Some(k)
            } else {
                output_history(v, ops.drop_last(), id)
            },
            RegistryOp::RemoveOutput(x) => if x == id {
                None
            } else {
                output_history(v, ops.drop_last(), id)
            },
            _ => output_history(v, ops.drop_last(), id),
        }
    }
}

/// After any sequence of calls, `kind_of(id)` is the kind of the latest
/// insert of `id` as a source not removed since, even when `id` is also an
/// output; failing that, the kind of the latest insert of `id` as an output
/// not removed since; failing both, none.
pub proof fn law_kind_of_follows_history(v: RegistryView, ops: Seq<RegistryOp>, id: Seq<char>)
    ensures
        run_registry(v, ops).kind_of(id) == match source_history(v, ops, id) {
            Some(k) => Some(k),
            None => output_history(v, ops, id),
        },
    decreases ops.len(),
{
    if ops.len() > 0 {
        law_kind_of_follows_history(v, ops.drop_last(), id);
        lemma_histories(v, ops, id);
    }
}

/// Each table follows its own history.
proof fn lemma_histories(v: RegistryView, ops: Seq<RegistryOp>, id: Seq<char>)
    ensures
        run_registry(v, ops).sources.contains_key(id) == source_history(v, ops, id) is Some,
        source_history(v, ops, id) matches Some(k) ==> run_registry(v, ops).sources[id] == k,
        run_registry(v, ops).outputs.contains_key(id) == output_history(v, ops, id) is Some,
        output_history(v, ops, id) matches Some(k) ==> run_registry(v, ops).outputs[id] == k,
    decreases ops.len(),
{
    if ops.len() > 0 {
        lemma_histories(v, ops.drop_last(), id);
    }
}

} // verus!
