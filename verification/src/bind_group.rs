//! Bind group cache: the uniform buffer and bind group of each material,
//! built when first asked for and rebuilt only after its values changed.

use crate::layout::{encode, serialized, FieldValue};
use crate::material::{InstanceSpec, MaterialInstance};
use std::collections::HashMap;
use vstd::prelude::*;

verus! {

broadcast use vstd::std_specs::hash::group_hash_axioms;

/// Names the bind group that was built for a material at a generation.
#[derive(Clone, Copy, Debug, PartialEq, Eq, Structural)]
pub struct BindGroupHandle {
    pub definition: u64,
    pub generation: u64,
}

/// What the cache keeps for a material: the buffer built from its values,
/// the generation of those values, and the handle of the bind group.
#[derive(Debug, PartialEq, Eq)]
pub struct BindGroupEntry {
    pub generation: u64,
    pub buffer: Vec<u8>,
    pub handle: BindGroupHandle,
}

/// What an entry is, as plain mathematical values.
pub struct EntrySpec {
    pub generation: u64,
    pub buffer: Seq<u8>,
    pub handle: BindGroupHandle,
}

impl View for BindGroupEntry {
    type V = EntrySpec;

    open spec fn view(&self) -> EntrySpec {
        EntrySpec { generation: self.generation, buffer: self.buffer@, handle: self.handle }
    }
}

/// Where a material stands between its definition and its bind group.
#[derive(Clone, Copy, Debug, PartialEq, Eq, Structural)]
pub enum MaterialState {
    /// The material is defined and has no instance yet.
    Defined,
    /// The instance has values and no bind group was built for it.
    Instantiated,
    /// The bind group holds the current values.
    Bound,
    /// The values changed after the bind group was built.
    Stale,
}

/// What happens to a material.
#[derive(Clone, Copy, Debug, PartialEq, Eq, Structural)]
pub enum MaterialEvent {
    /// An instance is made from the definition.
    Instantiate,
    /// The bind group is asked for.
    Bind,
    /// A value is changed.
    Mutate,
}

impl MaterialState {
    /// The state after an event, `None` where the event cannot happen in
    /// the state: a definition is instantiated before anything else happens
    /// to the material, and only once.
    pub open spec fn spec_next(self, event: MaterialEvent) -> Option<MaterialState> {
        match (self, event) {
            (MaterialState::Defined, MaterialEvent::Instantiate) => Some(
                MaterialState::Instantiated,
            ),
            (MaterialState::Defined, _) => None,
            (_, MaterialEvent::Instantiate) => None,
            (_, MaterialEvent::Bind) => Some(MaterialState::Bound),
            (MaterialState::Instantiated, MaterialEvent::Mutate) => Some(
                MaterialState::Instantiated,
            ),
            (_, MaterialEvent::Mutate) => Some(MaterialState::Stale),
        }
    }

    /// The state after an event, `None` where the event cannot happen in
    /// the state.
    #[verifier::when_used_as_spec(spec_next)]
    pub fn next(self, event: MaterialEvent) -> (state: Option<MaterialState>)
        ensures
            state == self.spec_next(event),
    {
        match (self, event) {
            (MaterialState::Defined, MaterialEvent::Instantiate) => Some(
                MaterialState::Instantiated,
            ),
            (MaterialState::Defined, _) => None,
            (_, MaterialEvent::Instantiate) => None,
            (_, MaterialEvent::Bind) => Some(MaterialState::Bound),
            (MaterialState::Instantiated, MaterialEvent::Mutate) => Some(
                MaterialState::Instantiated,
            ),
            (_, MaterialEvent::Mutate) => Some(MaterialState::Stale),
        }
    }
}

/// The handle of the bind group of an instance at its current generation.
pub open spec fn handle_of(instance: InstanceSpec) -> BindGroupHandle {
    BindGroupHandle {
        definition: instance.definition.id,
        generation: instance.generation,
    }
}

/// The cache holds an entry for the instance's material at the instance's
/// generation.
pub open spec fn is_bound(entries: Map<u64, EntrySpec>, instance: InstanceSpec) -> bool {
    &&& entries.contains_key(instance.definition.id)
    &&& entries[instance.definition.id].generation == instance.generation
}

/// The entry that is built for an instance: its values, serialized by its
/// layout, at its generation.
pub open spec fn built_entry(instance: InstanceSpec) -> EntrySpec {
    EntrySpec {
        generation: instance.generation,
        buffer: serialized(instance.definition.layout, instance.values),
        handle: handle_of(instance),
    }
}

/// The cache after the bind group of an instance was asked for: as before
/// where the cache held an entry at the instance's generation, and else with
/// the entry of the material replaced by a newly built one.
pub open spec fn entries_after(entries: Map<u64, EntrySpec>, instance: InstanceSpec) -> Map<
    u64,
    EntrySpec,
> {
    if is_bound(entries, instance) {
        entries
    } else {
        entries.insert(instance.definition.id, built_entry(instance))
    }
}

/// Where an instance stands with respect to a cache.
pub open spec fn state_of(entries: Map<u64, EntrySpec>, instance: InstanceSpec) -> MaterialState {
    if !entries.contains_key(instance.definition.id) {
        MaterialState::Instantiated
    } else if entries[instance.definition.id].generation == instance.generation {
        MaterialState::Bound
    } else {
        MaterialState::Stale
    }
}

/// The invariant of a cache: the handle of each entry names the material
/// that the entry is kept for, at the generation of the entry.
pub open spec fn well_formed(entries: Map<u64, EntrySpec>) -> bool {
    forall|id: u64| #[trigger]
        entries.contains_key(id) ==> entries[id].handle == (BindGroupHandle {
            definition: id,
            generation: entries[id].generation,
        })
}

/// Asking for the bind group of an instance keeps a cache well-formed and
/// leaves the material bound: the cache then holds, at the instance's
/// generation, the entry whose handle is returned.
pub proof fn lemma_bound_after(entries: Map<u64, EntrySpec>, instance: InstanceSpec)
    requires
        well_formed(entries),
    ensures
        well_formed(entries_after(entries, instance)),
        is_bound(entries_after(entries, instance), instance),
        entries_after(entries, instance)[instance.definition.id].handle == handle_of(instance),
        !is_bound(entries, instance) ==> entries_after(entries, instance)[instance.definition.id]
            == built_entry(instance),
        state_of(entries_after(entries, instance), instance) == MaterialState::Bound,
        state_of(entries, instance).spec_next(MaterialEvent::Bind) == Some(MaterialState::Bound),
{
    let after = entries_after(entries, instance);
    if is_bound(entries, instance) {
        assert(entries.contains_key(instance.definition.id));
    } else {
        assert forall|id: u64| #[trigger] after.contains_key(id) implies after[id].handle == (
        BindGroupHandle { definition: id, generation: after[id].generation }) by {
            if id != instance.definition.id {
                assert(entries.contains_key(id));
            }
        }
    }
}

/// Asking twice for the bind group of an instance that did not change in
/// between gives the same handle, and the second time builds nothing: the
/// cache, buffers included, stays as the first time left it.
pub proof fn lemma_bind_again(entries: Map<u64, EntrySpec>, instance: InstanceSpec)
    requires
        well_formed(entries),
    ensures
        entries_after(entries_after(entries, instance), instance) == entries_after(
            entries,
            instance,
        ),
        entries_after(entries_after(entries, instance), instance)[instance.definition.id].handle
            == entries_after(entries, instance)[instance.definition.id].handle,
{
    lemma_bound_after(entries, instance);
}

/// After a value of a bound instance changed, the material is stale; asking
/// for its bind group then builds a new one from the new values, under
/// another handle, of a strictly greater generation.
pub proof fn lemma_rebuilt_after_mutation(
    entries: Map<u64, EntrySpec>,
    instance: InstanceSpec,
    index: int,
    value: FieldValue,
)
    requires
        well_formed(entries),
        instance.generation < u64::MAX,
    ensures
        ({
            let bound = entries_after(entries, instance);
            let changed = instance.with_value(index, value);
            let rebound = entries_after(bound, changed);
            &&& state_of(bound, changed) == MaterialState::Stale
            &&& state_of(bound, instance).spec_next(MaterialEvent::Mutate) == Some(
                MaterialState::Stale,
            )
            &&& !is_bound(bound, changed)
            &&& rebound[instance.definition.id] == built_entry(changed)
            &&& handle_of(changed) != handle_of(instance)
            &&& handle_of(changed).generation > handle_of(instance).generation
            &&& rebound[instance.definition.id].handle.generation
                > bound[instance.definition.id].handle.generation
            &&& state_of(rebound, changed) == MaterialState::Bound
        }),
{
    let bound = entries_after(entries, instance);
    let changed = instance.with_value(index, value);
    lemma_bound_after(entries, instance);
    lemma_bound_after(bound, changed);
}

/// The uniform buffers and bind groups of the materials in use, one for
/// each material.
///
/// The cache is changed through an exclusive borrow, so that however many
/// drawables share an instance, its bind group is built once for each
/// generation.
#[derive(Debug)]
pub struct BindGroupCache {
    entries: HashMap<u64, BindGroupEntry>,
}

impl View for BindGroupCache {
    type V = Map<u64, EntrySpec>;

    closed spec fn view(&self) -> Map<u64, EntrySpec> {
        Map::new(|id: u64| self.entries@.contains_key(id), |id: u64| self.entries@[id]@)
    }
}

impl BindGroupCache {
    #[verifier::type_invariant]
    spec fn inv(self) -> bool {
        well_formed(self@)
    }

    /// A cache without entries.
    pub fn new() -> (cache: Self)
        ensures
            cache@ == Map::<u64, EntrySpec>::empty(),
            well_formed(cache@),
    {
        let cache = BindGroupCache { entries: HashMap::new() };
        assert(cache@ =~= Map::<u64, EntrySpec>::empty());
        cache
    }

    /// The handle of the bind group that holds the current values of the
    /// instance.
    ///
    /// Where the cache holds an entry for the instance's material at the
    /// instance's generation, its handle is returned and nothing is built.
    /// Else the values are serialized into a new buffer, which replaces what
    /// the cache held for the material.
    pub fn get_or_build(&mut self, instance: &MaterialInstance) -> (handle: BindGroupHandle)
        ensures
            handle == handle_of(instance@),
            final(self)@ == entries_after(old(self)@, instance@),
            well_formed(final(self)@),
    {
        proof {
            use_type_invariant(&*self);
            lemma_bound_after(self@, instance@);
        }
        let id = instance.definition().id();
        let generation = instance.generation();
        if let Some(entry) = self.entries.get(&id) {
            if entry.generation == generation {
                return entry.handle;
            }
        }
        let handle = BindGroupHandle { definition: id, generation };
        let buffer = encode(instance.definition().layout(), instance.values());
        let mut entries = HashMap::new();
        std::mem::swap(&mut entries, &mut self.entries);
        entries.insert(id, BindGroupEntry { generation, buffer, handle });
        let ghost built = Map::new(
            |k: u64| entries@.contains_key(k),
            |k: u64| entries@[k]@,
        );
        assert(built =~= entries_after(old(self)@, instance@));
        self.entries = entries;
        assert(self@ =~= built);
        handle
    }

    /// What the cache keeps for the material `definition`.
    pub fn entry(&self, definition: u64) -> (found: Option<&BindGroupEntry>)
        ensures
            match found {
                Some(entry) => self@.contains_key(definition) && entry@ == self@[definition],
                None => !self@.contains_key(definition),
            },
    {
        self.entries.get(&definition)
    }

    /// Where the instance stands with respect to the cache.
    pub fn state_of(&self, instance: &MaterialInstance) -> (state: MaterialState)
        ensures
            state == state_of(self@, instance@),
    {
        match self.entries.get(&instance.definition().id()) {
            None => MaterialState::Instantiated,
            Some(entry) => {
                if entry.generation == instance.generation() {
                    MaterialState::Bound
                } else {
                    MaterialState::Stale
                }
            },
        }
    }

    /// Drops what the cache keeps for the material `definition`, once no
    /// instance of it is in use any more. Tells whether there was anything.
    pub fn evict(&mut self, definition: u64) -> (evicted: bool)
        ensures
            evicted == old(self)@.contains_key(definition),
            final(self)@ == old(self)@.remove(definition),
            well_formed(final(self)@),
    {
        proof {
            use_type_invariant(&*self);
        }
        let mut entries = HashMap::new();
        std::mem::swap(&mut entries, &mut self.entries);
        let removed = entries.remove(&definition);
        let ghost left = Map::new(|k: u64| entries@.contains_key(k), |k: u64| entries@[k]@);
        assert(left =~= old(self)@.remove(definition));
        assert forall|id: u64| #[trigger] left.contains_key(id) implies left[id].handle == (
        BindGroupHandle { definition: id, generation: left[id].generation }) by {
            assert(old(self)@.contains_key(id));
        }
        self.entries = entries;
        assert(self@ =~= left);
        removed.is_some()
    }

    /// The number of materials that the cache keeps a bind group for.
    pub fn len(&self) -> (n: usize)
        ensures
            n == self@.dom().len(),
    {
        assert(self@.dom() =~= self.entries@.dom());
        self.entries.len()
    }
}

} // verus!
