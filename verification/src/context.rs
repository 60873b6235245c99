//! The ambient context construction resolves against: the spawn context that
//! maps entity addresses to live identities, and the registry of
//! caller-supplied conversion capabilities.

use vstd::prelude::*;

use crate::values::EntityAccess;
use crate::values::PlainValue;
use crate::values::plain_eq;

verus! {

/// One binding of the spawn context: a live entity `id` reachable at `access`.
#[derive(Debug, PartialEq, Eq)]
pub struct SpawnEntry {
    pub access: EntityAccess,
    pub id: u64,
}

/// The spawn context: the registry of live entities, queried by address.
#[derive(Debug, PartialEq, Eq)]
pub struct SpawnContext {
    pub entries: Vec<SpawnEntry>,
}

/// The identity bound to the first entry whose access path equals `path`, if
/// any entry is.
pub open spec fn spec_find_entity(entries: Seq<SpawnEntry>, path: Seq<char>) -> Option<u64>
    decreases entries.len(),
{
    if entries.len() == 0 {
        None
    } else if entries[0].access.path@ == path {
        Some(entries[0].id)
    } else {
        spec_find_entity(entries.drop_first(), path)
    }
}

/// The lookup succeeds exactly when some entry carries the path.
pub proof fn lemma_find_entity_present(entries: Seq<SpawnEntry>, path: Seq<char>)
    ensures
        (spec_find_entity(entries, path) is Some) <==> exists|i: int|
            0 <= i < entries.len() && (#[trigger] entries[i]).access.path@ == path,
    decreases entries.len(),
{
    if entries.len() > 0 && entries[0].access.path@ != path {
        lemma_find_entity_present(entries.drop_first(), path);
        assert forall|i: int|
            0 <= i < entries.len() && (#[trigger] entries[i]).access.path@
                == path implies exists|j: int|
            0 <= j < entries.drop_first().len() && (#[trigger] entries.drop_first()[j]).access.path@
                == path by {
            assert(entries.drop_first()[i - 1] == entries[i]);
        }
    }
}

impl SpawnContext {
    /// A spawn context with no entities.
    pub fn new() -> (r: Self)
        ensures
            r.entries@ == Seq::<SpawnEntry>::empty(),
    {
        SpawnContext { entries: Vec::new() }
    }

    /// Registers a live entity `id` under `access`.
    pub fn insert(&mut self, access: EntityAccess, id: u64)
        ensures
            final(self).entries@ == old(self).entries@.push(SpawnEntry { access, id }),
    {
        self.entries.push(SpawnEntry { access, id });
    }

    /// Some entity is reachable at `path`.
    pub open spec fn contains_path(&self, path: Seq<char>) -> bool {
        exists|i: int|
            0 <= i < self.entries@.len() && (#[trigger] self.entries@[i]).access.path@ == path
    }

    /// Looks the address up and returns the identity of the entity bound to
    /// it, if one is.
    pub fn find_entity(&self, access: &EntityAccess) -> (r: Option<u64>)
        ensures
            r == spec_find_entity(self.entries@, access.path@),
    {
        let n = self.entries.len();
        proof {
            assert(self.entries@.skip(0) =~= self.entries@);
        }
        for i in 0..n
            invariant
                n == self.entries@.len(),
                spec_find_entity(self.entries@.skip(i as int), access.path@) == spec_find_entity(
                    self.entries@,
                    access.path@,
                ),
        {
            proof {
                assert(self.entries@.skip(i as int)[0] == self.entries@[i as int]);
                assert(self.entries@.skip(i as int).drop_first() =~= self.entries@.skip(
                    i as int + 1,
                ));
            }
            if self.entries[i].access.path == access.path {
                return Some(self.entries[i].id);
            }
        }
        proof {
            assert(self.entries@.skip(n as int) =~= Seq::<SpawnEntry>::empty());
        }
        None
    }
}

/// One rule of a conversion capability: inputs equal to `input` convert to
/// `output`.
#[derive(Debug, PartialEq, Eq)]
pub struct ConversionRule {
    pub input: PlainValue,
    pub output: PlainValue,
}

/// One caller-supplied conversion capability, registered under an identifier
/// and given by its finite rule table.
#[derive(Debug, PartialEq, Eq)]
pub struct Conversion {
    pub id: u64,
    pub rules: Vec<ConversionRule>,
}

/// The first capability registered under `id`, if any is.
pub open spec fn spec_find_conversion(conversions: Seq<Conversion>, id: u64) -> Option<Conversion>
    decreases conversions.len(),
{
    if conversions.len() == 0 {
        None
    } else if conversions[0].id == id {
        Some(conversions[0])
    } else {
        spec_find_conversion(conversions.drop_first(), id)
    }
}

/// The output of the first rule whose input equals `value`, if any matches.
pub open spec fn spec_apply_rules(rules: Seq<ConversionRule>, value: PlainValue) -> Option<
    PlainValue,
>
    decreases rules.len(),
{
    if rules.len() == 0 {
        None
    } else if plain_eq(rules[0].input, value) {
        Some(rules[0].output)
    } else {
        spec_apply_rules(rules.drop_first(), value)
    }
}

/// The registry of all conversion capabilities the caller supplied.
#[derive(Debug, PartialEq, Eq)]
pub struct ConversionRegistry {
    pub conversions: Vec<Conversion>,
}

impl ConversionRegistry {
    /// A registry with no capabilities.
    pub fn new() -> (r: Self)
        ensures
            r.conversions@ == Seq::<Conversion>::empty(),
    {
        ConversionRegistry { conversions: Vec::new() }
    }

    /// What converting `value` under the capability `id` yields: `None` when
    /// the capability is missing or fails on the value.
    pub open spec fn spec_convert(&self, id: u64, value: PlainValue) -> Option<PlainValue> {
        match spec_find_conversion(self.conversions@, id) {
            Some(c) => spec_apply_rules(c.rules@, value),
            None => None,
        }
    }

    /// A capability is registered under `id`.
    pub fn has_conversion(&self, id: u64) -> (r: bool)
        ensures
            r == (spec_find_conversion(self.conversions@, id) is Some),
    {
        let n = self.conversions.len();
        proof {
            assert(self.conversions@.skip(0) =~= self.conversions@);
        }
        for i in 0..n
            invariant
                n == self.conversions@.len(),
                spec_find_conversion(self.conversions@.skip(i as int), id) == spec_find_conversion(
                    self.conversions@,
                    id,
                ),
        {
            proof {
                assert(self.conversions@.skip(i as int)[0] == self.conversions@[i as int]);
                assert(self.conversions@.skip(i as int).drop_first() =~= self.conversions@.skip(
                    i as int + 1,
                ));
            }
            if self.conversions[i].id == id {
                return true;
            }
        }
        proof {
            assert(self.conversions@.skip(n as int) =~= Seq::<Conversion>::empty());
        }
        false
    }

    /// Applies the capability registered under `id` to `value`.
    pub fn convert(&self, id: u64, value: &PlainValue) -> (r: Option<PlainValue>)
        ensures
            r == self.spec_convert(id, *value),
    {
        let n = self.conversions.len();
        proof {
            assert(self.conversions@.skip(0) =~= self.conversions@);
        }
        for i in 0..n
            invariant
                n == self.conversions@.len(),
                spec_find_conversion(self.conversions@.skip(i as int), id) == spec_find_conversion(
                    self.conversions@,
                    id,
                ),
        {
            proof {
                assert(self.conversions@.skip(i as int)[0] == self.conversions@[i as int]);
                assert(self.conversions@.skip(i as int).drop_first() =~= self.conversions@.skip(
                    i as int + 1,
                ));
            }
            if self.conversions[i].id == id {
                return self.apply_rules(i, value);
            }
        }
        proof {
            assert(self.conversions@.skip(n as int) =~= Seq::<Conversion>::empty());
        }
        None
    }

    /// Walks the rule table of the capability at `which` and applies the
    /// first rule matching `value`.
    fn apply_rules(&self, which: usize, value: &PlainValue) -> (r: Option<PlainValue>)
        requires
            which < self.conversions@.len(),
        ensures
            r == spec_apply_rules(self.conversions@[which as int].rules@, *value),
    {
        let rules = &self.conversions[which].rules;
        let n = rules.len();
        proof {
            assert(rules@.skip(0) =~= rules@);
        }
        for i in 0..n
            invariant
                rules == &self.conversions@[which as int].rules,
                which < self.conversions@.len(),
                n == rules@.len(),
                spec_apply_rules(rules@.skip(i as int), *value) == spec_apply_rules(rules@, *value),
        {
            proof {
                assert(rules@.skip(i as int)[0] == rules@[i as int]);
                assert(rules@.skip(i as int).drop_first() =~= rules@.skip(i as int + 1));
            }
            if rules[i].input.matches_value(value) {
                return Some(rules[i].output.duplicate());
            }
        }
        proof {
            assert(rules@.skip(n as int) =~= Seq::<ConversionRule>::empty());
        }
        None
    }
}

/// Everything construction resolves against: the spawn context and the
/// conversion registry. Both are owned by the embedding system; this core only
/// issues lookups against them.
#[derive(Debug, PartialEq, Eq)]
pub struct Context {
    pub entities: SpawnContext,
    pub conversions: ConversionRegistry,
}

impl Context {
    /// A context with no entities and no conversion capabilities.
    pub fn new() -> (r: Self)
        ensures
            r.entities.entries@ == Seq::<SpawnEntry>::empty(),
            r.conversions.conversions@ == Seq::<Conversion>::empty(),
    {
        Context { entities: SpawnContext::new(), conversions: ConversionRegistry::new() }
    }
}

} // verus!
