//! Symbolic label resolution: a name-to-address map loaded once and then
//! queried read-only while checkpoints are resolved.

use vstd::prelude::*;

verus! {

/// Error returned when the loaded symbol map is malformed: two entries carry
/// the same name, so a lookup would be ambiguous.
#[derive(Debug)]
pub struct LabelLoadError {
    /// Name that appears more than once in the source.
    pub name: String,
}

/// Error returned when a requested label name is absent from the loaded map.
#[derive(Debug)]
pub struct MissingLabelError {
    /// The name that could not be resolved.
    pub name: String,
}

/// Mathematical contents of a list of label entries: the name-to-address map
/// built by inserting each entry in order.
pub open spec fn map_of_entries(entries: Seq<(String, u16)>) -> Map<Seq<char>, u16>
    decreases entries.len(),
{
    if entries.len() == 0 {
        Map::empty()
    } else {
        map_of_entries(entries.drop_last()).insert(entries.last().0@, entries.last().1)
    }
}

/// The entries bind pairwise distinct names.
pub open spec fn distinct_names(entries: Seq<(String, u16)>) -> bool {
    forall|i: int, j: int| 0 <= i < j < entries.len() ==> entries[i].0@ != entries[j].0@
}

/// What resolving a name against a loaded map yields: its address when the
/// name is bound, nothing otherwise.  A pure function of map and name.
pub open spec fn resolution_of(m: Map<Seq<char>, u16>, name: Seq<char>) -> Option<u16> {
    if m.contains_key(name) {
        Some(m[name])
    } else {
        None
    }
}

/// Resolution is idempotent and referentially transparent: any two lookups
/// of the same name against the same loaded map yield the identical result,
/// and a lookup never changes the map.
pub proof fn lemma_get_idempotent(
    m: Map<Seq<char>, u16>,
    name: Seq<char>,
    first: Option<u16>,
    second: Option<u16>,
)
    requires
        first == resolution_of(m, name),
        second == resolution_of(m, name),
    ensures
        first == second,
{
}

/// A loaded, immutable symbol map from label names to raw addresses.
#[derive(Debug)]
pub struct LabelResolver {
    entries: Vec<(String, u16)>,
}

impl View for LabelResolver {
    type V = Map<Seq<char>, u16>;

    closed spec fn view(&self) -> Map<Seq<char>, u16> {
        map_of_entries(self.entries@)
    }
}

/// With distinct names, membership in the built map is membership among the
/// entries, and the value bound to a name is the address of its entry.
pub proof fn lemma_map_of_entries(entries: Seq<(String, u16)>)
    requires
        distinct_names(entries),
    ensures
        forall|n: Seq<char>|
            map_of_entries(entries).contains_key(n) <==> (exists|i: int|
                0 <= i < entries.len() && entries[i].0@ == n),
        forall|i: int|
            0 <= i < entries.len() ==> map_of_entries(entries).contains_key(entries[i].0@)
                && map_of_entries(entries)[entries[i].0@] == entries[i].1,
    decreases entries.len(),
{
    if entries.len() > 0 {
        lemma_map_of_entries(entries.drop_last());
        assert forall|n: Seq<char>| map_of_entries(entries).contains_key(n) implies (exists|i: int|
            0 <= i < entries.len() && entries[i].0@ == n) by {
            if n == entries.last().0@ {
                assert(entries[entries.len() - 1].0@ == n);
            } else {
                assert(map_of_entries(entries.drop_last()).contains_key(n));
                let i = choose|i: int|
                    0 <= i < entries.drop_last().len() && entries.drop_last()[i].0@ == n;
                assert(entries.drop_last()[i] == entries[i]);
                assert(entries[i].0@ == n);
            }
        }
        assert forall|n: Seq<char>| (exists|i: int| 0 <= i < entries.len() && entries[i].0@ == n)
            implies map_of_entries(entries).contains_key(n) by {
            let i = choose|i: int| 0 <= i < entries.len() && entries[i].0@ == n;
            if i < entries.len() - 1 {
                assert(entries.drop_last()[i] == entries[i]);
                assert(map_of_entries(entries.drop_last()).contains_key(n));
            }
        }
        assert forall|i: int| 0 <= i < entries.len() implies map_of_entries(
            entries,
        ).contains_key(entries[i].0@) && map_of_entries(entries)[entries[i].0@] == entries[i].1 by {
            if i < entries.len() - 1 {
                assert(entries.drop_last()[i] == entries[i]);
                assert(entries[i].0@ != entries.last().0@);
            }
        }
    }
}

impl LabelResolver {
    /// The loaded entries bind pairwise distinct names, so every lookup is
    /// unambiguous.  Established by `load` and never disturbed afterwards.
    pub closed spec fn wf(&self) -> bool {
        distinct_names(self.entries@)
    }

    /// Loads a symbol map from a list of `(name, address)` entries, read once
    /// from the external symbol source.  A source that binds one name twice
    /// is malformed and rejected, so that every later lookup is unambiguous.
    pub fn load(entries: Vec<(String, u16)>) -> (result: Result<LabelResolver, LabelLoadError>)
        ensures
            result is Ok <==> distinct_names(entries@),
            result matches Ok(r) ==> r.wf() && r@ == map_of_entries(entries@),
            result matches Err(e) ==> exists|i: int, j: int|
                0 <= i < j < entries@.len() && entries@[i].0@ == entries@[j].0@ && entries@[j].0@
                    == e.name@,
    {
        let n = entries.len();
        for j in 0..n
            invariant
                n == entries@.len(),
                forall|a: int, b: int| 0 <= a < b < j ==> entries@[a].0@ != entries@[b].0@,
        {
            for i in 0..j
                invariant
                    j < n == entries@.len(),
                    forall|a: int, b: int| 0 <= a < b < j ==> entries@[a].0@ != entries@[b].0@,
                    forall|a: int| 0 <= a < i ==> entries@[a].0@ != entries@[j as int].0@,
            {
                if entries[i].0 == entries[j].0 {
                    return Err(LabelLoadError { name: entries[j].0.clone() });
                }
            }
        }
        Ok(LabelResolver { entries })
    }

    /// Resolves a label name to its raw address.  The resolver is read-only:
    /// the result is a function of the loaded map and the name alone, so
    /// repeated calls with the same name return the identical address.
    pub fn get(&self, name: &str) -> (result: Result<u16, MissingLabelError>)
        requires
            self.wf(),
        ensures
            result is Ok <==> self@.contains_key(name@),
            result matches Ok(a) ==> resolution_of(self@, name@) == Some(a),
            result matches Err(e) ==> resolution_of(self@, name@) is None && e.name@ == name@,
    {
        proof {
            lemma_map_of_entries(self.entries@);
        }
        let key: String = name.to_owned();
        let n = self.entries.len();
        for i in 0..n
            invariant
                n == self.entries@.len(),
                key@ == name@,
                self.wf(),
                forall|a: int| 0 <= a < i ==> self.entries@[a].0@ != name@,
                forall|m: Seq<char>|
                    self@.contains_key(m) <==> (exists|a: int|
                        0 <= a < self.entries@.len() && self.entries@[a].0@ == m),
                forall|a: int|
                    0 <= a < self.entries@.len() ==> self@.contains_key(self.entries@[a].0@)
                        && self@[self.entries@[a].0@] == self.entries@[a].1,
        {
            if self.entries[i].0 == key {
                return Ok(self.entries[i].1);
            }
        }
        Err(MissingLabelError { name: key })
    }
}

} // verus!
