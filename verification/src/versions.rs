//! Package name to version lookup tables built from package manager output.

use vstd::prelude::*;

verus! {

/// A table from package names to versions. Later entries for a name
/// override earlier ones, as `HashMap::insert` does.
#[derive(Debug, Clone)]
pub struct VersionMap {
    entries: Vec<(String, String)>,
}

/// The map that a sequence of entries denotes: each entry overrides the
/// earlier ones for its name.
pub open spec fn entries_map(es: Seq<(String, String)>) -> Map<Seq<char>, Seq<char>>
    decreases es.len(),
{
    if es.len() == 0 {
        Map::empty()
    } else {
        entries_map(es.drop_last()).insert(es.last().0@, es.last().1@)
    }
}

impl View for VersionMap {
    type V = Map<Seq<char>, Seq<char>>;

    closed spec fn view(&self) -> Map<Seq<char>, Seq<char>> {
        entries_map(self.entries@)
    }
}

/// The version a table gives a name, empty when it gives none.
pub open spec fn version_in(m: Map<Seq<char>, Seq<char>>, name: Seq<char>) -> Seq<char> {
    if m.dom().contains(name) {
        m[name]
    } else {
        Seq::empty()
    }
}

impl VersionMap {
    pub fn new() -> (m: VersionMap)
        ensures
            m@ == Map::<Seq<char>, Seq<char>>::empty(),
    {
        VersionMap { entries: Vec::new() }
    }

    /// Sets the version of `name`, replacing any earlier one.
    pub fn insert(&mut self, name: String, version: String)
        ensures
            final(self)@ == old(self)@.insert(name@, version@),
    {
        let ghost old_entries = self.entries@;
        self.entries.push((name, version));
        assert(self.entries@.drop_last() =~= old_entries);
    }

    /// The version of `name`, if the table has one.
    pub fn get(&self, name: &String) -> (r: Option<&String>)
        ensures
            match r {
                Some(v) => self@.dom().contains(name@) && self@[name@] == v@,
                None => !self@.dom().contains(name@),
            },
    {
        let mut i = self.entries.len();
        assert(self.entries@.take(i as int) =~= self.entries@);
        while i > 0
            invariant
                i <= self.entries@.len(),
                entries_map(self.entries@).dom().contains(name@) == entries_map(
                    self.entries@.take(i as int),
                ).dom().contains(name@),
                entries_map(self.entries@).dom().contains(name@) ==> entries_map(
                    self.entries@,
                )[name@] == entries_map(self.entries@.take(i as int))[name@],
            decreases i,
        {
            let ghost pre = self.entries@.take(i - 1);
            assert(self.entries@.take(i as int).drop_last() =~= pre);
            if self.entries[i - 1].0 == *name {
                return Some(&self.entries[i - 1].1);
            }
            i = i - 1;
        }
        assert(self.entries@.take(0) =~= Seq::<(String, String)>::empty());
        None
    }

    /// The version of `name`, or an empty string.
    pub fn version_of(&self, name: &String) -> (r: String)
        ensures
            r@ == version_in(self@, name@),
    {
        match self.get(name) {
            Some(v) => v.clone(),
            None => String::new(),
        }
    }
}

/// A lookup after an insertion gives the inserted version for that name and
/// the earlier answer for any other name.
pub proof fn lemma_version_insert_get(
    m: Map<Seq<char>, Seq<char>>,
    name: Seq<char>,
    version: Seq<char>,
    other: Seq<char>,
)
    ensures
        version_in(m.insert(name, version), name) == version,
        other != name ==> version_in(m.insert(name, version), other) == version_in(m, other),
{
}

} // verus!
