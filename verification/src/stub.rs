//! A configurable test double for the data-access capability: its mapping
//! from identifiers to optional display names is a finite table that can
//! be replaced after construction, and each replacement fully overrides
//! the one before.

use vstd::prelude::*;
use crate::database::Database;

verus! {

/// The optional display name that a mapping table gives `id`: the first
/// entry with that identifier decides, and an identifier with no entry is
/// absent.
pub open spec fn table_lookup(entries: Seq<(u32, Seq<char>)>, id: u32) -> Option<Seq<char>>
    decreases entries.len(),
{
    if entries.len() == 0 {
        None
    } else if entries[0].0 == id {
        Some(entries[0].1)
    } else {
        table_lookup(entries.drop_first(), id)
    }
}

proof fn lemma_table_lookup_skip(entries: Seq<(u32, Seq<char>)>, id: u32, i: int)
    requires
        0 <= i <= entries.len(),
        forall|j: int| 0 <= j < i ==> entries[j].0 != id,
    ensures
        table_lookup(entries, id) == table_lookup(entries.skip(i), id),
    decreases i,
{
    if i > 0 {
        let rest = entries.drop_first();
        assert(entries[0].0 != id);
        assert forall|j: int| 0 <= j < i - 1 implies rest[j].0 != id by {
            assert(rest[j] == entries[j + 1]);
        }
        lemma_table_lookup_skip(rest, id, i - 1);
        assert(rest.skip(i - 1) =~= entries.skip(i));
    } else {
        assert(entries.skip(0) =~= entries);
    }
}

/// A test double for the capability: it answers lookups from whatever
/// mapping table is currently installed.
pub struct DatabaseStub {
    mapping: Vec<(u32, String)>,
}

impl DatabaseStub {
    /// The installed mapping, as a sequence of (identifier, name) entries.
    pub closed spec fn mapping_view(&self) -> Seq<(u32, Seq<char>)> {
        self.mapping.deep_view()
    }

    /// A fresh double answers absent for every identifier until configured.
    pub fn new() -> (r: DatabaseStub)
        ensures
            r.mapping_view() == Seq::<(u32, Seq<char>)>::empty(),
            forall|id: u32| r.spec_get_user(id) is None,
    {
        let r = DatabaseStub { mapping: Vec::new() };
        proof {
            assert(r.mapping_view() =~= Seq::<(u32, Seq<char>)>::empty());
        }
        r
    }

    /// Installs `mapping` in place of whatever was installed before. The
    /// replacement is total: every later lookup is answered from `mapping`
    /// alone, whatever the double answered earlier.
    pub fn stub_get_user(&mut self, mapping: Vec<(u32, String)>)
        ensures
            final(self).mapping_view() == mapping.deep_view(),
            forall|id: u32|
                final(self).spec_get_user(id) == table_lookup(mapping.deep_view(), id),
    {
        self.mapping = mapping;
    }
}

impl Database for DatabaseStub {
    open spec fn spec_get_user(&self, id: u32) -> Option<Seq<char>> {
        table_lookup(self.mapping_view(), id)
    }

    fn get_user(&self, id: u32) -> (r: Option<String>) {
        let ghost entries = self.mapping_view();
        let mut i: usize = 0;
        while i < self.mapping.len()
            invariant
                0 <= i <= self.mapping.len(),
                entries == self.mapping_view(),
                entries.len() == self.mapping.len(),
                forall|j: int| 0 <= j < i ==> entries[j].0 != id,
            decreases self.mapping.len() - i,
        {
            if self.mapping[i].0 == id {
                let name = self.mapping[i].1.clone();
                proof {
                    lemma_table_lookup_skip(entries, id, i as int);
                    assert(entries.skip(i as int)[0] == entries[i as int]);
                }
                return Some(name);
            }
            i = i + 1;
        }
        proof {
            lemma_table_lookup_skip(entries, id, entries.len() as int);
            assert(entries.skip(entries.len() as int) =~= Seq::<(u32, Seq<char>)>::empty());
        }
        None
    }
}

/// The double's lookup is determined by the installed mapping alone: two
/// doubles with the same mapping answer every identifier alike. In
/// particular, after a second configuration no identifier can still
/// observe a result of the first, since the state then equals that of a
/// double configured with the second mapping only.
pub proof fn lemma_lookup_determined_by_mapping(a: DatabaseStub, b: DatabaseStub)
    requires
        a.mapping_view() == b.mapping_view(),
    ensures
        forall|id: u32| a.spec_get_user(id) == b.spec_get_user(id),
{
}

} // verus!
