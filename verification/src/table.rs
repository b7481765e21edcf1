//! A table of things that texts name, each name once.

use crate::text::same_text;
use vstd::prelude::*;

verus! {

/// The thing that the last entry with the name `id` holds.
pub open spec fn lookup<H>(entries: Seq<(String, H)>, id: Seq<char>) -> Option<H>
    decreases entries.len(),
{
    if entries.len() == 0 {
        None
    } else if entries.last().0@ == id {
        Some(entries.last().1)
    } else {
        lookup(entries.drop_last(), id)
    }
}

/// Whether no two entries share a name.
pub open spec fn names_differ<H>(entries: Seq<(String, H)>) -> bool {
    forall|i: int, j: int|
        0 <= i < entries.len() && 0 <= j < entries.len() && i != j ==> (#[trigger] entries[i]).0@
            != (#[trigger] entries[j]).0@
}

/// The map from names to things that entries make.
pub open spec fn map_of<H>(entries: Seq<(String, H)>) -> Map<Seq<char>, H> {
    Map::new(|id: Seq<char>| lookup(entries, id) is Some, |id: Seq<char>| lookup(entries, id)->0)
}

/// A table of things that texts name, each name once.
pub struct Table<H> {
    entries: Vec<(String, H)>,
}

/// Whether a list of names names each thing of a table once, in the order in which the
/// things are listed.
pub open spec fn enumerates<H>(
    ids: Seq<Seq<char>>,
    table: Map<Seq<char>, H>,
    things: Seq<H>,
) -> bool {
    &&& ids.no_duplicates()
    &&& ids.len() == things.len()
    &&& forall|id: Seq<char>| #[trigger] ids.contains(id) <==> table.dom().contains(id)
    &&& forall|i: int| 0 <= i < ids.len() ==> things[i] == table[#[trigger] ids[i]]
}

impl<H> View for Table<H> {
    type V = Map<Seq<char>, H>;

    closed spec fn view(&self) -> Map<Seq<char>, H> {
        map_of(self.entries@)
    }
}

proof fn lookup_at<H>(entries: Seq<(String, H)>, i: int)
    requires
        names_differ(entries),
        0 <= i < entries.len(),
    ensures
        lookup(entries, entries[i].0@) == Some(entries[i].1),
    decreases entries.len(),
{
    if i < entries.len() - 1 {
        assert(entries.last().0@ != entries[i].0@);
        assert(entries.drop_last()[i] == entries[i]);
        lookup_at(entries.drop_last(), i);
    }
}

proof fn lookup_none<H>(entries: Seq<(String, H)>, id: Seq<char>)
    requires
        forall|i: int| 0 <= i < entries.len() ==> (#[trigger] entries[i]).0@ != id,
    ensures
        lookup(entries, id) is None,
    decreases entries.len(),
{
    if entries.len() > 0 {
        assert forall|i: int| 0 <= i < entries.drop_last().len() implies (
        #[trigger] entries.drop_last()[i]).0@ != id by {
            assert(entries.drop_last()[i] == entries[i]);
        }
        lookup_none(entries.drop_last(), id);
    }
}

proof fn lookup_after_remove<H>(entries: Seq<(String, H)>, at: int, id: Seq<char>)
    requires
        names_differ(entries),
        0 <= at < entries.len(),
    ensures
        names_differ(entries.remove(at)),
        lookup(entries.remove(at), id) == if id == entries[at].0@ {
            None
        } else {
            lookup(entries, id)
        },
{
    let rest = entries.remove(at);
    assert forall|i: int, j: int|
        0 <= i < rest.len() && 0 <= j < rest.len() && i != j implies (#[trigger] rest[i]).0@ != (
    #[trigger] rest[j]).0@ by {
        let a = if i < at {
            i
        } else {
            i + 1
        };
        let b = if j < at {
            j
        } else {
            j + 1
        };
        assert(rest[i] == entries[a] && rest[j] == entries[b]);
    }
    if exists|i: int| 0 <= i < rest.len() && (#[trigger] rest[i]).0@ == id {
        let i = choose|i: int| 0 <= i < rest.len() && (#[trigger] rest[i]).0@ == id;
        let a = if i < at {
            i
        } else {
            i + 1
        };
        assert(rest[i] == entries[a]);
        lookup_at(rest, i);
        lookup_at(entries, a);
        assert(entries[a].0@ != entries[at].0@);
    } else {
        lookup_none(rest, id);
        if id != entries[at].0@ {
            assert forall|i: int| 0 <= i < entries.len() implies (#[trigger] entries[i]).0@
                != id by {
                if i < at {
                    assert(rest[i] == entries[i]);
                } else if i > at {
                    assert(rest[i - 1] == entries[i]);
                }
            }
            lookup_none(entries, id);
        }
    }
}

impl<H> Table<H> {
    /// Whether each name occurs once.
    #[verifier::type_invariant]
    spec fn names_are_distinct(self) -> bool {
        names_differ(self.entries@)
    }

    /// A table without entries.
    pub fn new() -> (table: Table<H>)
        ensures
            table@ == Map::<Seq<char>, H>::empty(),
    {
        let table = Table { entries: Vec::new() };
        assert(table@ =~= Map::<Seq<char>, H>::empty());
        table
    }

    fn position(&self, id: &str) -> (place: Option<usize>)
        ensures
            match place {
                Some(at) => at < self.entries@.len() && self.entries@[at as int].0@ == id@,
                None => forall|i: int|
                    0 <= i < self.entries@.len() ==> (#[trigger] self.entries@[i]).0@ != id@,
            },
    {
        let mut i: usize = 0;
        while i < self.entries.len()
            invariant
                i <= self.entries@.len(),
                forall|k: int| 0 <= k < i ==> (#[trigger] self.entries@[k]).0@ != id@,
            decreases self.entries@.len() - i,
        {
            if same_text(self.entries[i].0.as_str(), id) {
                return Some(i);
            }
            i += 1;
        }
        None
    }

    /// Whether a thing has the name `id`.
    pub fn contains(&self, id: &str) -> (found: bool)
        ensures
            found == self@.dom().contains(id@),
    {
        self.get(id).is_some()
    }

    /// The thing with the name `id`.
    pub fn get(&self, id: &str) -> (found: Option<&H>)
        ensures
            match found {
                Some(thing) => self@.dom().contains(id@) && self@[id@] == *thing,
                None => !self@.dom().contains(id@),
            },
    {
        proof {
            use_type_invariant(self);
        }
        match self.position(id) {
            Some(at) => {
                proof {
                    lookup_at(self.entries@, at as int);
                }
                Some(&self.entries[at].1)
            },
            None => {
                proof {
                    lookup_none(self.entries@, id@);
                }
                None
            },
        }
    }

    /// Takes the thing with the name `id` out.
    pub fn remove(&mut self, id: &str) -> (removed: Option<H>)
        ensures
            final(self)@ == old(self)@.remove(id@),
            match removed {
                Some(thing) => old(self)@.dom().contains(id@) && old(self)@[id@] == thing,
                None => !old(self)@.dom().contains(id@),
            },
    {
        proof {
            use_type_invariant(&*self);
        }
        let ghost before = self.entries@;
        match self.position(id) {
            Some(at) => {
                let mut entries: Vec<(String, H)> = Vec::new();
                std::mem::swap(&mut entries, &mut self.entries);
                let (_, thing) = entries.remove(at);
                proof {
                    lookup_at(before, at as int);
                    assert forall|x: Seq<char>| true implies #[trigger] lookup(
                        before.remove(at as int),
                        x,
                    ) == (if x == id@ {
                        None
                    } else {
                        lookup(before, x)
                    }) by {
                        lookup_after_remove(before, at as int, x);
                    }
                    lookup_after_remove(before, at as int, id@);
                    assert(map_of(entries@) =~= map_of(before).remove(id@));
                }
                self.entries = entries;
                Some(thing)
            },
            None => {
                proof {
                    lookup_none(before, id@);
                    assert(map_of(before).remove(id@) =~= map_of(before));
                }
                None
            },
        }
    }

    /// Puts a thing under the name `id`, and gives back the one that had the name.
    pub fn insert(&mut self, id: String, thing: H) -> (replaced: Option<H>)
        ensures
            final(self)@ == old(self)@.insert(id@, thing),
            match replaced {
                Some(earlier) => old(self)@.dom().contains(id@) && old(self)@[id@] == earlier,
                None => !old(self)@.dom().contains(id@),
            },
    {
        let replaced = self.remove(id.as_str());
        proof {
            use_type_invariant(&*self);
        }
        let ghost before = self.entries@;
        let ghost name = id@;
        let mut entries: Vec<(String, H)> = Vec::new();
        std::mem::swap(&mut entries, &mut self.entries);
        entries.push((id, thing));
        proof {
            assert(entries@.drop_last() =~= before);
            assert(!map_of(before).dom().contains(name));
            assert forall|i: int| 0 <= i < before.len() implies (#[trigger] before[i]).0@
                != name by {
                lookup_at(before, i);
            }
            assert(names_differ(entries@));
            assert(map_of(entries@) =~= map_of(before).insert(name, thing));
            assert(map_of(entries@) =~= old(self)@.insert(name, thing));
        }
        self.entries = entries;
        replaced
    }

    /// Takes every thing out.
    pub fn drain(&mut self) -> (things: Vec<H>)
        ensures
            final(self)@ == Map::<Seq<char>, H>::empty(),
            exists|ids: Seq<Seq<char>>| enumerates(ids, old(self)@, things@),
    {
        proof {
            use_type_invariant(&*self);
        }
        let mut entries: Vec<(String, H)> = Vec::new();
        std::mem::swap(&mut entries, &mut self.entries);
        assert(self@ =~= Map::<Seq<char>, H>::empty());
        let ghost before = entries@;
        let mut things: Vec<H> = Vec::new();
        let mut rest: Vec<(String, H)> = entries;
        while rest.len() > 0
            invariant
                rest@ == before.skip(things@.len() as int),
                things@.len() <= before.len(),
                forall|i: int| 0 <= i < things@.len() ==> #[trigger] things@[i] == before[i].1,
            decreases rest@.len(),
        {
            let ghost n = things@.len() as int;
            let (_, thing) = rest.remove(0);
            things.push(thing);
            assert(rest@ =~= before.skip(n + 1));
        }
        proof {
            let ids = Seq::new(before.len(), |i: int| before[i].0@);
            assert forall|id: Seq<char>| #[trigger] ids.contains(id) <==> old(
                self,
            )@.dom().contains(id) by {
                if ids.contains(id) {
                    let i = choose|i: int| 0 <= i < ids.len() && ids[i] == id;
                    lookup_at(before, i);
                }
                if old(self)@.dom().contains(id) {
                    lookup_has_index(before, id);
                    let i = choose|i: int|
                        0 <= i < before.len() && (#[trigger] before[i]).0@ == id;
                    assert(ids[i] == id);
                }
            }
            assert forall|i: int| 0 <= i < ids.len() implies things@[i] == old(
                self,
            )@[#[trigger] ids[i]] by {
                lookup_at(before, i);
            }
            assert(enumerates(ids, old(self)@, things@));
        }
        things
    }
}

proof fn lookup_has_index<H>(entries: Seq<(String, H)>, id: Seq<char>)
    requires
        lookup(entries, id) is Some,
    ensures
        exists|i: int|
            0 <= i < entries.len() && (#[trigger] entries[i]).0@ == id && entries[i].1 == lookup(
                entries,
                id,
            )->0,
    decreases entries.len(),
{
    if entries.last().0@ == id {
        assert(entries[entries.len() - 1].0@ == id);
    } else {
        lookup_has_index(entries.drop_last(), id);
        let i = choose|i: int|
            0 <= i < entries.drop_last().len() && (#[trigger] entries.drop_last()[i]).0@ == id
                && entries.drop_last()[i].1 == lookup(entries.drop_last(), id)->0;
        assert(entries[i] == entries.drop_last()[i]);
    }
}

/// What is listed of a table is every thing in it, each once, under its own name.
pub proof fn tables_are_listed_whole<H>(
    ids: Seq<Seq<char>>,
    table: Map<Seq<char>, H>,
    things: Seq<H>,
    id: Seq<char>,
)
    requires
        enumerates(ids, table, things),
    ensures
        table.dom().contains(id) ==> exists|i: int|
            0 <= i < things.len() && things[i] == table[id] && #[trigger] ids[i] == id,
        forall|i: int, j: int|
            0 <= i < j < things.len() ==> #[trigger] ids[i] != #[trigger] ids[j],
        forall|i: int|
            0 <= i < things.len() ==> table.dom().contains(#[trigger] ids[i]) && things[i]
                == table[ids[i]],
        things.len() == ids.len(),
{
    if table.dom().contains(id) {
        assert(ids.contains(id));
        let i = choose|i: int| 0 <= i < ids.len() && ids[i] == id;
        assert(things[i] == table[ids[i]]);
    }
    assert forall|i: int| 0 <= i < things.len() implies table.dom().contains(#[trigger] ids[i])
        && things[i] == table[ids[i]] by {
        assert(ids.contains(ids[i]));
    }
}

} // verus!
