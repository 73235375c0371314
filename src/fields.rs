use vstd::prelude::*;

verus! {

/// The largest number of distinct field names an index can hold: field ids
/// are `u16`.
pub const MAX_FIELDS: usize = 65536;

/// `names` followed by the names of `more` that are new, each once, in the
/// order in which they first appear.
pub open spec fn grown(names: Seq<Seq<char>>, more: Seq<Seq<char>>) -> Seq<Seq<char>>
    decreases more.len(),
{
    if more.len() == 0 {
        names
    } else {
        let g = grown(names, more.drop_last());
        if g.contains(more.last()) {
            g
        } else {
            g.push(more.last())
        }
    }
}

/// Adding names keeps the names already there, in place.
pub proof fn lemma_grown_extends(names: Seq<Seq<char>>, more: Seq<Seq<char>>)
    ensures
        names.is_prefix_of(grown(names, more)),
    decreases more.len(),
{
    if more.len() > 0 {
        lemma_grown_extends(names, more.drop_last());
    }
}

/// Adding a prefix of some names gives no more names than adding them all.
pub proof fn lemma_grown_take(names: Seq<Seq<char>>, more: Seq<Seq<char>>, k: int)
    requires
        0 <= k <= more.len(),
    ensures
        grown(names, more.take(k)).len() <= grown(names, more).len(),
    decreases more.len(),
{
    if k == more.len() {
        assert(more.take(k) =~= more);
    } else {
        assert(more.drop_last().take(k) =~= more.take(k));
        lemma_grown_take(names, more.drop_last(), k);
    }
}

/// Bidirectional table between field names and compact field ids. The id of a
/// name is its position in `names`.
pub struct FieldsIdsMap {
    pub names: Vec<String>,
}

impl View for FieldsIdsMap {
    type V = Seq<Seq<char>>;

    open spec fn view(&self) -> Seq<Seq<char>> {
        self.names.deep_view()
    }
}

impl FieldsIdsMap {
    /// No name appears twice and every id fits in a `u16`.
    pub open spec fn wf(&self) -> bool {
        &&& self@.no_duplicates()
        &&& self@.len() <= MAX_FIELDS
    }

    pub fn new() -> (r: FieldsIdsMap)
        ensures
            r.wf(),
            r@ == Seq::<Seq<char>>::empty(),
    {
        let r = FieldsIdsMap { names: Vec::new() };
        assert(r@ =~= Seq::<Seq<char>>::empty());
        r
    }

    pub fn len(&self) -> (r: usize)
        ensures
            r == self@.len(),
    {
        self.names.len()
    }

    /// The id of `name`, if the map knows it.
    pub fn id(&self, name: &String) -> (r: Option<u16>)
        requires
            self.wf(),
        ensures
            match r {
                Some(i) => i < self@.len() && self@[i as int] == name@,
                None => !self@.contains(name@),
            },
    {
        let mut i: usize = 0;
        while i < self.names.len()
            invariant
                i <= self.names.len(),
                self.wf(),
                forall|j: int| 0 <= j < i ==> self@[j] != name@,
            decreases self.names.len() - i,
        {
            if self.names[i] == *name {
                return Some(i as u16);
            }
            i = i + 1;
        }
        None
    }

    /// The name of field `id`, if the map knows it.
    pub fn name(&self, id: u16) -> (r: Option<String>)
        ensures
            r is Some <==> (id as int) < self@.len(),
            r is Some ==> r->Some_0@ == self@[id as int],
    {
        if (id as usize) < self.names.len() {
            Some(self.names[id as usize].clone())
        } else {
            None
        }
    }

    /// The id of `name`, given the next free id if the map does not know it
    /// yet. `None` when the name is new and every id is taken.
    pub fn insert(&mut self, name: &String) -> (r: Option<u16>)
        requires
            old(self).wf(),
        ensures
            final(self).wf(),
            old(self)@.contains(name@) ==> final(self)@ == old(self)@,
            !old(self)@.contains(name@) && old(self)@.len() < MAX_FIELDS ==> final(self)@
                == old(self)@.push(name@) && r == Some(old(self)@.len() as u16),
            !old(self)@.contains(name@) && old(self)@.len() == MAX_FIELDS ==> final(self)@
                == old(self)@ && r is None,
            r is None <==> (!old(self)@.contains(name@) && old(self)@.len() == MAX_FIELDS),
            r is Some ==> (r->Some_0 as int) < final(self)@.len() && final(self)@[r->Some_0 as int]
                == name@,
    {
        match self.id(name) {
            Some(i) => Some(i),
            None => {
                if self.names.len() < MAX_FIELDS {
                    let i = self.names.len() as u16;
                    let ghost before = self@;
                    self.names.push(name.clone());
                    assert(self@ =~= before.push(name@));
                    proof {
                        assert forall|a: int, b: int|
                            0 <= a < b < self@.len() implies self@[a] != self@[b] by {
                            if b == before.len() {
                                assert(before[a] == self@[a]);
                            }
                        }
                    }
                    Some(i)
                } else {
                    None
                }
            },
        }
    }
}

} // verus!
