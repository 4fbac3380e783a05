use vstd::prelude::*;

verus! {

/// A kind of resource that can lie on a tile.
#[derive(Clone, Copy, Debug, PartialEq, Eq, Structural, Hash)]
pub enum Resource {
    PieceOfMeat,
    Apple,
}

/// How many items of a resource fit on one pile, unordered and ordered.
#[derive(Clone, Copy, Debug, PartialEq, Eq, Structural)]
pub struct Stacking {
    pub unordered: u32,
    pub ordered: u32,
}

/// What is known of a resource kind.
#[derive(Clone, Copy, Debug, PartialEq, Eq, Structural)]
pub struct ResourceInfo {
    pub stacking: Stacking,
}

/// The resource kinds and their properties, each kind at most once.
pub struct ResourceDictionary {
    entries: Vec<(Resource, ResourceInfo)>,
}

/// The entry for `kind` in `s`, searching from the front.
pub open spec fn entry_for(s: Seq<(Resource, ResourceInfo)>, kind: Resource) -> Option<ResourceInfo>
    decreases s.len(),
{
    if s.len() == 0 {
        None
    } else if s[0].0 == kind {
        Some(s[0].1)
    } else {
        entry_for(s.drop_first(), kind)
    }
}

/// The properties of each resource kind.
pub open spec fn spec_resource_info(kind: Resource) -> ResourceInfo {
    match kind {
        Resource::Apple => ResourceInfo { stacking: Stacking { unordered: 20, ordered: 30 } },
        Resource::PieceOfMeat => ResourceInfo { stacking: Stacking { unordered: 2, ordered: 10 } },
    }
}

impl View for ResourceDictionary {
    type V = Seq<(Resource, ResourceInfo)>;

    closed spec fn view(&self) -> Seq<(Resource, ResourceInfo)> {
        self.entries@
    }
}

impl ResourceDictionary {
    /// The properties of `kind`, if the dictionary lists it.
    pub fn get(&self, kind: Resource) -> (r: Option<ResourceInfo>)
        ensures
            r == entry_for(self@, kind),
    {
        let mut i: usize = 0;
        assert(self@.subrange(0, self@.len() as int) == self@);
        while i < self.entries.len()
            invariant
                i <= self@.len(),
                self.entries@ == self@,
                entry_for(self@, kind) == entry_for(self@.subrange(i as int, self@.len() as int), kind),
            decreases self@.len() - i,
        {
            let ghost s = self@.subrange(i as int, self@.len() as int);
            assert(s[0] == self@[i as int]);
            if self.entries[i].0 == kind {
                return Some(self.entries[i].1);
            }
            assert(s.drop_first() == self@.subrange(i as int + 1, self@.len() as int));
            i = i + 1;
        }
        None
    }

    /// The number of listed kinds.
    pub fn len(&self) -> (r: usize)
        ensures
            r == self@.len(),
    {
        self.entries.len()
    }
}

/// The dictionary of every resource kind with its stacking limits.
pub fn create_resource_dictionary() -> (r: ResourceDictionary)
    ensures
        r@.len() == 2,
        forall|kind: Resource| entry_for(r@, kind) == Some(spec_resource_info(kind)),
{
    let mut entries: Vec<(Resource, ResourceInfo)> = Vec::new();
    entries.push((Resource::Apple, ResourceInfo { stacking: Stacking { unordered: 20, ordered: 30 } }));
    entries.push((Resource::PieceOfMeat, ResourceInfo { stacking: Stacking { unordered: 2, ordered: 10 } }));
    let r = ResourceDictionary { entries };
    assert(r@ == entries@);
    assert forall|kind: Resource| entry_for(r@, kind) == Some(spec_resource_info(kind)) by {
        let rest = r@.drop_first();
        assert(rest[0] == r@[1]);
        assert(rest.len() == 1);
        match kind {
            Resource::Apple => {
                assert(r@[0].0 == kind);
            },
            Resource::PieceOfMeat => {
                assert(r@[0].0 != kind);
                assert(rest[0].0 == kind);
                assert(entry_for(rest, kind) == Some(rest[0].1));
            },
        }
    }
    r
}

} // verus!
