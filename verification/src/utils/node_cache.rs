//! The store of all nodes that were loaded, each under its own location.
use super::location_map::LocationMap;
use super::node::{copy_pointer, read_node, tree_entries, EntryView, Node, NodeView};
use super::node_location::{pushed, Location, LocationView};
use crate::error::DocumentError;
use vstd::prelude::*;

verus! {

/// What a cache holds: a node for each of its locations.
pub type CacheView = Map<LocationView, NodeView>;

/// The cache after a node was offered for a location: unchanged where the
/// location holds that very node, larger by one where it held none, and
/// `None` where it holds another node.
pub open spec fn offered(
    cache: CacheView,
    location: LocationView,
    node: NodeView,
) -> Option<CacheView> {
    if !cache.contains_key(location) {
        Some(cache.insert(location, node))
    } else if cache[location] == node {
        Some(cache)
    } else {
        None
    }
}

/// The cache after the first `count` entries of a tree were offered in turn,
/// each at its place below `base`; `None` as soon as one is refused.
pub open spec fn offered_all(
    cache: CacheView,
    base: LocationView,
    entries: Seq<EntryView>,
    count: nat,
) -> Option<CacheView>
    decreases count,
{
    if count == 0 {
        Some(cache)
    } else {
        match offered_all(cache, base, entries, (count - 1) as nat) {
            Some(filled) => offered(
                filled,
                pushed(base, entries[count - 1].pointer),
                entries[count - 1].node,
            ),
            None => None,
        }
    }
}

/// The cache after a whole tree was stored below `base`.
pub open spec fn stored(cache: CacheView, base: LocationView, node: NodeView) -> Option<CacheView> {
    let entries = tree_entries(Seq::empty(), node);
    offered_all(cache, base, entries, entries.len())
}

/// Offering nodes never takes a node away, nor changes one.
pub proof fn lemma_offered_all_keeps(
    cache: CacheView,
    base: LocationView,
    entries: Seq<EntryView>,
    count: nat,
)
    ensures
        offered_all(cache, base, entries, count) matches Some(filled) ==> cache.submap_of(filled),
    decreases count,
{
    if count > 0 {
        lemma_offered_all_keeps(cache, base, entries, (count - 1) as nat);
    }
}

/// After a tree was stored, each of its nodes is found at its place.
pub proof fn lemma_offered_all_holds(
    cache: CacheView,
    base: LocationView,
    entries: Seq<EntryView>,
    count: nat,
    index: int,
)
    requires
        0 <= index < count <= entries.len(),
    ensures
        offered_all(cache, base, entries, count) matches Some(filled) ==> filled.contains_key(
            pushed(base, entries[index].pointer),
        ) && filled[pushed(base, entries[index].pointer)] == entries[index].node,
    decreases count,
{
    if index < count - 1 {
        lemma_offered_all_holds(cache, base, entries, (count - 1) as nat, index);
    }
}

/// The store of all nodes that were loaded. A location, once it holds a node,
/// holds that node for good.
pub struct NodeCache {
    nodes: LocationMap<Node>,
}

impl NodeCache {
    /// No location occurs twice.
    pub closed spec fn wf(&self) -> bool {
        self.nodes.wf()
    }

    /// The node of each location.
    pub closed spec fn view(&self) -> CacheView {
        self.nodes@.map_values(|node: Node| node@)
    }

    /// The domain of the cache is finite.
    pub proof fn lemma_finite(&self)
        requires
            self.wf(),
        ensures
            self@.dom().finite(),
    {
        self.nodes.lemma_domain();
        assert(self@.dom() =~= self.nodes@.dom());
    }

    /// An empty cache.
    pub fn new() -> (cache: Self)
        ensures
            cache.wf(),
            cache@ == Map::<LocationView, NodeView>::empty(),
    {
        let cache = NodeCache { nodes: LocationMap::new() };
        assert(cache@ =~= Map::<LocationView, NodeView>::empty());
        cache
    }

    /// Whether a location holds a node.
    pub fn contains(&self, location: &Location) -> (found: bool)
        ensures
            found == self@.contains_key(location@),
    {
        self.nodes.contains_key(location)
    }

    /// The node at a location.
    pub fn get_node(&self, location: &Location) -> (node: Option<&Node>)
        requires
            self.wf(),
        ensures
            match node {
                Some(node) => self@.contains_key(location@) && self@[location@] == node@,
                None => !self@.contains_key(location@),
            },
    {
        self.nodes.get(location)
    }

    /// Stores a node at a location that holds none, accepts a node that
    /// equals the one the location holds, and refuses any other.
    pub fn insert_or_verify(
        &mut self,
        location: Location,
        node: Node,
    ) -> (result: Result<(), DocumentError>)
        requires
            old(self).wf(),
        ensures
            final(self).wf(),
            match offered(old(self)@, location@, node@) {
                Some(cache) => result is Ok && final(self)@ == cache,
                None => result == Err::<(), DocumentError>(DocumentError::ContentMismatch) && final(self)@ == old(
                    self,
                )@,
            },
    {
        match self.nodes.get(&location) {
            Some(previous) => {
                if previous.equals(&node) {
                    Ok(())
                } else {
                    Err(DocumentError::ContentMismatch)
                }
            },
            None => {
                let ghost before = self@;
                self.nodes.insert(location, node);
                assert(self@ =~= before.insert(location@, node@));
                Ok(())
            },
        }
    }

    /// Stores every node of a tree, the root at `retrieval_location` and each
    /// other node at its pointer below it, in the order of the document.
    /// Fails as soon as one location already holds another node; what was
    /// stored until then stays.
    pub fn fill_node_cache(
        &mut self,
        retrieval_location: &Location,
        document_node: &Node,
    ) -> (result: Result<(), DocumentError>)
        requires
            old(self).wf(),
        ensures
            final(self).wf(),
            old(self)@.submap_of(final(self)@),
            match stored(old(self)@, retrieval_location@, document_node@) {
                Some(cache) => result is Ok && final(self)@ == cache,
                None => result == Err::<(), DocumentError>(DocumentError::ContentMismatch)
                    && exists|count: nat| #[trigger]
                    offered_all(
                        old(self)@,
                        retrieval_location@,
                        tree_entries(Seq::empty(), document_node@),
                        count,
                    ) == Some(final(self)@) && offered_all(
                        old(self)@,
                        retrieval_location@,
                        tree_entries(Seq::empty(), document_node@),
                        count + 1,
                    ) is None,
            },
    {
        let root: Vec<String> = Vec::new();
        assert(root.deep_view() =~= Seq::<Seq<char>>::empty());
        let entries = read_node(&root, document_node);
        let ghost all = tree_entries(Seq::empty(), document_node@);
        let ghost before = self@;
        let mut index: usize = 0;
        while index < entries.len()
            invariant
                self.wf(),
                index <= entries.len(),
                before == old(self)@,
                all == entries.deep_view(),
                all == tree_entries(Seq::empty(), document_node@),
                offered_all(before, retrieval_location@, all, index as nat) == Some(self@),
            decreases entries.len() - index,
        {
            let entry = &entries[index];
            assert(entry.deep_view() == all[index as int]);
            let location = retrieval_location.push_pointer(copy_pointer(&entry.pointer));
            let ghost filled = self@;
            assert(offered_all(before, retrieval_location@, all, (index + 1) as nat) == offered(
                filled,
                location@,
                entry.node@,
            ));
            match self.insert_or_verify(location, entry.node.duplicate()) {
                Ok(()) => {},
                Err(error) => {
                    proof {
                        lemma_offered_all_keeps(before, retrieval_location@, all, index as nat);
                        lemma_offered_all_none(
                            before,
                            retrieval_location@,
                            all,
                            (index + 1) as nat,
                            all.len(),
                        );
                    }
                    return Err(error);
                },
            }
            index += 1;
        }
        proof {
            lemma_offered_all_keeps(before, retrieval_location@, all, all.len());
        }
        Ok(())
    }
}

/// Once an entry is refused, so is all that follows.
pub proof fn lemma_offered_all_none(
    cache: CacheView,
    base: LocationView,
    entries: Seq<EntryView>,
    count: nat,
    more: nat,
)
    requires
        count <= more,
        offered_all(cache, base, entries, count) is None,
    ensures
        offered_all(cache, base, entries, more) is None,
    decreases more,
{
    if count < more {
        lemma_offered_all_none(cache, base, entries, count, (more - 1) as nat);
    }
}

/// A node that was taken at a location is taken there again without a
/// change to the cache, and any other node is refused there.
pub proof fn lemma_offered_twice(
    cache: CacheView,
    location: LocationView,
    node: NodeView,
    other: NodeView,
)
    requires
        offered(cache, location, node) is Some,
    ensures
        offered(offered(cache, location, node)->0, location, node) == offered(cache, location, node),
        other != node ==> offered(offered(cache, location, node)->0, location, other) is None,
{
}

/// A finite cache stays finite when nodes are offered to it.
pub proof fn lemma_offered_all_finite(
    cache: CacheView,
    base: LocationView,
    entries: Seq<EntryView>,
    count: nat,
)
    requires
        cache.dom().finite(),
    ensures
        offered_all(cache, base, entries, count) matches Some(filled) ==> filled.dom().finite(),
    decreases count,
{
    if count > 0 {
        lemma_offered_all_finite(cache, base, entries, (count - 1) as nat);
    }
}

} // verus!
