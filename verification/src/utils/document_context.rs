//! The loading of documents: which documents there are, which nodes belong
//! to which of them, and what is still to be loaded.
use super::location_map::LocationMap;
use super::node::{copy_pointer, read_node, tree_entries, EntryView, Node, NodeView};
use super::node_cache::{
    lemma_offered_all_finite, lemma_offered_all_holds, lemma_offered_all_keeps, stored, CacheView,
    NodeCache,
};
use super::node_location::{fetch_address, pushed, rooted, Location, LocationView};
use super::yaml::{parse_document, parsed_document};
use crate::documents::document_type::{document_type_of, DocumentType};
use crate::documents::interface::agrees;
use crate::documents::oas30::document::api_references;
use crate::documents::oas30::nodes::Api;
use crate::documents::oas30::Document;
use crate::error::DocumentError;
use vstd::prelude::*;

verus! {

/// A document that is part of another one: where it lies, and the location
/// that it gives itself.
pub struct SubDocumentView {
    pub retrieval_location: LocationView,
    pub given_location: LocationView,
}

/// A document that lies inside the tree of another one. Its nodes are in the
/// cache already.
#[derive(Debug)]
pub struct EmbeddedDocument {
    pub retrieval_location: Location,
    pub given_location: Location,
}

/// A document that another one refers to. It may have to be fetched.
#[derive(Debug)]
pub struct ReferencedDocument {
    pub retrieval_location: Location,
    pub given_location: Location,
}

impl DeepView for EmbeddedDocument {
    type V = SubDocumentView;

    open spec fn deep_view(&self) -> SubDocumentView {
        SubDocumentView {
            retrieval_location: self.retrieval_location@,
            given_location: self.given_location@,
        }
    }
}

impl DeepView for ReferencedDocument {
    type V = SubDocumentView;

    open spec fn deep_view(&self) -> SubDocumentView {
        SubDocumentView {
            retrieval_location: self.retrieval_location@,
            given_location: self.given_location@,
        }
    }
}

/// What a document is made from: where it was retrieved, the location it
/// goes by, and the document that led to it.
#[derive(Debug)]
pub struct DocumentConfiguration {
    pub retrieval_location: Location,
    pub given_location: Location,
    pub antecedent_location: Option<Location>,
}

/// What a document is made from.
pub struct ConfigurationView {
    pub retrieval_location: LocationView,
    pub given_location: LocationView,
    pub antecedent_location: Option<LocationView>,
}

impl DeepView for DocumentConfiguration {
    type V = ConfigurationView;

    open spec fn deep_view(&self) -> ConfigurationView {
        ConfigurationView {
            retrieval_location: self.retrieval_location@,
            given_location: self.given_location@,
            antecedent_location: self.antecedent_location.deep_view(),
        }
    }
}

/// The readers that a kind of document can be given to.
#[derive(Clone, Copy, Debug, PartialEq, Eq, Structural)]
pub enum DocumentFactory {
    /// The reader for version 3.0, which follows the references of the
    /// document.
    Oas30,
    /// The reader for version 3.1, which takes the document as it is and
    /// follows nothing.
    Oas31,
}

/// What is known of a loaded document.
pub struct RecordView {
    pub factory: DocumentFactory,
    pub document_location: LocationView,
    pub given_location: LocationView,
    pub antecedent_location: Option<LocationView>,
    pub node_locations: Seq<LocationView>,
    pub embedded_documents: Seq<SubDocumentView>,
    pub referenced_documents: Seq<SubDocumentView>,
}

/// A loaded document: the reader that it was given to, its location, the
/// document that led to it, the nodes that belong to it, and the documents
/// that it leads to.
#[derive(Debug)]
pub struct LoadedDocument {
    pub factory: DocumentFactory,
    pub document_location: Location,
    pub given_location: Location,
    pub antecedent_location: Option<Location>,
    pub node_locations: Vec<Location>,
    pub embedded_documents: Vec<EmbeddedDocument>,
    pub referenced_documents: Vec<ReferencedDocument>,
}

impl DeepView for LoadedDocument {
    type V = RecordView;

    open spec fn deep_view(&self) -> RecordView {
        RecordView {
            factory: self.factory,
            document_location: self.document_location@,
            given_location: self.given_location@,
            antecedent_location: self.antecedent_location.deep_view(),
            node_locations: self.node_locations.deep_view(),
            embedded_documents: self.embedded_documents.deep_view(),
            referenced_documents: self.referenced_documents.deep_view(),
        }
    }
}

/// A document that waits to be loaded.
pub struct ItemView {
    pub retrieval_location: LocationView,
    pub given_location: LocationView,
    pub antecedent_location: Option<LocationView>,
    pub default_type: DocumentType,
}

/// A document that waits to be loaded, and the kind to take it for where it
/// does not tell its kind.
#[derive(Debug)]
pub struct QueueItem {
    pub retrieval_location: Location,
    pub given_location: Location,
    pub antecedent_location: Option<Location>,
    pub default_type: DocumentType,
}

impl DeepView for QueueItem {
    type V = ItemView;

    open spec fn deep_view(&self) -> ItemView {
        ItemView {
            retrieval_location: self.retrieval_location@,
            given_location: self.given_location@,
            antecedent_location: self.antecedent_location.deep_view(),
            default_type: self.default_type,
        }
    }
}

/// The state of a loading session.
#[verifier::ext_equal]
pub struct ContextView {
    /// The node of each location that was loaded.
    pub cache: CacheView,
    /// The document that each node belongs to.
    pub node_documents: Map<LocationView, LocationView>,
    /// The documents, each under its own location.
    pub documents: Map<LocationView, RecordView>,
    /// The document that was made for each retrieval location.
    pub document_resolved: Map<LocationView, LocationView>,
    /// The reader for each kind of document.
    pub factories: Map<DocumentType, DocumentFactory>,
    /// The documents whose nodes are cached and that wait to be loaded. The
    /// last one is loaded next.
    pub queue: Seq<ItemView>,
    /// The documents that were referred to and are not scheduled yet. The
    /// last one is scheduled next, and it is fetched first where its nodes
    /// are not cached.
    pub pending: Seq<ItemView>,
}

/// The locations of all nodes of a tree that stands at `base`.
pub open spec fn all_node_locations(base: LocationView, node: NodeView) -> Seq<LocationView> {
    tree_entries(Seq::empty(), node).map_values(|entry: EntryView| pushed(base, entry.pointer))
}

/// Whether a document that is referred to is a whole file.
pub open spec fn is_file(document: SubDocumentView) -> bool {
    document.retrieval_location.hash.len() == 0
}

/// The documents that a list of references leads to: for each reference the
/// document that its target lies in.
pub open spec fn referenced_documents_of(targets: Seq<LocationView>) -> Seq<SubDocumentView> {
    targets.map_values(
        |target: LocationView|
            SubDocumentView { retrieval_location: rooted(target), given_location: rooted(target) },
    )
}

/// What a reader reports of a document: its own location, the nodes that
/// belong to it, and the documents that it leads to. The root of the
/// document has to be in the cache.
pub open spec fn record_of(
    cache: CacheView,
    factory: DocumentFactory,
    configuration: ConfigurationView,
) -> Result<RecordView, DocumentError> {
    if !cache.contains_key(configuration.retrieval_location) {
        Err(DocumentError::NodeNotFound)
    } else {
        let node = cache[configuration.retrieval_location];
        let references = match factory {
            DocumentFactory::Oas30 => api_references(configuration.retrieval_location, node),
            DocumentFactory::Oas31 => Ok(Seq::empty()),
        };
        match references {
            Err(error) => Err(error),
            Ok(targets) => Ok(
                RecordView {
                    factory,
                    document_location: configuration.retrieval_location,
                    given_location: configuration.given_location,
                    antecedent_location: configuration.antecedent_location,
                    node_locations: all_node_locations(configuration.retrieval_location, node),
                    embedded_documents: Seq::empty(),
                    referenced_documents: referenced_documents_of(targets),
                },
            ),
        }
    }
}

/// What a document that waits to be loaded is made from.
pub open spec fn configuration_of(item: ItemView) -> ConfigurationView {
    ConfigurationView {
        retrieval_location: item.retrieval_location,
        given_location: item.given_location,
        antecedent_location: item.antecedent_location,
    }
}

/// The owners of the nodes after a document claimed the locations of a list
/// from `start` on; `None` where one of them belongs to another document.
pub open spec fn claimed_from(
    owners: Map<LocationView, LocationView>,
    locations: Seq<LocationView>,
    document: LocationView,
    start: int,
) -> Option<Map<LocationView, LocationView>>
    decreases locations.len() - start,
{
    if start < 0 || start >= locations.len() {
        Some(owners)
    } else if owners.contains_key(locations[start]) && owners[locations[start]] != document {
        None
    } else {
        claimed_from(owners.insert(locations[start], document), locations, document, start + 1)
    }
}

/// The item under which a document is scheduled that another one leads to.
pub open spec fn item_for(
    document: SubDocumentView,
    antecedent: LocationView,
    default_type: DocumentType,
) -> ItemView {
    ItemView {
        retrieval_location: document.retrieval_location,
        given_location: document.given_location,
        antecedent_location: Some(antecedent),
        default_type,
    }
}

/// The queue after the embedded documents of a list were scheduled from
/// `start` on; an embedded document whose node is not cached is an error.
pub open spec fn scheduled_from(
    queue: Seq<ItemView>,
    cache: CacheView,
    embedded: Seq<SubDocumentView>,
    antecedent: LocationView,
    default_type: DocumentType,
    start: int,
) -> Result<Seq<ItemView>, DocumentError>
    decreases embedded.len() - start,
{
    if start < 0 || start >= embedded.len() {
        Ok(queue)
    } else if !cache.contains_key(embedded[start].retrieval_location) {
        Err(DocumentError::NotFound)
    } else {
        scheduled_from(
            queue.push(item_for(embedded[start], antecedent, default_type)),
            cache,
            embedded,
            antecedent,
            default_type,
            start + 1,
        )
    }
}

/// The referenced documents of a list as items, the first one last.
pub open spec fn pending_for(
    referenced: Seq<SubDocumentView>,
    antecedent: LocationView,
    default_type: DocumentType,
) -> Seq<ItemView> {
    referenced.map_values(
        |document: SubDocumentView| item_for(document, antecedent, default_type),
    ).reverse()
}

/// The kind that a document is taken for: the kind that it declares, else
/// the default.
pub open spec fn kind_of(node: NodeView, default_type: DocumentType) -> DocumentType {
    match document_type_of(node) {
        Some(document_type) => document_type,
        None => default_type,
    }
}

/// The state after one document was taken from the queue and loaded.
///
/// A document whose retrieval location belongs to a document already is
/// passed over, and so is one that was resolved to the same document before.
/// Otherwise its node has to be cached and its kind needs a reader; the
/// retrieval location must not be resolved to another document, the location
/// of the document must not be taken, and none of its nodes may belong to
/// another document. Its embedded documents are put on the queue, and its
/// referenced documents wait to be scheduled.
pub open spec fn item_loaded(
    state: ContextView,
    item: ItemView,
) -> Result<ContextView, DocumentError> {
    if state.node_documents.contains_key(item.retrieval_location) {
        Ok(state)
    } else if !state.cache.contains_key(item.retrieval_location) {
        Err(DocumentError::NotFound)
    } else {
        let kind = kind_of(state.cache[item.retrieval_location], item.default_type);
        if !state.factories.contains_key(kind) {
            Err(DocumentError::NotFound)
        } else {
            match record_of(state.cache, state.factories[kind], configuration_of(item)) {
                Err(error) => Err(error),
                Ok(record) => {
                    let document = record.document_location;
                    if state.document_resolved.contains_key(item.retrieval_location) {
                        if state.document_resolved[item.retrieval_location] == document {
                            Ok(state)
                        } else {
                            Err(DocumentError::Conflict)
                        }
                    } else if state.documents.contains_key(document) {
                        Err(DocumentError::Conflict)
                    } else {
                        match claimed_from(state.node_documents, record.node_locations, document, 0) {
                            None => Err(DocumentError::Conflict),
                            Some(node_documents) => match scheduled_from(
                                state.queue,
                                state.cache,
                                record.embedded_documents,
                                document,
                                item.default_type,
                                0,
                            ) {
                                Err(error) => Err(error),
                                Ok(queue) => Ok(
                                    ContextView {
                                        node_documents,
                                        documents: state.documents.insert(document, record),
                                        document_resolved: state.document_resolved.insert(
                                            item.retrieval_location,
                                            document,
                                        ),
                                        queue,
                                        pending: state.pending + pending_for(
                                            record.referenced_documents,
                                            document,
                                            item.default_type,
                                        ),
                                        ..state
                                    },
                                ),
                            },
                        }
                    }
                },
            }
        }
    }
}

/// One step of loading. A document that waits to be scheduled goes on the
/// queue if its node is cached; if not, loading waits for it to be fetched.
/// With nothing to schedule, the last document of the queue is loaded. With
/// nothing on the queue either, loading is finished. `Ok(None)` says that no
/// step can be made.
pub open spec fn advanced(state: ContextView) -> Result<Option<ContextView>, DocumentError> {
    if state.pending.len() > 0 {
        if state.cache.contains_key(state.pending.last().retrieval_location) {
            Ok(
                Some(
                    ContextView {
                        queue: state.queue.push(state.pending.last()),
                        pending: state.pending.drop_last(),
                        ..state
                    },
                ),
            )
        } else {
            Ok(None)
        }
    } else if state.queue.len() > 0 {
        let popped = ContextView { queue: state.queue.drop_last(), ..state };
        match item_loaded(popped, state.queue.last()) {
            Err(error) => Err(error),
            Ok(next) => Ok(Some(next)),
        }
    } else {
        Ok(None)
    }
}

/// Whether the root of every file that was resolved to a document belongs
/// to a document.
pub open spec fn roots_owned(state: ContextView) -> bool {
    forall|location: LocationView|
        #[trigger] state.document_resolved.contains_key(location) && location.hash.len() == 0
            ==> state.node_documents.contains_key(location)
}

/// Whether every document that waits to be scheduled is a whole file.
pub open spec fn pending_rooted(state: ContextView) -> bool {
    forall|i: int|
        0 <= i < state.pending.len() ==> (#[trigger] state.pending[i]).retrieval_location.hash.len()
            == 0
}

/// What holds of every session: the cache is finite, only cached locations
/// are resolved, the root of a file that was resolved belongs to a document,
/// and the documents that wait to be scheduled are whole files.
pub open spec fn sound(state: ContextView) -> bool {
    &&& state.cache.dom().finite()
    &&& state.document_resolved.dom().subset_of(state.cache.dom())
    &&& roots_owned(state)
    &&& pending_rooted(state)
}

/// The number of cached locations that are not resolved to a document.
pub open spec fn unresolved(state: ContextView) -> nat {
    state.cache.dom().difference(state.document_resolved.dom()).len()
}

/// The work that is left without loading a document: each document to be
/// scheduled counts twice, each document on the queue once.
pub open spec fn backlog(state: ContextView) -> nat {
    2 * state.pending.len() + state.queue.len()
}

/// To claim nodes takes no node away from the owners.
pub proof fn lemma_claimed_keeps(
    owners: Map<LocationView, LocationView>,
    locations: Seq<LocationView>,
    document: LocationView,
    start: int,
    location: LocationView,
)
    requires
        0 <= start,
        claimed_from(owners, locations, document, start) is Some,
        owners.contains_key(location),
    ensures
        claimed_from(owners, locations, document, start)->0.contains_key(location),
    decreases locations.len() - start,
{
    if start < locations.len() {
        lemma_claimed_keeps(
            owners.insert(locations[start], document),
            locations,
            document,
            start + 1,
            location,
        );
    }
}

/// A document that claimed its nodes owns each of them.
pub proof fn lemma_claimed(
    owners: Map<LocationView, LocationView>,
    locations: Seq<LocationView>,
    document: LocationView,
    start: int,
    index: int,
)
    requires
        0 <= start <= index < locations.len(),
        claimed_from(owners, locations, document, start) is Some,
    ensures
        claimed_from(owners, locations, document, start)->0.contains_key(locations[index]),
    decreases locations.len() - start,
{
    let next = owners.insert(locations[start], document);
    if start < index {
        lemma_claimed(next, locations, document, start + 1, index);
    } else {
        lemma_claimed_keeps(next, locations, document, start + 1, locations[index]);
    }
}

/// Loading a document keeps the state sound, and either resolves one more
/// cached location or leaves all but the queue as it was.
pub proof fn lemma_item_loaded(state: ContextView, item: ItemView)
    requires
        sound(state),
    ensures
        item_loaded(state, item) matches Ok(next) ==> sound(next) && next.cache == state.cache && (
        next == state || unresolved(next) < unresolved(state)),
{
    if item_loaded(state, item) is Ok {
        let next = item_loaded(state, item)->Ok_0;
        if next != state {
            let key = item.retrieval_location;
            assert(state.cache.dom().contains(key));
            assert(!state.document_resolved.dom().contains(key));
            assert(next.document_resolved.dom() =~= state.document_resolved.dom().insert(key));
            let waiting = state.cache.dom().difference(state.document_resolved.dom());
            assert(next.cache.dom().difference(next.document_resolved.dom()) =~= waiting.remove(key));
            assert(waiting.contains(key));
            let kind = kind_of(state.cache[key], item.default_type);
            let record = record_of(state.cache, state.factories[kind], configuration_of(item))->Ok_0;
            assert forall|location: LocationView|
                #[trigger] next.document_resolved.contains_key(location) && location.hash.len()
                    == 0 implies next.node_documents.contains_key(location) by {
                if location == key {
                    let entries = tree_entries(Seq::empty(), state.cache[key]);
                    assert(entries[0].pointer == Seq::<Seq<char>>::empty());
                    super::node_location::lemma_pushed_nothing(key);
                    assert(record.node_locations[0] == key);
                    lemma_claimed(state.node_documents, record.node_locations, key, 0, 0);
                } else {
                    lemma_claimed_keeps(
                        state.node_documents,
                        record.node_locations,
                        key,
                        0,
                        location,
                    );
                }
            }
        }
    }
}

/// A step keeps the state sound and leaves less to do.
pub proof fn lemma_advanced(state: ContextView)
    requires
        sound(state),
    ensures
        advanced(state) matches Ok(Some(next)) ==> sound(next) && (unresolved(next) < unresolved(state)
            || (unresolved(next) == unresolved(state) && backlog(next) < backlog(state))),
{
    if state.pending.len() == 0 && state.queue.len() > 0 {
        let popped = ContextView { queue: state.queue.drop_last(), ..state };
        lemma_item_loaded(popped, state.queue.last());
    }
}

/// The state in which loading comes to rest: finished, or waiting for a
/// document to be fetched. The first error ends it.
pub open spec fn settled(state: ContextView) -> Result<ContextView, DocumentError>
    decreases unresolved(state), backlog(state),
    when sound(state)
{
    match advanced(state) {
        Err(error) => Err(error),
        Ok(None) => Ok(state),
        Ok(Some(next)) => {
            proof {
                lemma_advanced(state);
            }
            settled(next)
        },
    }
}

/// What the session asks for when loading comes to rest.
#[derive(Debug)]
pub enum LoadAction {
    /// The document at this address has to be fetched, and its text handed
    /// to `load_fetched`.
    Fetch(String),
    /// All documents are loaded.
    Finished,
}

/// What the session asks for when loading comes to rest.
pub enum ActionView {
    Fetch(Seq<char>),
    Finished,
}

impl DeepView for LoadAction {
    type V = ActionView;

    open spec fn deep_view(&self) -> ActionView {
        match self {
            LoadAction::Fetch(address) => ActionView::Fetch(address@),
            LoadAction::Finished => ActionView::Finished,
        }
    }
}

/// What a state at rest asks for: the next document to be scheduled is to be
/// fetched, and with none of them loading is finished.
pub open spec fn action_of(state: ContextView) -> ActionView {
    if state.pending.len() > 0 {
        let document = rooted(state.pending.last().retrieval_location);
        ActionView::Fetch(fetch_address(document.origin, document.path, document.query))
    } else {
        ActionView::Finished
    }
}

/// The reader of one of the three kinds of document.
pub open spec fn factory_slot(
    open_api_v30: Option<DocumentFactory>,
    open_api_v31: Option<DocumentFactory>,
    swagger_v2: Option<DocumentFactory>,
    document_type: DocumentType,
) -> Option<DocumentFactory> {
    match document_type {
        DocumentType::OpenApiV30 => open_api_v30,
        DocumentType::OpenApiV31 => open_api_v31,
        DocumentType::SwaggerV2 => swagger_v2,
    }
}

/// The readers of the three kinds of document, as a map.
pub open spec fn factories_of(
    open_api_v30: Option<DocumentFactory>,
    open_api_v31: Option<DocumentFactory>,
    swagger_v2: Option<DocumentFactory>,
) -> Map<DocumentType, DocumentFactory> {
    Map::new(
        |document_type: DocumentType|
            factory_slot(open_api_v30, open_api_v31, swagger_v2, document_type) is Some,
        |document_type: DocumentType|
            factory_slot(open_api_v30, open_api_v31, swagger_v2, document_type)->0,
    )
}

/// The state in which a session starts: nothing cached, nothing loaded, no
/// readers.
pub open spec fn empty_context() -> ContextView {
    ContextView {
        cache: Map::empty(),
        node_documents: Map::empty(),
        documents: Map::empty(),
        document_resolved: Map::empty(),
        factories: Map::empty(),
        queue: Seq::empty(),
        pending: Seq::empty(),
    }
}

/// The state after a document was asked for by its location.
pub open spec fn requested(state: ContextView, item: ItemView) -> ContextView {
    ContextView { pending: state.pending.push(item), ..state }
}

/// The state after a document was handed in as a tree: the tree is stored
/// unless its location is cached already, and the document is scheduled.
pub open spec fn handed_in(
    state: ContextView,
    item: ItemView,
    node: NodeView,
) -> Result<ContextView, DocumentError> {
    if state.cache.contains_key(item.retrieval_location) {
        Ok(ContextView { queue: state.queue.push(item), ..state })
    } else {
        match stored(state.cache, item.retrieval_location, node) {
            None => Err(DocumentError::ContentMismatch),
            Some(cache) => Ok(ContextView { cache, queue: state.queue.push(item), ..state }),
        }
    }
}

/// The state after the text of the document that was waited for came in:
/// the text is read, the tree is stored at the root of the document unless
/// the location that was asked for is cached already, and the document is
/// scheduled.
pub open spec fn fetched(
    state: ContextView,
    text: Seq<char>,
) -> Result<ContextView, DocumentError> {
    if state.pending.len() == 0 {
        Err(DocumentError::NotFound)
    } else {
        match parsed_document(text) {
            None => Err(DocumentError::InvalidDocument),
            Some(node) => {
                let item = state.pending.last();
                let scheduled = ContextView {
                    queue: state.queue.push(item),
                    pending: state.pending.drop_last(),
                    ..state
                };
                if state.cache.contains_key(item.retrieval_location) {
                    Ok(scheduled)
                } else {
                    match stored(state.cache, rooted(item.retrieval_location), node) {
                        None => Err(DocumentError::ContentMismatch),
                        Some(cache) => Ok(ContextView { cache, ..scheduled }),
                    }
                }
            },
        }
    }
}

/// The documents from a location on, each followed by the one that led to
/// it. A chain that is longer than `limit` does not end.
pub open spec fn antecedents(
    documents: Map<LocationView, RecordView>,
    location: LocationView,
    limit: nat,
) -> Result<Seq<RecordView>, DocumentError>
    decreases limit,
{
    if !documents.contains_key(location) {
        Err(DocumentError::NotFound)
    } else {
        match documents[location].antecedent_location {
            None => Ok(seq![documents[location]]),
            Some(antecedent) => if limit == 0 {
                Err(DocumentError::Conflict)
            } else {
                match antecedents(documents, antecedent, (limit - 1) as nat) {
                    Err(error) => Err(error),
                    Ok(rest) => Ok(seq![documents[location]] + rest),
                }
            },
        }
    }
}

/// A loading session: the cache of nodes, the documents that were made from
/// them, and what is still to be loaded.
pub struct DocumentContext {
    /// The document that each node belongs to.
    node_documents: LocationMap<Location>,
    /// All nodes that were loaded, each under its retrieval location.
    node_cache: NodeCache,
    /// All documents, each under its own location.
    documents: LocationMap<LoadedDocument>,
    /// The document that was made for each retrieval location.
    document_resolved: LocationMap<Location>,
    /// The reader for each kind of document.
    open_api_v30: Option<DocumentFactory>,
    open_api_v31: Option<DocumentFactory>,
    swagger_v2: Option<DocumentFactory>,
    /// The documents that wait to be loaded; the last one is next.
    queue: Vec<QueueItem>,
    /// The documents that wait to be scheduled; the last one is next.
    pending: Vec<QueueItem>,
}

impl DocumentContext {
    /// The state of the session.
    pub closed spec fn view(&self) -> ContextView {
        ContextView {
            cache: self.node_cache@,
            node_documents: self.node_documents@.map_values(|location: Location| location@),
            documents: self.documents@.map_values(|document: LoadedDocument| document.deep_view()),
            document_resolved: self.document_resolved@.map_values(|location: Location| location@),
            factories: factories_of(self.open_api_v30, self.open_api_v31, self.swagger_v2),
            queue: self.queue.deep_view(),
            pending: self.pending.deep_view(),
        }
    }

    /// The session is in order: no location occurs twice in a map, and only
    /// cached locations are resolved.
    pub closed spec fn wf(&self) -> bool {
        &&& self.node_documents.wf()
        &&& self.node_cache.wf()
        &&& self.documents.wf()
        &&& self.document_resolved.wf()
        &&& self@.document_resolved.dom().subset_of(self@.cache.dom())
        &&& roots_owned(self@)
        &&& pending_rooted(self@)
    }

    /// A session in order is sound.
    pub proof fn lemma_sound(&self)
        requires
            self.wf(),
        ensures
            sound(self@),
    {
        self.node_cache.lemma_finite();
    }

    /// A session with nothing in it.
    pub fn new() -> (context: Self)
        ensures
            context.wf(),
            context@ == empty_context(),
    {
        let context = DocumentContext {
            node_documents: LocationMap::new(),
            node_cache: NodeCache::new(),
            documents: LocationMap::new(),
            document_resolved: LocationMap::new(),
            open_api_v30: None,
            open_api_v31: None,
            swagger_v2: None,
            queue: Vec::new(),
            pending: Vec::new(),
        };
        proof {
            assert(context@.node_documents =~= Map::empty());
            assert(context@.documents =~= Map::empty());
            assert(context@.document_resolved =~= Map::empty());
            assert(context@.factories =~= Map::empty());
            assert(context@.queue =~= Seq::empty());
            assert(context@.pending =~= Seq::empty());
        }
        context
    }

    /// Sets the reader for a kind of document. A reader that was set for the
    /// kind before gives way.
    pub fn register_factory(
        &mut self,
        document_type: DocumentType,
        factory: DocumentFactory,
    ) -> (result: Result<(), DocumentError>)
        requires
            old(self).wf(),
        ensures
            final(self).wf(),
            result is Ok,
            final(self)@ == (ContextView {
                factories: old(self)@.factories.insert(document_type, factory),
                ..old(self)@
            }),
    {
        match document_type {
            DocumentType::OpenApiV30 => {
                self.open_api_v30 = Some(factory);
            },
            DocumentType::OpenApiV31 => {
                self.open_api_v31 = Some(factory);
            },
            DocumentType::SwaggerV2 => {
                self.swagger_v2 = Some(factory);
            },
        }
        assert(self@.factories =~= old(self)@.factories.insert(document_type, factory));
        Ok(())
    }

    /// The reader for a kind of document.
    pub fn get_factory(&self, document_type: DocumentType) -> (factory: Option<DocumentFactory>)
        ensures
            match factory {
                Some(factory) => self@.factories.contains_key(document_type)
                    && self@.factories[document_type] == factory,
                None => !self@.factories.contains_key(document_type),
            },
    {
        match document_type {
            DocumentType::OpenApiV30 => self.open_api_v30,
            DocumentType::OpenApiV31 => self.open_api_v31,
            DocumentType::SwaggerV2 => self.swagger_v2,
        }
    }

    /// The cache of the session.
    pub fn node_cache(&self) -> (cache: &NodeCache)
        requires
            self.wf(),
        ensures
            cache.wf(),
            cache@ == self@.cache,
    {
        &self.node_cache
    }

    /// The node at a location.
    pub fn get_node(&self, location: &Location) -> (node: Option<&Node>)
        requires
            self.wf(),
        ensures
            match node {
                Some(node) => self@.cache.contains_key(location@) && self@.cache[location@] == node@,
                None => !self@.cache.contains_key(location@),
            },
    {
        self.node_cache.get_node(location)
    }

    /// The location of the document that was made for a retrieval location.
    pub fn resolve_document_retrieval_location(
        &self,
        document_retrieval_location: &Location,
    ) -> (document: Option<Location>)
        requires
            self.wf(),
        ensures
            match document {
                Some(document) => self@.document_resolved.contains_key(document_retrieval_location@)
                    && self@.document_resolved[document_retrieval_location@] == document@,
                None => !self@.document_resolved.contains_key(document_retrieval_location@),
            },
    {
        match self.document_resolved.get(document_retrieval_location) {
            Some(document) => Some(document.clone()),
            None => None,
        }
    }

    /// The location of the document that a node belongs to, if it belongs
    /// to one.
    pub fn find_document_location(&self, node_location: &Location) -> (document: Option<Location>)
        requires
            self.wf(),
        ensures
            match document {
                Some(document) => self@.node_documents.contains_key(node_location@)
                    && self@.node_documents[node_location@] == document@,
                None => !self@.node_documents.contains_key(node_location@),
            },
    {
        match self.node_documents.get(node_location) {
            Some(document) => Some(document.clone()),
            None => None,
        }
    }

    /// The location of the document that a node belongs to.
    pub fn resolve_document_location(&self, node_location: &Location) -> (document: Location)
        requires
            self.wf(),
            self@.node_documents.contains_key(node_location@),
        ensures
            document@ == self@.node_documents[node_location@],
    {
        match self.node_documents.get(node_location) {
            Some(document) => document.clone(),
            None => vstd::pervasive::unreached(),
        }
    }

    /// The document at a location.
    pub fn get_document(
        &self,
        document_location: &Location,
    ) -> (result: Result<&LoadedDocument, DocumentError>)
        requires
            self.wf(),
        ensures
            match result {
                Ok(document) => self@.documents.contains_key(document_location@)
                    && self@.documents[document_location@] == document.deep_view(),
                Err(error) => error == DocumentError::NotFound && !self@.documents.contains_key(
                    document_location@,
                ),
            },
    {
        match self.documents.get(document_location) {
            Some(document) => Ok(document),
            None => Err(DocumentError::NotFound),
        }
    }

    /// The number of documents.
    pub fn document_count(&self) -> (count: usize)
        requires
            self.wf(),
        ensures
            count == self@.documents.dom().len(),
    {
        proof {
            self.documents.lemma_domain();
            assert(self@.documents.dom() =~= self.documents@.dom());
        }
        self.documents.len()
    }

    /// The document at a location, followed by the document that led to it,
    /// and so on to a document that nothing led to. A chain that has more
    /// documents than there are is refused, for it would not end.
    pub fn get_document_and_antecedents(
        &self,
        document_location: &Location,
    ) -> (result: Result<Vec<&LoadedDocument>, DocumentError>)
        requires
            self.wf(),
        ensures
            match antecedents(self@.documents, document_location@, self@.documents.dom().len()) {
                Ok(chain) => result matches Ok(documents) && documents.len() == chain.len() && forall|
                    i: int,
                |
                    0 <= i < chain.len() ==> (#[trigger] documents[i]).deep_view() == chain[i],
                Err(error) => result matches Err(raised) && raised == error,
            },
    {
        let limit = self.document_count();
        let ghost all = antecedents(self@.documents, document_location@, limit as nat);
        let mut documents: Vec<&LoadedDocument> = Vec::new();
        let ghost mut chain: Seq<RecordView> = Seq::empty();
        let mut location = document_location.clone();
        let mut left = limit;
        loop
            invariant
                self.wf(),
                left <= limit,
                documents.len() == chain.len(),
                forall|i: int| 0 <= i < chain.len() ==> (#[trigger] documents[i]).deep_view() == chain[i],
                all == (match antecedents(self@.documents, location@, left as nat) {
                    Ok(rest) => Ok(chain + rest),
                    Err(error) => Err(error),
                }),
                all == antecedents(self@.documents, document_location@, self@.documents.dom().len()),
            decreases left,
        {
            let document = match self.get_document(&location) {
                Ok(document) => document,
                Err(error) => {
                    return Err(error);
                },
            };
            let ghost before = chain;
            documents.push(document);
            proof {
                chain = chain.push(document.deep_view());
            }
            match &document.antecedent_location {
                None => {
                    assert(before + seq![document.deep_view()] =~= chain);
                    return Ok(documents);
                },
                Some(antecedent) => {
                    if left == 0 {
                        return Err(DocumentError::Conflict);
                    }
                    proof {
                        let rest = antecedents(self@.documents, antecedent@, (left - 1) as nat);
                        if rest is Ok {
                            assert(before + (seq![document.deep_view()] + rest->Ok_0) =~= chain
                                + rest->Ok_0);
                        }
                    }
                    location = antecedent.clone();
                    left = left - 1;
                },
            }
        }
    }
}

/// A copy of a location that may be missing.
pub fn copy_location(location: &Option<Location>) -> (copy: Option<Location>)
    ensures
        copy.deep_view() == location.deep_view(),
{
    match location {
        Some(location) => Some(location.clone()),
        None => None,
    }
}

impl DocumentFactory {
    /// Has the reader read a document, and notes what it reports: the
    /// location of the document, the nodes that belong to it, and the
    /// documents that it leads to.
    pub fn create(
        &self,
        cache: &NodeCache,
        configuration: DocumentConfiguration,
    ) -> (result: Result<LoadedDocument, DocumentError>)
        requires
            cache.wf(),
        ensures
            agrees(result, record_of(cache@, *self, configuration.deep_view())),
    {
        let node = match cache.get_node(&configuration.retrieval_location) {
            Some(node) => node,
            None => {
                return Err(DocumentError::NodeNotFound);
            },
        };
        let targets = match self {
            DocumentFactory::Oas30 => {
                let reader = Document::new(configuration.retrieval_location.clone());
                match reader.get_referenced_locations_from_api(
                    &configuration.retrieval_location,
                    Api::new(node),
                ) {
                    Ok(targets) => targets,
                    Err(error) => {
                        return Err(error);
                    },
                }
            },
            DocumentFactory::Oas31 => {
                match crate::documents::oas31::Document::new(
                    cache,
                    configuration.retrieval_location.clone(),
                ) {
                    Ok(reader) => reader.get_consequent_locations(),
                    Err(error) => {
                        return Err(error);
                    },
                }
            },
        };
        let mut referenced_documents: Vec<ReferencedDocument> = Vec::new();
        let mut index: usize = 0;
        while index < targets.len()
            invariant
                index <= targets.len(),
                referenced_documents.len() == index,
                forall|i: int|
                    0 <= i < index ==> (#[trigger] referenced_documents[i]).deep_view()
                        == referenced_documents_of(targets.deep_view())[i],
            decreases targets.len() - index,
        {
            let document = targets[index].set_root();
            referenced_documents.push(
                ReferencedDocument { retrieval_location: document.clone(), given_location: document },
            );
            index += 1;
        }
        assert(referenced_documents.deep_view() =~= referenced_documents_of(targets.deep_view()));
        let root: Vec<String> = Vec::new();
        assert(root.deep_view() =~= Seq::<Seq<char>>::empty());
        let entries = read_node(&root, node);
        let mut node_locations: Vec<Location> = Vec::new();
        let mut index: usize = 0;
        while index < entries.len()
            invariant
                index <= entries.len(),
                node_locations.len() == index,
                entries.deep_view() == tree_entries(Seq::empty(), node@),
                forall|i: int|
                    0 <= i < index ==> (#[trigger] node_locations[i])@ == pushed(
                        configuration.retrieval_location@,
                        entries.deep_view()[i].pointer,
                    ),
            decreases entries.len() - index,
        {
            let entry = &entries[index];
            assert(entry.deep_view() == entries.deep_view()[index as int]);
            node_locations.push(
                configuration.retrieval_location.push_pointer(copy_pointer(&entry.pointer)),
            );
            index += 1;
        }
        assert(node_locations.deep_view() =~= all_node_locations(
            configuration.retrieval_location@,
            node@,
        ));
        let embedded_documents: Vec<EmbeddedDocument> = Vec::new();
        assert(embedded_documents.deep_view() =~= Seq::<SubDocumentView>::empty());
        Ok(
            LoadedDocument {
                factory: *self,
                document_location: configuration.retrieval_location,
                given_location: configuration.given_location,
                antecedent_location: configuration.antecedent_location,
                node_locations,
                embedded_documents,
                referenced_documents,
            },
        )
    }
}

impl DocumentContext {
    /// Gives the nodes at a list of locations to a document. Fails where one
    /// of them belongs to another document.
    fn claim_nodes(
        &mut self,
        locations: &Vec<Location>,
        document: &Location,
    ) -> (result: Result<(), DocumentError>)
        requires
            old(self).wf(),
        ensures
            final(self).wf(),
            final(self)@.cache == old(self)@.cache,
            match claimed_from(old(self)@.node_documents, locations.deep_view(), document@, 0) {
                Some(node_documents) => result is Ok && final(self)@ == (ContextView {
                    node_documents,
                    ..old(self)@
                }),
                None => result matches Err(error) && error == DocumentError::Conflict,
            },
    {
        let ghost start = self@;
        let mut index: usize = 0;
        while index < locations.len()
            invariant
                self.wf(),
                index <= locations.len(),
                start == old(self)@,
                self@ == (ContextView { node_documents: self@.node_documents, ..start }),
                claimed_from(start.node_documents, locations.deep_view(), document@, 0) == claimed_from(
                    self@.node_documents,
                    locations.deep_view(),
                    document@,
                    index as int,
                ),
            decreases locations.len() - index,
        {
            let location = &locations[index];
            assert(location@ == locations.deep_view()[index as int]);
            let ghost before = self@;
            let taken = match self.node_documents.get(location) {
                Some(owner) => *owner != *document,
                None => false,
            };
            if taken {
                return Err(DocumentError::Conflict);
            }
            self.node_documents.insert(location.clone(), document.clone());
            assert(self@.node_documents =~= before.node_documents.insert(location@, document@));
            assert(self@ =~= (ContextView { node_documents: self@.node_documents, ..start }));
            index += 1;
        }
        Ok(())
    }

    /// Puts the embedded documents of a document on the queue. Fails where
    /// the node of one of them is not cached.
    fn schedule_embedded(
        &mut self,
        embedded: &Vec<EmbeddedDocument>,
        antecedent: &Location,
        default_type: DocumentType,
    ) -> (result: Result<(), DocumentError>)
        requires
            old(self).wf(),
        ensures
            final(self).wf(),
            final(self)@.cache == old(self)@.cache,
            match scheduled_from(
                old(self)@.queue,
                old(self)@.cache,
                embedded.deep_view(),
                antecedent@,
                default_type,
                0,
            ) {
                Ok(queue) => result is Ok && final(self)@ == (ContextView { queue, ..old(self)@ }),
                Err(error) => result matches Err(raised) && raised == error,
            },
    {
        let ghost start = self@;
        let mut index: usize = 0;
        while index < embedded.len()
            invariant
                self.wf(),
                index <= embedded.len(),
                start == old(self)@,
                self@ == (ContextView { queue: self@.queue, ..start }),
                scheduled_from(
                    start.queue,
                    start.cache,
                    embedded.deep_view(),
                    antecedent@,
                    default_type,
                    0,
                ) == scheduled_from(
                    self@.queue,
                    start.cache,
                    embedded.deep_view(),
                    antecedent@,
                    default_type,
                    index as int,
                ),
            decreases embedded.len() - index,
        {
            let document = &embedded[index];
            assert(document.deep_view() == embedded.deep_view()[index as int]);
            let ghost before = self@;
            if !self.node_cache.contains(&document.retrieval_location) {
                return Err(DocumentError::NotFound);
            }
            self.queue.push(
                QueueItem {
                    retrieval_location: document.retrieval_location.clone(),
                    given_location: document.given_location.clone(),
                    antecedent_location: Some(antecedent.clone()),
                    default_type,
                },
            );
            assert(self@.queue =~= before.queue.push(
                item_for(document.deep_view(), antecedent@, default_type),
            ));
            assert(self@ =~= (ContextView { queue: self@.queue, ..start }));
            index += 1;
        }
        Ok(())
    }

    /// Lets the referenced documents of a document wait to be scheduled, the
    /// first of them to be scheduled first.
    fn defer_referenced(
        &mut self,
        referenced: &Vec<ReferencedDocument>,
        antecedent: &Location,
        default_type: DocumentType,
    )
        requires
            old(self).wf(),
            forall|i: int|
                0 <= i < referenced.len() ==> is_file(#[trigger] referenced.deep_view()[i]),
        ensures
            final(self).wf(),
            final(self)@ == (ContextView {
                pending: old(self)@.pending + pending_for(
                    referenced.deep_view(),
                    antecedent@,
                    default_type,
                ),
                ..old(self)@
            }),
    {
        let ghost start = self@;
        let ghost all = pending_for(referenced.deep_view(), antecedent@, default_type);
        let mut left: usize = referenced.len();
        assert(self@ =~= (ContextView { pending: start.pending + all.take(0), ..start }));
        while left > 0
            invariant
                self.wf(),
                left <= referenced.len(),
                start == old(self)@,
                all == pending_for(referenced.deep_view(), antecedent@, default_type),
                all.len() == referenced.len(),
                forall|i: int|
                    0 <= i < referenced.len() ==> is_file(#[trigger] referenced.deep_view()[i]),
                self@ == (ContextView {
                    pending: start.pending + all.take(referenced.len() - left),
                    ..start
                }),
            decreases left,
        {
            left = left - 1;
            let document = &referenced[left];
            assert(document.deep_view() == referenced.deep_view()[left as int]);
            let ghost before = self@;
            self.pending.push(
                QueueItem {
                    retrieval_location: document.retrieval_location.clone(),
                    given_location: document.given_location.clone(),
                    antecedent_location: Some(antecedent.clone()),
                    default_type,
                },
            );
            assert(all[referenced.len() - left - 1] == item_for(
                document.deep_view(),
                antecedent@,
                default_type,
            ));
            assert(all.take(referenced.len() - left) =~= all.take(referenced.len() - left - 1).push(
                all[referenced.len() - left - 1],
            ));
            assert(self@.pending =~= before.pending.push(
                item_for(document.deep_view(), antecedent@, default_type),
            ));
            assert(self@.pending =~= start.pending + all.take(referenced.len() - left));
            assert(self@ =~= (ContextView {
                pending: start.pending + all.take(referenced.len() - left),
                ..start
            }));
        }
        assert(all.take(referenced.len() as int) =~= all);
    }

    /// Loads one document whose nodes are cached: has it read, notes which
    /// nodes belong to it, and schedules the documents that it leads to.
    fn load_from_cache_with_queue(
        &mut self,
        item: QueueItem,
    ) -> (result: Result<(), DocumentError>)
        requires
            old(self).wf(),
        ensures
            final(self).wf(),
            final(self)@.cache == old(self)@.cache,
            match item_loaded(old(self)@, item.deep_view()) {
                Ok(state) => result is Ok && final(self)@ == state,
                Err(error) => result matches Err(raised) && raised == error,
            },
    {
        let ghost start = self@;
        if self.node_documents.contains_key(&item.retrieval_location) {
            return Ok(());
        }
        let factory = match self.node_cache.get_node(&item.retrieval_location) {
            None => {
                return Err(DocumentError::NotFound);
            },
            Some(node) => {
                let kind = match DocumentType::discriminate(node) {
                    Some(kind) => kind,
                    None => item.default_type,
                };
                match self.get_factory(kind) {
                    Some(factory) => factory,
                    None => {
                        return Err(DocumentError::NotFound);
                    },
                }
            },
        };
        let configuration = DocumentConfiguration {
            retrieval_location: item.retrieval_location.clone(),
            given_location: item.given_location.clone(),
            antecedent_location: copy_location(&item.antecedent_location),
        };
        assert(configuration.deep_view() == configuration_of(item.deep_view()));
        let record = match factory.create(&self.node_cache, configuration) {
            Ok(record) => record,
            Err(error) => {
                return Err(error);
            },
        };
        match self.document_resolved.get(&item.retrieval_location) {
            Some(previous) => {
                if *previous == record.document_location {
                    return Ok(());
                } else {
                    return Err(DocumentError::Conflict);
                }
            },
            None => {},
        }
        if self.documents.contains_key(&record.document_location) {
            return Err(DocumentError::Conflict);
        }
        match self.claim_nodes(&record.node_locations, &record.document_location) {
            Ok(()) => {},
            Err(error) => {
                return Err(error);
            },
        }
        match self.schedule_embedded(
            &record.embedded_documents,
            &record.document_location,
            item.default_type,
        ) {
            Ok(()) => {},
            Err(error) => {
                return Err(error);
            },
        }
        self.defer_referenced(&record.referenced_documents, &record.document_location, item.default_type);
        let ghost before = self@;
        let ghost view = record.deep_view();
        let document = record.document_location.clone();
        self.document_resolved.insert(item.retrieval_location, document.clone());
        self.documents.insert(document, record);
        proof {
            assert(self@.document_resolved =~= before.document_resolved.insert(
                item.retrieval_location@,
                view.document_location,
            ));
            assert(self@.documents =~= before.documents.insert(view.document_location, view));
            assert(self@ =~= item_loaded(start, item.deep_view())->Ok_0);
            old(self).lemma_sound();
            lemma_item_loaded(start, item.deep_view());
        }
        Ok(())
    }

    /// Loads the documents that are scheduled, and those that they lead to,
    /// until none is left or one has to be fetched.
    pub fn load_from_queue(&mut self) -> (result: Result<LoadAction, DocumentError>)
        requires
            old(self).wf(),
        ensures
            final(self).wf(),
            old(self)@.cache.submap_of(final(self)@.cache),
            match settled(old(self)@) {
                Ok(state) => result matches Ok(action) && final(self)@ == state && action.deep_view()
                    == action_of(state),
                Err(error) => result matches Err(raised) && raised == error,
            },
    {
        proof {
            old(self).lemma_sound();
        }
        loop
            invariant
                self.wf(),
                sound(self@),
                sound(old(self)@),
                settled(old(self)@) == settled(self@),
                self@.cache == old(self)@.cache,
            decreases unresolved(self@), backlog(self@),
        {
            let ghost before = self@;
            proof {
                lemma_advanced(before);
            }
            if self.pending.len() > 0 {
                let next = &self.pending[self.pending.len() - 1];
                assert(next.deep_view() == before.pending.last());
                if self.node_cache.contains(&next.retrieval_location) {
                    let item = self.pending.pop().unwrap();
                    self.queue.push(item);
                    proof {
                        assert(self@.pending =~= before.pending.drop_last());
                        assert(self@.queue =~= before.queue.push(before.pending.last()));
                        assert(self@ =~= advanced(before)->Ok_0->0);
                        self.lemma_sound();
                    }
                } else {
                    let address = next.retrieval_location.set_root().to_fetch_string();
                    return Ok(LoadAction::Fetch(address));
                }
            } else if self.queue.len() > 0 {
                let item = self.queue.pop().unwrap();
                proof {
                    assert(item.deep_view() == before.queue.last());
                    assert(self@.queue =~= before.queue.drop_last());
                    assert(self@ =~= (ContextView { queue: before.queue.drop_last(), ..before }));
                }
                match self.load_from_cache_with_queue(item) {
                    Ok(()) => {},
                    Err(error) => {
                        return Err(error);
                    },
                }
                proof {
                    self.lemma_sound();
                }
            } else {
                return Ok(LoadAction::Finished);
            }
        }
    }

    /// Loads the document at a location, and all documents that it leads
    /// to. The location has to be the root of a document.
    pub fn load_from_location(
        &mut self,
        retrieval_location: &Location,
        given_location: &Location,
        antecedent_location: Option<&Location>,
        default_type: DocumentType,
    ) -> (result: Result<LoadAction, DocumentError>)
        requires
            old(self).wf(),
        ensures
            final(self).wf(),
            old(self)@.cache.submap_of(final(self)@.cache),
            retrieval_location@.hash.len() > 0 ==> (result matches Err(error) && error
                == DocumentError::NotARoot && final(self)@ == old(self)@),
            retrieval_location@.hash.len() == 0 ==> (match settled(
                requested(
                    old(self)@,
                    ItemView {
                        retrieval_location: retrieval_location@,
                        given_location: given_location@,
                        antecedent_location: antecedent_location.deep_view(),
                        default_type,
                    },
                ),
            ) {
                Ok(state) => result matches Ok(action) && final(self)@ == state && action.deep_view()
                    == action_of(state),
                Err(error) => result matches Err(raised) && raised == error,
            }),
    {
        if !retrieval_location.is_root() {
            return Err(DocumentError::NotARoot);
        }
        let antecedent = match antecedent_location {
            Some(location) => Some(location.clone()),
            None => None,
        };
        let ghost before = self@;
        self.pending.push(
            QueueItem {
                retrieval_location: retrieval_location.clone(),
                given_location: given_location.clone(),
                antecedent_location: antecedent,
                default_type,
            },
        );
        proof {
            let item = ItemView {
                retrieval_location: retrieval_location@,
                given_location: given_location@,
                antecedent_location: antecedent_location.deep_view(),
                default_type,
            };
            assert(self@.pending =~= before.pending.push(item));
            assert(self@ =~= requested(before, item));
        }
        self.load_from_queue()
    }

    /// Loads a document from its tree, and all documents that it leads to.
    /// The location need not be a root. Where the location is cached
    /// already, the cached tree is kept and the tree that is handed in is
    /// left aside.
    pub fn load_from_node(
        &mut self,
        retrieval_location: &Location,
        given_location: &Location,
        antecedent_location: Option<&Location>,
        node: Node,
        default_type: DocumentType,
    ) -> (result: Result<LoadAction, DocumentError>)
        requires
            old(self).wf(),
        ensures
            final(self).wf(),
            old(self)@.cache.submap_of(final(self)@.cache),
            match handed_in(
                old(self)@,
                ItemView {
                    retrieval_location: retrieval_location@,
                    given_location: given_location@,
                    antecedent_location: antecedent_location.deep_view(),
                    default_type,
                },
                node@,
            ) {
                Err(error) => result matches Err(raised) && raised == error,
                Ok(scheduled) => match settled(scheduled) {
                    Ok(state) => result matches Ok(action) && final(self)@ == state
                        && action.deep_view() == action_of(state),
                    Err(error) => result matches Err(raised) && raised == error,
                },
            },
    {
        let ghost before = self@;
        if !self.node_cache.contains(retrieval_location) {
            match self.node_cache.fill_node_cache(retrieval_location, &node) {
                Ok(()) => {},
                Err(error) => {
                    return Err(error);
                },
            }
        }
        let antecedent = match antecedent_location {
            Some(location) => Some(location.clone()),
            None => None,
        };
        self.queue.push(
            QueueItem {
                retrieval_location: retrieval_location.clone(),
                given_location: given_location.clone(),
                antecedent_location: antecedent,
                default_type,
            },
        );
        proof {
            let item = ItemView {
                retrieval_location: retrieval_location@,
                given_location: given_location@,
                antecedent_location: antecedent_location.deep_view(),
                default_type,
            };
            assert(self@.queue =~= before.queue.push(item));
            assert(self@ =~= handed_in(before, item, node@)->Ok_0);
        }
        let ghost filled = self@.cache;
        let result = self.load_from_queue();
        proof {
            vstd::map_lib::lemma_submap_of_trans(before.cache, filled, self@.cache);
        }
        result
    }

    /// Takes the text of the document that loading waits for, and goes on
    /// loading. Fails with `NotFound` where loading waits for nothing.
    pub fn load_fetched(&mut self, text: &str) -> (result: Result<LoadAction, DocumentError>)
        requires
            old(self).wf(),
        ensures
            final(self).wf(),
            old(self)@.cache.submap_of(final(self)@.cache),
            match fetched(old(self)@, text@) {
                Err(error) => result matches Err(raised) && raised == error,
                Ok(scheduled) => match settled(scheduled) {
                    Ok(state) => result matches Ok(action) && final(self)@ == state
                        && action.deep_view() == action_of(state),
                    Err(error) => result matches Err(raised) && raised == error,
                },
            },
    {
        let ghost before = self@;
        if self.pending.len() == 0 {
            return Err(DocumentError::NotFound);
        }
        let node = match parse_document(text) {
            Ok(node) => node,
            Err(error) => {
                return Err(error);
            },
        };
        let item = self.pending.pop().unwrap();
        assert(item.deep_view() == before.pending.last());
        assert(self@.pending =~= before.pending.drop_last());
        if !self.node_cache.contains(&item.retrieval_location) {
            let document_location = item.retrieval_location.set_root();
            match self.node_cache.fill_node_cache(&document_location, &node) {
                Ok(()) => {},
                Err(error) => {
                    return Err(error);
                },
            }
        }
        self.queue.push(item);
        proof {
            assert(self@.queue =~= before.queue.push(before.pending.last()));
            assert(self@ =~= fetched(before, text@)->Ok_0);
        }
        let ghost filled = self@.cache;
        let result = self.load_from_queue();
        proof {
            vstd::map_lib::lemma_submap_of_trans(before.cache, filled, self@.cache);
        }
        result
    }
}

/// Whether one reference of a cached document leads to a document that is
/// cached as well. It does where there is no such reference.
pub open spec fn leads_to_cached(cache: CacheView, location: LocationView, index: int) -> bool {
    cache.contains_key(location) && api_references(location, cache[location]) is Ok && 0 <= index
        < api_references(location, cache[location])->Ok_0.len() ==> cache.contains_key(
        rooted(api_references(location, cache[location])->Ok_0[index]),
    )
}

/// Whether the cache holds every document that one of its documents refers
/// to.
pub open spec fn self_contained(cache: CacheView) -> bool {
    forall|location: LocationView, index: int| #[trigger] leads_to_cached(cache, location, index)
}

/// Whether the nodes of all documents that wait to be scheduled are cached.
pub open spec fn pending_cached(state: ContextView) -> bool {
    forall|i: int|
        0 <= i < state.pending.len() ==> state.cache.contains_key(
            #[trigger] state.pending[i].retrieval_location,
        )
}

/// In a cache that holds every document that is referred to, loading a
/// document leaves nothing to be fetched.
pub proof fn lemma_item_loaded_cached(state: ContextView, item: ItemView)
    requires
        self_contained(state.cache),
        pending_cached(state),
    ensures
        item_loaded(state, item) matches Ok(next) ==> pending_cached(next),
{
    if item_loaded(state, item) is Ok {
        let next = item_loaded(state, item)->Ok_0;
        if next != state {
            let kind = kind_of(state.cache[item.retrieval_location], item.default_type);
            let factory = state.factories[kind];
            let record = record_of(state.cache, factory, configuration_of(item))->Ok_0;
            let added = pending_for(
                record.referenced_documents,
                record.document_location,
                item.default_type,
            );
            assert forall|i: int| 0 <= i < next.pending.len() implies next.cache.contains_key(
                #[trigger] next.pending[i].retrieval_location,
            ) by {
                if i < state.pending.len() {
                    assert(next.pending[i] == state.pending[i]);
                } else {
                    let k = i - state.pending.len();
                    let j = added.len() - 1 - k;
                    assert(next.pending[i] == added[k]);
                    assert(factory == DocumentFactory::Oas30);
                    assert(leads_to_cached(state.cache, item.retrieval_location, j));
                }
            }
        }
    }
}

/// Where the cache holds every document that is referred to, loading comes
/// to rest with all documents loaded: it never waits for a document to be
/// fetched.
pub proof fn lemma_settled_without_fetch(state: ContextView)
    requires
        sound(state),
        self_contained(state.cache),
        pending_cached(state),
    ensures
        settled(state) matches Ok(rest) ==> rest.pending.len() == 0 && rest.queue.len() == 0
            && rest.cache == state.cache && action_of(rest) == ActionView::Finished,
    decreases unresolved(state), backlog(state),
{
    lemma_advanced(state);
    if advanced(state) is Ok && advanced(state)->Ok_0 is Some {
        let next = advanced(state)->Ok_0->0;
        if state.pending.len() > 0 {
            assert forall|i: int| 0 <= i < next.pending.len() implies next.cache.contains_key(
                #[trigger] next.pending[i].retrieval_location,
            ) by {
                assert(next.pending[i] == state.pending[i]);
            }
        } else {
            let popped = ContextView { queue: state.queue.drop_last(), ..state };
            lemma_item_loaded(popped, state.queue.last());
            lemma_item_loaded_cached(popped, state.queue.last());
        }
        lemma_settled_without_fetch(next);
    } else if advanced(state) is Ok {
        if state.pending.len() > 0 {
            assert(state.cache.contains_key(state.pending[state.pending.len() - 1].retrieval_location));
        }
    }
}

/// A document is loaded once: when the document at the root of a file was
/// loaded, to load that location again, from whatever place it was referred
/// to, changes nothing. It adds no document, and it schedules nothing.
pub proof fn lemma_loaded_once(state: ContextView, item: ItemView, again: ItemView)
    requires
        sound(state),
        item.retrieval_location.hash.len() == 0,
        again.retrieval_location == item.retrieval_location,
        item_loaded(state, item) is Ok,
    ensures
        item_loaded(item_loaded(state, item)->Ok_0, again) == item_loaded(state, item),
{
    lemma_item_loaded(state, item);
}

/// A session stays sound when the text of a document comes in.
pub proof fn lemma_fetched_sound(state: ContextView, text: Seq<char>)
    requires
        sound(state),
    ensures
        fetched(state, text) matches Ok(scheduled) ==> sound(scheduled),
{
    if fetched(state, text) is Ok {
        let scheduled = fetched(state, text)->Ok_0;
        if scheduled.cache != state.cache {
            let node = parsed_document(text)->0;
            let base = rooted(state.pending.last().retrieval_location);
            let entries = tree_entries(Seq::empty(), node);
            lemma_offered_all_finite(state.cache, base, entries, entries.len());
            lemma_offered_all_keeps(state.cache, base, entries, entries.len());
            assert forall|location: LocationView| #[trigger]
                state.document_resolved.dom().contains(location) implies scheduled.cache.dom().contains(
                location,
            ) by {
                assert(state.cache.dom().contains(location));
            }
        }
    }
}

/// A document whose references all lead into itself is fetched once: when
/// its text came in, and with it every document that is referred to, loading
/// goes on to the end without asking for another document.
pub proof fn lemma_one_fetch(state: ContextView, text: Seq<char>)
    requires
        sound(state),
        state.pending.len() == 1,
        fetched(state, text) is Ok,
        self_contained(fetched(state, text)->Ok_0.cache),
    ensures
        settled(fetched(state, text)->Ok_0) matches Ok(rest) ==> action_of(rest)
            == ActionView::Finished,
{
    let scheduled = fetched(state, text)->Ok_0;
    lemma_fetched_sound(state, text);
    assert(scheduled.pending =~= Seq::<ItemView>::empty());
    lemma_settled_without_fetch(scheduled);
}

/// What was fetched is not fetched again: when the text of the document
/// that was waited for came in, the location that was asked for is cached.
pub proof fn lemma_fetched_is_cached(state: ContextView, text: Seq<char>)
    requires
        sound(state),
    ensures
        fetched(state, text) matches Ok(scheduled) ==> scheduled.cache.contains_key(
            state.pending.last().retrieval_location,
        ),
{
    if fetched(state, text) is Ok {
        let scheduled = fetched(state, text)->Ok_0;
        let location = state.pending.last().retrieval_location;
        if !state.cache.contains_key(location) {
            let node = parsed_document(text)->0;
            let entries = tree_entries(Seq::empty(), node);
            assert(location == state.pending[state.pending.len() - 1].retrieval_location);
            assert(rooted(location) == location);
            assert(entries[0].pointer == Seq::<Seq<char>>::empty());
            super::node_location::lemma_pushed_nothing(location);
            lemma_offered_all_holds(state.cache, location, entries, entries.len(), 0);
        }
    }
}

} // verus!
