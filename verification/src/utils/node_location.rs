//! Locations of nodes: the address of a document and a pointer into it.
//!
//! The locations themselves are those of `jns42_core`. That crate keeps the
//! fields of a location to itself, so this module names the parts of a
//! location and states, method by method, what `jns42_core` does to them.
//! Nothing in this file is proved of `jns42_core`: the functions whose name
//! begins with `inner_` are believed as they stand.
use crate::error::DocumentError;
use vstd::prelude::*;

verus! {

/// The location type of `jns42_core`, carried around as it is.
#[verifier::external_type_specification]
#[verifier::external_body]
pub struct ExLocation(jns42_core::utils::NodeLocation);

/// The error that `jns42_core` gives for a string that is no location.
#[verifier::external_type_specification]
#[verifier::external_body]
pub struct ExParseLocationError(jns42_core::utils::ParseLocationError);

/// The four parts that a location is made of.
#[verifier::ext_equal]
pub struct LocationView {
    /// Scheme and authority; empty for a relative location.
    pub origin: Seq<char>,
    /// The decoded segments of the path.
    pub path: Seq<Seq<char>>,
    /// The query with its question mark, or empty.
    pub query: Seq<char>,
    /// The anchor, followed by the segments of the pointer; empty for a root.
    pub hash: Seq<Seq<char>>,
}

/// The parts of a location of `jns42_core`: its four private fields.
pub uninterp spec fn location_parts(location: jns42_core::utils::NodeLocation) -> LocationView;

/// What `jns42_core` makes of a string: the parts of the location that it
/// reads from it, or `None` where it refuses the string.
pub uninterp spec fn parsed_location(input: Seq<char>) -> Option<LocationView>;

/// The path that `jns42_core` keeps for a list of segments, with the dots and
/// empty segments resolved.
pub uninterp spec fn normalized_path(path: Seq<Seq<char>>) -> Seq<Seq<char>>;

/// The address under which a document is fetched: origin, encoded path and
/// query, as `jns42_core` writes them.
pub uninterp spec fn fetch_address(
    origin: Seq<char>,
    path: Seq<Seq<char>>,
    query: Seq<char>,
) -> Seq<char>;

/// The string form of a location, as `jns42_core` writes it.
pub uninterp spec fn location_text(location: LocationView) -> Seq<char>;

/// The pointer that a hash holds: what follows the anchor.
pub open spec fn pointer_of(hash: Seq<Seq<char>>) -> Seq<Seq<char>> {
    if hash.len() > 1 {
        hash.skip(1)
    } else {
        Seq::empty()
    }
}

/// The hash that is kept for a list of segments: empty segments after the
/// first are dropped, and a hash that then ends in an empty segment is the
/// empty hash.
pub open spec fn normalized_hash(hash: Seq<Seq<char>>) -> Seq<Seq<char>> {
    if hash.len() == 0 {
        hash
    } else {
        let kept = hash.take(1) + hash.skip(1).filter(|s: Seq<char>| s.len() > 0);
        if kept.last().len() == 0 {
            Seq::empty()
        } else {
            kept
        }
    }
}

/// The location of the document that a location lies in.
pub open spec fn rooted(location: LocationView) -> LocationView {
    LocationView { hash: Seq::empty(), ..location }
}

/// The location that lies `pointer` below a location.
pub open spec fn pushed(location: LocationView, pointer: Seq<Seq<char>>) -> LocationView {
    LocationView {
        hash: normalized_hash(seq![Seq::<char>::empty()] + pointer_of(location.hash) + pointer),
        ..location
    }
}

/// Whether a reference can be resolved against a base: a relative path needs
/// a base path whose last segment it replaces.
pub open spec fn joinable(base: LocationView, other: LocationView) -> bool {
    ||| other.origin.len() > 0
    ||| other.path.len() == 0
    ||| other.path[0].len() == 0
    ||| base.path.len() > 0
}

/// Whether a reference can be read at a base by looking at the two paths
/// alone: the base has a path, or the reference has none or one that starts
/// at the top.
pub open spec fn resolvable(base: LocationView, other: LocationView) -> bool {
    ||| base.path.len() > 0
    ||| other.path.len() == 0
    ||| other.path[0].len() == 0
}

/// The path of a reference read at a base, before it is normalized: that of
/// the reference where it starts at the top, the base's path with its last
/// segment replaced where the reference is relative, else the base's path.
pub open spec fn joined_path(base: LocationView, other: LocationView) -> Seq<Seq<char>> {
    if other.path.len() == 0 {
        base.path
    } else if other.path[0].len() == 0 {
        other.path
    } else {
        base.path.take(base.path.len() - 1) + other.path
    }
}

/// The query of a reference read at a base: that of the base only where the
/// reference has neither path nor query.
pub open spec fn joined_query(base: LocationView, other: LocationView) -> Seq<char> {
    if other.path.len() == 0 && other.query.len() == 0 {
        base.query
    } else {
        other.query
    }
}

/// The location that a reference names when it is read at a base.
pub open spec fn joined(base: LocationView, other: LocationView) -> LocationView {
    if other.origin.len() > 0 {
        other
    } else {
        LocationView {
            origin: base.origin,
            path: normalized_path(joined_path(base, other)),
            query: joined_query(base, other),
            hash: normalized_hash(other.hash),
        }
    }
}

/// `NodeLocation::_parse` of `jns42_core`: the location that a string
/// denotes. The result is a function of the string alone.
#[verifier::external_body]
fn inner_parse(
    input: &str,
) -> (result: Result<jns42_core::utils::NodeLocation, jns42_core::utils::ParseLocationError>)
    ensures
        match result {
            Ok(location) => parsed_location(input@) == Some(location_parts(location)),
            Err(_) => parsed_location(input@) is None,
        },
{
    jns42_core::utils::NodeLocation::_parse(input)
}

/// `Clone::clone` of `jns42_core`'s location: a location of the same parts.
#[verifier::external_body]
fn inner_clone(
    location: &jns42_core::utils::NodeLocation,
) -> (copy: jns42_core::utils::NodeLocation)
    ensures
        location_parts(copy) == location_parts(*location),
{
    location.clone()
}

/// `==` of `jns42_core`'s location, which it derives: all four parts agree.
#[verifier::external_body]
fn inner_eq(
    left: &jns42_core::utils::NodeLocation,
    right: &jns42_core::utils::NodeLocation,
) -> (same: bool)
    ensures
        same == (location_parts(*left) == location_parts(*right)),
{
    left == right
}

/// `NodeLocation::is_root` of `jns42_core`: whether the hash is empty.
#[verifier::external_body]
fn inner_is_root(location: &jns42_core::utils::NodeLocation) -> (root: bool)
    ensures
        root == (location_parts(*location).hash.len() == 0),
{
    location.is_root()
}

/// `NodeLocation::set_root` of `jns42_core`: the same location with an empty
/// hash.
#[verifier::external_body]
fn inner_set_root(
    location: &jns42_core::utils::NodeLocation,
) -> (root: jns42_core::utils::NodeLocation)
    ensures
        location_parts(root) == rooted(location_parts(*location)),
{
    location.set_root()
}

/// `NodeLocation::push_pointer` of `jns42_core`: the segments are appended to
/// the pointer, the anchor is dropped, and the hash is normalized.
#[verifier::external_body]
fn inner_push_pointer(
    location: &jns42_core::utils::NodeLocation,
    value: Vec<String>,
) -> (below: jns42_core::utils::NodeLocation)
    ensures
        location_parts(below) == pushed(location_parts(*location), value.deep_view()),
{
    location.push_pointer(value)
}

/// `NodeLocation::join` of `jns42_core`. A reference with an origin is
/// returned as it is; otherwise the origin of the base is kept, and the path
/// and query of the base give way to those of the reference where it has
/// them. Where the reference has a relative path and the base has no path at
/// all, `jns42_core` subtracts from zero: that input is left out.
#[verifier::external_body]
fn inner_join(
    base: &jns42_core::utils::NodeLocation,
    other: &jns42_core::utils::NodeLocation,
) -> (target: jns42_core::utils::NodeLocation)
    requires
        joinable(location_parts(*base), location_parts(*other)),
    ensures
        location_parts(*other).origin.len() > 0 ==> location_parts(target) == location_parts(*other),
        location_parts(*other).origin.len() == 0 ==> location_parts(target) == (LocationView {
            origin: location_parts(*base).origin,
            path: normalized_path(joined_path(location_parts(*base), location_parts(*other))),
            query: joined_query(location_parts(*base), location_parts(*other)),
            hash: normalized_hash(location_parts(*other).hash),
        }),
{
    base.join(other)
}

/// `NodeLocation::get_path` of `jns42_core`: a copy of the path.
#[verifier::external_body]
fn inner_get_path(location: &jns42_core::utils::NodeLocation) -> (path: Vec<String>)
    ensures
        path.deep_view() == location_parts(*location).path,
{
    location.get_path()
}

/// `NodeLocation::get_hash` of `jns42_core`: a copy of the hash.
#[verifier::external_body]
fn inner_get_hash(location: &jns42_core::utils::NodeLocation) -> (hash: Vec<String>)
    ensures
        hash.deep_view() == location_parts(*location).hash,
{
    location.get_hash()
}

/// `NodeLocation::to_fetch_string` of `jns42_core`: origin, path and query,
/// without the hash.
#[verifier::external_body]
fn inner_to_fetch_string(location: &jns42_core::utils::NodeLocation) -> (address: String)
    ensures
        address@ == fetch_address(
            location_parts(*location).origin,
            location_parts(*location).path,
            location_parts(*location).query,
        ),
{
    location.to_fetch_string()
}

/// `NodeLocation::_to_string` of `jns42_core`: the string form, which is a
/// function of the four parts.
#[verifier::external_body]
fn inner_to_string(location: &jns42_core::utils::NodeLocation) -> (text: String)
    ensures
        text@ == location_text(location_parts(*location)),
{
    location._to_string()
}

/// A position in a document: the address of the file and a pointer into it.
#[derive(Debug)]
pub struct Location {
    inner: jns42_core::utils::NodeLocation,
}

impl View for Location {
    type V = LocationView;

    closed spec fn view(&self) -> LocationView {
        location_parts(self.inner)
    }
}

impl DeepView for Location {
    type V = LocationView;

    open spec fn deep_view(&self) -> LocationView {
        self@
    }
}

impl Clone for Location {
    fn clone(&self) -> (copy: Self)
        ensures
            copy@ == self@,
    {
        Location { inner: inner_clone(&self.inner) }
    }
}

impl PartialEq for Location {
    fn eq(&self, other: &Self) -> (same: bool) {
        inner_eq(&self.inner, &other.inner)
    }
}

impl Eq for Location {
}

impl vstd::std_specs::cmp::PartialEqSpecImpl for Location {
    open spec fn obeys_eq_spec() -> bool {
        true
    }

    open spec fn eq_spec(&self, other: &Self) -> bool {
        self@ == other@
    }
}

impl Location {
    /// Reads a location from its string form.
    pub fn parse(input: &str) -> (result: Result<Location, DocumentError>)
        ensures
            match parsed_location(input@) {
                Some(parts) => result matches Ok(location) && location@ == parts,
                None => result matches Err(error) && error == DocumentError::InvalidReference,
            },
    {
        match inner_parse(input) {
            Ok(inner) => Ok(Location { inner }),
            Err(_) => Err(DocumentError::InvalidReference),
        }
    }

    /// Whether this location names a whole document: it has neither anchor
    /// nor pointer.
    pub fn is_root(&self) -> (root: bool)
        ensures
            root == (self@.hash.len() == 0),
    {
        inner_is_root(&self.inner)
    }

    /// The location of the document that this location lies in.
    pub fn set_root(&self) -> (root: Location)
        ensures
            root@ == rooted(self@),
    {
        Location { inner: inner_set_root(&self.inner) }
    }

    /// The location that lies `value` below this one.
    pub fn push_pointer(&self, value: Vec<String>) -> (below: Location)
        ensures
            below@ == pushed(self@, value.deep_view()),
    {
        Location { inner: inner_push_pointer(&self.inner, value) }
    }

    /// The location that the reference `other` names when it is read here.
    pub fn join(&self, other: &Location) -> (target: Location)
        requires
            joinable(self@, other@),
        ensures
            target@ == joined(self@, other@),
    {
        Location { inner: inner_join(&self.inner, &other.inner) }
    }

    /// The location that the reference `other` names when it is read here,
    /// or `None` for a reference with a relative path where this location has
    /// no path to replace the end of.
    pub fn try_join(&self, other: &Location) -> (target: Option<Location>)
        ensures
            target is Some <==> resolvable(self@, other@),
            target matches Some(target) ==> target@ == joined(self@, other@),
    {
        let base_path = inner_get_path(&self.inner);
        let other_path = inner_get_path(&other.inner);
        assert(base_path.deep_view().len() == base_path.len());
        assert(other_path.deep_view().len() == other_path.len());
        if base_path.len() > 0 || other_path.len() == 0 {
            Some(self.join(other))
        } else {
            assert(other_path.deep_view()[0] == other_path[0]@);
            if other_path[0].as_str().unicode_len() == 0 {
                Some(self.join(other))
            } else {
                None
            }
        }
    }

    /// The segments of the path.
    pub fn get_path(&self) -> (path: Vec<String>)
        ensures
            path.deep_view() == self@.path,
    {
        inner_get_path(&self.inner)
    }

    /// The anchor and the segments of the pointer.
    pub fn get_hash(&self) -> (hash: Vec<String>)
        ensures
            hash.deep_view() == self@.hash,
    {
        inner_get_hash(&self.inner)
    }

    /// The address under which the document of this location is fetched.
    pub fn to_fetch_string(&self) -> (address: String)
        ensures
            address@ == fetch_address(self@.origin, self@.path, self@.query),
    {
        inner_to_fetch_string(&self.inner)
    }

    /// The string form of this location.
    pub fn to_string(&self) -> (text: String)
        ensures
            text@ == location_text(self@),
    {
        inner_to_string(&self.inner)
    }
}

/// The document of a location is the document of every location below it:
/// to push a pointer changes the hash alone, and the root has none.
pub proof fn lemma_root_of_pushed(location: LocationView, pointer: Seq<Seq<char>>)
    ensures
        rooted(pushed(location, pointer)) == rooted(location),
        rooted(rooted(location)) == rooted(location),
{
}

/// A root with an empty pointer pushed onto it is the root itself.
pub proof fn lemma_pushed_nothing(location: LocationView)
    requires
        location.hash.len() == 0,
    ensures
        pushed(location, Seq::empty()) == location,
{
    let hash = seq![Seq::<char>::empty()] + pointer_of(location.hash) + Seq::<Seq<char>>::empty();
    assert(hash =~= seq![Seq::<char>::empty()]);
    assert(hash.skip(1) =~= Seq::<Seq<char>>::empty());
    assert(hash.skip(1).filter(|s: Seq<char>| s.len() > 0) =~= Seq::<Seq<char>>::empty()) by {
        reveal(Seq::filter);
    }
    assert(hash.take(1) + hash.skip(1).filter(|s: Seq<char>| s.len() > 0) =~= hash);
    assert(pushed(location, Seq::empty()).hash =~= location.hash);
}

/// A reference with an origin names the same location wherever it is read.
pub proof fn lemma_join_absolute(base: LocationView, other: LocationView)
    requires
        other.origin.len() > 0,
    ensures
        joined(base, other) == other,
{
}

/// What a reference names at a base that has an origin is named by itself
/// again: the absolute form of a reference leads where the reference leads.
pub proof fn lemma_join_twice(base: LocationView, other: LocationView)
    requires
        base.origin.len() > 0 || other.origin.len() > 0,
    ensures
        joined(base, joined(base, other)) == joined(base, other),
{
}

/// Two references name the same location at a base where one of them is
/// absolute and spells out what the other one, read at the base, leads to.
pub proof fn lemma_equivalent_references(
    base: LocationView,
    absolute: Seq<char>,
    relative: Seq<char>,
)
    requires
        parsed_location(absolute) is Some,
        parsed_location(relative) is Some,
        parsed_location(absolute)->0.origin.len() > 0,
        parsed_location(absolute)->0 == joined(base, parsed_location(relative)->0),
    ensures
        joined(base, parsed_location(absolute)->0) == joined(base, parsed_location(relative)->0),
{
}

} // verus!
