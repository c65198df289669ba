//! A typed map storing runtime validation contexts.
//!
//! Users build one registry at startup and register it as a component;
//! validation extractors look up a context by its type at request time.
//! The view is the set of context types held; what a lookup of a type gives
//! is stated through [`ValidationContextRegistry::lookup_gives`]: after an
//! insert of a value of type `C`, a lookup of `C` gives that value.

use vstd::prelude::*;
use axum::http::Extensions;
use std::any::TypeId;

verus! {

#[verifier::external_type_specification]
#[verifier::external_body]
pub struct ExTypeId(TypeId);

#[verifier::external_type_specification]
#[verifier::external_body]
pub struct ExExtensions(Extensions);

/// What an `http::Extensions` type map holds: the `TypeId`s of the types
/// whose values it stores.
pub uninterp spec fn extension_types(e: Extensions) -> Set<TypeId>;

/// Calls `Extensions::new`, an empty type map.
#[verifier::external_body]
fn extensions_new() -> (e: Extensions)
    ensures
        extension_types(e) == Set::<TypeId>::empty(),
{
    Extensions::new()
}

/// Calls `Extensions::insert`, which stores `value` under the `TypeId` of
/// `C`, replacing and returning a value of that type stored before: the map
/// then holds one type more, or the same types when one was replaced, and a
/// lookup of `C` in it gives `value`.
#[verifier::external_body]
fn extensions_insert<C: Clone + Send + Sync + 'static>(e: &mut Extensions, value: C) -> (r: Option<C>)
    ensures
        exists|k: TypeId| extension_types(*final(e)) == extension_types(*old(e)).insert(k),
        r is Some ==> extension_types(*final(e)) == extension_types(*old(e)),
        forall|g: Option<&C>|
            call_ensures(extensions_get::<C>, (&*final(e),), g) ==> g == Some(&value),
{
    e.insert(value)
}

/// Calls `Extensions::get`, the value stored for the type `C`. A value is
/// found only when some type is held.
#[verifier::external_body]
fn extensions_get<C: Send + Sync + 'static>(e: &Extensions) -> (r: Option<&C>)
    ensures
        r is Some ==> exists|k: TypeId| extension_types(*e).contains(k),
{
    e.get::<C>()
}

/// Calls `Extensions::clone`, which clones every stored value: the copy
/// holds the same types.
#[verifier::external_body]
fn extensions_clone(e: &Extensions) -> (r: Extensions)
    ensures
        extension_types(r) == extension_types(*e),
{
    e.clone()
}

/// A typed map that stores runtime validation context instances.
///
/// Built once at startup, then read-only at request time. Because components
/// are cloned when extracted, the registry is cloneable; a clone holds its
/// own copy of each stored value.
pub struct ValidationContextRegistry {
    map: Extensions,
}

impl View for ValidationContextRegistry {
    type V = Set<TypeId>;

    /// The types of the contexts held.
    closed spec fn view(&self) -> Set<TypeId> {
        extension_types(self.map)
    }
}

impl ValidationContextRegistry {
    /// Whether `g` is what a lookup of the context of type `C` gives.
    pub closed spec fn lookup_gives<C: Send + Sync + 'static>(&self, g: Option<&C>) -> bool {
        call_ensures(extensions_get::<C>, (&self.map,), g)
    }

    /// An empty registry.
    pub fn new() -> (r: ValidationContextRegistry)
        ensures
            r@ == Set::<TypeId>::empty(),
    {
        ValidationContextRegistry { map: extensions_new() }
    }

    /// Inserts a typed context value, replacing any earlier one of the same
    /// type: one type is added to those held, or none when it was held, and
    /// a lookup of `C` then gives `context`.
    pub fn insert<C: Clone + Send + Sync + 'static>(&mut self, context: C)
        ensures
            exists|k: TypeId| final(self)@ == old(self)@.insert(k),
            forall|g: Option<&C>| final(self).lookup_gives(g) ==> g == Some(&context),
    {
        let _previous = extensions_insert(&mut self.map, context);
        proof {
            let k = choose|k: TypeId|
                extension_types(self.map) == extension_types(old(self).map).insert(k);
            assert(self@ == old(self)@.insert(k));
        }
    }

    /// A reference to the context of type `C`, if one was inserted: what a
    /// lookup of `C` gives. An empty registry has none.
    pub fn get<C: Send + Sync + 'static>(&self) -> (r: Option<&C>)
        ensures
            self.lookup_gives(r),
            r is Some ==> exists|k: TypeId| self@.contains(k),
    {
        let r = extensions_get::<C>(&self.map);
        proof {
            if r is Some {
                let k = choose|k: TypeId| extension_types(self.map).contains(k);
                assert(self@.contains(k));
            }
        }
        r
    }

    /// Whether a context of type `C` is registered: whether a lookup of `C`
    /// finds one. An empty registry has none.
    pub fn contains<C: Send + Sync + 'static>(&self) -> (r: bool)
        ensures
            exists|g: Option<&C>| self.lookup_gives(g) && (r <==> g is Some),
            r ==> exists|k: TypeId| self@.contains(k),
    {
        let found = extensions_get::<C>(&self.map);
        proof {
            assert(self.lookup_gives(found));
            if found is Some {
                let k = choose|k: TypeId| extension_types(self.map).contains(k);
                assert(self@.contains(k));
            }
        }
        found.is_some()
    }
}

impl Clone for ValidationContextRegistry {
    /// A registry holding the same contexts.
    fn clone(&self) -> (r: ValidationContextRegistry)
        ensures
            r@ == self@,
    {
        ValidationContextRegistry { map: extensions_clone(&self.map) }
    }
}

impl Default for ValidationContextRegistry {
    /// An empty registry.
    fn default() -> (r: ValidationContextRegistry)
        ensures
            r@ == Set::<TypeId>::empty(),
    {
        Self::new()
    }
}

} // verus!
