//! Typed route handlers and their collection into routers bucketed by group.

use vstd::prelude::*;
use axum::Router;
use crate::text::{owned, str_eq};

verus! {

#[verifier::external_type_specification]
#[verifier::external_body]
#[verifier::reject_recursive_types(S)]
pub struct ExRouter<S>(axum::Router<S>);

/// Group name used by hand-written registrars that don't override
/// [`TypedHandlerRegistrar::group`].
pub const DEFAULT_GROUP: &'static str = "default";

/// Configures a route handler marked by the routing macros.
pub trait TypedHandlerRegistrar: Send + Sync + 'static {
    /// Installs the handler's route into `router`.
    fn install_route(&self, router: Router) -> Router;

    /// The route group this handler belongs to; hand-written registrars are
    /// in [`DEFAULT_GROUP`] unless they say otherwise.
    fn group(&self) -> (r: &'static str)
        default_ensures
            r@ == DEFAULT_GROUP@,
    {
        DEFAULT_GROUP
    }
}

/// Adds typed routes marked with the routing macros.
pub trait TypeRouter {
    /// Adds the route that `factory` installs.
    fn typed_route<F: TypedHandlerRegistrar>(self, factory: F) -> Self;
}

impl TypeRouter for Router {
    fn typed_route<F: TypedHandlerRegistrar>(self, factory: F) -> (r: Self)
        ensures
            call_ensures(F::install_route, (&factory, self), r),
    {
        let install = F::install_route;
        install(&factory, self)
    }
}

/// The paths a router has routes for.
pub uninterp spec fn router_paths(router: Router) -> Set<Seq<char>>;

/// Calls `axum::Router::new`, a router with no routes: it holds no path.
#[verifier::external_body]
fn new_router() -> (r: Router)
    ensures
        router_paths(r) == Set::<Seq<char>>::empty(),
{
    Router::new()
}

/// The groups of a list of `(group, router)` entries, later entries winning.
pub open spec fn group_map(entries: Seq<(String, Router)>) -> Map<Seq<char>, Router>
    decreases entries.len(),
{
    if entries.len() == 0 {
        Map::empty()
    } else {
        group_map(entries.drop_last()).insert(entries.last().0@, entries.last().1)
    }
}

/// No group name occurs twice.
pub open spec fn distinct_groups(entries: Seq<(String, Router)>) -> bool {
    forall|i: int, j: int|
        0 <= i < entries.len() && 0 <= j < entries.len() && i != j ==> (#[trigger] entries[i]).0@
            != (#[trigger] entries[j]).0@
}

proof fn lemma_group_map_lookup(entries: Seq<(String, Router)>)
    requires
        distinct_groups(entries),
    ensures
        forall|k: Seq<char>|
            #[trigger] group_map(entries).dom().contains(k) <==> exists|i: int|
                0 <= i < entries.len() && entries[i].0@ == k,
        forall|i: int|
            0 <= i < entries.len() ==> group_map(entries)[(#[trigger] entries[i]).0@]
                == entries[i].1,
    decreases entries.len(),
{
    if entries.len() > 0 {
        let prev = entries.drop_last();
        assert(distinct_groups(prev)) by {
            assert forall|i: int, j: int|
                0 <= i < prev.len() && 0 <= j < prev.len() && i != j implies (#[trigger] prev[i]).0@
                != (#[trigger] prev[j]).0@ by {
                assert(prev[i] == entries[i] && prev[j] == entries[j]);
            }
        }
        lemma_group_map_lookup(prev);
        assert forall|k: Seq<char>|
            #[trigger] group_map(entries).dom().contains(k) <==> exists|i: int|
                0 <= i < entries.len() && entries[i].0@ == k by {
            if group_map(entries).dom().contains(k) && k != entries.last().0@ {
                assert(group_map(prev).dom().contains(k));
                let i = choose|i: int| 0 <= i < prev.len() && prev[i].0@ == k;
                assert(entries[i] == prev[i]);
            }
            if exists|i: int| 0 <= i < entries.len() && entries[i].0@ == k {
                let i = choose|i: int| 0 <= i < entries.len() && entries[i].0@ == k;
                if i < prev.len() {
                    assert(prev[i] == entries[i]);
                    assert(group_map(prev).dom().contains(k));
                }
            }
        }
        assert forall|i: int| 0 <= i < entries.len() implies group_map(entries)[(
        #[trigger] entries[i]).0@] == entries[i].1 by {
            if i < entries.len() - 1 {
                assert(prev[i] == entries[i]);
                assert(entries[i].0@ != entries[entries.len() - 1].0@);
            }
        }
    }
}

proof fn lemma_group_map_remove(entries: Seq<(String, Router)>, i: int)
    requires
        distinct_groups(entries),
        0 <= i < entries.len(),
    ensures
        distinct_groups(entries.remove(i)),
        group_map(entries.remove(i)) == group_map(entries).remove(entries[i].0@),
    decreases entries.len(),
{
    let r = entries.remove(i);
    assert(distinct_groups(r)) by {
        assert forall|a: int, b: int|
            0 <= a < r.len() && 0 <= b < r.len() && a != b implies (#[trigger] r[a]).0@ != (
            #[trigger] r[b]).0@ by {
            let a2 = if a < i { a } else { a + 1 };
            let b2 = if b < i { b } else { b + 1 };
            assert(r[a] == entries[a2] && r[b] == entries[b2]);
        }
    }
    lemma_group_map_lookup(entries);
    lemma_group_map_lookup(r);
    let key = entries[i].0@;
    assert forall|k: Seq<char>| #[trigger] group_map(r).dom().contains(k) <==> group_map(
        entries,
    ).remove(key).dom().contains(k) by {
        if group_map(r).dom().contains(k) {
            let a = choose|a: int| 0 <= a < r.len() && r[a].0@ == k;
            let a2 = if a < i { a } else { a + 1 };
            assert(r[a] == entries[a2]);
        }
        if group_map(entries).remove(key).dom().contains(k) {
            let a = choose|a: int| 0 <= a < entries.len() && entries[a].0@ == k;
            assert(a != i);
            let a1 = if a < i { a } else { a - 1 };
            assert(r[a1] == entries[a]);
        }
    }
    assert forall|k: Seq<char>| #[trigger] group_map(r).dom().contains(k) implies group_map(r)[k]
        == group_map(entries).remove(key)[k] by {
        let a = choose|a: int| 0 <= a < r.len() && r[a].0@ == k;
        let a2 = if a < i { a } else { a + 1 };
        assert(r[a] == entries[a2]);
        assert(group_map(r)[r[a].0@] == r[a].1);
        assert(group_map(entries)[entries[a2].0@] == entries[a2].1);
    }
    assert(group_map(r) =~= group_map(entries).remove(key));
}

/// Routers bucketed by group: one for [`DEFAULT_GROUP`] and one per named
/// group.
pub struct GroupedRouters {
    /// Routes registered without a `group = "..."` attribute.
    default: Router,
    /// Routes registered with `group = "NAME"`, one entry per name.
    by_group: Vec<(String, Router)>,
}

/// The routers of a [`GroupedRouters`] as values.
pub struct GroupedView {
    pub default: Router,
    pub groups: Map<Seq<char>, Router>,
}

impl View for GroupedRouters {
    type V = GroupedView;

    closed spec fn view(&self) -> GroupedView {
        GroupedView { default: self.default, groups: group_map(self.by_group@) }
    }
}

impl GroupedRouters {
    /// Each named group is held once.
    pub closed spec fn wf(&self) -> bool {
        distinct_groups(self.by_group@)
    }

    fn find_group(&self, group: &str) -> (r: Option<usize>)
        ensures
            r matches Some(i) ==> i < self.by_group.len() && self.by_group@[i as int].0@ == group@,
            r is None ==> forall|i: int|
                0 <= i < self.by_group.len() ==> (#[trigger] self.by_group@[i]).0@ != group@,
    {
        let mut i: usize = 0;
        while i < self.by_group.len()
            invariant
                i <= self.by_group.len(),
                forall|k: int| 0 <= k < i ==> (#[trigger] self.by_group@[k]).0@ != group@,
            decreases self.by_group.len() - i,
        {
            if str_eq(self.by_group[i].0.as_str(), group) {
                return Some(i);
            }
            i = i + 1;
        }
        None
    }

    /// Removes and returns the default group's router, leaving a router with
    /// no routes in its place.
    pub fn take_default(&mut self) -> (r: Router)
        requires
            old(self).wf(),
        ensures
            final(self).wf(),
            r == old(self)@.default,
            final(self)@.groups == old(self)@.groups,
            router_paths(final(self)@.default) == Set::<Seq<char>>::empty(),
    {
        let mut fresh = new_router();
        std::mem::swap(&mut fresh, &mut self.default);
        fresh
    }

    /// Removes and returns the router for `group`. Passing [`DEFAULT_GROUP`]
    /// is the same as [`Self::take_default`]; a group that is not held yields
    /// a router with no routes and changes nothing.
    pub fn take_group(&mut self, group: &str) -> (r: Router)
        requires
            old(self).wf(),
        ensures
            final(self).wf(),
            group@ == DEFAULT_GROUP@ ==> r == old(self)@.default,
            group@ == DEFAULT_GROUP@ ==> final(self)@.groups == old(self)@.groups,
            group@ == DEFAULT_GROUP@ ==> router_paths(final(self)@.default) == Set::<
                Seq<char>,
            >::empty(),
            group@ != DEFAULT_GROUP@ ==> final(self)@.default == old(self)@.default,
            group@ != DEFAULT_GROUP@ && !old(self)@.groups.dom().contains(group@) ==> router_paths(r)
                == Set::<Seq<char>>::empty(),
            group@ != DEFAULT_GROUP@ && old(self)@.groups.dom().contains(group@) ==> r
                == old(self)@.groups[group@],
            group@ != DEFAULT_GROUP@ && old(self)@.groups.dom().contains(group@)
                ==> final(self)@.groups == old(self)@.groups.remove(group@),
            group@ != DEFAULT_GROUP@ && !old(self)@.groups.dom().contains(group@)
                ==> final(self)@.groups == old(self)@.groups,
    {
        if str_eq(group, DEFAULT_GROUP) {
            return self.take_default();
        }
        proof {
            lemma_group_map_lookup(self.by_group@);
        }
        match self.find_group(group) {
            Some(i) => {
                let ghost before = self.by_group@;
                let (_, router) = self.by_group.remove(i);
                proof {
                    lemma_group_map_remove(before, i as int);
                }
                router
            },
            None => new_router(),
        }
    }

    /// Installs a handler's route into its group's router: into the default
    /// router for [`DEFAULT_GROUP`], else into the named group's router,
    /// which is created empty when the group is new. Other groups are left
    /// as they are.
    pub fn install_in_group<F: FnOnce(Router) -> Router>(&mut self, group: &str, install: F)
        requires
            old(self).wf(),
            forall|r: Router| #[trigger] install.requires((r,)),
        ensures
            final(self).wf(),
            group@ == DEFAULT_GROUP@ ==> final(self)@.groups == old(self)@.groups,
            group@ == DEFAULT_GROUP@ ==> install.ensures((old(self)@.default,), final(self)@.default),
            group@ != DEFAULT_GROUP@ ==> final(self)@.default == old(self)@.default,
            group@ != DEFAULT_GROUP@ ==> final(self)@.groups.dom()
                == old(self)@.groups.dom().insert(group@),
            forall|g: Seq<char>|
                g != group@ && #[trigger] old(self)@.groups.dom().contains(g)
                    ==> final(self)@.groups[g] == old(self)@.groups[g],
            group@ != DEFAULT_GROUP@ && old(self)@.groups.dom().contains(group@)
                ==> install.ensures((old(self)@.groups[group@],), final(self)@.groups[group@]),
            group@ != DEFAULT_GROUP@ && !old(self)@.groups.dom().contains(group@) ==> exists|
                fresh: Router,
            |
                router_paths(fresh) == Set::<Seq<char>>::empty() && install.ensures(
                    (fresh,),
                    final(self)@.groups[group@],
                ),
    {
        if str_eq(group, DEFAULT_GROUP) {
            let current = self.take_default();
            self.default = install(current);
        } else {
            let ghost old_groups = self@.groups;
            let existing = self.take_group(group);
            let installed = install(existing);
            let ghost before = self.by_group@;
            proof {
                lemma_group_map_lookup(before);
            }
            self.by_group.push((owned(group), installed));
            assert(distinct_groups(self.by_group@)) by {
                assert forall|i: int, j: int|
                    0 <= i < self.by_group@.len() && 0 <= j < self.by_group@.len() && i != j implies (
                    #[trigger] self.by_group@[i]).0@ != (#[trigger] self.by_group@[j]).0@ by {
                    if i < before.len() && j < before.len() {
                        assert(self.by_group@[i] == before[i] && self.by_group@[j] == before[j]);
                    } else if i < before.len() {
                        assert(self.by_group@[i] == before[i]);
                        assert(!group_map(before).dom().contains(group@));
                    } else {
                        assert(self.by_group@[j] == before[j]);
                        assert(!group_map(before).dom().contains(group@));
                    }
                }
            }
            assert(self.by_group@.drop_last() =~= before);
            assert(self@.groups.dom() =~= old_groups.dom().insert(group@));
        }
    }

    /// The default router and the named groups' routers.
    pub fn into_parts(self) -> (r: (Router, Vec<(String, Router)>))
        requires
            self.wf(),
        ensures
            r.0 == self@.default,
            group_map(r.1@) == self@.groups,
            distinct_groups(r.1@),
    {
        (self.default, self.by_group)
    }
}

impl Default for GroupedRouters {
    /// Empty routers and no named groups.
    fn default() -> (r: GroupedRouters)
        ensures
            r.wf(),
            r@.groups == Map::<Seq<char>, Router>::empty(),
            router_paths(r@.default) == Set::<Seq<char>>::empty(),
    {
        let r = GroupedRouters { default: new_router(), by_group: Vec::new() };
        assert(r@.groups =~= Map::<Seq<char>, Router>::empty());
        r
    }
}

/// Whether `to` is a router that `handler.install_route(from)` may return.
pub open spec fn installs<H: TypedHandlerRegistrar + ?Sized>(handler: &H, from: Router, to: Router) -> bool {
    call_ensures(H::install_route, (handler, from), to)
}

/// Whether `name` is a group that `handler.group()` may return.
pub open spec fn reports_group<H: TypedHandlerRegistrar + ?Sized>(handler: &H, name: &'static str) -> bool {
    call_ensures(H::group, (handler,), name)
}

fn install_with<H: TypedHandlerRegistrar + ?Sized>(handler: &H, router: Router) -> (r: Router)
    ensures
        installs(handler, router, r),
{
    let install = H::install_route;
    install(handler, router)
}

fn group_of<H: TypedHandlerRegistrar + ?Sized>(handler: &H) -> (r: &'static str)
    ensures
        reports_group(handler, r),
{
    let group = H::group;
    group(handler)
}

/// Whether `routers` runs from a router with no routes through each
/// handler's `install_route` in turn.
pub open spec fn install_chain<H: TypedHandlerRegistrar + ?Sized>(
    handlers: Seq<&H>,
    routers: Seq<Router>,
) -> bool {
    &&& routers.len() == handlers.len() + 1
    &&& router_paths(routers[0]) == Set::<Seq<char>>::empty()
    &&& forall|i: int|
        0 <= i < handlers.len() ==> installs(handlers[i], routers[i], #[trigger] routers[i + 1])
}

/// Installs every handler's route into one router, in the order given: the
/// result comes from a router with no routes passed through each handler's
/// `install_route` in turn.
pub fn route_all(handlers: &Vec<&'static dyn TypedHandlerRegistrar>) -> (r: Router)
    ensures
        exists|routers: Seq<Router>|
            install_chain::<dyn TypedHandlerRegistrar>(handlers@, routers) && routers.last() == r,
{
    let mut router = new_router();
    let ghost mut routers: Seq<Router> = seq![router];
    let mut i: usize = 0;
    while i < handlers.len()
        invariant
            i <= handlers.len(),
            routers.last() == router,
            install_chain::<dyn TypedHandlerRegistrar>(handlers@.take(i as int), routers),
        decreases handlers.len() - i,
    {
        let next = install_with(handlers[i], router);
        proof {
            let prev = routers;
            let hs = handlers@.take(i + 1);
            routers = routers.push(next);
            assert forall|k: int| 0 <= k < hs.len() implies installs(
                hs[k],
                routers[k],
                #[trigger] routers[k + 1],
            ) by {
                if k < i {
                    assert(hs[k] == handlers@.take(i as int)[k]);
                    assert(routers[k] == prev[k] && routers[k + 1] == prev[k + 1]);
                } else {
                    assert(hs[k] == handlers@[i as int]);
                }
            }
        }
        router = next;
        i = i + 1;
    }
    assert(handlers@.take(handlers.len() as int) =~= handlers@);
    router
}

/// Whether `routers` is the bucket of group `g`: starting from a router with
/// no routes, each handler whose reported group (in `names`) is `g` installs
/// its route in turn, and every other handler leaves the router as it was.
pub open spec fn bucket_chain<H: TypedHandlerRegistrar + ?Sized>(
    handlers: Seq<&H>,
    names: Seq<&'static str>,
    g: Seq<char>,
    routers: Seq<Router>,
) -> bool {
    &&& routers.len() == handlers.len() + 1
    &&& router_paths(routers[0]) == Set::<Seq<char>>::empty()
    &&& forall|i: int|
        0 <= i < handlers.len() ==> if names[i]@ == g {
            installs(handlers[i], routers[i], #[trigger] routers[i + 1])
        } else {
            routers[i + 1] == routers[i]
        }
}

/// The views of a list of group names.
pub open spec fn name_views(names: Seq<&'static str>) -> Seq<Seq<char>> {
    names.map_values(|n: &'static str| n@)
}

/// Whether `v` holds the handlers bucketed by the groups they report:
/// `names[i]` is what `handlers[i].group()` returned; the default router is
/// the bucket of [`DEFAULT_GROUP`]; the named groups are exactly the other
/// reported names, each router being that name's bucket.
pub open spec fn grouped_by<H: TypedHandlerRegistrar + ?Sized>(
    handlers: Seq<&H>,
    names: Seq<&'static str>,
    v: GroupedView,
) -> bool {
    &&& names.len() == handlers.len()
    &&& forall|i: int| 0 <= i < handlers.len() ==> reports_group(handlers[i], #[trigger] names[i])
    &&& exists|routers: Seq<Router>|
        bucket_chain(handlers, names, DEFAULT_GROUP@, routers) && routers.last() == v.default
    &&& v.groups.dom() == Set::new(
        |g: Seq<char>| g != DEFAULT_GROUP@ && name_views(names).contains(g),
    )
    &&& forall|g: Seq<char>|
        #[trigger] v.groups.dom().contains(g) ==> exists|routers: Seq<Router>|
            bucket_chain(handlers, names, g, routers) && routers.last() == v.groups[g]
}

proof fn lemma_bucket_skip<H: TypedHandlerRegistrar + ?Sized>(
    handlers: Seq<&H>,
    names: Seq<&'static str>,
    g: Seq<char>,
    routers: Seq<Router>,
    i: int,
    n: &'static str,
)
    requires
        0 <= i < handlers.len(),
        names.len() == i,
        bucket_chain(handlers.take(i), names, g, routers),
        n@ != g,
    ensures
        bucket_chain(handlers.take(i + 1), names.push(n), g, routers.push(routers.last())),
{
    let hs = handlers.take(i + 1);
    let ns = names.push(n);
    let rs = routers.push(routers.last());
    assert forall|k: int| 0 <= k < hs.len() implies if ns[k]@ == g {
        installs(hs[k], rs[k], #[trigger] rs[k + 1])
    } else {
        rs[k + 1] == rs[k]
    } by {
        if k < i {
            assert(hs[k] == handlers.take(i)[k] && ns[k] == names[k]);
            assert(rs[k] == routers[k] && rs[k + 1] == routers[k + 1]);
        }
    }
}

proof fn lemma_bucket_install<H: TypedHandlerRegistrar + ?Sized>(
    handlers: Seq<&H>,
    names: Seq<&'static str>,
    g: Seq<char>,
    routers: Seq<Router>,
    i: int,
    n: &'static str,
    next: Router,
)
    requires
        0 <= i < handlers.len(),
        names.len() == i,
        bucket_chain(handlers.take(i), names, g, routers),
        n@ == g,
        installs(handlers[i], routers.last(), next),
    ensures
        bucket_chain(handlers.take(i + 1), names.push(n), g, routers.push(next)),
{
    let hs = handlers.take(i + 1);
    let ns = names.push(n);
    let rs = routers.push(next);
    assert forall|k: int| 0 <= k < hs.len() implies if ns[k]@ == g {
        installs(hs[k], rs[k], #[trigger] rs[k + 1])
    } else {
        rs[k + 1] == rs[k]
    } by {
        if k < i {
            assert(hs[k] == handlers.take(i)[k] && ns[k] == names[k]);
            assert(rs[k] == routers[k] && rs[k + 1] == routers[k + 1]);
        } else {
            assert(hs[k] == handlers[i]);
        }
    }
}

proof fn lemma_bucket_new<H: TypedHandlerRegistrar + ?Sized>(
    handlers: Seq<&H>,
    names: Seq<&'static str>,
    g: Seq<char>,
    fresh: Router,
)
    requires
        names.len() == handlers.len(),
        router_paths(fresh) == Set::<Seq<char>>::empty(),
        !name_views(names).contains(g),
    ensures
        bucket_chain(handlers, names, g, Seq::new((handlers.len() + 1) as nat, |k: int| fresh)),
{
    assert forall|i: int| 0 <= i < handlers.len() implies names[i]@ != g by {
        assert(name_views(names)[i] == names[i]@);
    }
}

/// Buckets handlers by their group: each handler's route is installed, in
/// the order given, into the default router when its group is
/// [`DEFAULT_GROUP`] and into its named group's router otherwise.
pub fn group_registrars(handlers: &Vec<&'static dyn TypedHandlerRegistrar>) -> (r: GroupedRouters)
    ensures
        r.wf(),
        exists|names: Seq<&'static str>|
            grouped_by::<dyn TypedHandlerRegistrar>(handlers@, names, r@),
{
    let mut grouped = GroupedRouters::default();
    let ghost mut names: Seq<&'static str> = Seq::empty();
    let ghost mut dchain: Seq<Router> = seq![grouped@.default];
    let ghost mut gchains: Map<Seq<char>, Seq<Router>> = Map::empty();
    assert(grouped@.groups.dom() =~= Set::new(
        |g: Seq<char>| g != DEFAULT_GROUP@ && name_views(names).contains(g),
    ));
    assert(gchains.dom() =~= grouped@.groups.dom());
    let mut i: usize = 0;
    while i < handlers.len()
        invariant
            grouped.wf(),
            i <= handlers.len(),
            names.len() == i,
            forall|k: int|
                0 <= k < i ==> reports_group(handlers@[k], #[trigger] names[k]),
            bucket_chain(handlers@.take(i as int), names, DEFAULT_GROUP@, dchain),
            dchain.last() == grouped@.default,
            grouped@.groups.dom() == Set::new(
                |g: Seq<char>| g != DEFAULT_GROUP@ && name_views(names).contains(g),
            ),
            gchains.dom() == grouped@.groups.dom(),
            forall|g: Seq<char>|
                #[trigger] gchains.dom().contains(g) ==> bucket_chain(
                    handlers@.take(i as int),
                    names,
                    g,
                    gchains[g],
                ) && gchains[g].last() == grouped@.groups[g],
        decreases handlers.len() - i,
    {
        let handler = handlers[i];
        let group = group_of(handler);
        let ghost before = grouped@;
        let ghost hs = handlers@.take(i as int);
        let install = |router: Router| -> (out: Router)
            ensures
                installs(handler, router, out),
            {
                let installed: Router = install_with(handler, router);
                installed
            };
        grouped.install_in_group(group, install);
        proof {
            assert(handlers@[i as int] == handler);
            let prev = names;
            let new_names = names.push(group);
            assert(name_views(new_names) =~= name_views(prev).push(group@));
            // the default bucket
            if group@ == DEFAULT_GROUP@ {
                assert(dchain.last() == before.default);
                assert(install.ensures((before.default,), grouped@.default));
                assert(installs(handler, before.default, grouped@.default));
                lemma_bucket_install::<dyn TypedHandlerRegistrar>(handlers@, prev, DEFAULT_GROUP@, dchain, i as int, group, grouped@.default);
                dchain = dchain.push(grouped@.default);
            } else {
                lemma_bucket_skip::<dyn TypedHandlerRegistrar>(handlers@, prev, DEFAULT_GROUP@, dchain, i as int, group);
                dchain = dchain.push(dchain.last());
            }
            // the named buckets
            let old_chains = gchains;
            let fresh = choose|fresh: Router|
                router_paths(fresh) == Set::<Seq<char>>::empty() && installs(
                    handler,
                    fresh,
                    grouped@.groups[group@],
                );
            let mut next_chains: Map<Seq<char>, Seq<Router>> = Map::new(
                |g: Seq<char>| grouped@.groups.dom().contains(g),
                |g: Seq<char>|
                    if g == group@ {
                        if old_chains.dom().contains(g) {
                            old_chains[g].push(grouped@.groups[g])
                        } else {
                            Seq::new((hs.len() + 1) as nat, |k: int| fresh).push(
                                grouped@.groups[g],
                            )
                        }
                    } else {
                        old_chains[g].push(old_chains[g].last())
                    },
            );
            assert forall|g: Seq<char>|
                g != DEFAULT_GROUP@ && #[trigger] name_views(new_names).contains(g) <==> (g
                    != DEFAULT_GROUP@ && name_views(prev).contains(g)) || (g == group@ && g
                    != DEFAULT_GROUP@) by {
                if name_views(new_names).contains(g) && g != group@ {
                    let k = choose|k: int|
                        0 <= k < name_views(new_names).len() && name_views(new_names)[k] == g;
                    assert(name_views(prev)[k] == g);
                }
                if name_views(prev).contains(g) {
                    let k = choose|k: int| 0 <= k < name_views(prev).len() && name_views(prev)[k] == g;
                    assert(name_views(new_names)[k] == g);
                }
                if g == group@ {
                    assert(name_views(new_names)[name_views(new_names).len() - 1] == g);
                }
            }
            assert(grouped@.groups.dom() =~= Set::new(
                |g: Seq<char>| g != DEFAULT_GROUP@ && name_views(new_names).contains(g),
            ));
            assert forall|g: Seq<char>| #[trigger] next_chains.dom().contains(g) implies bucket_chain(
                handlers@.take(i + 1),
                new_names,
                g,
                next_chains[g],
            ) && next_chains[g].last() == grouped@.groups[g] by {
                if g == group@ {
                    if old_chains.dom().contains(g) {
                        lemma_bucket_install::<dyn TypedHandlerRegistrar>(handlers@, prev, g, old_chains[g], i as int, group, grouped@.groups[g]);
                    } else {
                        assert(!name_views(prev).contains(g));
                        lemma_bucket_new::<dyn TypedHandlerRegistrar>(hs, prev, g, fresh);
                        let start = Seq::new((hs.len() + 1) as nat, |k: int| fresh);
                        lemma_bucket_install::<dyn TypedHandlerRegistrar>(handlers@, prev, g, start, i as int, group, grouped@.groups[g]);
                        assert(next_chains[g] =~= start.push(grouped@.groups[g]));
                    }
                } else {
                    assert(old_chains.dom().contains(g));
                    assert(grouped@.groups[g] == before.groups[g]);
                    lemma_bucket_skip::<dyn TypedHandlerRegistrar>(handlers@, prev, g, old_chains[g], i as int, group);
                }
            }
            gchains = next_chains;
            names = new_names;
            assert(gchains.dom() =~= grouped@.groups.dom());
        }
        i = i + 1;
    }
    proof {
        assert(handlers@.take(handlers.len() as int) =~= handlers@);
        assert forall|g: Seq<char>| #[trigger] grouped@.groups.dom().contains(g) implies exists|
            routers: Seq<Router>,
        | bucket_chain(handlers@, names, g, routers) && routers.last() == grouped@.groups[g] by {
            assert(gchains.dom().contains(g));
        }
        assert(grouped_by::<dyn TypedHandlerRegistrar>(handlers@, names, grouped@));
    }
    grouped
}

} // verus!
