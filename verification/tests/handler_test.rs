use axum::Router;
use summer_web::handler::{group_registrars, route_all, GroupedRouters, TypeRouter, TypedHandlerRegistrar, DEFAULT_GROUP};

struct Health;

impl TypedHandlerRegistrar for Health {
    fn install_route(&self, router: Router) -> Router {
        router.route("/health", axum::routing::get(|| async { "ok" }))
    }
}

struct Users;

impl TypedHandlerRegistrar for Users {
    fn install_route(&self, router: Router) -> Router {
        router.route("/users", axum::routing::get(|| async { "users" }))
    }

    fn group(&self) -> &'static str {
        "admin"
    }
}

struct Orders;

impl TypedHandlerRegistrar for Orders {
    fn install_route(&self, router: Router) -> Router {
        router.route("/orders", axum::routing::get(|| async { "orders" }))
    }

    fn group(&self) -> &'static str {
        "shop"
    }
}

static HEALTH: Health = Health;
static USERS: Users = Users;
static ORDERS: Orders = Orders;

#[test]
fn hand_written_registrars_are_in_the_default_group() {
    assert_eq!(DEFAULT_GROUP, "default");
    assert_eq!(Health.group(), DEFAULT_GROUP);
    assert_eq!(Users.group(), "admin");
}

#[test]
fn typed_route_installs_the_registrar() {
    let router = Router::new().typed_route(Health);
    assert!(router.has_routes());
}

#[test]
fn route_all_installs_every_handler() {
    let handlers: Vec<&'static dyn TypedHandlerRegistrar> = vec![&HEALTH, &USERS];
    assert!(route_all(&handlers).has_routes());
    assert!(!route_all(&Vec::new()).has_routes());
}

#[test]
fn grouped_routers_bucket_by_group() {
    let handlers: Vec<&'static dyn TypedHandlerRegistrar> = vec![&HEALTH, &USERS, &ORDERS];
    let mut grouped = group_registrars(&handlers);

    assert!(grouped.take_group("admin").has_routes());
    // a group that was taken is gone
    assert!(!grouped.take_group("admin").has_routes());
    assert!(grouped.take_group("shop").has_routes());
    // missing groups give an empty router
    assert!(!grouped.take_group("missing").has_routes());
    assert!(grouped.take_default().has_routes());
    assert!(!grouped.take_default().has_routes());
}

#[test]
fn take_group_default_is_take_default() {
    let handlers: Vec<&'static dyn TypedHandlerRegistrar> = vec![&HEALTH];
    let mut grouped = group_registrars(&handlers);
    assert!(grouped.take_group(DEFAULT_GROUP).has_routes());
    assert!(!grouped.take_default().has_routes());
}

#[test]
fn install_in_group_creates_and_extends_groups() {
    let mut grouped = GroupedRouters::default();
    grouped.install_in_group("api", |r: Router| r.route("/a", axum::routing::get(|| async { "a" })));
    grouped.install_in_group("api", |r: Router| r.route("/b", axum::routing::get(|| async { "b" })));
    grouped.install_in_group(DEFAULT_GROUP, |r: Router| r.route("/c", axum::routing::get(|| async { "c" })));

    let (default, groups) = grouped.into_parts();
    assert!(default.has_routes());
    assert_eq!(groups.len(), 1);
    assert_eq!(groups[0].0, "api");
    assert!(groups[0].1.has_routes());
}

#[test]
fn empty_grouped_routers() {
    let grouped = GroupedRouters::default();
    let (default, groups) = grouped.into_parts();
    assert!(!default.has_routes());
    assert!(groups.is_empty());
}
