use sso_core::handlers::Error;
use sso_core::permission::{grant, resolve, Role};
use sso_core::scope::{is_valid_name, ScopeSet};

fn list(names: &[&str]) -> Vec<String> {
    names.iter().map(|s| s.to_string()).collect()
}

fn set(names: &[&str]) -> ScopeSet {
    ScopeSet::from_names(&list(names)).unwrap()
}

fn scope_error() -> Error {
    Error::ValidationError { field: "scope".to_string() }
}

#[test]
fn from_names_keeps_first_occurrences() {
    let s = set(&["read", "write", "read", "admin", "write"]);
    assert_eq!(s.names(), list(&["read", "write", "admin"]));
    assert_eq!(s.len(), 3);
    assert!(!s.is_empty());
}

#[test]
fn from_names_refuses_malformed_names() {
    assert_eq!(ScopeSet::from_names(&list(&["read", ""])).err(), Some(scope_error()));
    assert_eq!(ScopeSet::from_names(&list(&["read write"])).err(), Some(scope_error()));
    assert_eq!(ScopeSet::single("").err(), Some(scope_error()));
    assert_eq!(ScopeSet::single("a b").err(), Some(scope_error()));
    assert_eq!(ScopeSet::single("read").unwrap().names(), list(&["read"]));
}

#[test]
fn valid_names_have_no_space_and_are_not_empty() {
    assert!(is_valid_name("read"));
    assert!(is_valid_name("profile:email"));
    assert!(is_valid_name("h\u{e9}llo"));
    assert!(!is_valid_name(""));
    assert!(!is_valid_name(" "));
    assert!(!is_valid_name("read "));
}

#[test]
fn empty_set_is_empty() {
    let s = ScopeSet::new();
    assert!(s.is_empty());
    assert_eq!(s.len(), 0);
    assert_eq!(s.names(), Vec::<String>::new());
    assert_eq!(s.to_text(), "");
    assert!(!s.contains("read"));
}

#[test]
fn intersect_keeps_the_order_of_the_left() {
    let a = set(&["write", "read", "admin"]);
    let b = set(&["read", "write", "other"]);
    assert_eq!(a.intersect(&b).names(), list(&["write", "read"]));
    assert_eq!(b.intersect(&a).names(), list(&["read", "write"]));
    assert!(a.intersect(&ScopeSet::new()).is_empty());
}

#[test]
fn union_appends_what_is_new() {
    let a = set(&["read", "write"]);
    let b = set(&["admin", "read", "other"]);
    assert_eq!(a.union(&b).names(), list(&["read", "write", "admin", "other"]));
    assert_eq!(ScopeSet::new().union(&a).names(), list(&["read", "write"]));
}

#[test]
fn subset_and_contains() {
    let a = set(&["read"]);
    let b = set(&["write", "read"]);
    assert!(a.is_subset_of(&b));
    assert!(!b.is_subset_of(&a));
    assert!(ScopeSet::new().is_subset_of(&a));
    assert!(b.contains("write"));
    assert!(!b.contains("writ"));
    assert_eq!(b.duplicate().names(), b.names());
}

#[test]
fn text_form_goes_there_and_back() {
    let s = set(&["read", "write", "profile:email"]);
    assert_eq!(s.to_text(), "read write profile:email");
    assert_eq!(ScopeSet::parse(&s.to_text()).names(), s.names());
    assert_eq!(set(&["one"]).to_text(), "one");
}

#[test]
fn parse_skips_extra_spaces_and_repetitions() {
    assert_eq!(ScopeSet::parse("  read   write read ").names(), list(&["read", "write"]));
    assert!(ScopeSet::parse("").is_empty());
    assert!(ScopeSet::parse("   ").is_empty());
    assert_eq!(ScopeSet::parse("h\u{e9} b").names(), list(&["h\u{e9}", "b"]));
}

#[test]
fn resolve_unites_the_grants_of_held_roles() {
    let roles = vec![
        Role { name: "member".to_string(), grants: set(&["read", "profile"]) },
        Role { name: "editor".to_string(), grants: set(&["write", "read"]) },
        Role { name: "admin".to_string(), grants: set(&["delete"]) },
    ];
    assert_eq!(
        resolve(&roles, &list(&["editor", "member"])).names(),
        list(&["read", "profile", "write"])
    );
    assert_eq!(resolve(&roles, &list(&["admin"])).names(), list(&["delete"]));
    assert!(resolve(&roles, &list(&["nobody"])).is_empty());
    assert!(resolve(&roles, &list(&[])).is_empty());
    assert!(resolve(&Vec::new(), &list(&["member"])).is_empty());
}

#[test]
fn grant_intersects_request_permissions_and_allowed() {
    let requested = set(&["delete", "read", "write"]);
    let permitted = set(&["read", "write", "profile"]);
    let allowed = set(&["write", "read", "delete"]);
    let granted = grant(&requested, &permitted, &allowed, true).unwrap();
    assert_eq!(granted.names(), list(&["read", "write"]));
}

#[test]
fn grant_of_nothing_is_refused_only_where_something_is_required() {
    let requested = set(&["delete"]);
    let permitted = set(&["read"]);
    let allowed = set(&["read", "delete"]);
    assert_eq!(
        grant(&requested, &permitted, &allowed, true).err(),
        Some(Error::InsufficientScope)
    );
    assert!(grant(&requested, &permitted, &allowed, false).unwrap().is_empty());
    assert_eq!(
        grant(&ScopeSet::new(), &permitted, &allowed, true).err(),
        Some(Error::InsufficientScope)
    );
}
