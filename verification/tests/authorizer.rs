use landing_form::authorizer::{has_permission, ProtectedPathTable};

fn admin_table() -> ProtectedPathTable {
    let mut table = ProtectedPathTable::new();
    table.protect("/admin".to_string(), vec!["admin".to_string()]);
    table
}

#[test]
fn no_roles_denied_on_protected_path() {
    let table = admin_table();
    let roles: Vec<String> = Vec::new();
    assert!(!has_permission(&roles, "/admin", &table));
}

#[test]
fn admin_role_admitted_on_protected_path() {
    let table = admin_table();
    let roles = vec!["admin".to_string()];
    assert!(has_permission(&roles, "/admin", &table));
}

#[test]
fn empty_table_admits_everyone() {
    let table = ProtectedPathTable::new();
    let roles = vec!["user".to_string()];
    assert!(has_permission(&roles, "/public", &table));
}

#[test]
fn deeper_path_still_gated_by_ancestor() {
    let table = admin_table();
    let roles = vec!["user".to_string()];
    assert!(!has_permission(&roles, "/admin/reports/daily", &table));
    let admin = vec!["admin".to_string()];
    assert!(has_permission(&admin, "/admin/reports/daily", &table));
}

#[test]
fn any_one_of_the_roles_suffices() {
    let mut table = ProtectedPathTable::new();
    table.protect(
        "/staff".to_string(),
        vec!["admin".to_string(), "support".to_string()],
    );
    let roles = vec!["user".to_string(), "support".to_string()];
    assert!(has_permission(&roles, "/staff", &table));
}

#[test]
fn all_ancestor_gates_must_pass() {
    let mut table = ProtectedPathTable::new();
    table.protect("/a".to_string(), vec!["alpha".to_string()]);
    table.protect("/a/b".to_string(), vec!["beta".to_string()]);
    // holds the deeper gate's role but not the ancestor's
    let beta_only = vec!["beta".to_string()];
    assert!(!has_permission(&beta_only, "/a/b", &table));
    let both = vec!["alpha".to_string(), "beta".to_string()];
    assert!(has_permission(&both, "/a/b", &table));
}

#[test]
fn root_path_is_unprotected() {
    let table = admin_table();
    let roles: Vec<String> = Vec::new();
    assert!(has_permission(&roles, "/", &table));
    assert!(has_permission(&roles, "", &table));
}

#[test]
fn repeated_separators_do_not_change_the_decision() {
    let table = admin_table();
    let roles: Vec<String> = Vec::new();
    assert!(!has_permission(&roles, "//admin//", &table));
}

#[test]
fn sibling_path_is_not_gated() {
    let table = admin_table();
    let roles: Vec<String> = Vec::new();
    assert!(has_permission(&roles, "/adminX", &table));
    assert!(has_permission(&roles, "/public/admin-page", &table));
}
