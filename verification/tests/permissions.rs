use calabaza_tales::plugin::{PERMISSION_ADMIN, PERMISSION_TALES};

#[test]
fn permission_nodes_use_the_exact_plugin_namespace() {
    assert!(PERMISSION_TALES.starts_with("CalabazaTales:"));
    assert!(PERMISSION_ADMIN.starts_with("CalabazaTales:"));
}
