use plugin_core::{PluginVersion, VersionComparable, VersionEquatable, WindowPlugin};
use std::cmp::Ordering;

#[test]
fn versions_order_lexicographically() {
    let a = PluginVersion::new(1, 2, 3);
    let b = PluginVersion::new(1, 3, 0);
    let c = PluginVersion::new(2, 0, 0);
    assert_eq!(a.compare(&b), Ordering::Less);
    assert_eq!(b.compare(&c), Ordering::Less);
    assert_eq!(a.compare(&c), Ordering::Less);
    assert_eq!(c.compare(&a), Ordering::Greater);
}

#[test]
fn equal_versions_compare_equal() {
    let a = PluginVersion::new(1, 2, 3);
    let b = PluginVersion::new(1, 2, 3);
    assert_eq!(a.compare(&b), Ordering::Equal);
    assert!(a.eq(&b));
    assert!(!a.eq(&PluginVersion::new(1, 2, 4)));
    assert_eq!(PluginVersion::new(1, 2, 4).compare(&a), Ordering::Greater);
}

#[test]
fn plugins_compare_by_version() {
    let p = WindowPlugin::new();
    let mut q = WindowPlugin::new();
    assert_eq!(p.compare_version(&q), Ordering::Equal);
    assert!(p.version_eq(&q));
    q.version = PluginVersion::new(0, 2, 0);
    assert_eq!(p.compare_version(&q), Ordering::Less);
    assert!(!p.version_eq(&q));
}

#[test]
fn reload_policy_decides_on_older_versions() {
    let current = PluginVersion::new(1, 2, 0);
    let older = PluginVersion::new(1, 1, 9);
    let newer = PluginVersion::new(1, 2, 1);
    assert!(plugin_core::reload_allowed(plugin_core::ReloadPolicy::AcceptAny, &current, &older));
    assert!(!plugin_core::reload_allowed(plugin_core::ReloadPolicy::RejectOlder, &current, &older));
    assert!(plugin_core::reload_allowed(plugin_core::ReloadPolicy::RejectOlder, &current, &newer));
    assert!(plugin_core::reload_allowed(plugin_core::ReloadPolicy::RejectOlder, &current, &current));
}
