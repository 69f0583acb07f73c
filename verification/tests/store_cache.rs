use lattice::cache::{CacheConfig, SettingsCache, TaskCache, TemplateCache};
use lattice::entities::{Settings, Task, Template};
use lattice::time::Timestamp;

fn now() -> Timestamp {
    Timestamp::parse("2026-04-24T10:00:00Z").unwrap()
}

#[test]
fn cached_templates_load_hits_cache_on_second_call() {
    let mut cache = TemplateCache::new(CacheConfig::default());
    let t = Template::new("bug-fix", now());
    assert!(cache.lookup(t.id).is_none());
    cache.remember(t.id, t.clone());
    assert_eq!(cache.cached_entry_count(), 1);
    assert_eq!(cache.lookup(t.id).map(|x| x.name.clone()), Some("bug-fix".to_string()));
    assert_eq!(cache.cached_entry_count(), 1);
}

#[test]
fn save_invalidates_cached_entry() {
    let mut cache = TemplateCache::new(CacheConfig::default());
    let mut t = Template::new("acme", now());
    cache.remember(t.id, t.clone());
    assert_eq!(cache.cached_entry_count(), 1);
    t.name = "acme-v2".into();
    cache.invalidate(t.id);
    assert_eq!(cache.cached_entry_count(), 0);
    assert!(cache.lookup(t.id).is_none());
    cache.remember(t.id, t.clone());
    assert_eq!(cache.lookup(t.id).unwrap().name, "acme-v2");
}

#[test]
fn delete_invalidates_cached_entry() {
    let mut cache = TaskCache::new(CacheConfig::default());
    let tpl = Template::new("t", now());
    let task = Task::new(tpl.id, 1, "fix", now());
    cache.remember(task.id, task.clone());
    cache.invalidate(task.id);
    assert!(cache.lookup(task.id).is_none());
}

#[test]
fn explicit_invalidate_forces_reload() {
    let mut cache = TemplateCache::new(CacheConfig::default());
    let t = Template::new("bug-fix", now());
    cache.remember(t.id, t.clone());
    assert_eq!(cache.cached_entry_count(), 1);
    cache.invalidate(t.id);
    assert_eq!(cache.cached_entry_count(), 0);
}

#[test]
fn list_result_is_cached_then_invalidated_on_write() {
    let mut cache = TemplateCache::new(CacheConfig::default());
    let a = Template::new("a", now());
    assert!(cache.lookup_list().is_none());
    cache.remember_list(vec![a.clone()]);
    assert_eq!(cache.lookup_list().map(Vec::len), Some(1));
    let b = Template::new("b", now());
    cache.invalidate(b.id);
    assert!(cache.lookup_list().is_none());
}

#[test]
fn settings_cache_survives_repeated_loads() {
    let mut cache = SettingsCache::new();
    assert!(cache.lookup().is_none());
    let mut s = Settings::default();
    s.cache.max_entries = 7;
    cache.remember(s.clone());
    let a = cache.lookup().cloned().unwrap();
    let b = cache.lookup().cloned().unwrap();
    assert_eq!(a, b);
    assert_eq!(a.cache.max_entries, 7);
    cache.invalidate();
    assert!(cache.lookup().is_none());
}

#[test]
fn full_table_drops_least_recently_used() {
    let mut cache = TemplateCache::new(CacheConfig {
        entries_capacity: 2,
        list_capacity: 1,
    });
    let a = Template::new("a", now());
    let b = Template::new("b", now());
    let c = Template::new("c", now());
    cache.remember(a.id, a.clone());
    cache.remember(b.id, b.clone());
    assert!(cache.lookup(a.id).is_some());
    cache.remember(c.id, c.clone());
    assert_eq!(cache.cached_entry_count(), 2);
    assert!(cache.lookup(b.id).is_none());
    assert!(cache.lookup(a.id).is_some());
    cache.invalidate_all();
    assert_eq!(cache.cached_entry_count(), 0);
}

#[test]
fn full_table_drops_the_least_recently_used() {
    let cfg = CacheConfig { entries_capacity: 2, list_capacity: 16 };
    let mut cache = TemplateCache::new(cfg);
    let a = Template::new("a", now());
    let b = Template::new("b", now());
    let c = Template::new("c", now());
    cache.remember(a.id, a.clone());
    cache.remember(b.id, b.clone());
    assert!(cache.lookup(a.id).is_some());
    cache.remember(c.id, c.clone());
    assert_eq!(cache.cached_entry_count(), 2);
    assert!(cache.lookup(b.id).is_none());
    assert!(cache.lookup(a.id).is_some());
    assert!(cache.lookup(c.id).is_some());
}
