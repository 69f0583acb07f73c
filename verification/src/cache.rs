//! A read-through cache in front of the store: templates and tasks by
//! id in LRU tables, the last full listing of each, and the settings.
//! The store is asked only on a miss; every write forgets what it may
//! have made stale.

use vstd::prelude::*;
use crate::entities::{Settings, Task, Template};
use crate::ids::{TaskId, TemplateId};

verus! {

#[verifier::external_type_specification]
#[verifier::external_body]
#[verifier::reject_recursive_types(K)]
#[verifier::reject_recursive_types(V)]
#[verifier::reject_recursive_types(S)]
pub struct ExLruCache<K, V, S>(lru::LruCache<K, V, S>);

#[verifier::external_type_specification]
#[verifier::external_body]
pub struct ExDefaultHasher(lru::DefaultHasher);

/// The most entries a cache table may be made for. `LruCache::new` sizes
/// its hash map for all `cap` entries at once, and the map panics with a
/// capacity overflow when the size of that allocation does not fit;
/// std documents no exact threshold. With at most 2^24 entries the
/// allocation (a few words per slot) stays far below it on every target,
/// 32-bit ones included.
pub const MAX_TABLE_ENTRIES: usize = 16_777_216;

/// The sizes of the cache tables.
#[derive(Clone, Copy, Debug)]
pub struct CacheConfig {
    pub entries_capacity: usize,
    pub list_capacity: usize,
}

impl Default for CacheConfig {
    fn default() -> (r: CacheConfig)
        ensures
            r.entries_capacity == 256,
            r.list_capacity == 16,
    {
        CacheConfig { entries_capacity: 256, list_capacity: 16 }
    }
}

/// `o` with `k` taken out.
pub open spec fn without(o: Seq<u128>, k: u128) -> Seq<u128> {
    o.filter(|x: u128| x != k)
}

/// `o` with `k` moved (or added) to the most recently used end.
pub open spec fn touched(o: Seq<u128>, k: u128) -> Seq<u128> {
    without(o, k).push(k)
}

/// `o` lists the ids of `dom`, each once.
pub open spec fn order_ok(o: Seq<u128>, dom: Set<u128>) -> bool {
    &&& o.no_duplicates()
    &&& forall|x: u128| #[trigger] o.contains(x) <==> dom.contains(x)
}

/// The templates an LRU table holds, by id value.
pub uninterp spec fn template_entries(c: lru::LruCache<u128, Template>) -> Map<u128, Template>;

/// The most entries the template table was made to hold.
pub uninterp spec fn template_capacity(c: lru::LruCache<u128, Template>) -> nat;

/// The ids the template table holds, from the least recently used to the most
/// recently used (the crate's list, read from its tail to its head).
pub uninterp spec fn template_recency(c: lru::LruCache<u128, Template>) -> Seq<u128>;

/// The template table holds finitely many entries, no more than it was made
/// for, and its recency order lists each of them once.
pub open spec fn template_table_ok(c: lru::LruCache<u128, Template>) -> bool {
    &&& template_entries(c).dom().finite()
    &&& template_entries(c).dom().len() <= template_capacity(c)
    &&& template_capacity(c) > 0
    &&& order_ok(template_recency(c), template_entries(c).dom())
}

/// `lru::LruCache::new`: an empty table for at most `cap` entries. The
/// bound on `cap` keeps the table's allocation clear of the capacity
/// overflow the hash map panics on.
#[verifier::external_body]
fn template_table(cap: usize) -> (r: lru::LruCache<u128, Template>)
    requires
        0 < cap <= MAX_TABLE_ENTRIES,
    ensures
        template_entries(r).dom().is_empty(),
        template_capacity(r) == cap,
        template_recency(r).len() == 0,
{
    lru::LruCache::new(std::num::NonZeroUsize::new(cap).unwrap())
}

/// `lru::LruCache::get`: the entry for `k`, if held; what the table
/// holds stays, and a held `k` becomes the most recently used.
#[verifier::external_body]
fn template_get(c: &mut lru::LruCache<u128, Template>, k: u128) -> (r: Option<&Template>)
    ensures
        template_entries(*final(c)) == template_entries(*old(c)),
        template_capacity(*final(c)) == template_capacity(*old(c)),
        template_recency(*final(c)) == if template_entries(*old(c)).contains_key(k) {
            touched(template_recency(*old(c)), k)
        } else {
            template_recency(*old(c))
        },
        template_table_ok(*old(c)) ==> template_table_ok(*final(c)),
        match r {
            Some(v) => template_entries(*old(c)).contains_key(k) && *v == template_entries(*old(c))[k],
            None => !template_entries(*old(c)).contains_key(k),
        },
{
    c.get(&k)
}

/// `lru::LruCache::put`: `v` is held under `k`, which becomes the most
/// recently used; when `k` was not held and the table was full, the least
/// recently used entry leaves.
#[verifier::external_body]
fn template_put(c: &mut lru::LruCache<u128, Template>, k: u128, v: Template)
    ensures
        template_capacity(*final(c)) == template_capacity(*old(c)),
        template_entries(*final(c)).contains_key(k),
        template_entries(*final(c))[k] == v,
        forall|j: u128|
            j != k && #[trigger] template_entries(*final(c)).contains_key(j) ==> template_entries(
                *old(c),
            ).contains_key(j) && template_entries(*final(c))[j] == template_entries(*old(c))[j],
        template_table_ok(*old(c)) ==> template_table_ok(*final(c)),
        template_table_ok(*old(c)) ==> if template_entries(*old(c)).contains_key(k) {
            &&& template_entries(*final(c)) == template_entries(*old(c)).insert(k, v)
            &&& template_recency(*final(c)) == touched(template_recency(*old(c)), k)
        } else if template_entries(*old(c)).dom().len() < template_capacity(*old(c)) {
            &&& template_entries(*final(c)) == template_entries(*old(c)).insert(k, v)
            &&& template_recency(*final(c)) == template_recency(*old(c)).push(k)
        } else {
            &&& template_entries(*final(c)) == template_entries(*old(c)).remove(template_recency(*old(c))[0]).insert(
                k,
                v,
            )
            &&& template_recency(*final(c)) == template_recency(*old(c)).drop_first().push(k)
        },
        template_table_ok(*old(c)) && (template_entries(*old(c)).contains_key(k) || template_entries(
            *old(c),
        ).dom().len() < template_capacity(*old(c))) ==> forall|j: u128|
            #[trigger] template_entries(*old(c)).contains_key(j) ==> template_entries(
                *final(c),
            ).contains_key(j),
{
    c.put(k, v);
}

/// `lru::LruCache::pop`: the entry for `k` leaves, if held.
#[verifier::external_body]
fn template_pop(c: &mut lru::LruCache<u128, Template>, k: u128)
    ensures
        template_entries(*final(c)) == template_entries(*old(c)).remove(k),
        template_capacity(*final(c)) == template_capacity(*old(c)),
        template_recency(*final(c)) == without(template_recency(*old(c)), k),
        template_table_ok(*old(c)) ==> template_table_ok(*final(c)),
{
    c.pop(&k);
}

/// `lru::LruCache::clear`: every entry leaves.
#[verifier::external_body]
fn template_clear(c: &mut lru::LruCache<u128, Template>)
    ensures
        template_entries(*final(c)).dom().is_empty(),
        template_capacity(*final(c)) == template_capacity(*old(c)),
        template_recency(*final(c)).len() == 0,
{
    c.clear();
}

/// `lru::LruCache::len`: the number of entries held.
#[verifier::external_body]
fn template_len(c: &lru::LruCache<u128, Template>) -> (r: usize)
    ensures
        r == template_entries(*c).dom().len(),
{
    c.len()
}

/// The tasks an LRU table holds, by id value.
pub uninterp spec fn task_entries(c: lru::LruCache<u128, Task>) -> Map<u128, Task>;

/// The most entries the task table was made to hold.
pub uninterp spec fn task_capacity(c: lru::LruCache<u128, Task>) -> nat;

/// The ids the task table holds, from the least recently used to the most
/// recently used (the crate's list, read from its tail to its head).
pub uninterp spec fn task_recency(c: lru::LruCache<u128, Task>) -> Seq<u128>;

/// The task table holds finitely many entries, no more than it was made
/// for, and its recency order lists each of them once.
pub open spec fn task_table_ok(c: lru::LruCache<u128, Task>) -> bool {
    &&& task_entries(c).dom().finite()
    &&& task_entries(c).dom().len() <= task_capacity(c)
    &&& task_capacity(c) > 0
    &&& order_ok(task_recency(c), task_entries(c).dom())
}

/// `lru::LruCache::new`: an empty table for at most `cap` entries. The
/// bound on `cap` keeps the table's allocation clear of the capacity
/// overflow the hash map panics on.
#[verifier::external_body]
fn task_table(cap: usize) -> (r: lru::LruCache<u128, Task>)
    requires
        0 < cap <= MAX_TABLE_ENTRIES,
    ensures
        task_entries(r).dom().is_empty(),
        task_capacity(r) == cap,
        task_recency(r).len() == 0,
{
    lru::LruCache::new(std::num::NonZeroUsize::new(cap).unwrap())
}

/// `lru::LruCache::get`: the entry for `k`, if held; what the table
/// holds stays, and a held `k` becomes the most recently used.
#[verifier::external_body]
fn task_get(c: &mut lru::LruCache<u128, Task>, k: u128) -> (r: Option<&Task>)
    ensures
        task_entries(*final(c)) == task_entries(*old(c)),
        task_capacity(*final(c)) == task_capacity(*old(c)),
        task_recency(*final(c)) == if task_entries(*old(c)).contains_key(k) {
            touched(task_recency(*old(c)), k)
        } else {
            task_recency(*old(c))
        },
        task_table_ok(*old(c)) ==> task_table_ok(*final(c)),
        match r {
            Some(v) => task_entries(*old(c)).contains_key(k) && *v == task_entries(*old(c))[k],
            None => !task_entries(*old(c)).contains_key(k),
        },
{
    c.get(&k)
}

/// `lru::LruCache::put`: `v` is held under `k`, which becomes the most
/// recently used; when `k` was not held and the table was full, the least
/// recently used entry leaves.
#[verifier::external_body]
fn task_put(c: &mut lru::LruCache<u128, Task>, k: u128, v: Task)
    ensures
        task_capacity(*final(c)) == task_capacity(*old(c)),
        task_entries(*final(c)).contains_key(k),
        task_entries(*final(c))[k] == v,
        forall|j: u128|
            j != k && #[trigger] task_entries(*final(c)).contains_key(j) ==> task_entries(
                *old(c),
            ).contains_key(j) && task_entries(*final(c))[j] == task_entries(*old(c))[j],
        task_table_ok(*old(c)) ==> task_table_ok(*final(c)),
        task_table_ok(*old(c)) ==> if task_entries(*old(c)).contains_key(k) {
            &&& task_entries(*final(c)) == task_entries(*old(c)).insert(k, v)
            &&& task_recency(*final(c)) == touched(task_recency(*old(c)), k)
        } else if task_entries(*old(c)).dom().len() < task_capacity(*old(c)) {
            &&& task_entries(*final(c)) == task_entries(*old(c)).insert(k, v)
            &&& task_recency(*final(c)) == task_recency(*old(c)).push(k)
        } else {
            &&& task_entries(*final(c)) == task_entries(*old(c)).remove(task_recency(*old(c))[0]).insert(
                k,
                v,
            )
            &&& task_recency(*final(c)) == task_recency(*old(c)).drop_first().push(k)
        },
        task_table_ok(*old(c)) && (task_entries(*old(c)).contains_key(k) || task_entries(
            *old(c),
        ).dom().len() < task_capacity(*old(c))) ==> forall|j: u128|
            #[trigger] task_entries(*old(c)).contains_key(j) ==> task_entries(
                *final(c),
            ).contains_key(j),
{
    c.put(k, v);
}

/// `lru::LruCache::pop`: the entry for `k` leaves, if held.
#[verifier::external_body]
fn task_pop(c: &mut lru::LruCache<u128, Task>, k: u128)
    ensures
        task_entries(*final(c)) == task_entries(*old(c)).remove(k),
        task_capacity(*final(c)) == task_capacity(*old(c)),
        task_recency(*final(c)) == without(task_recency(*old(c)), k),
        task_table_ok(*old(c)) ==> task_table_ok(*final(c)),
{
    c.pop(&k);
}

/// `lru::LruCache::clear`: every entry leaves.
#[verifier::external_body]
fn task_clear(c: &mut lru::LruCache<u128, Task>)
    ensures
        task_entries(*final(c)).dom().is_empty(),
        task_capacity(*final(c)) == task_capacity(*old(c)),
        task_recency(*final(c)).len() == 0,
{
    c.clear();
}

/// `lru::LruCache::len`: the number of entries held.
#[verifier::external_body]
fn task_len(c: &lru::LruCache<u128, Task>) -> (r: usize)
    ensures
        r == task_entries(*c).dom().len(),
{
    c.len()
}

/// What a lookup of `k` in `m` gives.
pub open spec fn found_template(m: Map<u128, Template>, k: u128, r: Option<Template>) -> bool {
    if m.contains_key(k) {
        r == Some(m[k])
    } else {
        r is None
    }
}

/// `after` holds `t` under `k`; every other entry of `after` was in
/// `before`, unchanged.
pub open spec fn remembered_template(before: Map<u128, Template>, after: Map<u128, Template>, k: u128, t: Template) -> bool {
    &&& after.contains_key(k)
    &&& after[k] == t
    &&& forall|j: u128|
        j != k && #[trigger] after.contains_key(j) ==> before.contains_key(j) && after[j] == before[j]
}

/// Templates by id in an LRU table, and the last full listing.
pub struct TemplateCache {
    entries: lru::LruCache<u128, Template>,
    list: Option<Vec<Template>>,
}

impl TemplateCache {
    /// The entries held, by id value.
    pub closed spec fn cached(&self) -> Map<u128, Template> {
        template_entries(self.entries)
    }

    /// The most entries held at once.
    pub closed spec fn capacity(&self) -> nat {
        template_capacity(self.entries)
    }

    /// The ids held, from the least recently used to the most recently
    /// used.
    pub closed spec fn recency(&self) -> Seq<u128> {
        template_recency(self.entries)
    }

    /// The listing held, if any.
    pub closed spec fn listing(&self) -> Option<Seq<Template>> {
        match self.list {
            Some(v) => Some(v@),
            None => None,
        }
    }

    /// Finitely many entries, no more than the capacity.
    pub closed spec fn wf(&self) -> bool {
        template_table_ok(self.entries)
    }

    /// An empty cache whose table holds `cfg.entries_capacity` entries.
    pub fn new(cfg: CacheConfig) -> (r: TemplateCache)
        requires
            0 < cfg.entries_capacity <= MAX_TABLE_ENTRIES,
        ensures
            r.wf(),
            r.cached().dom().is_empty(),
            r.capacity() == cfg.entries_capacity,
            r.listing() is None,
            r.recency().len() == 0,
    {
        let r = TemplateCache { entries: template_table(cfg.entries_capacity), list: None };
        proof {
            assert(template_entries(r.entries).dom() =~= Set::<u128>::empty());
        }
        r
    }

    /// The cached entry for `id`, if any.
    pub fn lookup(&mut self, id: TemplateId) -> (r: Option<&Template>)
        requires
            old(self).wf(),
        ensures
            final(self).wf(),
            final(self).cached() == old(self).cached(),
            final(self).capacity() == old(self).capacity(),
            final(self).listing() == old(self).listing(),
            final(self).recency() == if old(self).cached().contains_key(id.0) {
                touched(old(self).recency(), id.0)
            } else {
                old(self).recency()
            },
            found_template(
                old(self).cached(),
                id.0,
                match r {
                    Some(v) => Some(*v),
                    None => None,
                },
            ),
    {
        template_get(&mut self.entries, id.0)
    }

    /// Keeps what the store gave for `id`; when the table was full and
    /// `id` not in it, one other entry leaves.
    pub fn remember(&mut self, id: TemplateId, value: Template)
        requires
            old(self).wf(),
        ensures
            final(self).wf(),
            remembered_template(old(self).cached(), final(self).cached(), id.0, value),
            old(self).cached().contains_key(id.0) || old(self).cached().dom().len()
                < old(self).capacity() ==> old(self).cached().dom().subset_of(
                final(self).cached().dom(),
            ),
            final(self).capacity() == old(self).capacity(),
            final(self).listing() == old(self).listing(),
            old(self).cached().contains_key(id.0) ==> final(self).cached() == old(
                self,
            ).cached().insert(id.0, value) && final(self).recency() == touched(
                old(self).recency(),
                id.0,
            ),
            !old(self).cached().contains_key(id.0) && old(self).cached().dom().len() < old(
                self,
            ).capacity() ==> final(self).cached() == old(self).cached().insert(id.0, value)
                && final(self).recency() == old(self).recency().push(id.0),
            !old(self).cached().contains_key(id.0) && old(self).cached().dom().len() >= old(
                self,
            ).capacity() ==> final(self).cached() == old(self).cached().remove(
                old(self).recency()[0],
            ).insert(id.0, value) && final(self).recency() == old(
                self,
            ).recency().drop_first().push(id.0),
    {
        template_put(&mut self.entries, id.0, value);
    }

    /// The listing held, if any.
    pub fn lookup_list(&self) -> (r: Option<&Vec<Template>>)
        ensures
            match r {
                Some(v) => self.listing() == Some(v@),
                None => self.listing() is None,
            },
    {
        match &self.list {
            Some(v) => Some(v),
            None => None,
        }
    }

    /// Keeps the listing the store gave.
    pub fn remember_list(&mut self, list: Vec<Template>)
        ensures
            final(self).listing() == Some(list@),
            final(self).cached() == old(self).cached(),
            final(self).capacity() == old(self).capacity(),
            final(self).wf() == old(self).wf(),
            final(self).recency() == old(self).recency(),
    {
        self.list = Some(list);
    }

    /// Forgets the entry for `id` and the listing (after a write).
    pub fn invalidate(&mut self, id: TemplateId)
        requires
            old(self).wf(),
        ensures
            final(self).wf(),
            final(self).cached() == old(self).cached().remove(id.0),
            final(self).capacity() == old(self).capacity(),
            final(self).listing() is None,
            final(self).recency() == without(old(self).recency(), id.0),
    {
        template_pop(&mut self.entries, id.0);
        self.list = None;
        proof {
            let m = old(self).cached();
            if m.contains_key(id.0) {
                assert(m.remove(id.0).dom() =~= m.dom().remove(id.0));
            } else {
                assert(m.remove(id.0).dom() =~= m.dom());
            }
        }
    }

    /// Forgets everything.
    pub fn invalidate_all(&mut self)
        requires
            old(self).wf(),
        ensures
            final(self).wf(),
            final(self).cached().dom().is_empty(),
            final(self).capacity() == old(self).capacity(),
            final(self).listing() is None,
            final(self).recency().len() == 0,
    {
        template_clear(&mut self.entries);
        self.list = None;
        proof {
            assert(template_entries(self.entries).dom() =~= Set::<u128>::empty());
        }
    }

    /// How many entries are held.
    pub fn cached_entry_count(&self) -> (r: usize)
        ensures
            r == self.cached().dom().len(),
    {
        template_len(&self.entries)
    }
}

/// Once `t` is remembered under `k`, a lookup of `k` gives `t`.
pub proof fn lemma_template_lookup_after_remember(
    before: Map<u128, Template>,
    after: Map<u128, Template>,
    k: u128,
    t: Template,
    r: Option<Template>,
)
    requires
        remembered_template(before, after, k, t),
        found_template(after, k, r),
    ensures
        r == Some(t),
{
}

/// Once `k` is invalidated, a lookup of `k` misses.
pub proof fn lemma_template_lookup_after_invalidate(m: Map<u128, Template>, k: u128, r: Option<Template>)
    requires
        found_template(m.remove(k), k, r),
    ensures
        r is None,
{
}

/// Remembering an entry already held again keeps the number of
/// entries.
pub proof fn lemma_template_remember_held_keeps_count(
    before: Map<u128, Template>,
    after: Map<u128, Template>,
    k: u128,
    t: Template,
)
    requires
        before.dom().finite(),
        before.contains_key(k),
        remembered_template(before, after, k, t),
        before.dom().subset_of(after.dom()),
    ensures
        after.dom().len() == before.dom().len(),
{
    assert(after.dom() =~= before.dom());
}

/// What a lookup of `k` in `m` gives.
pub open spec fn found_task(m: Map<u128, Task>, k: u128, r: Option<Task>) -> bool {
    if m.contains_key(k) {
        r == Some(m[k])
    } else {
        r is None
    }
}

/// `after` holds `t` under `k`; every other entry of `after` was in
/// `before`, unchanged.
pub open spec fn remembered_task(before: Map<u128, Task>, after: Map<u128, Task>, k: u128, t: Task) -> bool {
    &&& after.contains_key(k)
    &&& after[k] == t
    &&& forall|j: u128|
        j != k && #[trigger] after.contains_key(j) ==> before.contains_key(j) && after[j] == before[j]
}

/// Tasks by id in an LRU table, and the last full listing.
pub struct TaskCache {
    entries: lru::LruCache<u128, Task>,
    list: Option<Vec<Task>>,
}

impl TaskCache {
    /// The entries held, by id value.
    pub closed spec fn cached(&self) -> Map<u128, Task> {
        task_entries(self.entries)
    }

    /// The most entries held at once.
    pub closed spec fn capacity(&self) -> nat {
        task_capacity(self.entries)
    }

    /// The ids held, from the least recently used to the most recently
    /// used.
    pub closed spec fn recency(&self) -> Seq<u128> {
        task_recency(self.entries)
    }

    /// The listing held, if any.
    pub closed spec fn listing(&self) -> Option<Seq<Task>> {
        match self.list {
            Some(v) => Some(v@),
            None => None,
        }
    }

    /// Finitely many entries, no more than the capacity.
    pub closed spec fn wf(&self) -> bool {
        task_table_ok(self.entries)
    }

    /// An empty cache whose table holds `cfg.entries_capacity` entries.
    pub fn new(cfg: CacheConfig) -> (r: TaskCache)
        requires
            0 < cfg.entries_capacity <= MAX_TABLE_ENTRIES,
        ensures
            r.wf(),
            r.cached().dom().is_empty(),
            r.capacity() == cfg.entries_capacity,
            r.listing() is None,
            r.recency().len() == 0,
    {
        let r = TaskCache { entries: task_table(cfg.entries_capacity), list: None };
        proof {
            assert(task_entries(r.entries).dom() =~= Set::<u128>::empty());
        }
        r
    }

    /// The cached entry for `id`, if any.
    pub fn lookup(&mut self, id: TaskId) -> (r: Option<&Task>)
        requires
            old(self).wf(),
        ensures
            final(self).wf(),
            final(self).cached() == old(self).cached(),
            final(self).capacity() == old(self).capacity(),
            final(self).listing() == old(self).listing(),
            final(self).recency() == if old(self).cached().contains_key(id.0) {
                touched(old(self).recency(), id.0)
            } else {
                old(self).recency()
            },
            found_task(
                old(self).cached(),
                id.0,
                match r {
                    Some(v) => Some(*v),
                    None => None,
                },
            ),
    {
        task_get(&mut self.entries, id.0)
    }

    /// Keeps what the store gave for `id`; when the table was full and
    /// `id` not in it, one other entry leaves.
    pub fn remember(&mut self, id: TaskId, value: Task)
        requires
            old(self).wf(),
        ensures
            final(self).wf(),
            remembered_task(old(self).cached(), final(self).cached(), id.0, value),
            old(self).cached().contains_key(id.0) || old(self).cached().dom().len()
                < old(self).capacity() ==> old(self).cached().dom().subset_of(
                final(self).cached().dom(),
            ),
            final(self).capacity() == old(self).capacity(),
            final(self).listing() == old(self).listing(),
            old(self).cached().contains_key(id.0) ==> final(self).cached() == old(
                self,
            ).cached().insert(id.0, value) && final(self).recency() == touched(
                old(self).recency(),
                id.0,
            ),
            !old(self).cached().contains_key(id.0) && old(self).cached().dom().len() < old(
                self,
            ).capacity() ==> final(self).cached() == old(self).cached().insert(id.0, value)
                && final(self).recency() == old(self).recency().push(id.0),
            !old(self).cached().contains_key(id.0) && old(self).cached().dom().len() >= old(
                self,
            ).capacity() ==> final(self).cached() == old(self).cached().remove(
                old(self).recency()[0],
            ).insert(id.0, value) && final(self).recency() == old(
                self,
            ).recency().drop_first().push(id.0),
    {
        task_put(&mut self.entries, id.0, value);
    }

    /// The listing held, if any.
    pub fn lookup_list(&self) -> (r: Option<&Vec<Task>>)
        ensures
            match r {
                Some(v) => self.listing() == Some(v@),
                None => self.listing() is None,
            },
    {
        match &self.list {
            Some(v) => Some(v),
            None => None,
        }
    }

    /// Keeps the listing the store gave.
    pub fn remember_list(&mut self, list: Vec<Task>)
        ensures
            final(self).listing() == Some(list@),
            final(self).cached() == old(self).cached(),
            final(self).capacity() == old(self).capacity(),
            final(self).wf() == old(self).wf(),
            final(self).recency() == old(self).recency(),
    {
        self.list = Some(list);
    }

    /// Forgets the entry for `id` and the listing (after a write).
    pub fn invalidate(&mut self, id: TaskId)
        requires
            old(self).wf(),
        ensures
            final(self).wf(),
            final(self).cached() == old(self).cached().remove(id.0),
            final(self).capacity() == old(self).capacity(),
            final(self).listing() is None,
            final(self).recency() == without(old(self).recency(), id.0),
    {
        task_pop(&mut self.entries, id.0);
        self.list = None;
        proof {
            let m = old(self).cached();
            if m.contains_key(id.0) {
                assert(m.remove(id.0).dom() =~= m.dom().remove(id.0));
            } else {
                assert(m.remove(id.0).dom() =~= m.dom());
            }
        }
    }

    /// Forgets everything.
    pub fn invalidate_all(&mut self)
        requires
            old(self).wf(),
        ensures
            final(self).wf(),
            final(self).cached().dom().is_empty(),
            final(self).capacity() == old(self).capacity(),
            final(self).listing() is None,
            final(self).recency().len() == 0,
    {
        task_clear(&mut self.entries);
        self.list = None;
        proof {
            assert(task_entries(self.entries).dom() =~= Set::<u128>::empty());
        }
    }

    /// How many entries are held.
    pub fn cached_entry_count(&self) -> (r: usize)
        ensures
            r == self.cached().dom().len(),
    {
        task_len(&self.entries)
    }
}

/// Once `t` is remembered under `k`, a lookup of `k` gives `t`.
pub proof fn lemma_task_lookup_after_remember(
    before: Map<u128, Task>,
    after: Map<u128, Task>,
    k: u128,
    t: Task,
    r: Option<Task>,
)
    requires
        remembered_task(before, after, k, t),
        found_task(after, k, r),
    ensures
        r == Some(t),
{
}

/// Once `k` is invalidated, a lookup of `k` misses.
pub proof fn lemma_task_lookup_after_invalidate(m: Map<u128, Task>, k: u128, r: Option<Task>)
    requires
        found_task(m.remove(k), k, r),
    ensures
        r is None,
{
}

/// Remembering an entry already held again keeps the number of
/// entries.
pub proof fn lemma_task_remember_held_keeps_count(
    before: Map<u128, Task>,
    after: Map<u128, Task>,
    k: u128,
    t: Task,
)
    requires
        before.dom().finite(),
        before.contains_key(k),
        remembered_task(before, after, k, t),
        before.dom().subset_of(after.dom()),
    ensures
        after.dom().len() == before.dom().len(),
{
    assert(after.dom() =~= before.dom());
}

/// The settings, once loaded.
pub struct SettingsCache {
    slot: Option<Settings>,
}

impl SettingsCache {
    /// The settings held, if any.
    pub closed spec fn held(&self) -> Option<Settings> {
        self.slot
    }

    /// Nothing held.
    pub fn new() -> (r: SettingsCache)
        ensures
            r.held() is None,
    {
        SettingsCache { slot: None }
    }

    /// The settings held, if any.
    pub fn lookup(&self) -> (r: Option<&Settings>)
        ensures
            match r {
                Some(s) => self.held() == Some(*s),
                None => self.held() is None,
            },
    {
        match &self.slot {
            Some(s) => Some(s),
            None => None,
        }
    }

    /// Keeps what the store gave.
    pub fn remember(&mut self, s: Settings)
        ensures
            final(self).held() == Some(s),
    {
        self.slot = Some(s);
    }

    /// Forgets the settings (after a write).
    pub fn invalidate(&mut self)
        ensures
            final(self).held() is None,
    {
        self.slot = None;
    }
}

} // verus!
