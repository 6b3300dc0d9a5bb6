//! The shared registry: singleton services stored under string keys, each
//! with its own type, and read back by key and requested type.
use vstd::prelude::*;
use std::any::Any;
use std::sync::Arc;

verus! {

/// A service value whose type has been erased. Verus has no `dyn` types, so
/// the value is kept out of its sight.
#[verifier::external_body]
pub struct Service {
    value: Arc<dyn Any + Send + Sync>,
}

/// Relies on `Arc::new` and the coercion of `Arc<T>` to `Arc<dyn Any>`: the
/// value, behind a shared reference that remembers its type.
#[verifier::external_body]
fn erase<T: Any + Send + Sync>(value: T) -> Service {
    Service { value: Arc::new(value) }
}

/// Relies on `<dyn Any>::downcast_ref`: the stored value, where its type is
/// `T`, and `None` otherwise.
#[verifier::external_body]
fn downcast<T: Any + Send + Sync>(s: &Service) -> Option<&T> {
    s.value.downcast_ref::<T>()
}

/// Whether `key` is one of the keys of `entries`.
pub open spec fn has_key(entries: Seq<(Seq<char>, Service)>, key: Seq<char>) -> bool {
    exists|i: int| 0 <= i < entries.len() && (#[trigger] entries[i]).0 == key
}

/// Whether no key stands twice in `entries`.
pub open spec fn keys_unique(entries: Seq<(Seq<char>, Service)>) -> bool {
    forall|i: int, j: int|
        0 <= i < j < entries.len() ==> (#[trigger] entries[i]).0 != (#[trigger] entries[j]).0
}

/// `after` is `before` with the entry of `key` given a new service: in place
/// where `key` stood already, else added at the end.
pub open spec fn stores_under(
    before: Seq<(Seq<char>, Service)>,
    after: Seq<(Seq<char>, Service)>,
    key: Seq<char>,
) -> bool {
    if has_key(before, key) {
        exists|i: int|
            0 <= i < before.len() && (#[trigger] before[i]).0 == key && after == before.update(
                i,
                (key, after[i].1),
            )
    } else {
        after == before.push((key, after.last().1))
    }
}

/// The registry of shared services, in the order in which their keys were
/// first registered. Each key stands once.
pub struct SharedGlobal {
    data: Vec<(String, Service)>,
}

impl View for SharedGlobal {
    type V = Seq<(Seq<char>, Service)>;

    closed spec fn view(&self) -> Seq<(Seq<char>, Service)> {
        self.data@.map_values(|e: (String, Service)| (e.0@, e.1))
    }
}

impl SharedGlobal {
    /// Each key stands once.
    pub open spec fn wf(&self) -> bool {
        keys_unique(self@)
    }

    /// An empty registry.
    pub fn new() -> (r: SharedGlobal)
        ensures
            r.wf(),
            r@.len() == 0,
    {
        SharedGlobal { data: Vec::new() }
    }

    /// Stores `value` under `key`, in place of what stood there before.
    /// The other entries stay as they were.
    pub fn register<T: Any + Send + Sync>(&mut self, key: &str, value: T)
        requires
            old(self).wf(),
        ensures
            final(self).wf(),
            stores_under(old(self)@, final(self)@, key@),
    {
        let k = key.to_owned();
        let service = erase(value);
        let mut i: usize = 0;
        while i < self.data.len()
            invariant
                self.data@ == old(self).data@,
                self.wf(),
                k@ == key@,
                i <= self.data@.len(),
                forall|j: int| 0 <= j < i ==> (#[trigger] self@[j]).0 != key@,
            decreases self.data@.len() - i,
        {
            if self.data[i].0 == k {
                let ghost before = self@;
                assert(before[i as int].0 == key@);
                self.data.set(i, (k, service));
                proof {
                    assert(has_key(before, key@));
                    assert(self@ =~= before.update(i as int, (key@, self@[i as int].1)));
                    assert(keys_unique(self@)) by {
                        assert forall|a: int, b: int| 0 <= a < b < self@.len() implies (
                        #[trigger] self@[a]).0 != (#[trigger] self@[b]).0 by {
                            assert(before[a].0 != before[b].0);
                        }
                    }
                }
                return;
            }
            i = i + 1;
        }
        let ghost before = self@;
        self.data.push((k, service));
        proof {
            assert(self@ =~= before.push((key@, self@.last().1)));
            assert(!has_key(before, key@));
            assert(keys_unique(self@)) by {
                assert forall|a: int, b: int| 0 <= a < b < self@.len() implies (
                #[trigger] self@[a]).0 != (#[trigger] self@[b]).0 by {
                    if b < before.len() {
                        assert(before[a].0 != before[b].0);
                    } else {
                        assert(before[a].0 != key@);
                    }
                }
            }
        }
    }

    /// The service stored under `key`, where its type is `T`. A key that
    /// was never registered gives `None`.
    pub fn get<T: Any + Send + Sync>(&self, key: &str) -> (r: Option<&T>)
        ensures
            !has_key(self@, key@) ==> r is None,
    {
        let k = key.to_owned();
        let mut i: usize = 0;
        while i < self.data.len()
            invariant
                k@ == key@,
                i <= self.data@.len(),
                forall|j: int| 0 <= j < i ==> (#[trigger] self@[j]).0 != key@,
            decreases self.data@.len() - i,
        {
            if self.data[i].0 == k {
                assert(self@[i as int].0 == key@);
                return downcast::<T>(&self.data[i].1);
            }
            i = i + 1;
        }
        None
    }
}

} // verus!
