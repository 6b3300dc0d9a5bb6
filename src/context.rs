//! The per-request context: the parameters taken from the path and a shared
//! reference to the registry of services.
use vstd::prelude::*;
use std::any::Any;
use std::sync::Arc;
use crate::registry::{has_key, SharedGlobal};

verus! {

/// The views of a list of name and value pairs.
pub open spec fn pairs_view(v: Seq<(String, String)>) -> Seq<(Seq<char>, Seq<char>)> {
    v.map_values(|p: (String, String)| (p.0@, p.1@))
}

/// The value of the first pair in `params` named `name`.
pub open spec fn param_value(params: Seq<(Seq<char>, Seq<char>)>, name: Seq<char>) -> Option<
    Seq<char>,
>
    decreases params.len(),
{
    if params.len() == 0 {
        None
    } else if params[0].0 == name {
        Some(params[0].1)
    } else {
        param_value(params.drop_first(), name)
    }
}

/// What a handler is given for one request.
#[derive(Clone)]
pub struct RequestContext {
    /// The registry of shared services.
    pub global: Arc<SharedGlobal>,
    /// The parameters of the matched route, by placeholder name.
    pub params: Vec<(String, String)>,
}

impl RequestContext {
    /// The value of the path parameter `name`, if the matched route had it.
    pub fn param(&self, name: &str) -> (r: Option<&str>)
        ensures
            match r {
                Some(v) => param_value(pairs_view(self.params@), name@) == Some(v@),
                None => param_value(pairs_view(self.params@), name@) is None,
            },
    {
        let ghost pv = pairs_view(self.params@);
        let n = name.to_owned();
        let mut i: usize = 0;
        assert(pv.subrange(0, pv.len() as int) =~= pv);
        while i < self.params.len()
            invariant
                n@ == name@,
                pv == pairs_view(self.params@),
                i <= pv.len(),
                param_value(pv, name@) == param_value(pv.subrange(i as int, pv.len() as int), name@),
            decreases pv.len() - i,
        {
            let ghost rest = pv.subrange(i as int, pv.len() as int);
            assert(rest.drop_first() =~= pv.subrange(i + 1, pv.len() as int));
            assert(rest[0] == pv[i as int]);
            if self.params[i].0 == n {
                return Some(self.params[i].1.as_str());
            }
            i = i + 1;
        }
        None
    }

    /// The service stored under `key` in the shared registry, where its type
    /// is `T`. A key that was never registered gives `None`.
    pub fn global<T: Any + Send + Sync>(&self, key: &str) -> (r: Option<&T>)
        ensures
            !has_key(self.global@, key@) ==> r is None,
    {
        self.global.get::<T>(key)
    }
}

} // verus!
