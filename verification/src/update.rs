//! The cached list of models.
use vstd::prelude::*;
use crate::paths;
use crate::paths::PlacedPath;

verus! {

/// The version of the form in which models are cached. A list in another form is not used.
pub const CACHE_VERSION: u32 = 4;

/// The directory of the cache, in the data directory of the user.
pub fn cache_dir(data_dir: Option<&str>) -> (r: Option<PlacedPath>)
    ensures
        match (r, data_dir) {
            (Some(p), Some(d)) => p@ == (d@, seq!["llmfit"]),
            (None, None) => true,
            _ => false,
        },
{
    match data_dir {
        Some(d) => {
            let names: Vec<&'static str> = vec!["llmfit"];
            assert(names@ =~= seq!["llmfit"]);
            Some(paths::placed(d, names))
        },
        None => None,
    }
}

/// The file that holds the cached list.
pub fn cache_file(data_dir: Option<&str>) -> (r: Option<PlacedPath>)
    ensures
        match (r, data_dir) {
            (Some(p), Some(d)) => p@ == (d@, seq!["llmfit", "hf_models_cache.json"]),
            (None, None) => true,
            _ => false,
        },
{
    match cache_dir(data_dir) {
        Some(p) => {
            let mut p = p;
            p.names.push("hf_models_cache.json");
            assert(p.names@ =~= seq!["llmfit", "hf_models_cache.json"]);
            Some(p)
        },
        None => None,
    }
}

/// The models of a cached list that was read with its version: none where there is no list or
/// where it has another version.
pub fn load_cache<T>(envelope: Option<(u32, Vec<T>)>) -> (r: Vec<T>)
    ensures
        r@ == (match envelope {
            Some((version, models)) => if version == CACHE_VERSION {
                models@
            } else {
                Seq::empty()
            },
            None => Seq::empty(),
        }),
{
    match envelope {
        Some((version, models)) => if version == CACHE_VERSION {
            models
        } else {
            Vec::new()
        },
        None => Vec::new(),
    }
}

} // verus!
