//! Where the session cache lives.

use vstd::prelude::*;

use crate::text::{trim, trim_str};

verus! {

/// Which directory holds the session cache.
#[derive(Debug)]
pub enum CacheDirChoice {
    /// The directory given on the command line.
    Custom,
    /// The directory named by the `SPOTSTREAM_CACHE_DIR` variable, trimmed.
    FromEnv(String),
    /// `spotstream/cache` under the platform's local data directory.
    UnderLocalData,
    /// `.spotstream_cache` in the working directory.
    Fallback,
}

/// Chooses the cache directory: a directory given on the command line
/// first; else the environment variable's value, trimmed, unless that is
/// empty; else the platform's local data directory where it has one; else a
/// directory in the working directory.
pub fn choose_cache_dir(custom_given: bool, env_value: Option<&str>, local_data_known: bool) -> (choice:
    CacheDirChoice)
    ensures
        custom_given ==> choice is Custom,
        !custom_given && env_value is Some && trim(env_value.unwrap()@).len() > 0 ==> (
        choice matches CacheDirChoice::FromEnv(dir) && dir@ == trim(env_value.unwrap()@)),
        !custom_given && (env_value is None || trim(env_value.unwrap()@).len() == 0)
            ==> if local_data_known {
            choice is UnderLocalData
        } else {
            choice is Fallback
        },
{
    if custom_given {
        return CacheDirChoice::Custom;
    }
    if let Some(value) = env_value {
        let trimmed = trim_str(value);
        if !trimmed.is_empty() {
            return CacheDirChoice::FromEnv(trimmed.to_owned());
        }
    }
    if local_data_known {
        CacheDirChoice::UnderLocalData
    } else {
        CacheDirChoice::Fallback
    }
}

} // verus!
