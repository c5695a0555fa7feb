//! Provider and model resolution from message overrides and defaults.
use vstd::prelude::*;

use crate::bus::{get_meta, meta_get};
use crate::error::ZeptoError;
use crate::channels::contains_string;
use crate::text::to_owned_string;

verus! {

/// Resolves the provider and the model of a run.
#[derive(Debug)]
pub struct ProviderResolutionMiddleware;

/// A non-empty override stored under `key`.
pub open spec fn override_of(md: Seq<(String, String)>, key: Seq<char>) -> Option<Seq<char>> {
    match meta_get(md, key) {
        Some(v) => if v.len() > 0 {
            Some(v)
        } else {
            None
        },
        None => None,
    }
}

/// The model of a run: a non-empty `model_override`, else the default.
pub open spec fn resolved_model(md: Seq<(String, String)>, default_model: Seq<char>) -> Seq<char> {
    match override_of(md, "model_override"@) {
        Some(m) => m,
        None => default_model,
    }
}

/// The provider of a run among the registered names (in registry order): a
/// registered non-empty `provider_override`, else the first registered one.
pub open spec fn resolved_provider(md: Seq<(String, String)>, registered: Seq<Seq<char>>) -> Option<
    Seq<char>,
> {
    match override_of(md, "provider_override"@) {
        Some(p) if registered.contains(p) => Some(p),
        _ => if registered.len() > 0 {
            Some(registered[0])
        } else {
            None
        },
    }
}

impl ProviderResolutionMiddleware {
    /// The provider-resolution middleware.
    pub fn new() -> (m: Self) {
        ProviderResolutionMiddleware
    }

    /// The middleware's name.
    pub fn name(&self) -> (s: &'static str)
        ensures
            s@ == "provider_resolution"@,
    {
        "provider_resolution"
    }

    /// The model for a message with the given metadata.
    pub fn resolve_model(metadata: &Vec<(String, String)>, default_model: &str) -> (r: String)
        ensures
            r@ == resolved_model(metadata@, default_model@),
    {
        match get_meta(metadata, "model_override") {
            Some(m) => {
                if m.as_str().is_empty() {
                    to_owned_string(default_model)
                } else {
                    m.clone()
                }
            },
            None => to_owned_string(default_model),
        }
    }

    /// The provider for a message with the given metadata, among the
    /// registered provider names in registry order; an error when none is
    /// registered.
    pub fn resolve_provider(metadata: &Vec<(String, String)>, registered: &Vec<String>) -> (r: Result<
        String,
        ZeptoError,
    >)
        ensures
            match resolved_provider(metadata@, registered@.map_values(|s: String| s@)) {
                Some(p) => r matches Ok(name) && name@ == p,
                None => r matches Err(ZeptoError::Provider(m)) && m@ == "No provider configured"@,
            },
    {
        let ghost names = registered@.map_values(|s: String| s@);
        if let Some(p) = get_meta(metadata, "provider_override") {
            if !p.as_str().is_empty() && contains_string(registered, p.as_str()) {
                return Ok(p.clone());
            }
        }
        if registered.len() > 0 {
            assert(names[0] == registered@[0]@);
            Ok(registered[0].clone())
        } else {
            Err(ZeptoError::Provider(to_owned_string("No provider configured")))
        }
    }
}

} // verus!
