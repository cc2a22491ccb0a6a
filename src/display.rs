use vstd::prelude::*;

verus! {

/// The `wl_display` global: answers sync and hands out the registry.
pub struct WlDisplay;

impl WlDisplay {
    pub fn new() -> (r: Self) {
        WlDisplay
    }
}

/// A `wl_registry`, created by `get_registry`.
pub struct WlRegistry;

/// The `wl_compositor` global: a factory for surfaces and regions.
pub struct WlCompositor;

impl WlCompositor {
    pub fn new() -> (r: Self) {
        WlCompositor
    }
}

/// A `wl_region`.
pub struct WlRegion;

} // verus!
