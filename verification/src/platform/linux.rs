//! Linux: releases ship as AppImages inside zips.

use vstd::prelude::*;

use super::{data_dir, library_root_under, Platform};

verus! {

pub struct Linux;

impl Platform for Linux {
    open spec fn spec_asset_keyword(&self) -> Seq<char> {
        "Linux"@
    }

    fn asset_keyword(&self) -> (r: &'static str) {
        "Linux"
    }

    fn default_library_root(&self) -> (r: Option<String>) {
        match data_dir() {
            Some(d) => Some(library_root_under(&d)),
            None => None,
        }
    }

    fn config_dir(&self) -> (r: Option<String>) {
        super::config_dir()
    }

    fn cache_dir(&self) -> (r: Option<String>) {
        super::cache_dir()
    }
}

} // verus!
