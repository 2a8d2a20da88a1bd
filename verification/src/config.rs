//! Settings that the processors read and adjust.

use vstd::prelude::*;
use crate::paths::{path_join, spec_path_join};

verus! {

/// How much the image processing reports while it runs.
#[derive(Clone, Copy, PartialEq, Eq, Structural, Debug)]
pub enum DisplayKind {
    Simple,
    List,
    Detailed,
}

pub struct AsepriteConfig {
    pub bin_path: String,
}

pub struct ImageConfig {
    pub verbose: bool,
    pub input_path: String,
    pub output_path: String,
    pub jobs: u32,
    pub display: DisplayKind,
    pub aseprite: AsepriteConfig,
}

pub struct CacheConfig {
    pub verbose: bool,
    pub path: String,
    pub identifier: String,
}

pub struct RetryConfig {
    pub enable: bool,
    pub max_retries: u32,
    pub until_atlas_size: u32,
}

pub struct PackerConfig {
    pub verbose: bool,
    pub atlas_size: u32,
    pub optimize: bool,
    pub retry: RetryConfig,
}

pub struct DataConfig {
    pub verbose: bool,
    pub prettify: bool,
}

pub struct OutputConfig {
    pub verbose: bool,
    pub path: String,
    pub name: String,
}

pub struct Config {
    pub verbose: bool,
    pub prettify: bool,
    pub cache: CacheConfig,
    pub image: ImageConfig,
    pub packer: PackerConfig,
    pub data: DataConfig,
    pub output: OutputConfig,
}

/// The name given to generated files when none is configured.
pub open spec fn spec_default_output_name() -> Seq<char> {
    seq!['a', 't', 'l', 'a', 's']
}

/// The output directory used when none is configured.
pub open spec fn spec_default_output_path() -> Seq<char> {
    seq!['o', 'u', 't', 'p', 'u', 't']
}

impl Config {
    pub fn default_output_name() -> (r: String)
        ensures
            r@ == spec_default_output_name(),
    {
        let r = "atlas".to_owned();
        proof {
            reveal_strlit("atlas");
        }
        r
    }

    pub fn default_output_path() -> (r: String)
        ensures
            r@ == spec_default_output_path(),
    {
        let r = "output".to_owned();
        proof {
            reveal_strlit("output");
        }
        r
    }
}

impl CacheConfig {
    /// The directory of this cache instance: the cache path joined with the
    /// identifier.
    pub open spec fn spec_root_path(&self) -> Seq<char> {
        spec_path_join(self.path@, self.identifier@)
    }

    pub open spec fn spec_images_path(&self) -> Seq<char> {
        spec_path_join(self.spec_root_path(), seq!['i', 'm', 'a', 'g', 'e', 's'])
    }

    pub open spec fn spec_atlas_path(&self) -> Seq<char> {
        spec_path_join(self.spec_root_path(), seq!['a', 't', 'l', 'a', 's'])
    }

    pub fn root_path(&self) -> (r: String)
        ensures
            r@ == self.spec_root_path(),
    {
        path_join(self.path.as_str(), self.identifier.as_str())
    }

    /// Where the per-source frame images of this cache instance live.
    pub fn images_path(&self) -> (r: String)
        ensures
            r@ == self.spec_images_path(),
    {
        let root = self.root_path();
        let name = "images";
        proof {
            reveal_strlit("images");
            assert(name@ =~= seq!['i', 'm', 'a', 'g', 'e', 's']);
        }
        path_join(root.as_str(), name)
    }

    /// Where the generated atlas files of this cache instance live.
    pub fn atlas_path(&self) -> (r: String)
        ensures
            r@ == self.spec_atlas_path(),
    {
        let root = self.root_path();
        let name = "atlas";
        proof {
            reveal_strlit("atlas");
            assert(name@ =~= seq!['a', 't', 'l', 'a', 's']);
        }
        path_join(root.as_str(), name)
    }
}

impl OutputConfig {
    pub open spec fn spec_name_or_default(&self) -> Seq<char> {
        if self.name@.len() == 0 {
            spec_default_output_name()
        } else {
            self.name@
        }
    }

    /// The configured output name, or the default one when it is empty.
    pub fn name_or_default(&self) -> (r: String)
        ensures
            r@ == self.spec_name_or_default(),
    {
        if self.name.as_str().is_empty() {
            Config::default_output_name()
        } else {
            self.name.clone()
        }
    }
}

} // verus!
