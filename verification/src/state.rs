//! What the processors share while a run goes on.

use vstd::prelude::*;
use crate::cache::{Cache, CacheMetadata, DataOutputMetadata, GenerationMetadata, ImageOutputMetadata, ModTime};
use crate::config::Config;
use crate::image::GraphicOutput;
use crate::output::Output;

verus! {

/// Options given on the command line for every mode.
pub struct GlobalArgs {
    pub verbose: bool,
    pub debug: bool,
    pub force: bool,
    pub config_filepath: String,
}

/// Options of the generator mode.
pub struct GeneratorModeArgs {
    pub global: GlobalArgs,
}

/// The settings, the cache once imported, the graphics gathered and the
/// output registered so far, and the options of the run. `S` is the type of
/// the statistics attached to output files.
pub struct State<'a, S> {
    pub config: Config,
    pub cache: Option<Cache>,
    pub graphic_output: GraphicOutput,
    pub output: Output<S>,
    pub args: &'a GeneratorModeArgs,
}

impl<'a, S> State<'a, S> {
    /// A state whose atlas starts at the configured size.
    pub fn new(config: Config, args: &'a GeneratorModeArgs) -> (r: State<'a, S>)
        ensures
            r.output.spec_atlas_width() == config.packer.atlas_size,
            r.output.spec_atlas_height() == config.packer.atlas_size,
            r.output.spec_files().len() == 0,
            r.config == config,
            r.cache is None,
            r.graphic_output.graphics@.len() == 0,
            !r.graphic_output.requested,
            r.args == args,
    {
        let output = Output::new(config.packer.atlas_size, config.packer.atlas_size);
        State { config, cache: None, graphic_output: GraphicOutput::new(), output, args }
    }

    pub fn args(&self) -> (r: &GeneratorModeArgs)
        ensures
            r == self.args,
    {
        self.args
    }

    /// The metadata of a cache generated now, from a source directory last
    /// modified at `source_directory_modtime`.
    pub fn create_cache_metadata(&self, source_directory_modtime: ModTime) -> (r: CacheMetadata)
        ensures
            r.spec_version() == crate::cache::spec_crate_version(),
            r.spec_generation().image.source_directory_modtime == source_directory_modtime,
            r.spec_generation().data.prettified == self.config.data.prettify,
    {
        CacheMetadata::new(
            GenerationMetadata {
                image: ImageOutputMetadata { source_directory_modtime },
                data: DataOutputMetadata { prettified: self.config.data.prettify },
            },
        )
    }

    /// Gives the cache the current metadata, creating an empty cache at the
    /// configured places when there is none yet.
    pub fn refresh_cache_metadata(&mut self, metadata: CacheMetadata)
        ensures
            final(self).cache matches Some(c) && c.spec_meta() == metadata,
            old(self).cache matches Some(c) ==> (final(self).cache matches Some(f) && f.spec_entries()
                == c.spec_entries() && f.spec_is_outdated() == c.spec_is_outdated()
                && f.spec_images_path() == c.spec_images_path() && f.spec_atlas_output_path()
                == c.spec_atlas_output_path()),
            old(self).cache is None ==> (final(self).cache matches Some(f) && f.spec_entries().len() == 0
                && !f.spec_is_outdated() && f.spec_images_path()
                == old(self).config.cache.spec_images_path() && f.spec_atlas_output_path()
                == old(self).config.cache.spec_atlas_path()),
            final(self).config == old(self).config,
            final(self).output == old(self).output,
    {
        match self.cache.take() {
            Some(mut c) => {
                c.set_meta(metadata);
                self.cache = Some(c);
            },
            None => {
                let images = self.config.cache.images_path();
                let atlas = self.config.cache.atlas_path();
                self.cache = Some(Cache::new(metadata, images, atlas));
            },
        }
    }
}

} // verus!
