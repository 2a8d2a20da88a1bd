//! The files a run produces, and the atlas size they are produced at.

use vstd::prelude::*;
use crate::cache::ModTime;
use crate::common::{ConfigStatus, PathState, Verbosity};
use crate::config::{Config, spec_default_output_name, spec_default_output_path};

verus! {

/// Why a file could not be registered as output.
pub enum OutputError {
    Io(std::io::Error),
    FileExpected,
}

/// What reading an output file's metadata told.
pub enum FileObservation {
    Found { is_file: bool },
    NotFound,
    Failed(std::io::Error),
}

/// A produced file and, when the producer has any, its statistics.
pub struct OutputFile<S> {
    path: String,
    stats: Option<S>,
}

impl<S> OutputFile<S> {
    pub closed spec fn spec_path(&self) -> Seq<char> {
        self.path@
    }

    pub closed spec fn spec_stats(&self) -> Option<S> {
        self.stats
    }

    pub fn new(path: String) -> (r: OutputFile<S>)
        ensures
            r.spec_path() == path@,
            r.spec_stats() is None,
    {
        OutputFile { path, stats: None }
    }

    pub fn with_stats(path: String, stats: S) -> (r: OutputFile<S>)
        ensures
            r.spec_path() == path@,
            r.spec_stats() == Some(stats),
    {
        OutputFile { path, stats: Some(stats) }
    }

    pub fn path(&self) -> (r: &str)
        ensures
            r@ == self.spec_path(),
    {
        self.path.as_str()
    }

    pub fn stats(&self) -> (r: Option<&S>)
        ensures
            r matches Some(s) ==> self.spec_stats() == Some(*s),
            r is None ==> self.spec_stats() is None,
    {
        match &self.stats {
            Some(s) => Some(s),
            None => None,
        }
    }
}

/// What one call does to an output's files: a registration, given with the
/// file and whether it succeeded, appends the file when it succeeded and
/// keeps the files otherwise; any other call (`None`) keeps them.
pub open spec fn files_step<S>(before: Output<S>, step: Option<(OutputFile<S>, bool)>, after: Output<S>) -> bool {
    after.spec_files() == match step {
        None => before.spec_files(),
        Some((f, ok)) => if ok {
            before.spec_files().push(f)
        } else {
            before.spec_files()
        },
    }
}

/// The files whose registration succeeded among some calls, in call order.
pub open spec fn registered_files<S>(steps: Seq<Option<(OutputFile<S>, bool)>>) -> Seq<OutputFile<S>>
    decreases steps.len(),
{
    if steps.len() == 0 {
        Seq::empty()
    } else {
        let prev = registered_files(steps.drop_last());
        match steps.last() {
            Some((f, ok)) => if ok {
                prev.push(f)
            } else {
                prev
            },
            None => prev,
        }
    }
}

/// The atlas size of the run and the files registered as its output.
pub struct Output<S> {
    atlas_width: u32,
    atlas_height: u32,
    files: Vec<OutputFile<S>>,
}

impl<S> Output<S> {
    pub closed spec fn spec_atlas_width(&self) -> u32 {
        self.atlas_width
    }

    pub closed spec fn spec_atlas_height(&self) -> u32 {
        self.atlas_height
    }

    pub closed spec fn spec_files(&self) -> Seq<OutputFile<S>> {
        self.files@
    }

    pub fn new(atlas_width: u32, atlas_height: u32) -> (r: Output<S>)
        ensures
            r.spec_atlas_width() == atlas_width,
            r.spec_atlas_height() == atlas_height,
            r.spec_files().len() == 0,
    {
        Output { atlas_width, atlas_height, files: Vec::new() }
    }

    pub fn atlas_width(&self) -> (r: u32)
        ensures
            r == self.spec_atlas_width(),
    {
        self.atlas_width
    }

    pub fn atlas_height(&self) -> (r: u32)
        ensures
            r == self.spec_atlas_height(),
    {
        self.atlas_height
    }

    /// Registers `output_file`, as observed on disk: it is kept when a file
    /// is there; a missing path or one that is not a file is refused as
    /// `FileExpected`, a failed observation with its I/O error.
    pub fn register_file(&mut self, output_file: OutputFile<S>, observed: FileObservation) -> (r: Result<(), OutputError>)
        ensures
            files_step(*old(self), Some((output_file, r is Ok)), *final(self)),
            final(self).spec_atlas_width() == old(self).spec_atlas_width(),
            final(self).spec_atlas_height() == old(self).spec_atlas_height(),
            observed matches FileObservation::Found { is_file } && is_file ==> r is Ok
                && final(self).spec_files() == old(self).spec_files().push(output_file),
            !(observed matches FileObservation::Found { is_file } && is_file) ==> r is Err
                && final(self).spec_files() == old(self).spec_files(),
            observed is NotFound ==> r matches Err(OutputError::FileExpected),
            observed matches FileObservation::Found { is_file } && !is_file ==> r matches Err(
                OutputError::FileExpected,
            ),
            observed matches FileObservation::Failed(e) ==> r == Err::<(), OutputError>(
                OutputError::Io(e),
            ),
    {
        match observed {
            FileObservation::Found { is_file } => {
                if !is_file {
                    return Err(OutputError::FileExpected);
                }
                self.files.push(output_file);
                Ok(())
            },
            FileObservation::NotFound => Err(OutputError::FileExpected),
            FileObservation::Failed(e) => Err(OutputError::Io(e)),
        }
    }

    pub fn files(&self) -> (r: &Vec<OutputFile<S>>)
        ensures
            r@ == self.spec_files(),
    {
        &self.files
    }

    /// A square atlas of side `atlas_size`.
    pub fn set_atlas_size(&mut self, atlas_size: u32)
        ensures
            files_step(*old(self), None, *final(self)),
            final(self).spec_atlas_width() == atlas_size,
            final(self).spec_atlas_height() == atlas_size,
            final(self).spec_files() == old(self).spec_files(),
    {
        self.atlas_width = atlas_size;
        self.atlas_height = atlas_size;
    }

    pub fn set_atlas_dimensions(&mut self, width: u32, height: u32)
        ensures
            files_step(*old(self), None, *final(self)),
            final(self).spec_atlas_width() == width,
            final(self).spec_atlas_height() == height,
            final(self).spec_files() == old(self).spec_files(),
    {
        self.atlas_width = width;
        self.atlas_height = height;
    }
}

/// Copies produced files to the output directory.
pub struct OutputProcessor {
    verbose: bool,
}

impl Verbosity for OutputProcessor {
    closed spec fn spec_is_verbose(&self) -> bool {
        self.verbose
    }

    fn verbose(&mut self, verbose: bool) {
        self.verbose = verbose;
    }

    fn is_verbose(&self) -> bool {
        self.verbose
    }
}

impl OutputProcessor {
    pub fn new() -> (r: OutputProcessor)
        ensures
            !r.spec_is_verbose(),
    {
        OutputProcessor { verbose: false }
    }

    /// Fills the output directory with its default when it is empty; the
    /// settings then changed.
    pub fn apply_output_path_default(config: &mut Config) -> (r: ConfigStatus)
        ensures
            final(config).output.path@ == if old(config).output.path@.len() == 0 {
                spec_default_output_path()
            } else {
                old(config).output.path@
            },
            (r is Modified) == (old(config).output.path@.len() == 0),
            final(config).output.name == old(config).output.name,
            final(config).output.verbose == old(config).output.verbose,
            final(config).cache == old(config).cache,
            final(config).image == old(config).image,
            final(config).packer == old(config).packer,
            final(config).data == old(config).data,
            final(config).prettify == old(config).prettify,
    {
        if config.output.path.as_str().is_empty() {
            config.output.path = Config::default_output_path();
            ConfigStatus::Modified
        } else {
            ConfigStatus::NotModified
        }
    }

    /// A produced file is copied again unless the copy in the output
    /// directory is newer than it.
    pub fn is_unchanged(source_modtime: ModTime, output_modtime: Option<ModTime>) -> (r: bool)
        ensures
            r == (output_modtime matches Some(o) && source_modtime.spec_is_before(o)),
    {
        match output_modtime {
            Some(o) => source_modtime.is_before(&o),
            None => false,
        }
    }
}

/// Checks the general settings before anything runs.
pub struct ConfigProcessor {
    verbose: bool,
}

impl Verbosity for ConfigProcessor {
    closed spec fn spec_is_verbose(&self) -> bool {
        self.verbose
    }

    fn verbose(&mut self, verbose: bool) {
        self.verbose = verbose;
    }

    fn is_verbose(&self) -> bool {
        self.verbose
    }
}

impl ConfigProcessor {
    pub fn new() -> (r: ConfigProcessor)
        ensures
            !r.spec_is_verbose(),
    {
        ConfigProcessor { verbose: false }
    }

    /// Fills the output directory and the output name with their defaults
    /// where they are empty; the settings changed when either was filled.
    pub fn apply_output_defaults(config: &mut Config) -> (r: ConfigStatus)
        ensures
            final(config).output.path@ == if old(config).output.path@.len() == 0 {
                spec_default_output_path()
            } else {
                old(config).output.path@
            },
            final(config).output.name@ == if old(config).output.name@.len() == 0 {
                spec_default_output_name()
            } else {
                old(config).output.name@
            },
            (r is Modified) == (old(config).output.path@.len() == 0 || old(config).output.name@.len()
                == 0),
            final(config).cache == old(config).cache,
            final(config).image == old(config).image,
            final(config).packer == old(config).packer,
            final(config).data == old(config).data,
            final(config).prettify == old(config).prettify,
    {
        let mut status = ConfigStatus::NotModified;
        if config.output.path.as_str().is_empty() {
            config.output.path = Config::default_output_path();
            status = ConfigStatus::Modified;
        }
        if config.output.name.as_str().is_empty() {
            config.output.name = Config::default_output_name();
            status = ConfigStatus::Modified;
        }
        status
    }
}

} // verus!
