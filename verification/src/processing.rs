//! The decisions of image processing: how many workers run, whether sources
//! have to be processed again, and the tally of what processing produced.

use vstd::prelude::*;
use crate::cache::{Cache, ModTime};
use crate::graphics::Graphic;
use crate::image::GraphicOutput;
use crate::paths::{path_join, relative_location, spec_path_join, spec_strip_prefix, spec_without_extension};

verus! {

/// `num_cpus::get()`: the number of logical CPUs available, which the crate
/// documents as always at least one.
#[verifier::external_body]
fn available_cpus() -> (r: usize)
    ensures
        r >= 1,
{
    num_cpus::get()
}

/// The number of processing workers for `cpus` available CPUs: the
/// configured number of jobs, or one per CPU when none is configured.
pub fn worker_count(jobs: u32, cpus: usize) -> (r: usize)
    ensures
        jobs > 0 ==> r == jobs,
        jobs == 0 ==> r == cpus,
{
    if jobs > 0 {
        jobs as usize
    } else {
        cpus
    }
}

/// The number of processing workers: the configured number of jobs, or one
/// per available CPU when none is configured.
pub fn processing_thread_count(jobs: u32) -> (r: usize)
    ensures
        jobs > 0 ==> r == jobs,
        r >= 1,
{
    if jobs > 0 {
        jobs as usize
    } else {
        worker_count(jobs, available_cpus())
    }
}

/// Sources have to be processed unless the run is not forced, the cache is up
/// to date, no new atlas was asked for, and the source directory was not
/// modified since the cache was written.
pub open spec fn spec_processing_needed(
    force: bool,
    cache: Option<Cache>,
    requested: bool,
    source_directory_modtime: ModTime,
) -> bool {
    force || match cache {
        None => true,
        Some(c) => c.spec_is_outdated() || requested
            || c.spec_meta().spec_generation().image.source_directory_modtime != source_directory_modtime,
    }
}

pub fn processing_needed(force: bool, cache: &Option<Cache>, requested: bool, source_directory_modtime: ModTime) -> (r: bool)
    ensures
        r == spec_processing_needed(force, *cache, requested, source_directory_modtime),
{
    if force {
        return true;
    }
    match cache {
        None => true,
        Some(c) => {
            if c.is_updated() && !requested {
                c.meta().generation_metadata().image.source_directory_modtime != source_directory_modtime
            } else {
                true
            }
        },
    }
}

/// Where a source file's frame images go: its location under the input
/// directory, taken under the cache's image directory. `None` when the source
/// does not lie under the input directory.
pub open spec fn spec_source_output_dir(source: Seq<char>, input: Seq<char>, images: Seq<char>) -> Option<Seq<char>> {
    match spec_strip_prefix(source, input) {
        Some(rel) => Some(spec_path_join(images, spec_without_extension(rel))),
        None => None,
    }
}

pub fn source_output_dir(source_filepath: &str, input_path: &str, images_path: &str) -> (r: Option<String>)
    ensures
        r is Some <==> spec_source_output_dir(source_filepath@, input_path@, images_path@) is Some,
        r matches Some(p) ==> spec_source_output_dir(source_filepath@, input_path@, images_path@)
            == Some(p@),
{
    match relative_location(source_filepath, input_path) {
        Some(location) => Some(path_join(images_path, location.as_str())),
        None => None,
    }
}

/// What processing one source file gave.
pub enum ProcessedData<E> {
    /// The source holds nothing to show.
    Succeeded,
    /// A new graphic.
    New(Graphic),
    /// The format handler failed.
    Failed(E),
}

/// The result of one source file, from the worker that processed it.
pub struct ProcessedInfo<E> {
    pub location: String,
    pub thread_index: usize,
    pub data: ProcessedData<E>,
}

impl<E> ProcessedInfo<E> {
    /// Classifies what a format handler returned: an empty graphic counts
    /// as done with nothing to add, any other graphic as new, an error as a
    /// failure.
    pub fn from_outcome(location: String, thread_index: usize, outcome: Result<Graphic, E>) -> (r: ProcessedInfo<E>)
        ensures
            r.location == location,
            r.thread_index == thread_index,
            match outcome {
                Ok(Graphic::Empty) => r.data is Succeeded,
                Ok(g) => r.data == ProcessedData::<E>::New(g),
                Err(e) => r.data == ProcessedData::<E>::Failed(e),
            },
    {
        let data = match outcome {
            Ok(Graphic::Empty) => ProcessedData::Succeeded,
            Ok(g) => ProcessedData::New(g),
            Err(e) => ProcessedData::Failed(e),
        };
        ProcessedInfo { location, thread_index, data }
    }
}

/// The tally of a processing run.
pub struct ProcessingStats {
    pub total_processed_files: usize,
    pub succeeded_files: u32,
    pub new_files: u32,
    pub failed_files: u32,
    pub failed_cache_retrieve: u32,
}

impl ProcessingStats {
    pub fn new() -> (r: ProcessingStats)
        ensures
            r == (ProcessingStats {
                total_processed_files: 0,
                succeeded_files: 0,
                new_files: 0,
                failed_files: 0,
                failed_cache_retrieve: 0,
            }),
    {
        ProcessingStats {
            total_processed_files: 0,
            succeeded_files: 0,
            new_files: 0,
            failed_files: 0,
            failed_cache_retrieve: 0,
        }
    }

    pub fn new_files(&self) -> (r: u32)
        ensures
            r == self.new_files,
    {
        self.new_files
    }

    pub fn failed_cache_retrieve(&self) -> (r: u32)
        ensures
            r == self.failed_cache_retrieve,
    {
        self.failed_cache_retrieve
    }

    /// A source outside the input directory counts as a failed file.
    pub fn record_outside_input(&mut self)
        requires
            old(self).failed_files < u32::MAX,
            old(self).total_processed_files < usize::MAX,
        ensures
            *final(self) == (ProcessingStats {
                failed_files: (old(self).failed_files + 1) as u32,
                total_processed_files: (old(self).total_processed_files + 1) as usize,
                ..*old(self)
            }),
    {
        self.failed_files = self.failed_files + 1;
        self.total_processed_files = self.total_processed_files + 1;
    }

    /// A source served from the cache counts as a succeeded file.
    pub fn record_cache_hit(&mut self)
        requires
            old(self).succeeded_files < u32::MAX,
            old(self).total_processed_files < usize::MAX,
        ensures
            *final(self) == (ProcessingStats {
                succeeded_files: (old(self).succeeded_files + 1) as u32,
                total_processed_files: (old(self).total_processed_files + 1) as usize,
                ..*old(self)
            }),
    {
        self.succeeded_files = self.succeeded_files + 1;
        self.total_processed_files = self.total_processed_files + 1;
    }

    /// A source the cache could not serve.
    pub fn record_cache_miss(&mut self)
        requires
            old(self).failed_cache_retrieve < u32::MAX,
        ensures
            *final(self) == (ProcessingStats {
                failed_cache_retrieve: (old(self).failed_cache_retrieve + 1) as u32,
                ..*old(self)
            }),
    {
        self.failed_cache_retrieve = self.failed_cache_retrieve + 1;
    }

    /// Takes in one source file before any processing: a source outside the
    /// input directory counts as a failed file; in an unforced run, a graphic
    /// rebuilt from the cache is kept and counts as a succeeded file, and a
    /// source the cache could not serve counts as a cache miss. Returns
    /// whether the source still has to be handed to a format handler: on a
    /// cache miss, or in a forced run.
    pub fn on_source(
        &mut self,
        outside_input: bool,
        force: bool,
        cached: Option<Graphic>,
        output: &mut GraphicOutput,
    ) -> (dispatch: bool)
        requires
            old(self).failed_files < u32::MAX,
            old(self).succeeded_files < u32::MAX,
            old(self).failed_cache_retrieve < u32::MAX,
            old(self).total_processed_files < usize::MAX,
        ensures
            final(output).requested == old(output).requested,
            outside_input ==> !dispatch && *final(self) == (ProcessingStats {
                failed_files: (old(self).failed_files + 1) as u32,
                total_processed_files: (old(self).total_processed_files + 1) as usize,
                ..*old(self)
            }) && final(output).graphics@ == old(output).graphics@,
            !outside_input && force ==> dispatch && *final(self) == *old(self) && final(output).graphics@
                == old(output).graphics@,
            !outside_input && !force && cached is Some ==> !dispatch && *final(self) == (ProcessingStats {
                succeeded_files: (old(self).succeeded_files + 1) as u32,
                total_processed_files: (old(self).total_processed_files + 1) as usize,
                ..*old(self)
            }) && final(output).graphics@ == old(output).graphics@.push(cached->0),
            !outside_input && !force && cached is None ==> dispatch && *final(self) == (ProcessingStats {
                failed_cache_retrieve: (old(self).failed_cache_retrieve + 1) as u32,
                ..*old(self)
            }) && final(output).graphics@ == old(output).graphics@,
    {
        if outside_input {
            self.record_outside_input();
            return false;
        }
        if force {
            return true;
        }
        match cached {
            Some(graphic) => {
                output.graphics.push(graphic);
                self.record_cache_hit();
                false
            },
            None => {
                self.record_cache_miss();
                true
            },
        }
    }

    /// Takes in one processed source, counting it: a success, a new graphic
    /// (kept in the output) or a failure. Returns the index of the worker
    /// that is free again.
    pub fn handle_processed<E>(&mut self, info: ProcessedInfo<E>, output: &mut GraphicOutput) -> (r: usize)
        requires
            old(self).succeeded_files < u32::MAX,
            old(self).new_files < u32::MAX,
            old(self).failed_files < u32::MAX,
            old(self).total_processed_files < usize::MAX,
        ensures
            r == info.thread_index,
            final(self).total_processed_files == old(self).total_processed_files + 1,
            final(self).failed_cache_retrieve == old(self).failed_cache_retrieve,
            final(output).requested == old(output).requested,
            match info.data {
                ProcessedData::Succeeded => final(self).succeeded_files == old(self).succeeded_files + 1
                    && final(self).new_files == old(self).new_files && final(self).failed_files
                    == old(self).failed_files && final(output).graphics@ == old(output).graphics@,
                ProcessedData::New(g) => final(self).succeeded_files == old(self).succeeded_files + 1
                    && final(self).new_files == old(self).new_files + 1 && final(self).failed_files
                    == old(self).failed_files && final(output).graphics@ == old(output).graphics@.push(g),
                ProcessedData::Failed(_) => final(self).succeeded_files == old(self).succeeded_files
                    && final(self).new_files == old(self).new_files && final(self).failed_files
                    == old(self).failed_files + 1 && final(output).graphics@ == old(output).graphics@,
            },
    {
        let thread_index = info.thread_index;
        self.total_processed_files = self.total_processed_files + 1;
        match info.data {
            ProcessedData::Succeeded => {
                self.succeeded_files = self.succeeded_files + 1;
            },
            ProcessedData::New(g) => {
                self.succeeded_files = self.succeeded_files + 1;
                self.new_files = self.new_files + 1;
                output.graphics.push(g);
            },
            ProcessedData::Failed(_) => {
                self.failed_files = self.failed_files + 1;
            },
        }
        thread_index
    }

    /// The cache falls behind when a source was processed anew or could not
    /// be served from it.
    pub fn cache_outdated(&self) -> (r: bool)
        ensures
            r == (self.new_files > 0 || self.failed_cache_retrieve > 0),
    {
        self.new_files > 0 || self.failed_cache_retrieve > 0
    }
}

} // verus!
