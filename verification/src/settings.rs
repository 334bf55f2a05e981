//! The settings the ingest core works from.
//!
//! Merging configuration sources (defaults, configuration file, environment,
//! command line) is the caller's business; the library only defines the
//! record and its defaults.

use vstd::prelude::*;

verus! {

/// How to reach the companion REST service.
#[derive(Debug)]
pub struct Web {
    /// The service's base URL; `<url>/api` must be the API root.
    pub url: String,
    /// The API authentication token.
    pub token: String,
}

impl Default for Web {
    /// An unset service location: empty URL and token.
    fn default() -> (r: Self)
        ensures
            r.url@ =~= Seq::<char>::empty(),
            r.token@ =~= Seq::<char>::empty(),
    {
        Web { url: String::new(), token: String::new() }
    }
}

/// The arguments of the ingest command.
#[derive(Debug)]
pub struct IngestArgs {
    /// UUID of the project to import into.
    pub project_uuid: String,
    /// The run directories to analyze.
    pub path: Vec<String>,
    /// Whether to register flow cells the service does not know.
    pub register: bool,
    /// Whether to update flow cells the service already knows.
    pub update: bool,
    /// Whether to compute index-adapter histograms.
    pub analyze_adapters: bool,
    /// Whether to post computed histograms to the service.
    pub post_adapters: bool,
    /// The operator name recorded on newly created flow cells.
    pub operator: String,
    /// How many tile stacks to sample per lane.
    pub sample_tiles: i32,
    /// How many reads to sample from each tile; zero reads them all.
    pub sample_reads_per_tile: i32,
    /// Whether a flow cell whose sequencing status is final is left alone.
    pub skip_if_status_final: bool,
    /// The histogram filter threshold, in parts per million of the sample
    /// size: an entry is kept when `count * 1_000_000 > size * threshold`.
    pub min_index_fraction_ppm: u64,
    /// Whether to analyze adapters even when the service already holds the
    /// expected number of histograms.
    pub force_analyze_adapters: bool,
}

impl Default for IngestArgs {
    /// The ingest defaults: register, update, analyze and post are on; one
    /// tile stack; all reads of a tile; final statuses are left alone; the
    /// histogram filter keeps entries above one percent.
    fn default() -> (r: Self)
        ensures
            r.project_uuid@ =~= Seq::<char>::empty(),
            r.path@ =~= Seq::<String>::empty(),
            r.register,
            r.update,
            r.analyze_adapters,
            r.post_adapters,
            r.operator@ =~= Seq::<char>::empty(),
            r.sample_tiles == 1,
            r.sample_reads_per_tile == 0,
            r.skip_if_status_final,
            r.min_index_fraction_ppm == 10000,
            !r.force_analyze_adapters,
    {
        IngestArgs {
            project_uuid: String::new(),
            path: Vec::new(),
            register: true,
            update: true,
            analyze_adapters: true,
            post_adapters: true,
            operator: String::new(),
            sample_tiles: 1,
            sample_reads_per_tile: 0,
            skip_if_status_final: true,
            min_index_fraction_ppm: 10000,
            force_analyze_adapters: false,
        }
    }
}

/// The overall settings.
#[derive(Debug)]
pub struct Settings {
    /// Further increase log output verbosity.
    pub debug: bool,
    /// Increase log output verbosity.
    pub verbose: bool,
    /// Decrease log output to a minimum.
    pub quiet: bool,
    /// The worker-pool size for parallel processing.
    pub threads: i32,
    /// The seed of the tile-stack selection.
    pub seed: u64,
    /// Whether the API token may appear in the log.
    pub log_token: bool,
    /// How to reach the companion REST service.
    pub web: Web,
    /// The arguments of the ingest command.
    pub ingest: IngestArgs,
}

impl Default for Settings {
    /// The overall defaults: quiet flags off, one thread, seed 42.
    fn default() -> (r: Self)
        ensures
            !r.debug,
            !r.verbose,
            !r.quiet,
            r.threads == 1,
            r.seed == 42,
            !r.log_token,
            r.web.url@ =~= Seq::<char>::empty(),
            r.web.token@ =~= Seq::<char>::empty(),
            r.ingest.register,
            r.ingest.update,
            r.ingest.sample_reads_per_tile == 0,
            r.ingest.min_index_fraction_ppm == 10000,
    {
        Settings {
            debug: false,
            verbose: false,
            quiet: false,
            threads: 1,
            seed: 42,
            log_token: false,
            web: Web::default(),
            ingest: IngestArgs::default(),
        }
    }
}

/// The project UUID must be given; an empty one is fatal for the whole run.
pub fn validate_project_uuid(settings: &Settings) -> (r: Result<(), crate::errors::IngestError>)
    ensures
        r matches Ok(u) ==> settings.ingest.project_uuid@.len() > 0,
        r matches Err(e) ==> e == crate::errors::IngestError::ConfigError
            && settings.ingest.project_uuid@.len() == 0,
{
    if settings.ingest.project_uuid.as_str().unicode_len() == 0 {
        Err(crate::errors::IngestError::ConfigError)
    } else {
        Ok(())
    }
}

} // verus!
