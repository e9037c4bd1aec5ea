//! Configuration, and the decisions that the start-up takes from it.

use vstd::prelude::*;
use vstd::string::StringExecFns;
use crate::text::same_text;

verus! {

/// System configuration section of config.toml
#[derive(Debug, Clone)]
pub struct SystemConfig {
    pub mode: String,
    pub workers: usize,
    pub capacity: usize,
    pub database_path: String,
    pub log_path: String,
    pub block_list_ttl: u64,
    pub nginx_bind: String,
    pub capture_source: String,
    pub pps: u64,
    pub flows: u32,
    pub pcap_file: Option<String>,
    pub interface: Option<String>,
    pub training_samples: usize,
    pub mitigation_mode: String,
    pub model_path: String,
}

/// Full application configuration
#[derive(Debug, Clone)]
pub struct AppConfig {
    pub system: SystemConfig,
}

impl AppConfig {
    /// Takes the execution mode from the command line where one is given there.
    pub fn override_mode(&mut self, mode: Option<String>)
        ensures
            final(self).system == (match mode {
                Some(m) => SystemConfig { mode: m, ..old(self).system },
                None => old(self).system,
            }),
    {
        if let Some(m) = mode {
            self.system.mode = m;
        }
    }
}

/// Where packets are captured from.
#[derive(Debug, Clone)]
pub enum CaptureSource {
    /// Synthetic traffic at a rate, among a number of addresses.
    Mock { pps: u64, flows: u32 },
    /// A capture file.
    Pcap { path: String },
    /// A network interface.
    Live { interface: String },
}

/// Why no capture source could be chosen.
#[derive(Debug, Clone)]
pub enum CaptureError {
    MissingPcapFile,
    MissingInterface,
    UnknownSource(String),
}

/// The capture source that the configuration names, or what is wrong with it.
pub open spec fn spec_capture(
    source: Seq<char>,
    pps: u64,
    flows: u32,
    pcap_file: Option<String>,
    interface: Option<String>,
    r: Result<CaptureSource, CaptureError>,
) -> bool {
    if source == "mock"@ {
        r == Ok::<CaptureSource, CaptureError>(CaptureSource::Mock { pps, flows })
    } else if source == "pcap"@ {
        match pcap_file {
            Some(path) => r == Ok::<CaptureSource, CaptureError>(CaptureSource::Pcap { path }),
            None => r == Err::<CaptureSource, CaptureError>(CaptureError::MissingPcapFile),
        }
    } else if source == "live"@ {
        match interface {
            Some(interface) => r == Ok::<CaptureSource, CaptureError>(
                CaptureSource::Live { interface },
            ),
            None => r == Err::<CaptureSource, CaptureError>(CaptureError::MissingInterface),
        }
    } else {
        r matches Err(CaptureError::UnknownSource(name)) && name@ == source
    }
}

/// Chooses the capture source by its name: `mock`, `pcap` with a file, or `live` with an
/// interface.
pub fn select_capture(
    source: &str,
    pps: u64,
    flows: u32,
    pcap_file: &Option<String>,
    interface: &Option<String>,
) -> (r: Result<CaptureSource, CaptureError>)
    ensures
        spec_capture(source@, pps, flows, *pcap_file, *interface, r),
{
    proof {
        reveal_strlit("mock");
        reveal_strlit("pcap");
        reveal_strlit("live");
    }
    if same_text(source, "mock") {
        Ok(CaptureSource::Mock { pps, flows })
    } else if same_text(source, "pcap") {
        match pcap_file {
            Some(path) => Ok(CaptureSource::Pcap { path: path.clone() }),
            None => Err(CaptureError::MissingPcapFile),
        }
    } else if same_text(source, "live") {
        match interface {
            Some(name) => Ok(CaptureSource::Live { interface: name.clone() }),
            None => Err(CaptureError::MissingInterface),
        }
    } else {
        Err(CaptureError::UnknownSource(source.to_string()))
    }
}

/// The capture source to use in a given operation mode: training reads a capture file where
/// one is given and synthetic traffic otherwise, every other mode names its source itself.
pub fn capture_mode(mode: &str, has_pcap_file: bool) -> (r: String)
    ensures
        mode@ == "train"@ && has_pcap_file ==> r@ == "pcap"@,
        mode@ == "train"@ && !has_pcap_file ==> r@ == "mock"@,
        mode@ != "train"@ ==> r@ == mode@,
{
    if same_text(mode, "train") {
        if has_pcap_file {
            "pcap".to_string()
        } else {
            "mock".to_string()
        }
    } else {
        mode.to_string()
    }
}

/// Whether the model has to be trained before traffic is classified: in mode `train`, which
/// forces it, or where no usable model was found.
pub fn needs_training(mode: &str, model_found: bool) -> (r: bool)
    ensures
        r == (mode@ == "train"@ || !model_found),
{
    same_text(mode, "train") || !model_found
}

/// The number of flows that each of `workers` aggregators may track.
pub fn worker_capacity(capacity: usize, workers: usize) -> (r: usize)
    requires
        workers > 0,
    ensures
        r == capacity / workers,
{
    capacity / workers
}

/// All aggregators together never track more flows than the configured capacity, and fewer
/// by less than one flow per aggregator.
pub proof fn law_workers_share_capacity(capacity: usize, workers: usize)
    requires
        workers > 0,
    ensures
        workers * (capacity / workers) <= capacity,
        capacity < workers * (capacity / workers) + workers,
{
    vstd::arithmetic::div_mod::lemma_fundamental_div_mod(capacity as int, workers as int);
    vstd::arithmetic::div_mod::lemma_mod_bound(capacity as int, workers as int);
}

impl CaptureError {
    /// The error as text for an operator.
    pub fn message(&self) -> (r: String)
        ensures
            r@ == (match self {
                CaptureError::MissingPcapFile =>
                    "Error: pcap_file path must be specified in config.toml for pcap capture source."@,
                CaptureError::MissingInterface =>
                    "Error: interface must be specified in config.toml for live capture source."@,
                CaptureError::UnknownSource(name) => "Unknown capture source: "@ + name@,
            }),
    {
        match self {
            CaptureError::MissingPcapFile =>
                "Error: pcap_file path must be specified in config.toml for pcap capture source.".to_string(),
            CaptureError::MissingInterface =>
                "Error: interface must be specified in config.toml for live capture source.".to_string(),
            CaptureError::UnknownSource(name) => {
                let mut text: String = "Unknown capture source: ".to_string();
                text.append(name.as_str());
                text
            },
        }
    }

    /// The error as text for a user of the command line flags.
    pub fn flag_message(&self) -> (r: String)
        ensures
            r@ == (match self {
                CaptureError::MissingPcapFile =>
                    "Error: PCAP file path must be specified with --pcap-file in pcap mode."@,
                CaptureError::MissingInterface =>
                    "Error: Interface name must be specified with --interface in live mode."@,
                CaptureError::UnknownSource(name) => "Unknown capture mode: "@ + name@,
            }),
    {
        match self {
            CaptureError::MissingPcapFile =>
                "Error: PCAP file path must be specified with --pcap-file in pcap mode.".to_string(),
            CaptureError::MissingInterface =>
                "Error: Interface name must be specified with --interface in live mode.".to_string(),
            CaptureError::UnknownSource(name) => {
                let mut text: String = "Unknown capture mode: ".to_string();
                text.append(name.as_str());
                text
            },
        }
    }
}

/// A modification time tells of a change since `last`. Times are nanoseconds relative to the
/// Unix epoch; there is none where the file cannot be inspected.
pub open spec fn is_newer(modified: Option<i128>, last: i128) -> bool {
    modified matches Some(m) && m > last
}

/// Notices when the configuration file was changed.
#[derive(Debug, Clone, Copy, PartialEq, Eq, Structural)]
pub struct ConfigWatch {
    /// The modification time that was acted on last.
    pub last_modified: i128,
}

impl ConfigWatch {
    /// The watch after it has seen a modification time.
    pub open spec fn spec_after(self, modified: Option<i128>) -> ConfigWatch {
        if is_newer(modified, self.last_modified) {
            ConfigWatch { last_modified: modified->0 }
        } else {
            self
        }
    }

    /// A watch that starts from a file's modification time, or from the present where that
    /// is not known.
    pub fn new(modified: Option<i128>, now: i128) -> (r: ConfigWatch)
        ensures
            r.last_modified == (match modified {
                Some(m) => m,
                None => now,
            }),
    {
        match modified {
            Some(m) => ConfigWatch { last_modified: m },
            None => ConfigWatch { last_modified: now },
        }
    }

    /// Whether the file has to be read again, given its present modification time.
    pub fn observe(&mut self, modified: Option<i128>) -> (r: bool)
        ensures
            r == is_newer(modified, old(self).last_modified),
            *final(self) == old(self).spec_after(modified),
    {
        match modified {
            Some(m) => {
                if m > self.last_modified {
                    self.last_modified = m;
                    true
                } else {
                    false
                }
            },
            None => false,
        }
    }
}

/// One change of the file is acted on once, and the watch never goes back in time.
pub proof fn law_change_reloads_once(watch: ConfigWatch, modified: Option<i128>)
    ensures
        !is_newer(modified, watch.spec_after(modified).last_modified),
        watch.spec_after(modified).last_modified >= watch.last_modified,
{
}

/// Every capture source is chosen by its own name, with the settings that it needs, and what is
/// missing or unknown is reported as that.
pub proof fn law_capture_is_chosen_by_name(
    source: &str,
    pps: u64,
    flows: u32,
    pcap_file: Option<String>,
    interface: Option<String>,
    r: Result<CaptureSource, CaptureError>,
)
    requires
        call_ensures(select_capture, (source, pps, flows, &pcap_file, &interface), r),
    ensures
        source@ == "mock"@ ==> r == Ok::<CaptureSource, CaptureError>(
            CaptureSource::Mock { pps, flows },
        ),
        source@ == "pcap"@ ==> (pcap_file matches Some(file) ==> r == Ok::<
            CaptureSource,
            CaptureError,
        >(CaptureSource::Pcap { path: file })),
        source@ == "pcap"@ && pcap_file is None ==> r == Err::<CaptureSource, CaptureError>(
            CaptureError::MissingPcapFile,
        ),
        source@ == "live"@ ==> (interface matches Some(name) ==> r == Ok::<
            CaptureSource,
            CaptureError,
        >(CaptureSource::Live { interface: name })),
        source@ == "live"@ && interface is None ==> r == Err::<CaptureSource, CaptureError>(
            CaptureError::MissingInterface,
        ),
        (r matches Err(CaptureError::UnknownSource(name)) && name@ == source@) <==> source@
            != "mock"@ && source@ != "pcap"@ && source@ != "live"@,
{
    reveal_strlit("mock");
    reveal_strlit("pcap");
    reveal_strlit("live");
    assert("mock"@[0] != "pcap"@[0] && "mock"@[0] != "live"@[0] && "pcap"@[0] != "live"@[0]);
}

/// Training takes a capture file where there is one and synthetic traffic otherwise; every other
/// mode is a source by itself.
pub proof fn law_training_prefers_recorded_traffic(mode: &str, has_pcap_file: bool, r: String)
    requires
        call_ensures(capture_mode, (mode, has_pcap_file), r),
    ensures
        mode@ == "train"@ && has_pcap_file ==> r@ == "pcap"@,
        mode@ == "train"@ && !has_pcap_file ==> r@ == "mock"@,
        mode@ != "train"@ ==> r@ == mode@,
{
}

/// Mode `train` forces training, and without a model there is no way around it; otherwise the
/// model is used as it is.
pub proof fn law_training_is_forced_or_needed(mode: &str, model_found: bool, r: bool)
    requires
        call_ensures(needs_training, (mode, model_found), r),
    ensures
        mode@ == "train"@ ==> r,
        !model_found ==> r,
        mode@ != "train"@ && model_found ==> !r,
{
}

/// The shares of the workers use the capacity up, but for less than one flow per worker.
pub proof fn law_worker_shares_use_capacity_up(capacity: usize, workers: usize, r: usize)
    requires
        workers > 0,
        call_ensures(worker_capacity, (capacity, workers), r),
    ensures
        workers * r <= capacity < workers * r + workers,
{
    law_workers_share_capacity(capacity, workers);
}

/// A file has to be read again exactly if its modification time lies after the one that was
/// acted on last, and that time is then the last one.
pub proof fn law_later_modification_reloads(watch: ConfigWatch, m: i128)
    ensures
        is_newer(Some(m), watch.last_modified) <==> m > watch.last_modified,
        !is_newer(None, watch.last_modified),
        m > watch.last_modified ==> watch.spec_after(Some(m)).last_modified == m,
        m <= watch.last_modified ==> watch.spec_after(Some(m)) == watch,
        watch.spec_after(None) == watch,
{
}

/// A watch reports a modification exactly if it is later than all that it has acted on.
pub proof fn law_watch_reports_later_modifications(
    watch: &mut ConfigWatch,
    modified: Option<i128>,
    r: bool,
)
    requires
        call_ensures(ConfigWatch::observe, (watch, modified), r),
    ensures
        modified is None ==> !r,
        modified matches Some(m) ==> (r <==> m > old(watch).last_modified),
        r ==> modified == Some(final(watch).last_modified),
        !r ==> *final(watch) == *old(watch),
{
}

/// A mode from the command line replaces the configured one, and nothing else changes.
pub proof fn law_mode_is_overridden_alone(config: &mut AppConfig, mode: Option<String>)
    requires
        call_ensures(AppConfig::override_mode, (config, mode), ()),
    ensures
        mode matches Some(m) ==> final(config).system.mode == m,
        mode is None ==> *final(config) == *old(config),
        final(config).system.workers == old(config).system.workers,
        final(config).system.capacity == old(config).system.capacity,
        final(config).system.block_list_ttl == old(config).system.block_list_ttl,
        final(config).system.mitigation_mode == old(config).system.mitigation_mode,
        final(config).system.capture_source == old(config).system.capture_source,
{
}

} // verus!
