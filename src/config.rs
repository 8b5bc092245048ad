use vstd::prelude::*;

verus! {

/// Which backend wire shape requests use.
#[derive(Debug, Clone, Copy, PartialEq, Eq, Structural)]
pub enum Interface {
    /// Chat-style endpoint at `/api/chat`.
    Ollama,
    /// OpenAI-compatible chat endpoint at `/v1/chat/completions`.
    Llamacpp,
}

/// The settings that the command line gives.
#[derive(Debug, Clone)]
pub struct Args {
    pub monitor: bool,
    pub combined: bool,
    pub ignore_existing: bool,
    pub immich_root: String,
    pub postgres_url: String,
    pub model_name: String,
    pub interface: Interface,
    pub hosts: Vec<String>,
    pub api_key: Option<String>,
    pub max_concurrent: usize,
    /// Seconds for which a failing host is avoided.
    pub unavailable_duration: u64,
    /// Seconds allowed for one backend request.
    pub timeout: u64,
    /// Seconds allowed for a new file to stop growing.
    pub file_write_timeout: u64,
    /// Milliseconds between two size polls of a new file.
    pub file_check_interval: u64,
    /// Seconds within which repeated events for one file are ignored.
    pub event_cooldown: u64,
    pub prompt: String,
    pub lang: String,
}

/// Settings for processing one file.
#[derive(Debug, Clone)]
pub struct FileProcessingConfig {
    pub file_write_timeout: u64,
    pub file_check_interval: u64,
    pub ignore_existing: bool,
    pub hosts: Vec<String>,
    pub interface: Interface,
    pub api_key: Option<String>,
    pub unavailable_duration: u64,
    pub request_timeout: u64,
}

/// Settings for watching the directory tree.
#[derive(Debug, Clone)]
pub struct MonitorConfig {
    pub file_write_timeout: u64,
    pub file_check_interval: u64,
    pub event_cooldown: u64,
    pub timeout: u64,
    pub lang: String,
    pub ignore_existing: bool,
    pub hosts: Vec<String>,
    pub interface: Interface,
    pub api_key: Option<String>,
    pub unavailable_duration: u64,
}

/// Why a set of arguments cannot be used.
#[derive(Debug, Clone, Copy, PartialEq, Eq, Structural)]
pub enum ArgsError {
    /// Combined mode already includes monitoring; the two flags exclude
    /// each other.
    CombinedWithMonitor,
}

/// Rejects arguments that ask for both combined and monitor mode.
pub fn validate_args(args: &Args) -> (r: Result<(), ArgsError>)
    ensures
        r is Err <==> (args.combined && args.monitor),
        r is Err ==> r == Err::<(), ArgsError>(ArgsError::CombinedWithMonitor),
{
    if args.combined && args.monitor {
        Err(ArgsError::CombinedWithMonitor)
    } else {
        Ok(())
    }
}

impl MonitorConfig {
    /// The settings for processing one file that this configuration implies.
    pub fn file_processing(&self) -> (r: FileProcessingConfig)
        ensures
            r.file_write_timeout == self.file_write_timeout,
            r.file_check_interval == self.file_check_interval,
            r.ignore_existing == self.ignore_existing,
            r.hosts@ == self.hosts@,
            r.interface == self.interface,
            r.api_key == self.api_key,
            r.unavailable_duration == self.unavailable_duration,
            r.request_timeout == self.timeout,
    {
        let mut hosts: Vec<String> = Vec::new();
        let mut i: usize = 0;
        while i < self.hosts.len()
            invariant
                i <= self.hosts@.len(),
                hosts@ == self.hosts@.subrange(0, i as int),
            decreases self.hosts@.len() - i,
        {
            hosts.push(self.hosts[i].clone());
            i = i + 1;
        }
        assert(hosts@ =~= self.hosts@);
        let api_key = match &self.api_key {
            Some(k) => Some(k.clone()),
            None => None,
        };
        FileProcessingConfig {
            file_write_timeout: self.file_write_timeout,
            file_check_interval: self.file_check_interval,
            ignore_existing: self.ignore_existing,
            hosts,
            interface: self.interface,
            api_key,
            unavailable_duration: self.unavailable_duration,
            request_timeout: self.timeout,
        }
    }
}

} // verus!
