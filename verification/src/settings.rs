use vstd::prelude::*;

verus! {

/// The user's settings.
#[derive(Debug)]
pub struct Settings {
    pub proxy_port: String,
    pub api_address: String,
    pub allow_lan: bool,
    pub auto_start: bool,
    pub check_update_on_boot: bool,
    pub tun_mode: bool,
    pub log_level: String,
    pub log_output: String,
    pub log_disabled: bool,
    pub node_advanced_monitoring: bool,
    pub node_exit_status_monitoring: bool,
    pub node_exit_ip_purity: bool,
    pub keep_node_traffic_history: bool,
    pub traffic_stats_period: String,
    pub kernel_watchdog: bool,
    pub language: String,
    pub foreground_only: bool,
}

/// The settings of a fresh installation.
pub open spec fn is_default_settings(s: Settings) -> bool {
    &&& s.proxy_port@ == "7890"@
    &&& s.api_address@ == "127.0.0.1:9090"@
    &&& !s.allow_lan
    &&& !s.auto_start
    &&& s.check_update_on_boot
    &&& !s.tun_mode
    &&& s.log_level@ == "info"@
    &&& s.log_output@ == ""@
    &&& !s.log_disabled
    &&& !s.node_advanced_monitoring
    &&& !s.node_exit_status_monitoring
    &&& !s.node_exit_ip_purity
    &&& !s.keep_node_traffic_history
    &&& s.traffic_stats_period@ == "month"@
    &&& s.kernel_watchdog
    &&& s.language@ == "zh_CN"@
    &&& !s.foreground_only
}

impl Default for Settings {
    fn default() -> (r: Settings)
        ensures
            is_default_settings(r),
    {
        Settings {
            proxy_port: "7890".to_owned(),
            api_address: "127.0.0.1:9090".to_owned(),
            allow_lan: false,
            auto_start: false,
            check_update_on_boot: true,
            tun_mode: false,
            log_level: "info".to_owned(),
            log_output: "".to_owned(),
            log_disabled: false,
            node_advanced_monitoring: false,
            node_exit_status_monitoring: false,
            node_exit_ip_purity: false,
            keep_node_traffic_history: false,
            traffic_stats_period: "month".to_owned(),
            kernel_watchdog: true,
            language: "zh_CN".to_owned(),
            foreground_only: false,
        }
    }
}

/// The settings read from the settings file, or the defaults when the file is
/// missing, cannot be read, or does not parse.
pub fn settings_or_default(read: Option<Settings>) -> (r: Settings)
    ensures
        match read {
            Some(s) => r == s,
            None => is_default_settings(r),
        },
{
    match read {
        Some(s) => s,
        None => Settings::default(),
    }
}

/// Keeps the settings in a file.
pub struct SettingsManager {
    file_path: String,
}

impl SettingsManager {
    /// The path of the settings file.
    pub closed spec fn path(&self) -> Seq<char> {
        self.file_path@
    }

    /// Settings kept in the file `file_path`.
    pub fn new(file_path: String) -> (r: SettingsManager)
        ensures
            r.path() == file_path@,
    {
        SettingsManager { file_path }
    }

    /// The path of the settings file.
    pub fn file_path(&self) -> (r: &str)
        ensures
            r@ == self.path(),
    {
        self.file_path.as_str()
    }
}

} // verus!
