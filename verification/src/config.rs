//! Startup: what the options ask for, and which listeners run.

use crate::request_logger::{LogFormat, RequestLogger, RequestLoggerView};
use vstd::prelude::*;

verus! {

/// The port of the plain listener where none is given.
pub const DEFAULT_HTTP_PORT: u16 = 8080;

/// The port of the TLS listener where none is given.
pub const DEFAULT_HTTPS_PORT: u16 = 8443;

/// Where the certificate of the TLS listener comes from.
#[derive(Debug, Clone, Copy, PartialEq, Eq, Structural)]
pub enum CertMode {
    /// There is no certificate, and so no TLS listener.
    Off,
    /// A certificate is made at startup.
    SelfSigned,
    /// The certificate is read from files.
    Custom,
}

/// Why the server cannot start with its options.
#[derive(Debug, Clone, Copy, PartialEq, Eq, Structural)]
pub enum ConfigError {
    /// Both `http_only` and `https_only` are set.
    ConflictingModes,
    /// The certificate is to be read from files and a file is not named.
    MissingCertificateFiles,
    /// The served directory does not exist.
    DirectoryMissing,
    /// The served path is no directory.
    NotADirectory,
    /// Neither listener would run.
    NoServer,
}

/// The options of the server, with what was found out about the served
/// directory.
#[derive(Debug)]
pub struct Options {
    pub directory: String,
    pub directory_exists: bool,
    pub directory_is_dir: bool,
    pub http_port: u16,
    pub https_port: u16,
    pub http_only: bool,
    pub https_only: bool,
    pub cert_mode: CertMode,
    pub cert_file: Option<String>,
    pub key_file: Option<String>,
    pub request_log: Option<String>,
    pub request_log_format: LogFormat,
}

/// The TLS material to get before the TLS listener starts.
#[derive(Debug)]
pub enum TlsSource {
    Off,
    SelfSigned,
    Custom { cert_file: String, key_file: String },
}

/// The model of a [`TlsSource`].
pub enum TlsSourceView {
    Off,
    SelfSigned,
    Custom { cert_file: Seq<char>, key_file: Seq<char> },
}

impl View for TlsSource {
    type V = TlsSourceView;

    open spec fn view(&self) -> TlsSourceView {
        match self {
            TlsSource::Off => TlsSourceView::Off,
            TlsSource::SelfSigned => TlsSourceView::SelfSigned,
            TlsSource::Custom { cert_file, key_file } => TlsSourceView::Custom {
                cert_file: cert_file@,
                key_file: key_file@,
            },
        }
    }
}

/// What startup does.
#[derive(Debug)]
pub struct StartupPlan {
    pub run_http: bool,
    pub run_https: bool,
    pub http_port: u16,
    pub https_port: u16,
    pub tls: TlsSource,
    pub request_logger: Option<RequestLogger>,
}

/// Whether the plain listener runs.
pub open spec fn runs_http(options: Options) -> bool {
    !options.https_only
}

/// Whether the TLS listener runs.
pub open spec fn runs_https(options: Options) -> bool {
    !options.http_only && options.cert_mode != CertMode::Off
}

/// What is wrong with the options, if anything. Of several faults the first
/// in this order is named: both listeners asked to run alone; a certificate
/// from files without its files; a served directory that is missing or is no
/// directory; no listener left to run.
pub open spec fn config_error(options: Options) -> Option<ConfigError> {
    if options.http_only && options.https_only {
        Some(ConfigError::ConflictingModes)
    } else if options.cert_mode == CertMode::Custom && (options.cert_file is None
        || options.key_file is None) {
        Some(ConfigError::MissingCertificateFiles)
    } else if !options.directory_exists {
        Some(ConfigError::DirectoryMissing)
    } else if !options.directory_is_dir {
        Some(ConfigError::NotADirectory)
    } else if !runs_http(options) && !runs_https(options) {
        Some(ConfigError::NoServer)
    } else {
        None
    }
}

/// The TLS material that the options ask for: none where the TLS listener
/// does not run.
pub open spec fn tls_source(options: Options) -> TlsSourceView {
    if !runs_https(options) {
        TlsSourceView::Off
    } else if options.cert_mode == CertMode::SelfSigned {
        TlsSourceView::SelfSigned
    } else {
        TlsSourceView::Custom {
            cert_file: options.cert_file->0@,
            key_file: options.key_file->0@,
        }
    }
}

/// The request log that the options ask for.
pub open spec fn logger_of(options: Options) -> Option<RequestLoggerView> {
    match options.request_log {
        Some(root) => Some(
            RequestLoggerView { base_dir: root@, format: options.request_log_format },
        ),
        None => None,
    }
}

/// The model of the request log of a plan.
pub open spec fn plan_logger(plan: StartupPlan) -> Option<RequestLoggerView> {
    match plan.request_logger {
        Some(logger) => Some(logger@),
        None => None,
    }
}

/// Decides what startup does: which listeners run on which ports, where the
/// TLS material comes from, and whether requests are logged; or what is wrong
/// with the options.
pub fn plan_startup(options: &Options) -> (r: Result<StartupPlan, ConfigError>)
    ensures
        match config_error(*options) {
            Some(error) => r == Err::<StartupPlan, ConfigError>(error),
            None => r matches Ok(plan) && {
                &&& plan.run_http == runs_http(*options)
                &&& plan.run_https == runs_https(*options)
                &&& plan.http_port == options.http_port
                &&& plan.https_port == options.https_port
                &&& plan.tls@ == tls_source(*options)
                &&& plan_logger(plan) == logger_of(*options)
            },
        },
{
    if options.http_only && options.https_only {
        return Err(ConfigError::ConflictingModes);
    }
    let files: Option<(String, String)> = match (&options.cert_file, &options.key_file) {
        (Some(cert_file), Some(key_file)) => Some((cert_file.clone(), key_file.clone())),
        _ => None,
    };
    if options.cert_mode == CertMode::Custom && files.is_none() {
        return Err(ConfigError::MissingCertificateFiles);
    }
    if !options.directory_exists {
        return Err(ConfigError::DirectoryMissing);
    }
    if !options.directory_is_dir {
        return Err(ConfigError::NotADirectory);
    }
    let run_http: bool = !options.https_only;
    let run_https: bool = !options.http_only && options.cert_mode != CertMode::Off;
    if !run_http && !run_https {
        return Err(ConfigError::NoServer);
    }
    let tls: TlsSource = if !run_https {
        TlsSource::Off
    } else {
        match options.cert_mode {
            CertMode::SelfSigned => TlsSource::SelfSigned,
            _ => match files {
                Some((cert_file, key_file)) => TlsSource::Custom { cert_file, key_file },
                None => TlsSource::Off,
            },
        }
    };
    let request_logger: Option<RequestLogger> = match &options.request_log {
        Some(root) => Some(RequestLogger::new(root.clone(), options.request_log_format)),
        None => None,
    };
    Ok(
        StartupPlan {
            run_http,
            run_https,
            http_port: options.http_port,
            https_port: options.https_port,
            tls,
            request_logger,
        },
    )
}

impl ConfigError {
    /// The error as a sentence about the served directory `directory`.
    pub fn message(&self, directory: &str) -> (r: String)
        ensures
            r@ == config_error_text(*self, directory@),
    {
        match self {
            ConfigError::ConflictingModes => "Only one of HTTP only and HTTPS only can be set".to_owned(),
            ConfigError::MissingCertificateFiles => {
                "A custom certificate needs a certificate file and a key file".to_owned()
            },
            ConfigError::DirectoryMissing => {
                let mut text: Vec<char> = crate::text::chars_of("Directory '");
                text = crate::text::concat(&text, &crate::text::chars_of(directory));
                text = crate::text::concat(&text, &crate::text::chars_of("' does not exist"));
                crate::text::string_of(&text)
            },
            ConfigError::NotADirectory => {
                let mut text: Vec<char> = crate::text::chars_of("'");
                text = crate::text::concat(&text, &crate::text::chars_of(directory));
                text = crate::text::concat(&text, &crate::text::chars_of("' is not a directory"));
                crate::text::string_of(&text)
            },
            ConfigError::NoServer => "No server to run (both HTTP and HTTPS disabled)".to_owned(),
        }
    }
}

/// The text of a [`ConfigError`].
pub open spec fn config_error_text(error: ConfigError, directory: Seq<char>) -> Seq<char> {
    match error {
        ConfigError::ConflictingModes => "Only one of HTTP only and HTTPS only can be set"@,
        ConfigError::MissingCertificateFiles => {
            "A custom certificate needs a certificate file and a key file"@
        },
        ConfigError::DirectoryMissing => "Directory '"@ + directory + "' does not exist"@,
        ConfigError::NotADirectory => "'"@ + directory + "' is not a directory"@,
        ConfigError::NoServer => "No server to run (both HTTP and HTTPS disabled)"@,
    }
}

} // verus!
