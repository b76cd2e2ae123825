//! The configuration and how command line parameters override it.
use vstd::prelude::*;

verus! {

/// How much output is wanted on the screen.
#[derive(Clone, Copy, Debug, PartialEq, Eq, Structural)]
pub enum OutputMode {
    Trace,
    Debug,
    Info,
    Warn,
    Error,
    /// No output mode was given.
    Unspecified,
}

/// The parameters given on the command line; `"none"` and `0` stand for
/// "not given".
#[derive(Debug)]
pub struct CommandLineParameters {
    pub proxies: String,
    pub config: String,
    pub output: OutputMode,
    pub ipaddress: String,
    pub lport: u16,
    pub rotate_every: u16,
    pub skip_validation: bool,
    pub validate_only: bool,
    pub sample_proxy_file: bool,
    pub dump_config_file: bool,
    pub no_banner: bool,
}

/// The whole configuration.
#[derive(Debug, Clone)]
pub struct Config {
    pub server: ServerConfig,
    pub logging: LoggingConfig,
    pub proxies: ProxiesConfig,
}

/// Where the proxy server listens and how often it rotates.
#[derive(Debug, Clone)]
pub struct ServerConfig {
    pub listen_addr: String,
    pub listen_port: u16,
    pub rotate_every_requests: u16,
}

/// The logging level.
#[derive(Debug, Clone)]
pub struct LoggingConfig {
    pub level: String,
}

/// Where the proxy lists are and how proxies are validated.
#[derive(Debug, Clone)]
pub struct ProxiesConfig {
    pub source_file: String,
    pub live_output_file: String,
    pub validation_url: String,
    pub timeout_seconds: u64,
    pub validate_on_startup: bool,
}

/// `ServerConfig` as a mathematical value.
pub struct ServerConfigView {
    pub listen_addr: Seq<char>,
    pub listen_port: u16,
    pub rotate_every_requests: u16,
}

/// `ProxiesConfig` as a mathematical value.
pub struct ProxiesConfigView {
    pub source_file: Seq<char>,
    pub live_output_file: Seq<char>,
    pub validation_url: Seq<char>,
    pub timeout_seconds: u64,
    pub validate_on_startup: bool,
}

/// `Config` as a mathematical value.
pub struct ConfigView {
    pub server: ServerConfigView,
    pub level: Seq<char>,
    pub proxies: ProxiesConfigView,
}

/// `CommandLineParameters` as a mathematical value.
pub struct CommandLineParametersView {
    pub proxies: Seq<char>,
    pub config: Seq<char>,
    pub output: OutputMode,
    pub ipaddress: Seq<char>,
    pub lport: u16,
    pub rotate_every: u16,
    pub skip_validation: bool,
    pub validate_only: bool,
    pub sample_proxy_file: bool,
    pub dump_config_file: bool,
    pub no_banner: bool,
}

impl View for ServerConfig {
    type V = ServerConfigView;

    open spec fn view(&self) -> ServerConfigView {
        ServerConfigView {
            listen_addr: self.listen_addr@,
            listen_port: self.listen_port,
            rotate_every_requests: self.rotate_every_requests,
        }
    }
}

impl View for ProxiesConfig {
    type V = ProxiesConfigView;

    open spec fn view(&self) -> ProxiesConfigView {
        ProxiesConfigView {
            source_file: self.source_file@,
            live_output_file: self.live_output_file@,
            validation_url: self.validation_url@,
            timeout_seconds: self.timeout_seconds,
            validate_on_startup: self.validate_on_startup,
        }
    }
}

impl View for Config {
    type V = ConfigView;

    open spec fn view(&self) -> ConfigView {
        ConfigView { server: self.server@, level: self.logging.level@, proxies: self.proxies@ }
    }
}

impl View for CommandLineParameters {
    type V = CommandLineParametersView;

    open spec fn view(&self) -> CommandLineParametersView {
        CommandLineParametersView {
            proxies: self.proxies@,
            config: self.config@,
            output: self.output,
            ipaddress: self.ipaddress@,
            lport: self.lport,
            rotate_every: self.rotate_every,
            skip_validation: self.skip_validation,
            validate_only: self.validate_only,
            sample_proxy_file: self.sample_proxy_file,
            dump_config_file: self.dump_config_file,
            no_banner: self.no_banner,
        }
    }
}

/// The logging level that an output mode asks for; `Unspecified` asks for none.
pub open spec fn output_level(m: OutputMode) -> Option<Seq<char>> {
    match m {
        OutputMode::Trace => Some("trace"@),
        OutputMode::Debug => Some("debug"@),
        OutputMode::Info => Some("info"@),
        OutputMode::Warn => Some("warn"@),
        OutputMode::Error => Some("error"@),
        OutputMode::Unspecified => None,
    }
}

/// The configuration once the given command line parameters override it:
/// an address or a proxy list other than `"none"`, a port or a rotation
/// count other than `0`, and an output mode other than `None` replace what
/// the configuration holds; everything else stays.
pub open spec fn apply_parameters(c: ConfigView, a: CommandLineParametersView) -> ConfigView {
    ConfigView {
        server: ServerConfigView {
            listen_addr: if a.ipaddress != "none"@ {
                a.ipaddress
            } else {
                c.server.listen_addr
            },
            listen_port: if a.lport != 0 {
                a.lport
            } else {
                c.server.listen_port
            },
            rotate_every_requests: if a.rotate_every != 0 {
                a.rotate_every
            } else {
                c.server.rotate_every_requests
            },
        },
        level: match output_level(a.output) {
            Some(l) => l,
            None => c.level,
        },
        proxies: ProxiesConfigView {
            source_file: if a.proxies != "none"@ {
                a.proxies
            } else {
                c.proxies.source_file
            },
            ..c.proxies
        },
    }
}

/// The configuration file that the parameters ask to use in place of the
/// default one, if they name one (anything but `"none"`).
pub open spec fn alternate_config(a: CommandLineParametersView) -> Option<Seq<char>> {
    if a.config != "none"@ {
        Some(a.config)
    } else {
        None
    }
}

impl CommandLineParameters {
    /// The configuration file these parameters ask to use in place of the
    /// default one, if they name one (see `alternate_config`).
    pub fn alternate_config_file(&self) -> (r: Option<&String>)
        ensures
            match r {
                Some(f) => alternate_config(self@) == Some(f@),
                None => alternate_config(self@) is None,
            },
    {
        if self.config != String::from_str("none") {
            Some(&self.config)
        } else {
            None
        }
    }
}

/// What each setting becomes: a given address, port, rotation count, proxy
/// list or output mode replaces the configured one, and an absent one
/// (`"none"`, `0`, `Unspecified`) keeps it; every other setting stays.
pub proof fn lemma_override_results(c: ConfigView, a: CommandLineParametersView)
    ensures
        a.ipaddress != "none"@ ==> apply_parameters(c, a).server.listen_addr == a.ipaddress,
        a.ipaddress == "none"@ ==> apply_parameters(c, a).server.listen_addr == c.server.listen_addr,
        a.lport != 0 ==> apply_parameters(c, a).server.listen_port == a.lport,
        a.lport == 0 ==> apply_parameters(c, a).server.listen_port == c.server.listen_port,
        a.rotate_every != 0 ==> apply_parameters(c, a).server.rotate_every_requests
            == a.rotate_every,
        a.rotate_every == 0 ==> apply_parameters(c, a).server.rotate_every_requests
            == c.server.rotate_every_requests,
        a.proxies != "none"@ ==> apply_parameters(c, a).proxies.source_file == a.proxies,
        a.proxies == "none"@ ==> apply_parameters(c, a).proxies.source_file
            == c.proxies.source_file,
        a.output == OutputMode::Trace ==> apply_parameters(c, a).level == "trace"@,
        a.output == OutputMode::Debug ==> apply_parameters(c, a).level == "debug"@,
        a.output == OutputMode::Info ==> apply_parameters(c, a).level == "info"@,
        a.output == OutputMode::Warn ==> apply_parameters(c, a).level == "warn"@,
        a.output == OutputMode::Error ==> apply_parameters(c, a).level == "error"@,
        a.output == OutputMode::Unspecified ==> apply_parameters(c, a).level == c.level,
        apply_parameters(c, a).proxies.live_output_file == c.proxies.live_output_file,
        apply_parameters(c, a).proxies.validation_url == c.proxies.validation_url,
        apply_parameters(c, a).proxies.timeout_seconds == c.proxies.timeout_seconds,
        apply_parameters(c, a).proxies.validate_on_startup == c.proxies.validate_on_startup,
{
}

/// Each override depends on its own parameter alone: two sets of parameters
/// that agree on one parameter give the same value for its setting,
/// whatever the other parameters are.
pub proof fn lemma_overrides_independent(
    c: ConfigView,
    a: CommandLineParametersView,
    b: CommandLineParametersView,
)
    ensures
        a.ipaddress == b.ipaddress ==> apply_parameters(c, a).server.listen_addr
            == apply_parameters(c, b).server.listen_addr,
        a.lport == b.lport ==> apply_parameters(c, a).server.listen_port == apply_parameters(
            c,
            b,
        ).server.listen_port,
        a.rotate_every == b.rotate_every ==> apply_parameters(c, a).server.rotate_every_requests
            == apply_parameters(c, b).server.rotate_every_requests,
        a.proxies == b.proxies ==> apply_parameters(c, a).proxies.source_file == apply_parameters(
            c,
            b,
        ).proxies.source_file,
        a.output == b.output ==> apply_parameters(c, a).level == apply_parameters(c, b).level,
{
}

/// Overriding twice with the same parameters gives what overriding once gives.
pub proof fn lemma_parameters_idempotent(c: ConfigView, a: CommandLineParametersView)
    ensures
        apply_parameters(apply_parameters(c, a), a) == apply_parameters(c, a),
{
}

/// Parameters that give nothing (`"none"`, `0`, `Unspecified`) leave the
/// configuration as it is.
pub proof fn lemma_empty_parameters_change_nothing(c: ConfigView, a: CommandLineParametersView)
    requires
        a.ipaddress == "none"@,
        a.proxies == "none"@,
        a.lport == 0,
        a.rotate_every == 0,
        a.output == OutputMode::Unspecified,
    ensures
        apply_parameters(c, a) == c,
{
}

impl Config {
    /// Replaces the server settings.
    pub fn set_server(&mut self, server: ServerConfig)
        ensures
            final(self).server == server,
            final(self).logging == old(self).logging,
            final(self).proxies == old(self).proxies,
    {
        self.server = server;
    }

    /// Replaces the logging settings.
    pub fn set_logging(&mut self, logging: LoggingConfig)
        ensures
            final(self).logging == logging,
            final(self).server == old(self).server,
            final(self).proxies == old(self).proxies,
    {
        self.logging = logging;
    }

    /// Replaces the proxy settings.
    pub fn set_proxies(&mut self, proxies: ProxiesConfig)
        ensures
            final(self).proxies == proxies,
            final(self).server == old(self).server,
            final(self).logging == old(self).logging,
    {
        self.proxies = proxies;
    }

    /// Lets the command line parameters `args` override this configuration
    /// (see `apply_parameters`) and hands them back.
    pub fn get_command_line_parameters(&mut self, args: CommandLineParameters) -> (r:
        CommandLineParameters)
        ensures
            final(self)@ == apply_parameters(old(self)@, args@),
            r == args,
    {
        let none = String::from_str("none");
        if args.ipaddress != none && self.server.listen_addr != args.ipaddress {
            self.server.set_listen_addr(args.ipaddress.clone());
        }
        if args.lport != 0 && self.server.listen_port != args.lport {
            self.server.set_listen_port(args.lport);
        }
        if args.proxies != none && self.proxies.source_file != args.proxies {
            self.proxies.set_source_file(args.proxies.clone());
        }
        if args.rotate_every != 0 && self.server.rotate_every_requests != args.rotate_every {
            self.server.set_rotate_every_requests(args.rotate_every);
        }
        match args.output {
            OutputMode::Debug => self.logging.set_level(String::from_str("debug")),
            OutputMode::Error => self.logging.set_level(String::from_str("error")),
            OutputMode::Info => self.logging.set_level(String::from_str("info")),
            OutputMode::Trace => self.logging.set_level(String::from_str("trace")),
            OutputMode::Warn => self.logging.set_level(String::from_str("warn")),
            OutputMode::Unspecified => {},
        }
        args
    }
}

impl ServerConfig {
    /// Replaces the listening address.
    pub fn set_listen_addr(&mut self, listen_addr: String)
        ensures
            final(self).listen_addr == listen_addr,
            final(self).listen_port == old(self).listen_port,
            final(self).rotate_every_requests == old(self).rotate_every_requests,
    {
        self.listen_addr = listen_addr;
    }

    /// Replaces the listening port.
    pub fn set_listen_port(&mut self, listen_port: u16)
        ensures
            final(self).listen_port == listen_port,
            final(self).listen_addr == old(self).listen_addr,
            final(self).rotate_every_requests == old(self).rotate_every_requests,
    {
        self.listen_port = listen_port;
    }

    /// Replaces the number of requests after which the proxy rotates.
    pub fn set_rotate_every_requests(&mut self, rotate_every: u16)
        ensures
            final(self).rotate_every_requests == rotate_every,
            final(self).listen_addr == old(self).listen_addr,
            final(self).listen_port == old(self).listen_port,
    {
        self.rotate_every_requests = rotate_every;
    }
}

impl LoggingConfig {
    /// Replaces the logging level.
    pub fn set_level(&mut self, level: String)
        ensures
            final(self).level == level,
    {
        self.level = level;
    }
}

impl ProxiesConfig {
    /// Replaces the proxy list file.
    pub fn set_source_file(&mut self, source_file: String)
        ensures
            final(self).source_file == source_file,
            final(self).live_output_file == old(self).live_output_file,
            final(self).validation_url == old(self).validation_url,
            final(self).timeout_seconds == old(self).timeout_seconds,
            final(self).validate_on_startup == old(self).validate_on_startup,
    {
        self.source_file = source_file;
    }

    /// Replaces whether proxies are validated on startup.
    pub fn set_validate_on_startup(&mut self, validate_on_startup: bool)
        ensures
            final(self).validate_on_startup == validate_on_startup,
            final(self).source_file == old(self).source_file,
            final(self).live_output_file == old(self).live_output_file,
            final(self).validation_url == old(self).validation_url,
            final(self).timeout_seconds == old(self).timeout_seconds,
    {
        self.validate_on_startup = validate_on_startup;
    }
}

} // verus!
