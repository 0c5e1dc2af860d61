//! What the command line and the environment ask the process to do.
use crate::config::{ListenerConfig, ListenerConfigView, PortailConfig, PortailConfigView, Protocol};
use crate::dup::Dup;
use crate::text;
use crate::text::{join_strings, parse_unsigned, str_eq, u64_text};
use vstd::prelude::*;

verus! {

/// What the process is to do.
#[derive(Clone, Copy, Debug, PartialEq, Eq, Structural)]
pub enum RunMode {
    /// Print the names of the supported features.
    PrintFeatures,
    /// Write an example configuration.
    Generate,
    /// Check a configuration file.
    Validate,
    /// Explain the example configurations.
    Example,
    /// Serve.
    Serve,
}

/// What the process is to do: the first of the flags that is set decides.
pub fn run_mode(features: bool, generate: bool, validate: bool, example: bool) -> (r: RunMode)
    ensures
        r == (if features {
            RunMode::PrintFeatures
        } else if generate {
            RunMode::Generate
        } else if validate {
            RunMode::Validate
        } else if example {
            RunMode::Example
        } else {
            RunMode::Serve
        }),
{
    if features {
        RunMode::PrintFeatures
    } else if generate {
        RunMode::Generate
    } else if validate {
        RunMode::Validate
    } else if example {
        RunMode::Example
    } else {
        RunMode::Serve
    }
}

/// The number that a variable of the environment asks for: a positive one that
/// fits, if any.
pub open spec fn thread_count(var: Option<Seq<char>>) -> Option<usize> {
    match var {
        Some(s) => match text::unsigned_value(s) {
            Some(n) => if 0 < n <= usize::MAX {
                Some(n as usize)
            } else {
                None
            },
            None => None,
        },
        None => None,
    }
}

fn parse_thread_count(var: &Option<String>) -> (r: Option<usize>)
    ensures
        r == thread_count(var.deep_view()),
{
    match var {
        Some(s) => match parse_unsigned(s.as_str(), usize::MAX as u64) {
            Some(n) => if n > 0 {
                Some(n as usize)
            } else {
                None
            },
            None => None,
        },
        None => None,
    }
}

/// How many worker threads to run: as many as the environment asks for, else
/// one for each processor up to four, else two.
pub fn worker_threads(var: &Option<String>, available: Option<usize>) -> (r: usize)
    ensures
        r == (match (thread_count(var.deep_view()), available) {
            (Some(n), _) => n,
            (None, Some(n)) => if n < 4 {
                n
            } else {
                4
            },
            (None, None) => 2,
        }),
{
    match parse_thread_count(var) {
        Some(n) => n,
        None => match available {
            Some(n) => if n < 4 {
                n
            } else {
                4
            },
            None => 2,
        },
    }
}

/// How many blocking threads to allow: as many as the environment asks for,
/// else 32.
pub fn max_blocking_threads(var: &Option<String>) -> (r: usize)
    ensures
        r == (match thread_count(var.deep_view()) {
            Some(n) => n,
            None => 32,
        }),
{
    match parse_thread_count(var) {
        Some(n) => n,
        None => 32,
    }
}

/// The listeners to bind at start: those of the configuration, but none under
/// Kubernetes, where every listener comes from a Gateway.
pub fn startup_listeners(kubernetes: bool, configured: &Vec<ListenerConfig>) -> (r: Vec<
    ListenerConfig,
>)
    ensures
        r.deep_view() == (if kubernetes {
            Seq::<ListenerConfigView>::empty()
        } else {
            configured.deep_view()
        }),
{
    if kubernetes {
        let none: Vec<ListenerConfig> = Vec::new();
        assert(none.deep_view() =~= Seq::<ListenerConfigView>::empty());
        none
    } else {
        configured.dup()
    }
}

/// The port of the admin endpoint and whether the process counts as ready from
/// the start. Under Kubernetes readiness waits for the first Gateway; a
/// standalone process has the endpoint only on request.
pub fn admin_endpoint(
    kubernetes: bool,
    readiness_port: u16,
    metrics_port: Option<u16>,
) -> (r: Option<(u16, bool)>)
    ensures
        r == (if kubernetes {
            Some((readiness_port, false))
        } else {
            match metrics_port {
                Some(p) => Some((p, true)),
                None => None,
            }
        }),
{
    if kubernetes {
        Some((readiness_port, false))
    } else {
        match metrics_port {
            Some(p) => Some((p, true)),
            None => None,
        }
    }
}

/// The ports of the HTTP and HTTPS listeners, as text.
pub open spec fn http_ports(listeners: Seq<ListenerConfigView>) -> Seq<Seq<char>>
    decreases listeners.len(),
{
    if listeners.len() == 0 {
        Seq::empty()
    } else {
        let rest = http_ports(listeners.drop_last());
        let l = listeners.last();
        if l.protocol == Protocol::HTTP || l.protocol == Protocol::HTTPS {
            rest.push(text::decimal(l.port as nat))
        } else {
            rest
        }
    }
}

/// The summary of a configuration.
pub open spec fn summary(c: PortailConfigView) -> Seq<char> {
    "Configuration Summary:\n  HTTP Routes: "@ + text::decimal(c.http_routes.len())
        + "\n  TCP Routes: "@ + text::decimal(c.tcp_routes.len()) + "\n  HTTP Listeners: ["@
        + text::join(http_ports(c.gateway.listeners), ", "@) + "]\n"@
}

/// The summary of a configuration: how many HTTP and TCP routes it has, and the
/// ports of its HTTP and HTTPS listeners.
pub fn configuration_summary(config: &PortailConfig) -> (r: String)
    ensures
        r@ == summary(config.deep_view()),
{
    let listeners = &config.gateway.listeners;
    let ghost s = listeners.deep_view();
    let mut ports: Vec<String> = Vec::new();
    let mut i: usize = 0;
    assert(ports.deep_view() =~= http_ports(s.take(0)));
    while i < listeners.len()
        invariant
            i <= listeners@.len(),
            s == listeners.deep_view(),
            ports.deep_view() == http_ports(s.take(i as int)),
        decreases listeners.len() - i,
    {
        let ghost before = ports.deep_view();
        proof {
            assert(s.take(i + 1).last() == listeners[i as int].deep_view());
            assert(s.take(i + 1).drop_last() =~= s.take(i as int));
        }
        let p = listeners[i].protocol;
        if p == Protocol::HTTP || p == Protocol::HTTPS {
            let t = u64_text(listeners[i].port as u64);
            ports.push(t);
            assert(ports.deep_view() =~= before.push(t@));
        }
        i += 1;
    }
    assert(s.take(s.len() as int) =~= s);
    let mut out = "Configuration Summary:\n  HTTP Routes: ".to_owned();
    out.append(u64_text(config.http_routes.len() as u64).as_str());
    out.append("\n  TCP Routes: ");
    out.append(u64_text(config.tcp_routes.len() as u64).as_str());
    out.append("\n  HTTP Listeners: [");
    out.append(join_strings(&ports, ", ").as_str());
    out.append("]\n");
    out
}

/// The format of a generated configuration file.
#[derive(Clone, Copy, Debug, PartialEq, Eq, Structural)]
pub enum OutputFormat {
    Json,
    Yaml,
}

/// Why a configuration file cannot be generated.
#[derive(Clone, Debug, PartialEq, Eq)]
pub enum OutputError {
    /// The file has an extension that stands for no format.
    UnsupportedExtension(String),
    /// The file has no extension.
    MissingExtension,
}

impl OutputError {
    /// The message of the error.
    pub open spec fn text(&self) -> Seq<char> {
        match self {
            OutputError::UnsupportedExtension(ext) => "Unsupported output file extension: ."@ + ext@
                + ". Supported formats: .json, .yaml, .yml"@,
            OutputError::MissingExtension =>
                "Output file must have an extension (.json, .yaml, .yml)"@,
        }
    }

    /// The message of the error.
    pub fn message(&self) -> (r: String)
        ensures
            r@ == self.text(),
    {
        match self {
            OutputError::UnsupportedExtension(ext) => {
                let mut s = "Unsupported output file extension: .".to_owned();
                s.append(ext.as_str());
                s.append(". Supported formats: .json, .yaml, .yml");
                s
            },
            OutputError::MissingExtension =>
                "Output file must have an extension (.json, .yaml, .yml)".to_owned(),
        }
    }
}

/// The format that the extension of the output file asks for.
pub fn output_format(extension: &Option<String>) -> (r: Result<OutputFormat, OutputError>)
    ensures
        match extension.deep_view() {
            Some(e) => if e == "json"@ {
                r == Ok::<OutputFormat, OutputError>(OutputFormat::Json)
            } else if e == "yaml"@ || e == "yml"@ {
                r == Ok::<OutputFormat, OutputError>(OutputFormat::Yaml)
            } else {
                r matches Err(OutputError::UnsupportedExtension(x)) && x@ == e
            },
            None => r == Err::<OutputFormat, OutputError>(OutputError::MissingExtension),
        },
{
    match extension {
        Some(e) => {
            if str_eq(e.as_str(), "json") {
                Ok(OutputFormat::Json)
            } else if str_eq(e.as_str(), "yaml") || str_eq(e.as_str(), "yml") {
                Ok(OutputFormat::Yaml)
            } else {
                Err(OutputError::UnsupportedExtension(e.clone()))
            }
        },
        None => Err(OutputError::MissingExtension),
    }
}

/// The lines above a generated configuration that is printed.
pub fn generated_header(config_type: &str) -> (r: String)
    ensures
        r@ == "# Generated "@ + config_type@
            + " configuration (YAML)\n# Use --output <file> to save to a file\n\n"@,
{
    let mut s = "# Generated ".to_owned();
    s.append(config_type);
    s.append(" configuration (YAML)\n# Use --output <file> to save to a file\n\n");
    s
}

/// A number of threads is asked for in decimal digits; it counts where it is
/// positive and fits.
pub proof fn law_thread_counts(n: nat)
    ensures
        0 < n <= usize::MAX ==> thread_count(Some(text::decimal(n))) == Some(n as usize),
        n == 0 || n > usize::MAX ==> thread_count(Some(text::decimal(n))) is None,
        thread_count(None) is None,
{
    text::law_decimal_round_trip(n);
}

/// The ports of a summary come listener by listener: one more listener adds its
/// port where it speaks HTTP or HTTPS, and nothing else.
pub proof fn law_ports_come_listener_by_listener(
    listeners: Seq<ListenerConfigView>,
    l: ListenerConfigView,
)
    ensures
        http_ports(Seq::empty()).len() == 0,
        http_ports(listeners.push(l)) == http_ports(listeners) + (match l.protocol {
            Protocol::HTTP => seq![text::decimal(l.port as nat)],
            Protocol::HTTPS => seq![text::decimal(l.port as nat)],
            _ => Seq::empty(),
        }),
{
    let more = listeners.push(l);
    assert(more.drop_last() =~= listeners);
    assert(more.last() == l);
    let all = http_ports(listeners);
    assert(all.push(text::decimal(l.port as nat)) =~= all + seq![text::decimal(l.port as nat)]);
    assert(all + Seq::empty() =~= all);
}

/// The flags have an order: one that is set makes those behind it irrelevant,
/// and without any the process serves.
pub proof fn law_first_flag_decides(
    features: bool,
    generate: bool,
    validate: bool,
    example: bool,
    r: RunMode,
)
    requires
        call_ensures(run_mode, (features, generate, validate, example), r),
    ensures
        r == RunMode::PrintFeatures <==> features,
        r == RunMode::Generate <==> !features && generate,
        r == RunMode::Validate <==> !features && !generate && validate,
        r == RunMode::Example <==> !features && !generate && !validate && example,
        r == RunMode::Serve <==> !features && !generate && !validate && !example,
{
}

/// A number of worker threads that is asked for is what is run; else there is
/// one for each processor but never more than four, and two where the number
/// of processors is not known.
pub proof fn law_worker_threads(var: &Option<String>, available: Option<usize>, r: usize)
    requires
        call_ensures(worker_threads, (var, available), r),
    ensures
        thread_count(var.deep_view()) is Some ==> r == thread_count(var.deep_view())->0,
        thread_count(var.deep_view()) is None && available is Some ==> r <= 4 && r <= available->0
            && (r == 4 || r == available->0),
        thread_count(var.deep_view()) is None && available is None ==> r == 2,
{
}

/// The extension of a file decides its format: `json`, or `yaml` and `yml`.
/// Any other is refused by name.
pub proof fn law_output_formats(
    extension: &Option<String>,
    r: Result<OutputFormat, OutputError>,
)
    requires
        call_ensures(output_format, (extension,), r),
    ensures
        r == Ok::<OutputFormat, OutputError>(OutputFormat::Json) <==> extension.deep_view() == Some(
            "json"@,
        ),
        r == Ok::<OutputFormat, OutputError>(OutputFormat::Yaml) <==> extension.deep_view() == Some(
            "yaml"@,
        ) || extension.deep_view() == Some("yml"@),
        extension is None <==> r == Err::<OutputFormat, OutputError>(OutputError::MissingExtension),
        r is Err && extension.deep_view() is Some ==> r->Err_0.text()
            == "Unsupported output file extension: ."@ + extension.deep_view()->0
            + ". Supported formats: .json, .yaml, .yml"@,
        extension is None ==> r->Err_0.text()
            == "Output file must have an extension (.json, .yaml, .yml)"@,
{
    reveal_strlit("json");
    reveal_strlit("yaml");
    reveal_strlit("yml");
    assert("json"@[0] == 'j' && "yaml"@[0] == 'y' && "yml"@[0] == 'y');
}

} // verus!
