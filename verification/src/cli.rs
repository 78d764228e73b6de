//! What the command-line client is asked to do, and the checks on its arguments.

use crate::decimal::{parse_unsigned, unsigned_of};
use crate::text::{chars_of, copy_text, has_prefix, split, split_on, starts_with, texts};
use crate::config::Config;
use vstd::prelude::*;
use vstd::string::StringExecFns;
use vstd::utf8::encode_utf8;

verus! {

/// The configuration file that the client reads where none is named.
pub const DEFAULT_CONFIG: &'static str = "/etc/olympus/chronos/client.conf";

/// The day mask of a timer that is created without one: every day.
pub const DEFAULT_DAYS: &'static str = "XXXXXXX";

/// The arguments of the client.
#[derive(Debug)]
pub struct Args {
    /// What to do.
    pub action: Action,
    /// The host to talk to, or a pointer into the configuration: `http://..`, `https://..` or `cfg://..`.
    pub hostname: String,
    /// The file that a `cfg://` host is looked up in.
    pub config: String,
    /// Whether to say more about the connection.
    pub verbose: bool,
}

/// What the client asks of the server.
#[derive(Debug)]
pub enum Action {
    /// Turn on the verbose log.
    VerboseLogOn,
    /// Turn off the verbose log.
    VerboseLogOff,
    /// List the active timers.
    ListActive,
    /// List the timers of the timer directory.
    ListStatic,
    /// Take an active timer out.
    Purge { id: String },
    /// Create a dynamic timer.
    Create { id: String, kind: String, interval: String, command: String, days: String },
    /// Read a timer anew from its file.
    Refresh { id: String },
}

/// How a run of the client ended.
#[derive(Clone, Copy, Debug, PartialEq, Eq, Structural)]
pub enum Outcome {
    /// The request was carried out.
    Done,
    /// The configuration could not be read, or lacks what is needed.
    ConfigFault,
    /// The server answered the request with an error.
    RequestFailed,
}

impl Outcome {
    /// The exit code of the client: 0 for success, 2 for a fault of
    /// configuration or reading, 4 for a request that the server refused.
    pub fn exit_code(&self) -> (code: i32)
        ensures
            code == match self {
                Outcome::Done => 0i32,
                Outcome::ConfigFault => 2i32,
                Outcome::RequestFailed => 4i32,
            },
    {
        match self {
            Outcome::Done => 0,
            Outcome::ConfigFault => 2,
            Outcome::RequestFailed => 4,
        }
    }
}

/// Whether a text is the word of a timer kind.
pub open spec fn is_type_word(s: Seq<char>) -> bool {
    s == "at"@ || s == "every"@ || s == "oneshot"@
}

/// Accepts the word of a timer kind, and refuses any other text.
pub fn validate_type(s: &str) -> (r: Result<String, String>)
    ensures
        match r {
            Ok(word) => is_type_word(s@) && word@ == s@,
            Err(fault) => !is_type_word(s@) && fault@
                == "Type can be only: at, every or oneshot"@,
        },
{
    if !crate::text::same_text(s, "at") && !crate::text::same_text(s, "every")
        && !crate::text::same_text(s, "oneshot") {
        return Err(copy_text("Type can be only: at, every or oneshot"));
    }
    Ok(copy_text(s))
}

/// What is wrong with a text as a day mask, if anything: it does not take
/// seven bytes, or one of its characters is neither `X` nor `_`.
pub open spec fn days_fault(s: Seq<char>) -> Option<Seq<char>> {
    if encode_utf8(s).len() != 7 {
        Some("Parameter must be 7 character"@)
    } else if exists|i: int| 0 <= i < s.len() && #[trigger] s[i] != '_' && s[i] != 'X' {
        Some("Parameter can only contain 'X' and '_' characters"@)
    } else {
        None
    }
}

/// Accepts a day mask, and refuses any other text.
pub fn validate_days(s: &str) -> (r: Result<String, String>)
    ensures
        match r {
            Ok(mask) => days_fault(s@) is None && mask@ == s@,
            Err(fault) => days_fault(s@) == Some(fault@),
        },
{
    if s.as_bytes().len() != 7 {
        return Err(copy_text("Parameter must be 7 character"));
    }
    let cs = chars_of(s);
    let mut i: usize = 0;
    while i < cs.len()
        invariant
            i <= cs.len(),
            cs@ == s@,
            encode_utf8(s@).len() == 7,
            forall|k: int| 0 <= k < i ==> !(#[trigger] cs@[k] != '_' && cs@[k] != 'X'),
        decreases cs.len() - i,
    {
        if cs[i] != '_' && cs[i] != 'X' {
            assert(s@[i as int] != '_' && s@[i as int] != 'X');
            return Err(copy_text("Parameter can only contain 'X' and '_' characters"));
        }
        i += 1;
    }
    Ok(copy_text(s))
}

/// What is wrong with a text as a host, if anything. It must start with
/// `http://`, `https://` or `cfg://`. After `http://` or `https://` its
/// third part between colons must be there and be a port number: decimal
/// digits that stand for at most 65535.
pub open spec fn hostname_fault(s: Seq<char>) -> Option<Seq<char>> {
    if !starts_with(s, "http://"@) && !starts_with(s, "https://"@) && !starts_with(s, "cfg://"@) {
        Some("Protocol for hostname can be http:// or https:// or cfg://. "@)
    } else if starts_with(s, "http://"@) || starts_with(s, "https://"@) {
        let parts = split(s, ':');
        if parts.len() <= 2 {
            Some("Port number is not specified after the hostname. "@)
        } else {
            match unsigned_of(parts[2], 0xffff_ffff) {
                None => Some("Failed to convert port number to numbers"@),
                Some(port) => if port > 65535 {
                    Some("Port number can be between 0..65535"@)
                } else {
                    None
                },
            }
        }
    } else {
        None
    }
}

/// Accepts a host, and refuses any other text with the words that say what is wrong.
pub fn check_hostname(s: &str) -> (r: Result<String, String>)
    ensures
        match r {
            Ok(host) => hostname_fault(s@) is None && host@ == s@,
            Err(fault) => hostname_fault(s@) == Some(fault@),
        },
{
    let http = has_prefix(s, "http://");
    let https = has_prefix(s, "https://");
    if !http && !https && !has_prefix(s, "cfg://") {
        return Err(copy_text("Protocol for hostname can be http:// or https:// or cfg://. "));
    }
    if http || https {
        let parts = split_on(s, ':');
        if parts.len() <= 2 {
            return Err(copy_text("Port number is not specified after the hostname. "));
        }
        assert(texts(parts@)[2] == parts@[2]@);
        match parse_unsigned(parts[2].as_str(), 0xffff_ffff) {
            Some(port) => {
                if port > 65535 {
                    return Err(copy_text("Port number can be between 0..65535"));
                }
            },
            None => {
                return Err(copy_text("Failed to convert port number to numbers"));
            },
        }
    }
    Ok(copy_text(s))
}

/// How the client reaches the server.
#[derive(Debug)]
pub enum ChannelPlan {
    /// Connect to the host as it was given.
    Direct { address: String },
    /// Connect to the address that the configuration gives for the host.
    Plain { address: String },
    /// Connect to that address with TLS, with the certificate authority read
    /// from a file and the given domain name.
    Tls { address: String, ca_cert: String, domain: String },
    /// The configuration gives no address for the host.
    NoAddress { host: String },
}

/// What a channel plan holds, as mathematical values.
pub ghost enum ChannelView {
    Direct { address: Seq<char> },
    Plain { address: Seq<char> },
    Tls { address: Seq<char>, ca_cert: Seq<char>, domain: Seq<char> },
    NoAddress { host: Seq<char> },
}

impl View for ChannelPlan {
    type V = ChannelView;

    open spec fn view(&self) -> ChannelView {
        match self {
            ChannelPlan::Direct { address } => ChannelView::Direct { address: address@ },
            ChannelPlan::Plain { address } => ChannelView::Plain { address: address@ },
            ChannelPlan::Tls { address, ca_cert, domain } => ChannelView::Tls {
                address: address@,
                ca_cert: ca_cert@,
                domain: domain@,
            },
            ChannelPlan::NoAddress { host } => ChannelView::NoAddress { host: host@ },
        }
    }
}

/// The key of the configuration under which a property of a host stands:
/// `node.<host>.<property>`.
pub open spec fn node_key(host: Seq<char>, property: Seq<char>) -> Seq<char> {
    "node."@ + host + seq!['.'] + property
}

/// How the client reaches a host. A host that does not start with `cfg://`
/// is connected to as it is. What follows `cfg://` is looked up in the
/// configuration: its `address` must be there; with both its `ca_cert` and
/// its `domain` there, the connection uses TLS.
pub open spec fn channel_of(hostname: Seq<char>, config: Map<Seq<char>, Seq<char>>) -> ChannelView {
    if !starts_with(hostname, "cfg://"@) {
        ChannelView::Direct { address: hostname }
    } else {
        let host = hostname.skip(6);
        if !config.contains_key(node_key(host, "address"@)) {
            ChannelView::NoAddress { host }
        } else if config.contains_key(node_key(host, "ca_cert"@)) && config.contains_key(
            node_key(host, "domain"@),
        ) {
            ChannelView::Tls {
                address: config[node_key(host, "address"@)],
                ca_cert: config[node_key(host, "ca_cert"@)],
                domain: config[node_key(host, "domain"@)],
            }
        } else {
            ChannelView::Plain { address: config[node_key(host, "address"@)] }
        }
    }
}

/// Whether the client needs its configuration to reach the host.
pub fn needs_config(hostname: &str) -> (r: bool)
    ensures
        r == starts_with(hostname@, "cfg://"@),
{
    has_prefix(hostname, "cfg://")
}

fn node_key_string(host: &str, property: &str) -> (key: String)
    ensures
        key@ == node_key(host@, property@),
{
    let mut key = copy_text("node.");
    key.append(host);
    key.push('.');
    key.append(property);
    key
}

/// Decides how the client reaches a host.
pub fn create_grpc_channel(hostname: &str, config: &Config) -> (plan: ChannelPlan)
    ensures
        plan@ == channel_of(hostname@, config@),
{
    if !has_prefix(hostname, "cfg://") {
        return ChannelPlan::Direct { address: copy_text(hostname) };
    }
    proof {
        reveal_strlit("cfg://");
    }
    let cs = chars_of(hostname);
    let host = crate::text::string_of_range(&cs, 6, cs.len());
    assert(host@ =~= hostname@.skip(6));
    let address = match config.get(node_key_string(host.as_str(), "address").as_str()) {
        Some(address) => address.clone(),
        None => return ChannelPlan::NoAddress { host },
    };
    let ca_cert = config.get(node_key_string(host.as_str(), "ca_cert").as_str());
    let domain = config.get(node_key_string(host.as_str(), "domain").as_str());
    match (ca_cert, domain) {
        (Some(ca_cert), Some(domain)) => ChannelPlan::Tls {
            address,
            ca_cert: ca_cert.clone(),
            domain: domain.clone(),
        },
        _ => ChannelPlan::Plain { address },
    }
}

impl Action {
    /// The configuration that a request to create a timer describes: its
    /// five fields under the keys `id`, `type`, `interval`, `command` and
    /// `days`. `None` for any other action.
    pub fn timer_config(&self) -> (r: Option<Config>)
        ensures
            match (r, *self) {
                (Some(config), Action::Create { id, kind, interval, command, days }) => config@
                    == request_fields(id@, kind@, interval@, command@, days@),
                (None, Action::Create { .. }) => false,
                (Some(_), _) => false,
                (None, _) => true,
            },
    {
        match self {
            Action::Create { id, kind, interval, command, days } => Some(
                request_config(
                    id.as_str(),
                    kind.as_str(),
                    interval.as_str(),
                    command.as_str(),
                    days.as_str(),
                ),
            ),
            _ => None,
        }
    }
}

/// The configuration made of the five fields of a request to create a timer.
pub open spec fn request_fields(
    id: Seq<char>,
    kind: Seq<char>,
    interval: Seq<char>,
    command: Seq<char>,
    days: Seq<char>,
) -> Map<Seq<char>, Seq<char>> {
    Map::<Seq<char>, Seq<char>>::empty().insert("id"@, id).insert("type"@, kind).insert(
        "interval"@,
        interval,
    ).insert("command"@, command).insert("days"@, days)
}

/// Makes the five fields of a request to create a timer into a configuration.
pub fn request_config(id: &str, kind: &str, interval: &str, command: &str, days: &str) -> (config:
    Config)
    ensures
        config@ == request_fields(id@, kind@, interval@, command@, days@),
{
    let mut config = Config::new();
    config.insert("id", id);
    config.insert("type", kind);
    config.insert("interval", interval);
    config.insert("command", command);
    config.insert("days", days);
    config
}

} // verus!
