//! The client agent's configuration: plain values assembled outside
//! (command line, environment, key file), and the URL builders the
//! agent shows and dials with.
use crate::ids::{ClientId, SecretKey};
use crate::text::{chars_of_ascii, decimal_string, spec_decimal_digits};
use vstd::prelude::*;
use vstd::string::StringExecFns;

verus! {

/// Everything the client agent runs with.
#[derive(Debug, Clone)]
pub struct Config {
    /// A throwaway process-local identifier.
    pub client_id: ClientId,
    /// The control server URL the agent dials.
    pub control_url: String,
    /// Whether the local forward target speaks TLS.
    pub use_tls: bool,
    /// The public root under which tunnels are minted.
    pub host: String,
    /// The local host traffic is forwarded to.
    pub local_host: String,
    /// The local port traffic is forwarded to.
    pub local_port: u16,
    /// The wished-for subdomain, if any.
    pub sub_domain: Option<String>,
    /// The credential, if one is configured.
    pub secret_key: Option<SecretKey>,
    /// Whether the control connection itself forgoes TLS.
    pub control_tls_off: bool,
    /// Whether this is the first connection of the process.
    pub first_run: bool,
    /// The local introspection dashboard port; zero means ephemeral.
    pub dashboard_port: u16,
    /// Whether verbose logging was asked for.
    pub verbose: bool,
}

/// The control server URL: `ws` or `wss`, the control host, the port,
/// and the control path.
pub fn control_url_text(tls_off: bool, control_host: &String, port: &String) -> (r: String)
    ensures
        r@ == (if tls_off {
            "ws"@
        } else {
            "wss"@
        }) + "://"@ + control_host@ + ":"@ + port@ + "/wormhole"@,
{
    let mut out = String::new();
    if tls_off {
        out.append("ws");
    } else {
        out.append("wss");
    }
    out.append("://");
    out.append(control_host.as_str());
    out.append(":");
    out.append(port.as_str());
    out.append("/wormhole");
    proof {
        reveal_strlit("ws");
        reveal_strlit("wss");
        reveal_strlit("://");
        reveal_strlit(":");
        reveal_strlit("/wormhole");
    }
    out
}

/// A `scheme://host:port` URL from plain parts.
fn scheme_url(scheme: &str, host: &String, port: u16) -> (r: String)
    ensures
        r@ == scheme@ + "://"@ + host@ + ":"@ + chars_of_ascii(
            spec_decimal_digits(port as nat),
        ),
{
    let mut out = String::new();
    out.append(scheme);
    out.append("://");
    out.append(host.as_str());
    out.append(":");
    let port_text = decimal_string(port as u64);
    out.append(port_text.as_str());
    proof {
        reveal_strlit("://");
        reveal_strlit(":");
    }
    out
}

impl Config {
    /// The public URL to show for an open tunnel: `http` or `https`
    /// by the control TLS setting, and the full hostname.
    pub fn activation_url(&self, full_hostname: &str) -> (r: String)
        ensures
            r@ == (if self.control_tls_off {
                "http"@
            } else {
                "https"@
            }) + "://"@ + full_hostname@,
    {
        let mut out = String::new();
        if self.control_tls_off {
            out.append("http");
        } else {
            out.append("https");
        }
        out.append("://");
        out.append(full_hostname);
        proof {
            reveal_strlit("http");
            reveal_strlit("https");
            reveal_strlit("://");
        }
        out
    }

    /// Where local traffic is forwarded: `http` or `https` by the
    /// local TLS setting.
    pub fn forward_url(&self) -> (r: String)
        ensures
            r@ == (if self.use_tls {
                "https"@
            } else {
                "http"@
            }) + "://"@ + self.local_host@ + ":"@ + chars_of_ascii(
                spec_decimal_digits(self.local_port as nat),
            ),
    {
        if self.use_tls {
            scheme_url("https", &self.local_host, self.local_port)
        } else {
            scheme_url("http", &self.local_host, self.local_port)
        }
    }

    /// The WebSocket form of the forward URL.
    pub fn ws_forward_url(&self) -> (r: String)
        ensures
            r@ == (if self.use_tls {
                "wss"@
            } else {
                "ws"@
            }) + "://"@ + self.local_host@ + ":"@ + chars_of_ascii(
                spec_decimal_digits(self.local_port as nat),
            ),
    {
        if self.use_tls {
            scheme_url("wss", &self.local_host, self.local_port)
        } else {
            scheme_url("ws", &self.local_host, self.local_port)
        }
    }
}

} // verus!
