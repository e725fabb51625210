//! The server's configuration: plain values read from the environment
//! outside, with the list parsing and name building done here.
use crate::auth::SigKey;
use crate::text::{all_ascii, chars_of_ascii, spec_split, split_bytes, string_from_ascii};
use vstd::prelude::*;
use vstd::string::{StringExecFns, StringSliceAdditionalSpecFns};
use vstd::utf8::is_ascii_chars;

verus! {

/// Everything one server instance runs with.
pub struct Config {
    /// The roots tunnels live under: `<sub>.<root>`.
    pub allowed_hosts: Vec<String>,
    /// Subdomains never handed out.
    pub blocked_sub_domains: Vec<String>,
    /// The public port end users reach.
    pub remote_port: u16,
    /// The control-plane port clients dial.
    pub control_port: u16,
    /// The port siblings gossip over.
    pub internal_network_port: u16,
    /// The key reconnect tokens are signed with.
    pub master_sig_key: SigKey,
    /// The DNS name that resolves to every sibling, if the fleet
    /// gossips.
    pub gossip_dns_host: Option<String>,
    /// This instance's name.
    pub instance_id: String,
    /// Addresses refused at the control plane.
    pub blocked_ips: Vec<String>,
    /// Where the authorization backend lives.
    pub db_connection_string: String,
    /// The root appended to a bound subdomain in the success reply.
    pub tunnel_host: String,
}

/// The comma-separated pieces of an ASCII list; a list with anything
/// else in it yields nothing.
pub fn split_csv(s: &String) -> (r: Vec<String>)
    ensures
        is_ascii_chars(s@) ==> r@.map_values(|p: String| p@) == spec_split(
            vstd::utf8::encode_utf8(s@),
            0x2c,
        ).map_values(|p: Seq<u8>| chars_of_ascii(p)),
        !is_ascii_chars(s@) ==> r@.len() == 0,
{
    if !s.as_str().is_ascii() {
        return Vec::new();
    }
    let b: &[u8] = s.as_str().as_bytes();
    proof {
        vstd::utf8::is_ascii_chars_encode_utf8(s@);
        assert(all_ascii(b@)) by {
            vstd::utf8::is_ascii_chars_nat_bound(s@);
            assert(forall|i: int|
                0 <= i < b@.len() ==> #[trigger] b@[i] == s@[i] as u8);
        }
    }
    let pieces = split_bytes(b, 0x2c);
    let ghost piece_models = pieces@.map_values(|p: Vec<u8>| p@);
    let mut out: Vec<String> = Vec::new();
    let n: usize = pieces.len();
    let mut i: usize = 0;
    while i < n
        invariant
            n == pieces@.len(),
            piece_models == pieces@.map_values(|p: Vec<u8>| p@),
            piece_models == spec_split(b@, 0x2c),
            all_ascii(b@),
            0 <= i <= n,
            out@.len() == i,
            forall|j: int|
                0 <= j < i ==> (#[trigger] out@[j])@ == chars_of_ascii(piece_models[j]),
        decreases n - i,
    {
        let ghost pm = piece_models[i as int];
        proof {
            assert(pieces@[i as int]@ == pm);
            lemma_split_pieces_ascii(b@, 0x2c, i as int);
        }
        let piece = crate::codec::copy_range(
            pieces[i].as_slice(),
            0,
            pieces[i].len(),
        );
        proof {
            assert(piece@ =~= pm);
        }
        out.push(string_from_ascii(piece));
        i = i + 1;
    }
    proof {
        let lhs = out@.map_values(|p: String| p@);
        let rhs = spec_split(b@, 0x2c).map_values(|p: Seq<u8>| chars_of_ascii(p));
        assert forall|j: int| 0 <= j < n implies lhs[j] == rhs[j] by {
            assert(lhs[j] == out@[j]@);
            assert(rhs[j] == chars_of_ascii(piece_models[j]));
        }
        assert(lhs =~= rhs);
    }
    out
}

/// Every piece of an ASCII sequence's split is ASCII.
proof fn lemma_split_pieces_ascii(b: Seq<u8>, sep: u8, i: int)
    requires
        all_ascii(b),
        0 <= i < spec_split(b, sep).len(),
    ensures
        all_ascii(spec_split(b, sep)[i]),
    decreases b.len(),
{
    if b.len() == 0 {
    } else {
        assert(all_ascii(b.drop_last())) by {
            assert(forall|j: int|
                0 <= j < b.drop_last().len() ==> #[trigger] b.drop_last()[j] == b[j]);
        }
        let rest = spec_split(b.drop_last(), sep);
        crate::text::lemma_split_nonempty(b.drop_last(), sep);
        if b.last() == sep {
            if i < rest.len() {
                lemma_split_pieces_ascii(b.drop_last(), sep, i);
            }
        } else {
            if i < rest.len() - 1 {
                lemma_split_pieces_ascii(b.drop_last(), sep, i);
            } else {
                lemma_split_pieces_ascii(b.drop_last(), sep, rest.len() - 1);
                assert(b.last() < 0x80);
            }
        }
    }
}

/// The fleet's discovery name for an application: every sibling
/// resolves under `global.<app>.internal`.
pub fn gossip_dns_host_for(app_name: &String) -> (r: String)
    ensures
        r@ == "global."@ + app_name@ + ".internal"@,
{
    let mut out = String::new();
    out.append("global.");
    out.append(app_name.as_str());
    out.append(".internal");
    proof {
        reveal_strlit("global.");
        reveal_strlit(".internal");
    }
    out
}

/// Parses a port number: exactly the non-empty all-digit texts whose
/// value fits sixteen bits.
pub fn parse_port(s: &String) -> (r: Option<u16>)
    ensures
        r is Some <==> (vstd::utf8::encode_utf8(s@).len() > 0 && crate::text::all_digits(
            vstd::utf8::encode_utf8(s@),
        ) && crate::text::spec_digits_value(vstd::utf8::encode_utf8(s@)) <= 0xffff),
        r is Some ==> r->0 == crate::text::spec_digits_value(vstd::utf8::encode_utf8(s@)),
{
    crate::text::parse_u16(s.as_str().as_bytes())
}

} // verus!
