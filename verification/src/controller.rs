//! The controller's decisions: its agent token, which addresses it offers
//! for bootstrapping, how it answers a bootstrap request, and how its SSH
//! server authenticates.

use vstd::prelude::*;
use vstd::string::StringExecFns;
use crate::text::concat;
use crate::text::decimal;
use crate::text::decimal_of;
use crate::text::push_char;

verus! {

/// A thread-local random number generator.
#[verifier::external_type_specification]
#[verifier::external_body]
pub struct ExThreadRng(rand::rngs::ThreadRng);

/// The random number generator of this thread.
///
/// Trusted: `rand::thread_rng`. Nothing is stated of the generator.
#[verifier::external_body]
fn thread_rng() -> rand::rngs::ThreadRng {
    rand::thread_rng()
}

/// Whether a byte is an ASCII letter or digit.
pub open spec fn is_alphanumeric_byte(b: u8) -> bool {
    (0x30 <= b <= 0x39) || (0x41 <= b <= 0x5a) || (0x61 <= b <= 0x7a)
}

/// Draws an ASCII letter or digit at random.
///
/// Trusted: `Rng::sample` with `rand::distributions::Alphanumeric`, whose
/// documentation says it yields a byte among `a-z`, `A-Z` and `0-9`. Which
/// one comes out is left open.
#[verifier::external_body]
fn sample_alphanumeric(rng: &mut rand::rngs::ThreadRng) -> (b: u8)
    ensures
        is_alphanumeric_byte(b),
{
    rand::Rng::sample(rng, rand::distributions::Alphanumeric)
}

/// Whether every byte is an ASCII letter or digit.
pub open spec fn all_alphanumeric(bytes: Seq<u8>) -> bool {
    forall|i: int| 0 <= i < bytes.len() ==> is_alphanumeric_byte(#[trigger] bytes[i])
}

/// The text whose characters are the bytes, each read as an ASCII character.
pub open spec fn ascii_text(bytes: Seq<u8>) -> Seq<char> {
    bytes.map_values(|b: u8| b as char)
}

/// Draws `n` ASCII letters and digits at random, one `Alphanumeric` sample
/// each.
pub fn draw_alphanumeric(rng: &mut rand::rngs::ThreadRng, n: usize) -> (r: Vec<u8>)
    ensures
        r@.len() == n,
        all_alphanumeric(r@),
{
    let mut bytes: Vec<u8> = Vec::new();
    let mut i: usize = 0;
    while i < n
        invariant
            i <= n,
            bytes@.len() == i,
            all_alphanumeric(bytes@),
        decreases n - i,
    {
        let b = sample_alphanumeric(rng);
        bytes.push(b);
        i = i + 1;
    }
    bytes
}

/// The token made of the drawn bytes: each byte, an ASCII letter or digit,
/// becomes the character it encodes, in order.
pub fn token_from_bytes(bytes: &Vec<u8>) -> (r: String)
    requires
        all_alphanumeric(bytes@),
    ensures
        r@ == ascii_text(bytes@),
{
    let mut token = String::new();
    let mut i: usize = 0;
    while i < bytes.len()
        invariant
            i <= bytes@.len(),
            token@ == ascii_text(bytes@.take(i as int)),
        decreases bytes.len() - i,
    {
        let b = bytes[i];
        let c = b as char;
        let ghost before = token@;
        push_char(&mut token, c);
        assert(ascii_text(bytes@.take(i + 1)) =~= ascii_text(bytes@.take(i as int)).push(c));
        i = i + 1;
    }
    assert(bytes@.take(bytes@.len() as int) =~= bytes@);
    token
}

/// A token for agents: 32 ASCII letters and digits drawn at random, made
/// into text by `token_from_bytes`.
pub fn generate_token() -> (r: String)
    ensures
        r@.len() == 32,
        exists|bytes: Seq<u8>| #![trigger ascii_text(bytes)]
            bytes.len() == 32 && all_alphanumeric(bytes) && r@ == ascii_text(bytes),
{
    let mut rng = thread_rng();
    let bytes = draw_alphanumeric(&mut rng, 32);
    let token = token_from_bytes(&bytes);
    assert(token@ == ascii_text(bytes@));
    token
}

/// An IP address of a network interface.
#[derive(Debug)]
pub enum IpAddress {
    /// An IPv4 address, by octets.
    V4(u8, u8, u8, u8),
    /// An IPv6 address, by its eight segments.
    V6(u16, u16, u16, u16, u16, u16, u16, u16),
}

/// Whether an address is a loopback address: `127.0.0.0/8` or `::1`.
pub open spec fn is_loopback(ip: IpAddress) -> bool {
    match ip {
        IpAddress::V4(a, _, _, _) => a == 127,
        IpAddress::V6(a, b, c, d, e, f, g, h) => a == 0 && b == 0 && c == 0 && d == 0 && e == 0 && f == 0
            && g == 0 && h == 1,
    }
}

/// Whether the controller offers an address to agents for bootstrapping: not
/// a loopback address, not `127.x.x.x`, `169.254.x.x` or `172.16.x.x` to
/// `172.31.x.x`, and not an IPv6 link-local address (`fe80` first).
pub open spec fn offers_address(ip: IpAddress) -> bool {
    !is_loopback(ip) && match ip {
        IpAddress::V4(a, b, _, _) => !(a == 127 || (a == 169 && b == 254) || (a == 172 && 16 <= b <= 31)),
        IpAddress::V6(a, _, _, _, _, _, _, _) => a != 0xfe80,
    }
}

/// Whether the controller offers the address to agents for bootstrapping.
pub fn is_bootstrap_address(ip: &IpAddress) -> (r: bool)
    ensures
        r == offers_address(*ip),
        *ip matches IpAddress::V4(a, b, _, _) ==> (r <==> !(a == 127 || (a == 169 && b == 254) || (a == 172 && 16
            <= b && b <= 31))),
        *ip matches IpAddress::V6(a, b, c, d, e, f, g, h) ==> (r <==> (a != 0xfe80 && !(a == 0 && b == 0 && c == 0
            && d == 0 && e == 0 && f == 0 && g == 0 && h == 1))),
{
    let loopback = match ip {
        IpAddress::V4(a, _, _, _) => *a == 127,
        IpAddress::V6(a, b, c, d, e, f, g, h) => *a == 0 && *b == 0 && *c == 0 && *d == 0 && *e == 0 && *f
            == 0 && *g == 0 && *h == 1,
    };
    if loopback {
        return false;
    }
    match ip {
        IpAddress::V4(a, b, _, _) => {
            let first = *a;
            let second = *b;
            if first == 127 || (first == 169 && second == 254) || (first == 172 && 16 <= second && second <= 31) {
                return false;
            }
            true
        },
        IpAddress::V6(a, _, _, _, _, _, _, _) => *a != 0xfe80,
    }
}

/// The controller offers every address to agents but the loopback ones
/// (`127.0.0.0/8`, `::1`), the link-local ones (`169.254.0.0/16`, IPv6
/// addresses starting with `fe80`) and `172.16.0.0/12`; in particular every
/// IPv4 address whose first octet is not 127, 169 or 172 is offered.
pub proof fn lemma_bootstrap_addresses(ip: IpAddress)
    ensures
        ip matches IpAddress::V4(a, b, _, _) ==> (offers_address(ip) <==> !(a == 127 || (a == 169 && b == 254) || (a
            == 172 && 16 <= b && b <= 31))),
        ip matches IpAddress::V4(a, _, _, _) ==> (a != 127 && a != 169 && a != 172 ==> offers_address(ip)),
        ip matches IpAddress::V6(a, b, c, d, e, f, g, h) ==> (offers_address(ip) <==> (a != 0xfe80 && !(a == 0 && b
            == 0 && c == 0 && d == 0 && e == 0 && f == 0 && g == 0 && h == 1))),
{
}

/// The line printed for an address agents can bootstrap through.
pub open spec fn bootstrap_url_line_of(ip_text: Seq<char>, port: u16, token: Seq<char>) -> Seq<char> {
    "  - http://"@ + ip_text + ":"@ + decimal_of(port as nat) + "/api/bootstrap?token="@ + token
}

/// The line printed for an address agents can bootstrap through.
pub fn bootstrap_url_line(ip_text: &str, port: u16, token: &str) -> (r: String)
    ensures
        r@ == bootstrap_url_line_of(ip_text@, port, token@),
{
    let mut line = concat("  - http://", ip_text);
    line.append(":");
    line.append(decimal(port as u64).as_str());
    line.append("/api/bootstrap?token=");
    line.append(token);
    line
}

/// The port the controller listens on.
pub fn controller_port() -> (r: u16)
    ensures
        r == 2345,
{
    2345
}

/// Whether a bootstrap request carries the agent token.
pub fn bootstrap_accepts(expected: &String, given: &String) -> (r: bool)
    ensures
        r == (expected@ == given@),
{
    *expected == *given
}

/// The answer to a bootstrap request: with the right token, status 200 and
/// the controller's public key as an `authorized_keys` line; otherwise status
/// 401 and `invalid token`.
pub open spec fn bootstrap_reply_of(accepted: bool, public_key: Seq<char>) -> (u16, Seq<char>) {
    if accepted {
        (200, "ssh-ed25519 "@ + public_key + " there-controller"@)
    } else {
        (401, "invalid token"@)
    }
}

/// The answer to a bootstrap request, given whether the token was right and
/// the controller's public key (in base 64).
pub fn bootstrap_reply(accepted: bool, public_key: &str) -> (r: (u16, String))
    ensures
        (r.0, r.1@) == bootstrap_reply_of(accepted, public_key@),
{
    if accepted {
        let mut line = concat("ssh-ed25519 ", public_key);
        line.append(" there-controller");
        (200, line)
    } else {
        (401, String::from_str("invalid token"))
    }
}

/// How the controller's SSH server answers an authentication attempt.
#[derive(Debug, Clone, Copy, PartialEq, Eq, Structural)]
pub enum AuthDecision {
    Accept,
    Reject,
}

/// The controller's SSH server rejects every public key.
pub fn auth_publickey_decision(user: &str) -> (r: AuthDecision)
    ensures
        r == AuthDecision::Reject,
{
    AuthDecision::Reject
}

/// The controller's SSH server accepts a password only for `root` with its
/// fixed password.
pub fn auth_password_decision(user: &str, password: &str) -> (r: AuthDecision)
    ensures
        r == (if user@ == "root"@ && password@ == "hackmepls"@ { AuthDecision::Accept } else { AuthDecision::Reject }),
{
    if String::from_str(user) == String::from_str("root") && String::from_str(password) == String::from_str("hackmepls") {
        AuthDecision::Accept
    } else {
        AuthDecision::Reject
    }
}

/// The id a new SSH connection handler gets, and the id kept for the next.
pub fn next_handler_id(id: usize) -> (r: (usize, usize))
    requires
        id < usize::MAX,
    ensures
        r == (id, (id + 1) as usize),
{
    (id, id + 1)
}

} // verus!
