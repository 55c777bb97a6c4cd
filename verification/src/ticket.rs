//! Verification of authorization tickets.
//!
//! A ticket is URL-safe base64 without padding of a JSON object. The object
//! carries the tunnel parameters and `sig`, the lower-case hexadecimal
//! HMAC-SHA256 tag of the canonical text of its other members. A ticket is
//! accepted when its tag is the expected one and it has not expired. Tickets are
//! not remembered: a ticket can be presented again until it expires.

use vstd::prelude::*;
use vstd::utf8::encode_utf8;
use crate::bytes::{
    ascii_bytes, constant_time_eq, copy_bytes, decimal, lit, push_all, push_decimal,
    push_signed_decimal, signed_decimal,
};
use crate::encoding::{
    base64_url_decode, base64_url_decoded, hex_encode, hex_lower, hmac_sha256, hmac_sha256_of,
    json_quote, json_string_bytes, optional_text, read_optional_text, read_required_integer,
    read_required_text, required_integer, required_text, text_view,
};
use crate::clock::unix_seconds;

verus! {

/// Why a ticket was refused.
#[derive(Clone, Copy, Debug, PartialEq, Eq, Structural)]
pub enum TicketError {
    /// The ticket is no base64, no JSON object, lacks a member or has one of the
    /// wrong kind.
    Malformed,
    /// The tag of the ticket is not the one its content calls for.
    Signature,
    /// The ticket's expiry lies before the time of the check.
    Expired,
}

impl TicketError {
    /// A description for the agent and the log.
    pub fn message(&self) -> (r: String)
        ensures
            r@ == match self {
                TicketError::Malformed => "Ticket malformed"@,
                TicketError::Signature => "Invalid ticket signature"@,
                TicketError::Expired => "Ticket expired"@,
            },
    {
        match self {
            TicketError::Malformed => "Ticket malformed".to_string(),
            TicketError::Signature => "Invalid ticket signature".to_string(),
            TicketError::Expired => "Ticket expired".to_string(),
        }
    }
}

/// The content of a ticket.
#[derive(Debug, Clone)]
pub struct TicketPayload {
    /// The user that the ticket was issued to.
    pub user_id: String,
    /// The user's plan.
    pub plan: String,
    /// How many tunnels the user may hold at once.
    pub max_tunnels: u8,
    /// The subdomain reserved for the tunnel.
    pub subdomain: Option<String>,
    /// The domain under which the subdomain is served.
    pub base_domain: Option<String>,
    /// The ticket's own identifier.
    pub ticket_id: String,
    /// The Unix time, in seconds, after which the ticket is no longer valid.
    pub exp: i64,
    /// The tag, in lower-case hexadecimal; absent once the ticket is verified.
    pub sig: Option<String>,
}

/// A ticket's content as mathematical values.
pub struct TicketView {
    pub user_id: Seq<char>,
    pub plan: Seq<char>,
    pub max_tunnels: u8,
    pub subdomain: Option<Seq<char>>,
    pub base_domain: Option<Seq<char>>,
    pub ticket_id: Seq<char>,
    pub exp: i64,
    pub sig: Option<Seq<char>>,
}

impl View for TicketPayload {
    type V = TicketView;

    open spec fn view(&self) -> TicketView {
        TicketView {
            user_id: self.user_id@,
            plan: self.plan@,
            max_tunnels: self.max_tunnels,
            subdomain: text_view(self.subdomain),
            base_domain: text_view(self.base_domain),
            ticket_id: self.ticket_id@,
            exp: self.exp,
            sig: text_view(self.sig),
        }
    }
}

/// The ticket that the JSON text `text` describes.
pub open spec fn parsed_ticket(text: Seq<u8>) -> Option<TicketView> {
    match (
        required_text(text, "user_id"@),
        required_text(text, "plan"@),
        required_integer(text, "max_tunnels"@, 0, 255),
        optional_text(text, "subdomain"@),
        optional_text(text, "base_domain"@),
        required_text(text, "ticket_id"@),
        required_integer(text, "exp"@, i64::MIN as int, i64::MAX as int),
        optional_text(text, "sig"@),
    ) {
        (
            Some(user_id),
            Some(plan),
            Some(max_tunnels),
            Some(subdomain),
            Some(base_domain),
            Some(ticket_id),
            Some(exp),
            Some(sig),
        ) => Some(
            TicketView {
                user_id,
                plan,
                max_tunnels: max_tunnels as u8,
                subdomain,
                base_domain,
                ticket_id,
                exp: exp as i64,
                sig,
            },
        ),
        _ => None,
    }
}

/// A member that is written only where it has a value.
pub open spec fn optional_member(name: Seq<u8>, value: Option<Seq<char>>) -> Seq<u8> {
    match value {
        Some(v) => name + json_string_bytes(v),
        None => Seq::empty(),
    }
}

/// The canonical text of a ticket, over which its tag is computed: a JSON object
/// with the members `user_id`, `plan`, `max_tunnels`, `subdomain`, `base_domain`,
/// `ticket_id` and `exp` in this order, without white space, the optional ones
/// left out where they have no value, and without `sig`, whether the ticket
/// carries one or not.
pub open spec fn canonical(p: TicketView) -> Seq<u8> {
    ascii_bytes("{\"user_id\":"@) + json_string_bytes(p.user_id) + ascii_bytes(",\"plan\":"@)
        + json_string_bytes(p.plan) + ascii_bytes(",\"max_tunnels\":"@) + decimal(
        p.max_tunnels as nat,
    ) + optional_member(ascii_bytes(",\"subdomain\":"@), p.subdomain) + optional_member(
        ascii_bytes(",\"base_domain\":"@),
        p.base_domain,
    ) + ascii_bytes(",\"ticket_id\":"@) + json_string_bytes(p.ticket_id) + ascii_bytes(
        ",\"exp\":"@,
    ) + signed_decimal(p.exp as int) + ascii_bytes("}"@)
}

/// The tag that a ticket with content `p` must carry under `secret`.
pub open spec fn expected_signature(secret: Seq<u8>, p: TicketView) -> Seq<u8> {
    hex_lower(hmac_sha256_of(secret, canonical(p)))
}

/// `p` without its tag.
pub open spec fn unsigned(p: TicketView) -> TicketView {
    TicketView { sig: None, ..p }
}

/// What becomes of a parsed ticket, given the tag that its content calls for:
/// without a tag it is malformed; with another tag than `expected` it is
/// refused; with an expiry before `now` it has expired; else it is accepted and
/// handed back without its tag.
pub open spec fn judgement(p: TicketView, expected: Seq<u8>, now: int) -> Result<
    TicketView,
    TicketError,
> {
    match p.sig {
        None => Err(TicketError::Malformed),
        Some(sig) => if encode_utf8(sig) != expected {
            Err(TicketError::Signature)
        } else if p.exp < now {
            Err(TicketError::Expired)
        } else {
            Ok(unsigned(p))
        },
    }
}

/// What becomes of the ticket `token` at time `now` under `secret`.
pub open spec fn verdict(secret: Seq<u8>, token: Seq<char>, now: int) -> Result<
    TicketView,
    TicketError,
> {
    match base64_url_decoded(token) {
        None => Err(TicketError::Malformed),
        Some(text) => match parsed_ticket(text) {
            None => Err(TicketError::Malformed),
            Some(p) => judgement(p, expected_signature(secret, unsigned(p)), now),
        },
    }
}

/// The outcome of a verification as mathematical values.
pub open spec fn outcome_view(r: Result<TicketPayload, TicketError>) -> Result<
    TicketView,
    TicketError,
> {
    match r {
        Ok(p) => Ok(p@),
        Err(e) => Err(e),
    }
}

/// Reads a ticket from its JSON text.
pub fn parse_ticket(text: &[u8]) -> (r: Option<TicketPayload>)
    ensures
        match r {
            Some(p) => parsed_ticket(text@) == Some(p@),
            None => parsed_ticket(text@) is None,
        },
{
    let user_id = read_required_text(text, "user_id");
    let plan = read_required_text(text, "plan");
    let max_tunnels = read_required_integer(text, "max_tunnels", 0, 255);
    let subdomain = read_optional_text(text, "subdomain");
    let base_domain = read_optional_text(text, "base_domain");
    let ticket_id = read_required_text(text, "ticket_id");
    let exp = read_required_integer(text, "exp", i64::MIN as i128, i64::MAX as i128);
    let sig = read_optional_text(text, "sig");
    match (user_id, plan, max_tunnels, subdomain, base_domain, ticket_id, exp, sig) {
        (
            Some(user_id),
            Some(plan),
            Some(max_tunnels),
            Some(subdomain),
            Some(base_domain),
            Some(ticket_id),
            Some(exp),
            Some(sig),
        ) => Some(
            TicketPayload {
                user_id,
                plan,
                max_tunnels: max_tunnels as u8,
                subdomain,
                base_domain,
                ticket_id,
                exp: exp as i64,
                sig,
            },
        ),
        _ => None,
    }
}

fn push_optional_member(out: &mut Vec<u8>, name: &[u8], value: &Option<String>)
    ensures
        final(out)@ == old(out)@ + optional_member(name@, text_view(*value)),
{
    match value {
        Some(v) => {
            push_all(out, name);
            let q = json_quote(v.as_str());
            push_all(out, q.as_slice());
            assert(out@ =~= old(out)@ + optional_member(name@, text_view(*value)));
        },
        None => {
            assert(out@ =~= old(out)@ + optional_member(name@, text_view(*value)));
        },
    }
}

/// Writes the canonical text of a ticket.
pub fn canonical_text(p: &TicketPayload) -> (r: Vec<u8>)
    ensures
        r@ == canonical(p@),
{
    proof {
        reveal_strlit("{\"user_id\":");
        reveal_strlit(",\"plan\":");
        reveal_strlit(",\"max_tunnels\":");
        reveal_strlit(",\"subdomain\":");
        reveal_strlit(",\"base_domain\":");
        reveal_strlit(",\"ticket_id\":");
        reveal_strlit(",\"exp\":");
        reveal_strlit("}");
    }
    let mut out: Vec<u8> = Vec::new();
    push_all(&mut out, lit("{\"user_id\":"));
    let q = json_quote(p.user_id.as_str());
    push_all(&mut out, q.as_slice());
    push_all(&mut out, lit(",\"plan\":"));
    let q = json_quote(p.plan.as_str());
    push_all(&mut out, q.as_slice());
    push_all(&mut out, lit(",\"max_tunnels\":"));
    push_decimal(&mut out, p.max_tunnels as u64);
    push_optional_member(&mut out, lit(",\"subdomain\":"), &p.subdomain);
    push_optional_member(&mut out, lit(",\"base_domain\":"), &p.base_domain);
    push_all(&mut out, lit(",\"ticket_id\":"));
    let q = json_quote(p.ticket_id.as_str());
    push_all(&mut out, q.as_slice());
    push_all(&mut out, lit(",\"exp\":"));
    push_signed_decimal(&mut out, p.exp);
    push_all(&mut out, lit("}"));
    assert(out@ =~= canonical(p@));
    out
}

/// Decides on a parsed ticket, given the tag that its content calls for.
///
/// The tags are compared in constant time; the expiry is checked after the tag.
pub fn judge(payload: TicketPayload, expected: &[u8], now: i64) -> (r: Result<
    TicketPayload,
    TicketError,
>)
    ensures
        outcome_view(r) == judgement(payload@, expected@, now as int),
{
    let mut payload = payload;
    let ghost before = payload@;
    let sig: String = match payload.sig {
        Some(s) => s,
        None => {
            return Err(TicketError::Malformed);
        },
    };
    if !constant_time_eq(sig.as_str().as_bytes(), expected) {
        return Err(TicketError::Signature);
    }
    if payload.exp < now {
        return Err(TicketError::Expired);
    }
    payload.sig = None;
    assert(payload@ == unsigned(before));
    Ok(payload)
}

/// Verifies tickets under one shared secret.
pub struct TicketVerifier {
    secret: Vec<u8>,
}

impl TicketVerifier {
    /// The shared secret.
    pub closed spec fn secret(&self) -> Seq<u8> {
        self.secret@
    }

    /// A verifier for tickets signed under `secret`.
    pub fn new(secret: &str) -> (r: Self)
        ensures
            r.secret() == encode_utf8(secret@),
    {
        TicketVerifier { secret: copy_bytes(secret.as_bytes()) }
    }

    /// Verifies `ticket` as of the time `now`, in Unix seconds.
    pub fn verify_at(&self, ticket: &str, now: i64) -> (r: Result<TicketPayload, TicketError>)
        ensures
            outcome_view(r) == verdict(self.secret(), ticket@, now as int),
    {
        let text = match base64_url_decode(ticket) {
            Some(t) => t,
            None => {
                return Err(TicketError::Malformed);
            },
        };
        let payload = match parse_ticket(text.as_slice()) {
            Some(p) => p,
            None => {
                return Err(TicketError::Malformed);
            },
        };
        let signed_text = canonical_text(&payload);
        assert(canonical(payload@) == canonical(unsigned(payload@)));
        let tag = hmac_sha256(self.secret.as_slice(), signed_text.as_slice());
        let expected = hex_encode(tag.as_slice());
        judge(payload, expected.as_slice(), now)
    }

    /// Verifies `ticket` as of now, by the machine's clock. A clock set before 1970
    /// gives no time to check the expiry against, and the ticket is refused as
    /// malformed.
    pub fn verify(&self, ticket: &str) -> (r: Result<TicketPayload, TicketError>)
        ensures
            (exists|now: i64| outcome_view(r) == verdict(self.secret(), ticket@, now as int))
                || r == Err::<TicketPayload, TicketError>(TicketError::Malformed),
    {
        match unix_seconds() {
            Some(secs) => {
                let now: i64 = if secs > i64::MAX as u64 {
                    i64::MAX
                } else {
                    secs as i64
                };
                self.verify_at(ticket, now)
            },
            None => Err(TicketError::Malformed),
        }
    }
}

/// A ticket with the expected tag that has not expired is accepted, and what
/// comes back is its content without the tag.
pub proof fn law_valid_ticket_accepted(
    secret: Seq<u8>,
    token: Seq<char>,
    text: Seq<u8>,
    p: TicketView,
    sig: Seq<char>,
    now: int,
)
    requires
        base64_url_decoded(token) == Some(text),
        parsed_ticket(text) == Some(p),
        p.sig == Some(sig),
        encode_utf8(sig) == expected_signature(secret, unsigned(p)),
        p.exp >= now,
    ensures
        verdict(secret, token, now) == Ok::<TicketView, TicketError>(unsigned(p)),
{
}

/// A ticket whose tag is not the expected one is refused for its signature,
/// expired or not.
pub proof fn law_wrong_tag_refused(
    secret: Seq<u8>,
    token: Seq<char>,
    text: Seq<u8>,
    p: TicketView,
    sig: Seq<char>,
    now: int,
)
    requires
        base64_url_decoded(token) == Some(text),
        parsed_ticket(text) == Some(p),
        p.sig == Some(sig),
        encode_utf8(sig) != expected_signature(secret, unsigned(p)),
    ensures
        verdict(secret, token, now) == Err::<TicketView, TicketError>(TicketError::Signature),
{
}

/// A ticket with the expected tag whose expiry lies before `now` has expired.
pub proof fn law_expired_ticket_refused(
    secret: Seq<u8>,
    token: Seq<char>,
    text: Seq<u8>,
    p: TicketView,
    sig: Seq<char>,
    now: int,
)
    requires
        base64_url_decoded(token) == Some(text),
        parsed_ticket(text) == Some(p),
        p.sig == Some(sig),
        encode_utf8(sig) == expected_signature(secret, unsigned(p)),
        p.exp < now,
    ensures
        verdict(secret, token, now) == Err::<TicketView, TicketError>(TicketError::Expired),
{
}

} // verus!
