//! The parts of a DPoP proof: the compact form, the header with its key, and the claims.

use vstd::prelude::*;

use crate::encoding::from_base64url;
use crate::error::{DpopError, DpopErrorView};
use crate::json::{
    after_white, behind, json_document, json_integer, json_nodes, json_optional_text, json_text,
    json_value, node, parse_document, pass_white, read_integer,
    read_optional_text, read_text, skip_value, text_at, text_of, JsonNode, JsonNodeView,
};
use crate::text::{same_text, split, view_of_text};

verus! {

// ---------------------------------------------------------------------------
// The header
// ---------------------------------------------------------------------------

/// The public key in the header of a proof, as the JSON object gives it.
#[derive(Debug)]
pub enum Jwk {
    /// A key with two coordinates.
    EcP256 { kty: String, crv: String, x: String, y: String },
    /// A key with one.
    OkpEd25519 { kty: String, crv: String, x: String },
}

/// [`Jwk`], with each text as a sequence of characters.
pub enum JwkView {
    EcP256 { kty: Seq<char>, crv: Seq<char>, x: Seq<char>, y: Seq<char> },
    OkpEd25519 { kty: Seq<char>, crv: Seq<char>, x: Seq<char> },
}

impl View for Jwk {
    type V = JwkView;

    open spec fn view(&self) -> JwkView {
        match self {
            Jwk::EcP256 { kty, crv, x, y } => JwkView::EcP256 {
                kty: kty@,
                crv: crv@,
                x: x@,
                y: y@,
            },
            Jwk::OkpEd25519 { kty, crv, x } => JwkView::OkpEd25519 { kty: kty@, crv: crv@, x: x@ },
        }
    }
}

/// The header of a proof.
#[derive(Debug)]
pub struct DpopHeader {
    pub typ: String,
    pub alg: String,
    pub jwk: Jwk,
}

/// [`DpopHeader`], with each text as a sequence of characters.
pub struct DpopHeaderView {
    pub typ: Seq<char>,
    pub alg: Seq<char>,
    pub jwk: JwkView,
}

impl View for DpopHeader {
    type V = DpopHeaderView;

    open spec fn view(&self) -> DpopHeaderView {
        DpopHeaderView { typ: self.typ@, alg: self.alg@, jwk: self.jwk@ }
    }
}

/// The key whose members the pointers lead to: one with two coordinates where there are two, and
/// with one where there is only the first. Each member has to be a text.
pub open spec fn jwk_of(
    nodes: Map<Seq<char>, JsonNodeView>,
    kty: Seq<char>,
    crv: Seq<char>,
    x: Seq<char>,
    y: Seq<char>,
) -> Option<JwkView> {
    match (text_at(nodes, kty), text_at(nodes, crv), text_at(nodes, x)) {
        (Some(kty), Some(crv), Some(x)) => match text_at(nodes, y) {
            Some(y) => Some(JwkView::EcP256 { kty, crv, x, y }),
            None => Some(JwkView::OkpEd25519 { kty, crv, x }),
        },
        _ => None,
    }
}

/// Whether the document is an array of three items.
pub open spec fn is_triple(nodes: Map<Seq<char>, JsonNodeView>) -> bool {
    &&& nodes.contains_key(""@) && nodes[""@] is Array
    &&& nodes.contains_key("/2"@)
    &&& !nodes.contains_key("/3"@)
}

/// The header that a document holds: an object with its members, or an array of them in order.
pub open spec fn header_of(nodes: Map<Seq<char>, JsonNodeView>) -> Option<DpopHeaderView> {
    let object = nodes.contains_key(""@) && nodes[""@] is Object;
    let (typ, alg, jwk) = if object {
        (
            text_at(nodes, "/typ"@),
            text_at(nodes, "/alg"@),
            jwk_of(nodes, "/jwk/kty"@, "/jwk/crv"@, "/jwk/x"@, "/jwk/y"@),
        )
    } else {
        (
            text_at(nodes, "/0"@),
            text_at(nodes, "/1"@),
            jwk_of(nodes, "/2/kty"@, "/2/crv"@, "/2/x"@, "/2/y"@),
        )
    };
    match (typ, alg, jwk) {
        (Some(typ), Some(alg), Some(jwk)) if object || is_triple(nodes) => Some(
            DpopHeaderView { typ, alg, jwk },
        ),
        _ => None,
    }
}

/// Whether a document holds the private part of the key of a header: as the member of an object,
/// or of the third item of an array.
pub open spec fn holds_private_key(nodes: Map<Seq<char>, JsonNodeView>) -> bool {
    ||| nodes.contains_key("/jwk/d"@)
    ||| nodes.contains_key(""@) && nodes[""@] is Array && nodes.contains_key("/2/d"@)
}

/// The header that bytes spell. One that holds the private part of its key is refused before
/// anything else is read from it.
pub open spec fn header_from_json(json: Seq<u8>) -> Result<DpopHeaderView, DpopErrorView> {
    match json_document(json) {
        None => Err(DpopErrorView::MalformedJws),
        Some(nodes) => if holds_private_key(nodes) {
            Err(DpopErrorView::BadJwk("jwk must not include 'd'"@))
        } else {
            match header_of(nodes) {
                Some(header) => Ok(header),
                None => Err(DpopErrorView::MalformedJws),
            }
        },
    }
}

/// The outcome of reading a header.
pub open spec fn header_outcome(outcome: Result<DpopHeader, DpopError>) -> Result<
    DpopHeaderView,
    DpopErrorView,
> {
    match outcome {
        Ok(header) => Ok(header@),
        Err(error) => Err(error@),
    }
}

fn read_jwk(document: &serde_json::Value, kty: &str, crv: &str, x: &str, y: &str) -> (jwk: Option<
    Jwk,
>)
    ensures
        jwk is Some == jwk_of(json_nodes(*document), kty@, crv@, x@, y@) is Some,
        jwk is Some ==> Some(jwk->0@) == jwk_of(json_nodes(*document), kty@, crv@, x@, y@),
{
    match (text_of(document, kty), text_of(document, crv), text_of(document, x)) {
        (Some(kty), Some(crv), Some(x)) => match text_of(document, y) {
            Some(y) => Some(Jwk::EcP256 { kty, crv, x, y }),
            None => Some(Jwk::OkpEd25519 { kty, crv, x }),
        },
        _ => None,
    }
}

/// Reads the header of a proof from the bytes of its JSON text.
pub fn read_header(json: &[u8]) -> (header: Result<DpopHeader, DpopError>)
    ensures
        header_outcome(header) == header_from_json(json@),
{
    let document = match parse_document(json) {
        Some(document) => document,
        None => {
            return Err(DpopError::MalformedJws);
        },
    };
    let (object, array) = match node(&document, "") {
        Some(JsonNode::Object) => (true, false),
        Some(JsonNode::Array) => (false, true),
        _ => (false, false),
    };
    // MUST NOT include private JWK material
    if node(&document, "/jwk/d").is_some() || (array && node(&document, "/2/d").is_some()) {
        return Err(DpopError::BadJwk("jwk must not include 'd'"));
    }
    let triple = array && node(&document, "/2").is_some() && node(&document, "/3").is_none();
    let (typ, alg, jwk) = if object {
        (
            text_of(&document, "/typ"),
            text_of(&document, "/alg"),
            read_jwk(&document, "/jwk/kty", "/jwk/crv", "/jwk/x", "/jwk/y"),
        )
    } else {
        (
            text_of(&document, "/0"),
            text_of(&document, "/1"),
            read_jwk(&document, "/2/kty", "/2/crv", "/2/x", "/2/y"),
        )
    };
    if !object && !triple {
        return Err(DpopError::MalformedJws);
    }
    match (typ, alg, jwk) {
        (Some(typ), Some(alg), Some(jwk)) => Ok(DpopHeader { typ, alg, jwk }),
        _ => Err(DpopError::MalformedJws),
    }
}

// ---------------------------------------------------------------------------
// The claims
// ---------------------------------------------------------------------------

/// The claims of a proof.
#[derive(Debug)]
pub struct DpopClaims {
    pub jti: String,
    pub iat: i64,
    pub htm: String,
    pub htu: String,
    pub ath: Option<String>,
    pub nonce: Option<String>,
}

/// [`DpopClaims`], with each text as a sequence of characters.
pub struct DpopClaimsView {
    pub jti: Seq<char>,
    pub iat: i64,
    pub htm: Seq<char>,
    pub htu: Seq<char>,
    pub ath: Option<Seq<char>>,
    pub nonce: Option<Seq<char>>,
}

impl View for DpopClaims {
    type V = DpopClaimsView;

    open spec fn view(&self) -> DpopClaimsView {
        DpopClaimsView {
            jti: self.jti@,
            iat: self.iat,
            htm: self.htm@,
            htu: self.htu@,
            ath: view_of_text(self.ath),
            nonce: view_of_text(self.nonce),
        }
    }
}

/// The claims that have been read so far.
struct ClaimsDraft {
    jti: Option<String>,
    iat: Option<i64>,
    htm: Option<String>,
    htu: Option<String>,
    ath: Option<Option<String>>,
    nonce: Option<Option<String>>,
}

/// The claims that have been read so far, with each text as a sequence of characters.
pub struct ClaimsDraftView {
    pub jti: Option<Seq<char>>,
    pub iat: Option<i64>,
    pub htm: Option<Seq<char>>,
    pub htu: Option<Seq<char>>,
    pub ath: Option<Option<Seq<char>>>,
    pub nonce: Option<Option<Seq<char>>>,
}

/// A text that has been read, or a null, or nothing yet.
pub open spec fn view_of_optional(text: Option<Option<String>>) -> Option<Option<Seq<char>>> {
    match text {
        Some(text) => Some(view_of_text(text)),
        None => None,
    }
}

impl View for ClaimsDraft {
    type V = ClaimsDraftView;

    closed spec fn view(&self) -> ClaimsDraftView {
        ClaimsDraftView {
            jti: view_of_text(self.jti),
            iat: self.iat,
            htm: view_of_text(self.htm),
            htu: view_of_text(self.htu),
            ath: view_of_optional(self.ath),
            nonce: view_of_optional(self.nonce),
        }
    }
}

/// No claims.
pub open spec fn no_claims() -> ClaimsDraftView {
    ClaimsDraftView { jti: None, iat: None, htm: None, htu: None, ath: None, nonce: None }
}

/// The claims with the one added whose value the bytes begin with, and where that value ends. A
/// claim must not occur twice; one that is not known may have any value.
pub open spec fn with_claim(draft: ClaimsDraftView, name: Seq<char>, bytes: Seq<u8>) -> Option<
    (ClaimsDraftView, nat),
> {
    if name == "jti"@ {
        match (draft.jti, json_text(bytes)) {
            (None, Some((text, end))) => Some((ClaimsDraftView { jti: Some(text), ..draft }, end)),
            _ => None,
        }
    } else if name == "iat"@ {
        match (draft.iat, json_integer(bytes)) {
            (None, Some((iat, end))) => Some((ClaimsDraftView { iat: Some(iat), ..draft }, end)),
            _ => None,
        }
    } else if name == "htm"@ {
        match (draft.htm, json_text(bytes)) {
            (None, Some((text, end))) => Some((ClaimsDraftView { htm: Some(text), ..draft }, end)),
            _ => None,
        }
    } else if name == "htu"@ {
        match (draft.htu, json_text(bytes)) {
            (None, Some((text, end))) => Some((ClaimsDraftView { htu: Some(text), ..draft }, end)),
            _ => None,
        }
    } else if name == "ath"@ {
        match (draft.ath, json_optional_text(bytes)) {
            (None, Some((text, end))) => Some((ClaimsDraftView { ath: Some(text), ..draft }, end)),
            _ => None,
        }
    } else if name == "nonce"@ {
        match (draft.nonce, json_optional_text(bytes)) {
            (None, Some((text, end))) => Some(
                (ClaimsDraftView { nonce: Some(text), ..draft }, end),
            ),
            _ => None,
        }
    } else {
        match json_value(bytes) {
            Some(end) => Some((draft, end)),
            None => None,
        }
    }
}

/// Where the next item of an object or an array begins.
pub enum NextItem {
    /// Behind the separator: the bytes from the item on.
    At(Seq<u8>),
    /// There is none: the bytes behind the closing bracket.
    End(Seq<u8>),
    /// What stands there is neither.
    Malformed,
}

/// The next item in bytes that stand behind the opening bracket or behind an item. There is a
/// comma before each but the first, and none behind the last.
pub open spec fn next_item(bytes: Seq<u8>, first: bool, close: u8) -> NextItem {
    let here = after_white(bytes);
    if here.len() == 0 {
        NextItem::Malformed
    } else if here[0] == close {
        NextItem::End(here.skip(1))
    } else if first {
        NextItem::At(here)
    } else if here[0] != 0x2c {
        NextItem::Malformed
    } else {
        let there = after_white(here.skip(1));
        if there.len() == 0 || there[0] == close {
            NextItem::Malformed
        } else {
            NextItem::At(there)
        }
    }
}

/// The claims that the members of an object add. The bytes stand behind the opening brace or
/// behind a member; the object has to be the last thing in them.
pub open spec fn claims_of_members(
    bytes: Seq<u8>,
    first: bool,
    draft: ClaimsDraftView,
) -> Option<ClaimsDraftView>
    decreases bytes.len(),
{
    match next_item(bytes, first, 0x7d) {
        NextItem::Malformed => None,
        NextItem::End(rest) => if after_white(rest).len() == 0 {
            Some(draft)
        } else {
            None
        },
        NextItem::At(item) => if item[0] != 0x22 {
            None
        } else {
            match json_text(item) {
                None => None,
                Some((name, end)) => {
                    let colon = after_white(item.skip(end as int));
                    if colon.len() == 0 || colon[0] != 0x3a {
                        None
                    } else {
                        match with_claim(draft, name, colon.skip(1)) {
                            None => None,
                            Some((more, end)) => {
                                let rest = colon.skip(1).skip(end as int);
                                // Each member takes some bytes.
                                if rest.len() < bytes.len() {
                                    claims_of_members(rest, false, more)
                                } else {
                                    None
                                }
                            },
                        }
                    }
                },
            }
        },
    }
}

/// The claim that stands at a place of an array of claims.
pub open spec fn claim_at(place: nat) -> Seq<char> {
    if place == 0 {
        "jti"@
    } else if place == 1 {
        "iat"@
    } else if place == 2 {
        "htm"@
    } else if place == 3 {
        "htu"@
    } else if place == 4 {
        "ath"@
    } else {
        "nonce"@
    }
}

/// The claims that the items of an array add, of which there are four to six, in their order. The
/// bytes stand behind so many items; the array has to be the last thing in them.
pub open spec fn claims_of_items(bytes: Seq<u8>, place: nat, draft: ClaimsDraftView) -> Option<
    ClaimsDraftView,
>
    decreases 7 - place,
{
    match next_item(bytes, place == 0, 0x5d) {
        NextItem::Malformed => None,
        NextItem::End(rest) => if after_white(rest).len() == 0 && place >= 4 {
            Some(draft)
        } else {
            None
        },
        NextItem::At(item) => if place >= 6 {
            None
        } else {
            match with_claim(draft, claim_at(place), item) {
                None => None,
                Some((more, end)) => claims_of_items(item.skip(end as int), place + 1, more),
            }
        },
    }
}

/// The claims, where the four that a proof must have are there.
pub open spec fn complete(draft: ClaimsDraftView) -> Option<DpopClaimsView> {
    match (draft.jti, draft.iat, draft.htm, draft.htu) {
        (Some(jti), Some(iat), Some(htm), Some(htu)) => Some(
            DpopClaimsView {
                jti,
                iat,
                htm,
                htu,
                ath: match draft.ath {
                    Some(ath) => ath,
                    None => None,
                },
                nonce: match draft.nonce {
                    Some(nonce) => nonce,
                    None => None,
                },
            },
        ),
        _ => None,
    }
}

/// The claims that bytes spell: an object with its members, or an array of them in order.
pub open spec fn claims_from_json(json: Seq<u8>) -> Option<DpopClaimsView> {
    let here = after_white(json);
    let draft = if here.len() == 0 {
        None
    } else if here[0] == 0x7b {
        claims_of_members(here.skip(1), true, no_claims())
    } else if here[0] == 0x5b {
        claims_of_items(here.skip(1), 0, no_claims())
    } else {
        None
    };
    match draft {
        Some(draft) => complete(draft),
        None => None,
    }
}

/// Reads the value of a claim and adds it.
fn add_claim(draft: ClaimsDraft, name: &str, bytes: &[u8]) -> (more: Option<(ClaimsDraft, usize)>)
    ensures
        more is Some == with_claim(draft@, name@, bytes@) is Some,
        more is Some ==> with_claim(draft@, name@, bytes@)->0 == (
            (more->0).0@,
            (more->0).1 as nat,
        ),
        more is Some ==> 0 < (more->0).1 <= bytes@.len(),
{
    let mut draft = draft;
    if same_text(name, "jti") {
        if draft.jti.is_some() {
            return None;
        }
        let (text, end) = read_text(bytes)?;
        draft.jti = Some(text);
        Some((draft, end))
    } else if same_text(name, "iat") {
        if draft.iat.is_some() {
            return None;
        }
        let (iat, end) = read_integer(bytes)?;
        draft.iat = Some(iat);
        Some((draft, end))
    } else if same_text(name, "htm") {
        if draft.htm.is_some() {
            return None;
        }
        let (text, end) = read_text(bytes)?;
        draft.htm = Some(text);
        Some((draft, end))
    } else if same_text(name, "htu") {
        if draft.htu.is_some() {
            return None;
        }
        let (text, end) = read_text(bytes)?;
        draft.htu = Some(text);
        Some((draft, end))
    } else if same_text(name, "ath") {
        if draft.ath.is_some() {
            return None;
        }
        let (text, end) = read_optional_text(bytes)?;
        draft.ath = Some(text);
        Some((draft, end))
    } else if same_text(name, "nonce") {
        if draft.nonce.is_some() {
            return None;
        }
        let (text, end) = read_optional_text(bytes)?;
        draft.nonce = Some(text);
        Some((draft, end))
    } else {
        let end = skip_value(bytes)?;
        Some((draft, end))
    }
}

/// Where the next item of an object or an array begins, in executable form.
enum Step<'a> {
    At(&'a [u8]),
    End(&'a [u8]),
    Malformed,
}

/// Finds the next item of an object or an array.
fn step<'a>(bytes: &'a [u8], first: bool, close: u8) -> (step: Step<'a>)
    ensures
        match step {
            Step::At(item) => next_item(bytes@, first, close) == NextItem::At(item@) && 0
                < item@.len() <= bytes@.len(),
            Step::End(rest) => next_item(bytes@, first, close) == NextItem::End(rest@),
            Step::Malformed => next_item(bytes@, first, close) == NextItem::Malformed,
        },
{
    let here = pass_white(bytes);
    if here.len() == 0 {
        Step::Malformed
    } else if here[0] == close {
        Step::End(behind(here, 1))
    } else if first {
        Step::At(here)
    } else if here[0] != 0x2c {
        Step::Malformed
    } else {
        let there = pass_white(behind(here, 1));
        if there.len() == 0 || there[0] == close {
            Step::Malformed
        } else {
            Step::At(there)
        }
    }
}

/// Reads claims from the members of an object.
fn read_members(bytes: &[u8]) -> (draft: Option<ClaimsDraft>)
    ensures
        draft is Some == claims_of_members(bytes@, true, no_claims()) is Some,
        draft is Some ==> claims_of_members(bytes@, true, no_claims())->0 == draft->0@,
{
    let mut draft = ClaimsDraft {
        jti: None,
        iat: None,
        htm: None,
        htu: None,
        ath: None,
        nonce: None,
    };
    let mut rest: &[u8] = bytes;
    let mut first: bool = true;
    loop
        invariant
            claims_of_members(rest@, first, draft@) == claims_of_members(
                bytes@,
                true,
                no_claims(),
            ),
        decreases rest@.len(),
    {
        match step(rest, first, 0x7d) {
            Step::Malformed => {
                return None;
            },
            Step::End(tail) => {
                if pass_white(tail).len() == 0 {
                    return Some(draft);
                } else {
                    return None;
                }
            },
            Step::At(item) => {
                if item[0] != 0x22 {
                    return None;
                }
                let (name, end) = read_text(item)?;
                let colon = pass_white(behind(item, end));
                if colon.len() == 0 || colon[0] != 0x3a {
                    return None;
                }
                let value = behind(colon, 1);
                let (more, end) = add_claim(draft, name.as_str(), value)?;
                rest = behind(value, end);
                draft = more;
                first = false;
            },
        }
    }
}

/// The claim that stands at a place of an array of claims.
fn name_at(place: usize) -> (name: &'static str)
    ensures
        name@ == claim_at(place as nat),
{
    if place == 0 {
        "jti"
    } else if place == 1 {
        "iat"
    } else if place == 2 {
        "htm"
    } else if place == 3 {
        "htu"
    } else if place == 4 {
        "ath"
    } else {
        "nonce"
    }
}

/// Reads claims from the items of an array.
fn read_items(bytes: &[u8]) -> (draft: Option<ClaimsDraft>)
    ensures
        draft is Some == claims_of_items(bytes@, 0, no_claims()) is Some,
        draft is Some ==> claims_of_items(bytes@, 0, no_claims())->0 == draft->0@,
{
    let mut draft = ClaimsDraft {
        jti: None,
        iat: None,
        htm: None,
        htu: None,
        ath: None,
        nonce: None,
    };
    let mut rest: &[u8] = bytes;
    let mut place: usize = 0;
    loop
        invariant
            place <= 6,
            claims_of_items(rest@, place as nat, draft@) == claims_of_items(
                bytes@,
                0,
                no_claims(),
            ),
        decreases 7 - place,
    {
        match step(rest, place == 0, 0x5d) {
            Step::Malformed => {
                return None;
            },
            Step::End(tail) => {
                if pass_white(tail).len() == 0 && place >= 4 {
                    return Some(draft);
                } else {
                    return None;
                }
            },
            Step::At(item) => {
                if place >= 6 {
                    return None;
                }
                let (more, end) = add_claim(draft, name_at(place), item)?;
                rest = behind(item, end);
                draft = more;
                place = place + 1;
            },
        }
    }
}

/// Reads the claims of a proof from the bytes of their JSON text.
pub fn read_claims(json: &[u8]) -> (claims: Option<DpopClaims>)
    ensures
        claims is Some == claims_from_json(json@) is Some,
        claims is Some ==> claims_from_json(json@)->0 == claims->0@,
{
    let here = pass_white(json);
    if here.len() == 0 {
        return None;
    }
    let draft = if here[0] == 0x7b {
        read_members(behind(here, 1))?
    } else if here[0] == 0x5b {
        read_items(behind(here, 1))?
    } else {
        return None;
    };
    match (draft.jti, draft.iat, draft.htm, draft.htu) {
        (Some(jti), Some(iat), Some(htm), Some(htu)) => Some(
            DpopClaims {
                jti,
                iat,
                htm,
                htu,
                ath: match draft.ath {
                    Some(ath) => ath,
                    None => None,
                },
                nonce: match draft.nonce {
                    Some(nonce) => nonce,
                    None => None,
                },
            },
        ),
        _ => None,
    }
}

// ---------------------------------------------------------------------------
// The compact form
// ---------------------------------------------------------------------------

/// A proof in its parts, with its claims still encoded.
#[derive(Debug)]
pub struct DpopToken {
    pub header: DpopHeader,
    pub payload_b64: String,
    pub signature_bytes: Vec<u8>,
    pub signing_input: String,
}

/// [`DpopToken`], with each text as a sequence of characters.
pub struct DpopTokenView {
    pub header: DpopHeaderView,
    pub payload_b64: Seq<char>,
    pub signature_bytes: Seq<u8>,
    pub signing_input: Seq<char>,
}

impl View for DpopToken {
    type V = DpopTokenView;

    open spec fn view(&self) -> DpopTokenView {
        DpopTokenView {
            header: self.header@,
            payload_b64: self.payload_b64@,
            signature_bytes: self.signature_bytes@,
            signing_input: self.signing_input@,
        }
    }
}

/// The proof that a text spells: header, payload and signature in base64url, with a dot between
/// them. What is signed is the text before the second dot.
pub open spec fn token_from_compact(jws: Seq<char>) -> Result<DpopTokenView, DpopErrorView> {
    let parts = split(jws, '.');
    if parts.len() != 3 {
        Err(DpopErrorView::MalformedJws)
    } else {
        match from_base64url(parts[0]) {
            None => Err(DpopErrorView::MalformedJws),
            Some(json) => match header_from_json(json) {
                Err(error) => Err(error),
                Ok(header) => match from_base64url(parts[2]) {
                    None => Err(DpopErrorView::InvalidSignature),
                    Some(signature_bytes) => Ok(
                        DpopTokenView {
                            header,
                            payload_b64: parts[1],
                            signature_bytes,
                            signing_input: parts[0].push('.') + parts[1],
                        },
                    ),
                },
            },
        }
    }
}

/// The outcome of reading a proof.
pub open spec fn token_outcome(outcome: Result<DpopToken, DpopError>) -> Result<
    DpopTokenView,
    DpopErrorView,
> {
    match outcome {
        Ok(token) => Ok(token@),
        Err(error) => Err(error@),
    }
}

} // verus!
