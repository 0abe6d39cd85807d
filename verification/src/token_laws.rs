//! What holds of every proof as it is read: the compact form, the header and the claims.

use vstd::prelude::*;

use crate::encoding::from_base64url;
use crate::error::DpopErrorView;
use crate::json::{
    after_white, json_document, json_integer, json_optional_text, json_text, json_value,
    JsonNodeView,
};
use crate::text::{
    holds, joined, lemma_joined_split, lemma_split_last, lemma_split_pieces, lemma_split_plain,
    split,
};
use crate::token::{
    claims_from_json, claims_of_items, claims_of_members, complete, header_from_json, header_of,
    next_item, token_from_compact, with_claim, ClaimsDraftView, DpopHeaderView, DpopTokenView,
    JwkView, NextItem,
};

verus! {

// ---------------------------------------------------------------------------
// The compact form
// ---------------------------------------------------------------------------

/// The text that three parts make, with a dot between them.
pub open spec fn compact(header: Seq<char>, payload: Seq<char>, signature: Seq<char>) -> Seq<char> {
    header + seq!['.'] + payload + seq!['.'] + signature
}

/// A text without a dot is not split.
proof fn lemma_dotless(text: Seq<char>)
    requires
        !text.contains('.'),
    ensures
        !holds(text, '.'),
{
    if holds(text, '.') {
        let k = choose|k: int| 0 <= k < text.len() && text[k] == '.';
        assert(text.contains(text[k]));
    }
}

/// What is read from three parts: the header from the first, the payload as it stands, the
/// signature from the third, and as the signed text everything before the last dot.
pub proof fn lemma_compact_read(header: Seq<char>, payload: Seq<char>, signature: Seq<char>)
    requires
        !header.contains('.'),
        !payload.contains('.'),
        !signature.contains('.'),
    ensures
        match from_base64url(header) {
            None => token_from_compact(compact(header, payload, signature)) == Err::<
                DpopTokenView,
                DpopErrorView,
            >(DpopErrorView::MalformedJws),
            Some(json) => match header_from_json(json) {
                Err(error) => token_from_compact(compact(header, payload, signature)) == Err::<
                    DpopTokenView,
                    DpopErrorView,
                >(error),
                Ok(read) => match from_base64url(signature) {
                    None => token_from_compact(compact(header, payload, signature)) == Err::<
                        DpopTokenView,
                        DpopErrorView,
                    >(DpopErrorView::InvalidSignature),
                    Some(bytes) => token_from_compact(compact(header, payload, signature)) == Ok::<
                        DpopTokenView,
                        DpopErrorView,
                    >(
                        DpopTokenView {
                            header: read,
                            payload_b64: payload,
                            signature_bytes: bytes,
                            signing_input: header + seq!['.'] + payload,
                        },
                    ),
                },
            },
        },
{
    lemma_dotless(header);
    lemma_dotless(payload);
    lemma_dotless(signature);
    lemma_split_plain(header, '.');
    lemma_split_last(header, payload, '.');
    let signed = header.push('.') + payload;
    lemma_split_last(signed, signature, '.');
    assert(signed =~= header + seq!['.'] + payload);
    assert(compact(header, payload, signature) =~= signed.push('.') + signature);
}

/// A text that is not three parts with a dot between them is no proof.
pub proof fn lemma_compact_refused(jws: Seq<char>)
    requires
        forall|header: Seq<char>, payload: Seq<char>, signature: Seq<char>|
            !header.contains('.') && !payload.contains('.') && !signature.contains('.') ==> jws
                != #[trigger] compact(header, payload, signature),
    ensures
        token_from_compact(jws) == Err::<DpopTokenView, DpopErrorView>(DpopErrorView::MalformedJws),
{
    let parts = split(jws, '.');
    if parts.len() == 3 {
        lemma_joined_split(jws, '.');
        assert forall|i: int| 0 <= i < 3 implies !(#[trigger] parts[i]).contains('.') by {
            if parts[i].contains('.') {
                let k = choose|k: int| 0 <= k < parts[i].len() && parts[i][k] == '.';
                lemma_split_pieces(jws, '.', i, k);
            }
        }
        let two = parts.drop_last();
        let one = two.drop_last();
        assert(one =~= seq![parts[0]]);
        assert(two.last() == parts[1]);
        assert(joined(one, '.') =~= parts[0]);
        assert(joined(two, '.') =~= parts[0] + seq!['.'] + parts[1]);
        assert(joined(parts, '.') =~= compact(parts[0], parts[1], parts[2]));
        assert(!parts[0].contains('.') && !parts[1].contains('.') && !parts[2].contains('.'));
    }
}

/// Two proofs are read as signing the same text only if header and payload are the same: no part
/// of the signed text can be changed without the signature being over another.
pub proof fn lemma_signed_text(
    left_header: Seq<char>,
    left_payload: Seq<char>,
    right_header: Seq<char>,
    right_payload: Seq<char>,
)
    requires
        !left_header.contains('.'),
        !left_payload.contains('.'),
        !right_header.contains('.'),
        !right_payload.contains('.'),
        left_header + seq!['.'] + left_payload == right_header + seq!['.'] + right_payload,
    ensures
        left_header == right_header,
        left_payload == right_payload,
{
    lemma_dotless(left_header);
    lemma_dotless(left_payload);
    lemma_dotless(right_header);
    lemma_dotless(right_payload);
    lemma_split_plain(left_header, '.');
    lemma_split_plain(right_header, '.');
    lemma_split_last(left_header, left_payload, '.');
    lemma_split_last(right_header, right_payload, '.');
    assert(left_header + seq!['.'] + left_payload =~= left_header.push('.') + left_payload);
    assert(right_header + seq!['.'] + right_payload =~= right_header.push('.') + right_payload);
    let left = seq![left_header].push(left_payload);
    let right = seq![right_header].push(right_payload);
    assert(left == right);
    assert(left[0] == left_header && left[1] == left_payload);
    assert(right[0] == right_header && right[1] == right_payload);
}

// ---------------------------------------------------------------------------
// The header
// ---------------------------------------------------------------------------

/// Whether a pointer leads to a text.
pub open spec fn leads_to(
    nodes: Map<Seq<char>, JsonNodeView>,
    pointer: Seq<char>,
    text: Seq<char>,
) -> bool {
    nodes.contains_key(pointer) && nodes[pointer] == JsonNodeView::Text(text)
}

/// Whether a pointer leads to no text.
pub open spec fn leads_nowhere(nodes: Map<Seq<char>, JsonNodeView>, pointer: Seq<char>) -> bool {
    !nodes.contains_key(pointer) || !(nodes[pointer] is Text)
}

/// A header is read from an object by the names of its members: the key has two coordinates where
/// there are two, and one where there is one.
pub proof fn lemma_header_object(
    nodes: Map<Seq<char>, JsonNodeView>,
    typ: Seq<char>,
    alg: Seq<char>,
    kty: Seq<char>,
    crv: Seq<char>,
    x: Seq<char>,
    y: Seq<char>,
)
    requires
        nodes.contains_key(""@) && nodes[""@] is Object,
        leads_to(nodes, "/typ"@, typ),
        leads_to(nodes, "/alg"@, alg),
        leads_to(nodes, "/jwk/kty"@, kty),
        leads_to(nodes, "/jwk/crv"@, crv),
        leads_to(nodes, "/jwk/x"@, x),
    ensures
        leads_to(nodes, "/jwk/y"@, y) ==> header_of(nodes) == Some(
            DpopHeaderView { typ, alg, jwk: JwkView::EcP256 { kty, crv, x, y } },
        ),
        leads_nowhere(nodes, "/jwk/y"@) ==> header_of(nodes) == Some(
            DpopHeaderView { typ, alg, jwk: JwkView::OkpEd25519 { kty, crv, x } },
        ),
{
}

/// A header is read from an array of three by the places of its items.
pub proof fn lemma_header_array(
    nodes: Map<Seq<char>, JsonNodeView>,
    typ: Seq<char>,
    alg: Seq<char>,
    kty: Seq<char>,
    crv: Seq<char>,
    x: Seq<char>,
    y: Seq<char>,
)
    requires
        nodes.contains_key(""@) && nodes[""@] is Array,
        nodes.contains_key("/2"@) && !nodes.contains_key("/3"@),
        leads_to(nodes, "/0"@, typ),
        leads_to(nodes, "/1"@, alg),
        leads_to(nodes, "/2/kty"@, kty),
        leads_to(nodes, "/2/crv"@, crv),
        leads_to(nodes, "/2/x"@, x),
    ensures
        leads_to(nodes, "/2/y"@, y) ==> header_of(nodes) == Some(
            DpopHeaderView { typ, alg, jwk: JwkView::EcP256 { kty, crv, x, y } },
        ),
        leads_nowhere(nodes, "/2/y"@) ==> header_of(nodes) == Some(
            DpopHeaderView { typ, alg, jwk: JwkView::OkpEd25519 { kty, crv, x } },
        ),
{
}

/// Without each of its members there is no header, in neither form, and none in any other value.
pub proof fn lemma_header_incomplete(nodes: Map<Seq<char>, JsonNodeView>)
    requires
        ({
            let object = nodes.contains_key(""@) && nodes[""@] is Object;
            let array = nodes.contains_key(""@) && nodes[""@] is Array;
            ||| !object && !array
            ||| object && (leads_nowhere(nodes, "/typ"@) || leads_nowhere(nodes, "/alg"@)
                || leads_nowhere(nodes, "/jwk/kty"@) || leads_nowhere(nodes, "/jwk/crv"@)
                || leads_nowhere(nodes, "/jwk/x"@))
            ||| array && (leads_nowhere(nodes, "/0"@) || leads_nowhere(nodes, "/1"@)
                || leads_nowhere(nodes, "/2/kty"@) || leads_nowhere(nodes, "/2/crv"@)
                || leads_nowhere(nodes, "/2/x"@) || !nodes.contains_key("/2"@)
                || nodes.contains_key("/3"@))
        }),
    ensures
        header_of(nodes) is None,
{
}

/// A header is what its document holds; bytes that are no document, or hold no header, are
/// malformed, and one with the private part of its key, in either form, is refused for that.
pub proof fn lemma_header_read(json: Seq<u8>)
    ensures
        match json_document(json) {
            None => header_from_json(json) == Err::<DpopHeaderView, DpopErrorView>(
                DpopErrorView::MalformedJws,
            ),
            Some(nodes) => {
                let private = nodes.contains_key("/jwk/d"@) || (nodes.contains_key(""@)
                    && nodes[""@] is Array && nodes.contains_key("/2/d"@));
                &&& private ==> header_from_json(json) == Err::<DpopHeaderView, DpopErrorView>(
                    DpopErrorView::BadJwk("jwk must not include 'd'"@),
                )
                &&& !private ==> match header_of(nodes) {
                    Some(header) => header_from_json(json) == Ok::<DpopHeaderView, DpopErrorView>(
                        header,
                    ),
                    None => header_from_json(json) == Err::<DpopHeaderView, DpopErrorView>(
                        DpopErrorView::MalformedJws,
                    ),
                }
            },
        },
{
}

// ---------------------------------------------------------------------------
// The claims
// ---------------------------------------------------------------------------

/// Whether bytes are white space throughout: blanks, tabs and line breaks.
pub open spec fn blank(bytes: Seq<u8>) -> bool {
    forall|i: int|
        0 <= i < bytes.len() ==> #[trigger] bytes[i] == 0x20 || bytes[i] == 0x09 || bytes[i] == 0x0a
            || bytes[i] == 0x0d
}

/// Whether bytes begin with no white space.
pub open spec fn starts(bytes: Seq<u8>) -> bool {
    bytes.len() > 0 ==> bytes[0] != 0x20 && bytes[0] != 0x09 && bytes[0] != 0x0a && bytes[0] != 0x0d
}

/// White space, and only that, is passed over.
pub proof fn lemma_blank_passed(white: Seq<u8>, rest: Seq<u8>)
    requires
        blank(white),
        starts(rest),
    ensures
        after_white(white + rest) == rest,
    decreases white.len(),
{
    if white.len() == 0 {
        assert(white + rest =~= rest);
    } else {
        assert(white[0] == 0x20 || white[0] == 0x09 || white[0] == 0x0a || white[0] == 0x0d);
        assert((white + rest)[0] == white[0]);
        assert((white + rest).skip(1) =~= white.skip(1) + rest);
        assert forall|i: int| 0 <= i < white.skip(1).len() implies #[trigger] white.skip(1)[i]
            == 0x20 || white.skip(1)[i] == 0x09 || white.skip(1)[i] == 0x0a || white.skip(1)[i]
            == 0x0d by {
            assert(white.skip(1)[i] == white[i + 1]);
        }
        lemma_blank_passed(white.skip(1), rest);
    }
}

/// Each claim is read into its own place, from the value behind its name, and leaves the others as
/// they are, and none is read twice; a claim of another name leaves all of them, whatever its
/// value.
pub proof fn lemma_claim_read(draft: ClaimsDraftView, name: Seq<char>, value: Seq<u8>)
    ensures
        name == "jti"@ && draft.jti is None ==> match json_text(value) {
            Some((text, end)) => with_claim(draft, name, value) == Some(
                (ClaimsDraftView { jti: Some(text), ..draft }, end),
            ),
            None => with_claim(draft, name, value) is None,
        },
        name == "iat"@ && draft.iat is None ==> match json_integer(value) {
            Some((number, end)) => with_claim(draft, name, value) == Some(
                (ClaimsDraftView { iat: Some(number), ..draft }, end),
            ),
            None => with_claim(draft, name, value) is None,
        },
        name == "htm"@ && draft.htm is None ==> match json_text(value) {
            Some((text, end)) => with_claim(draft, name, value) == Some(
                (ClaimsDraftView { htm: Some(text), ..draft }, end),
            ),
            None => with_claim(draft, name, value) is None,
        },
        name == "htu"@ && draft.htu is None ==> match json_text(value) {
            Some((text, end)) => with_claim(draft, name, value) == Some(
                (ClaimsDraftView { htu: Some(text), ..draft }, end),
            ),
            None => with_claim(draft, name, value) is None,
        },
        name == "ath"@ && draft.ath is None ==> match json_optional_text(value) {
            Some((text, end)) => with_claim(draft, name, value) == Some(
                (ClaimsDraftView { ath: Some(text), ..draft }, end),
            ),
            None => with_claim(draft, name, value) is None,
        },
        name == "nonce"@ && draft.nonce is None ==> match json_optional_text(value) {
            Some((text, end)) => with_claim(draft, name, value) == Some(
                (ClaimsDraftView { nonce: Some(text), ..draft }, end),
            ),
            None => with_claim(draft, name, value) is None,
        },
        name != "jti"@ && name != "iat"@ && name != "htm"@ && name != "htu"@ && name != "ath"@
            && name != "nonce"@ ==> match json_value(value) {
            Some(end) => with_claim(draft, name, value) == Some((draft, end)),
            None => with_claim(draft, name, value) is None,
        },
        (name == "jti"@ && draft.jti is Some) || (name == "iat"@ && draft.iat is Some) || (name
            == "htm"@ && draft.htm is Some) || (name == "htu"@ && draft.htu is Some) || (name
            == "ath"@ && draft.ath is Some) || (name == "nonce"@ && draft.nonce is Some)
            ==> with_claim(draft, name, value) is None,
{
    lemma_names_differ();
}

/// The names of the claims differ.
proof fn lemma_names_differ()
    ensures
        "jti"@ != "iat"@ && "jti"@ != "htm"@ && "jti"@ != "htu"@ && "jti"@ != "ath"@ && "jti"@
            != "nonce"@,
        "iat"@ != "htm"@ && "iat"@ != "htu"@ && "iat"@ != "ath"@ && "iat"@ != "nonce"@,
        "htm"@ != "htu"@ && "htm"@ != "ath"@ && "htm"@ != "nonce"@,
        "htu"@ != "ath"@ && "htu"@ != "nonce"@ && "ath"@ != "nonce"@,
{
    reveal_strlit("jti");
    reveal_strlit("iat");
    reveal_strlit("htm");
    reveal_strlit("htu");
    reveal_strlit("ath");
    reveal_strlit("nonce");
    assert("jti"@[0] == 'j' && "iat"@[0] == 'i' && "ath"@[0] == 'a' && "nonce"@[0] == 'n');
    assert("htm"@[0] == 'h' && "htm"@[2] == 'm' && "htu"@[0] == 'h' && "htu"@[2] == 'u');
}

/// The members of an object are read one by one: a name in quotation marks, a colon and a value,
/// with a comma before each but the first and white space anywhere between.
pub proof fn lemma_member_read(
    white: Seq<u8>,
    more_white: Seq<u8>,
    item: Seq<u8>,
    first: bool,
    name: Seq<char>,
    name_end: nat,
    before_colon: Seq<u8>,
    value: Seq<u8>,
    draft: ClaimsDraftView,
    more: ClaimsDraftView,
    value_end: nat,
)
    requires
        blank(white),
        blank(more_white),
        blank(before_colon),
        item.len() > 0,
        item[0] == 0x22,
        json_text(item) == Some((name, name_end)),
        name_end <= item.len(),
        item.skip(name_end as int) == before_colon + seq![0x3au8] + value,
        with_claim(draft, name, value) == Some((more, value_end)),
        value_end <= value.len(),
    ensures
        first ==> claims_of_members(white + item, first, draft) == claims_of_members(
            value.skip(value_end as int),
            false,
            more,
        ),
        !first ==> claims_of_members(white + seq![0x2cu8] + more_white + item, first, draft)
            == claims_of_members(value.skip(value_end as int), false, more),
{
    let bytes = if first {
        white + item
    } else {
        white + seq![0x2cu8] + more_white + item
    };
    if first {
        lemma_blank_passed(white, item);
    } else {
        let comma = seq![0x2cu8] + (more_white + item);
        assert(bytes =~= white + comma);
        lemma_blank_passed(white, comma);
        assert(comma.skip(1) =~= more_white + item);
        lemma_blank_passed(more_white, item);
    }
    assert(next_item(bytes, first, 0x7d) == NextItem::At(item));
    let colon = seq![0x3au8] + value;
    assert(item.skip(name_end as int) =~= before_colon + colon);
    lemma_blank_passed(before_colon, colon);
    assert(colon.skip(1) =~= value);
    assert(item.skip(name_end as int).len() <= item.len());
    assert(value.skip(value_end as int).len() < bytes.len());
}

/// An object ends with its closing brace, and nothing but white space may stand behind it.
pub proof fn lemma_members_end(
    white: Seq<u8>,
    rest: Seq<u8>,
    first: bool,
    draft: ClaimsDraftView,
)
    requires
        blank(white),
    ensures
        blank(rest) ==> claims_of_members(white + seq![0x7du8] + rest, first, draft) == Some(draft),
        rest.len() > 0 && starts(rest) ==> claims_of_members(
            white + seq![0x7du8] + rest,
            first,
            draft,
        ) is None,
{
    let brace = seq![0x7du8] + rest;
    assert(white + seq![0x7du8] + rest =~= white + brace);
    lemma_blank_passed(white, brace);
    assert(brace.skip(1) =~= rest);
    if blank(rest) {
        lemma_blank_passed(rest, Seq::empty());
        assert(rest + Seq::<u8>::empty() =~= rest);
    }
    if starts(rest) {
        lemma_blank_passed(Seq::empty(), rest);
        assert(Seq::<u8>::empty() + rest =~= rest);
    }
}

/// What is not an object of members is refused: nothing at all, a missing comma, a comma before
/// the end, a name without quotation marks, and a value that its claim does not admit.
pub proof fn lemma_members_refused(
    white: Seq<u8>,
    more_white: Seq<u8>,
    rest: Seq<u8>,
    draft: ClaimsDraftView,
)
    requires
        blank(white),
        blank(more_white),
        starts(rest),
    ensures
        claims_of_members(white, true, draft) is None,
        claims_of_members(white, false, draft) is None,
        rest.len() > 0 && rest[0] != 0x2c && rest[0] != 0x7d ==> claims_of_members(
            white + rest,
            false,
            draft,
        ) is None,
        claims_of_members(white + seq![0x2cu8] + more_white + seq![0x7du8] + rest, false, draft)
            is None,
        rest.len() > 0 && rest[0] != 0x22 && rest[0] != 0x7d ==> claims_of_members(
            white + rest,
            true,
            draft,
        ) is None,
{
    lemma_blank_passed(white, Seq::empty());
    assert(white + Seq::<u8>::empty() =~= white);
    lemma_blank_passed(white, rest);
    let brace = seq![0x7du8] + rest;
    let comma = seq![0x2cu8] + (more_white + brace);
    assert(white + seq![0x2cu8] + more_white + seq![0x7du8] + rest =~= white + comma);
    lemma_blank_passed(white, comma);
    assert(comma.skip(1) =~= more_white + brace);
    lemma_blank_passed(more_white, brace);
}

/// The bytes before an item: white space, and behind another item a comma and more of it.
pub open spec fn before_item(white: Seq<u8>, more_white: Seq<u8>, first: bool) -> Seq<u8> {
    if first {
        white
    } else {
        white + seq![0x2cu8] + more_white
    }
}

/// An item begins behind the white space, and the comma where one is due.
proof fn lemma_next_item(
    white: Seq<u8>,
    more_white: Seq<u8>,
    item: Seq<u8>,
    first: bool,
    close: u8,
)
    requires
        blank(white),
        blank(more_white),
        item.len() > 0,
        starts(item),
        item[0] != close,
        close != 0x2c,
    ensures
        next_item(before_item(white, more_white, first) + item, first, close) == NextItem::At(item),
{
    if first {
        lemma_blank_passed(white, item);
    } else {
        let comma = seq![0x2cu8] + (more_white + item);
        assert(before_item(white, more_white, first) + item =~= white + comma);
        lemma_blank_passed(white, comma);
        assert(comma.skip(1) =~= more_white + item);
        lemma_blank_passed(more_white, item);
    }
}

/// A member that is none makes the object no claims: a name that is no text in quotation marks, no
/// colon behind it, or a value that its claim does not admit, as a repeated claim admits none.
pub proof fn lemma_member_refused(
    white: Seq<u8>,
    more_white: Seq<u8>,
    item: Seq<u8>,
    first: bool,
    before_colon: Seq<u8>,
    rest: Seq<u8>,
    draft: ClaimsDraftView,
)
    requires
        blank(white),
        blank(more_white),
        blank(before_colon),
        item.len() > 0,
        starts(item),
        item[0] != 0x7d,
        starts(rest),
    ensures
        item[0] != 0x22 || json_text(item) is None ==> claims_of_members(
            before_item(white, more_white, first) + item,
            first,
            draft,
        ) is None,
        json_text(item) matches Some((name, end)) ==> item.skip(end as int) == before_colon + rest
            && (rest.len() == 0 || rest[0] != 0x3a || with_claim(draft, name, rest.skip(1)) is None)
            ==> claims_of_members(before_item(white, more_white, first) + item, first, draft)
            is None,
{
    lemma_next_item(white, more_white, item, first, 0x7d);
    lemma_blank_passed(before_colon, rest);
}

/// The items of an array are read one by one, each into the claim of its place: `jti`, `iat`,
/// `htm`, `htu`, `ath` and `nonce`, of which the last two may be left out.
pub proof fn lemma_item_read(
    white: Seq<u8>,
    more_white: Seq<u8>,
    item: Seq<u8>,
    place: nat,
    draft: ClaimsDraftView,
    more: ClaimsDraftView,
    end: nat,
)
    requires
        blank(white),
        blank(more_white),
        item.len() > 0,
        starts(item),
        item[0] != 0x5d,
        place < 6,
        with_claim(
            draft,
            if place == 0 {
                "jti"@
            } else if place == 1 {
                "iat"@
            } else if place == 2 {
                "htm"@
            } else if place == 3 {
                "htu"@
            } else if place == 4 {
                "ath"@
            } else {
                "nonce"@
            },
            item,
        ) == Some((more, end)),
    ensures
        place == 0 ==> claims_of_items(white + item, place, draft) == claims_of_items(
            item.skip(end as int),
            place + 1,
            more,
        ),
        place > 0 ==> claims_of_items(white + seq![0x2cu8] + more_white + item, place, draft)
            == claims_of_items(item.skip(end as int), place + 1, more),
{
    if place == 0 {
        lemma_blank_passed(white, item);
    } else {
        let comma = seq![0x2cu8] + (more_white + item);
        assert(white + seq![0x2cu8] + more_white + item =~= white + comma);
        lemma_blank_passed(white, comma);
        assert(comma.skip(1) =~= more_white + item);
        lemma_blank_passed(more_white, item);
    }
}

/// An array of claims ends behind the fourth, the fifth or the sixth, and nothing but white space
/// may stand behind it.
pub proof fn lemma_items_end(white: Seq<u8>, rest: Seq<u8>, place: nat, draft: ClaimsDraftView)
    requires
        blank(white),
        place <= 6,
    ensures
        blank(rest) && place >= 4 ==> claims_of_items(white + seq![0x5du8] + rest, place, draft)
            == Some(draft),
        place < 4 || (rest.len() > 0 && starts(rest)) ==> claims_of_items(
            white + seq![0x5du8] + rest,
            place,
            draft,
        ) is None,
{
    let bracket = seq![0x5du8] + rest;
    assert(white + seq![0x5du8] + rest =~= white + bracket);
    lemma_blank_passed(white, bracket);
    assert(bracket.skip(1) =~= rest);
    if blank(rest) {
        lemma_blank_passed(rest, Seq::empty());
        assert(rest + Seq::<u8>::empty() =~= rest);
    }
    if starts(rest) {
        lemma_blank_passed(Seq::empty(), rest);
        assert(Seq::<u8>::empty() + rest =~= rest);
    }
}

/// What is not an array of claims is refused: nothing at all, a missing comma, a comma before the
/// end, and a value that the claim of its place does not admit.
pub proof fn lemma_items_refused(
    white: Seq<u8>,
    more_white: Seq<u8>,
    item: Seq<u8>,
    place: nat,
    draft: ClaimsDraftView,
)
    requires
        blank(white),
        blank(more_white),
        place < 6,
        item.len() > 0,
        starts(item),
    ensures
        claims_of_items(white, place, draft) is None,
        place > 0 && item[0] != 0x2c && item[0] != 0x5d ==> claims_of_items(
            white + item,
            place,
            draft,
        ) is None,
        place > 0 && item[0] == 0x5d ==> claims_of_items(
            white + seq![0x2cu8] + more_white + item,
            place,
            draft,
        ) is None,
        item[0] != 0x5d && with_claim(
            draft,
            if place == 0 {
                "jti"@
            } else if place == 1 {
                "iat"@
            } else if place == 2 {
                "htm"@
            } else if place == 3 {
                "htu"@
            } else if place == 4 {
                "ath"@
            } else {
                "nonce"@
            },
            item,
        ) is None ==> claims_of_items(
            before_item(white, more_white, place == 0) + item,
            place,
            draft,
        ) is None,
{
    lemma_blank_passed(white, Seq::empty());
    assert(white + Seq::<u8>::empty() =~= white);
    lemma_blank_passed(white, item);
    if item[0] != 0x5d {
        lemma_next_item(white, more_white, item, place == 0, 0x5d);
    }
    let comma = seq![0x2cu8] + (more_white + item);
    assert(white + seq![0x2cu8] + more_white + item =~= white + comma);
    lemma_blank_passed(white, comma);
    assert(comma.skip(1) =~= more_white + item);
    lemma_blank_passed(more_white, item);
}

/// A seventh item is one too many.
pub proof fn lemma_items_too_many(
    white: Seq<u8>,
    rest: Seq<u8>,
    draft: ClaimsDraftView,
)
    requires
        blank(white),
    ensures
        claims_of_items(white + seq![0x2cu8] + rest, 6, draft) is None,
{
    let comma = seq![0x2cu8] + rest;
    assert(white + seq![0x2cu8] + rest =~= white + comma);
    lemma_blank_passed(white, comma);
}

/// Claims are an object or an array, with white space around it, in which each of the four that a
/// proof must have is there. One of the other two that is missing, or null, is none.
pub proof fn lemma_claims_read(white: Seq<u8>, rest: Seq<u8>)
    requires
        blank(white),
    ensures
        ({
            let nothing = ClaimsDraftView {
                jti: None,
                iat: None,
                htm: None,
                htu: None,
                ath: None,
                nonce: None,
            };
            &&& match claims_of_members(rest, true, nothing) {
                None => claims_from_json(white + seq![0x7bu8] + rest) is None,
                Some(draft) => claims_from_json(white + seq![0x7bu8] + rest) == complete(draft),
            }
            &&& match claims_of_items(rest, 0, nothing) {
                None => claims_from_json(white + seq![0x5bu8] + rest) is None,
                Some(draft) => claims_from_json(white + seq![0x5bu8] + rest) == complete(draft),
            }
        }),
        claims_from_json(white) is None,
        rest.len() > 0 && starts(rest) && rest[0] != 0x7b && rest[0] != 0x5b ==> claims_from_json(
            white + rest,
        ) is None,
{
    let brace = seq![0x7bu8] + rest;
    let bracket = seq![0x5bu8] + rest;
    assert(white + seq![0x7bu8] + rest =~= white + brace);
    assert(white + seq![0x5bu8] + rest =~= white + bracket);
    lemma_blank_passed(white, brace);
    lemma_blank_passed(white, bracket);
    assert(brace.skip(1) =~= rest);
    assert(bracket.skip(1) =~= rest);
    lemma_blank_passed(white, Seq::empty());
    assert(white + Seq::<u8>::empty() =~= white);
    if starts(rest) {
        lemma_blank_passed(white, rest);
    }
}

/// The claims that have been read are complete exactly when the four are there; each is what was
/// read for it.
pub proof fn lemma_complete(draft: ClaimsDraftView)
    ensures
        complete(draft) is Some <==> draft.jti is Some && draft.iat is Some && draft.htm is Some
            && draft.htu is Some,
        complete(draft) matches Some(claims) ==> {
            &&& claims.jti == draft.jti->0
            &&& claims.iat == draft.iat->0
            &&& claims.htm == draft.htm->0
            &&& claims.htu == draft.htu->0
            &&& draft.ath is Some ==> claims.ath == draft.ath->0
            &&& draft.ath is None ==> claims.ath is None
            &&& draft.nonce is Some ==> claims.nonce == draft.nonce->0
            &&& draft.nonce is None ==> claims.nonce is None
        },
{
}

} // verus!
