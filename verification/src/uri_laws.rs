//! What holds of every method and every URI, said of their characters and parts.

use vstd::prelude::*;

use crate::error::DpopErrorView;
use crate::text::{
    holds, is_white, joined, lemma_joined_split, lemma_split_joined, lemma_split_last,
    lemma_split_nonempty, lemma_split_pieces, lemma_split_plain, lemma_trimmed_around, lower,
    lower_text, split, trimmed, upper, upper_text,
};
use crate::uri::{
    decimal, host_parse, htu_normal_form, is_bare, is_plain_segment, keeps_form_with_tail,
    lemma_query_and_fragment, lemma_resolved_plain, lemma_resolved_segment, method_normal_form,
    normal_parts, port_text, resolved, resolved_path, url_parse, url_text, UrlPartsView,
};

verus! {

// ---------------------------------------------------------------------------
// Paths
// ---------------------------------------------------------------------------

/// What stands behind the first separator does not change what stands before it.
proof fn lemma_resolved_prefix(left: Seq<Seq<char>>, right: Seq<Seq<char>>)
    ensures
        resolved(left + right) == resolved(resolved(left) + right),
    decreases right.len(),
{
    if right.len() == 0 {
        assert(left + right =~= left);
        assert(resolved(left) + right =~= resolved(left));
        lemma_resolved_is_plain(left);
        lemma_resolved_plain(resolved(left));
    } else {
        lemma_resolved_prefix(left, right.drop_last());
        assert((left + right).drop_last() =~= left + right.drop_last());
        assert((resolved(left) + right).drop_last() =~= resolved(left) + right.drop_last());
    }
}

/// What is left of the segments is plain.
proof fn lemma_resolved_is_plain(segments: Seq<Seq<char>>)
    ensures
        forall|i: int|
            0 <= i < resolved(segments).len() ==> is_plain_segment(
                #[trigger] resolved(segments)[i],
            ),
{
    assert forall|i: int| 0 <= i < resolved(segments).len() implies is_plain_segment(
        #[trigger] resolved(segments)[i],
    ) by {
        lemma_resolved_segment(segments, i);
    }
}

/// What is left of the segments of a text holds no separator.
proof fn lemma_resolved_bare(segments: Seq<Seq<char>>)
    requires
        forall|i: int| 0 <= i < segments.len() ==> !holds(#[trigger] segments[i], '/'),
    ensures
        forall|i: int|
            0 <= i < resolved(segments).len() ==> !holds(#[trigger] resolved(segments)[i], '/'),
{
    assert forall|i: int| 0 <= i < resolved(segments).len() implies !holds(
        #[trigger] resolved(segments)[i],
        '/',
    ) by {
        lemma_resolved_segment(segments, i);
        let j = choose|j: int| 0 <= j < segments.len() && segments[j] == resolved(segments)[i];
        assert(!holds(segments[j], '/'));
    }
}

/// The pieces of a text hold no separator.
proof fn lemma_split_bare(text: Seq<char>)
    ensures
        forall|i: int|
            0 <= i < split(text, '/').len() ==> !holds(#[trigger] split(text, '/')[i], '/'),
{
    assert forall|i: int| 0 <= i < split(text, '/').len() implies !holds(
        #[trigger] split(text, '/')[i],
        '/',
    ) by {
        if holds(split(text, '/')[i], '/') {
            let k = choose|k: int|
                0 <= k < split(text, '/')[i].len() && split(text, '/')[i][k] == '/';
            lemma_split_pieces(text, '/', i, k);
        }
    }
}

/// The segments of a path with another behind it.
proof fn lemma_step_segments(path: Seq<char>, segment: Seq<char>)
    requires
        path.len() > 0,
        path[0] == '/',
        !segment.contains('/'),
    ensures
        split((path + seq!['/'] + segment).skip(1), '/') == split(path.skip(1), '/').push(segment),
{
    if holds(segment, '/') {
        let k = choose|k: int| 0 <= k < segment.len() && segment[k] == '/';
        assert(segment.contains(segment[k]));
    }
    lemma_split_last(path.skip(1), segment, '/');
    assert((path + seq!['/'] + segment).skip(1) =~= path.skip(1).push('/') + segment);
}

/// The text of segments is the root exactly where there are none.
proof fn lemma_joined_nothing(kept: Seq<Seq<char>>)
    requires
        forall|i: int| 0 <= i < kept.len() ==> is_plain_segment(#[trigger] kept[i]),
    ensures
        (seq!['/'] + joined(kept, '/') == seq!['/']) <==> kept.len() == 0,
{
    if kept.len() > 0 {
        assert(is_plain_segment(kept.last()));
        reveal_strlit("");
        assert(kept.last().len() > 0) by {
            if kept.last().len() == 0 {
                assert(kept.last() =~= ""@);
            }
        }
        assert(joined(kept, '/').len() > 0);
        assert((seq!['/'] + joined(kept, '/')).len() > 1);
    } else {
        assert(joined(kept, '/') =~= Seq::<char>::empty());
        assert(seq!['/'] + joined(kept, '/') =~= seq!['/']);
    }
}

/// A plain segment behind a path stays behind it: nothing of the path is cut off, and nothing of
/// the segment.
pub proof fn lemma_path_plain_step(path: Seq<char>, segment: Seq<char>)
    requires
        path.len() > 0,
        path[0] == '/',
        segment.len() > 0,
        segment != seq!['.'],
        segment != seq!['.', '.'],
        !segment.contains('/'),
    ensures
        resolved_path(path) == seq!['/'] ==> resolved_path(path + seq!['/'] + segment) == seq!['/']
            + segment,
        resolved_path(path) != seq!['/'] ==> resolved_path(path + seq!['/'] + segment)
            == resolved_path(path) + seq!['/'] + segment,
{
    reveal_strlit("");
    reveal_strlit(".");
    reveal_strlit("..");
    assert("."@ =~= seq!['.']);
    assert(".."@ =~= seq!['.', '.']);
    lemma_step_segments(path, segment);
    let segments = split(path.skip(1), '/');
    let kept = resolved(segments);
    lemma_resolved_is_plain(segments);
    lemma_joined_nothing(kept);
    assert(segments.push(segment).drop_last() =~= segments);
    assert(resolved(segments.push(segment)) == kept.push(segment));
    assert(kept.push(segment).drop_last() =~= kept);
    if kept.len() == 0 {
        assert(kept.push(segment) =~= seq![segment]);
        assert(joined(seq![segment], '/') =~= segment);
    }
    assert(resolved_path(path + seq!['/'] + segment) =~= if kept.len() == 0 {
        seq!['/'] + segment
    } else {
        resolved_path(path) + seq!['/'] + segment
    });
}

/// An empty segment and one that stands for the current directory change nothing.
pub proof fn lemma_path_idle_step(path: Seq<char>)
    requires
        path.len() > 0,
        path[0] == '/',
    ensures
        resolved_path(path + seq!['/']) == resolved_path(path),
        resolved_path(path + seq!['/', '.']) == resolved_path(path),
{
    reveal_strlit("");
    reveal_strlit(".");
    assert("."@ =~= seq!['.']);
    assert(""@ =~= Seq::<char>::empty());
    let segments = split(path.skip(1), '/');
    lemma_step_segments(path, Seq::empty());
    lemma_step_segments(path, seq!['.']);
    assert(path + seq!['/'] + Seq::<char>::empty() =~= path + seq!['/']);
    assert(path + seq!['/'] + seq!['.'] =~= path + seq!['/', '.']);
    assert(segments.push(Seq::empty()).drop_last() =~= segments);
    assert(segments.push(seq!['.']).drop_last() =~= segments);
}

/// A segment that stands for the parent directory takes back the plain one before it, and nothing
/// where there is none.
pub proof fn lemma_path_parent_step(path: Seq<char>, segment: Seq<char>)
    requires
        path.len() > 0,
        path[0] == '/',
        segment.len() > 0,
        segment != seq!['.'],
        segment != seq!['.', '.'],
        !segment.contains('/'),
    ensures
        resolved_path(path + seq!['/'] + segment + seq!['/', '.', '.']) == resolved_path(path),
        resolved_path(path) == seq!['/'] ==> resolved_path(path + seq!['/', '.', '.']) == seq!['/'],
{
    reveal_strlit("");
    reveal_strlit(".");
    reveal_strlit("..");
    assert("."@ =~= seq!['.']);
    assert(".."@ =~= seq!['.', '.']);
    let dots = seq!['.', '.'];
    let longer = path + seq!['/'] + segment;
    let segments = split(path.skip(1), '/');
    lemma_step_segments(path, segment);
    lemma_step_segments(longer, dots);
    lemma_step_segments(path, dots);
    assert(longer + seq!['/'] + dots =~= longer + seq!['/', '.', '.']);
    assert(path + seq!['/'] + dots =~= path + seq!['/', '.', '.']);
    assert(segments.push(segment).drop_last() =~= segments);
    assert(segments.push(segment).push(dots).drop_last() =~= segments.push(segment));
    assert(segments.push(dots).drop_last() =~= segments);
    assert(dots.len() == 2 && ""@.len() == 0 && "."@.len() == 1);
    assert(resolved(segments.push(segment)) == resolved(segments).push(segment));
    assert(resolved(segments).push(segment).drop_last() =~= resolved(segments));
    assert(resolved(segments.push(segment).push(dots)) == resolved(segments));
    lemma_resolved_is_plain(segments);
    lemma_joined_nothing(resolved(segments));
}

/// What a path resolves to is all that counts for what is put behind it.
pub proof fn lemma_path_congruence(path: Seq<char>, rest: Seq<char>)
    requires
        path.len() > 0,
        path[0] == '/',
    ensures
        resolved_path(path + seq!['/'] + rest) == resolved_path(
            resolved_path(path) + seq!['/'] + rest,
        ),
{
    let left = split(path.skip(1), '/');
    let right = split(rest, '/');
    let kept = resolved(left);
    lemma_split_concat(path.skip(1), rest);
    assert((path + seq!['/'] + rest).skip(1) =~= path.skip(1).push('/') + rest);
    lemma_resolved_prefix(left, right);
    let inner = joined(kept, '/');
    assert((resolved_path(path) + seq!['/'] + rest).skip(1) =~= inner.push('/') + rest);
    lemma_split_concat(inner, rest);
    lemma_split_bare(path.skip(1));
    lemma_resolved_bare(left);
    lemma_resolved_prefix(split(inner, '/'), right);
    if kept.len() > 0 {
        lemma_split_joined(kept, '/');
        lemma_resolved_is_plain(left);
        lemma_resolved_plain(kept);
    } else {
        reveal_strlit("");
        assert(""@ =~= Seq::<char>::empty());
        assert(inner =~= Seq::<char>::empty());
        assert(split(inner, '/') =~= seq![Seq::<char>::empty()]);
        let lone = seq![Seq::<char>::empty()];
        assert(lone.drop_last() =~= Seq::<Seq<char>>::empty());
        assert(resolved(lone.drop_last()) =~= Seq::<Seq<char>>::empty());
        assert(resolved(lone) =~= Seq::<Seq<char>>::empty());
        assert(kept =~= Seq::<Seq<char>>::empty());
        lemma_resolved_prefix(kept, right);
    }
}

/// The pieces of two texts with a separator between them.
proof fn lemma_split_concat(left: Seq<char>, right: Seq<char>)
    ensures
        split(left.push('/') + right, '/') == split(left, '/') + split(right, '/'),
    decreases right.len(),
{
    let text = left.push('/') + right;
    if right.len() == 0 {
        assert(text.drop_last() =~= left);
        assert(split(text, '/') =~= split(left, '/') + split(right, '/'));
    } else {
        lemma_split_concat(left, right.drop_last());
        lemma_split_nonempty(right.drop_last(), '/');
        assert(text.drop_last() =~= left.push('/') + right.drop_last());
        assert(split(text, '/') =~= split(left, '/') + split(right, '/'));
    }
}

/// The paths with one segment, or none.
pub proof fn lemma_path_base(segment: Seq<char>)
    requires
        segment.len() > 0,
        segment != seq!['.'],
        segment != seq!['.', '.'],
        !segment.contains('/'),
    ensures
        resolved_path(seq!['/'] + segment) == seq!['/'] + segment,
        resolved_path(seq!['/']) == seq!['/'],
        resolved_path(seq!['/', '.']) == seq!['/'],
        resolved_path(seq!['/', '.', '.']) == seq!['/'],
{
    lemma_plain_path_kept(seq![segment]);
    assert(joined(seq![segment], '/') =~= segment);
    reveal_strlit("");
    reveal_strlit(".");
    reveal_strlit("..");
    assert("."@ =~= seq!['.']);
    assert(".."@ =~= seq!['.', '.']);
    assert(""@ =~= Seq::<char>::empty());
    let nothing = Seq::<char>::empty();
    let none = Seq::<Seq<char>>::empty();
    assert(seq!['/'].skip(1) =~= nothing);
    assert(seq!['/', '.'].skip(1) =~= seq!['.']);
    assert(seq!['/', '.', '.'].skip(1) =~= seq!['.', '.']);
    lemma_split_plain(nothing, '/');
    assert(!holds(seq!['.'], '/'));
    assert(!holds(seq!['.', '.'], '/'));
    lemma_split_plain(seq!['.'], '/');
    lemma_split_plain(seq!['.', '.'], '/');
    assert(seq![nothing].drop_last() =~= none);
    assert(seq![seq!['.']].drop_last() =~= none);
    assert(seq![seq!['.', '.']].drop_last() =~= none);
    assert(resolved(none) =~= none);
    lemma_joined_nothing(none);
}

/// A path of plain segments is its own normal form, however many there are.
pub proof fn lemma_plain_path_kept(segments: Seq<Seq<char>>)
    requires
        segments.len() > 0,
        forall|i: int|
            0 <= i < segments.len() ==> (#[trigger] segments[i]).len() > 0 && segments[i]
                != seq!['.'] && segments[i] != seq!['.', '.'] && !segments[i].contains('/'),
    ensures
        resolved_path(seq!['/'] + joined(segments, '/')) == seq!['/'] + joined(segments, '/'),
{
    reveal_strlit("");
    reveal_strlit(".");
    reveal_strlit("..");
    assert("."@ =~= seq!['.']);
    assert(".."@ =~= seq!['.', '.']);
    assert forall|i: int| 0 <= i < segments.len() implies is_plain_segment(#[trigger] segments[i])
        && !holds(segments[i], '/') by {
        if holds(segments[i], '/') {
            let k = choose|k: int| 0 <= k < segments[i].len() && segments[i][k] == '/';
            assert(segments[i].contains(segments[i][k]));
        }
    }
    lemma_split_joined(segments, '/');
    lemma_resolved_plain(segments);
    assert((seq!['/'] + joined(segments, '/')).skip(1) =~= joined(segments, '/'));
}

/// Segments are joined by putting one separator between each two.
pub proof fn lemma_joined_steps(segments: Seq<Seq<char>>, segment: Seq<char>, separator: char)
    ensures
        joined(Seq::<Seq<char>>::empty(), separator) == Seq::<char>::empty(),
        joined(seq![segment], separator) == segment,
        segments.len() > 0 ==> joined(segments.push(segment), separator) == joined(
            segments,
            separator,
        ) + seq![separator] + segment,
{
    assert(segments.push(segment).drop_last() =~= segments);
    if segments.len() > 0 {
        assert(joined(segments.push(segment), separator) =~= joined(segments, separator)
            + seq![separator] + segment);
    }
}

/// A text is split at each separator and nowhere else: the pieces hold none, and joined they are
/// the text.
pub proof fn lemma_split_exact(text: Seq<char>, separator: char)
    ensures
        split(text, separator).len() > 0,
        forall|i: int|
            0 <= i < split(text, separator).len() ==> !(#[trigger] split(
                text,
                separator,
            )[i]).contains(separator),
        joined(split(text, separator), separator) == text,
{
    lemma_split_nonempty(text, separator);
    lemma_joined_split(text, separator);
    assert forall|i: int| 0 <= i < split(text, separator).len() implies !(#[trigger] split(
        text,
        separator,
    )[i]).contains(separator) by {
        if split(text, separator)[i].contains(separator) {
            let k = choose|k: int|
                0 <= k < split(text, separator)[i].len() && split(text, separator)[i][k]
                    == separator;
            lemma_split_pieces(text, separator, i, k);
        }
    }
}

// ---------------------------------------------------------------------------
// URIs
// ---------------------------------------------------------------------------

/// Whether a text holds no ASCII capital letter.
pub open spec fn no_capitals(text: Seq<char>) -> bool {
    forall|i: int| 0 <= i < text.len() ==> !('A' <= #[trigger] text[i] <= 'Z')
}

/// A text without capitals is in small letters.
proof fn lemma_no_capitals(text: Seq<char>)
    requires
        no_capitals(text),
    ensures
        lower_text(text) == text,
{
    assert(lower_text(text) =~= text);
}

/// The text of a URL is its parts, one behind the other.
pub proof fn lemma_url_text(parts: UrlPartsView, host: Seq<char>)
    requires
        parts.host == Some(host),
    ensures
        parts.port is None ==> url_text(parts) == parts.scheme + seq![':', '/', '/']
            + parts.user_info + host + parts.path,
        parts.port matches Some(port) ==> url_text(parts) == parts.scheme + seq![':', '/', '/']
            + parts.user_info + host + seq![':'] + decimal(port as nat) + parts.path,
{
    reveal_strlit("://");
    assert("://"@ =~= seq![':', '/', '/']);
    match parts.port {
        None => {
            assert(url_text(parts) =~= parts.scheme + seq![':', '/', '/'] + parts.user_info + host
                + parts.path);
        },
        Some(port) => {
            assert(url_text(parts) =~= parts.scheme + seq![':', '/', '/'] + parts.user_info + host
                + seq![':'] + decimal(port as nat) + parts.path);
        },
    }
}

/// What is said of a URI, by what the URL parser reads from it: each error with the inputs that
/// give it, and the result with its parts, one behind the other. Nothing is dropped but a default
/// port and what resolving the path drops.
pub proof fn lemma_htu_decided(uri: Seq<char>)
    requires
        url_parse(uri) matches Ok(parts) ==> no_capitals(parts.scheme) && (parts.host matches Some(
            host,
        ) ==> no_capitals(host)) && parts.path.len() > 0 && parts.path[0] == '/',
    ensures
        url_parse(uri) matches Err(reason) ==> htu_normal_form(uri) == Err::<
            Seq<char>,
            DpopErrorView,
        >(DpopErrorView::MalformedHtu(reason)),
        url_parse(uri) matches Ok(parts) ==> {
            let web = parts.scheme == "http"@ || parts.scheme == "https"@;
            let hosted = parts.host is Some && parts.host->0.len() > 0;
            let port = if (parts.scheme == "http"@ && parts.port == Some(80u16)) || (parts.scheme
                == "https"@ && parts.port == Some(443u16)) {
                None
            } else {
                parts.port
            };
            &&& !web ==> htu_normal_form(uri) == Err::<Seq<char>, DpopErrorView>(
                DpopErrorView::MalformedHtu("scheme"@),
            )
            &&& web && !hosted ==> htu_normal_form(uri) == Err::<Seq<char>, DpopErrorView>(
                DpopErrorView::MalformedHtu("Missing host"@),
            )
            &&& web && hosted ==> match host_parse(parts.host->0) {
                Err(reason) => htu_normal_form(uri) == Err::<Seq<char>, DpopErrorView>(
                    DpopErrorView::MalformedHtu("Failed setting host: "@ + reason),
                ),
                Ok(_) => url_text(parts).len() <= 0xffff_ffff ==> htu_normal_form(uri) == Ok::<
                    Seq<char>,
                    DpopErrorView,
                >(
                    parts.scheme + seq![':', '/', '/'] + parts.user_info + parts.host->0
                        + port_text(port) + resolved_path(parts.path),
                ),
            }
        },
{
    reveal_strlit("://");
    assert("://"@ =~= seq![':', '/', '/']);
    if let Ok(parts) = url_parse(uri) {
        lemma_no_capitals(parts.scheme);
        if parts.host is Some {
            lemma_no_capitals(parts.host->0);
        }
    }
}

/// A port is written as a colon and its decimal digits, and none as nothing.
pub proof fn lemma_port_text(port: u16)
    ensures
        port_text(None) == Seq::<char>::empty(),
        port_text(Some(port)) == seq![':'] + decimal(port as nat),
        port < 10 ==> decimal(port as nat) == seq![(48 + port) as char],
        port >= 10 ==> decimal(port as nat) == decimal((port / 10) as nat).push(
            (48 + port % 10) as char,
        ),
{
    if port < 10 {
        assert(decimal(port as nat) =~= seq![(48 + port) as char]);
    }
}

/// A URI whose path has plain segments only, and no default port, is its own normal form: with two
/// such URIs that differ in nothing but the path, the normal forms differ.
pub proof fn lemma_paths_told_apart(
    left: Seq<char>,
    right: Seq<char>,
    left_segments: Seq<Seq<char>>,
    right_segments: Seq<Seq<char>>,
)
    requires
        url_parse(left) is Ok,
        url_parse(right) is Ok,
        url_parse(left)->Ok_0.scheme == url_parse(right)->Ok_0.scheme,
        url_parse(left)->Ok_0.user_info == url_parse(right)->Ok_0.user_info,
        url_parse(left)->Ok_0.host == url_parse(right)->Ok_0.host,
        url_parse(left)->Ok_0.port == url_parse(right)->Ok_0.port,
        htu_normal_form(left) is Ok,
        htu_normal_form(right) is Ok,
        left_segments.len() > 0,
        right_segments.len() > 0,
        forall|i: int|
            0 <= i < left_segments.len() ==> (#[trigger] left_segments[i]).len() > 0
                && left_segments[i] != seq!['.'] && left_segments[i] != seq!['.', '.']
                && !left_segments[i].contains('/'),
        forall|i: int|
            0 <= i < right_segments.len() ==> (#[trigger] right_segments[i]).len() > 0
                && right_segments[i] != seq!['.'] && right_segments[i] != seq!['.', '.']
                && !right_segments[i].contains('/'),
        url_parse(left)->Ok_0.path == seq!['/'] + joined(left_segments, '/'),
        url_parse(right)->Ok_0.path == seq!['/'] + joined(right_segments, '/'),
    ensures
        htu_normal_form(left) == htu_normal_form(right) <==> url_parse(left)->Ok_0.path
            == url_parse(right)->Ok_0.path,
        url_parse(left)->Ok_0.path == url_parse(right)->Ok_0.path <==> left_segments
            == right_segments,
{
    lemma_plain_path_kept(left_segments);
    lemma_plain_path_kept(right_segments);
    let a = url_parse(left)->Ok_0;
    let b = url_parse(right)->Ok_0;
    let x = normal_parts(a)->Ok_0;
    let y = normal_parts(b)->Ok_0;
    let before = x.scheme + "://"@ + x.user_info + x.host->0 + port_text(x.port);
    assert(url_text(x) =~= before + a.path);
    assert(url_text(y) =~= before + b.path);
    assert(url_text(x).skip(before.len() as int) =~= a.path);
    assert(url_text(y).skip(before.len() as int) =~= b.path);
    lemma_unsplit(left_segments);
    lemma_unsplit(right_segments);
}

/// The segments of a path can be read back.
proof fn lemma_unsplit(segments: Seq<Seq<char>>)
    requires
        segments.len() > 0,
        forall|i: int| 0 <= i < segments.len() ==> !(#[trigger] segments[i]).contains('/'),
    ensures
        split((seq!['/'] + joined(segments, '/')).skip(1), '/') == segments,
{
    assert forall|i: int| 0 <= i < segments.len() implies !holds(#[trigger] segments[i], '/') by {
        if holds(segments[i], '/') {
            let k = choose|k: int| 0 <= k < segments[i].len() && segments[i][k] == '/';
            assert(segments[i].contains(segments[i][k]));
        }
    }
    lemma_split_joined(segments, '/');
    assert((seq!['/'] + joined(segments, '/')).skip(1) =~= joined(segments, '/'));
}

/// Whether a text is read as the parts that another is read as, with the path resolved: what
/// normalizing the other gives is such a text.
pub open spec fn reads_as(text: Seq<char>, uri: Seq<char>) -> bool {
    &&& url_parse(text) is Ok && url_parse(uri) is Ok
    &&& url_parse(text)->Ok_0.scheme == url_parse(uri)->Ok_0.scheme
    &&& url_parse(text)->Ok_0.user_info == url_parse(uri)->Ok_0.user_info
    &&& url_parse(text)->Ok_0.host == url_parse(uri)->Ok_0.host
    &&& url_parse(text)->Ok_0.port == url_parse(uri)->Ok_0.port
    &&& url_parse(text)->Ok_0.path == resolved_path(url_parse(uri)->Ok_0.path)
}

/// Two URIs with the same normal form name the same scheme, user, host, port and resolved path.
pub proof fn lemma_same_form_same_place(left: Seq<char>, right: Seq<char>, form: Seq<char>)
    requires
        reads_as(form, left),
        reads_as(form, right),
    ensures
        url_parse(left)->Ok_0.scheme == url_parse(right)->Ok_0.scheme,
        url_parse(left)->Ok_0.user_info == url_parse(right)->Ok_0.user_info,
        url_parse(left)->Ok_0.host == url_parse(right)->Ok_0.host,
        url_parse(left)->Ok_0.port == url_parse(right)->Ok_0.port,
        resolved_path(url_parse(left)->Ok_0.path) == resolved_path(url_parse(right)->Ok_0.path),
{
}

/// Two URIs that name the same scheme, user, host, port and resolved path have the same normal
/// form.
pub proof fn lemma_same_place_same_form(left: Seq<char>, right: Seq<char>)
    requires
        url_parse(left) is Ok,
        url_parse(right) is Ok,
        url_parse(left)->Ok_0.scheme == url_parse(right)->Ok_0.scheme,
        url_parse(left)->Ok_0.user_info == url_parse(right)->Ok_0.user_info,
        url_parse(left)->Ok_0.host == url_parse(right)->Ok_0.host,
        url_parse(left)->Ok_0.port == url_parse(right)->Ok_0.port,
        url_parse(left)->Ok_0.path.len() > 0 && url_parse(left)->Ok_0.path[0] == '/',
        url_parse(right)->Ok_0.path.len() > 0 && url_parse(right)->Ok_0.path[0] == '/',
        resolved_path(url_parse(left)->Ok_0.path) == resolved_path(url_parse(right)->Ok_0.path),
        url_text(url_parse(left)->Ok_0).len() <= 0xffff_ffff,
        url_text(url_parse(right)->Ok_0).len() <= 0xffff_ffff,
    ensures
        htu_normal_form(left) == htu_normal_form(right),
{
}

/// The parts of a normal URL: the scheme and the host in small letters, the user as it is, no
/// port where it is the one that the scheme implies, and the port as it is elsewhere.
pub proof fn lemma_normal_parts_of(parts: UrlPartsView, host: Seq<char>)
    requires
        parts.host == Some(host),
        host.len() > 0,
        parts.path.len() > 0,
        parts.path[0] == '/',
        lower_text(parts.scheme) == "http"@ || lower_text(parts.scheme) == "https"@,
    ensures
        normal_parts(parts) is Ok,
        normal_parts(parts)->Ok_0.scheme == lower_text(parts.scheme),
        normal_parts(parts)->Ok_0.user_info == parts.user_info,
        normal_parts(parts)->Ok_0.host == Some(lower_text(host)),
        normal_parts(parts)->Ok_0.path == resolved_path(parts.path),
        lower_text(parts.scheme) == "http"@ && parts.port == Some(80u16) ==> normal_parts(
            parts,
        )->Ok_0.port is None,
        lower_text(parts.scheme) == "https"@ && parts.port == Some(443u16) ==> normal_parts(
            parts,
        )->Ok_0.port is None,
        !(lower_text(parts.scheme) == "http"@ && parts.port == Some(80u16)) && !(lower_text(
            parts.scheme,
        ) == "https"@ && parts.port == Some(443u16)) ==> normal_parts(parts)->Ok_0.port
            == parts.port,
{
}

/// An empty path is the root.
pub proof fn lemma_empty_path(parts: UrlPartsView)
    requires
        parts.path.len() == 0,
        normal_parts(parts) is Ok,
    ensures
        normal_parts(parts)->Ok_0.path == seq!['/'],
{
    lemma_path_base(seq!['a']);
}

/// What holds no query and no fragment holds neither of the characters that they begin with.
pub proof fn lemma_bare(text: Seq<char>)
    ensures
        is_bare(text) <==> !text.contains('?') && !text.contains('#'),
{
    assert(holds(text, '?') <==> text.contains('?'));
    assert(holds(text, '#') <==> text.contains('#'));
}

/// A query, or a fragment, behind a URI that holds neither and ends in a printed character leaves
/// the normal form as it is.
pub proof fn lemma_tail_ignored(uri: Seq<char>, normal: Seq<char>, tail: Seq<char>)
    requires
        htu_normal_form(uri) == Ok::<Seq<char>, DpopErrorView>(normal),
        keeps_form_with_tail(uri, normal),
        url_text(url_parse(uri)->Ok_0).len() <= 0xffff_ffff,
        uri.len() > 0,
        uri.last() > ' ',
        !uri.contains('?'),
        !uri.contains('#'),
        (tail.len() > 0 && tail[0] == '?' && !tail.contains('#')) || (tail.len() > 0 && tail[0]
            == '#'),
    ensures
        htu_normal_form(uri + tail) == Ok::<Seq<char>, DpopErrorView>(normal),
{
    lemma_bare(uri);
    assert(holds(tail, '#') <==> tail.contains('#'));
    if tail[0] == '#' {
        let rest = tail.skip(1);
        assert(tail =~= seq!['#'] + rest);
        lemma_query_and_fragment(uri, normal, Seq::empty(), rest);
        assert(uri + seq!['#'] + rest =~= uri + tail);
    }
}

// ---------------------------------------------------------------------------
// Methods
// ---------------------------------------------------------------------------

/// Making letters small or capital changes the case of ASCII letters and nothing else.
pub proof fn lemma_case(text: Seq<char>, i: int)
    requires
        0 <= i < text.len(),
    ensures
        lower_text(text).len() == text.len(),
        upper_text(text).len() == text.len(),
        'A' <= text[i] <= 'Z' ==> lower_text(text)[i] as u32 == text[i] as u32 + 32,
        !('A' <= text[i] <= 'Z') ==> lower_text(text)[i] == text[i],
        'a' <= text[i] <= 'z' ==> upper_text(text)[i] as u32 == text[i] as u32 - 32,
        !('a' <= text[i] <= 'z') ==> upper_text(text)[i] == text[i],
{
    assert(lower_text(text)[i] == lower(text[i]));
    assert(upper_text(text)[i] == upper(text[i]));
}

/// Which characters are white space.
pub proof fn lemma_white(c: char)
    ensures
        is_white(c) <==> c == '\u{9}' || c == '\u{a}' || c == '\u{b}' || c == '\u{c}' || c
            == '\u{d}' || c == '\u{20}' || c == '\u{85}' || c == '\u{a0}' || c == '\u{1680}' || ('\u{2000}'
            <= c <= '\u{200a}') || c == '\u{2028}' || c == '\u{2029}' || c == '\u{202f}' || c
            == '\u{205f}' || c == '\u{3000}',
{
}

/// Whether a method is one of the eight that a proof may be bound to.
pub open spec fn is_one_of_the_eight(method: Seq<char>) -> bool {
    method == "GET"@ || method == "POST"@ || method == "PUT"@ || method == "PATCH"@ || method
        == "DELETE"@ || method == "HEAD"@ || method == "OPTIONS"@ || method == "TRACE"@
}

/// Whether a word is a name in capitals, but for the case of its letters.
pub open spec fn spells(word: Seq<char>, name: Seq<char>) -> bool {
    &&& word.len() == name.len()
    &&& forall|i: int|
        0 <= i < name.len() ==> #[trigger] word[i] == name[i] || word[i] as u32 == name[i] as u32
            + 32
}

/// Whether a text is white space throughout.
pub open spec fn all_white(text: Seq<char>) -> bool {
    forall|i: int| 0 <= i < text.len() ==> is_white(#[trigger] text[i])
}

/// The letters of the names are capitals.
proof fn lemma_eight_capitals(name: Seq<char>)
    requires
        is_one_of_the_eight(name),
    ensures
        name.len() > 0,
        forall|i: int| 0 <= i < name.len() ==> 'A' <= #[trigger] name[i] <= 'Z',
{
    reveal_strlit("GET");
    reveal_strlit("POST");
    reveal_strlit("PUT");
    reveal_strlit("PATCH");
    reveal_strlit("DELETE");
    reveal_strlit("HEAD");
    reveal_strlit("OPTIONS");
    reveal_strlit("TRACE");
}

/// A method in any case, with any white space around it, has the name of it as its normal form.
pub proof fn lemma_method_accepted(
    before: Seq<char>,
    word: Seq<char>,
    after: Seq<char>,
    name: Seq<char>,
)
    requires
        all_white(before),
        all_white(after),
        is_one_of_the_eight(name),
        spells(word, name),
    ensures
        method_normal_form(before + word + after) == Ok::<Seq<char>, DpopErrorView>(name),
{
    lemma_trimmed_around(before, word, after);
    lemma_eight_capitals(name);
    assert('A' <= name[0] <= 'Z' && 'A' <= name[name.len() - 1] <= 'Z');
    assert(word[0] == name[0] || word[0] as u32 == name[0] as u32 + 32);
    let last = word[word.len() - 1];
    assert(last == name[name.len() - 1] || last as u32 == name[name.len() - 1] as u32 + 32);
    assert(trimmed(word) == word);
    assert forall|i: int| 0 <= i < word.len() implies #[trigger] upper_text(word)[i] == name[i] by {
        assert('A' <= name[i] <= 'Z');
        assert(word[i] == name[i] || word[i] as u32 == name[i] as u32 + 32);
        assert(upper_text(word)[i] == upper(word[i]));
    }
    assert(upper_text(word) =~= name);
}

/// What is left when white space is taken off is the text between the white space.
proof fn lemma_trimmed_parts(text: Seq<char>) -> (parts: (Seq<char>, Seq<char>))
    ensures
        all_white(parts.0),
        all_white(parts.1),
        text == parts.0 + trimmed(text) + parts.1,
    decreases text.len(),
{
    let nothing = Seq::<char>::empty();
    if text.len() > 0 && is_white(text.first()) {
        let (before, after) = lemma_trimmed_parts(text.drop_first());
        let longer = seq![text.first()] + before;
        assert forall|i: int| 0 <= i < longer.len() implies is_white(#[trigger] longer[i]) by {
            if i > 0 {
                assert(longer[i] == before[i - 1]);
            }
        }
        assert(text =~= seq![text.first()] + text.drop_first());
        assert(text =~= longer + trimmed(text) + after);
        (longer, after)
    } else if text.len() > 0 && is_white(text.last()) {
        let (before, after) = lemma_trimmed_parts(text.drop_last());
        let longer = after.push(text.last());
        assert forall|i: int| 0 <= i < longer.len() implies is_white(#[trigger] longer[i]) by {
            if i < after.len() {
                assert(longer[i] == after[i]);
            }
        }
        assert(text =~= text.drop_last().push(text.last()));
        assert(text =~= before + trimmed(text) + longer);
        (before, longer)
    } else {
        assert(text =~= nothing + trimmed(text) + nothing);
        (nothing, nothing)
    }
}

/// No other method has a normal form: one that has spells the name, with white space around it.
pub proof fn lemma_method_refused(method: Seq<char>)
    ensures
        method_normal_form(method) matches Ok(name) ==> is_one_of_the_eight(name) && exists|
            before: Seq<char>,
            word: Seq<char>,
            after: Seq<char>,
        |
            #![trigger before + word + after]
            method == before + word + after && all_white(before) && all_white(after) && spells(
                word,
                name,
            ),
        method_normal_form(method) matches Err(error) ==> error == DpopErrorView::InvalidMethod,
{
    let (before, after) = lemma_trimmed_parts(method);
    let word = trimmed(method);
    if let Ok(name) = method_normal_form(method) {
        assert forall|i: int| 0 <= i < name.len() implies #[trigger] word[i] == name[i] || word[i]
            as u32 == name[i] as u32 + 32 by {
            assert(upper_text(word)[i] == upper(word[i]));
            assert(name[i] == upper_text(word)[i]);
        }
        assert(spells(word, name));
        assert(method == before + word + after);
    }
}

} // verus!
