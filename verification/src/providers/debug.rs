//! Text that shows a provider request to a developer, without its secrets.

use vstd::prelude::*;

use crate::headers;
use crate::headers::Headers;
use crate::json;
use crate::json::{Json, JsonView};
use crate::providers::request::{ProviderRequest, RequestView};
use crate::text;
use crate::text::{cut_once, lower_chars};
use crate::types::{Model, ModelView};

verus! {

/// Whether a header carries a secret.
pub open spec fn sensitive_header(name: Seq<char>) -> bool {
    let name = text::lower_text(name);
    ||| name == "authorization"@
    ||| name == "proxy-authorization"@
    ||| name == "x-api-key"@
    ||| name == "api-key"@
    ||| "-api-key"@.is_suffix_of(name)
}

/// One `name=value` pair of a query, with the value of `key` hidden.
pub open spec fn redacted_pair(pair: Seq<char>) -> Seq<char> {
    match text::split_once(pair, '=') {
        Some((key, value)) => if text::lower_text(key) == "key"@ {
            key + "=<redacted>"@
        } else {
            pair
        },
        None => pair,
    }
}

/// A query, with the value of each `key` hidden.
pub open spec fn redacted_query(query: Seq<char>) -> Seq<char> {
    text::join(
        text::split_all(query, '&').map_values(|pair: Seq<char>| redacted_pair(pair)),
        "&"@,
    )
}

/// A URL, with the value of each `key` in its query hidden.
pub open spec fn redacted_url(url: Seq<char>) -> Seq<char> {
    match text::split_once(url, '?') {
        None => url,
        Some((prefix, suffix)) => match text::split_once(suffix, '#') {
            None => prefix + "?"@ + redacted_query(suffix),
            Some((query, fragment)) => prefix + "?"@ + redacted_query(query) + "#"@ + fragment,
        },
    }
}

/// Whether a header carries a secret: the names of the two authorization
/// headers and those that are or end in an API key, in any case.
pub fn is_sensitive_header(name: &str) -> (yes: bool)
    ensures
        yes == sensitive_header(name@),
{
    let name = lower_chars(name);
    text::spells(&name, "authorization") || text::spells(&name, "proxy-authorization")
        || text::spells(&name, "x-api-key") || text::spells(&name, "api-key")
        || text::ends_in(&name, "-api-key")
}

fn redact_pair(pair: &str) -> (out: String)
    ensures
        out@ == redacted_pair(pair@),
{
    match cut_once(pair, '=') {
        None => pair.to_owned(),
        Some((key, _value)) => if text::spells(&lower_chars(key), "key") {
            key.to_owned().concat("=<redacted>")
        } else {
            pair.to_owned()
        },
    }
}

proof fn lemma_redacted_query(query: Seq<char>)
    ensures
        redacted_query(query) == match text::split_once(query, '&') {
            None => redacted_pair(query),
            Some((pair, rest)) => redacted_pair(pair) + "&"@ + redacted_query(rest),
        },
{
    text::lemma_find(query, '&');
    let redact = |pair: Seq<char>| redacted_pair(pair);
    match text::split_once(query, '&') {
        None => {
            assert(text::split_all(query, '&').map_values(redact) =~= seq![
                redacted_pair(query),
            ]);
        },
        Some((pair, rest)) => {
            let tail = text::split_all(rest, '&');
            text::lemma_split_all_nonempty(rest, '&');
            let all = text::split_all(query, '&').map_values(redact);
            assert(all =~= seq![redacted_pair(pair)] + tail.map_values(redact));
            assert(all.drop_first() =~= tail.map_values(redact));
        },
    }
}

fn redact_query(query: &str) -> (out: String)
    ensures
        out@ == redacted_query(query@),
{
    let mut rest = query;
    let mut out = String::new();
    assert(out@ + redacted_query(rest@) =~= redacted_query(query@));
    loop
        invariant
            out@ + redacted_query(rest@) == redacted_query(query@),
        decreases rest@.len(),
    {
        proof {
            lemma_redacted_query(rest@);
            text::lemma_find(rest@, '&');
        }
        match cut_once(rest, '&') {
            None => {
                out.append(redact_pair(rest).as_str());
                return out;
            },
            Some((pair, tail)) => {
                let ghost before = out@;
                out.append(redact_pair(pair).as_str());
                out.append("&");
                assert(out@ + redacted_query(tail@) =~= before + (redacted_pair(pair@) + "&"@
                    + redacted_query(tail@)));
                rest = tail;
            },
        }
    }
}

/// A URL for the log: the value of every query parameter named `key`, in any
/// case, is replaced.
pub fn redact_url(url: &str) -> (out: String)
    ensures
        out@ == redacted_url(url@),
{
    match cut_once(url, '?') {
        None => url.to_owned(),
        Some((prefix, suffix)) => {
            let mut out = prefix.to_owned().concat("?");
            match cut_once(suffix, '#') {
                None => {
                    out.append(redact_query(suffix).as_str());
                },
                Some((query, fragment)) => {
                    out.append(redact_query(query).as_str());
                    out.append("#");
                    out.append(fragment);
                },
            }
            out
        },
    }
}

/// One header, as the log shows it.
pub open spec fn header_line(header: (Seq<char>, Seq<char>)) -> Seq<char> {
    header.0 + ": "@ + if sensitive_header(header.0) {
        "<redacted>"@
    } else {
        header.1
    }
}

/// The headers, one on each line.
pub open spec fn header_lines(headers: Seq<(Seq<char>, Seq<char>)>) -> Seq<char> {
    text::join(
        headers.map_values(|header: (Seq<char>, Seq<char>)| header_line(header)),
        "\n"@,
    )
}

/// The text that shows a request, given the text of its body.
pub open spec fn request_text(
    provider: Seq<char>,
    api: Seq<char>,
    model: Seq<char>,
    method: Seq<char>,
    url: Seq<char>,
    headers: Seq<(Seq<char>, Seq<char>)>,
    body: Seq<char>,
) -> Seq<char> {
    "[pi-ai provider request]\nprovider: "@ + provider + "\napi: "@ + api + "\nmodel: "@ + model
        + "\nmethod: "@ + method + "\nurl: "@ + redacted_url(url) + "\nheaders:\n"@ + header_lines(
        headers,
    ) + "\nbody:\n"@ + body
}

/// The text that `serde_json` gives the body of a request in the log.
pub open spec fn body_text(body: JsonView) -> Seq<char> {
    json::pretty_or_compact(json::pretty_text(body), json::compact_text(body))
}

fn format_headers(headers: &Headers) -> (out: String)
    ensures
        out@ == header_lines(headers@),
{
    let ghost lines = headers@.map_values(
        |header: (Seq<char>, Seq<char>)| header_line(header),
    );
    let n = headers.len();
    let mut out = String::new();
    for i in 0..n
        invariant
            n == headers@.len(),
            lines == headers@.map_values(
                |header: (Seq<char>, Seq<char>)| header_line(header),
            ),
            out@ == text::join(lines.take(i as int), "\n"@),
    {
        let (name, value) = headers.header(i);
        let mut line = name.to_owned().concat(": ");
        if is_sensitive_header(name) {
            line.append("<redacted>");
        } else {
            line.append(value);
        }
        assert(line@ == lines[i as int]);
        proof {
            text::lemma_join_push(lines.take(i as int), line@, "\n"@);
            assert(lines.take(i + 1) =~= lines.take(i as int).push(line@));
        }
        if i > 0 {
            out.append("\n");
            out.append(line.as_str());
        } else {
            out = line;
        }
    }
    assert(lines.take(n as int) =~= lines);
    out
}

/// The text that shows a request, given the text of its body.
pub fn format_request_text(
    provider: &str,
    api: &str,
    model: &str,
    method: &str,
    url: &str,
    headers: &Headers,
    body: &str,
) -> (out: String)
    ensures
        out@ == request_text(provider@, api@, model@, method@, url@, headers@, body@),
{
    let mut out = "[pi-ai provider request]\nprovider: ".to_owned();
    out.append(provider);
    out.append("\napi: ");
    out.append(api);
    out.append("\nmodel: ");
    out.append(model);
    out.append("\nmethod: ");
    out.append(method);
    out.append("\nurl: ");
    out.append(redact_url(url).as_str());
    out.append("\nheaders:\n");
    out.append(format_headers(headers).as_str());
    out.append("\nbody:\n");
    out.append(body);
    out
}

/// The text that shows a request: the values of sensitive headers and of `key`
/// parameters are replaced, the body is shown whole.
pub fn format_provider_request(
    provider: &str,
    api: &str,
    model: &str,
    method: &str,
    url: &str,
    headers: &Headers,
    body: &Json,
) -> (out: String)
    ensures
        out@ == request_text(
            provider@,
            api@,
            model@,
            method@,
            url@,
            headers@,
            body_text(body@),
        ),
{
    format_request_text(provider, api, model, method, url, headers, body.to_pretty().as_str())
}

/// What to log of a request: its text where the setting is `1`, and nothing
/// otherwise.
pub fn log_provider_request(
    setting: Option<&str>,
    provider: &str,
    api: &str,
    model: &str,
    method: &str,
    url: &str,
    headers: &Headers,
    body: &Json,
) -> (line: Option<String>)
    ensures
        line.deep_view() == (if setting.deep_view() == Some("1"@) {
            Some(
                request_text(
                    provider@,
                    api@,
                    model@,
                    method@,
                    url@,
                    headers@,
                    body_text(body@),
                ),
            )
        } else {
            None
        }),
{
    match setting {
        Some(setting) => if text::same(setting, "1") {
            Some(format_provider_request(provider, api, model, method, url, headers, body))
        } else {
            None
        },
        None => None,
    }
}

/// The text that shows a request to a model.
pub open spec fn shown(model: ModelView, request: RequestView) -> Seq<char> {
    request_text(
        model.provider,
        model.api,
        model.id,
        "POST"@,
        request.url,
        request.logged,
        body_text(request.body),
    )
}

/// What to log of a request to a model: its text where the setting is `1`, and
/// nothing otherwise.
pub fn log_request(setting: Option<&str>, model: &Model, request: &ProviderRequest) -> (line: Option<
    String,
>)
    ensures
        line.deep_view() == (if setting.deep_view() == Some("1"@) {
            Some(shown(model.deep_view(), request.deep_view()))
        } else {
            None
        }),
{
    log_provider_request(
        setting,
        model.provider.as_str(),
        model.api.as_str(),
        model.id.as_str(),
        "POST",
        request.url.as_str(),
        &request.logged,
        &request.body,
    )
}

/// Whether a character occurs nowhere in a text.
pub open spec fn lacks(text: Seq<char>, c: char) -> bool {
    forall|i: int| 0 <= i < text.len() ==> text[i] != c
}

proof fn lemma_lacks_add(a: Seq<char>, b: Seq<char>, c: char)
    requires
        lacks(a, c),
        lacks(b, c),
    ensures
        lacks(a + b, c),
{
}

/// What stands before the first separator, and what stands after it.
proof fn lemma_split_once_at(head: Seq<char>, separator: char, tail: Seq<char>)
    requires
        lacks(head, separator),
    ensures
        text::split_once(head + seq![separator] + tail, separator) == Some((head, tail)),
{
    let text = head + seq![separator] + tail;
    text::lemma_find_at(text, separator, head.len() as int);
    assert(text.take(head.len() as int) =~= head);
    assert(text.skip(head.len() as int + 1) =~= tail);
}

/// A text is its two parts with the separator between them.
proof fn lemma_split_once_parts(text: Seq<char>, separator: char)
    ensures
        match text::split_once(text, separator) {
            Some((head, tail)) => text == head + seq![separator] + tail && lacks(head, separator)
                && tail.len() < text.len(),
            None => lacks(text, separator),
        },
{
    text::lemma_find(text, separator);
    match text::split_once(text, separator) {
        Some((head, tail)) => {
            assert(text =~= head + seq![separator] + tail);
        },
        None => {},
    }
}

/// A query of two parts is hidden part by part.
pub proof fn law_query_of_two_parts(first: Seq<char>, second: Seq<char>)
    ensures
        redacted_query(first + "&"@ + second) == redacted_query(first) + "&"@ + redacted_query(
            second,
        ),
    decreases first.len(),
{
    reveal_strlit("&");
    assert("&"@ =~= seq!['&']);
    let whole = first + "&"@ + second;
    lemma_redacted_query(whole);
    lemma_redacted_query(first);
    lemma_split_once_parts(first, '&');
    match text::split_once(first, '&') {
        None => {
            lemma_split_once_at(first, '&', second);
        },
        Some((pair, rest)) => {
            let tail = rest + "&"@ + second;
            lemma_split_once_at(pair, '&', tail);
            assert(pair + seq!['&'] + tail =~= whole);
            law_query_of_two_parts(rest, second);
            assert(redacted_query(whole) =~= redacted_query(first) + "&"@ + redacted_query(second));
        },
    }
}

proof fn lemma_key_name(name: Seq<char>)
    requires
        text::lower_text(name) == "key"@,
    ensures
        lacks(name, '='),
        lacks(name, '&'),
        lacks(name, '#'),
{
    reveal_strlit("key");
    let small = text::lower_text(name);
    assert(small.len() == name.len());
    assert forall|i: int| 0 <= i < name.len() implies name[i] != '=' && name[i] != '&' && name[i]
        != '#' by {
        assert(small[i] == text::lower(name[i]));
        assert(small[i] == "key"@[i]);
    }
}

proof fn lemma_key_pair(name: Seq<char>, value: Seq<char>)
    requires
        text::lower_text(name) == "key"@,
    ensures
        redacted_pair(name + "="@ + value) == name + "=<redacted>"@,
{
    reveal_strlit("=");
    assert("="@ =~= seq!['=']);
    lemma_key_name(name);
    lemma_split_once_at(name, '=', value);
}

/// The value of a parameter named `key`, in any case, is not shown.
pub proof fn law_key_value_is_hidden(name: Seq<char>, value: Seq<char>)
    requires
        text::lower_text(name) == "key"@,
        lacks(value, '&'),
    ensures
        redacted_query(name + "="@ + value) == name + "=<redacted>"@,
{
    reveal_strlit("=");
    lemma_key_name(name);
    let pair = name + "="@ + value;
    lemma_lacks_add(name, "="@, '&');
    lemma_lacks_add(name + "="@, value, '&');
    lemma_redacted_query(pair);
    lemma_split_once_parts(pair, '&');
    match text::split_once(pair, '&') {
        Some((head, tail)) => {
            assert(pair[head.len() as int] == '&');
        },
        None => {},
    }
    lemma_key_pair(name, value);
}

/// Of a URL only the query is changed: what stands before its first question
/// mark stays, and so does the fragment.
pub proof fn law_only_the_query_changes(
    prefix: Seq<char>,
    query: Seq<char>,
    fragment: Seq<char>,
)
    requires
        lacks(prefix, '?'),
        lacks(query, '#'),
    ensures
        redacted_url(prefix) == prefix,
        redacted_url(prefix + "?"@ + query) == prefix + "?"@ + redacted_query(query),
        redacted_url(prefix + "?"@ + query + "#"@ + fragment) == prefix + "?"@ + redacted_query(
            query,
        ) + "#"@ + fragment,
{
    reveal_strlit("?");
    reveal_strlit("#");
    assert("?"@ =~= seq!['?']);
    assert("#"@ =~= seq!['#']);
    text::lemma_find_none(prefix, '?');
    text::lemma_find_none(query, '#');
    lemma_split_once_at(prefix, '?', query);
    let suffix = query + "#"@ + fragment;
    lemma_split_once_at(prefix, '?', suffix);
    assert(prefix + seq!['?'] + suffix =~= prefix + "?"@ + query + "#"@ + fragment);
    lemma_split_once_at(query, '#', fragment);
}

proof fn lemma_pair_twice(pair: Seq<char>)
    ensures
        redacted_pair(redacted_pair(pair)) == redacted_pair(pair),
{
    lemma_split_once_parts(pair, '=');
    match text::split_once(pair, '=') {
        Some((key, value)) => if text::lower_text(key) == "key"@ {
            reveal_strlit("=");
            reveal_strlit("<redacted>");
            reveal_strlit("=<redacted>");
            assert("=<redacted>"@ =~= "="@ + "<redacted>"@);
            assert(key + "="@ + "<redacted>"@ =~= key + "=<redacted>"@);
            lemma_key_pair(key, "<redacted>"@);
        },
        None => {},
    }
}

proof fn lemma_pair_lacks(pair: Seq<char>, c: char)
    requires
        lacks(pair, c),
        c == '&' || c == '#',
    ensures
        lacks(redacted_pair(pair), c),
{
    reveal_strlit("=<redacted>");
    lemma_split_once_parts(pair, '=');
    match text::split_once(pair, '=') {
        Some((key, value)) => {
            assert forall|i: int| 0 <= i < key.len() implies key[i] != c by {
                assert(pair[i] == key[i]);
            }
            lemma_lacks_add(key, "=<redacted>"@, c);
        },
        None => {},
    }
}

proof fn lemma_query_lacks(query: Seq<char>)
    requires
        lacks(query, '#'),
    ensures
        lacks(redacted_query(query), '#'),
    decreases query.len(),
{
    reveal_strlit("&");
    lemma_redacted_query(query);
    lemma_split_once_parts(query, '&');
    match text::split_once(query, '&') {
        None => {
            lemma_pair_lacks(query, '#');
        },
        Some((pair, rest)) => {
            assert forall|i: int| 0 <= i < pair.len() implies pair[i] != '#' by {
                assert(query[i] == pair[i]);
            }
            assert forall|i: int| 0 <= i < rest.len() implies rest[i] != '#' by {
                assert(query[pair.len() as int + 1 + i] == rest[i]);
            }
            lemma_pair_lacks(pair, '#');
            lemma_query_lacks(rest);
            lemma_lacks_add(redacted_pair(pair), "&"@, '#');
            lemma_lacks_add(redacted_pair(pair) + "&"@, redacted_query(rest), '#');
        },
    }
}

proof fn lemma_query_twice(query: Seq<char>)
    ensures
        redacted_query(redacted_query(query)) == redacted_query(query),
    decreases query.len(),
{
    lemma_redacted_query(query);
    lemma_split_once_parts(query, '&');
    match text::split_once(query, '&') {
        None => {
            lemma_pair_lacks(query, '&');
            lemma_pair_twice(query);
            text::lemma_find_none(redacted_pair(query), '&');
            lemma_redacted_query(redacted_pair(query));
        },
        Some((pair, rest)) => {
            lemma_query_twice(rest);
            lemma_pair_lacks(pair, '&');
            lemma_pair_twice(pair);
            law_query_of_two_parts(redacted_pair(pair), redacted_query(rest));
            text::lemma_find_none(redacted_pair(pair), '&');
            lemma_redacted_query(redacted_pair(pair));
        },
    }
}

/// Hiding what is hidden already changes nothing.
pub proof fn law_redaction_is_idempotent(url: Seq<char>)
    ensures
        redacted_url(redacted_url(url)) == redacted_url(url),
{
    lemma_split_once_parts(url, '?');
    match text::split_once(url, '?') {
        None => {},
        Some((prefix, suffix)) => {
            lemma_split_once_parts(suffix, '#');
            let (query, fragment) = match text::split_once(suffix, '#') {
                None => (suffix, Seq::empty()),
                Some((query, fragment)) => (query, fragment),
            };
            lemma_query_lacks(query);
            lemma_query_twice(query);
            law_only_the_query_changes(prefix, redacted_query(query), fragment);
        },
    }
}

/// Whether two lists of headers differ at most in the values of headers that
/// carry a secret.
pub open spec fn alike(
    one: Seq<(Seq<char>, Seq<char>)>,
    other: Seq<(Seq<char>, Seq<char>)>,
) -> bool {
    &&& one.len() == other.len()
    &&& forall|i: int|
        0 <= i < one.len() ==> (#[trigger] one[i]).0 == other[i].0 && (sensitive_header(one[i].0)
            || one[i].1 == other[i].1)
}

/// What is shown of a request tells nothing of the values of its sensitive
/// headers, nor of what is hidden of its URL.
pub proof fn law_secrets_are_not_shown(model: ModelView, one: RequestView, other: RequestView)
    requires
        redacted_url(one.url) == redacted_url(other.url),
        alike(one.logged, other.logged),
        one.body == other.body,
    ensures
        shown(model, one) == shown(model, other),
{
    let line = |header: (Seq<char>, Seq<char>)| header_line(header);
    assert(one.logged.map_values(line) =~= other.logged.map_values(line));
}

/// Setting one header keeps two lists alike.
pub proof fn lemma_alike_with_header(
    one: Seq<(Seq<char>, Seq<char>)>,
    other: Seq<(Seq<char>, Seq<char>)>,
    name: Seq<char>,
    value: Seq<char>,
    other_value: Seq<char>,
)
    requires
        alike(one, other),
        sensitive_header(name) || value == other_value,
    ensures
        alike(
            headers::with_header(one, name, value),
            headers::with_header(other, name, other_value),
        ),
    decreases one.len(),
{
    if one.len() > 0 {
        assert(one[0].0 == other[0].0);
        assert(alike(one.drop_first(), other.drop_first())) by {
            assert forall|i: int| 0 <= i < one.len() - 1 implies (
            #[trigger] one.drop_first()[i]).0 == other.drop_first()[i].0 && (sensitive_header(
                one.drop_first()[i].0,
            ) || one.drop_first()[i].1 == other.drop_first()[i].1) by {
                assert(one[i + 1].0 == other[i + 1].0);
            }
        }
        lemma_alike_with_header(
            one.drop_first(),
            other.drop_first(),
            name,
            value,
            other_value,
        );
        let a = headers::with_header(one, name, value);
        let b = headers::with_header(other, name, other_value);
        let at = headers::with_header(one.drop_first(), name, value);
        let bt = headers::with_header(other.drop_first(), name, other_value);
        assert(a.len() == b.len());
        assert forall|i: int| 0 <= i < a.len() implies (#[trigger] a[i]).0 == b[i].0 && (
        sensitive_header(a[i].0) || a[i].1 == b[i].1) by {
            if name == one[0].0 {
                if i > 0 {
                    assert(a[i] == one[i] && b[i] == other[i]);
                }
            } else if headers::precedes(name, one[0].0) {
                if i > 0 {
                    assert(a[i] == one[i - 1] && b[i] == other[i - 1]);
                }
            } else {
                if i > 0 {
                    assert(a[i] == at[i - 1] && b[i] == bt[i - 1]);
                } else {
                    assert(a[0] == one[0] && b[0] == other[0]);
                }
            }
        }
    }
}

/// Setting headers that are alike keeps two lists alike.
pub proof fn lemma_alike_with_headers(
    one: Seq<(Seq<char>, Seq<char>)>,
    other: Seq<(Seq<char>, Seq<char>)>,
    more: Seq<(Seq<char>, Seq<char>)>,
    other_more: Seq<(Seq<char>, Seq<char>)>,
)
    requires
        alike(one, other),
        alike(more, other_more),
    ensures
        alike(headers::with_headers(one, more), headers::with_headers(other, other_more)),
    decreases more.len(),
{
    if more.len() > 0 {
        assert(alike(more.drop_last(), other_more.drop_last())) by {
            assert forall|i: int| 0 <= i < more.len() - 1 implies (
            #[trigger] more.drop_last()[i]).0 == other_more.drop_last()[i].0 && (sensitive_header(
                more.drop_last()[i].0,
            ) || more.drop_last()[i].1 == other_more.drop_last()[i].1) by {
                assert(more[i].0 == other_more[i].0);
            }
        }
        lemma_alike_with_headers(one, other, more.drop_last(), other_more.drop_last());
        assert(more.last() == more[more.len() - 1]);
        lemma_alike_with_header(
            headers::with_headers(one, more.drop_last()),
            headers::with_headers(other, other_more.drop_last()),
            more.last().0,
            more.last().1,
            other_more.last().1,
        );
    }
}

/// A parameter that is not named `key` is shown as it is, and so is one without
/// a value.
pub proof fn law_other_parameters_are_shown(name: Seq<char>, value: Seq<char>)
    requires
        lacks(name, '='),
        lacks(name, '&'),
        lacks(value, '&'),
    ensures
        redacted_query(name) == name,
        text::lower_text(name) != "key"@ ==> redacted_query(name + "="@ + value) == name + "="@
            + value,
{
    reveal_strlit("=");
    assert("="@ =~= seq!['=']);
    let pair = name + "="@ + value;
    lemma_lacks_add(name, "="@, '&');
    lemma_lacks_add(name + "="@, value, '&');
    text::lemma_find_none(pair, '&');
    text::lemma_find_none(name, '&');
    text::lemma_find_none(name, '=');
    lemma_redacted_query(pair);
    lemma_redacted_query(name);
    lemma_split_once_at(name, '=', value);
}

/// The headers that carry a secret are the two of authorization and those whose
/// name is or ends in that of an API key, whatever the case of its letters, and
/// no others.
pub proof fn law_sensitive_headers(name: Seq<char>, start: Seq<char>)
    ensures
        text::lower_text(name) == "authorization"@ ==> sensitive_header(name),
        text::lower_text(name) == "proxy-authorization"@ ==> sensitive_header(name),
        text::lower_text(name) == "x-api-key"@ ==> sensitive_header(name),
        text::lower_text(name) == "api-key"@ ==> sensitive_header(name),
        text::lower_text(name) == start + "-api-key"@ ==> sensitive_header(name),
        sensitive_header(name) ==> {
            let small = text::lower_text(name);
            ||| small == "authorization"@
            ||| small == "proxy-authorization"@
            ||| small == "api-key"@
            ||| small.len() >= 8 && small.skip(small.len() - 8) == "-api-key"@
        },
{
    let small = text::lower_text(name);
    reveal_strlit("-api-key");
    reveal_strlit("x-api-key");
    assert("-api-key"@.len() == 8);
    if small == start + "-api-key"@ {
        assert(small.subrange(small.len() - 8, small.len() as int) =~= "-api-key"@);
    }
    if "-api-key"@.is_suffix_of(small) {
        assert(small.skip(small.len() - 8) =~= "-api-key"@);
    }
    if small == "x-api-key"@ {
        assert(small.skip(small.len() - 8) =~= "-api-key"@);
    }
}

/// The headers are shown line by line, each with its name and its value, the
/// value replaced where it is a secret.
pub proof fn law_headers_are_shown_line_by_line(
    first: Seq<(Seq<char>, Seq<char>)>,
    header: (Seq<char>, Seq<char>),
)
    ensures
        header_lines(Seq::empty()) == Seq::<char>::empty(),
        ({
            let line = header.0 + ": "@ + if sensitive_header(header.0) {
                "<redacted>"@
            } else {
                header.1
            };
            &&& first.len() == 0 ==> header_lines(first.push(header)) == line
            &&& first.len() > 0 ==> header_lines(first.push(header)) == header_lines(first) + "\n"@
                + line
        }),
{
    let show = |header: (Seq<char>, Seq<char>)| header_line(header);
    assert(Seq::<(Seq<char>, Seq<char>)>::empty().map_values(show) =~= Seq::empty());
    assert(first.push(header).map_values(show) =~= first.map_values(show).push(
        header_line(header),
    ));
    text::lemma_join_push(first.map_values(show), header_line(header), "\n"@);
}

/// What is shown of a request names the provider, the API and the model, the
/// method, the URL without its key, the headers without their secrets, and the
/// whole body: indented, or on one line where it cannot be.
pub proof fn law_request_is_shown_whole(model: ModelView, request: RequestView)
    ensures
        ({
            let body = match json::pretty_text(request.body) {
                Some(text) => text,
                None => json::compact_text(request.body),
            };
            let head = "[pi-ai provider request]\nprovider: "@ + model.provider + "\napi: "@
                + model.api + "\nmodel: "@ + model.id + "\nmethod: POST\nurl: "@;
            shown(model, request) == head + redacted_url(request.url) + "\nheaders:\n"@
                + header_lines(request.logged) + "\nbody:\n"@ + body
        }),
{
    reveal_strlit("\nmethod: ");
    reveal_strlit("POST");
    reveal_strlit("\nurl: ");
    reveal_strlit("\nmethod: POST\nurl: ");
    let start = "[pi-ai provider request]\nprovider: "@ + model.provider + "\napi: "@ + model.api
        + "\nmodel: "@ + model.id;
    assert("\nmethod: "@ + "POST"@ + "\nurl: "@ =~= "\nmethod: POST\nurl: "@);
    assert(start + "\nmethod: "@ + "POST"@ + "\nurl: "@ =~= start + ("\nmethod: "@ + "POST"@
        + "\nurl: "@));
}

} // verus!
