use vstd::prelude::*;
use crate::http::{
    after_header_ok, header_result, read_lines, request_line_update, header_update, method_of, method_token, read_step,
    request_line_result, HttpMethod, HttpParseError, HttpParserHeaderStatus, ReadStep,
    RequestLineError, RequestView,
};
use crate::text::{
    crlf, ends_with_crlf, first_at, lemma_first_exists, lemma_split_once_at,
    lemma_split_once_concat, lemma_trim_crlf, lemma_trim_end, lemma_trim_start, split_once, trim, white_space,
};

verus! {

/// A supported method, a space, a target without spaces, a space and a
/// version: the request line is accepted, with that method, that target and
/// that version, verbatim.
pub proof fn lemma_supported_request_line(m: HttpMethod, path: Seq<char>, ver: Seq<char>)
    requires
        m != HttpMethod::Unset,
        !path.contains(' '),
    ensures
        request_line_result(method_token(m) + seq![' '] + path + seq![' '] + ver) == Ok::<
            (HttpMethod, Seq<char>, Seq<char>),
            RequestLineError,
        >((m, path, ver)),
{
    reveal_strlit("GET");
    reveal_strlit("POST");
    reveal_strlit("PUT");
    reveal_strlit("DELETE");
    assert("GET"@[0] != "PUT"@[0]);
    assert("GET"@.len() != "POST"@.len() && "GET"@.len() != "DELETE"@.len());
    assert("POST"@.len() != "PUT"@.len() && "POST"@.len() != "DELETE"@.len());
    assert("PUT"@.len() != "DELETE"@.len());
    let token = method_token(m);
    assert(!token.contains(' '));
    assert(method_of(token) == m);
    let line = token + seq![' '] + path + seq![' '] + ver;
    assert(line == token + seq![' '] + (path + seq![' '] + ver));
    lemma_split_once_concat(token, ' ', path + seq![' '] + ver);
    lemma_split_once_concat(path, ' ', ver);
}

/// A first token that is not GET, POST, PUT or DELETE, whatever follows it:
/// the request line is refused for its method.
pub proof fn lemma_unsupported_method(token: Seq<char>, rest: Seq<char>)
    requires
        !token.contains(' '),
        token != "GET"@,
        token != "POST"@,
        token != "PUT"@,
        token != "DELETE"@,
    ensures
        request_line_result(token + seq![' '] + rest) == Err::<
            (HttpMethod, Seq<char>, Seq<char>),
            RequestLineError,
        >(RequestLineError::MethodNotFound),
{
    lemma_split_once_concat(token, ' ', rest);
}

/// A request line with fewer than two spaces is refused.
pub proof fn lemma_missing_separator(line: Seq<char>)
    requires
        forall|i: int, j: int| 0 <= i < j < line.len() && line[i] == ' ' ==> line[j] != ' ',
    ensures
        request_line_result(line) is Err,
{
    if line.contains(' ') {
        lemma_first_exists(line, ' ');
        let i = choose|i: int| first_at(line, ' ', i);
        lemma_split_once_at(line, ' ', i);
        let rest = line.skip(i + 1);
        assert forall|k: int| 0 <= k < rest.len() implies rest[k] != ' ' by {
            assert(rest[k] == line[i + 1 + k]);
        }
        assert(!rest.contains(' '));
    }
}

/// The blank line ends the header section whatever came before it: the
/// reader reports the request complete and the request is left as it was.
pub proof fn lemma_blank_line_ends(req: RequestView, line: &str)
    requires
        line@ == crlf(),
    ensures
        header_result(line) == Ok::<HttpParserHeaderStatus, HttpParseError>(
            HttpParserHeaderStatus::Ended,
        ),
        read_step(true, line) == ReadStep::Complete,
        header_update(req, line@) == req,
{
}

/// A header line that does not end with CR LF is incomplete.
pub proof fn lemma_unterminated_header(line: &str)
    requires
        !ends_with_crlf(line@),
    ensures
        header_result(line) == Err::<HttpParserHeaderStatus, HttpParseError>(
            HttpParseError::HeaderIncomplete(line),
        ),
{
    assert(ends_with_crlf(crlf()));
}

/// A terminated header line other than the blank line, with no colon, has
/// no key-value pair.
pub proof fn lemma_header_without_colon(line: &str)
    requires
        line@ != crlf(),
        ends_with_crlf(line@),
        !line@.contains(':'),
    ensures
        header_result(line) == Err::<HttpParserHeaderStatus, HttpParseError>(
            HttpParseError::HeaderNoKeyValuePair(line),
        ),
{
}

/// A terminated header line that starts with a colon has an empty key and
/// is malformed.
pub proof fn lemma_header_empty_key(line: &str)
    requires
        ends_with_crlf(line@),
        line@[0] == ':',
    ensures
        header_result(line) == Err::<HttpParserHeaderStatus, HttpParseError>(
            HttpParseError::HeaderMalformed(line),
        ),
{
    reveal_strlit("Host");
    reveal_strlit("User-Agent");
    reveal_strlit("Accept");
    assert(line@ != crlf());
    assert(first_at(line@, ':', 0));
    lemma_split_once_at(line@, ':', 0);
    assert(line@.take(0).len() == 0);
}

/// A terminated header line whose key is not recognized is reported as an
/// unknown key; the reader asks for the next line and the request is left
/// as it was.
pub proof fn lemma_unknown_header(req: RequestView, line: &str, key: Seq<char>, value: Seq<char>)
    requires
        line@ == key + seq![':'] + value,
        ends_with_crlf(line@),
        !key.contains(':'),
        key.len() > 0,
        key != "Host"@,
        key != "User-Agent"@,
        key != "Accept"@,
    ensures
        header_result(line) == Err::<HttpParserHeaderStatus, HttpParseError>(
            HttpParseError::HeaderKeyUnknown(line),
        ),
        read_step(true, line) == ReadStep::ReadLine,
        header_update(req, line@) == req,
{
    lemma_split_once_concat(key, ':', value);
    assert(line@[key.len() as int] == ':');
    assert(line@ != crlf());
}

/// A recognized header line `key: value` followed by CR LF stores the value
/// with its surrounding white space removed and changes nothing else; further
/// colons in the value are kept. What is stored runs from the value's first
/// character that is not white space to its last one.
pub proof fn lemma_recognized_header(req: RequestView, line: &str, key: Seq<char>, value: Seq<char>)
    requires
        line@ == key + seq![':'] + value + crlf(),
        key == "Host"@ || key == "User-Agent"@ || key == "Accept"@,
    ensures
        header_result(line) == Ok::<HttpParserHeaderStatus, HttpParseError>(
            HttpParserHeaderStatus::Continue,
        ),
        key == "Host"@ ==> header_update(req, line@) == (RequestView { host: trim(value), ..req }),
        key == "User-Agent"@ ==> header_update(req, line@) == (RequestView {
            user_agent: trim(value),
            ..req
        }),
        key == "Accept"@ ==> header_update(req, line@) == (RequestView {
            accepts: trim(value),
            ..req
        }),
        exists|a: int, b: int|
            0 <= a <= b <= value.len() && trim(value) == value.subrange(a, b) && (forall|i: int|
                0 <= i < a ==> white_space(value[i])) && (forall|i: int|
                b <= i < value.len() ==> white_space(value[i])) && (a < b ==> !white_space(
                value[a]) && !white_space(value[b - 1])),
{
    reveal_strlit("Host");
    reveal_strlit("User-Agent");
    reveal_strlit("Accept");
    assert(!key.contains(':'));
    let rest = value + crlf();
    assert(line@ == key + seq![':'] + rest);
    lemma_split_once_concat(key, ':', rest);
    lemma_trim_crlf(value);
    let n = line@.len() as int;
    assert(line@[n - 2] == rest[rest.len() - 2]);
    assert(line@[n - 1] == rest[rest.len() - 1]);
    assert(ends_with_crlf(line@));
    assert(line@[key.len() as int] == ':');
    assert(line@ != crlf());
    let a = lemma_trim_start(value);
    let t = value.skip(a);
    let e = lemma_trim_end(t);
    let b = a + e;
    assert(trim(value) =~= value.subrange(a, b));
    assert forall|i: int| b <= i < value.len() implies white_space(value[i]) by {
        assert(value[i] == t[i - a]);
    }
    if a < b {
        assert(value[b - 1] == t[e - 1]);
    }
}

/// Calling `header_ok` twice leaves what calling it once leaves.
pub proof fn lemma_header_ok_idempotent(buffer: Seq<char>)
    ensures
        after_header_ok(after_header_ok(buffer)) == after_header_ok(buffer),
{
}

/// Once reading has stopped, the lines after that change nothing.
pub proof fn lemma_read_stops(in_headers: bool, req: RequestView, a: Seq<&str>, b: Seq<&str>)
    requires
        read_lines(in_headers, req, a).2 is Some,
    ensures
        read_lines(in_headers, req, a + b) == read_lines(in_headers, req, a),
    decreases a.len(),
{
    assert((a + b)[0] == a[0]);
    assert((a + b).drop_first() =~= a.drop_first() + b);
    let line = a[0];
    if read_step(in_headers, line) is ReadLine {
        let next_req = if in_headers {
            header_update(req, line@)
        } else {
            request_line_update(req, line@)
        };
        let next_in = in_headers || request_line_result(line@) is Ok;
        lemma_read_stops(next_in, next_req, a.drop_first(), b);
    }
}

/// Reading `a` and then one more line: where `a` did not stop, the state
/// after `a` takes that line.
proof fn lemma_read_one_more(in_headers: bool, req: RequestView, a: Seq<&str>, x: &str)
    requires
        read_lines(in_headers, req, a).2 is None,
    ensures
        ({
            let (h, r, _) = read_lines(in_headers, req, a);
            read_lines(in_headers, req, a.push(x)) == read_lines(h, r, seq![x])
        }),
    decreases a.len(),
{
    if a.len() == 0 {
        assert(a.push(x) =~= seq![x]);
    } else {
        assert(a.push(x)[0] == a[0]);
        assert(a.push(x).drop_first() =~= a.drop_first().push(x));
        let line = a[0];
        let next_req = if in_headers {
            header_update(req, line@)
        } else {
            request_line_update(req, line@)
        };
        let next_in = in_headers || request_line_result(line@) is Ok;
        lemma_read_one_more(next_in, next_req, a.drop_first(), x);
    }
}

/// Reading stops at the blank line at the latest, so whatever follows it
/// is never parsed: `a`, the blank line and `t` lead where `a` and the blank
/// line lead. Where the request line has been accepted, the blank line
/// completes the request and leaves it as it was.
pub proof fn lemma_nothing_after_blank_line(
    in_headers: bool,
    req: RequestView,
    a: Seq<&str>,
    blank: &str,
    t: Seq<&str>,
)
    requires
        blank@ == crlf(),
    ensures
        read_lines(in_headers, req, a.push(blank) + t) == read_lines(in_headers, req, a.push(blank)),
        read_lines(in_headers, req, a).2 is None && read_lines(in_headers, req, a).0 ==> read_lines(
            in_headers,
            req,
            a.push(blank),
        ) == (true, read_lines(in_headers, req, a).1, Some(ReadStep::Complete)),
{
    if read_lines(in_headers, req, a).2 is Some {
        lemma_read_stops(in_headers, req, a, seq![blank]);
        assert(a + seq![blank] =~= a.push(blank));
        lemma_read_stops(in_headers, req, a, seq![blank] + t);
        assert(a + (seq![blank] + t) =~= a.push(blank) + t);
    } else {
        lemma_read_one_more(in_headers, req, a, blank);
        let (h, r, _) = read_lines(in_headers, req, a);
        assert(!blank@.contains(' ')) by {
            assert forall|i: int| 0 <= i < blank@.len() implies blank@[i] != ' ' by {}
        }
        lemma_missing_separator(blank@);
        assert(seq![blank][0] == blank);
        assert(read_step(h, blank) !is ReadLine);
        assert(read_lines(h, r, seq![blank]).2 is Some);
        lemma_read_stops(in_headers, req, a.push(blank), t);
    }
}

} // verus!
