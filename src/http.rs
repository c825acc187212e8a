use vstd::prelude::*;
use crate::text::{
    before, crlf, ends_with_crlf, ends_with_crlf_str, escape, is_crlf, push_escaped, split_once,
    split_once_char, split_once_no_error, str_eq, trim, trim_str,
};

verus! {

/// The request methods the parser knows, and `Unset` for a method not (yet) recognized.
#[derive(PartialEq, Eq, Structural, Debug, Clone, Copy)]
pub enum HttpMethod {
    Unset,
    Get,
    Post,
    Put,
    Delete,
}

/// What a header line told the parser: more headers follow, or the header
/// section ended.
#[derive(PartialEq, Eq, Structural, Debug, Clone, Copy)]
pub enum HttpParserHeaderStatus {
    Continue,
    Ended,
}

/// Why a header line was not accepted; each carries the raw line.
#[derive(Debug)]
pub enum HttpParseError<'a> {
    /// A colon with nothing before it.
    HeaderMalformed(&'a str),
    /// The line does not end with CR LF.
    HeaderIncomplete(&'a str),
    /// The line holds no colon.
    HeaderNoKeyValuePair(&'a str),
    /// The key is not one of the recognized names; not fatal.
    HeaderKeyUnknown(&'a str),
}

/// Why a request line was not accepted.
#[derive(PartialEq, Eq, Structural, Debug, Clone, Copy)]
pub enum RequestLineError {
    /// A space separator is missing.
    Malformed,
    /// The method token is not a supported method.
    MethodNotFound,
}

/// The method a token names.
pub open spec fn method_of(token: Seq<char>) -> HttpMethod {
    if token == "GET"@ {
        HttpMethod::Get
    } else if token == "POST"@ {
        HttpMethod::Post
    } else if token == "PUT"@ {
        HttpMethod::Put
    } else if token == "DELETE"@ {
        HttpMethod::Delete
    } else {
        HttpMethod::Unset
    }
}

/// The token that names a supported method.
pub open spec fn method_token(m: HttpMethod) -> Seq<char> {
    match m {
        HttpMethod::Get => "GET"@,
        HttpMethod::Post => "POST"@,
        HttpMethod::Put => "PUT"@,
        HttpMethod::Delete => "DELETE"@,
        HttpMethod::Unset => Seq::empty(),
    }
}

/// The label of each kind of header error in its diagnostic.
pub open spec fn error_label(e: HttpParseError) -> Seq<char> {
    match e {
        HttpParseError::HeaderMalformed(_) => "ttpMalformedHeader: "@,
        HttpParseError::HeaderIncomplete(_) => "HttpHeaderIncomplete: "@,
        HttpParseError::HeaderNoKeyValuePair(_) => "HttpHeaderNoKeyValuePair: "@,
        HttpParseError::HeaderKeyUnknown(_) => "HttpHeaderKeyUnknown: "@,
    }
}

/// Whether the diagnostic of this kind of header error quotes the line.
pub open spec fn error_quoted(e: HttpParseError) -> bool {
    e is HeaderNoKeyValuePair || e is HeaderKeyUnknown
}

/// The diagnostic of a header error: its label, then the line up to its
/// first CR LF with every character escaped, in quotes for some kinds.
pub open spec fn error_message(e: HttpParseError) -> Seq<char> {
    let body = escape(before(e.line()@, crlf()));
    if error_quoted(e) {
        error_label(e) + seq!['"'] + body + seq!['"']
    } else {
        error_label(e) + body
    }
}


impl<'a> HttpParseError<'a> {
    /// The raw line the error is about.
    pub open spec fn line(self) -> &'a str {
        match self {
            HttpParseError::HeaderMalformed(l) => l,
            HttpParseError::HeaderIncomplete(l) => l,
            HttpParseError::HeaderNoKeyValuePair(l) => l,
            HttpParseError::HeaderKeyUnknown(l) => l,
        }
    }

    /// Whether the error ends the parse of the request; only an unknown key
    /// does not.
    pub fn is_fatal(&self) -> (r: bool)
        ensures
            r == !(*self is HeaderKeyUnknown),
    {
        !matches!(self, HttpParseError::HeaderKeyUnknown(_))
    }

    /// The raw line the error is about.
    pub fn raw_line(&self) -> (r: &'a str)
        ensures
            r == self.line(),
    {
        match self {
            HttpParseError::HeaderMalformed(l) => l,
            HttpParseError::HeaderIncomplete(l) => l,
            HttpParseError::HeaderNoKeyValuePair(l) => l,
            HttpParseError::HeaderKeyUnknown(l) => l,
        }
    }

    /// The diagnostic text of the error, safe to log: the line is cut at its
    /// first CR LF and its non-printable characters are escaped.
    pub fn message(&self) -> (r: String)
        ensures
            r@ == error_message(*self),
    {
        let mut out = String::new();
        let label = match self {
            HttpParseError::HeaderMalformed(_) => "ttpMalformedHeader: ",
            HttpParseError::HeaderIncomplete(_) => "HttpHeaderIncomplete: ",
            HttpParseError::HeaderNoKeyValuePair(_) => "HttpHeaderNoKeyValuePair: ",
            HttpParseError::HeaderKeyUnknown(_) => "HttpHeaderKeyUnknown: ",
        };
        out.append(label);
        let quoted = matches!(self, HttpParseError::HeaderNoKeyValuePair(_) | HttpParseError::HeaderKeyUnknown(_));
        if quoted {
            out.append("\"");
        }
        let line = self.raw_line();
        let head = split_once_no_error(line, "\r\n");
        proof {
            reveal_strlit("\r\n");
            assert("\r\n"@ =~= crlf());
        }
        push_escaped(&mut out, head);
        if quoted {
            out.append("\"");
        }
        proof {
            reveal_strlit("\"");
            assert("\""@ =~= seq!['"']);
        }
        out
    }
}

impl RequestLineError {
    /// The diagnostic text of the error.
    pub fn message(&self) -> (r: String)
        ensures
            r@ == (match *self {
                RequestLineError::Malformed => "malformed request line"@,
                RequestLineError::MethodNotFound => "HttpMethod not found"@,
            }),
    {
        match self {
            RequestLineError::Malformed => String::from_str("malformed request line"),
            RequestLineError::MethodNotFound => String::from_str("HttpMethod not found"),
        }
    }
}

/// An HTTP response under construction: the header lines pushed so far.
pub struct HttpResponse {
    pub response: String,
}

/// `line` as it is pushed: with CR LF added where it does not end so.
pub open spec fn terminated(line: Seq<char>) -> Seq<char> {
    if ends_with_crlf(line) {
        line
    } else {
        line + crlf()
    }
}

/// The status line of a successful response.
pub open spec fn status_ok() -> Seq<char> {
    "HTTP/1.1 200 OK"@
}

/// The status line of a response to a path that is not served.
pub open spec fn status_not_found() -> Seq<char> {
    "HTTP/1.1 404 Not Found"@
}

/// The buffer after `header_ok`, whatever it held before.
pub open spec fn after_header_ok(buffer: Seq<char>) -> Seq<char> {
    status_ok() + crlf()
}

impl HttpResponse {
    /// An empty response.
    pub fn new() -> (r: Self)
        ensures
            r.response@ == Seq::<char>::empty(),
    {
        HttpResponse { response: String::new() }
    }

    /// Appends `header`, adding CR LF where it does not already end so.
    pub fn push_header(&mut self, header: &str)
        ensures
            final(self).response@ == old(self).response@ + terminated(header@),
    {
        if !ends_with_crlf_str(header) {
            let mut current_header = String::from_str(header);
            current_header.append("\r\n");
            proof {
                reveal_strlit("\r\n");
                assert("\r\n"@ =~= crlf());
            }
            self.response.append(current_header.as_str());
        } else {
            self.response.append(header);
        }
    }

    /// Replaces everything pushed so far by the status line of success.
    pub fn header_ok(&mut self)
        ensures
            final(self).response@ == after_header_ok(old(self).response@),
    {
        self.response = String::new();
        self.push_header("HTTP/1.1 200 OK");
        proof {
            reveal_strlit("HTTP/1.1 200 OK");
        }
        assert(self.response@ =~= status_ok() + crlf());
    }
}

/// The response to a parsed request: success for the path `/`, not found
/// for any other path, each with the blank line that ends the header section.
pub open spec fn response_for(path: Seq<char>) -> Seq<char> {
    if path == "/"@ {
        status_ok() + crlf() + crlf()
    } else {
        status_not_found() + crlf() + crlf()
    }
}

/// Builds the response to a parsed request.
pub fn respond(request: &HttpRequest) -> (r: HttpResponse)
    ensures
        r.response@ == response_for(request.path@),
{
    let mut http_response = HttpResponse::new();
    if str_eq(request.path.as_str(), "/") {
        http_response.header_ok();
    } else {
        http_response.push_header("HTTP/1.1 404 Not Found");
        proof {
            reveal_strlit("HTTP/1.1 404 Not Found");
        }
    }
    http_response.push_header("\r\n");
    proof {
        reveal_strlit("\r\n");
        assert("\r\n"@ =~= crlf());
    }
    http_response
}

/// A request as the parser fills it.
#[derive(Debug)]
pub struct HttpRequest {
    pub method: HttpMethod,
    pub path: String,
    pub ver: String,
    pub host: String,
    pub user_agent: String,
    pub accepts: String,
}

/// The content of a request.
pub struct RequestView {
    pub method: HttpMethod,
    pub path: Seq<char>,
    pub ver: Seq<char>,
    pub host: Seq<char>,
    pub user_agent: Seq<char>,
    pub accepts: Seq<char>,
}

impl View for HttpRequest {
    type V = RequestView;

    open spec fn view(&self) -> RequestView {
        RequestView {
            method: self.method,
            path: self.path@,
            ver: self.ver@,
            host: self.host@,
            user_agent: self.user_agent@,
            accepts: self.accepts@,
        }
    }
}

/// The outcome of parsing a request line: the method, target and version,
/// or why it was refused.
pub open spec fn request_line_result(line: Seq<char>) -> Result<
    (HttpMethod, Seq<char>, Seq<char>),
    RequestLineError,
> {
    match split_once(line, ' ') {
        None => Err(RequestLineError::Malformed),
        Some((token, rest)) => {
            if method_of(token) == HttpMethod::Unset {
                Err(RequestLineError::MethodNotFound)
            } else {
                match split_once(rest, ' ') {
                    None => Err(RequestLineError::Malformed),
                    Some((path, ver)) => Ok((method_of(token), path, ver)),
                }
            }
        },
    }
}

/// The request after parsing `line` as its request line: the method is set
/// once a first space is found, the target and version once a second one is.
pub open spec fn request_line_update(req: RequestView, line: Seq<char>) -> RequestView {
    match split_once(line, ' ') {
        None => req,
        Some((token, rest)) => {
            let with_method = RequestView { method: method_of(token), ..req };
            if method_of(token) == HttpMethod::Unset {
                with_method
            } else {
                match split_once(rest, ' ') {
                    None => with_method,
                    Some((path, ver)) => RequestView { path, ver, ..with_method },
                }
            }
        },
    }
}

/// The outcome of parsing a header line.
pub open spec fn header_result<'a>(line: &'a str) -> Result<
    HttpParserHeaderStatus,
    HttpParseError<'a>,
> {
    if line@ == crlf() {
        Ok(HttpParserHeaderStatus::Ended)
    } else if !ends_with_crlf(line@) {
        Err(HttpParseError::HeaderIncomplete(line))
    } else {
        match split_once(line@, ':') {
            None => Err(HttpParseError::HeaderNoKeyValuePair(line)),
            Some((key, _)) => {
                if key == "Host"@ || key == "User-Agent"@ || key == "Accept"@ {
                    Ok(HttpParserHeaderStatus::Continue)
                } else if key.len() == 0 {
                    Err(HttpParseError::HeaderMalformed(line))
                } else {
                    Err(HttpParseError::HeaderKeyUnknown(line))
                }
            },
        }
    }
}

/// The request after parsing a header line: a recognized header stores its
/// value without surrounding white space; any other line changes nothing.
pub open spec fn header_update(req: RequestView, line: Seq<char>) -> RequestView {
    if line != crlf() && ends_with_crlf(line) && split_once(line, ':') is Some {
        let (key, value) = split_once(line, ':')->0;
        if key == "Host"@ {
            RequestView { host: trim(value), ..req }
        } else if key == "User-Agent"@ {
            RequestView { user_agent: trim(value), ..req }
        } else if key == "Accept"@ {
            RequestView { accepts: trim(value), ..req }
        } else {
            req
        }
    } else {
        req
    }
}

impl HttpRequest {
    /// The content of a new request.
    pub open spec fn new_view() -> RequestView {
        RequestView {
            method: HttpMethod::Unset,
            path: Seq::empty(),
            ver: Seq::empty(),
            host: Seq::empty(),
            user_agent: Seq::empty(),
            accepts: Seq::empty(),
        }
    }

    /// An empty request, with no method set.
    pub fn new() -> (r: Self)
        ensures
            r@ == HttpRequest::new_view(),
    {
        HttpRequest {
            method: HttpMethod::Unset,
            path: String::new(),
            ver: String::new(),
            host: String::new(),
            user_agent: String::new(),
            accepts: String::new(),
        }
    }

    /// Parses a request line `METHOD SP TARGET SP VERSION`: the method must be
    /// one of GET, POST, PUT, DELETE; target and version are kept verbatim.
    pub fn parse_request_line(&mut self, request: &str) -> (r: Result<(), RequestLineError>)
        ensures
            final(self)@ == request_line_update(old(self)@, request@),
            match request_line_result(request@) {
                Ok(_) => r is Ok,
                Err(e) => r == Err::<(), RequestLineError>(e),
            },
    {
        let (method, rest) = match split_once_char(request, ' ') {
            Some(parts) => parts,
            None => return Err(RequestLineError::Malformed),
        };
        self.method = if str_eq(method, "GET") {
            HttpMethod::Get
        } else if str_eq(method, "POST") {
            HttpMethod::Post
        } else if str_eq(method, "PUT") {
            HttpMethod::Put
        } else if str_eq(method, "DELETE") {
            HttpMethod::Delete
        } else {
            HttpMethod::Unset
        };
        if self.method == HttpMethod::Unset {
            return Err(RequestLineError::MethodNotFound);
        }
        let (path, version) = match split_once_char(rest, ' ') {
            Some(parts) => parts,
            None => return Err(RequestLineError::Malformed),
        };
        self.path = String::from_str(path);
        self.ver = String::from_str(version);
        Ok(())
    }

    /// Parses one header line, CR LF included: the blank line ends the
    /// header section; `Host`, `User-Agent` and `Accept` store their value
    /// without surrounding white space.
    pub fn parse_header<'a>(&mut self, request: &'a str) -> (r: Result<
        HttpParserHeaderStatus,
        HttpParseError<'a>,
    >)
        ensures
            r == header_result(request),
            final(self)@ == header_update(old(self)@, request@),
    {
        if is_crlf(request) {
            return Ok(HttpParserHeaderStatus::Ended);
        }
        if !ends_with_crlf_str(request) {
            return Err(HttpParseError::HeaderIncomplete(request));
        }
        let (key, value) = match split_once_char(request, ':') {
            Some(parts) => parts,
            None => return Err(HttpParseError::HeaderNoKeyValuePair(request)),
        };
        if str_eq(key, "Host") {
            self.host = String::from_str(trim_str(value));
        } else if str_eq(key, "User-Agent") {
            self.user_agent = String::from_str(trim_str(value));
        } else if str_eq(key, "Accept") {
            self.accepts = String::from_str(trim_str(value));
        } else if key.unicode_len() == 0 {
            return Err(HttpParseError::HeaderMalformed(request));
        } else {
            return Err(HttpParseError::HeaderKeyUnknown(request));
        }
        Ok(HttpParserHeaderStatus::Continue)
    }
}

/// What the reader asks for after a line.
#[derive(Debug)]
pub enum ReadStep<'a> {
    /// Hand over the next line.
    ReadLine,
    /// The header section ended: the request is complete.
    Complete,
    /// The request line was refused; the request is abandoned.
    BadRequestLine(RequestLineError),
    /// A header line was refused fatally; the request is abandoned.
    BadHeader(HttpParseError<'a>),
}

/// What the reader answers to `line`, before the request line has been
/// accepted or after it.
pub open spec fn read_step<'a>(in_headers: bool, line: &'a str) -> ReadStep<'a> {
    if !in_headers {
        match request_line_result(line@) {
            Ok(_) => ReadStep::ReadLine,
            Err(e) => ReadStep::BadRequestLine(e),
        }
    } else {
        match header_result(line) {
            Ok(HttpParserHeaderStatus::Ended) => ReadStep::Complete,
            Ok(HttpParserHeaderStatus::Continue) => ReadStep::ReadLine,
            Err(HttpParseError::HeaderKeyUnknown(_)) => ReadStep::ReadLine,
            Err(e) => ReadStep::BadHeader(e),
        }
    }
}

/// Where handing `lines` to `feed` one by one leads, from a reader in state
/// `in_headers` holding `req`: the state and request after the last line
/// taken, and the step on which reading stopped, or `None` where every line
/// asked for the next one.
pub open spec fn read_lines<'a>(in_headers: bool, req: RequestView, lines: Seq<&'a str>) -> (
    bool,
    RequestView,
    Option<ReadStep<'a>>,
)
    decreases lines.len(),
{
    if lines.len() == 0 {
        (in_headers, req, None)
    } else {
        let line = lines[0];
        let step = read_step(in_headers, line);
        let next_req = if in_headers {
            header_update(req, line@)
        } else {
            request_line_update(req, line@)
        };
        let next_in = in_headers || request_line_result(line@) is Ok;
        if step is ReadLine {
            read_lines(next_in, next_req, lines.drop_first())
        } else {
            (next_in, next_req, Some(step))
        }
    }
}

/// The decisions of reading one request, line by line: the first line is
/// the request line, every later one a header line, until the blank line.
/// The caller reads each line from the connection, CR LF included, and
/// hands it to `feed`.
pub struct HttpReader {
    pub request: HttpRequest,
    pub in_headers: bool,
}

impl HttpReader {
    /// A reader that waits for the request line.
    pub fn new() -> (r: Self)
        ensures
            !r.in_headers,
            r.request@ == HttpRequest::new_view(),
    {
        HttpReader { request: HttpRequest::new(), in_headers: false }
    }

    /// Takes the next line of the request and says what comes next.
    pub fn feed<'a>(&mut self, line: &'a str) -> (r: ReadStep<'a>)
        ensures
            r == read_step(old(self).in_headers, line),
            final(self).in_headers == (old(self).in_headers || request_line_result(line@) is Ok),
            final(self).request@ == (if old(self).in_headers {
                header_update(old(self).request@, line@)
            } else {
                request_line_update(old(self).request@, line@)
            }),
    {
        if !self.in_headers {
            match self.request.parse_request_line(line) {
                Ok(()) => {
                    self.in_headers = true;
                    ReadStep::ReadLine
                },
                Err(e) => ReadStep::BadRequestLine(e),
            }
        } else {
            match self.request.parse_header(line) {
                Ok(HttpParserHeaderStatus::Ended) => ReadStep::Complete,
                Ok(HttpParserHeaderStatus::Continue) => ReadStep::ReadLine,
                Err(e) => {
                    if e.is_fatal() {
                        ReadStep::BadHeader(e)
                    } else {
                        ReadStep::ReadLine
                    }
                },
            }
        }
    }
}

} // verus!
