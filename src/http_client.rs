//! The transport's logic: the two request texts it sends and the reading of
//! the replies. Only the shapes this protocol needs are handled: no TLS,
//! no redirects, no chunked transfer, no header folding. The body runs to
//! the end of the reply; no `Content-Length` is checked against it.
use vstd::prelude::*;
use crate::text::{
    chars_of, find, find_exec, lemma_find_from, occurs_at, push_chars, push_padded,
    string_of, trim, trim_bounds, decimal, padded,
};

verus! {

#[verifier::external_type_specification]
#[verifier::external_body]
pub struct ExIoError(std::io::Error);

/// What a failed exchange with the control endpoint reports.
#[derive(Debug)]
pub enum HttpError {
    /// The connection could not be made, or reading or writing failed.
    Io(std::io::Error),
    /// The reply was not one this protocol accepts; the text says why.
    InvalidResponse(String),
}

impl From<std::io::Error> for HttpError {
    fn from(err: std::io::Error) -> (r: HttpError) {
        HttpError::Io(err)
    }
}

impl vstd::std_specs::convert::FromSpecImpl<std::io::Error> for HttpError {
    open spec fn obeys_from_spec() -> bool {
        true
    }

    open spec fn from_spec(v: std::io::Error) -> HttpError {
        HttpError::Io(v)
    }
}

/// `e` is an `InvalidResponse` whose text is `m`.
pub open spec fn is_invalid(e: HttpError, m: Seq<char>) -> bool {
    e matches HttpError::InvalidResponse(s) && s@ == m
}

/// `d` describes `e`: an I/O failure by its own display text after
/// `HTTP I/O error: `, a refused reply by its reason.
pub open spec fn describes(e: HttpError, d: Seq<char>) -> bool {
    match e {
        HttpError::Io(x) => exists|c: String|
            vstd::string::to_string_from_display_ensures::<std::io::Error>(&x, c) && d
                == "HTTP I/O error: "@ + c@,
        HttpError::InvalidResponse(m) => d == "Invalid HTTP response: "@ + m@,
    }
}

impl HttpError {
    /// A readable description of the error.
    pub fn to_string(&self) -> (r: String)
        ensures
            describes(*self, r@),
    {
        match self {
            HttpError::Io(e) => {
                let mut s = String::from_str("HTTP I/O error: ");
                let cause = e.to_string();
                s.append(cause.as_str());
                s
            },
            HttpError::InvalidResponse(m) => {
                let mut s = String::from_str("Invalid HTTP response: ");
                s.append(m.as_str());
                s
            },
        }
    }
}

/// The identifier header's name, lowercased, with its colon.
pub open spec fn id_header() -> Seq<char> {
    "lambda-runtime-aws-request-id:"@
}

/// `c` is a decimal digit.
pub open spec fn is_digit(c: char) -> bool {
    '0' <= c && c <= '9'
}

/// `line` reports a 2xx status: the token after its first space is three
/// digits, the first of them `2`.
pub open spec fn reports_success(line: Seq<char>) -> bool {
    match find(line, seq![' ']) {
        Some(p) => p + 4 <= line.len() && line[p + 1] == '2' && is_digit(line[p + 2]) && is_digit(
            line[p + 3],
        ) && (p + 4 == line.len() || line[p + 4] == ' '),
        None => false,
    }
}

/// A line break.
pub open spec fn crlf() -> Seq<char> {
    seq!['\r', '\n']
}

/// The empty line that ends the header block.
pub open spec fn blank_line() -> Seq<char> {
    seq!['\r', '\n', '\r', '\n']
}

/// `c` with an ASCII capital replaced by its small letter, as a code point.
pub open spec fn folded(c: char) -> u32 {
    if 'A' <= c && c <= 'Z' {
        (c as u32 + 32) as u32
    } else {
        c as u32
    }
}

/// `line` begins with `name` when ASCII case is ignored.
pub open spec fn starts_with_folded(line: Seq<char>, name: Seq<char>) -> bool {
    name.len() <= line.len() && forall|k: int| 0 <= k < name.len() ==> folded(line[k]) == folded(name[k])
}

/// `line` is the identifier header.
pub open spec fn is_id_line(line: Seq<char>) -> bool {
    starts_with_folded(line, id_header())
}

/// The value of an identifier header line: what follows the colon, trimmed.
pub open spec fn id_value(line: Seq<char>) -> Seq<char> {
    trim(line.subrange(id_header().len() as int, line.len() as int))
}

/// Scans the header block `sec` line by line for the identifier header; the
/// current line began at `start` and `i` is the scan position.
pub open spec fn scan_id(sec: Seq<char>, start: int, i: int) -> Option<Seq<char>>
    decreases sec.len() - i,
{
    if 0 <= i < sec.len() && sec[i] != '\n' {
        scan_id(sec, start, i + 1)
    } else if is_id_line(sec.subrange(start, i)) {
        Some(id_value(sec.subrange(start, i)))
    } else if 0 <= i < sec.len() {
        scan_id(sec, i + 1, i + 1)
    } else {
        None
    }
}

/// The identifier a header block carries: the value of its first identifier
/// header line, or `unknown` when there is none or that value is blank.
pub open spec fn identifier(sec: Seq<char>) -> Seq<char> {
    match scan_id(sec, 0, 0) {
        Some(v) => if v.len() > 0 {
            v
        } else {
            "unknown"@
        },
        None => "unknown"@,
    }
}

/// The first line of `t`, without its line break.
pub open spec fn status_line(t: Seq<char>) -> Seq<char> {
    match find(t, seq!['\n']) {
        Some(e) => if e > 0 && t[e - 1] == '\r' {
            t.subrange(0, e - 1)
        } else {
            t.subrange(0, e)
        },
        None => t,
    }
}

/// The status line reports success.
pub open spec fn status_ok(t: Seq<char>) -> bool {
    reports_success(status_line(t))
}

/// The header lines of `t` whose header block ends where the empty line starts, at `b`.
pub open spec fn header_block(t: Seq<char>, b: int) -> Seq<char> {
    match find(t, crlf()) {
        Some(f) => if f + 2 <= b {
            t.subrange(f + 2, b)
        } else {
            Seq::empty()
        },
        None => Seq::empty(),
    }
}

/// The reading of a reply text into `(identifier, body)`, or the error text.
pub open spec fn reply_with_headers(t: Seq<char>) -> Result<(Seq<char>, Seq<char>), Seq<char>> {
    if t.len() == 0 {
        Err("Empty response"@)
    } else if !status_ok(t) {
        Err("Non-2xx status: "@ + status_line(t))
    } else {
        match find(t, blank_line()) {
            Some(b) => Ok((identifier(header_block(t, b)), t.subrange(b + 4, t.len() as int))),
            None => Err("No body separator found"@),
        }
    }
}

/// The reading of a reply text into its body, or the error text.
pub open spec fn reply_body(t: Seq<char>) -> Result<Seq<char>, Seq<char>> {
    if t.len() == 0 {
        Err("Empty response"@)
    } else if !status_ok(t) {
        Err("Non-2xx status: "@ + status_line(t))
    } else {
        match find(t, blank_line()) {
            Some(b) => Ok(t.subrange(b + 4, t.len() as int)),
            None => Err("No body separator found"@),
        }
    }
}

/// The reading of the reply to a POST: `Ok` when its status line reports
/// success, else the error text, which quotes that line.
pub open spec fn post_reply(t: Seq<char>) -> Result<(), Seq<char>> {
    if status_ok(t) {
        Ok(())
    } else if t.len() == 0 {
        Err("POST request failed: unknown"@)
    } else {
        Err("POST request failed: "@ + status_line(t))
    }
}

/// `sec[s..e]` is one line of `sec`: it begins the text or follows a line
/// break, and runs up to the next line break or the end.
pub open spec fn is_line(sec: Seq<char>, s: int, e: int) -> bool {
    &&& 0 <= s <= e <= sec.len()
    &&& s == 0 || sec[s - 1] == '\n'
    &&& e == sec.len() || sec[e] == '\n'
    &&& forall|j: int| s <= j < e ==> sec[j] != '\n'
}

/// What the header scan finds is the value of an identifier line at or after
/// `start`, and it finds nothing only when there is no such line.
proof fn lemma_scan_id(sec: Seq<char>, start: int, i: int)
    requires
        0 <= start <= i <= sec.len(),
        start == 0 || sec[start - 1] == '\n',
        forall|j: int| start <= j < i ==> sec[j] != '\n',
    ensures
        scan_id(sec, start, i) matches Some(v) ==> exists|s: int, e: int|
            #[trigger] is_line(sec, s, e) && start <= s && is_id_line(sec.subrange(s, e)) && v
                == id_value(sec.subrange(s, e)),
        scan_id(sec, start, i) is None ==> forall|s: int, e: int| #[trigger]
            is_line(sec, s, e) && start <= s ==> !is_id_line(sec.subrange(s, e)),
    decreases sec.len() - i,
{
    if i < sec.len() && sec[i] != '\n' {
        lemma_scan_id(sec, start, i + 1);
    } else if is_id_line(sec.subrange(start, i)) {
        assert(is_line(sec, start, i));
    } else {
        if i < sec.len() {
            lemma_scan_id(sec, i + 1, i + 1);
        }
        assert forall|s: int, e: int| #[trigger]
            is_line(sec, s, e) && start <= s && s <= i implies s == start && e == i by {
            if s > start {
                assert(sec[s - 1] != '\n');
            }
            if e > i {
                assert(sec[i] == '\n');
            }
            if e < i {
                assert(sec[e] == '\n');
            }
        }
    }
}

/// A successful reply whose header block holds an identifier line reads as
/// the trimmed value of such a line (`unknown` when that value is blank) and
/// everything after the first empty line.
pub proof fn identifier_is_header_value(t: Seq<char>, b: int)
    requires
        t.len() > 0,
        status_ok(t),
        find(t, blank_line()) == Some(b),
        exists|s: int, e: int| #[trigger]
            is_line(header_block(t, b), s, e) && is_id_line(header_block(t, b).subrange(s, e)),
    ensures
        reply_with_headers(t) matches Ok(v) && v.1 == t.subrange(b + 4, t.len() as int)
            && exists|s: int, e: int| #[trigger]
            is_line(header_block(t, b), s, e) && is_id_line(header_block(t, b).subrange(s, e))
                && (id_value(header_block(t, b).subrange(s, e)).len() > 0 ==> v.0 == id_value(
                header_block(t, b).subrange(s, e),
            )) && (id_value(header_block(t, b).subrange(s, e)).len() == 0 ==> v.0 == "unknown"@),
{
    lemma_scan_id(header_block(t, b), 0, 0);
    lemma_find_from(t, blank_line(), 0);
}

/// A successful reply whose header block holds no identifier line reads as
/// the identifier `unknown`.
pub proof fn missing_header_reads_unknown(t: Seq<char>, b: int)
    requires
        t.len() > 0,
        status_ok(t),
        find(t, blank_line()) == Some(b),
        forall|s: int, e: int| #[trigger]
            is_line(header_block(t, b), s, e) ==> !is_id_line(header_block(t, b).subrange(s, e)),
    ensures
        reply_with_headers(t) matches Ok(v) && v.0 == "unknown"@,
{
    lemma_scan_id(header_block(t, b), 0, 0);
}

/// The identifier read from a reply is never empty.
pub proof fn identifier_is_never_empty(t: Seq<char>)
    ensures
        reply_with_headers(t) matches Ok(v) ==> v.0.len() > 0,
{
    reveal_strlit("unknown");
}

/// A reply whose status line reports no success is refused with an error
/// that quotes the status line, by the GET readings and by the POST reading.
pub proof fn failed_status_is_reported(t: Seq<char>)
    requires
        t.len() > 0,
        !status_ok(t),
    ensures
        reply_with_headers(t) == Err::<(Seq<char>, Seq<char>), _>(
            "Non-2xx status: "@ + status_line(t),
        ),
        reply_body(t) == Err::<Seq<char>, _>("Non-2xx status: "@ + status_line(t)),
        post_reply(t) == Err::<(), _>("POST request failed: "@ + status_line(t)),
{
}

/// Whether a line is the identifier header, and the value it carries, do not
/// depend on the ASCII case of the header name.
pub proof fn header_name_case_is_ignored(l1: Seq<char>, l2: Seq<char>)
    requires
        l1.len() == l2.len(),
        forall|k: int| 0 <= k < l1.len() && k < id_header().len() ==> folded(l1[k]) == folded(l2[k]),
        forall|k: int| id_header().len() <= k < l1.len() ==> l1[k] == l2[k],
    ensures
        is_id_line(l1) == is_id_line(l2),
        is_id_line(l1) ==> id_value(l1) == id_value(l2),
{
    if is_id_line(l1) {
        assert(l1.subrange(id_header().len() as int, l1.len() as int) =~= l2.subrange(
            id_header().len() as int,
            l2.len() as int,
        ));
    }
}

/// Reading the same bytes twice gives the same outcome.
pub proof fn reading_is_repeatable(d1: Seq<u8>, d2: Seq<u8>)
    requires
        d1 == d2,
    ensures
        reply_with_headers(lossy_text(d1)) == reply_with_headers(lossy_text(d2)),
        reply_body(lossy_text(d1)) == reply_body(lossy_text(d2)),
        post_reply(lossy_text(d1)) == post_reply(lossy_text(d2)),
{
}

/// The text of a GET request for `path`.
pub open spec fn get_text(endpoint: Seq<char>, path: Seq<char>) -> Seq<char> {
    "GET "@ + path + " HTTP/1.1\r\nHost: "@ + endpoint + "\r\nConnection: close\r\n\r\n"@
}

/// The text of a POST request for `path` whose body `body` is `len` bytes long.
pub open spec fn post_text(endpoint: Seq<char>, path: Seq<char>, body: Seq<char>, len: nat) -> Seq<
    char,
> {
    "POST "@ + path + " HTTP/1.1\r\nHost: "@ + endpoint
        + "\r\nContent-Type: application/json\r\nContent-Length: "@ + decimal(len)
        + "\r\nConnection: close\r\n\r\n"@ + body
}

/// The text that `String::from_utf8_lossy` makes of `b`.
pub uninterp spec fn lossy_text(b: Seq<u8>) -> Seq<char>;

/// Relies on `String::from_utf8_lossy`: well-formed UTF-8 decodes to its
/// characters, and each ill-formed sequence becomes U+FFFD.
#[verifier::external_body]
fn decode_lossy(b: &[u8]) -> (r: Vec<char>)
    ensures
        r@ == lossy_text(b@),
        vstd::utf8::valid_utf8(b@) ==> r@ == vstd::utf8::decode_utf8(b@),
{
    String::from_utf8_lossy(b).chars().collect()
}

/// A copy of `t[lo..hi]`.
fn copy_range(t: &[char], lo: usize, hi: usize) -> (r: Vec<char>)
    requires
        lo <= hi <= t.len(),
    ensures
        r@ == t@.subrange(lo as int, hi as int),
{
    let mut v: Vec<char> = Vec::new();
    let mut i: usize = lo;
    while i < hi
        invariant
            lo <= i <= hi <= t.len(),
            v@ == t@.subrange(lo as int, i as int),
        decreases hi - i,
    {
        v.push(t[i]);
        assert(t@.subrange(lo as int, i + 1) =~= t@.subrange(lo as int, i as int).push(
            t@[i as int],
        ));
        i = i + 1;
    }
    v
}

/// The end of the first line of `t`, without its line break.
fn status_end(t: &[char]) -> (r: usize)
    ensures
        r <= t.len(),
        t@.subrange(0, r as int) == status_line(t@),
{
    let nl = vec!['\n'];
    assert(nl@ =~= seq!['\n']);
    match find_exec(t, nl.as_slice(), 0) {
        Some(e) => {
            proof {
                lemma_find_from(t@, seq!['\n'], 0);
            }
            if e > 0 && t[e - 1] == '\r' {
                e - 1
            } else {
                e
            }
        },
        None => {
            assert(t@.subrange(0, t.len() as int) =~= t@);
            t.len()
        },
    }
}

/// Whether the status line, `t[..end]`, reports success.
fn status_is_ok(t: &[char], end: usize) -> (r: bool)
    requires
        end <= t.len(),
        t@.subrange(0, end as int) == status_line(t@),
    ensures
        r == status_ok(t@),
{
    let line = copy_range(t, 0, end);
    let space = vec![' '];
    assert(space@ =~= seq![' ']);
    match find_exec(line.as_slice(), space.as_slice(), 0) {
        Some(p) => {
            proof {
                lemma_find_from(line@, seq![' '], 0);
            }
            if line.len() - p < 4 {
                return false;
            }
            let c1 = line[p + 1];
            let c2 = line[p + 2];
            let c3 = line[p + 3];
            c1 == '2' && '0' <= c2 && c2 <= '9' && '0' <= c3 && c3 <= '9' && (p + 4 == line.len()
                || line[p + 4] == ' ')
        },
        None => false,
    }
}

/// `c` with an ASCII capital replaced by its small letter, as a code point.
fn folded_exec(c: char) -> (r: u32)
    ensures
        r == folded(c),
{
    if 'A' <= c && c <= 'Z' {
        c as u32 + 32
    } else {
        c as u32
    }
}

/// Whether `sec[start..end]` is the identifier header; `name` is its name.
fn is_id_line_exec(sec: &[char], start: usize, end: usize, name: &[char]) -> (r: bool)
    requires
        start <= end <= sec.len(),
        name@ == id_header(),
    ensures
        r == is_id_line(sec@.subrange(start as int, end as int)),
{
    let ghost line = sec@.subrange(start as int, end as int);
    if end - start < name.len() {
        return false;
    }
    let mut k: usize = 0;
    while k < name.len()
        invariant
            start + name.len() <= end <= sec.len(),
            name@ == id_header(),
            k <= name.len(),
            line == sec@.subrange(start as int, end as int),
            forall|j: int| 0 <= j < k ==> folded(line[j]) == folded(name@[j]),
        decreases name.len() - k,
    {
        if folded_exec(sec[start + k]) != folded_exec(name[k]) {
            assert(line[k as int] == sec@[start + k]);
            assert(folded(line[k as int]) != folded(id_header()[k as int]));
            return false;
        }
        k = k + 1;
    }
    true
}

/// The value of the first identifier header line in the header block `sec`.
fn scan_identifier(sec: &[char]) -> (r: Option<String>)
    ensures
        r matches Some(s) ==> scan_id(sec@, 0, 0) == Some(s@),
        r is None ==> scan_id(sec@, 0, 0) is None,
{
    let name = chars_of("lambda-runtime-aws-request-id:");
    let mut start: usize = 0;
    let mut i: usize = 0;
    while i <= sec.len()
        invariant
            start <= i <= sec.len(),
            name@ == id_header(),
            scan_id(sec@, 0, 0) == scan_id(sec@, start as int, i as int),
        decreases sec.len() + 1 - i,
    {
        if i < sec.len() && sec[i] != '\n' {
            i = i + 1;
        } else if is_id_line_exec(sec, start, i, name.as_slice()) {
            let (a, b) = trim_bounds(sec, start + name.len(), i);
            assert(sec@.subrange(start as int, i as int).subrange(
                id_header().len() as int,
                (i - start) as int,
            ) =~= sec@.subrange(start + name.len(), i as int));
            return Some(string_of(sec, a, b));
        } else if i < sec.len() {
            i = i + 1;
            start = i;
        } else {
            return None;
        }
    }
    None
}

/// Where the header block of `t` lies, given the empty line at `b`.
fn header_bounds(t: &[char], b: usize) -> (r: (usize, usize))
    requires
        find(t@, blank_line()) == Some(b as int),
    ensures
        r.0 <= r.1 <= t.len(),
        t@.subrange(r.0 as int, r.1 as int) == header_block(t@, b as int),
{
    proof {
        lemma_find_from(t@, blank_line(), 0);
        lemma_find_from(t@, crlf(), 0);
        assert(t@.subrange(b as int, b + 2) =~= t@.subrange(b as int, b + 4).subrange(0, 2));
        assert(blank_line().subrange(0, 2) =~= crlf());
        assert(occurs_at(t@, crlf(), b as int));
        assert(b + 4 <= t.len());
    }
    let two = vec!['\r', '\n'];
    assert(two@ =~= crlf());
    match find_exec(t, two.as_slice(), 0) {
        Some(f) => {
            assert(f <= b);
            if f + 2 <= b {
                (f + 2, b)
            } else {
                assert(t@.subrange(b as int, b as int) =~= Seq::<char>::empty());
                (b, b)
            }
        },
        None => {
            assert(false);
            (0, 0)
        },
    }
}

/// The identifier carried by the header block `sec`.
fn identifier_of(sec: &[char]) -> (r: String)
    ensures
        r@ == identifier(sec@),
{
    match scan_identifier(sec) {
        Some(s) => {
            if s.as_str().is_empty() {
                String::from_str("unknown")
            } else {
                s
            }
        },
        None => String::from_str("unknown"),
    }
}

/// The error for a reply whose status line, `t[..end]`, reports no success.
fn status_error(t: &[char], end: usize) -> (r: HttpError)
    requires
        end <= t.len(),
        t@.subrange(0, end as int) == status_line(t@),
    ensures
        is_invalid(r, "Non-2xx status: "@ + status_line(t@)),
{
    let mut m = String::from_str("Non-2xx status: ");
    push_chars(&mut m, t, 0, end);
    HttpError::InvalidResponse(m)
}

/// A minimal HTTP/1.1 client for the control endpoint: it knows where the
/// endpoint is and how to write and read the protocol's two exchanges.
#[derive(Debug)]
pub struct HttpClient {
    endpoint: String,
}

impl HttpClient {
    /// The endpoint, `host:port`, this client talks to.
    pub closed spec fn spec_endpoint(&self) -> Seq<char> {
        self.endpoint@
    }

    /// A client for `endpoint`.
    pub fn new(endpoint: String) -> (r: HttpClient)
        ensures
            r.spec_endpoint() == endpoint@,
    {
        HttpClient { endpoint }
    }

    /// The endpoint, `host:port`, this client talks to.
    pub fn endpoint(&self) -> (r: &str)
        ensures
            r@ == self.spec_endpoint(),
    {
        self.endpoint.as_str()
    }

    /// The text of a GET request for `path`, asking the server to close the
    /// connection after replying.
    pub fn get_request(&self, path: &str) -> (r: String)
        ensures
            r@ == get_text(self.spec_endpoint(), path@),
    {
        let mut s = String::from_str("GET ");
        s.append(path);
        s.append(" HTTP/1.1\r\nHost: ");
        s.append(self.endpoint.as_str());
        s.append("\r\nConnection: close\r\n\r\n");
        s
    }

    /// The text of a POST request carrying the JSON `body` to `path`; its
    /// `Content-Length` is the body's length in bytes.
    pub fn post_request(&self, path: &str, body: &str) -> (r: String)
        ensures
            r@ == post_text(self.spec_endpoint(), path@, body@, body.len() as nat),
    {
        let mut s = String::from_str("POST ");
        s.append(path);
        s.append(" HTTP/1.1\r\nHost: ");
        s.append(self.endpoint.as_str());
        s.append("\r\nContent-Type: application/json\r\nContent-Length: ");
        let n = body.len();
        push_padded(&mut s, n as u64, 0);
        assert((n as u64) as nat == n as nat);
        assert(padded(n as nat, 0) == decimal(n as nat));
        s.append("\r\nConnection: close\r\n\r\n");
        s.append(body);
        assert(s@ =~= post_text(self.spec_endpoint(), path@, body@, body.len() as nat));
        s
    }

    /// Reads a decoded reply into `(identifier, body)`.
    pub fn parse_decoded_with_headers(text: &[char]) -> (r: Result<(String, String), HttpError>)
        ensures
            match reply_with_headers(text@) {
                Ok(v) => r matches Ok(p) && p.0@ == v.0 && p.1@ == v.1,
                Err(m) => r matches Err(e) && is_invalid(e, m),
            },
    {
        if text.len() == 0 {
            return Err(HttpError::InvalidResponse(String::from_str("Empty response")));
        }
        let end = status_end(text);
        if !status_is_ok(text, end) {
            return Err(status_error(text, end));
        }
        let four = vec!['\r', '\n', '\r', '\n'];
        assert(four@ =~= blank_line());
        match find_exec(text, four.as_slice(), 0) {
            Some(b) => {
                proof {
                    lemma_find_from(text@, blank_line(), 0);
                }
                let (lo, hi) = header_bounds(text, b);
                let sec = copy_range(text, lo, hi);
                let id = identifier_of(sec.as_slice());
                let body = string_of(text, b + 4, text.len());
                Ok((id, body))
            },
            None => Err(HttpError::InvalidResponse(String::from_str("No body separator found"))),
        }
    }

    /// Reads a decoded reply into its body.
    pub fn parse_decoded(text: &[char]) -> (r: Result<String, HttpError>)
        ensures
            match reply_body(text@) {
                Ok(v) => r matches Ok(s) && s@ == v,
                Err(m) => r matches Err(e) && is_invalid(e, m),
            },
    {
        if text.len() == 0 {
            return Err(HttpError::InvalidResponse(String::from_str("Empty response")));
        }
        let end = status_end(text);
        if !status_is_ok(text, end) {
            return Err(status_error(text, end));
        }
        let four = vec!['\r', '\n', '\r', '\n'];
        assert(four@ =~= blank_line());
        match find_exec(text, four.as_slice(), 0) {
            Some(b) => {
                proof {
                    lemma_find_from(text@, blank_line(), 0);
                }
                Ok(string_of(text, b + 4, text.len()))
            },
            None => Err(HttpError::InvalidResponse(String::from_str("No body separator found"))),
        }
    }

    /// Reads the decoded reply to a POST.
    pub fn check_post_decoded(text: &[char]) -> (r: Result<(), HttpError>)
        ensures
            match post_reply(text@) {
                Ok(_) => r is Ok,
                Err(m) => r matches Err(e) && is_invalid(e, m),
            },
    {
        let end = status_end(text);
        if status_is_ok(text, end) {
            return Ok(());
        }
        if text.len() == 0 {
            return Err(HttpError::InvalidResponse(String::from_str("POST request failed: unknown")));
        }
        let mut m = String::from_str("POST request failed: ");
        push_chars(&mut m, text, 0, end);
        Err(HttpError::InvalidResponse(m))
    }

    /// Reads the reply to a GET, as received, into `(identifier, body)`:
    /// the identifier header's trimmed value (`unknown` without one) and
    /// everything after the first empty line.
    pub fn parse_response_with_headers(data: &[u8]) -> (r: Result<(String, String), HttpError>)
        ensures
            match reply_with_headers(lossy_text(data@)) {
                Ok(v) => r matches Ok(p) && p.0@ == v.0 && p.1@ == v.1,
                Err(m) => r matches Err(e) && is_invalid(e, m),
            },
    {
        let text = decode_lossy(data);
        Self::parse_decoded_with_headers(text.as_slice())
    }

    /// Reads a reply, as received, into its body.
    pub fn parse_response(data: &[u8]) -> (r: Result<String, HttpError>)
        ensures
            match reply_body(lossy_text(data@)) {
                Ok(v) => r matches Ok(s) && s@ == v,
                Err(m) => r matches Err(e) && is_invalid(e, m),
            },
    {
        let text = decode_lossy(data);
        Self::parse_decoded(text.as_slice())
    }

    /// Reads the reply to a POST, as received: success when its status line
    /// reports a 2xx status.
    pub fn check_post_response(data: &[u8]) -> (r: Result<(), HttpError>)
        ensures
            match post_reply(lossy_text(data@)) {
                Ok(_) => r is Ok,
                Err(m) => r matches Err(e) && is_invalid(e, m),
            },
    {
        let text = decode_lossy(data);
        Self::check_post_decoded(text.as_slice())
    }
}

} // verus!
