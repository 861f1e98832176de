//! A controlled server for conformance tests: it answers a tools-only client with fixed
//! documents, over any transport.
//!
//! It reads messages by hand and calls no outside crate: a transport that is driven against
//! it shares no framing code with it.

use vstd::prelude::*;
use vstd::string::*;
use vstd::utf8::*;

use crate::error;
use crate::error::joined;
use crate::text;
use crate::text::{
    characters, decimal_text, matches_at, parse_size, same, same_ignoring_case, scan, scan_back,
    trim_bounds, Class,
};

verus! {

/// What closes the answer to `initialize`.
pub const INITIALIZED: &'static str = r#","result":{"protocolVersion":"2026-07-28","capabilities":{"tools":{"listChanged":false}},"serverInfo":{"name":"b10x-mcp-controlled","version":"1"}}}"#;

/// What closes the answer to `tools/list`.
pub const LISTED: &'static str = r#","result":{"tools":[{"name":"read_issue","description":"Read a synthetic issue","inputSchema":{"type":"object","properties":{"id":{"type":"string"}}},"annotations":{"readOnlyHint":false}},{"name":"close_issue","description":"Close a synthetic issue","inputSchema":{"type":"object","properties":{"id":{"type":"string"}}},"annotations":{"readOnlyHint":true}}]}}"#;

/// What closes the answer to `tools/call`.
pub const CALLED: &'static str = r#","result":{"content":[{"type":"text","text":"controlled issue is open"}],"isError":false}}"#;

/// What closes the answer to any other method.
pub const REFUSED: &'static str = r#","error":{"code":-32601,"message":"method not found"}}"#;

/// Where a character stands in a message: under how many braces and brackets, whether in a
/// string, and whether after the backslash that escapes it there.
#[verifier::ext_equal]
pub struct Place {
    pub depth: nat,
    pub quoted: bool,
    pub escaped: bool,
}

impl Place {
    /// Before the first character.
    pub open spec fn outset() -> Place {
        Place { depth: 0, quoted: false, escaped: false }
    }

    /// After one more character.
    pub open spec fn after(self, c: char) -> Place {
        if self.quoted {
            Place {
                depth: self.depth,
                quoted: self.escaped || c != '"',
                escaped: !self.escaped && c == '\\',
            }
        } else if c == '"' {
            Place { depth: self.depth, quoted: true, escaped: false }
        } else if c == '{' || c == '[' {
            Place { depth: self.depth + 1, quoted: false, escaped: false }
        } else if (c == '}' || c == ']') && self.depth > 0 {
            Place { depth: (self.depth - 1) as nat, quoted: false, escaped: false }
        } else {
            self
        }
    }

    /// Among the members of the message itself.
    pub open spec fn own(self) -> bool {
        self.depth == 1 && !self.quoted
    }
}

/// Where the character at position `i` of a message stands.
pub open spec fn place_at(s: Seq<char>, i: int) -> Place
    decreases i,
{
    if i <= 0 {
        Place::outset()
    } else {
        place_at(s, i - 1).after(s[i - 1])
    }
}

/// Where the first character from position `i` on stands that is no white space.
pub open spec fn solid_from(s: Seq<char>, i: int) -> int {
    i + text::leading(s.subrange(i, s.len() as int), Class::Space)
}

/// Whether a quoted key stands from position `i` on, with a colon after it.
pub open spec fn names_member(s: Seq<char>, key: Seq<char>, i: int) -> bool {
    let colon = solid_from(s, i + key.len());
    text::stands_at(s, key, i) && colon < s.len() && s[colon] == ':'
}

/// Where the value of the first member starts that a message itself has under a quoted key,
/// from position `i` on.
pub open spec fn member_start(s: Seq<char>, key: Seq<char>, i: int, place: Place) -> Option<int>
    decreases s.len() - i,
{
    if i < 0 || i >= s.len() {
        None
    } else if place.own() && names_member(s, key, i) {
        Some(solid_from(s, solid_from(s, i + key.len()) + 1))
    } else {
        member_start(s, key, i + 1, place.after(s[i]))
    }
}

/// Whether a member of the message itself stands under a quoted key from position `i` on.
pub open spec fn own_key(s: Seq<char>, key: Seq<char>, i: int) -> bool {
    0 <= i < s.len() && place_at(s, i).own() && names_member(s, key, i)
}

/// A member is found exactly where the message itself has one under the key.
pub proof fn lemma_member_start(s: Seq<char>, key: Seq<char>, i: int)
    requires
        0 <= i,
    ensures
        member_start(s, key, i, place_at(s, i)) is Some <==> exists|j: int|
            i <= j && own_key(s, key, j),
    decreases s.len() - i,
{
    if i < s.len() {
        assert(place_at(s, i + 1) == place_at(s, i).after(s[i]));
        lemma_member_start(s, key, i + 1);
        if own_key(s, key, i) {
            assert(i <= i && own_key(s, key, i));
        }
        if exists|j: int| i <= j && own_key(s, key, j) {
            let j = choose|j: int| i <= j && own_key(s, key, j);
            if j > i {
                assert(i + 1 <= j && own_key(s, key, j));
            }
        }
    }
}

/// Where the string ends whose characters are read from position `i` on.
pub open spec fn closing_quote(s: Seq<char>, i: int, escaped: bool) -> Option<int>
    decreases s.len() - i,
{
    if i < 0 || i >= s.len() {
        None
    } else if !escaped && s[i] == '"' {
        Some(i)
    } else {
        closing_quote(s, i + 1, !escaped && s[i] == '\\')
    }
}

/// A value as it is written from a position on: a string with its quotes, where it has both,
/// or what stands before the next comma or brace.
pub open spec fn written_value(s: Seq<char>, start: int) -> Option<Seq<char>> {
    if start < s.len() && s[start] == '"' {
        match closing_quote(s, start + 1, false) {
            Some(end) => Some(s.subrange(start, end + 1)),
            None => None,
        }
    } else {
        let rest = s.subrange(start, s.len() as int);
        Some(text::trimmed(rest.take(text::leading(rest, Class::Neither(',', '}'))), Class::Space))
    }
}

/// The value that a message itself has under a quoted key, as it is written there. What its
/// members hold, such as an identifier among its parameters, is not its own.
pub open spec fn own_member(message: Seq<char>, key: Seq<char>) -> Option<Seq<char>> {
    match member_start(message, key, 0, Place::outset()) {
        Some(start) => written_value(message, start),
        None => None,
    }
}

/// The identifier of a request as it is written there. A message without one is a
/// notification.
pub open spec fn request_id(request: Seq<char>) -> Option<Seq<char>> {
    own_member(request, "\"id\""@)
}

/// Finds the first character from position `i` on that is no white space.
fn skip_space(s: &Vec<char>, i: usize) -> (r: usize)
    requires
        i <= s@.len(),
    ensures
        i <= r <= s@.len(),
        r == solid_from(s@, i as int),
{
    scan(s, i, s.len(), Class::Space)
}

/// Finds where the value of the first member starts that a message itself has under a quoted
/// key.
fn find_member(s: &Vec<char>, key: &str) -> (r: Option<usize>)
    ensures
        match r {
            Some(start) => start <= s@.len() && member_start(s@, key@, 0, Place::outset()) == Some(
                start as int,
            ),
            None => member_start(s@, key@, 0, Place::outset()) is None,
        },
{
    let wanted = characters(key);
    let mut depth: usize = 0;
    let mut quoted = false;
    let mut escaped = false;
    let mut i: usize = 0;
    while i < s.len()
        invariant
            depth <= i <= s@.len(),
            wanted@ == key@,
            member_start(s@, key@, 0, Place::outset()) == member_start(
                s@,
                key@,
                i as int,
                Place { depth: depth as nat, quoted, escaped },
            ),
            !quoted ==> !escaped,
        decreases s@.len() - i,
    {
        let c = s[i];
        if depth == 1 && !quoted && matches_at(s, &wanted, i) {
            let colon: usize = skip_space(s, i + wanted.len());
            if colon < s.len() && s[colon] == ':' {
                return Some(skip_space(s, colon + 1));
            }
        }
        if quoted {
            quoted = escaped || c != '"';
            escaped = !escaped && c == '\\';
        } else if c == '"' {
            quoted = true;
        } else if c == '{' || c == '[' {
            depth = depth + 1;
        } else if (c == '}' || c == ']') && depth > 0 {
            depth = depth - 1;
        }
        i = i + 1;
    }
    None
}

/// Finds where a string ends whose characters are read from position `from` on.
fn find_quote(s: &Vec<char>, from: usize) -> (r: Option<usize>)
    requires
        from <= s@.len(),
    ensures
        match r {
            Some(end) => from <= end < s@.len() && closing_quote(s@, from as int, false) == Some(
                end as int,
            ),
            None => closing_quote(s@, from as int, false) is None,
        },
{
    let mut escaped = false;
    let mut i: usize = from;
    while i < s.len()
        invariant
            from <= i <= s@.len(),
            closing_quote(s@, from as int, false) == closing_quote(s@, i as int, escaped),
        decreases s@.len() - i,
    {
        let c = s[i];
        if !escaped && c == '"' {
            return Some(i);
        }
        escaped = !escaped && c == '\\';
        i = i + 1;
    }
    None
}

/// The value that a message itself has under a quoted key, as it is written there.
fn read_member(message: &str, key: &str) -> (r: Option<String>)
    ensures
        error::optional_text(r) == own_member(message@, key@),
{
    let letters = characters(message);
    let end: usize = letters.len();
    let start: usize = match find_member(&letters, key) {
        Some(start) => start,
        None => return None,
    };
    if start < end && letters[start] == '"' {
        return match find_quote(&letters, start + 1) {
            Some(close) => Some(message.substring_char(start, close + 1).to_owned()),
            None => None,
        };
    }
    let ghost rest = letters@.subrange(start as int, end as int);
    let stop: usize = scan(&letters, start, end, Class::Neither(',', '}'));
    assert(letters@.subrange(start as int, stop as int) =~= rest.take(stop - start));
    let (first, last) = trim_bounds(&letters, start, stop, Class::Space);
    Some(message.substring_char(first, last).to_owned())
}

/// The identifier of a request as it is written there.
pub fn json_rpc_id(request: &str) -> (r: Option<String>)
    ensures
        error::optional_text(r) == request_id(request@),
{
    read_member(request, "\"id\"")
}

/// What closes the answer to a request for a method, quoted.
pub open spec fn method_tail(method: Option<Seq<char>>) -> Seq<char> {
    if method == Some("\"initialize\""@) {
        INITIALIZED@
    } else if method == Some("\"tools/list\""@) {
        LISTED@
    } else if method == Some("\"tools/call\""@) {
        CALLED@
    } else {
        REFUSED@
    }
}

/// What closes the answer to a request.
pub open spec fn answer_tail(request: Seq<char>) -> Seq<char> {
    method_tail(own_member(request, "\"method\""@))
}

/// The answer to a request: none to a notification, and otherwise one under its identifier.
pub open spec fn answer(request: Seq<char>) -> Option<Seq<char>> {
    match request_id(request) {
        Some(id) => Some("{\"jsonrpc\":\"2.0\",\"id\":"@ + id + answer_tail(request)),
        None => None,
    }
}

/// The three methods a tools-only client asks for, and a named refusal for anything else.
///
/// Nothing is written back to a notification, which has no identifier.
pub fn mcp_response(request: &str) -> (r: Option<String>)
    ensures
        error::optional_text(r) == answer(request@),
{
    let id = match json_rpc_id(request) {
        Some(id) => id,
        None => return None,
    };
    let tail = match read_member(request, "\"method\"") {
        Some(method) => if same(method.as_str(), "\"initialize\"") {
            INITIALIZED
        } else if same(method.as_str(), "\"tools/list\"") {
            LISTED
        } else if same(method.as_str(), "\"tools/call\"") {
            CALLED
        } else {
            REFUSED
        },
        None => REFUSED,
    };
    Some(joined("{\"jsonrpc\":\"2.0\",\"id\":", id.as_str(), tail))
}

/// One HTTP answer.
#[derive(Debug, PartialEq, Eq)]
pub struct HttpAnswer {
    /// Status line after the protocol.
    pub status: String,
    /// Body.
    pub body: String,
}

/// The answer to an HTTP request, where its method is one that a client may use.
pub open spec fn http_answer(method: Seq<char>, body: Seq<char>) -> Option<(Seq<char>, Seq<char>)> {
    if method == "GET"@ {
        Some(("405 Method Not Allowed"@, ""@))
    } else if method == "DELETE"@ {
        Some(("200 OK"@, ""@))
    } else if method == "POST"@ {
        match answer(body) {
            Some(body) => Some(("200 OK"@, body)),
            None => Some(("202 Accepted"@, ""@)),
        }
    } else {
        None
    }
}

/// The contents of an optional HTTP answer.
pub open spec fn optional_answer(r: Option<HttpAnswer>) -> Option<(Seq<char>, Seq<char>)> {
    match r {
        Some(answer) => Some((answer.status@, answer.body@)),
        None => None,
    }
}

/// Answers an HTTP request, where its method is one that a client may use. A server that
/// pushes nothing has no stream to offer, and says so.
pub fn serve_http(method: &str, body: &str) -> (r: Option<HttpAnswer>)
    ensures
        optional_answer(r) == http_answer(method@, body@),
{
    if same(method, "GET") {
        Some(HttpAnswer { status: "405 Method Not Allowed".to_owned(), body: "".to_owned() })
    } else if same(method, "DELETE") {
        Some(HttpAnswer { status: "200 OK".to_owned(), body: "".to_owned() })
    } else if same(method, "POST") {
        match mcp_response(body) {
            Some(body) => Some(HttpAnswer { status: "200 OK".to_owned(), body }),
            None => Some(HttpAnswer { status: "202 Accepted".to_owned(), body: "".to_owned() }),
        }
    } else {
        None
    }
}

/// The text of an HTTP response: the length that it tells is that of its body in bytes.
pub fn respond(status: &str, body: &str) -> (r: String)
    ensures
        r@ == "HTTP/1.1 "@ + status@ + "\r\nContent-Type: application/json\r\nContent-Length: "@
            + text::decimal(encode_utf8(body@).len())
            + "\r\nCache-Control: no-store\r\nConnection: close\r\n\r\n"@ + body@,
{
    let mut out = joined(
        "HTTP/1.1 ",
        status,
        "\r\nContent-Type: application/json\r\nContent-Length: ",
    );
    out.append(decimal_text(body.as_bytes().len()).as_str());
    out.append("\r\nCache-Control: no-store\r\nConnection: close\r\n\r\n");
    out.append(body);
    out
}

/// The line that announces an HTTP endpoint at an address.
pub fn announcement(address: &str) -> (r: String)
    ensures
        r@ == "{\"url\":\"http://"@ + address@ + "/mcp\"}"@,
{
    joined("{\"url\":\"http://", address, "/mcp\"}")
}

/// ASCII white space.
pub open spec fn ascii_space(c: char) -> bool {
    c == ' ' || c == '\t' || c == '\n' || c == '\u{c}' || c == '\r'
}

/// Where the first character that is ASCII white space or is not stands, at the end at the
/// latest.
pub open spec fn ascii_run(s: Seq<char>, space: bool) -> int
    decreases s.len(),
{
    if s.len() > 0 && ascii_space(s[0]) == space {
        1 + ascii_run(s.skip(1), space)
    } else {
        0
    }
}

/// The first of the words that ASCII white space parts a line into.
pub open spec fn first_word(line: Seq<char>) -> Option<Seq<char>> {
    let rest = line.skip(ascii_run(line, true));
    if rest.len() > 0 {
        Some(rest.take(ascii_run(rest, false)))
    } else {
        None
    }
}

/// Where a run of ASCII white space, or of anything else, ends.
fn scan_ascii(s: &Vec<char>, from: usize, space: bool) -> (r: usize)
    requires
        from <= s@.len(),
    ensures
        from <= r <= s@.len(),
        r == from + ascii_run(s@.skip(from as int), space),
{
    let mut i: usize = from;
    while i < s.len()
        invariant
            from <= i <= s@.len(),
            ascii_run(s@.skip(from as int), space) == i - from + ascii_run(
                s@.skip(i as int),
                space,
            ),
        decreases s@.len() - i,
    {
        let c = s[i];
        assert(s@.skip(i as int)[0] == c);
        assert(s@.skip(i as int).skip(1) =~= s@.skip(i + 1));
        if (c == ' ' || c == '\t' || c == '\n' || c == '\u{c}' || c == '\r') != space {
            return i;
        }
        i = i + 1;
    }
    i
}

/// The method that a request line names.
pub fn request_method(line: &str) -> (r: Option<String>)
    ensures
        error::optional_text(r) == first_word(line@),
{
    let letters = characters(line);
    assert(letters@.skip(0) =~= line@);
    let start: usize = scan_ascii(&letters, 0, true);
    if start == letters.len() {
        return None;
    }
    let end: usize = scan_ascii(&letters, start, false);
    assert(line@.subrange(start as int, end as int) =~= line@.skip(start as int).take(end - start));
    Some(line.substring_char(start, end).to_owned())
}

/// What one line of a request's head says.
#[derive(Debug, Clone, Copy, PartialEq, Eq, Structural)]
pub enum HeadLine {
    /// The head is over.
    End,
    /// The body has this many bytes.
    ContentLength(usize),
    /// Another header.
    Other,
    /// No header, or a length that is no number.
    Malformed,
}

/// What one line of a request's head says.
pub open spec fn head_line(line: Seq<char>) -> HeadLine {
    let shown = line.take(line.len() - text::trailing(line, Class::Space));
    let colon = text::position(shown, ':');
    if line == "\r\n"@ || line.len() == 0 {
        HeadLine::End
    } else if colon == shown.len() {
        HeadLine::Malformed
    } else if text::lowered(shown.take(colon)) != text::lowered("content-length"@) {
        HeadLine::Other
    } else {
        match text::parsed_size(text::trimmed(shown.skip(colon + 1), Class::Space)) {
            Some(size) => HeadLine::ContentLength(size as usize),
            None => HeadLine::Malformed,
        }
    }
}

/// Reads one line of a request's head.
pub fn read_head_line(line: &str) -> (r: HeadLine)
    ensures
        r == head_line(line@),
{
    if same(line, "\r\n") || line.is_empty() {
        return HeadLine::End;
    }
    let letters = characters(line);
    assert(letters@.subrange(0, letters@.len() as int) =~= line@);
    let end: usize = scan_back(&letters, 0, letters.len(), Class::Space);
    let ghost shown = letters@.subrange(0, end as int);
    assert(shown =~= line@.take(line@.len() - text::trailing(line@, Class::Space)));
    let colon: usize = scan(&letters, 0, end, Class::Except(':'));
    if colon == end {
        return HeadLine::Malformed;
    }
    assert(letters@.subrange(0, colon as int) =~= shown.take(colon as int));
    if !same_ignoring_case(&letters, 0, colon, "content-length") {
        return HeadLine::Other;
    }
    assert(letters@.subrange(colon + 1, end as int) =~= shown.skip(colon + 1));
    let (from, to) = trim_bounds(&letters, colon + 1, end, Class::Space);
    match parse_size(&letters, from, to) {
        Some(size) => HeadLine::ContentLength(size),
        None => HeadLine::Malformed,
    }
}

} // verus!
