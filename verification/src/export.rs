use vstd::prelude::*;
use crate::text::{append_str, chars_of, string_of, trim, trim_chars};

verus! {

/// Where a public key is uploaded.
#[derive(PartialEq, Eq, Structural, Clone, Copy, Debug)]
pub enum ExportPlatformChoice {
    GitHub,
    GitLab,
}

/// An HTTP `POST` to make: where, with which headers, and its body.
pub struct ExportRequest {
    pub url: String,
    pub headers: Vec<(String, String)>,
    pub body: String,
}

pub ghost struct RequestView {
    pub url: Seq<char>,
    pub headers: Seq<(Seq<char>, Seq<char>)>,
    pub body: Seq<char>,
}

impl View for ExportRequest {
    type V = RequestView;

    open spec fn view(&self) -> RequestView {
        RequestView {
            url: self.url@,
            headers: self.headers@.map_values(|h: (String, String)| (h.0@, h.1@)),
            body: self.body@,
        }
    }
}

/// The upload request to GitHub.
pub open spec fn github_request(token: Seq<char>, title: Seq<char>, key: Seq<char>) -> RequestView {
    RequestView {
        url: "https://api.github.com/user/keys"@,
        headers: seq![
            ("Authorization"@, "Bearer "@ + token),
            ("Accept"@, "application/vnd.github+json"@),
            ("User-Agent"@, "easy-ssh-tui"@),
            ("Content-Type"@, "application/json"@),
        ],
        body: request_body(title, key),
    }
}

/// The upload request to GitLab.
pub open spec fn gitlab_request(token: Seq<char>, title: Seq<char>, key: Seq<char>) -> RequestView {
    RequestView {
        url: "https://gitlab.com/api/v4/user/keys"@,
        headers: seq![("PRIVATE-TOKEN"@, token), ("Content-Type"@, "application/json"@)],
        body: request_body(title, key),
    }
}

pub open spec fn platform_request(
    p: ExportPlatformChoice,
    token: Seq<char>,
    title: Seq<char>,
    key: Seq<char>,
) -> RequestView {
    match p {
        ExportPlatformChoice::GitHub => github_request(token, title, key),
        ExportPlatformChoice::GitLab => gitlab_request(token, title, key),
    }
}

/// What the server answered: the status code, the status as displayed (`404 Not Found`), and
/// the body.
pub struct HttpReply {
    pub status: u16,
    pub status_text: String,
    pub body: String,
}

/// The lower-case hexadecimal digit for `d` (below 16).
pub open spec fn hex_digit(d: int) -> char {
    if d < 10 {
        (48 + d) as char
    } else {
        (87 + d) as char
    }
}

/// The value of a lower-case hexadecimal digit.
pub open spec fn hex_value(c: char) -> int {
    if '0' <= c <= '9' {
        c as int - 48
    } else if 'a' <= c <= 'f' {
        c as int - 87
    } else {
        0
    }
}

pub open spec fn is_hex(c: char) -> bool {
    ('0' <= c <= '9') || ('a' <= c <= 'f')
}

/// A character as written inside a JSON string: `"` and `\` behind a backslash, a control
/// character (below U+0020) as `\u00XX`, every other character as it is.
pub open spec fn json_char(c: char) -> Seq<char> {
    if c == '"' {
        seq!['\\', '"']
    } else if c == '\\' {
        seq!['\\', '\\']
    } else if (c as u32) < 0x20 {
        seq!['\\', 'u', '0', '0', hex_digit((c as u32) as int / 16), hex_digit((c as u32) as int % 16)]
    } else {
        seq![c]
    }
}

/// A text as written inside a JSON string.
pub open spec fn json_escape(s: Seq<char>) -> Seq<char>
    decreases s.len(),
{
    if s.len() == 0 {
        seq![]
    } else {
        json_escape(s.drop_last()) + json_char(s.last())
    }
}

/// Whether `q` is the inside of a JSON string, as far as this library writes one: no bare `"`,
/// backslash or control character; escapes `\"`, `\\` and `\uXXXX`.
pub open spec fn json_string_body(q: Seq<char>) -> bool
    decreases q.len(),
{
    if q.len() == 0 {
        true
    } else if q[0] == '\\' {
        if q.len() >= 2 && (q[1] == '"' || q[1] == '\\') {
            json_string_body(q.skip(2))
        } else if q.len() >= 6 && q[1] == 'u' && is_hex(q[2]) && is_hex(q[3]) && is_hex(q[4])
            && is_hex(q[5]) {
            json_string_body(q.skip(6))
        } else {
            false
        }
    } else {
        q[0] != '"' && (q[0] as u32) >= 0x20 && json_string_body(q.drop_first())
    }
}

/// The text that a JSON reader takes from the inside of a string.
pub open spec fn json_unescape(q: Seq<char>) -> Seq<char>
    decreases q.len(),
{
    if q.len() == 0 {
        seq![]
    } else if q[0] == '\\' && q.len() >= 2 && (q[1] == '"' || q[1] == '\\') {
        seq![q[1]] + json_unescape(q.skip(2))
    } else if q[0] == '\\' && q.len() >= 6 && q[1] == 'u' {
        seq![
            (hex_value(q[2]) * 4096 + hex_value(q[3]) * 256 + hex_value(q[4]) * 16 + hex_value(
                q[5],
            )) as char,
        ] + json_unescape(q.skip(6))
    } else {
        seq![q[0]] + json_unescape(q.drop_first())
    }
}

/// `{"title":"<title>","key":"<key>"}` with both texts escaped for JSON and the key trimmed.
pub open spec fn request_body(title: Seq<char>, key: Seq<char>) -> Seq<char> {
    "{\"title\":\""@ + json_escape(title) + "\",\"key\":\""@ + json_escape(trim(key)) + "\"}"@
}

pub proof fn lemma_hex(d: int)
    requires
        0 <= d < 16,
    ensures
        is_hex(hex_digit(d)),
        hex_value(hex_digit(d)) == d,
{
}

pub proof fn lemma_json_escape_append(a: Seq<char>, b: Seq<char>)
    ensures
        json_escape(a + b) == json_escape(a) + json_escape(b),
    decreases b.len(),
{
    if b.len() == 0 {
        assert(a + b =~= a);
        assert(json_escape(a) + json_escape(b) =~= json_escape(a));
    } else {
        lemma_json_escape_append(a, b.drop_last());
        assert((a + b).drop_last() =~= a + b.drop_last());
        assert((a + b).last() == b.last());
        assert(json_escape(a) + json_escape(b.drop_last()) + json_char(b.last()) =~= json_escape(a) + (
        json_escape(b.drop_last()) + json_char(b.last())));
    }
}

pub proof fn lemma_json_front(c: char, rest: Seq<char>)
    ensures
        json_string_body(json_char(c) + rest) == json_string_body(rest),
        json_unescape(json_char(c) + rest) == seq![c] + json_unescape(rest),
{
    let q = json_char(c) + rest;
    if c == '"' || c == '\\' {
        assert(q[0] == '\\');
        assert(q[1] == c);
        assert(q.skip(2) =~= rest);
    } else if (c as u32) < 0x20 {
        let u = (c as u32) as int;
        lemma_hex(u / 16);
        lemma_hex(u % 16);
        assert(q[0] == '\\');
        assert(q[1] == 'u');
        assert(q[2] == '0' && q[3] == '0');
        assert(q[4] == hex_digit(u / 16));
        assert(q[5] == hex_digit(u % 16));
        assert(q.skip(6) =~= rest);
        assert(hex_value('0') == 0);
        assert(hex_value(q[2]) * 4096 + hex_value(q[3]) * 256 + hex_value(q[4]) * 16 + hex_value(q[5])
            == u);
        assert((u as char) == c);
    } else {
        assert(q[0] == c);
        assert(q.drop_first() =~= rest);
    }
}

/// Whatever a text holds, the escaped text is the inside of a valid JSON string, and a JSON
/// reader takes the text itself back from it.
pub proof fn law_json_round_trip(s: Seq<char>)
    ensures
        json_string_body(json_escape(s)),
        json_unescape(json_escape(s)) == s,
    decreases s.len(),
{
    if s.len() > 0 {
        let rest = s.drop_first();
        assert(s =~= seq![s[0]] + rest);
        lemma_json_escape_append(seq![s[0]], rest);
        assert(seq![s[0]].drop_last() =~= Seq::<char>::empty());
        assert(seq![s[0]].last() == s[0]);
        assert(json_escape(Seq::<char>::empty()) == Seq::<char>::empty());
        assert(json_escape(seq![s[0]]) =~= json_char(s[0]));
        lemma_json_front(s[0], json_escape(rest));
        law_json_round_trip(rest);
        assert(seq![s[0]] + rest =~= s);
    }
}

/// The upload body is a JSON object of two strings: `title`, which reads back as the title,
/// and `key`, which reads back as the key with surrounding whitespace trimmed.
pub proof fn law_request_body_is_json(title: Seq<char>, key: Seq<char>)
    ensures
        request_body(title, key) == "{\"title\":\""@ + json_escape(title) + "\",\"key\":\""@
            + json_escape(trim(key)) + "\"}"@,
        json_string_body(json_escape(title)),
        json_unescape(json_escape(title)) == title,
        json_string_body(json_escape(trim(key))),
        json_unescape(json_escape(trim(key))) == trim(key),
{
    law_json_round_trip(title);
    law_json_round_trip(trim(key));
}

fn hex_char(d: u32) -> (c: char)
    requires
        d < 16,
    ensures
        c == hex_digit(d as int),
{
    if d < 10 {
        (48u8 + d as u8) as char
    } else {
        (87u8 + d as u8) as char
    }
}

fn escaped(s: &Vec<char>) -> (r: Vec<char>)
    ensures
        r@ == json_escape(s@),
{
    let mut r: Vec<char> = Vec::new();
    for i in 0..s.len()
        invariant
            r@ == json_escape(s@.take(i as int)),
    {
        assert(s@.take(i + 1).drop_last() =~= s@.take(i as int));
        assert(s@.take(i + 1).last() == s@[i as int]);
        let ghost before = r@;
        let c = s[i];
        let u = c as u32;
        if c == '"' {
            r.push('\\');
            r.push('"');
        } else if c == '\\' {
            r.push('\\');
            r.push('\\');
        } else if u < 0x20 {
            r.push('\\');
            r.push('u');
            r.push('0');
            r.push('0');
            r.push(hex_char(u / 16));
            r.push(hex_char(u % 16));
        } else {
            r.push(c);
        }
        assert(r@ =~= before + json_char(c));
    }
    assert(s@.take(s.len() as int) =~= s@);
    r
}

/// The JSON body that uploads a key under a title.
pub fn export_request_body(title: &str, key: &str) -> (r: String)
    ensures
        r@ == request_body(title@, key@),
{
    let t = escaped(&chars_of(title));
    let k = escaped(&trim_chars(&chars_of(key)));
    let mut out: Vec<char> = Vec::new();
    append_str(&mut out, "{\"title\":\"");
    crate::text::append_chars(&mut out, &t);
    append_str(&mut out, "\",\"key\":\"");
    crate::text::append_chars(&mut out, &k);
    append_str(&mut out, "\"}");
    string_of(&out)
}

fn text(s: &str) -> (r: String)
    ensures
        r@ == s@,
{
    String::from_str(s)
}

fn prefixed(prefix: &str, s: &str) -> (r: String)
    ensures
        r@ == prefix@ + s@,
{
    let mut r = String::from_str(prefix);
    r.append(s);
    r
}

/// The request that uploads `key` to the signed-in GitHub account: a `POST` to
/// `https://api.github.com/user/keys` with the token as a bearer token.
pub fn export_key_to_github(token: &str, title: &str, key: &str) -> (r: ExportRequest)
    ensures
        r@ == github_request(token@, title@, key@),
{
    let mut headers: Vec<(String, String)> = Vec::new();
    headers.push((text("Authorization"), prefixed("Bearer ", token)));
    headers.push((text("Accept"), text("application/vnd.github+json")));
    headers.push((text("User-Agent"), text("easy-ssh-tui")));
    headers.push((text("Content-Type"), text("application/json")));
    let r = ExportRequest {
        url: text("https://api.github.com/user/keys"),
        headers,
        body: export_request_body(title, key),
    };
    assert(r@.headers =~= github_request(token@, title@, key@).headers);
    r
}

/// The request that uploads `key` to the signed-in GitLab account: a `POST` to
/// `https://gitlab.com/api/v4/user/keys` with the token in `PRIVATE-TOKEN`.
pub fn export_key_to_gitlab(token: &str, title: &str, key: &str) -> (r: ExportRequest)
    ensures
        r@ == gitlab_request(token@, title@, key@),
{
    let mut headers: Vec<(String, String)> = Vec::new();
    headers.push((text("PRIVATE-TOKEN"), text(token)));
    headers.push((text("Content-Type"), text("application/json")));
    let r = ExportRequest {
        url: text("https://gitlab.com/api/v4/user/keys"),
        headers,
        body: export_request_body(title, key),
    };
    assert(r@.headers =~= gitlab_request(token@, title@, key@).headers);
    r
}

/// The request for a platform.
pub fn export_request(platform: ExportPlatformChoice, token: &str, title: &str, key: &str) -> (r:
    ExportRequest)
    ensures
        r@ == platform_request(platform, token@, title@, key@),
{
    match platform {
        ExportPlatformChoice::GitHub => export_key_to_github(token, title, key),
        ExportPlatformChoice::GitLab => export_key_to_gitlab(token, title, key),
    }
}

pub open spec fn platform_name(p: ExportPlatformChoice) -> Seq<char> {
    match p {
        ExportPlatformChoice::GitHub => "GitHub"@,
        ExportPlatformChoice::GitLab => "GitLab"@,
    }
}

/// The message shown for the outcome of an upload: success when the server answered
/// `201 Created`, otherwise the status and the body of the answer, or why the request failed.
pub open spec fn export_outcome(
    p: ExportPlatformChoice,
    reply: Result<(u16, Seq<char>, Seq<char>), Seq<char>>,
) -> Result<Seq<char>, Seq<char>> {
    match reply {
        Ok((status, status_text, body)) => if status == 201 {
            Ok("Key successfully added to "@ + platform_name(p) + "!"@)
        } else {
            Err(platform_name(p) + " API error ("@ + status_text + "): "@ + body)
        },
        Err(e) => Err("Request failed: "@ + e),
    }
}

pub open spec fn reply_view(reply: Result<HttpReply, String>) -> Result<
    (u16, Seq<char>, Seq<char>),
    Seq<char>,
> {
    match reply {
        Ok(r) => Ok((r.status, r.status_text@, r.body@)),
        Err(e) => Err(e@),
    }
}

fn platform_text(p: ExportPlatformChoice) -> (r: String)
    ensures
        r@ == platform_name(p),
{
    match p {
        ExportPlatformChoice::GitHub => text("GitHub"),
        ExportPlatformChoice::GitLab => text("GitLab"),
    }
}

/// The message for the outcome of an upload (see [`export_outcome`]).
pub fn export_response(platform: ExportPlatformChoice, reply: Result<HttpReply, String>) -> (r:
    Result<String, String>)
    ensures
        match r {
            Ok(m) => export_outcome(platform, reply_view(reply)) == Ok::<Seq<char>, Seq<char>>(m@),
            Err(m) => export_outcome(platform, reply_view(reply)) == Err::<Seq<char>, Seq<char>>(m@),
        },
{
    match reply {
        Ok(r) => {
            if r.status == 201 {
                let mut m = text("Key successfully added to ");
                m.append(platform_text(platform).as_str());
                m.append("!");
                Ok(m)
            } else {
                let mut m = platform_text(platform);
                m.append(" API error (");
                m.append(r.status_text.as_str());
                m.append("): ");
                m.append(r.body.as_str());
                Err(m)
            }
        },
        Err(e) => Err(prefixed("Request failed: ", e.as_str())),
    }
}

} // verus!
