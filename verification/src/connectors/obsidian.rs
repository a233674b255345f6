//! Obsidian connector, speaking to the vault through the Local REST API
//! plugin (HTTPS on 27124 with a self-signed certificate, or plain HTTP on
//! 27123 for loopback). This module decides what is requested and how the
//! answers are judged; the exchanges themselves happen in the application.

use vstd::prelude::*;
use vstd::utf8::{decode_utf8, encode_utf8, encode_utf8_decode_utf8, valid_utf8, valid_first_scalar, decode_first_scalar, pop_first_scalar, char_u32_cast};
use crate::encoding::{
    hex_digit, is_ascii_alnum, is_escaped_text, lemma_percent_round_trip, percent_decode_ascii,
    percent_encode_byte, percent_encode_bytes, percent_encode_text,
};
use crate::error::SolidSyncError;
use crate::httpmsg::{http_status_text, header_value_accepts, is_header_value_text, is_success_status, status_is_success, status_text};
use crate::text::{chars_of, push_char, has_char, lemma_split_join, lemma_split_nonempty, join_on, join_with, same_text, split_char, split_on, trim_start_char, trim_start_matching, views};
use crate::weburl::{parse_url, url_join, url_joined, url_parse_result, url_path_replaced, url_set_path, ParsedUrlView};

verus! {

/// How to reach the plugin.
#[derive(Debug, Clone)]
pub struct ObsidianConfig {
    /// e.g. `https://127.0.0.1:27124` (HTTPS, self-signed) or `http://127.0.0.1:27123`.
    pub base_url: String,
    pub api_key: String,
    /// Accept the plugin's self-signed TLS certificate. Only allowed for a
    /// loopback address, never for a remote URL.
    pub accept_invalid_certs: bool,
}

/// The plugin's answer to `GET /`.
#[derive(Debug, Clone)]
pub struct ObsidianStatus {
    pub authenticated: bool,
    pub service: String,
    /// The `versions` object, as JSON text.
    pub versions: String,
}

/// The plugin's answer to `GET /vault/`.
#[derive(Debug, Clone)]
pub struct VaultListing {
    pub files: Vec<String>,
}

/// File times and size of a note.
#[derive(Debug, Clone)]
pub struct NoteStat {
    pub ctime: Option<i64>,
    pub mtime: Option<i64>,
    pub size: Option<u64>,
}

/// A note as the plugin returns it in its structured form.
#[derive(Debug, Clone)]
pub struct NoteDetail {
    pub path: String,
    pub content: String,
    /// The frontmatter, as JSON text.
    pub frontmatter: String,
    pub tags: Vec<String>,
    pub stat: Option<NoteStat>,
}

/// What the frontend is told about the Obsidian connection.
#[derive(Debug, Clone)]
pub struct ObsidianConnectionSummary {
    pub base_url: String,
    pub authenticated: bool,
    pub service: String,
    /// The `versions` object, as JSON text.
    pub versions: String,
}

/// Seconds after which a request to the plugin is abandoned.
pub const REQUEST_TIMEOUT_SECS: u64 = 15;

/// The `Accept` header that asks for a note in structured form.
pub const NOTE_ACCEPT: &'static str = "application/vnd.olrapi.note+json";

/// A host that names this machine. The URL parser gives an IPv6 host in
/// brackets, so `[::1]` is how the IPv6 loopback address reaches the guard.
pub open spec fn is_loopback_host(h: Seq<char>) -> bool {
    h == "127.0.0.1"@ || h == "localhost"@ || h == "::1"@ || h == "[::1]"@
}

/// Whether a URL path ends in `/`, so that paths resolved against it are
/// appended to it.
pub open spec fn is_directory_path(p: Seq<char>) -> bool {
    p.len() > 0 && p.last() == '/'
}

/// The base URL a client resolves paths against: the parsed URL itself when
/// its path ends in `/`, else the URL with `/` added to its path, so that the
/// base's own path is kept and paths are appended to it.
pub open spec fn directory_base(u: ParsedUrlView) -> Result<Seq<char>, Seq<char>> {
    if is_directory_path(u.path) {
        Ok(u.serialization)
    } else {
        url_path_replaced(u.serialization, u.path.push('/'))
    }
}

/// The host a parsed URL names, the empty text when it names none.
pub open spec fn host_or_empty(h: Option<Seq<char>>) -> Seq<char> {
    match h {
        Some(x) => x,
        None => Seq::empty(),
    }
}

/// A validated connection to the plugin: the base URL (as serialized by the
/// URL parser, its path ending in `/`), the API key and whether self-signed certificates are accepted.
#[derive(Debug, Clone)]
pub struct ObsidianClient {
    pub base: String,
    pub api_key: String,
    pub accept_invalid_certs: bool,
}

/// The text of the refusal of a note path with a `.` or `..` segment.
pub open spec fn dot_segment_text() -> Seq<char> {
    "note path must not have `.` or `..` segments"@
}

/// The text of the loopback guard's refusal.
pub open spec fn loopback_only_text() -> Seq<char> {
    "accept_invalid_certs is only allowed for loopback addresses"@
}

impl ObsidianClient {
    /// Validates a configuration: the base URL must parse, and accepting
    /// invalid certificates is allowed only for a loopback host.
    pub fn new(config: ObsidianConfig) -> (r: Result<ObsidianClient, SolidSyncError>)
        ensures
            match url_parse_result(config.base_url@) {
                Err(e) => r matches Err(SolidSyncError::Url(m)) && m@ == e,
                Ok(u) => if config.accept_invalid_certs && !is_loopback_host(host_or_empty(u.host)) {
                    r matches Err(SolidSyncError::Other(m)) && m@ == loopback_only_text()
                } else {
                    match directory_base(u) {
                        Err(e) => r matches Err(SolidSyncError::Url(m)) && m@ == e,
                        Ok(b) => r matches Ok(c) && c.base@ == b && c.api_key@ == config.api_key@
                            && c.accept_invalid_certs == config.accept_invalid_certs,
                    }
                },
            },
    {
        let base = match parse_url(config.base_url.as_str()) {
            Ok(u) => u,
            Err(e) => return Err(SolidSyncError::Url(e)),
        };
        if config.accept_invalid_certs {
            let loopback = match &base.host {
                Some(h) => same_text(h.as_str(), "127.0.0.1") || same_text(h.as_str(), "localhost")
                    || same_text(h.as_str(), "::1") || same_text(h.as_str(), "[::1]"),
                None => {
                    proof {
                        reveal_strlit("127.0.0.1");
                        reveal_strlit("localhost");
                        reveal_strlit("::1");
                        reveal_strlit("[::1]");
                        assert("127.0.0.1"@.len() > 0 && "localhost"@.len() > 0 && "::1"@.len() > 0
                            && "[::1]"@.len() > 0);
                        assert(!is_loopback_host(host_or_empty(None)));
                    }
                    false
                },
            };
            if !loopback {
                return Err(
                    SolidSyncError::Other(
                        "accept_invalid_certs is only allowed for loopback addresses".to_owned(),
                    ),
                );
            }
        }
        let path = chars_of(base.path.as_str());
        let directory = path.len() > 0 && path[path.len() - 1] == '/';
        let dir_base = if directory {
            base.serialization
        } else {
            let mut p = base.path.clone();
            push_char(&mut p, '/');
            match url_set_path(base.serialization.as_str(), p.as_str()) {
                Ok(s) => s,
                Err(e) => return Err(SolidSyncError::Url(e)),
            }
        };
        Ok(ObsidianClient {
            base: dir_base,
            api_key: config.api_key,
            accept_invalid_certs: config.accept_invalid_certs,
        })
    }

    /// The `Authorization` header value, `Bearer <api key>`, left out when
    /// the key cannot stand in a header.
    pub fn authorization_header(&self) -> (r: Option<String>)
        ensures
            is_header_value_text("Bearer "@ + self.api_key@) ==> (r matches Some(h) && h@ == "Bearer "@
                + self.api_key@),
            !is_header_value_text("Bearer "@ + self.api_key@) ==> r is None,
    {
        let mut h = "Bearer ".to_owned();
        h.append(self.api_key.as_str());
        if header_value_accepts(h.as_str()) {
            Some(h)
        } else {
            None
        }
    }

    /// The URL of a path of the API, resolved against the base URL with the
    /// path's leading slashes removed; the base's path ends in `/`, so it is
    /// kept and the path appended to it.
    pub fn url(&self, path: &str) -> (r: Result<String, SolidSyncError>)
        ensures
            match url_joined(self.base@, trim_start_char(path@, '/')) {
                Ok(u) => r matches Ok(s) && s@ == u,
                Err(e) => r matches Err(SolidSyncError::Url(m)) && m@ == e,
            },
    {
        let trimmed = trim_start_matching(path, '/');
        match url_join(self.base.as_str(), trimmed.as_str()) {
            Ok(u) => Ok(u),
            Err(e) => Err(SolidSyncError::Url(e)),
        }
    }

    /// The URL of `GET /`, which confirms the plugin is up and the key accepted.
    pub fn status_url(&self) -> (r: Result<String, SolidSyncError>)
        ensures
            match url_joined(self.base@, trim_start_char("/"@, '/')) {
                Ok(u) => r matches Ok(s) && s@ == u,
                Err(e) => r matches Err(SolidSyncError::Url(m)) && m@ == e,
            },
    {
        self.url("/")
    }

    /// The URL of `GET /vault/`, which lists the files at the vault root
    /// (immediate children only).
    pub fn list_root_url(&self) -> (r: Result<String, SolidSyncError>)
        ensures
            match url_joined(self.base@, trim_start_char("/vault/"@, '/')) {
                Ok(u) => r matches Ok(s) && s@ == u,
                Err(e) => r matches Err(SolidSyncError::Url(m)) && m@ == e,
            },
    {
        self.url("/vault/")
    }

    /// The URL of `GET /vault/{path}` for a note, each path segment
    /// percent-encoded. A path with a `.` or `..` segment is refused: it would
    /// name something outside the note's place in the vault.
    pub fn note_url(&self, path: &str) -> (r: Result<String, SolidSyncError>)
        ensures
            has_dot_segment(path@) ==> (r matches Err(SolidSyncError::Other(m)) && m@
                == dot_segment_text()),
            !has_dot_segment(path@) ==> match url_joined(
                self.base@,
                trim_start_char("/vault/"@ + encoded_path(path@), '/'),
            ) {
                Ok(u) => r matches Ok(s) && s@ == u,
                Err(e) => r matches Err(SolidSyncError::Url(m)) && m@ == e,
            },
    {
        let segments = split_on(path, '/');
        let mut i: usize = 0;
        while i < segments.len()
            invariant
                i <= segments@.len(),
                views(segments@) == split_char(path@, '/'),
                forall|j: int| 0 <= j < i ==> !(views(segments@)[j] == "."@ || views(segments@)[j] == ".."@),
            decreases segments@.len() - i,
        {
            if same_text(segments[i].as_str(), ".") || same_text(segments[i].as_str(), "..") {
                assert(views(segments@)[i as int] == segments@[i as int]@);
                return Err(SolidSyncError::Other("note path must not have `.` or `..` segments".to_owned()));
            }
            assert(views(segments@)[i as int] == segments@[i as int]@);
            i = i + 1;
        }
        let mut p = "/vault/".to_owned();
        p.append(encode_path(path).as_str());
        self.url(p.as_str())
    }
}

/// A path with each `/`-separated segment percent-encoded (UTF-8, every byte
/// but ASCII letters and digits), the separators kept.
pub open spec fn encoded_path(path: Seq<char>) -> Seq<char> {
    join_with(split_char(path, '/').map_values(|seg: Seq<char>| percent_encode_bytes(encode_utf8(seg))), '/')
}

/// Percent-encodes each path segment while preserving `/` separators.
pub fn encode_path(path: &str) -> (r: String)
    ensures
        r@ == encoded_path(path@),
{
    let segments = split_on(path, '/');
    let mut encoded: Vec<String> = Vec::new();
    for i in 0..segments.len()
        invariant
            views(encoded@) == views(segments@).take(i as int).map_values(
                |seg: Seq<char>| percent_encode_bytes(encode_utf8(seg)),
            ),
    {
        let e = percent_encode_text(segments[i].as_str());
        let ghost before = views(encoded@);
        encoded.push(e);
        assert(views(encoded@) == before.push(e@));
        assert(views(segments@).take(i + 1) == views(segments@).take(i as int).push(segments@[i as int]@));
        assert(views(encoded@) =~= views(segments@).take(i + 1).map_values(
            |seg: Seq<char>| percent_encode_bytes(encode_utf8(seg)),
        ));
    }
    assert(views(segments@).take(segments@.len() as int) == views(segments@));
    join_on(&encoded, '/')
}

/// `"Obsidian {what} failed ({status}): {body}"`.
pub open spec fn obsidian_failure_text(what: Seq<char>, code: u16, body: Seq<char>) -> Seq<char> {
    "Obsidian "@ + what + " failed ("@ + http_status_text(code) + "): "@ + body
}

fn check_obsidian_status(what: &str, code: u16, body: &str) -> (r: Result<(), SolidSyncError>)
    requires
        100 <= code <= 999,
    ensures
        is_success_status(code) ==> r is Ok,
        !is_success_status(code) ==> (r matches Err(SolidSyncError::Other(m)) && m@
            == obsidian_failure_text(what@, code, body@)),
{
    if status_is_success(code) {
        Ok(())
    } else {
        let mut m = "Obsidian ".to_owned();
        m.append(what);
        m.append(" failed (");
        m.append(status_text(code).as_str());
        m.append("): ");
        m.append(body);
        Err(SolidSyncError::Other(m))
    }
}

/// Judges the status of the answer to `GET /`.
pub fn check_status_response(code: u16, body: &str) -> (r: Result<(), SolidSyncError>)
    requires
        100 <= code <= 999,
    ensures
        is_success_status(code) ==> r is Ok,
        !is_success_status(code) ==> (r matches Err(SolidSyncError::Other(m)) && m@
            == obsidian_failure_text("status check"@, code, body@)),
{
    check_obsidian_status("status check", code, body)
}

/// Judges the status of the answer to `GET /vault/`.
pub fn check_list_root_response(code: u16, body: &str) -> (r: Result<(), SolidSyncError>)
    requires
        100 <= code <= 999,
    ensures
        is_success_status(code) ==> r is Ok,
        !is_success_status(code) ==> (r matches Err(SolidSyncError::Other(m)) && m@
            == obsidian_failure_text("list root"@, code, body@)),
{
    check_obsidian_status("list root", code, body)
}

/// Judges the status of the answer to `GET /vault/{path}`.
pub fn check_get_note_response(code: u16, body: &str) -> (r: Result<(), SolidSyncError>)
    requires
        100 <= code <= 999,
    ensures
        is_success_status(code) ==> r is Ok,
        !is_success_status(code) ==> (r matches Err(SolidSyncError::Other(m)) && m@
            == obsidian_failure_text("get_note"@, code, body@)),
{
    check_obsidian_status("get_note", code, body)
}

/// The files of a vault listing.
pub fn listed_files(listing: VaultListing) -> (files: Vec<String>)
    ensures
        files == listing.files,
{
    listing.files
}

/// The text of the refusal when the API key is not accepted.
pub open spec fn key_refused_text() -> Seq<char> {
    "Obsidian plugin reached but API key is not accepted (authenticated=false)"@
}

/// The summary of a connection and the status the plugin reported.
pub open spec fn is_connection_summary(sum: ObsidianConnectionSummary, base_url: Seq<char>, status: ObsidianStatus) -> bool {
    &&& sum.base_url@ == base_url
    &&& sum.authenticated == status.authenticated
    &&& sum.service@ == status.service@
    &&& sum.versions@ == status.versions@
}

/// The summary of a connection, as the status command reports it.
pub fn connection_summary(config: &ObsidianConfig, status: ObsidianStatus) -> (sum: ObsidianConnectionSummary)
    ensures
        is_connection_summary(sum, config.base_url@, status),
{
    ObsidianConnectionSummary {
        base_url: config.base_url.clone(),
        authenticated: status.authenticated,
        service: status.service,
        versions: status.versions,
    }
}

/// Accepts a newly configured connection only when the plugin accepted the key.
pub fn configured_summary(config: &ObsidianConfig, status: ObsidianStatus) -> (r: Result<ObsidianConnectionSummary, SolidSyncError>)
    ensures
        status.authenticated ==> (r matches Ok(sum) && is_connection_summary(sum, config.base_url@, status)),
        !status.authenticated ==> (r matches Err(SolidSyncError::Other(m)) && m@ == key_refused_text()),
{
    if !status.authenticated {
        return Err(
            SolidSyncError::Other(
                "Obsidian plugin reached but API key is not accepted (authenticated=false)".to_owned(),
            ),
        );
    }
    Ok(connection_summary(config, status))
}

/// The configured connection, or the error that says there is none.
pub fn configured<T>(connection: Option<T>) -> (r: Result<T, SolidSyncError>)
    ensures
        match connection {
            Some(c) => r == Ok::<T, SolidSyncError>(c),
            None => r matches Err(SolidSyncError::Other(m)) && m@ == "Obsidian is not configured"@,
        },
{
    match connection {
        Some(c) => Ok(c),
        None => Err(SolidSyncError::Other("Obsidian is not configured".to_owned())),
    }
}

/// A character that needs no escaping in a URL path: an ASCII letter or digit,
/// `%` or `/`.
pub open spec fn is_path_safe_char(c: char) -> bool {
    ('A' <= c && c <= 'Z') || ('a' <= c && c <= 'z') || ('0' <= c && c <= '9') || c == '%' || c == '/'
}

proof fn lemma_percent_encoded_chars(bytes: Seq<u8>)
    ensures
        forall|i: int| 0 <= i < percent_encode_bytes(bytes).len() ==> {
            let c = #[trigger] percent_encode_bytes(bytes)[i];
            is_path_safe_char(c) && c != '/'
        },
    decreases bytes.len(),
{
    if bytes.len() > 0 {
        lemma_percent_encoded_chars(bytes.drop_first());
        let b = bytes[0];
        let head = percent_encode_byte(b);
        assert forall|i: int| 0 <= i < head.len() implies is_path_safe_char(#[trigger] head[i]) && head[i] != '/' by {
            if is_ascii_alnum(b) {
                assert(head[i] == b as char);
            } else {
                assert(b / 16 < 16 && b % 16 < 16);
                let hex = seq!['0', '1', '2', '3', '4', '5', '6', '7', '8', '9', 'A', 'B', 'C', 'D', 'E', 'F'];
                assert(forall|k: int| 0 <= k < 16 ==> is_path_safe_char(#[trigger] hex[k]) && hex[k] != '/');
                assert(hex_digit(b / 16) == hex[(b / 16) as int]);
                assert(hex_digit(b % 16) == hex[(b % 16) as int]);
            }
        }
        let rest = percent_encode_bytes(bytes.drop_first());
        assert(percent_encode_bytes(bytes) == head + rest);
        assert forall|i: int| 0 <= i < percent_encode_bytes(bytes).len() implies {
            let c = #[trigger] percent_encode_bytes(bytes)[i];
            is_path_safe_char(c) && c != '/'
        } by {
            if i < head.len() {
                assert(percent_encode_bytes(bytes)[i] == head[i]);
            } else {
                assert(percent_encode_bytes(bytes)[i] == rest[i - head.len()]);
            }
        }
    }
}

proof fn lemma_join_chars(parts: Seq<Seq<char>>, sep: char)
    requires
        is_path_safe_char(sep),
        forall|i: int, j: int| 0 <= i < parts.len() && 0 <= j < parts[i].len() ==> is_path_safe_char(#[trigger] parts[i][j]),
    ensures
        forall|k: int| 0 <= k < join_with(parts, sep).len() ==> is_path_safe_char(#[trigger] join_with(parts, sep)[k]),
    decreases parts.len(),
{
    if parts.len() > 1 {
        let d = parts.drop_last();
        assert forall|i: int, j: int| 0 <= i < d.len() && 0 <= j < d[i].len() implies is_path_safe_char(#[trigger] d[i][j]) by {
            assert(d[i] == parts[i]);
        }
        lemma_join_chars(d, sep);
        let front = join_with(d, sep).push(sep);
        let last = parts.last();
        assert forall|k: int| 0 <= k < join_with(parts, sep).len() implies is_path_safe_char(#[trigger] join_with(parts, sep)[k]) by {
            if k < front.len() {
                assert(join_with(parts, sep)[k] == front[k]);
                if k < join_with(d, sep).len() {
                    assert(front[k] == join_with(d, sep)[k]);
                }
            } else {
                assert(join_with(parts, sep)[k] == last[k - front.len()]);
                assert(parts[parts.len() - 1][k - front.len()] == last[k - front.len()]);
            }
        }
    } else if parts.len() == 1 {
        assert forall|k: int| 0 <= k < join_with(parts, sep).len() implies is_path_safe_char(#[trigger] join_with(parts, sep)[k]) by {
            assert(join_with(parts, sep)[k] == parts[0][k]);
        }
    }
}

/// Percent-encoding a path keeps its `/` separators: splitting the encoded
/// path on `/` gives exactly the encoded segments of the original path, and
/// every character of the result is an ASCII letter or digit, `%` or `/`.
pub proof fn lemma_encoded_path_keeps_segments(path: Seq<char>)
    ensures
        split_char(encoded_path(path), '/') == split_char(path, '/').map_values(
            |seg: Seq<char>| percent_encode_bytes(encode_utf8(seg)),
        ),
        forall|k: int| 0 <= k < encoded_path(path).len() ==> is_path_safe_char(#[trigger] encoded_path(path)[k]),
{
    let parts = split_char(path, '/').map_values(|seg: Seq<char>| percent_encode_bytes(encode_utf8(seg)));
    lemma_split_nonempty(path, '/', Seq::empty());
    assert forall|i: int| 0 <= i < parts.len() implies !has_char(#[trigger] parts[i], '/') && (forall|j: int| 0 <= j < parts[i].len() ==> is_path_safe_char(#[trigger] parts[i][j])) by {
        lemma_percent_encoded_chars(encode_utf8(split_char(path, '/')[i]));
        if has_char(parts[i], '/') {
            let j = choose|j: int| 0 <= j < parts[i].len() && parts[i][j] == '/';
            assert(parts[i][j] != '/');
        }
    }
    lemma_split_join(parts, '/');
    lemma_join_chars(parts, '/');
}

/// Encoding a note path can be undone segment by segment: the encoded path
/// has as many `/`-separated segments as the path, each made of letters,
/// digits and `%` escapes with two upper-case hex digits, and percent-decoding
/// a segment gives back the UTF-8 bytes of the path's segment.
pub proof fn lemma_encoded_path_decodes(path: Seq<char>)
    ensures
        split_char(encoded_path(path), '/').len() == split_char(path, '/').len(),
        forall|i: int| 0 <= i < split_char(path, '/').len() ==> {
            let e = #[trigger] split_char(encoded_path(path), '/')[i];
            &&& is_escaped_text(e)
            &&& percent_decode_ascii(e) == encode_utf8(split_char(path, '/')[i])
            &&& decode_utf8(percent_decode_ascii(e)) == split_char(path, '/')[i]
        },
{
    lemma_encoded_path_keeps_segments(path);
    assert forall|i: int| 0 <= i < split_char(path, '/').len() implies {
        let e = #[trigger] split_char(encoded_path(path), '/')[i];
        &&& is_escaped_text(e)
        &&& percent_decode_ascii(e) == encode_utf8(split_char(path, '/')[i])
        &&& decode_utf8(percent_decode_ascii(e)) == split_char(path, '/')[i]
    } by {
        let seg = split_char(path, '/')[i];
        lemma_percent_round_trip(encode_utf8(seg));
        encode_utf8_decode_utf8(seg);
    }
}


/// A path segment that URL resolution reads as "this directory": `.`, or
/// `%2e` in either case.
pub open spec fn is_single_dot_segment(e: Seq<char>) -> bool {
    e == "."@ || e == "%2e"@ || e == "%2E"@
}

/// A path segment that URL resolution reads as "the parent directory": two
/// single-dot forms one after the other.
pub open spec fn is_double_dot_segment(e: Seq<char>) -> bool {
    exists|k: int| 0 < k < e.len() && is_single_dot_segment(e.take(k)) && is_single_dot_segment(#[trigger] e.skip(k))
}

/// A path segment that URL resolution treats as a step, not as a name.
pub open spec fn is_dot_segment(e: Seq<char>) -> bool {
    is_single_dot_segment(e) || is_double_dot_segment(e)
}

proof fn lemma_single_dot_decodes(e: Seq<char>, rest: Seq<char>)
    requires
        is_single_dot_segment(e),
    ensures
        percent_decode_ascii(e + rest) == seq![46u8] + percent_decode_ascii(rest),
{
    reveal_strlit(".");
    reveal_strlit("%2e");
    reveal_strlit("%2E");
    let s = e + rest;
    if e == "."@ {
        assert(s[0] == '.');
        assert(s.skip(1) =~= rest);
    } else {
        assert(s[0] == '%' && (s[1] == '2') && (s[2] == 'e' || s[2] == 'E'));
        assert(s.skip(3) =~= rest);
    }
}

proof fn lemma_dot_segment_decodes(e: Seq<char>)
    requires
        is_dot_segment(e),
    ensures
        is_single_dot_segment(e) ==> percent_decode_ascii(e) == seq![46u8],
        !is_single_dot_segment(e) ==> percent_decode_ascii(e) == seq![46u8, 46u8],
{
    if is_single_dot_segment(e) {
        lemma_single_dot_decodes(e, Seq::empty());
        assert(e + Seq::<char>::empty() =~= e);
    } else {
        let k = choose|k: int| 0 < k < e.len() && is_single_dot_segment(e.take(k)) && is_single_dot_segment(#[trigger] e.skip(k));
        lemma_single_dot_decodes(e.skip(k), Seq::empty());
        assert(e.skip(k) + Seq::<char>::empty() =~= e.skip(k));
        lemma_single_dot_decodes(e.take(k), e.skip(k));
        assert(e.take(k) + e.skip(k) =~= e);
        assert(seq![46u8] + seq![46u8] =~= seq![46u8, 46u8]);
    }
}

proof fn lemma_utf8_of_dots(seg: Seq<char>)
    ensures
        encode_utf8(seg) == seq![46u8] ==> seg == "."@,
        encode_utf8(seg) == seq![46u8, 46u8] ==> seg == ".."@,
{
    reveal_strlit(".");
    reveal_strlit("..");
    encode_utf8_decode_utf8(seg);
    assert((46u8 & 0x7Fu8) == 46u8) by (bit_vector);
    char_u32_cast('.', 46);
    let one = seq![46u8];
    let two = seq![46u8, 46u8];
    assert(decode_first_scalar(one) == 46);
    assert(decode_first_scalar(two) == 46);
    assert(pop_first_scalar(one) =~= Seq::<u8>::empty());
    assert(pop_first_scalar(two) =~= one);
    assert(valid_utf8(Seq::<u8>::empty()));
    assert(valid_first_scalar(one));
    assert(valid_first_scalar(two));
    assert(valid_utf8(one));
    assert(valid_utf8(two));
    assert(decode_utf8(one) =~= seq![(46u32) as char] + decode_utf8(Seq::<u8>::empty()));
    assert(decode_utf8(one) =~= seq!['.']);
    assert(decode_utf8(two) =~= seq![(46u32) as char] + decode_utf8(one));
    assert(decode_utf8(two) =~= seq!['.', '.']);
}

/// A path with a `/`-separated segment that is `.` or `..`.
pub open spec fn has_dot_segment(path: Seq<char>) -> bool {
    exists|i: int| 0 <= i < split_char(path, '/').len() && (#[trigger] split_char(path, '/')[i] == "."@
        || split_char(path, '/')[i] == ".."@)
}

/// A note path without `.` or `..` segments is encoded without dot segments:
/// no segment of the encoded path is one that URL resolution would read as
/// a step, so the request stays where `/vault/` puts it.
pub proof fn lemma_note_path_stays_in_vault(path: Seq<char>)
    requires
        !has_dot_segment(path),
    ensures
        forall|i: int| 0 <= i < split_char(encoded_path(path), '/').len()
            ==> !is_dot_segment(#[trigger] split_char(encoded_path(path), '/')[i]),
{
    lemma_encoded_path_decodes(path);
    assert forall|i: int| 0 <= i < split_char(encoded_path(path), '/').len()
        implies !is_dot_segment(#[trigger] split_char(encoded_path(path), '/')[i]) by {
        let e = split_char(encoded_path(path), '/')[i];
        let seg = split_char(path, '/')[i];
        lemma_utf8_of_dots(seg);
        if is_dot_segment(e) {
            lemma_dot_segment_decodes(e);
            assert(!(seg == "."@ || seg == ".."@));
        }
    }
}

} // verus!
