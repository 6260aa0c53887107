//! The head of a connection's request, and where the request goes.
use vstd::prelude::*;

use crate::brain::auth;
use crate::brain::config::Config;
use crate::buffer;
use crate::digest;
use crate::percent;
use crate::text;

verus! {

// ── The head ────────────────────────────────────────────────────────────────

/// A request's head: its first line, its headers, and how many bytes it took.
pub struct RequestHead {
    pub method: Option<String>,
    pub path: Option<String>,
    pub headers: Vec<(String, Vec<u8>)>,
    pub length: usize,
}

#[verifier::ext_equal]
pub struct HeadModel {
    pub method: Option<Seq<char>>,
    pub path: Option<Seq<char>>,
    pub headers: Seq<(Seq<char>, Seq<u8>)>,
    pub length: nat,
}

pub open spec fn header_models(s: Seq<(String, Vec<u8>)>) -> Seq<(Seq<char>, Seq<u8>)> {
    s.map_values(|h: (String, Vec<u8>)| (h.0@, h.1@))
}

impl View for RequestHead {
    type V = HeadModel;

    open spec fn view(&self) -> HeadModel {
        HeadModel {
            method: text::opt_text(self.method),
            path: text::opt_text(self.path),
            headers: header_models(self.headers@),
            length: self.length as nat,
        }
    }
}

pub open spec fn head_model(r: Result<Option<RequestHead>, ()>) -> Result<Option<HeadModel>, ()> {
    match r {
        Ok(Some(h)) => Ok(Some(h@)),
        Ok(None) => Ok(None),
        Err(_) => Err(()),
    }
}

/// What `httparse` reads at the start of a request: its head, nothing while that is not
/// complete, or an error.
pub uninterp spec fn request_head(b: Seq<u8>) -> Result<Option<HeadModel>, ()>;

/// `httparse::Request::parse` with room for 32 headers: a function of the bytes alone, which
/// reads no more bytes than there are.
#[verifier::external_body]
fn parse_request(buf: &[u8]) -> (r: Result<Option<RequestHead>, ()>)
    ensures
        head_model(r) == request_head(buf@),
        r matches Ok(Some(h)) ==> h.length <= buf@.len(),
{
    let mut slots = [httparse::EMPTY_HEADER; 32];
    let mut req = httparse::Request::new(&mut slots);
    match req.parse(buf) {
        Ok(httparse::Status::Complete(length)) => {
            let headers = req.headers.iter().map(|h| (h.name.to_string(), h.value.to_vec()));
            let headers = headers.collect();
            let method = req.method.map(|m| m.to_string());
            let path = req.path.map(|p| p.to_string());
            Ok(Some(RequestHead { method, path, headers, length }))
        },
        Ok(httparse::Status::Partial) => Ok(None),
        Err(_) => Err(()),
    }
}

/// Reads the head of a request, once all of it is there.
pub fn read_head(buf: &[u8]) -> (r: Result<Option<RequestHead>, ()>)
    ensures
        head_model(r) == request_head(buf@),
        r matches Ok(Some(h)) ==> h.length <= buf@.len(),
{
    parse_request(buf)
}

/// The start of a connection, as far as it has come.
pub struct HeadReader {
    buf: bytes::BytesMut,
}

impl View for HeadReader {
    type V = Seq<u8>;

    closed spec fn view(&self) -> Seq<u8> {
        buffer::buffer_bytes(self.buf)
    }
}

impl HeadReader {
    pub fn new() -> (r: HeadReader)
        ensures
            r@ == Seq::<u8>::empty(),
    {
        HeadReader { buf: bytes::BytesMut::new() }
    }

    /// Takes more bytes in, and reads the head once all of it is there.
    pub fn push(&mut self, chunk: &[u8]) -> (r: Result<Option<RequestHead>, ()>)
        ensures
            final(self)@ == old(self)@ + chunk@,
            head_model(r) == request_head(final(self)@),
            r matches Ok(Some(h)) ==> h.length <= final(self)@.len(),
    {
        self.buf.extend_from_slice(chunk);
        read_head(buffer::as_slice(&self.buf))
    }

    /// The start of the body: what has come behind the head.
    pub fn into_body(self, head_length: usize, content_length: usize) -> (r: BodyReader)
        requires
            head_length <= self@.len(),
        ensures
            r@ == self@.skip(head_length as int),
            r.wanted() == content_length,
    {
        let mut buf = self.buf;
        let _head = buf.split_to(head_length);
        BodyReader { buf, wanted: content_length }
    }
}

/// The body of a request, as far as it has come.
pub struct BodyReader {
    buf: bytes::BytesMut,
    wanted: usize,
}

impl View for BodyReader {
    type V = Seq<u8>;

    closed spec fn view(&self) -> Seq<u8> {
        buffer::buffer_bytes(self.buf)
    }
}

impl BodyReader {
    /// How many bytes the body has.
    pub closed spec fn wanted(&self) -> nat {
        self.wanted as nat
    }

    pub fn push(&mut self, chunk: &[u8])
        ensures
            final(self)@ == old(self)@ + chunk@,
            final(self).wanted() == old(self).wanted(),
    {
        self.buf.extend_from_slice(chunk);
    }

    /// The body, once all of it is there. What has come behind it is no part of it.
    pub fn body(&self) -> (r: Option<Vec<u8>>)
        ensures
            match r {
                Some(b) => self@.len() >= self.wanted() && b@ == self@.take(self.wanted() as int),
                None => self@.len() < self.wanted(),
            },
    {
        let bytes = buffer::as_slice(&self.buf);
        if bytes.len() < self.wanted {
            return None;
        }
        Some(buffer::copy_range(bytes, 0, self.wanted))
    }

    /// All that has come behind the head.
    pub fn everything(&self) -> (r: Vec<u8>)
        ensures
            r@ == self@,
    {
        let bytes = buffer::as_slice(&self.buf);
        let r = buffer::copy_range(bytes, 0, bytes.len());
        assert(r@ =~= self@);
        r
    }
}

// ── The request ─────────────────────────────────────────────────────────────

/// What matters of a request's head.
pub struct Incoming {
    pub method: String,
    pub path: String,
    pub content_length: usize,
    pub auth: Option<String>,
    pub ws_key: Option<String>,
    pub session_id: Option<String>,
    pub idempotency_key: Option<String>,
    /// Whether the client speaks the Anthropic protocol.
    pub is_anthropic: bool,
}

#[verifier::ext_equal]
pub struct IncomingModel {
    pub method: Seq<char>,
    pub path: Seq<char>,
    pub content_length: nat,
    pub auth: Option<Seq<char>>,
    pub ws_key: Option<Seq<char>>,
    pub session_id: Option<Seq<char>>,
    pub idempotency_key: Option<Seq<char>>,
    pub is_anthropic: bool,
}

impl View for Incoming {
    type V = IncomingModel;

    open spec fn view(&self) -> IncomingModel {
        IncomingModel {
            method: self.method@,
            path: self.path@,
            content_length: self.content_length as nat,
            auth: text::opt_text(self.auth),
            ws_key: text::opt_text(self.ws_key),
            session_id: text::opt_text(self.session_id),
            idempotency_key: text::opt_text(self.idempotency_key),
            is_anthropic: self.is_anthropic,
        }
    }
}

/// The text of a header, without blanks around it; none where it is not UTF-8.
pub open spec fn header_text(value: Seq<u8>) -> Option<Seq<char>> {
    if vstd::utf8::valid_utf8(value) {
        Some(text::trim(vstd::utf8::decode_utf8(value)))
    } else {
        None
    }
}

fn header_text_of(value: &Vec<u8>) -> (r: Option<String>)
    ensures
        text::opt_text(r) == header_text(value@),
{
    match text::utf8_text(text::dup_bytes(value)) {
        Some(s) => Some(text::trimmed(s.as_str())),
        None => None,
    }
}

/// The length that a header states; zero where it is no number.
pub open spec fn stated_length(t: Seq<char>) -> nat {
    match text::at_most(text::parse_unsigned(t), usize::MAX as nat) {
        Some(n) => n,
        None => 0,
    }
}

/// What a header changes. Of several that say the same thing the last one counts.
pub open spec fn with_header(r: IncomingModel, name: Seq<char>, value: Seq<u8>) -> IncomingModel {
    let n = text::to_ascii_lower(name);
    let v = header_text(value);
    if n == "content-length"@ {
        match v {
            Some(t) => IncomingModel { content_length: stated_length(t), ..r },
            None => r,
        }
    } else if n == "authorization"@ || n == "x-worker-token"@ {
        IncomingModel { auth: v, ..r }
    } else if n == "x-api-key"@ {
        IncomingModel { auth: v, is_anthropic: true, ..r }
    } else if n == "anthropic-version"@ {
        IncomingModel { is_anthropic: true, ..r }
    } else if n == "x-session-id"@ {
        IncomingModel { session_id: v, ..r }
    } else if n == "sec-websocket-key"@ {
        IncomingModel { ws_key: v, ..r }
    } else if n == "idempotency-key"@ {
        IncomingModel { idempotency_key: v, ..r }
    } else {
        r
    }
}

pub open spec fn with_headers(r: IncomingModel, headers: Seq<(Seq<char>, Seq<u8>)>) -> IncomingModel
    decreases headers.len(),
{
    if headers.len() == 0 {
        r
    } else {
        let h = headers.last();
        with_header(with_headers(r, headers.drop_last()), h.0, h.1)
    }
}

/// The path of a target: of an absolute one what follows the host.
pub open spec fn path_of_target(target: Seq<char>) -> Seq<char> {
    if text::starts_with(target, "http://"@) || text::starts_with(target, "https://"@) {
        match text::find(target, "://"@) {
            Some(i) => match text::find(target.skip(i + 3), "/"@) {
                Some(k) => target.skip(i + 3 + k),
                None => target,
            },
            None => target,
        }
    } else {
        target
    }
}

pub fn target_path(target: &str) -> (r: String)
    ensures
        r@ == path_of_target(target@),
{
    if text::has_prefix(target, "http://") || text::has_prefix(target, "https://") {
        let chars = text::chars_of(target);
        let sep = text::chars_of("://");
        proof {
            reveal_strlit("://");
            assert("://"@.len() == 3);
        }
        match text::find_chars(&chars, &sep, 0) {
            Some(i) => {
                let n: usize = chars.len();
                let rest = text::slice_text(&chars, i + 3, n);
                assert(rest@ =~= target@.skip(i + 3));
                let rest_chars = text::chars_of(rest.as_str());
                let slash = text::chars_of("/");
                match text::find_chars(&rest_chars, &slash, 0) {
                    Some(k) => {
                        let r = text::slice_text(&rest_chars, k, rest_chars.len());
                        assert(r@ =~= target@.skip(i + 3 + k));
                        return r;
                    },
                    None => {},
                }
            },
            None => {},
        }
    }
    text::owned(target)
}

/// The request that a head starts: its method and path, and what its headers say.
pub open spec fn incoming(head: HeadModel) -> IncomingModel {
    with_headers(
        IncomingModel {
            method: match head.method {
                Some(m) => m,
                None => "GET"@,
            },
            path: path_of_target(
                match head.path {
                    Some(p) => p,
                    None => "/"@,
                },
            ),
            content_length: 0,
            auth: None,
            ws_key: None,
            session_id: None,
            idempotency_key: None,
            is_anthropic: false,
        },
        head.headers,
    )
}

fn take_header(r: &mut Incoming, name: &str, value: &Vec<u8>)
    ensures
        final(r)@ == with_header(old(r)@, name@, value@),
{
    let n = text::lower_text(name);
    let v = header_text_of(value);
    if text::str_eq(n.as_str(), "content-length") {
        match v {
            Some(t) => {
                r.content_length = match text::number_of(t.as_str(), usize::MAX as u64) {
                    Some(n) => n as usize,
                    None => 0,
                };
            },
            None => {},
        }
    } else if text::str_eq(n.as_str(), "authorization") || text::str_eq(
        n.as_str(),
        "x-worker-token",
    ) {
        r.auth = v;
    } else if text::str_eq(n.as_str(), "x-api-key") {
        r.auth = v;
        r.is_anthropic = true;
    } else if text::str_eq(n.as_str(), "anthropic-version") {
        r.is_anthropic = true;
    } else if text::str_eq(n.as_str(), "x-session-id") {
        r.session_id = v;
    } else if text::str_eq(n.as_str(), "sec-websocket-key") {
        r.ws_key = v;
    } else if text::str_eq(n.as_str(), "idempotency-key") {
        r.idempotency_key = v;
    }
}

/// The request that a head starts.
pub fn incoming_of(head: &RequestHead) -> (r: Incoming)
    ensures
        r@ == incoming(head@),
{
    let method = match &head.method {
        Some(m) => m.clone(),
        None => text::owned("GET"),
    };
    let path = match &head.path {
        Some(p) => target_path(p.as_str()),
        None => target_path("/"),
    };
    let mut r = Incoming {
        method,
        path,
        content_length: 0,
        auth: None,
        ws_key: None,
        session_id: None,
        idempotency_key: None,
        is_anthropic: false,
    };
    let ghost start = r@;
    let ghost all = header_models(head.headers@);
    let mut i: usize = 0;
    assert(all.take(0) =~= seq![]);
    while i < head.headers.len()
        invariant
            i <= head.headers.len(),
            all == header_models(head.headers@),
            r@ == with_headers(start, all.take(i as int)),
        decreases head.headers.len() - i,
    {
        proof {
            assert(all.take(i + 1).drop_last() =~= all.take(i as int));
            let h = head.headers@[i as int];
            assert(all.take(i + 1).last() == (h.0@, h.1@));
        }
        take_header(&mut r, head.headers[i].0.as_str(), &head.headers[i].1);
        i = i + 1;
    }
    assert(all.take(all.len() as int) =~= all);
    r
}

// ── Workers ─────────────────────────────────────────────────────────────────

/// The key that answers a WebSocket key: Base64 of the SHA-1 of it and a fixed suffix.
pub open spec fn ws_accept(key: Seq<char>) -> Seq<char> {
    digest::base64_encoded(
        digest::sha1_digest(
            vstd::utf8::encode_utf8(key + "258EAFA5-E914-47DA-95CA-C5AB0DC85B11"@),
        ),
    )
}

pub fn compute_ws_accept(client_key: &str) -> (r: String)
    ensures
        r@ == ws_accept(client_key@),
{
    let salted = text::concat(client_key, "258EAFA5-E914-47DA-95CA-C5AB0DC85B11");
    let d = digest::sha1_of(salted.as_str().as_bytes());
    digest::base64_of(d.as_slice())
}

/// The value of the first `token` in a query.
pub open spec fn token_in(pairs: Seq<Seq<char>>) -> Option<Seq<char>>
    decreases pairs.len(),
{
    if pairs.len() == 0 {
        None
    } else {
        match text::strip_prefix(pairs[0], "token="@) {
            Some(t) => Some(t),
            None => token_in(pairs.skip(1)),
        }
    }
}

/// The token in the query of a path.
pub open spec fn query_token(path: Seq<char>) -> Option<Seq<char>> {
    match text::cut_at(path, '?') {
        Some((_, query)) => token_in(text::split(query, '&')),
        None => None,
    }
}

pub fn token_from_query(path: &str) -> (r: Option<String>)
    ensures
        text::opt_text(r) == query_token(path@),
{
    let query = match text::cut_text(path, '?') {
        Some((_, q)) => q,
        None => return None,
    };
    let pairs = text::split_text(query.as_str(), '&');
    let ghost all = text::texts(pairs@);
    let mut i: usize = 0;
    assert(all.skip(0) =~= all);
    while i < pairs.len()
        invariant
            i <= pairs.len(),
            all == text::texts(pairs@),
            query_token(path@) == token_in(all),
            token_in(all) == token_in(all.skip(i as int)),
        decreases pairs.len() - i,
    {
        assert(all.skip(i as int).skip(1) =~= all.skip(i + 1));
        assert(all.skip(i as int)[0] == pairs@[i as int]@);
        match text::cut_prefix(pairs[i].as_str(), "token=") {
            Some(t) => return Some(t),
            None => {},
        }
        i = i + 1;
    }
    None
}

/// What a worker that wants to connect is answered.
pub enum Upgrade {
    /// It may not, or did not ask properly: the answer.
    Refused(String),
    /// It may: the answer, after which the connection is a tunnel.
    Accepted(String),
}

#[verifier::ext_equal]
pub enum UpgradeModel {
    Refused(Seq<char>),
    Accepted(Seq<char>),
}

impl View for Upgrade {
    type V = UpgradeModel;

    open spec fn view(&self) -> UpgradeModel {
        match *self {
            Upgrade::Refused(t) => UpgradeModel::Refused(t@),
            Upgrade::Accepted(t) => UpgradeModel::Accepted(t@),
        }
    }
}

/// What a worker shows: the token in the query goes before the header.
pub open spec fn shown_token(r: IncomingModel) -> Option<Seq<char>> {
    match query_token(r.path) {
        Some(t) => Some(t),
        None => r.auth,
    }
}

pub open spec fn upgrade(r: IncomingModel, psk: Seq<char>) -> UpgradeModel {
    if !auth::worker_may_connect(shown_token(r), psk) {
        UpgradeModel::Refused("HTTP/1.1 401 Unauthorized\r\nContent-Length: 0\r\n\r\n"@)
    } else {
        match r.ws_key {
            None => UpgradeModel::Refused(
                "HTTP/1.1 400 Bad Request\r\nContent-Length: 0\r\n\r\n"@,
            ),
            Some(key) => UpgradeModel::Accepted(
                "HTTP/1.1 101 Switching Protocols\r\nUpgrade: websocket\r\nConnection: Upgrade\r\nSec-WebSocket-Accept: "@
                    + ws_accept(key) + "\r\n\r\n"@,
            ),
        }
    }
}

/// Decides on a worker that wants to connect.
pub fn upgrade_worker(r: &Incoming, cfg: &Config) -> (u: Upgrade)
    ensures
        u@ == upgrade(r@, cfg@.psk),
{
    let shown = match token_from_query(r.path.as_str()) {
        Some(t) => Some(t),
        None => text::dup_opt(&r.auth),
    };
    assert(text::opt_text(shown) =~= shown_token(r@));
    if !auth::worker_is_authorized(&shown, cfg) {
        return Upgrade::Refused(
            text::owned("HTTP/1.1 401 Unauthorized\r\nContent-Length: 0\r\n\r\n"),
        );
    }
    match &r.ws_key {
        None => Upgrade::Refused(
            text::owned("HTTP/1.1 400 Bad Request\r\nContent-Length: 0\r\n\r\n"),
        ),
        Some(key) => Upgrade::Accepted(
            text::concat3(
                "HTTP/1.1 101 Switching Protocols\r\nUpgrade: websocket\r\nConnection: Upgrade\r\nSec-WebSocket-Accept: ",
                compute_ws_accept(key.as_str()).as_str(),
                "\r\n\r\n",
            ),
        ),
    }
}

// ── Downloads ───────────────────────────────────────────────────────────────

/// A file name that stays in its directory.
pub open spec fn stays_inside(name: Seq<char>) -> bool {
    !text::contains(name, "/"@) && !text::contains(name, "\\"@) && !text::contains(name, ".."@)
}

/// What percent-encoding stands for, or the text itself where that is no text.
pub open spec fn is_decoded(s: Seq<char>, t: Seq<char>) -> bool {
    let bytes = percent::percent_decoded(vstd::utf8::encode_utf8(s));
    if vstd::utf8::valid_utf8(bytes) {
        vstd::utf8::encode_utf8(t) == bytes
    } else {
        t == s
    }
}

/// The name of the file that a path asks for, unless it would lead out of the directory.
pub fn download_name(path: &str) -> (r: Option<String>)
    ensures
        exists|name: Seq<char>|
            #[trigger] is_decoded(text::without_prefix(path@, "/v1/download/"@), name)
                && text::opt_text(r) == (if stays_inside(name) {
                Some(name)
            } else {
                None
            }),
{
    let encoded = text::drop_prefix(path, "/v1/download/");
    let name = match percent::url_decode(encoded.as_str()) {
        Some(t) => t,
        None => encoded.clone(),
    };
    proof {
        let bytes = percent::percent_decoded(vstd::utf8::encode_utf8(encoded@));
        if vstd::utf8::encode_utf8(name@) == bytes {
            vstd::utf8::encode_utf8_valid_utf8(name@);
        }
        assert(is_decoded(encoded@, name@));
    }
    if text::has_part(name.as_str(), "/") || text::has_part(name.as_str(), "\\") || text::has_part(
        name.as_str(),
        "..",
    ) {
        None
    } else {
        Some(name)
    }
}

/// The media type that `mime_guess` gives for a path.
pub uninterp spec fn media_type(path: Seq<char>) -> Seq<char>;

/// `mime_guess::from_path`, its first guess, or `application/octet-stream`: a function of the
/// path alone.
#[verifier::external_body]
fn guess_media_type(path: &str) -> (r: String)
    ensures
        r@ == media_type(path@),
{
    mime_guess::from_path(path).first_or_octet_stream().to_string()
}

/// The head in front of a file that is downloaded.
pub open spec fn download_head_text(media: Seq<char>, length: nat, name: Seq<char>) -> Seq<char> {
    "HTTP/1.1 200 OK\r\nContent-Type: "@ + media + "\r\nContent-Length: "@ + text::dec(length)
        + "\r\nContent-Disposition: attachment; filename=\""@ + name + "\"\r\n\r\n"@
}

/// The head in front of a file of this media type.
pub fn download_head_with(media: &str, length: u64, name: &str) -> (r: String)
    ensures
        r@ == download_head_text(media@, length as nat, name@),
{
    let mut out = text::concat3("HTTP/1.1 200 OK\r\nContent-Type: ", media, "\r\nContent-Length: ");
    out.append(text::decimal(length).as_str());
    out.append("\r\nContent-Disposition: attachment; filename=\"");
    out.append(name);
    out.append("\"\r\n\r\n");
    out
}

/// The head in front of a file.
pub fn download_head(file_path: &str, length: u64, name: &str) -> (r: String)
    ensures
        r@ == download_head_text(media_type(file_path@), length as nat, name@),
{
    let media = guess_media_type(file_path);
    download_head_with(media.as_str(), length, name)
}

// ── The administration pages ────────────────────────────────────────────────

/// The file of the administration pages that a path asks for.
pub open spec fn asset_file(path: Seq<char>) -> Seq<char> {
    let rest = if text::starts_with(path, "/brain/ui"@) {
        text::without_prefix(path, "/brain/ui"@)
    } else {
        text::without_prefix(path, "/v1/cc"@)
    };
    if rest.len() == 0 || rest == "/"@ {
        "index.html"@
    } else {
        text::without_prefix(rest, "/"@)
    }
}

pub fn asset_file_of(path: &str) -> (r: String)
    ensures
        r@ == asset_file(path@),
{
    let rest = if text::has_prefix(path, "/brain/ui") {
        text::drop_prefix(path, "/brain/ui")
    } else {
        text::drop_prefix(path, "/v1/cc")
    };
    if rest.as_str().is_empty() || text::str_eq(rest.as_str(), "/") {
        text::owned("index.html")
    } else {
        text::drop_prefix(rest.as_str(), "/")
    }
}

/// Whether a file that is not there is a page of the application, which its start page shows:
/// its name has no extension.
pub open spec fn is_page(file: Seq<char>) -> bool {
    !text::contains(file, "."@)
}

/// What is served for a file of the administration pages: the file, the start page in its
/// place, or nothing.
pub enum AssetChoice {
    /// The file, with its media type.
    File(String),
    /// The start page, with its media type.
    StartPage(String),
    Missing,
}

#[verifier::ext_equal]
pub enum AssetModel {
    File(Seq<char>),
    StartPage(Seq<char>),
    Missing,
}

impl View for AssetChoice {
    type V = AssetModel;

    open spec fn view(&self) -> AssetModel {
        match *self {
            AssetChoice::File(m) => AssetModel::File(m@),
            AssetChoice::StartPage(m) => AssetModel::StartPage(m@),
            AssetChoice::Missing => AssetModel::Missing,
        }
    }
}

pub open spec fn asset(file: Seq<char>, exists: bool, has_start_page: bool) -> AssetModel {
    if exists {
        AssetModel::File(media_type(file))
    } else if is_page(file) && has_start_page {
        AssetModel::StartPage("text/html"@)
    } else {
        AssetModel::Missing
    }
}

/// What is served for a file, given whether it and the start page are there.
pub fn choose_asset(file: &str, exists: bool, has_start_page: bool) -> (r: AssetChoice)
    ensures
        r@ == asset(file@, exists, has_start_page),
{
    if exists {
        AssetChoice::File(guess_media_type(file))
    } else if !text::has_part(file, ".") && has_start_page {
        AssetChoice::StartPage(text::owned("text/html"))
    } else {
        AssetChoice::Missing
    }
}

/// The head in front of a file of the administration pages.
pub fn asset_head(media: &str, length: u64) -> (r: String)
    ensures
        r@ == "HTTP/1.1 200 OK\r\nContent-Type: "@ + media@ + "\r\nContent-Length: "@ + text::dec(
            length as nat,
        ) + "\r\n\r\n"@,
{
    let mut out = text::concat3("HTTP/1.1 200 OK\r\nContent-Type: ", media, "\r\nContent-Length: ");
    out.append(text::decimal(length).as_str());
    out.append("\r\n\r\n");
    out
}

// ── Routes ──────────────────────────────────────────────────────────────────

/// Where a request goes before anything is looked up for it.
#[derive(Clone, Copy, PartialEq, Eq, Structural)]
pub enum FrontRoute {
    /// A browser asks what it may ask.
    Preflight,
    Metrics,
    Worker,
    /// Somewhere else; an answer that was kept for it goes first.
    Other,
}

/// Where a request goes that no answer was kept for.
#[derive(Clone, Copy, PartialEq, Eq, Structural)]
pub enum BackRoute {
    /// To the administration pages, by their proper path.
    PagesRedirect,
    /// To the administration pages; if the file is not there, on to [`BackRoute`] without them.
    Pages,
    Download,
    Management,
    Api,
    NotFound,
}

pub open spec fn front_route(r: IncomingModel, metrics_enabled: bool) -> FrontRoute {
    if r.method == "OPTIONS"@ {
        FrontRoute::Preflight
    } else if metrics_enabled && r.method == "GET"@ && r.path == "/metrics"@ {
        FrontRoute::Metrics
    } else if text::starts_with(r.path, "/worker"@) {
        FrontRoute::Worker
    } else {
        FrontRoute::Other
    }
}

pub fn front_route_of(r: &Incoming, cfg: &Config) -> (f: FrontRoute)
    ensures
        f == front_route(r@, cfg@.metrics_enabled),
{
    if text::str_eq(r.method.as_str(), "OPTIONS") {
        FrontRoute::Preflight
    } else if cfg.metrics_enabled && text::str_eq(r.method.as_str(), "GET") && text::str_eq(
        r.path.as_str(),
        "/metrics",
    ) {
        FrontRoute::Metrics
    } else if text::has_prefix(r.path.as_str(), "/worker") {
        FrontRoute::Worker
    } else {
        FrontRoute::Other
    }
}

/// Where a request goes; `pages` is false once the administration pages turned out not to have
/// the file.
pub open spec fn back_route(r: IncomingModel, pages: bool) -> BackRoute {
    let get = r.method == "GET"@;
    if get && (r.path == "/v1/cc"@ || r.path == "/brain/ui"@) {
        BackRoute::PagesRedirect
    } else if pages && get && (text::starts_with(r.path, "/v1/cc"@) || text::starts_with(
        r.path,
        "/brain/ui"@,
    )) {
        BackRoute::Pages
    } else if get && text::starts_with(r.path, "/v1/download/"@) {
        BackRoute::Download
    } else if text::starts_with(r.path, "/v1/api/"@) {
        BackRoute::Management
    } else if text::starts_with(r.path, "/v1/"@) {
        BackRoute::Api
    } else {
        BackRoute::NotFound
    }
}

pub fn back_route_of(r: &Incoming, pages: bool) -> (b: BackRoute)
    ensures
        b == back_route(r@, pages),
{
    let path = r.path.as_str();
    let get = text::str_eq(r.method.as_str(), "GET");
    if get && (text::str_eq(path, "/v1/cc") || text::str_eq(path, "/brain/ui")) {
        BackRoute::PagesRedirect
    } else if pages && get && (text::has_prefix(path, "/v1/cc") || text::has_prefix(
        path,
        "/brain/ui",
    )) {
        BackRoute::Pages
    } else if get && text::has_prefix(path, "/v1/download/") {
        BackRoute::Download
    } else if text::has_prefix(path, "/v1/api/") {
        BackRoute::Management
    } else if text::has_prefix(path, "/v1/") {
        BackRoute::Api
    } else {
        BackRoute::NotFound
    }
}

/// The answer to a browser that asks what it may ask.
pub fn preflight_answer() -> (r: String)
    ensures
        r@ == "HTTP/1.1 204 No Content\r\nAccess-Control-Allow-Origin: *\r\nAccess-Control-Allow-Methods: POST, GET, OPTIONS, DELETE, PUT\r\nAccess-Control-Allow-Headers: Content-Type, Authorization, x-worker-token, x-session-id, Idempotency-Key, x-api-key, anthropic-version\r\nAccess-Control-Max-Age: 86400\r\n\r\n"@,
{
    text::owned(
        "HTTP/1.1 204 No Content\r\nAccess-Control-Allow-Origin: *\r\nAccess-Control-Allow-Methods: POST, GET, OPTIONS, DELETE, PUT\r\nAccess-Control-Allow-Headers: Content-Type, Authorization, x-worker-token, x-session-id, Idempotency-Key, x-api-key, anthropic-version\r\nAccess-Control-Max-Age: 86400\r\n\r\n",
    )
}

/// The answer that sends a browser to the proper path of the administration pages.
pub fn redirect_answer(path: &str) -> (r: String)
    ensures
        r@ == "HTTP/1.1 301 Moved Permanently\r\nLocation: "@ + path@
            + "/\r\nContent-Length: 0\r\n\r\n"@,
{
    text::concat3(
        "HTTP/1.1 301 Moved Permanently\r\nLocation: ",
        path,
        "/\r\nContent-Length: 0\r\n\r\n",
    )
}

// ── Kept answers ────────────────────────────────────────────────────────────

pub open spec fn kept_reason(status: u16) -> Seq<char> {
    if status == 200 {
        "OK"@
    } else if status == 400 {
        "Bad Request"@
    } else if status == 401 {
        "Unauthorized"@
    } else if status == 403 {
        "Forbidden"@
    } else if status == 404 {
        "Not Found"@
    } else if status == 429 {
        "Too Many Requests"@
    } else if status == 503 {
        "Service Unavailable"@
    } else {
        "Internal Server Error"@
    }
}

fn kept_reason_of(status: u16) -> (r: &'static str)
    ensures
        r@ == kept_reason(status),
{
    if status == 200 {
        "OK"
    } else if status == 400 {
        "Bad Request"
    } else if status == 401 {
        "Unauthorized"
    } else if status == 403 {
        "Forbidden"
    } else if status == 404 {
        "Not Found"
    } else if status == 429 {
        "Too Many Requests"
    } else if status == 503 {
        "Service Unavailable"
    } else {
        "Internal Server Error"
    }
}

/// The head in front of an answer that was kept.
pub open spec fn replay_head(
    status: u16,
    reason: Seq<char>,
    content_type: Seq<char>,
    length: u64,
) -> Seq<char> {
    "HTTP/1.1 "@ + text::dec(status as nat) + " "@ + reason + "\r\nContent-Type: "@ + content_type
        + "\r\nContent-Length: "@ + text::dec(length as nat) + "\r\n\r\n"@
}

/// The head in front of an answer that was kept in the database for a repeated request.
pub fn kept_head(status: u16, content_type: &str, length: u64) -> (r: String)
    ensures
        r@ == replay_head(status, kept_reason(status), content_type@, length),
{
    replay_head_of(status, kept_reason_of(status), content_type, length)
}

/// The head in front of an answer that was kept in memory for a repeated request: too many
/// requests have no words of their own there.
pub fn cached_head(status: u16, content_type: &str, length: u64) -> (r: String)
    ensures
        r@ == replay_head(
            status,
            if status == 429 {
                "Internal Server Error"@
            } else {
                kept_reason(status)
            },
            content_type@,
            length,
        ),
{
    let reason = if status == 429 {
        "Internal Server Error"
    } else {
        kept_reason_of(status)
    };
    replay_head_of(status, reason, content_type, length)
}

fn replay_head_of(status: u16, reason: &str, content_type: &str, length: u64) -> (r: String)
    ensures
        r@ == replay_head(status, reason@, content_type@, length),
{
    let mut out = text::concat3("HTTP/1.1 ", text::decimal(status as u64).as_str(), " ");
    out.append(reason);
    out.append("\r\nContent-Type: ");
    out.append(content_type);
    out.append("\r\nContent-Length: ");
    out.append(text::decimal(length).as_str());
    out.append("\r\n\r\n");
    out
}

// ── Laws ────────────────────────────────────────────────────────────────────

/// A worker without the shared key is refused, whatever else it shows.
pub proof fn stranger_is_refused(r: IncomingModel, psk: Seq<char>)
    requires
        shown_token(r) is None,
    ensures
        upgrade(r, psk) is Refused,
{
}

/// The names of headers are read in either case.
pub proof fn header_case_does_not_matter(r: IncomingModel, a: Seq<char>, b: Seq<char>, v: Seq<u8>)
    requires
        text::to_ascii_lower(a) == text::to_ascii_lower(b),
    ensures
        with_header(r, a, v) == with_header(r, b, v),
{
}

/// Only what starts with `/v1/` reaches the API, and nothing of it that starts with `/v1/api/`.
pub proof fn api_has_its_paths(r: IncomingModel, pages: bool)
    requires
        back_route(r, pages) == BackRoute::Api,
    ensures
        text::starts_with(r.path, "/v1/"@),
        !text::starts_with(r.path, "/v1/api/"@),
{
}

} // verus!
