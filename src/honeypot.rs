//! The recruiter API client: the records it exchanges, the requests it
//! builds and the way it classifies what comes back.

use vstd::prelude::*;
use vstd::string::*;

verus! {

/// A user as the recruiter API describes it.
#[derive(Debug)]
pub struct User {
    pub id: u32,
    pub email: String,
    pub firstname: String,
    pub lastname: String,
}

/// What a successful login returns: the user, its role and a secret token.
#[derive(Debug)]
pub struct RecruiterSessionInfo {
    pub user: User,
    pub role: String,
    pub token: String,
}

impl RecruiterSessionInfo {
    pub fn new(user: User, role: String, token: String) -> (r: RecruiterSessionInfo)
        ensures
            r.user == user,
            r.role == role,
            r.token == token,
    {
        RecruiterSessionInfo { user, role, token }
    }
}

/// One search hit.
#[derive(Debug)]
pub struct Talent {
    pub id: u64,
    pub headline: Option<String>,
}

/// The metadata of a search result.
#[derive(Debug)]
pub struct Meta {
    pub total: u64,
}

/// A search result: the talents in the order the API gave them.
#[derive(Debug)]
pub struct FoundTalents {
    pub talents: Vec<Talent>,
    pub meta: Meta,
}

/// The body of a 401 answer.
#[derive(Debug)]
pub struct ErrorResponse {
    pub error: String,
}

/// What can go wrong talking to the API; each variant carries its message.
#[derive(Debug)]
pub enum ClientError {
    HTTPError(String),
    IOError(String),
    JSONError(String),
    GenericError(String),
}

impl ClientError {
    pub open spec fn message_view(&self) -> Seq<char> {
        match self {
            ClientError::HTTPError(m) => m@,
            ClientError::IOError(m) => m@,
            ClientError::JSONError(m) => m@,
            ClientError::GenericError(m) => m@,
        }
    }

    /// The text shown to a chat user.
    pub open spec fn display_view(&self) -> Seq<char> {
        "Error: "@ + self.message_view()
    }

    pub fn to_string(&self) -> (r: String)
        ensures
            r@ == self.display_view(),
    {
        let m = match self {
            ClientError::HTTPError(m) => m,
            ClientError::IOError(m) => m,
            ClientError::JSONError(m) => m,
            ClientError::GenericError(m) => m,
        };
        let mut r = String::from_str("Error: ");
        r.append(m.as_str());
        r
    }
}

/// The application/x-www-form-urlencoded form of a string.
pub uninterp spec fn form_encoded(s: Seq<char>) -> Seq<char>;

/// The characters that form encoding leaves as they are.
pub open spec fn is_unreserved(c: char) -> bool {
    ('a' <= c && c <= 'z') || ('A' <= c && c <= 'Z') || ('0' <= c && c <= '9') || c == '*'
        || c == '-' || c == '.' || c == '_'
}

/// An uppercase hexadecimal digit.
pub open spec fn hex_digit(d: int) -> char {
    if d == 0 { '0' } else if d == 1 { '1' } else if d == 2 { '2' } else if d == 3 { '3' }
    else if d == 4 { '4' } else if d == 5 { '5' } else if d == 6 { '6' } else if d == 7 { '7' }
    else if d == 8 { '8' } else if d == 9 { '9' } else if d == 10 { 'A' } else if d == 11 { 'B' }
    else if d == 12 { 'C' } else if d == 13 { 'D' } else if d == 14 { 'E' } else { 'F' }
}

pub open spec fn is_ascii_text(s: Seq<char>) -> bool {
    forall|i: int| 0 <= i < s.len() ==> (#[trigger] s[i] as u32) < 128
}

/// The form encoding of one ASCII character: unreserved ones stay, a space
/// becomes `+`, any other becomes `%` and two uppercase hex digits.
pub open spec fn encode_ascii_char(c: char) -> Seq<char> {
    if is_unreserved(c) {
        seq![c]
    } else if c == ' ' {
        seq!['+']
    } else {
        seq!['%', hex_digit((c as u32 / 16) as int), hex_digit((c as u32 % 16) as int)]
    }
}

/// The form encoding of an ASCII string, character by character.
pub open spec fn encode_ascii(s: Seq<char>) -> Seq<char>
    decreases s.len(),
{
    if s.len() == 0 {
        Seq::empty()
    } else {
        encode_ascii(s.drop_last()) + encode_ascii_char(s.last())
    }
}

pub open spec fn all_unreserved(s: Seq<char>) -> bool {
    forall|i: int| 0 <= i < s.len() ==> is_unreserved(#[trigger] s[i])
}

/// A string of unreserved characters is ASCII, and its encoding character by
/// character is the string itself.
pub proof fn lemma_unreserved_unchanged(s: Seq<char>)
    requires
        all_unreserved(s),
    ensures
        is_ascii_text(s),
        encode_ascii(s) == s,
    decreases s.len(),
{
    if s.len() > 0 {
        assert(all_unreserved(s.drop_last()));
        lemma_unreserved_unchanged(s.drop_last());
        assert(is_unreserved(s[s.len() - 1]));
        assert(s.drop_last().push(s.last()) =~= s);
    }
}

/// Relies on form_urlencoded::byte_serialize (re-exported by url): the encoding
/// depends on the bytes alone, and an ASCII string is encoded character by
/// character as `encode_ascii_char` says.
#[verifier::external_body]
fn encode_component(s: &str) -> (r: String)
    ensures
        r@ == form_encoded(s@),
        is_ascii_text(s@) ==> r@ == encode_ascii(s@),
{
    url::form_urlencoded::byte_serialize(s.as_bytes()).collect()
}

/// What encoding the pairs showed of `form_encoded` on their ASCII keys and values.
pub open spec fn ascii_encodings_known(ps: Seq<(Seq<char>, Seq<char>)>) -> bool {
    forall|i: int|
        0 <= i < ps.len() ==> (is_ascii_text(#[trigger] ps[i].0) ==> form_encoded(ps[i].0)
            == encode_ascii(ps[i].0)) && (is_ascii_text(ps[i].1) ==> form_encoded(ps[i].1)
            == encode_ascii(ps[i].1))
}

/// `key=value` with both sides form encoded.
pub open spec fn encode_pair(p: (Seq<char>, Seq<char>)) -> Seq<char> {
    form_encoded(p.0) + "="@ + form_encoded(p.1)
}

/// The encoded pairs joined by `&`.
pub open spec fn encode_pairs(ps: Seq<(Seq<char>, Seq<char>)>) -> Seq<char>
    decreases ps.len(),
{
    if ps.len() == 0 {
        Seq::empty()
    } else if ps.len() == 1 {
        encode_pair(ps[0])
    } else {
        encode_pairs(ps.drop_last()) + "&"@ + encode_pair(ps.last())
    }
}

pub open spec fn pairs_view(ps: Seq<(String, String)>) -> Seq<(Seq<char>, Seq<char>)> {
    ps.map_values(|p: (String, String)| (p.0@, p.1@))
}

/// Encodes key/value pairs as a form body or a query string.
pub fn encode_form(pairs: &Vec<(String, String)>) -> (r: String)
    ensures
        r@ == encode_pairs(pairs_view(pairs@)),
        ascii_encodings_known(pairs_view(pairs@)),
{
    let mut out = String::new();
    let mut i: usize = 0;
    while i < pairs.len()
        invariant
            i <= pairs@.len(),
            out@ == encode_pairs(pairs_view(pairs@).take(i as int)),
            ascii_encodings_known(pairs_view(pairs@).take(i as int)),
        decreases pairs@.len() - i,
    {
        let ghost ps = pairs_view(pairs@);
        assert(ps.take(i + 1).drop_last() == ps.take(i as int));
        if i > 0 {
            out.append("&");
        }
        let k = encode_component(pairs[i].0.as_str());
        let v = encode_component(pairs[i].1.as_str());
        out.append(k.as_str());
        out.append("=");
        out.append(v.as_str());
        assert(ps.take(i + 1).last() == ps[i as int]);
        assert(ascii_encodings_known(ps.take(i + 1))) by {
            assert forall|j: int| 0 <= j < i + 1 implies #[trigger] ps.take(i + 1)[j] == ps.take(i as int).push(ps[i as int])[j] by {}
            assert(ps.take(i + 1) =~= ps.take(i as int).push(ps[i as int]));
        }
        i = i + 1;
    }
    assert(pairs_view(pairs@).take(pairs@.len() as int) == pairs_view(pairs@));
    out
}

/// One request header.
#[derive(Debug)]
pub struct Header {
    pub name: String,
    pub value: String,
}

impl View for Header {
    type V = (Seq<char>, Seq<char>);

    open spec fn view(&self) -> (Seq<char>, Seq<char>) {
        (self.name@, self.value@)
    }
}

pub open spec fn headers_view(hs: Seq<Header>) -> Seq<(Seq<char>, Seq<char>)> {
    hs.map_values(|h: Header| h@)
}

pub open spec fn content_type_name() -> Seq<char> {
    "Content-Type"@
}

pub open spec fn form_content_type() -> Seq<char> {
    "application/x-www-form-urlencoded; charset=utf-8"@
}

pub open spec fn authorization_name() -> Seq<char> {
    "Authorization"@
}

/// The value of the header that proves a login.
pub open spec fn authorization_value(token: Seq<char>) -> Seq<char> {
    "Token "@ + token
}

/// The headers of a client that has not logged in.
pub open spec fn anonymous_headers() -> Seq<(Seq<char>, Seq<char>)> {
    seq![(content_type_name(), form_content_type())]
}

/// The headers of a client that logged in with `token`.
pub open spec fn authenticated_headers(token: Seq<char>) -> Seq<(Seq<char>, Seq<char>)> {
    anonymous_headers().push((authorization_name(), authorization_value(token)))
}

pub open spec fn has_header(hs: Seq<(Seq<char>, Seq<char>)>, name: Seq<char>, value: Seq<char>) -> bool {
    exists|i: int| 0 <= i < hs.len() && #[trigger] hs[i] == (name, value)
}

pub open spec fn lacks_header(hs: Seq<(Seq<char>, Seq<char>)>, name: Seq<char>) -> bool {
    forall|i: int| 0 <= i < hs.len() ==> (#[trigger] hs[i]).0 != name
}

fn copy_headers(hs: &Vec<Header>) -> (r: Vec<Header>)
    ensures
        headers_view(r@) == headers_view(hs@),
{
    let mut r: Vec<Header> = Vec::new();
    let mut i: usize = 0;
    while i < hs.len()
        invariant
            i <= hs@.len(),
            r@.len() == i,
            headers_view(r@) == headers_view(hs@).take(i as int),
        decreases hs@.len() - i,
    {
        r.push(Header { name: hs[i].name.clone(), value: hs[i].value.clone() });
        assert(headers_view(r@) =~= headers_view(hs@).take(i + 1));
        i = i + 1;
    }
    assert(headers_view(hs@).take(hs@.len() as int) == headers_view(hs@));
    r
}

/// `k` is the index of the first `c` in `s`, or the length of `s` where it has none.
pub open spec fn is_first_stop(s: Seq<char>, c: char, k: int) -> bool {
    &&& 0 <= k <= s.len()
    &&& (k == s.len() || s[k] == c)
    &&& forall|j: int| 0 <= j < k ==> s[j] != c
}

/// The index of the first `c` in `s`, or its length where there is none.
pub open spec fn first_stop(s: Seq<char>, c: char) -> int {
    choose|k: int| is_first_stop(s, c, k)
}

pub proof fn lemma_first_stop_unique(s: Seq<char>, c: char, k: int)
    requires
        is_first_stop(s, c, k),
    ensures
        first_stop(s, c) == k,
{
    let k2 = first_stop(s, c);
    assert(is_first_stop(s, c, k2));
    if k2 < k {
        assert(s[k2] == c);
    } else if k < k2 {
        assert(s[k] == c);
    }
}

/// The two methods the client uses.
#[derive(Debug)]
pub enum Method {
    Post,
    Get,
}

/// A request ready to be sent: method, absolute URL, headers and form body.
#[derive(Debug)]
pub struct Request {
    pub method: Method,
    pub url: String,
    pub headers: Vec<Header>,
    pub body: Option<String>,
}

/// What the transport reports for one request. When an answer came, its body
/// is given decoded both as an error record and as the expected payload.
#[derive(Debug)]
pub enum Exchange<T> {
    TransportFailed(String),
    ReadFailed(String),
    Received { status: u16, as_error: Result<ErrorResponse, String>, as_payload: Result<T, String> },
}

/// The result that an exchange stands for.
pub open spec fn classified<T>(response: Exchange<T>) -> Result<T, ClientError> {
    match response {
        Exchange::TransportFailed(m) => Err(ClientError::HTTPError(m)),
        Exchange::ReadFailed(m) => Err(ClientError::IOError(m)),
        Exchange::Received { status, as_error, as_payload } => if status == 401 {
            match as_error {
                Ok(e) => Err(ClientError::GenericError(e.error)),
                Err(m) => Err(ClientError::JSONError(m)),
            }
        } else {
            match as_payload {
                Ok(t) => Ok(t),
                Err(m) => Err(ClientError::JSONError(m)),
            }
        },
    }
}

/// The longest URL text, with its query, that a GET builds.
pub const MAX_URL_CHARS: usize = 100000000;

/// The text of the URL `s` with its query replaced by `q`, where `s` parses.
pub uninterp spec fn url_with_query(s: Seq<char>, q: Seq<char>) -> Option<Seq<char>>;

/// Relies on url::Url::parse, Url::set_query and url's conversion of a Url into
/// a String: `s` read as an absolute URL, any query it had replaced by `q`.
/// The length bound keeps the URL's byte offsets within u32, where
/// set_query cannot panic.
#[verifier::external_body]
fn replace_query(s: &str, q: &str) -> (r: Option<String>)
    requires
        s@.len() + q@.len() <= MAX_URL_CHARS,
    ensures
        r matches Some(u) ==> url_with_query(s@, q@) == Some(u@),
        r is None ==> url_with_query(s@, q@) is None,
{
    match url::Url::parse(s) {
        Ok(mut u) => {
            u.set_query(Some(q));
            Some(u.into())
        },
        Err(_) => None,
    }
}

/// The URL a GET of `s` with query `q` goes to; none where `s` is no URL or
/// the whole is too long.
pub open spec fn get_url(s: Seq<char>, q: Seq<char>) -> Option<Seq<char>> {
    if s.len() + q.len() > MAX_URL_CHARS {
        None
    } else {
        url_with_query(s, q)
    }
}

pub open spec fn invalid_url_text() -> Seq<char> {
    "invalid URL"@
}

/// The request of a GET whose URL is `url`, or the error of one that has none.
pub open spec fn is_get_result(
    r: Result<Request, ClientError>,
    url: Option<Seq<char>>,
    headers: Seq<(Seq<char>, Seq<char>)>,
) -> bool {
    match url {
        Some(u) => r matches Ok(q) && q.method == Method::Get && q.url@ == u && headers_view(
            q.headers@,
        ) == headers && q.body is None,
        None => r matches Err(e) && e is HTTPError && e.message_view() == invalid_url_text(),
    }
}

fn url_query(s: &String, q: &String) -> (r: Option<String>)
    ensures
        r matches Some(u) ==> get_url(s@, q@) == Some(u@),
        r is None ==> get_url(s@, q@) is None,
{
    let n = s.as_str().unicode_len();
    let m = q.as_str().unicode_len();
    if n > MAX_URL_CHARS || m > MAX_URL_CHARS - n {
        None
    } else {
        replace_query(s.as_str(), q.as_str())
    }
}

/// A client of the API: a base URL and the headers sent with every request.
#[derive(Debug)]
pub struct Client {
    pub base_url: String,
    pub headers: Vec<Header>,
}

impl Client {
    pub open spec fn headers_view(&self) -> Seq<(Seq<char>, Seq<char>)> {
        headers_view(self.headers@)
    }

    /// A client that has not logged in: it sends the form content type only.
    pub fn anonymous(base_url: &str) -> (r: Client)
        ensures
            r.base_url@ == base_url@,
            r.headers_view() == anonymous_headers(),
    {
        let mut headers: Vec<Header> = Vec::new();
        headers.push(
            Header {
                name: String::from_str("Content-Type"),
                value: String::from_str("application/x-www-form-urlencoded; charset=utf-8"),
            },
        );
        assert(headers_view(headers@) == anonymous_headers());
        Client { base_url: String::from_str(base_url), headers }
    }

    /// The same client, with the login token added to its headers.
    pub fn authenticated(&self, token: &str) -> (r: Client)
        ensures
            r.base_url@ == self.base_url@,
            r.headers_view() == self.headers_view().push((authorization_name(), authorization_value(token@))),
    {
        let mut headers = copy_headers(&self.headers);
        let mut value = String::from_str("Token ");
        value.append(token);
        let ghost before = headers@;
        headers.push(Header { name: String::from_str("Authorization"), value });
        assert(headers_view(headers@) == headers_view(before).push((authorization_name(), authorization_value(token@))));
        Client { base_url: self.base_url.clone(), headers }
    }

    /// A POST of the pairs as a form body to `endpoint` under the base URL.
    pub fn post(&self, endpoint: &str, pairs: &Vec<(String, String)>) -> (r: Request)
        ensures
            r.method == Method::Post,
            r.url@ == self.base_url@ + endpoint@,
            headers_view(r.headers@) == self.headers_view(),
            r.body matches Some(b) && b@ == encode_pairs(pairs_view(pairs@)),
            ascii_encodings_known(pairs_view(pairs@)),
    {
        let mut url = self.base_url.clone();
        url.append(endpoint);
        let body = encode_form(pairs);
        Request { method: Method::Post, url, headers: copy_headers(&self.headers), body: Some(body) }
    }

    /// A GET of `endpoint` under the base URL, any query it had replaced by
    /// the pairs.
    pub fn get(&self, endpoint: &str, pairs: &Vec<(String, String)>) -> (r: Result<Request, ClientError>)
        ensures
            is_get_result(
                r,
                get_url(self.base_url@ + endpoint@, encode_pairs(pairs_view(pairs@))),
                self.headers_view(),
            ),
            ascii_encodings_known(pairs_view(pairs@)),
    {
        let mut url = self.base_url.clone();
        url.append(endpoint);
        let query = encode_form(pairs);
        match url_query(&url, &query) {
            Some(u) => Ok(Request { method: Method::Get, url: u, headers: copy_headers(&self.headers), body: None }),
            None => Err(ClientError::HTTPError(String::from_str("invalid URL"))),
        }
    }

    /// Turns what the transport reported into the payload or an error.
    pub fn parse_response<T>(&self, response: Exchange<T>) -> (r: Result<T, ClientError>)
        ensures
            r == classified(response),
    {
        match response {
            Exchange::TransportFailed(m) => Err(ClientError::HTTPError(m)),
            Exchange::ReadFailed(m) => Err(ClientError::IOError(m)),
            Exchange::Received { status, as_error, as_payload } => {
                if status == 401 {
                    match as_error {
                        Ok(e) => Err(ClientError::GenericError(e.error)),
                        Err(m) => Err(ClientError::JSONError(m)),
                    }
                } else {
                    match as_payload {
                        Ok(t) => Ok(t),
                        Err(m) => Err(ClientError::JSONError(m)),
                    }
                }
            },
        }
    }
}

pub open spec fn login_path() -> Seq<char> {
    "/api/v1/users/login"@
}

pub open spec fn talents_path() -> Seq<char> {
    "/api/v1/company/talents"@
}

/// The form fields of a login.
pub open spec fn login_pairs(email: Seq<char>, password: Seq<char>) -> Seq<(Seq<char>, Seq<char>)> {
    seq![("user[email]"@, email), ("user[password]"@, password)]
}

/// The query fields of a search.
pub open spec fn search_pairs(keywords: Seq<char>) -> Seq<(Seq<char>, Seq<char>)> {
    seq![("keywords"@, keywords)]
}

/// A logged-in user: what the login returned and a client that carries its token.
#[derive(Debug)]
pub struct RecruiterSession {
    pub info: RecruiterSessionInfo,
    pub client: Client,
}

impl RecruiterSession {
    /// The client sends the form content type and the session's token.
    pub open spec fn wf(&self) -> bool {
        self.client.headers_view() == authenticated_headers(self.info.token@)
    }

    /// The login request: the email and password posted as a form by a client
    /// without a token.
    pub fn login_request(url: &str, email: &str, password: &str) -> (r: Request)
        ensures
            r.method == Method::Post,
            r.url@ == url@ + login_path(),
            headers_view(r.headers@) == anonymous_headers(),
            r.body matches Some(b) && b@ == encode_pairs(login_pairs(email@, password@)),
            is_ascii_text(email@) ==> form_encoded(email@) == encode_ascii(email@),
            is_ascii_text(password@) ==> form_encoded(password@) == encode_ascii(password@),
    {
        let client = Client::anonymous(url);
        let mut pairs: Vec<(String, String)> = Vec::new();
        pairs.push((String::from_str("user[email]"), String::from_str(email)));
        pairs.push((String::from_str("user[password]"), String::from_str(password)));
        assert(pairs_view(pairs@) =~= login_pairs(email@, password@));
        let r = client.post("/api/v1/users/login", &pairs);
        assert(pairs_view(pairs@)[0].0 == "user[email]"@);
        assert(pairs_view(pairs@)[1].0 == "user[password]"@);
        r
    }

    /// The session that a successful login at `url` opens.
    pub fn new(url: &str, info: RecruiterSessionInfo) -> (r: RecruiterSession)
        ensures
            r.wf(),
            r.info == info,
            r.client.base_url@ == url@,
    {
        let anonymous = Client::anonymous(url);
        let client = anonymous.authenticated(info.token.as_str());
        RecruiterSession { info, client }
    }

    /// The search request for `keywords`, sent with the session's headers.
    pub fn find_talents(&self, keywords: &str) -> (r: Result<Request, ClientError>)
        ensures
            is_get_result(
                r,
                get_url(self.client.base_url@ + talents_path(), "keywords="@ + form_encoded(keywords@)),
                self.client.headers_view(),
            ),
            is_ascii_text(keywords@) ==> form_encoded(keywords@) == encode_ascii(keywords@),
    {
        let mut pairs: Vec<(String, String)> = Vec::new();
        pairs.push((String::from_str("keywords"), String::from_str(keywords)));
        assert(pairs_view(pairs@) =~= search_pairs(keywords@));
        let r = self.client.get("/api/v1/company/talents", &pairs);
        proof {
            reveal_strlit("keywords");
            reveal_strlit("keywords=");
            reveal_strlit("=");
            let key = "keywords"@;
            assert(all_unreserved(key));
            lemma_unreserved_unchanged(key);
            assert(search_pairs(keywords@)[0].0 == key);
            assert(form_encoded(key) == key);
            assert(encode_pairs(search_pairs(keywords@)) =~= "keywords="@ + form_encoded(keywords@));
        }
        r
    }
}

/// Every request of a logged-in session carries `Authorization: Token <t>`, with
/// `t` the token of its login, beside the form content type; a client that has
/// not logged in sends the content type and no `Authorization` header.
pub proof fn law_header_discipline(s: RecruiterSession)
    requires
        s.wf(),
    ensures
        has_header(s.client.headers_view(), authorization_name(), authorization_value(s.info.token@)),
        has_header(s.client.headers_view(), content_type_name(), form_content_type()),
        has_header(anonymous_headers(), content_type_name(), form_content_type()),
        lacks_header(anonymous_headers(), authorization_name()),
{
    reveal_strlit("Content-Type");
    reveal_strlit("Authorization");
    let hs = s.client.headers_view();
    assert(hs[1] == (authorization_name(), authorization_value(s.info.token@)));
    assert(hs[0] == (content_type_name(), form_content_type()));
    assert(anonymous_headers()[0] == (content_type_name(), form_content_type()));
    assert(content_type_name() != authorization_name()) by {
        assert(content_type_name().len() != authorization_name().len());
    }
}

/// The query of a GET with two pairs whose keys are plain (unreserved
/// characters) is `k1=v1&k2=v2` with the values form encoded; the encodings
/// known are those that every call of `get` states of its pairs.
pub proof fn law_get_query(k1: Seq<char>, v1: Seq<char>, k2: Seq<char>, v2: Seq<char>)
    requires
        all_unreserved(k1),
        all_unreserved(k2),
        ascii_encodings_known(seq![(k1, v1), (k2, v2)]),
    ensures
        encode_pairs(seq![(k1, v1), (k2, v2)]) == k1 + "="@ + form_encoded(v1) + "&"@ + k2 + "="@
            + form_encoded(v2),
{
    let ps = seq![(k1, v1), (k2, v2)];
    lemma_unreserved_unchanged(k1);
    lemma_unreserved_unchanged(k2);
    assert(ps[0].0 == k1 && ps[1].0 == k2);
    assert(ps.drop_last() =~= seq![(k1, v1)]);
    assert(encode_pairs(ps.drop_last()) == encode_pair((k1, v1)));
    assert(encode_pairs(ps) =~= k1 + "="@ + form_encoded(v1) + "&"@ + k2 + "="@ + form_encoded(v2));
}

/// An answer with status 401 whose body reads as an error record with message
/// `x` is the error `GenericError(x)`, whatever the payload decoding said.
pub proof fn law_unauthorized_is_generic<T>(x: ErrorResponse, as_payload: Result<T, String>)
    ensures
        classified(Exchange::Received { status: 401, as_error: Ok(x), as_payload })
            == Err::<T, ClientError>(ClientError::GenericError(x.error)),
{
}

} // verus!
