//! The chat commands: the patterns they answer to, the per-user session store
//! and what each command sends and replies.

use vstd::prelude::*;
use vstd::string::*;

use crate::honeypot::{
    classified, ClientError, Exchange, FoundTalents, RecruiterSession, RecruiterSessionInfo,
    Request, Client, Talent,
};

verus! {

pub open spec fn mailto_prefix() -> Seq<char> {
    "<mailto:"@
}

pub open spec fn is_mailto_at(s: Seq<char>, i: int) -> bool {
    0 <= i && i + mailto_prefix().len() <= s.len() && s.subrange(i, i + mailto_prefix().len())
        == mailto_prefix()
}

pub open spec fn is_first_mailto(s: Seq<char>, i: int) -> bool {
    is_mailto_at(s, i) && forall|j: int| 0 <= j < i ==> !is_mailto_at(s, j)
}

/// The `email` group of the leftmost match of `<mailto:(?P<email>[^|]*)` in
/// `s`: what follows the first `<mailto:` up to the next `|` or the end.
pub open spec fn mailto_email_of(s: Seq<char>) -> Option<Seq<char>> {
    if exists|i: int| is_first_mailto(s, i) {
        let i = choose|i: int| is_first_mailto(s, i);
        let rest = s.subrange(i + mailto_prefix().len(), s.len() as int);
        Some(rest.take(crate::honeypot::first_stop(rest, '|')))
    } else {
        None
    }
}

/// The pattern that finds the address in the chat platform's mailto link.
pub open spec fn mailto_pattern() -> Seq<char> {
    "<mailto:(?P<email>[^|]*)"@
}

/// Relies on regex::Regex::new and Regex::captures: `pattern` compiles, and the
/// `email` group of its leftmost match, the group being greedy, is returned.
#[verifier::external_body]
fn capture_group(pattern: &str, group: &str, s: &str) -> (r: Option<String>)
    requires
        pattern@ == mailto_pattern(),
        group@ == "email"@,
    ensures
        r matches Some(e) ==> mailto_email_of(s@) == Some(e@),
        r is None ==> mailto_email_of(s@) is None,
{
    let re = regex::Regex::new(pattern).unwrap();
    re.captures(s).and_then(|c| c.name(group)).map(|m| m.as_str().to_string())
}

/// The address inside a chat platform mailto link.
fn strip_mailto(s: &str) -> (r: Option<String>)
    ensures
        r matches Some(e) ==> mailto_email_of(s@) == Some(e@),
        r is None ==> mailto_email_of(s@) is None,
{
    capture_group("<mailto:(?P<email>[^|]*)", "email", s)
}

/// The chat platform writes an address `e` as `<mailto:e|e>`; the address
/// comes back out of it unchanged.
pub proof fn law_mailto_round_trip(e: Seq<char>)
    requires
        e.len() > 0,
        forall|i: int| 0 <= i < e.len() ==> e[i] != '|',
    ensures
        mailto_email_of(mailto_prefix() + e + "|"@ + e + ">"@) == Some(e),
{
    reveal_strlit("<mailto:");
    reveal_strlit("|");
    reveal_strlit(">");
    let s = mailto_prefix() + e + "|"@ + e + ">"@;
    let n = mailto_prefix().len();
    assert(s.subrange(0, n as int) =~= mailto_prefix());
    assert(is_first_mailto(s, 0));
    let i = choose|i: int| is_first_mailto(s, i);
    assert(i == 0);
    let rest = s.subrange(n as int, s.len() as int);
    assert(rest =~= e + "|"@ + e + ">"@);
    assert(rest[e.len() as int] == '|');
    crate::honeypot::lemma_first_stop_unique(rest, '|', e.len() as int);
    assert(rest.take(e.len() as int) =~= e);
}

/// The live sessions, keyed by chat user id; one session per user.
#[derive(Debug)]
pub struct SessionStore {
    entries: Vec<(String, RecruiterSession)>,
}

pub open spec fn holds_key(es: Seq<(String, RecruiterSession)>, k: Seq<char>, i: int) -> bool {
    0 <= i < es.len() && es[i].0@ == k
}

pub open spec fn entries_map(es: Seq<(String, RecruiterSession)>) -> Map<Seq<char>, RecruiterSession> {
    Map::new(
        |k: Seq<char>| exists|i: int| holds_key(es, k, i),
        |k: Seq<char>| es[choose|i: int| holds_key(es, k, i)].1,
    )
}

pub open spec fn keys_unique(es: Seq<(String, RecruiterSession)>) -> bool {
    forall|i: int, j: int| 0 <= i < es.len() && 0 <= j < es.len() && i != j ==> es[i].0@ != es[j].0@
}

proof fn lemma_index_is_chosen(es: Seq<(String, RecruiterSession)>, k: Seq<char>, i: int)
    requires
        keys_unique(es),
        holds_key(es, k, i),
    ensures
        entries_map(es).contains_key(k),
        entries_map(es)[k] == es[i].1,
{
    let j = choose|j: int| holds_key(es, k, j);
    assert(holds_key(es, k, j));
}

/// Writing the entry `(k, v)` at index `at`, over an entry of key `k` or past
/// the end, stores `v` under `k` and changes no other key.
proof fn lemma_entry_stored(
    es0: Seq<(String, RecruiterSession)>,
    es: Seq<(String, RecruiterSession)>,
    k: Seq<char>,
    v: RecruiterSession,
    at: int,
)
    requires
        keys_unique(es0),
        keys_unique(es),
        holds_key(es, k, at),
        es[at].1 == v,
        at < es0.len() ==> es0[at].0@ == k && es.len() == es0.len(),
        at >= es0.len() ==> at == es0.len() && es.len() == es0.len() + 1,
        forall|j: int| 0 <= j < es0.len() && j != at ==> es[j] == es0[j],
    ensures
        entries_map(es) == entries_map(es0).insert(k, v),
{
    let m0 = entries_map(es0).insert(k, v);
    assert forall|q: Seq<char>| #[trigger] entries_map(es).contains_key(q) == m0.contains_key(q) by {
        if exists|j: int| holds_key(es0, q, j) {
            let j = choose|j: int| holds_key(es0, q, j);
            if j != at {
                assert(holds_key(es, q, j));
            }
        }
        if exists|j: int| holds_key(es, q, j) {
            let j = choose|j: int| holds_key(es, q, j);
            if j != at {
                assert(holds_key(es0, q, j));
            }
        }
    }
    assert forall|q: Seq<char>| #[trigger] entries_map(es).contains_key(q) implies entries_map(es)[q] == m0[q] by {
        let j = choose|j: int| holds_key(es, q, j);
        lemma_index_is_chosen(es, q, j);
        if q != k {
            assert(j != at);
            lemma_index_is_chosen(es0, q, j);
        }
    }
    assert(entries_map(es) =~= m0);
}

impl View for SessionStore {
    type V = Map<Seq<char>, RecruiterSession>;

    closed spec fn view(&self) -> Map<Seq<char>, RecruiterSession> {
        entries_map(self.entries@)
    }
}

impl SessionStore {
    /// One entry per user, each a well-formed session with a non-empty token.
    pub closed spec fn wf(&self) -> bool {
        &&& keys_unique(self.entries@)
        &&& forall|i: int|
            0 <= i < self.entries@.len() ==> (#[trigger] self.entries@[i]).1.wf()
                && self.entries@[i].1.info.token@.len() > 0
    }

    pub fn new() -> (r: SessionStore)
        ensures
            r.wf(),
            r@ == Map::<Seq<char>, RecruiterSession>::empty(),
    {
        let r = SessionStore { entries: Vec::new() };
        assert(r@ =~= Map::<Seq<char>, RecruiterSession>::empty());
        r
    }

    proof fn lemma_sessions_wf(&self, k: Seq<char>)
        requires
            self.wf(),
            self@.contains_key(k),
        ensures
            self@[k].wf(),
            self@[k].info.token@.len() > 0,
    {
        let i = choose|i: int| holds_key(self.entries@, k, i);
        lemma_index_is_chosen(self.entries@, k, i);
        assert(self.entries@[i].1.wf());
    }

    fn position(&self, user_id: &String) -> (r: Option<usize>)
        requires
            self.wf(),
        ensures
            r matches Some(i) ==> holds_key(self.entries@, user_id@, i as int),
            r is None ==> !self@.contains_key(user_id@),
    {
        let mut i: usize = 0;
        while i < self.entries.len()
            invariant
                i <= self.entries@.len(),
                forall|j: int| 0 <= j < i ==> self.entries@[j].0@ != user_id@,
            decreases self.entries@.len() - i,
        {
            if self.entries[i].0 == *user_id {
                return Some(i);
            }
            i = i + 1;
        }
        None
    }

    /// The session of `user_id`, if it has one.
    pub fn get(&self, user_id: &String) -> (r: Option<&RecruiterSession>)
        requires
            self.wf(),
        ensures
            r is Some <==> self@.contains_key(user_id@),
            r matches Some(s) ==> *s == self@[user_id@] && s.wf() && s.info.token@.len() > 0,
    {
        match self.position(user_id) {
            Some(i) => {
                proof {
                    lemma_index_is_chosen(self.entries@, user_id@, i as int);
                    self.lemma_sessions_wf(user_id@);
                }
                Some(&self.entries[i].1)
            },
            None => None,
        }
    }

    /// Stores the session of `user_id`, in place of any it had.
    pub fn insert(&mut self, user_id: String, session: RecruiterSession)
        requires
            old(self).wf(),
            session.wf(),
            session.info.token@.len() > 0,
        ensures
            final(self).wf(),
            final(self)@ == old(self)@.insert(user_id@, session),
    {
        let ghost k = user_id@;
        let ghost v = session;
        let ghost es0 = self.entries@;
        match self.position(&user_id) {
            Some(i) => {
                self.entries.set(i, (user_id, session));
                proof {
                    assert(keys_unique(self.entries@));
                    lemma_entry_stored(es0, self.entries@, k, v, i as int);
                }
            },
            None => {
                self.entries.push((user_id, session));
                proof {
                    let n = es0.len() as int;
                    assert forall|j: int| 0 <= j < n implies es0[j].0@ != k by {
                        if es0[j].0@ == k {
                            assert(holds_key(es0, k, j));
                        }
                    }
                    assert(keys_unique(self.entries@));
                    lemma_entry_stored(es0, self.entries@, k, v, n);
                }
            },
        }
    }
}

pub open spec fn digit_char(d: nat) -> char {
    if d == 0 { '0' } else if d == 1 { '1' } else if d == 2 { '2' } else if d == 3 { '3' }
    else if d == 4 { '4' } else if d == 5 { '5' } else if d == 6 { '6' } else if d == 7 { '7' }
    else if d == 8 { '8' } else { '9' }
}

/// The decimal digits of `n`, without leading zeros.
pub open spec fn decimal(n: nat) -> Seq<char>
    decreases n,
{
    if n < 10 {
        seq![digit_char(n)]
    } else {
        decimal(n / 10).push(digit_char(n % 10))
    }
}

/// The digit `d` as text.
fn digit_text(d: u64) -> (r: &'static str)
    requires
        d < 10,
    ensures
        r@ == seq![digit_char(d as nat)],
{
    proof {
        reveal_strlit("0");
        reveal_strlit("1");
        reveal_strlit("2");
        reveal_strlit("3");
        reveal_strlit("4");
        reveal_strlit("5");
        reveal_strlit("6");
        reveal_strlit("7");
        reveal_strlit("8");
        reveal_strlit("9");
    }
    let r = if d == 0 { "0" } else if d == 1 { "1" } else if d == 2 { "2" } else if d == 3 { "3" }
    else if d == 4 { "4" } else if d == 5 { "5" } else if d == 6 { "6" } else if d == 7 { "7" }
    else if d == 8 { "8" } else { "9" };
    assert(r@ =~= seq![digit_char(d as nat)]);
    r
}

/// `n` in decimal.
fn decimal_text(n: u64) -> (r: String)
    ensures
        r@ == decimal(n as nat),
    decreases n,
{
    if n < 10 {
        String::from_str(digit_text(n))
    } else {
        let mut r = decimal_text(n / 10);
        r.append(digit_text(n % 10));
        r
    }
}

/// The page of a talent under the API's base URL.
pub open spec fn talent_url(base_url: Seq<char>, id: u64) -> Seq<char> {
    base_url + "/company/talents/"@ + decimal(id as nat)
}

/// One talent as a reply shows it: its headline, if any, then its page.
pub open spec fn talent_entry(base_url: Seq<char>, t: Talent) -> Seq<char> {
    match t.headline {
        Some(h) => h@ + "\n"@ + talent_url(base_url, t.id) + "\n\n"@,
        None => talent_url(base_url, t.id) + "\n\n"@,
    }
}

/// The entries of the talents, in order, joined by a newline.
pub open spec fn talents_text(base_url: Seq<char>, ts: Seq<Talent>) -> Seq<char>
    decreases ts.len(),
{
    if ts.len() == 0 {
        Seq::empty()
    } else if ts.len() == 1 {
        talent_entry(base_url, ts[0])
    } else {
        talents_text(base_url, ts.drop_last()) + "\n"@ + talent_entry(base_url, ts.last())
    }
}

/// The reply to a search that found `found`.
pub fn format_talents(base_url: &str, found: &FoundTalents) -> (r: String)
    ensures
        r@ == talents_text(base_url@, found.talents@),
{
    let ts = &found.talents;
    let mut out = String::new();
    let mut i: usize = 0;
    while i < ts.len()
        invariant
            i <= ts@.len(),
            out@ == talents_text(base_url@, ts@.take(i as int)),
        decreases ts@.len() - i,
    {
        assert(ts@.take(i + 1).drop_last() == ts@.take(i as int));
        assert(ts@.take(i + 1).last() == ts@[i as int]);
        if i > 0 {
            out.append("\n");
        }
        let t = &ts[i];
        match &t.headline {
            Some(h) => {
                out.append(h.as_str());
                out.append("\n");
            },
            None => {},
        }
        out.append(base_url);
        out.append("/company/talents/");
        let id = decimal_text(t.id);
        out.append(id.as_str());
        out.append("\n\n");
        i = i + 1;
    }
    assert(ts@.take(ts@.len() as int) == ts@);
    out
}

pub open spec fn invalid_email_text() -> Seq<char> {
    "invalid email format"@
}

pub open spec fn missing_token_text() -> Seq<char> {
    "Error: the login returned no token"@
}

pub open spec fn hello_text(firstname: Seq<char>) -> Seq<char> {
    "Hello "@ + firstname + "!"@
}

pub open spec fn no_session_text() -> Seq<char> {
    "I can't do this if you don't sign in as recruiter :("@
}

/// The `login <email> <password>` command.
#[derive(Debug)]
pub struct SessionHandler;

impl SessionHandler {
    /// The login request for the command's arguments, or the error when the
    /// email argument holds no `<mailto:` address.
    pub fn request(url: &str, email: &str, password: &str) -> (r: Result<Request, ClientError>)
        ensures
            mailto_email_of(email@) is None <==> r is Err,
            r matches Err(e) ==> e is GenericError && e.message_view() == invalid_email_text(),
            r matches Ok(q) ==> (mailto_email_of(email@) matches Some(e) && {
                &&& q.method == crate::honeypot::Method::Post
                &&& q.url@ == url@ + crate::honeypot::login_path()
                &&& crate::honeypot::headers_view(q.headers@) == crate::honeypot::anonymous_headers()
                &&& q.body matches Some(b) && b@ == crate::honeypot::encode_pairs(
                    crate::honeypot::login_pairs(e, password@),
                )
            }),
    {
        match strip_mailto(email) {
            Some(address) => Ok(RecruiterSession::login_request(url, address.as_str(), password)),
            None => Err(ClientError::GenericError(String::from_str("invalid email format"))),
        }
    }

    /// Ends a login: on success with a token the user is greeted by first name
    /// and the new session replaces any the user had; on failure, or when no
    /// token came back, the store is left as it was and the reply is an error.
    pub fn complete(
        store: &mut SessionStore,
        user_id: &String,
        url: &str,
        response: Exchange<RecruiterSessionInfo>,
    ) -> (reply: String)
        requires
            old(store).wf(),
        ensures
            final(store).wf(),
            match classified(response) {
                Ok(info) => if info.token@.len() == 0 {
                    &&& final(store)@ == old(store)@
                    &&& reply@ == missing_token_text()
                } else {
                    &&& final(store)@ == old(store)@.insert(user_id@, final(store)@[user_id@])
                    &&& final(store)@[user_id@].info == info
                    &&& final(store)@[user_id@].client.base_url@ == url@
                    &&& final(store)@[user_id@].wf()
                    &&& reply@ == hello_text(info.user.firstname@)
                },
                Err(e) => {
                    &&& final(store)@ == old(store)@
                    &&& reply@ == e.display_view()
                },
            },
    {
        let client = Client::anonymous(url);
        match client.parse_response(response) {
            Ok(info) => {
                if info.token.as_str().is_empty() {
                    return String::from_str("Error: the login returned no token");
                }
                let session = RecruiterSession::new(url, info);
                let mut reply = String::from_str("Hello ");
                reply.append(session.info.user.firstname.as_str());
                reply.append("!");
                store.insert(user_id.clone(), session);
                reply
            },
            Err(e) => e.to_string(),
        }
    }
}

/// The `search <keywords>` command.
#[derive(Debug)]
pub struct FindTalentsHandler;

impl FindTalentsHandler {
    /// The search request of the user's session, or the reply to a user who
    /// has none or whose session's URL does not parse.
    pub fn request(store: &SessionStore, user_id: &String, keywords: &str) -> (r: Result<Request, String>)
        requires
            store.wf(),
        ensures
            !store@.contains_key(user_id@) ==> (r matches Err(m) && m@ == no_session_text()),
            store@.contains_key(user_id@) ==> ({
                let s = store@[user_id@];
                let url = crate::honeypot::get_url(
                    s.client.base_url@ + crate::honeypot::talents_path(),
                    "keywords="@ + crate::honeypot::form_encoded(keywords@),
                );
                match url {
                    Some(u) => r matches Ok(q) && q.method == crate::honeypot::Method::Get
                        && q.url@ == u && crate::honeypot::headers_view(q.headers@)
                        == crate::honeypot::authenticated_headers(s.info.token@) && q.body is None,
                    None => r matches Err(m) && m@ == "Error: "@ + crate::honeypot::invalid_url_text(),
                }
            }),
    {
        match store.get(user_id) {
            Some(session) => match session.find_talents(keywords) {
                Ok(q) => Ok(q),
                Err(e) => Err(e.to_string()),
            },
            None => Err(String::from_str("I can't do this if you don't sign in as recruiter :(")),
        }
    }

    /// The reply to a search sent to the API at `base_url`.
    pub fn complete(base_url: &str, response: Exchange<FoundTalents>) -> (reply: String)
        ensures
            match classified(response) {
                Ok(found) => reply@ == talents_text(base_url@, found.talents@),
                Err(e) => reply@ == e.display_view(),
            },
    {
        let client = Client::anonymous(base_url);
        match client.parse_response(response) {
            Ok(found) => format_talents(base_url, &found),
            Err(e) => e.to_string(),
        }
    }
}

/// Of two logins by one user, the later one's session is the one kept.
pub proof fn law_last_write_wins(
    store: Map<Seq<char>, RecruiterSession>,
    user_id: Seq<char>,
    first: RecruiterSession,
    second: RecruiterSession,
)
    ensures
        store.insert(user_id, first).insert(user_id, second)[user_id] == second,
        store.insert(user_id, first).insert(user_id, second) == store.insert(user_id, second),
{
    assert(store.insert(user_id, first).insert(user_id, second) =~= store.insert(user_id, second));
}

pub open spec fn greeting_reply_text() -> Seq<char> {
    "Hey <3"@
}

/// The patterns the bot answers to, in the order they are tried: login,
/// search, and a greeting addressed to `botname`.
pub fn patterns(botname: &str) -> (r: Vec<String>)
    ensures
        r@.len() == 3,
        r@[0]@ == "login (?P<email>[^\\s]*) (?P<password>.*)"@,
        r@[1]@ == "search (?P<keywords>.*)"@,
        r@[2]@ == "(hi|hey|hello|hallo) "@ + botname@,
{
    let mut r: Vec<String> = Vec::new();
    r.push(String::from_str("login (?P<email>[^\\s]*) (?P<password>.*)"));
    r.push(String::from_str("search (?P<keywords>.*)"));
    let mut greeting = String::from_str("(hi|hey|hello|hallo) ");
    greeting.append(botname);
    r.push(greeting);
    r
}

/// The answer to a greeting.
pub fn greeting_reply() -> (r: String)
    ensures
        r@ == greeting_reply_text(),
{
    String::from_str("Hey <3")
}

} // verus!
