use bearbot::handlers::{format_talents, greeting_reply, patterns, FindTalentsHandler, SessionHandler, SessionStore};
use bearbot::honeypot::{
    encode_form, Client, ClientError, ErrorResponse, Exchange, FoundTalents, Header, Meta, Method,
    RecruiterSession, RecruiterSessionInfo, Talent, User,
};

const BASE: &str = "http://api.test";

fn info(firstname: &str, token: &str) -> RecruiterSessionInfo {
    RecruiterSessionInfo::new(
        User {
            id: 7,
            email: "a@b.co".to_string(),
            firstname: firstname.to_string(),
            lastname: "B".to_string(),
        },
        "recruiter".to_string(),
        token.to_string(),
    )
}

fn login_ok(firstname: &str, token: &str) -> Exchange<RecruiterSessionInfo> {
    Exchange::Received {
        status: 200,
        as_error: Err("missing field `error`".to_string()),
        as_payload: Ok(info(firstname, token)),
    }
}

fn header_pairs(hs: &[Header]) -> Vec<(String, String)> {
    hs.iter().map(|h| (h.name.clone(), h.value.clone())).collect()
}

fn pair(k: &str, v: &str) -> (String, String) {
    (k.to_string(), v.to_string())
}

#[test]
fn successful_login_greets_and_stores() {
    let request = SessionHandler::request(BASE, "<mailto:a@b.co|a@b.co>", "hunter2").unwrap();
    assert!(matches!(request.method, Method::Post));
    assert_eq!(request.url, "http://api.test/api/v1/users/login");
    assert_eq!(request.body.as_deref(), Some("user%5Bemail%5D=a%40b.co&user%5Bpassword%5D=hunter2"));
    let mut store = SessionStore::new();
    let user = "U1".to_string();
    let reply = SessionHandler::complete(&mut store, &user, BASE, login_ok("Ann", "tok"));
    assert_eq!(reply, "Hello Ann!");
    let session = store.get(&user).unwrap();
    assert_eq!(session.info.user.firstname, "Ann");
    assert_eq!(session.client.base_url, BASE);
}

#[test]
fn failed_login_reports_and_stores_nothing() {
    let mut store = SessionStore::new();
    let user = "U1".to_string();
    let response: Exchange<RecruiterSessionInfo> = Exchange::Received {
        status: 401,
        as_error: Ok(ErrorResponse { error: "invalid credentials".to_string() }),
        as_payload: Err("missing field `user`".to_string()),
    };
    let reply = SessionHandler::complete(&mut store, &user, BASE, response);
    assert!(reply.contains("invalid credentials"));
    assert!(store.get(&user).is_none());
}

#[test]
fn failed_login_keeps_previous_session() {
    let mut store = SessionStore::new();
    let user = "U1".to_string();
    SessionHandler::complete(&mut store, &user, BASE, login_ok("Ann", "tok"));
    let reply = SessionHandler::complete(&mut store, &user, BASE, Exchange::TransportFailed("refused".to_string()));
    assert_eq!(reply, "Error: refused");
    assert_eq!(store.get(&user).unwrap().info.token, "tok");
}

#[test]
fn second_login_replaces_first() {
    let mut store = SessionStore::new();
    let user = "U1".to_string();
    let other = "U2".to_string();
    SessionHandler::complete(&mut store, &user, BASE, login_ok("Ann", "first"));
    SessionHandler::complete(&mut store, &other, BASE, login_ok("Bob", "other"));
    SessionHandler::complete(&mut store, &user, BASE, login_ok("Ann", "second"));
    assert_eq!(store.get(&user).unwrap().info.token, "second");
    assert_eq!(store.get(&other).unwrap().info.token, "other");
}

#[test]
fn login_without_mailto_is_rejected() {
    match SessionHandler::request(BASE, "a@b.co", "pw") {
        Err(e) => {
            assert!(matches!(e, ClientError::GenericError(_)));
            assert_eq!(e.to_string(), "Error: invalid email format");
        }
        Ok(_) => panic!("accepted an email without mailto"),
    }
}

#[test]
fn search_without_session() {
    let store = SessionStore::new();
    let r = FindTalentsHandler::request(&store, &"U9".to_string(), "rust");
    assert_eq!(r.err().unwrap(), "I can't do this if you don't sign in as recruiter :(");
}

#[test]
fn search_with_session() {
    let mut store = SessionStore::new();
    let user = "U1".to_string();
    SessionHandler::complete(&mut store, &user, BASE, login_ok("Ann", "tok"));
    let request = FindTalentsHandler::request(&store, &user, "rust").unwrap();
    assert!(matches!(request.method, Method::Get));
    assert_eq!(request.url, "http://api.test/api/v1/company/talents?keywords=rust");
    assert!(request.body.is_none());
    assert!(header_pairs(&request.headers).contains(&pair("Authorization", "Token tok")));
    let found = FoundTalents {
        talents: vec![
            Talent { id: 1, headline: Some("Backend Eng".to_string()) },
            Talent { id: 2, headline: None },
        ],
        meta: Meta { total: 2 },
    };
    let response = Exchange::Received { status: 200, as_error: Err("no".to_string()), as_payload: Ok(found) };
    let reply = FindTalentsHandler::complete(BASE, response);
    assert_eq!(
        reply,
        "Backend Eng\nhttp://api.test/company/talents/1\n\n\nhttp://api.test/company/talents/2\n\n"
    );
}

#[test]
fn search_reply_of_nothing_is_empty() {
    let found = FoundTalents { talents: vec![], meta: Meta { total: 0 } };
    assert_eq!(format_talents(BASE, &found), "");
}

#[test]
fn talent_ids_print_in_decimal() {
    let found = FoundTalents {
        talents: vec![Talent { id: 18446744073709551615, headline: None }, Talent { id: 0, headline: None }],
        meta: Meta { total: 2 },
    };
    assert_eq!(
        format_talents("b", &found),
        "b/company/talents/18446744073709551615\n\n\nb/company/talents/0\n\n"
    );
}

#[test]
fn search_error_is_reported() {
    let response: Exchange<FoundTalents> = Exchange::Received {
        status: 200,
        as_error: Err("no".to_string()),
        as_payload: Err("expected value at line 1 column 1".to_string()),
    };
    assert_eq!(FindTalentsHandler::complete(BASE, response), "Error: expected value at line 1 column 1");
}

#[test]
fn greeting() {
    assert_eq!(greeting_reply(), "Hey <3");
    let p = patterns("bearbot");
    assert_eq!(p, vec![
        r"login (?P<email>[^\s]*) (?P<password>.*)".to_string(),
        r"search (?P<keywords>.*)".to_string(),
        "(hi|hey|hello|hallo) bearbot".to_string(),
    ]);
}

#[test]
fn mailto_is_stripped() {
    let request = SessionHandler::request(BASE, "<mailto:x.y@z.org|x.y@z.org>", "p").unwrap();
    assert_eq!(request.body.as_deref(), Some("user%5Bemail%5D=x.y%40z.org&user%5Bpassword%5D=p"));
}

#[test]
fn anonymous_client_headers() {
    let c = Client::anonymous(BASE);
    assert_eq!(
        header_pairs(&c.headers),
        vec![pair("Content-Type", "application/x-www-form-urlencoded; charset=utf-8")]
    );
    let s = RecruiterSession::new(BASE, info("Ann", "t0k"));
    assert_eq!(
        header_pairs(&s.client.headers),
        vec![
            pair("Content-Type", "application/x-www-form-urlencoded; charset=utf-8"),
            pair("Authorization", "Token t0k"),
        ]
    );
}

#[test]
fn get_replaces_query() {
    let c = Client::anonymous(BASE);
    let pairs = vec![pair("k1", "a b"), pair("k2", "x&y=z")];
    let r = c.get("/p?old=1", &pairs).unwrap();
    assert!(matches!(r.method, Method::Get));
    assert!(r.body.is_none());
    assert_eq!(r.url, "http://api.test/p?k1=a+b&k2=x%26y%3Dz");
    let r = c.get("/p", &pairs).unwrap();
    assert_eq!(r.url, "http://api.test/p?k1=a+b&k2=x%26y%3Dz");
}

#[test]
fn get_keeps_fragment_after_new_query() {
    let c = Client::anonymous(BASE);
    let r = c.get("/p?old=1#f", &vec![pair("a", "1")]).unwrap();
    assert_eq!(r.url, "http://api.test/p?a=1#f");
}

#[test]
fn get_on_a_base_that_is_no_url() {
    let c = Client::anonymous("not a url");
    match c.get("/p", &vec![pair("a", "1")]) {
        Err(e) => {
            assert!(matches!(e, ClientError::HTTPError(_)));
            assert_eq!(e.to_string(), "Error: invalid URL");
        }
        Ok(_) => panic!("built a request without a URL"),
    }
}

#[test]
fn search_with_session_whose_url_is_invalid() {
    let mut store = SessionStore::new();
    let user = "U1".to_string();
    SessionHandler::complete(&mut store, &user, "nowhere", login_ok("Ann", "tok"));
    let r = FindTalentsHandler::request(&store, &user, "rust");
    assert_eq!(r.err().unwrap(), "Error: invalid URL");
}

#[test]
fn login_with_empty_token_stores_nothing() {
    let mut store = SessionStore::new();
    let user = "U1".to_string();
    SessionHandler::complete(&mut store, &user, BASE, login_ok("Ann", "tok"));
    let reply = SessionHandler::complete(&mut store, &user, BASE, login_ok("Ann", ""));
    assert_eq!(reply, "Error: the login returned no token");
    assert_eq!(store.get(&user).unwrap().info.token, "tok");
    let other = "U2".to_string();
    SessionHandler::complete(&mut store, &other, BASE, login_ok("Bob", ""));
    assert!(store.get(&other).is_none());
}

#[test]
fn search_keywords_are_form_encoded() {
    let mut store = SessionStore::new();
    let user = "U1".to_string();
    SessionHandler::complete(&mut store, &user, BASE, login_ok("Ann", "tok"));
    let request = FindTalentsHandler::request(&store, &user, "rust & go").unwrap();
    assert_eq!(request.url, "http://api.test/api/v1/company/talents?keywords=rust+%26+go");
}

#[test]
fn post_encodes_body() {
    let c = Client::anonymous(BASE);
    let r = c.post("/p", &vec![pair("a", "1 2"), pair("b", "é")]);
    assert!(matches!(r.method, Method::Post));
    assert_eq!(r.url, "http://api.test/p");
    assert_eq!(r.body.as_deref(), Some("a=1+2&b=%C3%A9"));
    assert_eq!(encode_form(&vec![]), "");
}

#[test]
fn unauthorized_is_generic_error() {
    let c = Client::anonymous(BASE);
    let response: Exchange<FoundTalents> = Exchange::Received {
        status: 401,
        as_error: Ok(ErrorResponse { error: "x".to_string() }),
        as_payload: Err("missing field".to_string()),
    };
    match c.parse_response(response) {
        Err(ClientError::GenericError(m)) => assert_eq!(m, "x"),
        _ => panic!("401 not classified as GenericError"),
    }
}

#[test]
fn unauthorized_unreadable_is_json_error() {
    let c = Client::anonymous(BASE);
    let response: Exchange<FoundTalents> = Exchange::Received {
        status: 401,
        as_error: Err("expected value".to_string()),
        as_payload: Err("expected value".to_string()),
    };
    assert!(matches!(c.parse_response(response), Err(ClientError::JSONError(_))));
}

#[test]
fn transport_and_read_errors() {
    let c = Client::anonymous(BASE);
    let r: Result<FoundTalents, ClientError> = c.parse_response(Exchange::TransportFailed("dns".to_string()));
    assert!(matches!(r, Err(ClientError::HTTPError(_))));
    let r: Result<FoundTalents, ClientError> = c.parse_response(Exchange::ReadFailed("reset".to_string()));
    match r {
        Err(e) => {
            assert!(matches!(e, ClientError::IOError(_)));
            assert_eq!(e.to_string(), "Error: reset");
        }
        Ok(_) => panic!("read failure accepted"),
    }
}

#[test]
fn non_401_status_decodes_payload() {
    let c = Client::anonymous(BASE);
    let found = FoundTalents { talents: vec![], meta: Meta { total: 5 } };
    let response = Exchange::Received { status: 500, as_error: Err("no".to_string()), as_payload: Ok(found) };
    assert_eq!(c.parse_response(response).ok().unwrap().meta.total, 5);
}
