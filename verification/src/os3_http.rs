//! The HTTP requests that are made of the OS3 service, and what is read of its
//! answers.

use crate::{cookies, json, text};
use crate::cookies::CookieJar;
use vstd::prelude::*;
use vstd::string::*;

verus! {

/// The address that all paths of the service are relative to.
pub const OS3_BASE: &'static str = "https://os3.rabbit.tech";

/// The origin that the requests give.
pub const OS3_ORIGIN: &'static str = "https://os3.rabbit.tech";

/// The user agent that the requests give.
pub const OS3_UA: &'static str =
    "Mozilla/5.0 (X11; Linux x86_64) AppleWebKit/537.36 Chrome/131.0 Safari/537.36";

/// A header of a request.
pub struct Header {
    pub name: String,
    pub value: String,
}

/// A request of the service, ready to be sent.
pub struct Os3Request {
    /// Whether it is a POST; else it is a GET.
    pub post: bool,
    pub url: String,
    pub headers: Vec<Header>,
    /// The token to authorise it with, if any.
    pub bearer: Option<String>,
    /// The JSON text to send, if any.
    pub body: Option<String>,
    /// After how many seconds to give up, if ever.
    pub timeout_secs: Option<u64>,
}

/// What a request holds.
pub struct RequestModel {
    pub post: bool,
    pub url: Seq<char>,
    pub headers: Seq<(Seq<char>, Seq<char>)>,
    pub bearer: Option<Seq<char>>,
    pub body: Option<Seq<char>>,
    pub timeout_secs: Option<u64>,
}

impl View for Os3Request {
    type V = RequestModel;

    open spec fn view(&self) -> RequestModel {
        RequestModel {
            post: self.post,
            url: self.url@,
            headers: self.headers@.map_values(|h: Header| (h.name@, h.value@)),
            bearer: text::view_of(self.bearer),
            body: text::view_of(self.body),
            timeout_secs: self.timeout_secs,
        }
    }
}

/// The headers that every request gives.
pub open spec fn common_headers() -> Seq<(Seq<char>, Seq<char>)> {
    seq![
        ("Origin"@, OS3_ORIGIN@),
        ("Referer"@, OS3_ORIGIN@ + "/"@),
        ("User-Agent"@, OS3_UA@),
    ]
}

/// The request of a login step: a POST of `body` if there is one, else a GET,
/// with the cookies of the login so far.
pub open spec fn login_request(
    path: Seq<char>,
    body: Option<Seq<char>>,
    jar: cookies::Cookies,
) -> RequestModel {
    let cookie = cookies::header_for(jar);
    let typed = if body is Some {
        common_headers().push(("Content-Type"@, "application/json"@))
    } else {
        common_headers()
    };
    RequestModel {
        post: body is Some,
        url: OS3_BASE@ + path,
        headers: if cookie.len() > 0 {
            typed.push(("Cookie"@, cookie))
        } else {
            typed
        },
        bearer: None,
        body,
        timeout_secs: None,
    }
}

fn header(name: &str, value: &str) -> (h: Header)
    ensures
        h.name@ == name@,
        h.value@ == value@,
{
    Header { name: name.to_owned(), value: value.to_owned() }
}

/// The headers that every request gives.
pub(crate) fn start_headers() -> (headers: Vec<Header>)
    ensures
        headers@.map_values(|h: Header| (h.name@, h.value@)) == common_headers(),
{
    let mut referer = OS3_ORIGIN.to_owned();
    referer.append("/");
    let mut headers: Vec<Header> = Vec::new();
    headers.push(header("Origin", OS3_ORIGIN));
    headers.push(header("Referer", referer.as_str()));
    headers.push(header("User-Agent", OS3_UA));
    proof {
        assert(headers@.map_values(|h: Header| (h.name@, h.value@)) =~= common_headers());
    }
    headers
}

/// Adds a header at the end.
pub(crate) fn add_header(headers: &mut Vec<Header>, name: &str, value: &str)
    ensures
        final(headers)@.map_values(|h: Header| (h.name@, h.value@)) == old(headers)@.map_values(
            |h: Header| (h.name@, h.value@),
        ).push((name@, value@)),
{
    let ghost before = headers@.map_values(|h: Header| (h.name@, h.value@));
    headers.push(header(name, value));
    proof {
        assert(headers@.map_values(|h: Header| (h.name@, h.value@)) =~= before.push(
            (name@, value@),
        ));
    }
}

/// `path` under the base address.
pub(crate) fn url_of(path: &str) -> (url: String)
    ensures
        url@ == OS3_BASE@ + path@,
{
    let mut url = OS3_BASE.to_owned();
    url.append(path);
    url
}

/// The request of a login step.
pub(crate) fn prepare_login_request(path: &str, body: Option<String>, jar: &CookieJar) -> (request:
    Os3Request)
    ensures
        request@ == login_request(path@, text::view_of(body), jar.cookies()),
{
    let mut headers = start_headers();
    let post = body.is_some();
    if post {
        add_header(&mut headers, "Content-Type", "application/json");
    }
    let cookie = cookies::cookie_header(jar);
    if !cookie.as_str().is_empty() {
        add_header(&mut headers, "Cookie", cookie.as_str());
    }
    Os3Request { post, url: url_of(path), headers, bearer: None, body, timeout_secs: None }
}

/// A POST of a JSON text, with the cookies of the login so far.
pub fn os3_post_json(path: &str, body: String, jar: &CookieJar) -> (request: Os3Request)
    ensures
        request@ == login_request(path@, Some(body@), jar.cookies()),
{
    prepare_login_request(path, Some(body), jar)
}

/// A GET, with the cookies of the login so far.
pub fn os3_get_json(path: &str, jar: &CookieJar) -> (request: Os3Request)
    ensures
        request@ == login_request(path@, None, jar.cookies()),
{
    prepare_login_request(path, None, jar)
}

/// An answer as it came over the wire.
pub struct Os3Answer {
    pub status: u16,
    /// The values of its `Set-Cookie` headers, in order.
    pub set_cookies: Vec<Vec<u8>>,
    pub body: String,
}

/// What is read of an answer: its status and some string members of its JSON
/// object.
pub struct Os3Reply {
    pub status: u16,
    pub next: Option<String>,
    pub error: Option<String>,
    pub access_token: Option<String>,
}

/// What an `Os3Reply` holds.
pub struct ReplyModel {
    pub status: u16,
    pub next: Option<Seq<char>>,
    pub error: Option<Seq<char>>,
    pub access_token: Option<Seq<char>>,
}

impl View for Os3Reply {
    type V = ReplyModel;

    open spec fn view(&self) -> ReplyModel {
        ReplyModel {
            status: self.status,
            next: text::view_of(self.next),
            error: text::view_of(self.error),
            access_token: text::view_of(self.access_token),
        }
    }
}

/// What a body with the given status says.
pub open spec fn reply_in(status: u16, body: Seq<char>) -> ReplyModel {
    ReplyModel {
        status,
        next: json::string_member(body, "next"@),
        error: json::string_member(body, "error"@),
        access_token: json::string_member(body, "accessToken"@),
    }
}

/// A reply, or why there is none.
pub open spec fn view_of_reply(reply: Result<Os3Reply, String>) -> Result<ReplyModel, Seq<char>> {
    match reply {
        Ok(r) => Ok(r@),
        Err(e) => Err(e@),
    }
}

/// What an answer says, or the failure to get one.
pub open spec fn received(answer: Result<Os3Answer, String>) -> Result<ReplyModel, Seq<char>> {
    match answer {
        Ok(a) => Ok(reply_in(a.status, a.body@)),
        Err(e) => Err("request failed: "@ + e@),
    }
}

/// The jar after an answer came in.
pub open spec fn jar_after(
    jar: cookies::Cookies,
    answer: Result<Os3Answer, String>,
) -> cookies::Cookies {
    match answer {
        Ok(a) => cookies::absorbed_all(jar, a.set_cookies@),
        Err(_) => jar,
    }
}

/// Reads an answer and takes over its cookies; a failure to get one is given
/// as the text of what went wrong.
pub fn receive(jar: &mut CookieJar, answer: Result<Os3Answer, String>) -> (reply: Result<
    Os3Reply,
    String,
>)
    ensures
        view_of_reply(reply) == received(answer),
        final(jar).cookies() == jar_after(old(jar).cookies(), answer),
        old(jar).wf() ==> final(jar).wf(),
{
    match answer {
        Ok(a) => {
            cookies::absorb_cookies(jar, &a.set_cookies);
            Ok(
                Os3Reply {
                    status: a.status,
                    next: json::read_string(a.body.as_str(), "next"),
                    error: json::read_string(a.body.as_str(), "error"),
                    access_token: json::read_string(a.body.as_str(), "accessToken"),
                },
            )
        },
        Err(e) => {
            let mut message = "request failed: ".to_owned();
            message.append(e.as_str());
            Err(message)
        },
    }
}

/// A request of a login step goes to its path under the OS3 address, is a POST
/// exactly if it has a body, carries that body as it is, and sends no token.
pub proof fn law_login_request_goes_where_it_should(
    path: Seq<char>,
    body: Option<Seq<char>>,
    jar: cookies::Cookies,
)
    ensures
        ({
            let request = login_request(path, body, jar);
            &&& request.url == "https://os3.rabbit.tech"@ + path
            &&& request.body == body
            &&& request.post <==> body is Some
            &&& request.bearer is None
            &&& request.timeout_secs is None
        }),
{
}

/// A request of a login step gives the origin, the referer and the user agent,
/// the type of its body if it has one, and the cookies of the login if there are
/// any; these headers and no others, in this order.
pub proof fn law_login_request_sends_the_cookies(
    path: Seq<char>,
    body: Option<Seq<char>>,
    jar: cookies::Cookies,
)
    ensures
        login_request(path, body, jar).headers == seq![
            ("Origin"@, "https://os3.rabbit.tech"@),
            ("Referer"@, "https://os3.rabbit.tech"@ + "/"@),
            (
                "User-Agent"@,
                "Mozilla/5.0 (X11; Linux x86_64) AppleWebKit/537.36 Chrome/131.0 Safari/537.36"@,
            ),
        ] + (if body is Some {
            seq![("Content-Type"@, "application/json"@)]
        } else {
            seq![]
        }) + (if cookies::header_for(jar).len() > 0 {
            seq![("Cookie"@, cookies::header_for(jar))]
        } else {
            seq![]
        }),
{
    let headers = login_request(path, body, jar).headers;
    assert(headers =~= common_headers() + (if body is Some {
        seq![("Content-Type"@, "application/json"@)]
    } else {
        seq![]
    }) + (if cookies::header_for(jar).len() > 0 {
        seq![("Cookie"@, cookies::header_for(jar))]
    } else {
        seq![]
    }));
}

/// An answer is read as it came: its status, and the string members `next`,
/// `error` and `accessToken` of its body; a failure says that the request
/// failed and why. Only an answer brings cookies.
pub proof fn law_answers_are_read_as_they_came(
    answer: Os3Answer,
    failure: String,
    jar: cookies::Cookies,
)
    ensures
        received(Ok(answer)) matches Ok(reply) && reply.status == answer.status && reply.next
            == json::string_member(answer.body@, "next"@) && reply.error == json::string_member(
            answer.body@,
            "error"@,
        ) && reply.access_token == json::string_member(answer.body@, "accessToken"@),
        received(Err(failure)) == Err::<ReplyModel, _>("request failed: "@ + failure@),
        jar_after(jar, Ok(answer)) == cookies::absorbed_all(jar, answer.set_cookies@),
        jar_after(jar, Err(failure)) == jar,
{
}

/// The views of requests and replies show every field as it is.
pub proof fn law_requests_and_replies_are_shown_as_they_are(
    request: Os3Request,
    reply: Os3Reply,
    failure: String,
)
    ensures
        request@.post == request.post,
        request@.url == request.url@,
        request@.timeout_secs == request.timeout_secs,
        request@.bearer == text::view_of(request.bearer),
        request@.body == text::view_of(request.body),
        request@.headers.len() == request.headers@.len(),
        forall|i: int|
            0 <= i < request.headers@.len() ==> #[trigger] request@.headers[i] == (
                request.headers@[i].name@,
                request.headers@[i].value@,
            ),
        reply@.status == reply.status,
        reply@.next == text::view_of(reply.next),
        reply@.error == text::view_of(reply.error),
        reply@.access_token == text::view_of(reply.access_token),
        view_of_reply(Ok(reply)) == Ok::<_, Seq<char>>(reply@),
        view_of_reply(Err(failure)) == Err::<ReplyModel, _>(failure@),
{
}

} // verus!
