//! The submission client: what one save request for one URL looks like.
//!
//! A [`Client`] holds the settings and the credential pair of a run and
//! describes the request for a URL as plain data. Sending it is left to the
//! caller.

use vstd::prelude::*;
use vstd::string::*;

verus! {

/// Name and value of a header or of a form field.
pub type Pair = (Seq<char>, Seq<char>);

/// The save endpoint of the public service.
pub const API_URL: &'static str = "https://web.archive.org/save";

/// The name under which requests are sent to the public service.
pub const API_USER_AGENT: &'static str =
    "Mozilla/5.0 (Windows NT 10.0; Win64; x64) AppleWebKit/537.36 (KHTML, like Gecko) Chrome/125.0.0.0 Safari/537.36";

/// Where requests go and how the sender names itself.
#[derive(Debug, PartialEq, Eq)]
pub struct Settings {
    pub endpoint: String,
    pub user_agent: String,
}

/// Settings as plain text.
pub struct SettingsView {
    pub endpoint: Seq<char>,
    pub user_agent: Seq<char>,
}

impl View for Settings {
    type V = SettingsView;

    open spec fn view(&self) -> SettingsView {
        SettingsView { endpoint: self.endpoint@, user_agent: self.user_agent@ }
    }
}

/// The settings of the public save service.
pub open spec fn standard_settings() -> SettingsView {
    SettingsView { endpoint: API_URL@, user_agent: API_USER_AGENT@ }
}

impl Settings {
    /// The settings of the public save service.
    pub fn standard() -> (settings: Settings)
        ensures
            settings@ == standard_settings(),
    {
        Settings {
            endpoint: String::from_str(API_URL),
            user_agent: String::from_str(API_USER_AGENT),
        }
    }
}

/// One save request: an HTTP request with this method to `endpoint`, with
/// these headers and this form-encoded body.
#[derive(Debug, PartialEq, Eq)]
pub struct Request {
    pub method: String,
    pub endpoint: String,
    pub headers: Vec<(String, String)>,
    pub form: Vec<(String, String)>,
}

/// A request as plain text.
pub struct RequestView {
    pub method: Seq<char>,
    pub endpoint: Seq<char>,
    pub headers: Seq<Pair>,
    pub form: Seq<Pair>,
}

impl View for Request {
    type V = RequestView;

    open spec fn view(&self) -> RequestView {
        RequestView {
            method: self.method@,
            endpoint: self.endpoint@,
            headers: self.headers.deep_view(),
            form: self.form.deep_view(),
        }
    }
}

/// The value of the `Authorization` header for a credential pair.
pub open spec fn authorization(access_key: Seq<char>, secret_key: Seq<char>) -> Seq<char> {
    "LOW "@ + access_key + ":"@ + secret_key
}

/// The request that saves `url`: a POST to the endpoint of the settings that
/// asks for a JSON answer, carries the credentials and names the page in a
/// form, with the capture of everything switched on.
pub open spec fn request_for(client: ClientView, url: Seq<char>) -> RequestView {
    RequestView {
        method: "POST"@,
        endpoint: client.settings.endpoint,
        headers: seq![
            ("Accept"@, "application/json"@),
            ("Authorization"@, authorization(client.access_key, client.secret_key)),
        ],
        form: seq![("url"@, url), ("capture_all"@, "on"@)],
    }
}

/// The settings and the credential pair that every request of a run shares.
#[derive(Debug, PartialEq, Eq)]
pub struct Client {
    pub settings: Settings,
    pub access_key: String,
    pub secret_key: String,
}

/// A client as plain text.
pub struct ClientView {
    pub settings: SettingsView,
    pub access_key: Seq<char>,
    pub secret_key: Seq<char>,
}

impl View for Client {
    type V = ClientView;

    open spec fn view(&self) -> ClientView {
        ClientView {
            settings: self.settings@,
            access_key: self.access_key@,
            secret_key: self.secret_key@,
        }
    }
}

fn pair(name: &str, value: String) -> (pair: (String, String))
    ensures
        pair.deep_view() == (name@, value@),
{
    (String::from_str(name), value)
}

impl Client {
    /// A client for the given service and credential pair.
    pub fn new(settings: Settings, access_key: String, secret_key: String) -> (client: Client)
        ensures
            client@ == (ClientView {
                settings: settings@,
                access_key: access_key@,
                secret_key: secret_key@,
            }),
    {
        Client { settings, access_key, secret_key }
    }

    /// The value of the `Authorization` header.
    pub fn authorization(&self) -> (token: String)
        ensures
            token@ == authorization(self@.access_key, self@.secret_key),
    {
        let mut token = String::from_str("LOW ");
        token.append(self.access_key.as_str());
        token.append(":");
        token.append(self.secret_key.as_str());
        token
    }

    /// The request that saves `url`.
    pub fn request(&self, url: &str) -> (request: Request)
        ensures
            request@ == request_for(self@, url@),
    {
        let mut headers: Vec<(String, String)> = Vec::new();
        headers.push(pair("Accept", String::from_str("application/json")));
        headers.push(pair("Authorization", self.authorization()));
        let mut form: Vec<(String, String)> = Vec::new();
        form.push(pair("url", String::from_str(url)));
        form.push(pair("capture_all", String::from_str("on")));
        let request = Request {
            method: String::from_str("POST"),
            endpoint: self.settings.endpoint.clone(),
            headers,
            form,
        };
        assert(request@.headers =~= request_for(self@, url@).headers);
        assert(request@.form =~= request_for(self@, url@).form);
        request
    }
}

} // verus!
