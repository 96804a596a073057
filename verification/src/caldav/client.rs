//! The client side of a CalDAV server: who asks, where, and what for.

use crate::caldav::principal::Principal;
use crate::error::CaldavError;
use crate::error::CaldavResult;
use crate::error::ErrorView;
use crate::xml::find_element;
use crate::xml::first_element;
use crate::xml::parse_xml;
use crate::xml::parsed_xml;
use crate::xml::XmlElement;
use vstd::prelude::*;
use vstd::string::StrSliceExecFns;

verus! {

/// The most characters that a URL, or a path that is set on one, may have.
pub const MAX_URL_CHARS: usize = 65_535;

/// What is sent to learn who the client is to the server.
pub const DAVCLIENT_BODY: &'static str = r#"
    <d:propfind xmlns:d="DAV:">
        <d:prop>
            <d:current-user-principal />
        </d:prop>
    </d:propfind>
"#;

/// The name and the password by which a principal is known to the server.
#[derive(Debug)]
pub struct DavCredentials {
    pub username: String,
    pub password: String,
}

/// A server, and the credentials to use with it.
#[derive(Debug)]
pub struct DavClient {
    pub url: String,
    pub credentials: DavCredentials,
}

/// A request, ready to be sent: the client that sends it adds nothing of its
/// own but the connection.
#[derive(Debug)]
pub struct DavRequest {
    pub method: String,
    pub url: String,
    /// The value of the `Depth` header, where the request has one.
    pub depth: Option<u32>,
    /// The value of the `Content-Type` header.
    pub content_type: String,
    /// Whether the length of the body is sent in a `Content-Length` header.
    pub content_length: bool,
    pub username: String,
    pub password: String,
    pub body: String,
}

/// Whether `request` is a request of `client` in XML, with the given method,
/// URL, depth and body, and without the length of the body in its headers.
pub open spec fn is_xml_request(
    request: DavRequest,
    client: DavClient,
    method: Seq<char>,
    url: Seq<char>,
    depth: u32,
    body: Seq<char>,
) -> bool {
    &&& request.method@ == method
    &&& request.url@ == url
    &&& request.depth == Some(depth)
    &&& request.content_type@ == "application/xml"@
    &&& !request.content_length
    &&& request.username == client.credentials.username
    &&& request.password == client.credentials.password
    &&& request.body@ == body
}

/// The URL that `text` is read as, in its normal form; `None` where `text`
/// is no absolute URL.
pub uninterp spec fn parsed_url(text: Seq<char>) -> Option<Seq<char>>;

/// The URL `url` with its path replaced by `path`; `None` where `url` is no
/// absolute URL.
pub uninterp spec fn url_with_path(url: Seq<char>, path: Seq<char>) -> Option<Seq<char>>;

/// `url::Url::parse`, the URL given back as text. Claimed: the same text is
/// always read alike.
#[verifier::external_body]
fn parse_url(text: &str) -> (r: Option<String>)
    ensures
        r is Some <==> parsed_url(text@) is Some,
        r matches Some(url) ==> parsed_url(text@) == Some(url@),
{
    url::Url::parse(text).ok().map(String::from)
}

/// `url::Url::parse` and, on its result, `Url::set_path`, the URL given back
/// as text. Claimed: the same URL and path always give the same text. Left
/// out are the texts so long that the new URL could pass the length that the
/// crate can hold.
#[verifier::external_body]
fn set_url_path(url: &str, path: &str) -> (r: Option<String>)
    requires
        url@.len() <= MAX_URL_CHARS,
        path@.len() <= MAX_URL_CHARS,
    ensures
        r is Some <==> url_with_path(url@, path@) is Some,
        r matches Some(text) ==> url_with_path(url@, path@) == Some(text@),
{
    let mut parsed = url::Url::parse(url).ok()?;
    parsed.set_path(path);
    Some(parsed.into())
}

/// The path of the URL `url`; `None` where `url` is no absolute URL.
pub uninterp spec fn path_of_url(url: Seq<char>) -> Option<Seq<char>>;

/// `url::Url::parse` and, on its result, `Url::path`. Claimed: the same URL
/// always has the same path.
#[verifier::external_body]
fn read_url_path(url: &str) -> (r: Option<String>)
    ensures
        r is Some <==> path_of_url(url@) is Some,
        r matches Some(path) ==> path_of_url(url@) == Some(path@),
{
    url::Url::parse(url).ok().map(|parsed| parsed.path().to_owned())
}

/// The path of the URL `url`. Fails where `url` is no absolute URL.
pub fn url_path(url: &str) -> (r: CaldavResult<String>)
    ensures
        match path_of_url(url@) {
            Some(path) => r matches Ok(found) && found@ == path,
            None => r matches Err(e) && e@ == (ErrorView::InvalidUrl { url: url@ }),
        },
{
    match read_url_path(url) {
        Some(path) => Ok(path),
        None => Err(CaldavError::InvalidUrl { url: url.to_owned() }),
    }
}

/// The URL `url` with its path replaced by `path`, where both are short
/// enough to be worked on.
pub open spec fn composed_url(url: Seq<char>, path: Seq<char>) -> Option<Seq<char>> {
    if url.len() <= MAX_URL_CHARS && path.len() <= MAX_URL_CHARS {
        url_with_path(url, path)
    } else {
        None
    }
}

/// The URL `url` with its path replaced by `path`. Fails where `url` is no
/// absolute URL and where one of the two has more than `MAX_URL_CHARS`
/// characters.
pub fn with_path(url: &str, path: &str) -> (r: CaldavResult<String>)
    ensures
        match composed_url(url@, path@) {
            Some(text) => r matches Ok(composed) && composed@ == text,
            None => r matches Err(e) && e@ == (ErrorView::InvalidUrl { url: url@ }),
        },
{
    if url.unicode_len() <= MAX_URL_CHARS && path.unicode_len() <= MAX_URL_CHARS {
        match set_url_path(url, path) {
            Some(composed) => {
                return Ok(composed);
            },
            None => {},
        }
    }
    Err(CaldavError::InvalidUrl { url: url.to_owned() })
}

/// The text of the element `href` inside the first element named `tag` of a
/// response, or the kind of error that stands in the way.
pub open spec fn href_of(root: XmlElement, tag: Seq<char>) -> Result<Seq<char>, ErrorView> {
    match first_element(root, tag) {
        None => Err(ErrorView::MissingElement { tag }),
        Some(outer) => match first_element(outer, "href"@) {
            None => Err(ErrorView::MissingElement { tag: "href"@ }),
            Some(href) => Ok(href.text@),
        },
    }
}

/// The URL that a response points to: the URL `url` with, as its path, the
/// text of the `href` inside the first element named `tag`.
pub open spec fn url_in_response(url: Seq<char>, response: Seq<char>, tag: Seq<char>) -> Result<
    Seq<char>,
    ErrorView,
> {
    match parsed_xml(response) {
        None => Err(ErrorView::Minidom),
        Some(root) => match href_of(root, tag) {
            Err(kind) => Err(kind),
            Ok(href) => match composed_url(url, href) {
                Some(text) => Ok(text),
                None => Err(ErrorView::InvalidUrl { url }),
            },
        },
    }
}

/// Reads from a response the URL that it points to. Fails where the response
/// is no XML, where it lacks the element `tag` or an `href` inside it, and
/// where the `href` cannot be set as the path of `url`.
pub fn read_url_in_response(url: &str, response: &str, tag: &str) -> (r: CaldavResult<String>)
    ensures
        match url_in_response(url@, response@, tag@) {
            Ok(text) => r matches Ok(found) && found@ == text,
            Err(kind) => r matches Err(e) && e@ == kind,
        },
{
    let root = parse_xml(response)?;
    let outer = match find_element(&root, tag.to_owned()) {
        Some(outer) => outer,
        None => {
            return Err(CaldavError::MissingElement { tag: tag.to_owned() });
        },
    };
    let href = match find_element(outer, "href".to_owned()) {
        Some(href) => href,
        None => {
            return Err(CaldavError::MissingElement { tag: "href".to_owned() });
        },
    };
    with_path(url, href.text.as_str())
}

impl DavCredentials {
    /// The credentials of the principal `username`.
    pub fn new(username: String, password: String) -> (credentials: DavCredentials)
        ensures
            credentials.username == username,
            credentials.password == password,
    {
        DavCredentials { username, password }
    }

    /// A copy of these credentials.
    pub fn duplicate(&self) -> (copy: DavCredentials)
        ensures
            copy == *self,
    {
        DavCredentials { username: self.username.clone(), password: self.password.clone() }
    }
}

impl DavClient {
    /// The client of the server at `url`, which has to be an absolute URL:
    /// `try_new` is for a text that may be none.
    pub fn new(url: String, credentials: DavCredentials) -> (client: DavClient)
        requires
            parsed_url(url@) is Some,
        ensures
            Some(client.url@) == parsed_url(url@),
            client.credentials == credentials,
    {
        match parse_url(url.as_str()) {
            Some(parsed) => DavClient { url: parsed, credentials },
            None => DavClient { url, credentials },
        }
    }

    /// The client of the server at `url`, where `url` is an absolute URL.
    pub fn try_new(url: String, credentials: DavCredentials) -> (r: CaldavResult<DavClient>)
        ensures
            match parsed_url(url@) {
                Some(text) => r matches Ok(client) && client.url@ == text && client.credentials
                    == credentials,
                None => r matches Err(e) && e@ == (ErrorView::InvalidUrl { url: url@ }),
            },
    {
        if parse_url(url.as_str()).is_some() {
            Ok(DavClient::new(url, credentials))
        } else {
            Err(CaldavError::InvalidUrl { url })
        }
    }

    /// A copy of this client.
    pub fn duplicate(&self) -> (copy: DavClient)
        ensures
            copy == *self,
    {
        DavClient { url: self.url.clone(), credentials: self.credentials.duplicate() }
    }

    /// A request of this client to `url`, with the given method and depth, as
    /// XML and with an empty body.
    pub fn create_request(&self, method: &str, url: &str, depth: u32) -> (request: DavRequest)
        ensures
            is_xml_request(request, *self, method@, url@, depth, Seq::<char>::empty()),
    {
        DavRequest {
            method: method.to_owned(),
            url: url.to_owned(),
            depth: Some(depth),
            content_type: "application/xml".to_owned(),
            content_length: false,
            username: self.credentials.username.clone(),
            password: self.credentials.password.clone(),
            body: String::new(),
        }
    }

    /// What is sent to learn who the client is to the server.
    pub fn principal_request(&self) -> (request: DavRequest)
        ensures
            is_xml_request(request, *self, "PROPFIND"@, self.url@, 0, DAVCLIENT_BODY@),
    {
        let mut request = self.create_request("PROPFIND", self.url.as_str(), 0);
        request.body = DAVCLIENT_BODY.to_owned();
        request
    }

    /// The principal that the server names in its response to
    /// `principal_request`: its URL is that of the server with, as its path,
    /// the `href` of the element `current-user-principal`.
    pub fn get_principal(&self, response: &str) -> (r: CaldavResult<Principal>)
        ensures
            match url_in_response(self.url@, response@, "current-user-principal"@) {
                Ok(text) => r matches Ok(principal) && principal.url@ == text && principal.client
                    == *self && principal.homeset_url is None && principal.calendars@.len() == 0,
                Err(kind) => r matches Err(e) && e@ == kind,
            },
    {
        let url = read_url_in_response(self.url.as_str(), response, "current-user-principal")?;
        Ok(Principal::new(self.duplicate(), url))
    }
}

} // verus!
