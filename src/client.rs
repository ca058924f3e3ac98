use crate::document::{
    entities_of, parse_entities, parse_plugins, parsed_json, plugins_of, ParseError,
};
use crate::model::{entities_view, plugins_view, Entity, Plugin};
use vstd::prelude::*;
use vstd::string::StringExecFns;

verus! {

/// Path of the management API below the host.
pub const API_PATH: &'static str = "/api/v2.0/";

/// Endpoint that lists the jails.
pub const JAIL_ENDPOINT: &'static str = "jail";

/// Endpoint that lists the plugins.
pub const PLUGIN_ENDPOINT: &'static str = "plugin";

/// Why a request to the management API brought no usable answer.
#[derive(PartialEq, Eq, Structural, Clone, Copy, Debug)]
pub enum FetchError {
    /// The connection failed or the answer could not be read.
    Transport,
    /// The answer came with a status outside 2xx.
    Status(u16),
}

/// Why a poll cycle published nothing.
#[derive(PartialEq, Eq, Structural, Clone, Copy, Debug)]
pub enum CycleError {
    Fetch(FetchError),
    Parse(ParseError),
}

/// Base64 of the UTF-8 bytes of a text, with padding.
pub uninterp spec fn base64_of(text: Seq<char>) -> Seq<char>;

/// Relies on base64::encode: the standard alphabet with padding, applied to
/// the bytes of the text.
#[verifier::external_body]
fn encode_base64(text: &str) -> (r: String)
    ensures
        r@ == base64_of(text@),
{
    base64::encode(text)
}

/// The value of the `Authorization` header sent with every request.
pub fn basic_auth_value(user: &str, password: &str) -> (r: String)
    ensures
        r@ == "Basic "@ + base64_of(user@ + ":"@ + password@),
{
    let mut credentials = String::from_str(user);
    credentials.append(":");
    credentials.append(password);
    let mut r = String::from_str("Basic ");
    r.append(encode_base64(credentials.as_str()).as_str());
    r
}

pub open spec fn scheme(secure: bool) -> Seq<char> {
    if secure {
        "https"@
    } else {
        "http"@
    }
}

/// The URL under which the API's endpoints lie.
pub fn api_url_base(secure: bool, host: &str, port: &str) -> (r: String)
    ensures
        r@ == scheme(secure) + "://"@ + host@ + ":"@ + port@ + API_PATH@,
{
    let mut r = if secure {
        String::from_str("https")
    } else {
        String::from_str("http")
    };
    r.append("://");
    r.append(host);
    r.append(":");
    r.append(port);
    r.append(API_PATH);
    r
}

/// The URL of one endpoint.
pub fn endpoint_url(base: &str, endpoint: &str) -> (r: String)
    ensures
        r@ == base@ + endpoint@,
{
    let mut r = String::from_str(base);
    r.append(endpoint);
    r
}

/// Accepts a status of the 2xx class.
pub fn check_status(status: u16) -> (r: Result<(), FetchError>)
    ensures
        r is Ok <==> 200 <= status < 300,
        r matches Err(e) ==> e == FetchError::Status(status),
{
    if 200 <= status && status < 300 {
        Ok(())
    } else {
        Err(FetchError::Status(status))
    }
}

/// The jails of an answer of the jail endpoint, given its status and body.
pub fn entities_from_answer(status: u16, body: &str) -> (r: Result<Vec<Entity>, CycleError>)
    ensures
        !(200 <= status < 300) ==> r == Err::<Vec<Entity>, CycleError>(
            CycleError::Fetch(FetchError::Status(status)),
        ),
        200 <= status < 300 && parsed_json(body@) is None ==> r == Err::<Vec<Entity>, CycleError>(
            CycleError::Parse(ParseError::Malformed),
        ),
        200 <= status < 300 ==> (parsed_json(body@) matches Some(v) ==> {
            &&& r is Ok <==> entities_of(v) is Some
            &&& r matches Ok(es) ==> entities_of(v) == Some(entities_view(es@))
            &&& r matches Err(e) ==> e == CycleError::Parse(ParseError::Shape)
        }),
{
    match check_status(status) {
        Err(e) => Err(CycleError::Fetch(e)),
        Ok(()) => match parse_entities(body) {
            Ok(es) => Ok(es),
            Err(e) => Err(CycleError::Parse(e)),
        },
    }
}

/// The plugins of an answer of the plugin endpoint, given its status and
/// body.
pub fn plugins_from_answer(status: u16, body: &str) -> (r: Result<Vec<Plugin>, CycleError>)
    ensures
        !(200 <= status < 300) ==> r == Err::<Vec<Plugin>, CycleError>(
            CycleError::Fetch(FetchError::Status(status)),
        ),
        200 <= status < 300 && parsed_json(body@) is None ==> r == Err::<Vec<Plugin>, CycleError>(
            CycleError::Parse(ParseError::Malformed),
        ),
        200 <= status < 300 ==> (parsed_json(body@) matches Some(v) ==> {
            &&& r is Ok <==> plugins_of(v) is Some
            &&& r matches Ok(ps) ==> plugins_of(v) == Some(plugins_view(ps@))
            &&& r matches Err(e) ==> e == CycleError::Parse(ParseError::Shape)
        }),
{
    match check_status(status) {
        Err(e) => Err(CycleError::Fetch(e)),
        Ok(()) => match parse_plugins(body) {
            Ok(ps) => Ok(ps),
            Err(e) => Err(CycleError::Parse(e)),
        },
    }
}

} // verus!
