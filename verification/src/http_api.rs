use vstd::prelude::*;

use crate::json::{json_quote, json_string};
use crate::strings::{str_eq, trim_str, trimmed};

verus! {

/// The request methods the UI server tells apart.
#[derive(Clone, Copy, Debug, PartialEq, Eq, Structural)]
pub enum HttpMethod {
    Get,
    Post,
    Other,
}

/// What a request asks of the UI server.
#[derive(Clone, Copy, Debug, PartialEq, Eq, Structural)]
pub enum Endpoint {
    /// `GET /`: the browser UI.
    Index,
    /// `GET /api/state`: the simulator snapshot.
    State,
    /// `GET /api/config`: the configuration, ports and map files.
    ConfigView,
    /// `GET /api/map`: the loaded map's geometry.
    MapView,
    /// `POST /api/config`: change the port or fake-car mode.
    ConfigUpdate,
    /// `POST /api/load_map`: load another map.
    LoadMap,
    /// `POST /api/reset`: reset the simulation.
    Reset,
    /// `POST /api/command`: send a raw command to the controller.
    Command,
    /// `POST /api/control`: override steering and throttle.
    Control,
    /// `GET /metrics`: the Prometheus metrics.
    Metrics,
    /// Anything else.
    NotFound,
}

/// The endpoint that serves a request with this method and URL.
pub open spec fn endpoint_for(method: HttpMethod, url: Seq<char>) -> Endpoint {
    match method {
        HttpMethod::Get => if url == "/"@ {
            Endpoint::Index
        } else if url == "/api/state"@ {
            Endpoint::State
        } else if url == "/api/config"@ {
            Endpoint::ConfigView
        } else if url == "/api/map"@ {
            Endpoint::MapView
        } else if url == "/metrics"@ {
            Endpoint::Metrics
        } else {
            Endpoint::NotFound
        },
        HttpMethod::Post => if url == "/api/config"@ {
            Endpoint::ConfigUpdate
        } else if url == "/api/load_map"@ {
            Endpoint::LoadMap
        } else if url == "/api/reset"@ {
            Endpoint::Reset
        } else if url == "/api/command"@ {
            Endpoint::Command
        } else if url == "/api/control"@ {
            Endpoint::Control
        } else {
            Endpoint::NotFound
        },
        HttpMethod::Other => Endpoint::NotFound,
    }
}

/// Picks the endpoint for a request: the URL must match exactly.
pub fn route(method: HttpMethod, url: &str) -> (e: Endpoint)
    ensures
        e == endpoint_for(method, url@),
{
    match method {
        HttpMethod::Get => {
            if str_eq(url, "/") {
                Endpoint::Index
            } else if str_eq(url, "/api/state") {
                Endpoint::State
            } else if str_eq(url, "/api/config") {
                Endpoint::ConfigView
            } else if str_eq(url, "/api/map") {
                Endpoint::MapView
            } else if str_eq(url, "/metrics") {
                Endpoint::Metrics
            } else {
                Endpoint::NotFound
            }
        },
        HttpMethod::Post => {
            if str_eq(url, "/api/config") {
                Endpoint::ConfigUpdate
            } else if str_eq(url, "/api/load_map") {
                Endpoint::LoadMap
            } else if str_eq(url, "/api/reset") {
                Endpoint::Reset
            } else if str_eq(url, "/api/command") {
                Endpoint::Command
            } else if str_eq(url, "/api/control") {
                Endpoint::Control
            } else {
                Endpoint::NotFound
            }
        },
        HttpMethod::Other => Endpoint::NotFound,
    }
}

/// The content type of a response.
#[derive(Clone, Copy, Debug, PartialEq, Eq, Structural)]
pub enum ContentType {
    Html,
    Json,
    Metrics,
    PlainText,
}

/// The `Content-Type` header value of each content type.
pub open spec fn content_type_value(t: ContentType) -> Seq<char> {
    match t {
        ContentType::Html => "text/html; charset=utf-8"@,
        ContentType::Json => "application/json"@,
        ContentType::Metrics => "text/plain; version=0.0.4"@,
        ContentType::PlainText => "text/plain"@,
    }
}

impl ContentType {
    /// The `Content-Type` header value.
    pub fn as_str(self) -> (v: &'static str)
        ensures
            v@ == content_type_value(self),
    {
        match self {
            ContentType::Html => "text/html; charset=utf-8",
            ContentType::Json => "application/json",
            ContentType::Metrics => "text/plain; version=0.0.4",
            ContentType::PlainText => "text/plain",
        }
    }
}

/// A response of the UI server: status code, content type and body.
pub struct ApiResponse {
    pub status: u16,
    pub content_type: ContentType,
    pub body: String,
}

/// The body that reports a failed request: `{"ok":false,"error":<message>}`,
/// with the message as a JSON string.
pub open spec fn error_body(message: Seq<char>) -> Seq<char> {
    "{\"ok\":false,\"error\":"@ + json_string(message) + "}"@
}

/// The body that reports a request done: `{"ok":true}`.
pub open spec fn ok_body() -> Seq<char> {
    "{\"ok\":true}"@
}

/// A JSON response that reports a failed request.
pub fn json_error(status: u16, message: &str) -> (r: ApiResponse)
    ensures
        r.status == status,
        r.content_type == ContentType::Json,
        r.body@ == error_body(message@),
{
    let quoted = match json_quote(message) {
        Some(q) => q,
        None => String::from_str("\"request failed\""),
    };
    let mut body = String::from_str("{\"ok\":false,\"error\":");
    body.append(quoted.as_str());
    body.append("}");
    ApiResponse { status, content_type: ContentType::Json, body }
}

/// A JSON response that reports a request done.
pub fn json_ok() -> (r: ApiResponse)
    ensures
        r.status == 200,
        r.content_type == ContentType::Json,
        r.body@ == ok_body(),
{
    ApiResponse { status: 200, content_type: ContentType::Json, body: String::from_str("{\"ok\":true}") }
}

/// The response to a request that no endpoint serves.
pub fn not_found() -> (r: ApiResponse)
    ensures
        r.status == 404,
        r.content_type == ContentType::PlainText,
        r.body@ == "not found"@,
{
    ApiResponse { status: 404, content_type: ContentType::PlainText, body: String::from_str("not found") }
}

/// The serial link's settings that the UI can change.
pub struct LinkSettings {
    pub port_name: String,
    pub fake_car_enabled: bool,
}

impl LinkSettings {
    /// A configuration update: a port name, once trimmed, replaces the current
    /// one unless it is empty; a fake-car flag replaces the current one.
    pub fn apply_update(&mut self, port_name: Option<&str>, fake_car_enabled: Option<bool>)
        ensures
            final(self).port_name@ == match port_name {
                Some(p) => if trimmed(p@).len() > 0 {
                    trimmed(p@)
                } else {
                    old(self).port_name@
                },
                None => old(self).port_name@,
            },
            final(self).fake_car_enabled == match fake_car_enabled {
                Some(f) => f,
                None => old(self).fake_car_enabled,
            },
    {
        if let Some(p) = port_name {
            let cleaned = trim_str(p);
            if !cleaned.is_empty() {
                self.port_name = String::from_str(cleaned);
            }
        }
        if let Some(f) = fake_car_enabled {
            self.fake_car_enabled = f;
        }
    }
}

/// The map path that a load request names, trimmed; an empty one is refused
/// with `400` and `map path is empty`.
pub fn map_path_request(path: &str) -> (r: Result<String, ApiResponse>)
    ensures
        trimmed(path@).len() > 0 ==> (r matches Ok(p) && p@ == trimmed(path@)),
        trimmed(path@).len() == 0 ==> (r matches Err(e) && e.status == 400 && e.content_type
            == ContentType::Json && e.body@ == error_body("map path is empty"@)),
{
    let cleaned = trim_str(path);
    if cleaned.is_empty() {
        Err(json_error(400, "map path is empty"))
    } else {
        Ok(String::from_str(cleaned))
    }
}

/// The command to queue for the controller: the request's text, trimmed, with
/// a line end; an empty one is refused with `400` and `empty command`.
pub fn frame_command(command: &str) -> (r: Result<String, ApiResponse>)
    ensures
        trimmed(command@).len() > 0 ==> (r matches Ok(w) && w@ == trimmed(command@) + "\n"@),
        trimmed(command@).len() == 0 ==> (r matches Err(e) && e.status == 400 && e.content_type
            == ContentType::Json && e.body@ == error_body("empty command"@)),
{
    let cleaned = trim_str(command);
    if cleaned.is_empty() {
        return Err(json_error(400, "empty command"));
    }
    let mut wire = String::from_str(cleaned);
    wire.append("\n");
    Ok(wire)
}

/// The answer to a command request once the queue took the command or was
/// full: done, or `503` and `command queue full`.
pub fn command_response(queued: bool) -> (r: ApiResponse)
    ensures
        queued ==> r.status == 200 && r.content_type == ContentType::Json && r.body@ == ok_body(),
        !queued ==> r.status == 503 && r.content_type == ContentType::Json && r.body@
            == error_body("command queue full"@),
{
    if queued {
        json_ok()
    } else {
        json_error(503, "command queue full")
    }
}

} // verus!
