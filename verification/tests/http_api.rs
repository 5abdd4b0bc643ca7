use e7012e_sim::http_api::{
    command_response, frame_command, json_error, json_ok, map_path_request, not_found, route,
    ContentType, Endpoint, HttpMethod, LinkSettings,
};
use e7012e_sim::map_list::map_choices;

#[test]
fn routes() {
    assert_eq!(route(HttpMethod::Get, "/"), Endpoint::Index);
    assert_eq!(route(HttpMethod::Get, "/api/state"), Endpoint::State);
    assert_eq!(route(HttpMethod::Get, "/api/config"), Endpoint::ConfigView);
    assert_eq!(route(HttpMethod::Post, "/api/config"), Endpoint::ConfigUpdate);
    assert_eq!(route(HttpMethod::Get, "/api/map"), Endpoint::MapView);
    assert_eq!(route(HttpMethod::Post, "/api/load_map"), Endpoint::LoadMap);
    assert_eq!(route(HttpMethod::Post, "/api/reset"), Endpoint::Reset);
    assert_eq!(route(HttpMethod::Post, "/api/command"), Endpoint::Command);
    assert_eq!(route(HttpMethod::Post, "/api/control"), Endpoint::Control);
    assert_eq!(route(HttpMethod::Get, "/metrics"), Endpoint::Metrics);
    assert_eq!(route(HttpMethod::Post, "/metrics"), Endpoint::NotFound);
    assert_eq!(route(HttpMethod::Get, "/api/reset"), Endpoint::NotFound);
    assert_eq!(route(HttpMethod::Get, "/api/state?x=1"), Endpoint::NotFound);
    assert_eq!(route(HttpMethod::Other, "/"), Endpoint::NotFound);
}

#[test]
fn error_bodies_are_json() {
    let r = json_error(400, "invalid config payload");
    assert_eq!(r.status, 400);
    assert_eq!(r.content_type, ContentType::Json);
    assert_eq!(r.body, "{\"ok\":false,\"error\":\"invalid config payload\"}");
    let r = json_error(400, "bad \"quote\" \\ and\nline\u{1}");
    assert_eq!(r.body, "{\"ok\":false,\"error\":\"bad \\\"quote\\\" \\\\ and\\nline\\u0001\"}");
    assert_eq!(json_ok().body, "{\"ok\":true}");
    let nf = not_found();
    assert_eq!((nf.status, nf.body.as_str()), (404, "not found"));
    assert_eq!(ContentType::Metrics.as_str(), "text/plain; version=0.0.4");
    assert_eq!(ContentType::Html.as_str(), "text/html; charset=utf-8");
}

#[test]
fn commands_get_one_line_end() {
    assert_eq!(frame_command("  reset \n").ok(), Some("reset\n".to_string()));
    assert_eq!(frame_command("sim dist 1 2 3").ok(), Some("sim dist 1 2 3\n".to_string()));
    let err = frame_command(" \t\n ").err().expect("empty command is refused");
    assert_eq!(err.status, 400);
    assert_eq!(err.body, "{\"ok\":false,\"error\":\"empty command\"}");
    let full = command_response(false);
    assert_eq!((full.status, full.body.as_str()), (503, "{\"ok\":false,\"error\":\"command queue full\"}"));
    assert_eq!(command_response(true).status, 200);
}

#[test]
fn map_paths_are_trimmed() {
    assert_eq!(map_path_request(" maps/a.toml\u{a0}").ok(), Some("maps/a.toml".to_string()));
    let err = map_path_request("   ").err().expect("empty path is refused");
    assert_eq!(err.body, "{\"ok\":false,\"error\":\"map path is empty\"}");
}

#[test]
fn config_updates() {
    let mut s = LinkSettings { port_name: "/dev/ttyACM0".to_string(), fake_car_enabled: false };
    s.apply_update(Some("  /dev/ttyUSB1 "), None);
    assert_eq!(s.port_name, "/dev/ttyUSB1");
    assert!(!s.fake_car_enabled);
    s.apply_update(Some("   "), Some(true));
    assert_eq!(s.port_name, "/dev/ttyUSB1");
    assert!(s.fake_car_enabled);
    s.apply_update(None, Some(false));
    assert!(!s.fake_car_enabled);
}

#[test]
fn map_list_is_sorted_toml_files() {
    let names: Vec<String> = ["z.toml", "readme.md", "a.toml", "B.toml", "x.toml.bak", ".toml"]
        .iter()
        .map(|s| s.to_string())
        .collect();
    assert_eq!(
        map_choices(&names),
        vec!["maps/.toml", "maps/B.toml", "maps/a.toml", "maps/z.toml"]
    );
    assert!(map_choices(&Vec::new()).is_empty());
}
