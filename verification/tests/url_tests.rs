use clickrtraining::sound::{sanitize_sound_name, sound_file_name, SoundRef};
use clickrtraining::url::{click_request_url, RoomUrl};

#[test]
fn room_url_renders_protocol_host_port_and_routes() {
    let u = RoomUrl::build_room_url("https", "clickertrain.ing", 443, "room1");
    assert_eq!(u.build(), "https://clickertrain.ing:443/api/room1");
}

#[test]
fn zero_port_is_left_out_of_the_url() {
    let u = RoomUrl::build_room_url("http", "localhost", 0, "r");
    assert_eq!(u.build(), "http://localhost/api/r");
}

#[test]
fn default_click_requests_the_click_route() {
    let u = click_request_url("https", "clickertrain.ing", 443, "kitchen", None);
    assert_eq!(u.build(), "https://clickertrain.ing:443/api/kitchen/click");
}

#[test]
fn named_sound_requests_the_custom_route() {
    let sit = "sit".to_string();
    let u = click_request_url("https", "clickertrain.ing", 443, "yard", Some(&sit));
    assert_eq!(u.build(), "https://clickertrain.ing:443/api/yard/custom/sit");
}

#[test]
fn path_separators_in_a_sound_name_cannot_traverse() {
    let evil = "../../etc/passwd".to_string();
    let u = click_request_url("https", "h", 1, "r", Some(&evil));
    assert_eq!(u.build(), "https://h:1/api/r/custom/.._.._etc_passwd");
}

#[test]
fn sanitize_replaces_every_separator() {
    assert_eq!(sanitize_sound_name("a/b/c"), "a_b_c");
    assert_eq!(sanitize_sound_name("plain"), "plain");
    assert_eq!(sanitize_sound_name(""), "");
}

#[test]
fn added_routes_render_in_order() {
    let mut u = RoomUrl::build_room_url("wss", "host", 8080, "room");
    u.add_route("extra");
    assert_eq!(u.build(), "wss://host:8080/api/room/extra");
}

#[test]
fn named_sound_resolves_to_an_ogg_file() {
    let named = SoundRef::Named("sit".to_string());
    assert_eq!(sound_file_name(&named), Some("sit.ogg".to_string()));
    assert_eq!(sound_file_name(&SoundRef::DefaultCue), None);
}
