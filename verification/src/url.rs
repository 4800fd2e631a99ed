use vstd::prelude::*;

use crate::sound::sanitize_sound_name;
use crate::sound::sanitized;

verus! {

/// The character for one decimal digit.
pub open spec fn digit_char(d: nat) -> char {
    if d == 0 {
        '0'
    } else if d == 1 {
        '1'
    } else if d == 2 {
        '2'
    } else if d == 3 {
        '3'
    } else if d == 4 {
        '4'
    } else if d == 5 {
        '5'
    } else if d == 6 {
        '6'
    } else if d == 7 {
        '7'
    } else if d == 8 {
        '8'
    } else {
        '9'
    }
}

/// The decimal digits of `n`, most significant first.
pub open spec fn dec_digits(n: nat) -> Seq<char>
    decreases n,
{
    if n < 10 {
        seq![digit_char(n)]
    } else {
        dec_digits(n / 10).push(digit_char(n % 10))
    }
}

/// The text of `/`-prefixed path segments, in order.
pub open spec fn routes_text(routes: Seq<Seq<char>>) -> Seq<char>
    decreases routes.len(),
{
    if routes.len() == 0 {
        Seq::empty()
    } else {
        seq!['/'] + routes[0] + routes_text(routes.drop_first())
    }
}

/// The text of a whole URL: `protocol://host`, then `:port` unless the port
/// is zero, then each route prefixed by `/`.
pub open spec fn url_text(
    protocol: Seq<char>,
    host: Seq<char>,
    port: u16,
    routes: Seq<Seq<char>>,
) -> Seq<char> {
    let base = protocol + "://"@ + host;
    let with_port = if port == 0 {
        base
    } else {
        base + ":"@ + dec_digits(port as nat)
    };
    with_port + routes_text(routes)
}

/// The parts of a request URL for a room: assembled by verified logic and
/// rendered to text at the boundary.
#[derive(Debug)]
pub struct RoomUrl {
    pub protocol: String,
    pub host: String,
    pub port: u16,
    pub routes: Vec<String>,
}

/// Mathematical shape of a `RoomUrl`.
#[verifier::ext_equal]
pub struct UrlModel {
    pub protocol: Seq<char>,
    pub host: Seq<char>,
    pub port: u16,
    pub routes: Seq<Seq<char>>,
}

impl View for RoomUrl {
    type V = UrlModel;

    open spec fn view(&self) -> UrlModel {
        UrlModel {
            protocol: self.protocol@,
            host: self.host@,
            port: self.port,
            routes: self.routes@.map_values(|r: String| r@),
        }
    }
}

/// The text a `UrlModel` renders to.
pub open spec fn url_model_text(m: UrlModel) -> Seq<char> {
    url_text(m.protocol, m.host, m.port, m.routes)
}

/// Relies on url_builder::URLBuilder: with no query parameters added,
/// `build` renders `protocol://host`, omits the port exactly when it is
/// zero and writes it as `:port` otherwise, and appends each added route
/// prefixed by `/`, in the order the routes were added.
#[verifier::external_body]
fn render(protocol: &str, host: &str, port: u16, routes: &Vec<String>) -> (r: String)
    ensures
        r@ == url_text(protocol@, host@, port, routes@.map_values(|s: String| s@)),
{
    let mut ub = url_builder::URLBuilder::new();
    ub.set_protocol(protocol).set_host(host).set_port(port);
    for route in routes.iter() {
        ub.add_route(route);
    }
    ub.build()
}

impl RoomUrl {
    /// The base URL under which a room is reached:
    /// `protocol://host:port/api/room_id`.
    pub fn build_room_url(protocol: &str, address: &str, port: u16, room_id: &str) -> (u: RoomUrl)
        ensures
            u@.protocol == protocol@,
            u@.host == address@,
            u@.port == port,
            u@.routes =~= seq!["api"@, room_id@],
    {
        let mut routes: Vec<String> = Vec::new();
        routes.push("api".to_owned());
        routes.push(room_id.to_owned());
        RoomUrl { protocol: protocol.to_owned(), host: address.to_owned(), port: port, routes }
    }

    /// Append one path segment.
    pub fn add_route(&mut self, route: &str)
        ensures
            final(self)@ =~= (UrlModel { routes: old(self)@.routes.push(route@), ..old(self)@ }),
    {
        self.routes.push(route.to_owned());
        proof {
            assert(self@.routes =~= old(self)@.routes.push(route@));
        }
    }

    /// Render this URL to the text a request is sent to.
    pub fn build(&self) -> (r: String)
        ensures
            r@ == url_model_text(self@),
    {
        render(self.protocol.as_str(), self.host.as_str(), self.port, &self.routes)
    }
}

/// The URL a clicker requests: the room's base URL followed by `click` for
/// the default cue, or by `custom` and the sanitized sound name for a named
/// sound (path separators replaced, so a name cannot traverse directories).
pub fn click_request_url(
    protocol: &str,
    address: &str,
    port: u16,
    room_id: &str,
    sound: Option<&String>,
) -> (u: RoomUrl)
    ensures
        u@.protocol == protocol@,
        u@.host == address@,
        u@.port == port,
        u@.routes =~= match sound {
            None => seq!["api"@, room_id@, "click"@],
            Some(s) => seq!["api"@, room_id@, "custom"@, sanitized(s@)],
        },
{
    let mut u = RoomUrl::build_room_url(protocol, address, port, room_id);
    match sound {
        None => {
            u.add_route("click");
        },
        Some(s) => {
            u.add_route("custom");
            let safe = sanitize_sound_name(s.as_str());
            u.add_route(safe.as_str());
        },
    }
    u
}

} // verus!
