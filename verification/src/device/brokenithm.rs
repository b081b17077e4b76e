use vstd::prelude::*;
use vstd::string::*;

use crate::device::config::BrokenithmSpec;
use crate::text::text_eq;

verus! {

/// A message that the Brokenithm page sends over its websocket.
pub enum BrokenithmMessage {
    /// The page asks whether the server is still there.
    Alive,
    /// The state of every touch area: the ground keys read 255 when touched
    /// and 0 when not, the air sensors 1 and 0.
    Input { ground: [u8; 32], air: [u8; 6] },
}

/// The heartbeat text, `alive?`.
pub open spec fn is_alive_probe(m: Seq<char>) -> bool {
    m == seq!['a', 'l', 'i', 'v', 'e', '?']
}

pub open spec fn is_bit_char(c: char) -> bool {
    c == '0' || c == '1'
}

/// An input frame: `b`, then 32 ground bits, then 6 air bits, each `0` or `1`.
pub open spec fn is_input_frame(m: Seq<char>) -> bool {
    &&& m.len() == 39
    &&& m[0] == 'b'
    &&& forall|i: int| 1 <= i < 39 ==> is_bit_char(#[trigger] m[i])
}

pub open spec fn ground_level(c: char) -> u8 {
    if c == '1' { 255 } else { 0 }
}

pub open spec fn air_level(c: char) -> u8 {
    if c == '1' { 1 } else { 0 }
}

/// The ground levels that a frame carries, in the order of its bits.
pub open spec fn frame_ground(m: Seq<char>) -> Seq<u8> {
    Seq::new(32, |i: int| ground_level(m[i + 1]))
}

/// The air levels that a frame carries, in the order of its bits.
pub open spec fn frame_air(m: Seq<char>) -> Seq<u8> {
    Seq::new(6, |i: int| air_level(m[i + 33]))
}

/// Reads one websocket text message of the Brokenithm page.
///
/// `alive?` is the heartbeat; a frame of `b` and 38 bits is an input update;
/// anything else is refused with `None`.
pub fn parse_brokenithm_message(message: &str) -> (r: Option<BrokenithmMessage>)
    ensures
        (r matches Some(BrokenithmMessage::Alive)) <==> is_alive_probe(message@),
        (r matches Some(BrokenithmMessage::Input { .. })) <==> is_input_frame(message@),
        r matches Some(BrokenithmMessage::Input { ground, air }) ==> {
            &&& ground@ == frame_ground(message@)
            &&& air@ == frame_air(message@)
        },
{
    let len = message.unicode_len();
    if len == 6 {
        let is_probe = message.get_char(0) == 'a' && message.get_char(1) == 'l'
            && message.get_char(2) == 'i' && message.get_char(3) == 'v'
            && message.get_char(4) == 'e' && message.get_char(5) == '?';
        if is_probe {
            assert(message@ =~= seq!['a', 'l', 'i', 'v', 'e', '?']);
            return Some(BrokenithmMessage::Alive);
        }
        return None;
    }
    if len != 39 || message.get_char(0) != 'b' {
        return None;
    }
    let mut i: usize = 1;
    while i < 39
        invariant
            1 <= i <= 39,
            message@.len() == 39,
            forall|j: int| 1 <= j < i ==> is_bit_char(#[trigger] message@[j]),
        decreases 39 - i,
    {
        let c = message.get_char(i);
        if c != '0' && c != '1' {
            return None;
        }
        i = i + 1;
    }
    let mut ground = [0u8; 32];
    let mut k: usize = 0;
    while k < 32
        invariant
            k <= 32,
            message@.len() == 39,
            ground@.len() == 32,
            forall|j: int| 0 <= j < k ==> #[trigger] ground@[j] == ground_level(message@[j + 1]),
        decreases 32 - k,
    {
        let level: u8 = if message.get_char(k + 1) == '1' { 255 } else { 0 };
        ground[k] = level;
        k = k + 1;
    }
    let mut air = [0u8; 6];
    let mut k: usize = 0;
    while k < 6
        invariant
            k <= 6,
            message@.len() == 39,
            air@.len() == 6,
            forall|j: int| 0 <= j < k ==> #[trigger] air@[j] == air_level(message@[j + 33]),
        decreases 6 - k,
    {
        let level: u8 = if message.get_char(k + 33) == '1' { 1 } else { 0 };
        air[k] = level;
        k = k + 1;
    }
    assert(ground@ =~= frame_ground(message@));
    assert(air@ =~= frame_air(message@));
    Some(BrokenithmMessage::Input { ground, air })
}

/// The number of ground keys of the controller: two rows of 16.
pub const GROUND_KEYS: usize = 32;

/// The number of air sensors of the controller.
pub const AIR_SENSORS: usize = 6;

/// The number of bytes of the ground light state sent to the page.
pub const LIGHTS_FRAME_LEN: usize = 93;

/// The controller input that the rest of slidershim reads.
pub struct SliderInput {
    pub ground: [u8; 32],
    pub air: [u8; 6],
}

/// The levels of a [`SliderInput`].
pub struct SliderInputView {
    pub ground: Seq<u8>,
    pub air: Seq<u8>,
}

impl View for SliderInput {
    type V = SliderInputView;

    open spec fn view(&self) -> SliderInputView {
        SliderInputView { ground: self.ground@, air: self.air@ }
    }
}

/// Every key and sensor released.
pub open spec fn released() -> SliderInputView {
    SliderInputView { ground: Seq::new(32, |i: int| 0u8), air: Seq::new(6, |i: int| 0u8) }
}

impl SliderInput {
    /// An input with every key and sensor released.
    pub fn new() -> (r: SliderInput)
        ensures
            r@ == released(),
    {
        let r = SliderInput { ground: [0u8; 32], air: [0u8; 6] };
        assert(r@.ground =~= released().ground);
        assert(r@.air =~= released().air);
        r
    }
}

/// Releases every key and sensor.
pub fn reset_input(input: &mut SliderInput)
    ensures
        final(input)@ == released(),
{
    let mut i: usize = 0;
    while i < GROUND_KEYS
        invariant
            i <= 32,
            input.ground@.len() == 32,
            forall|j: int| 0 <= j < i ==> #[trigger] input.ground@[j] == 0,
        decreases 32 - i,
    {
        input.ground[i] = 0;
        i = i + 1;
    }
    let mut i: usize = 0;
    while i < AIR_SENSORS
        invariant
            i <= 6,
            input.air@.len() == 6,
            input.ground@ =~= released().ground,
            forall|j: int| 0 <= j < i ==> #[trigger] input.air@[j] == 0,
        decreases 6 - i,
    {
        input.air[i] = 0;
        i = i + 1;
    }
    assert(input.air@ =~= released().air);
}

/// What the websocket of a connected page delivers.
pub enum SocketEvent {
    /// A text message.
    Text(String),
    /// The page closed the connection.
    Close,
    /// The connection failed.
    Failed,
    /// Any other message (binary, ping, pong).
    Other,
}

/// Why a connection's reading ends.
#[derive(Debug, Clone, Copy, PartialEq, Eq, Structural)]
pub enum StopReason {
    InvalidMessage,
    Closed,
    Failed,
}

/// What a connection does after an event.
pub enum SessionAction {
    /// Send this text back and keep reading.
    Reply(String),
    /// Keep reading.
    Continue,
    /// Stop reading.
    Stop(StopReason),
}

/// The answer to the heartbeat, `alive`.
pub open spec fn alive_reply() -> Seq<char> {
    seq!['a', 'l', 'i', 'v', 'e']
}

/// The input after `event` reaches the connection `session_id` while
/// `active_session` is the newest one: only an input frame of the newest
/// connection changes it, to the frame's levels.
pub open spec fn next_input(
    event: SocketEvent,
    session_id: usize,
    active_session: usize,
    input: SliderInputView,
) -> SliderInputView {
    match event {
        SocketEvent::Text(m) => if session_id == active_session && is_input_frame(m@) {
            SliderInputView { ground: frame_ground(m@), air: frame_air(m@) }
        } else {
            input
        },
        _ => input,
    }
}

/// Starts a connection: the previous connection count is `previous`; the new
/// connection's number is one more, and the input is released.
pub fn start_session(previous: usize, input: &mut SliderInput) -> (session_id: usize)
    requires
        previous < usize::MAX,
    ensures
        session_id == previous + 1,
        final(input)@ == released(),
{
    reset_input(input);
    previous + 1
}

/// Handles one event of the connection `session_id`, where `active_session`
/// is the number of the newest connection.
///
/// The heartbeat is answered with `alive`; an input frame updates the input
/// only where this connection is the newest; any other text ends the
/// connection, as does a close or a failure; other messages are ignored.
pub fn handle_socket_event(
    event: &SocketEvent,
    session_id: usize,
    active_session: usize,
    input: &mut SliderInput,
) -> (r: SessionAction)
    ensures
        final(input)@ == next_input(*event, session_id, active_session, old(input)@),
        match *event {
            SocketEvent::Text(m) => if is_alive_probe(m@) {
                r matches SessionAction::Reply(t) && t@ == alive_reply()
            } else if is_input_frame(m@) {
                r is Continue
            } else {
                r == SessionAction::Stop(StopReason::InvalidMessage)
            },
            SocketEvent::Close => r == SessionAction::Stop(StopReason::Closed),
            SocketEvent::Failed => r == SessionAction::Stop(StopReason::Failed),
            SocketEvent::Other => r is Continue,
        },
{
    match event {
        SocketEvent::Text(m) => match parse_brokenithm_message(m.as_str()) {
            Some(BrokenithmMessage::Alive) => {
                let reply = "alive".to_owned();
                proof {
                    reveal_strlit("alive");
                    assert(reply@ =~= alive_reply());
                }
                SessionAction::Reply(reply)
            },
            Some(BrokenithmMessage::Input { ground, air }) => {
                if session_id == active_session {
                    input.ground = ground;
                    input.air = air;
                }
                SessionAction::Continue
            },
            None => SessionAction::Stop(StopReason::InvalidMessage),
        },
        SocketEvent::Close => SessionAction::Stop(StopReason::Closed),
        SocketEvent::Failed => SessionAction::Stop(StopReason::Failed),
        SocketEvent::Other => SessionAction::Continue,
    }
}

/// Ends the connection `session_id`: where it is still the newest, the input
/// is released; else it is left to the newer connection.
pub fn end_session(session_id: usize, active_session: usize, input: &mut SliderInput)
    ensures
        final(input)@ == (if session_id == active_session {
            released()
        } else {
            old(input)@
        }),
{
    if session_id == active_session {
        reset_input(input);
    }
}

/// The binary message that carries the ground lights to the page: the light
/// state, byte for byte.
pub fn lights_frame(ground: &[u8]) -> (r: Vec<u8>)
    requires
        ground@.len() == LIGHTS_FRAME_LEN,
    ensures
        r@ == ground@,
{
    let mut r: Vec<u8> = Vec::new();
    let mut i: usize = 0;
    while i < ground.len()
        invariant
            i <= ground@.len(),
            r@ == ground@.subrange(0, i as int),
        decreases ground@.len() - i,
    {
        r.push(ground[i]);
        i = i + 1;
    }
    assert(r@ =~= ground@);
    r
}

/// The files of the Brokenithm page.
#[derive(Debug, Clone, Copy, PartialEq, Eq, Structural)]
pub enum Asset {
    AppJs,
    ConfigJs,
    IndexNs,
    IndexGo,
    Index,
    Favicon,
    Icon,
}

impl Asset {
    pub open spec fn spec_file_name(self) -> Seq<char> {
        match self {
            Asset::AppJs => "app.js"@,
            Asset::ConfigJs => "config.js"@,
            Asset::IndexNs => "index-ns.html"@,
            Asset::IndexGo => "index-go.html"@,
            Asset::Index => "index.html"@,
            Asset::Favicon => "favicon.ico"@,
            Asset::Icon => "icon.png"@,
        }
    }

    pub open spec fn spec_mime_type(self) -> Seq<char> {
        match self {
            Asset::AppJs => "text/javascript"@,
            Asset::ConfigJs => "text/javascript"@,
            Asset::IndexNs => "text/html"@,
            Asset::IndexGo => "text/html"@,
            Asset::Index => "text/html"@,
            Asset::Favicon => "image/x-icon"@,
            Asset::Icon => "image/png"@,
        }
    }

    /// The name under which the file is served.
    pub fn file_name(&self) -> (r: &'static str)
        ensures
            r@ == self.spec_file_name(),
    {
        match self {
            Asset::AppJs => "app.js",
            Asset::ConfigJs => "config.js",
            Asset::IndexNs => "index-ns.html",
            Asset::IndexGo => "index-go.html",
            Asset::Index => "index.html",
            Asset::Favicon => "favicon.ico",
            Asset::Icon => "icon.png",
        }
    }

    /// The `Content-Type` that the file is served with.
    pub fn mime_type(&self) -> (r: &'static str)
        ensures
            r@ == self.spec_mime_type(),
    {
        match self {
            Asset::AppJs => "text/javascript",
            Asset::ConfigJs => "text/javascript",
            Asset::IndexNs => "text/html",
            Asset::IndexGo => "text/html",
            Asset::Index => "text/html",
            Asset::Favicon => "image/x-icon",
            Asset::Icon => "image/png",
        }
    }
}

/// The file served under `name`, if any.
pub open spec fn asset_named(name: Seq<char>) -> Option<Asset> {
    if name == "app.js"@ {
        Some(Asset::AppJs)
    } else if name == "config.js"@ {
        Some(Asset::ConfigJs)
    } else if name == "index-ns.html"@ {
        Some(Asset::IndexNs)
    } else if name == "index-go.html"@ {
        Some(Asset::IndexGo)
    } else if name == "index.html"@ {
        Some(Asset::Index)
    } else if name == "favicon.ico"@ {
        Some(Asset::Favicon)
    } else if name == "icon.png"@ {
        Some(Asset::Icon)
    } else {
        None
    }
}

/// How the server answers a request.
#[derive(Debug, Clone, Copy, PartialEq, Eq, Structural)]
pub enum Reply {
    /// 404, `Not found`.
    NotFound,
    /// The file, with its content type.
    File(Asset),
    /// The websocket handshake of the controller.
    WebSocket,
}

/// The answer to a request for the file `name`.
pub open spec fn served(name: Seq<char>) -> Reply {
    match asset_named(name) {
        Some(a) => Reply::File(a),
        None => Reply::NotFound,
    }
}

/// Looks up the page file `path` (without its leading `/`).
pub fn serve_file(path: &str) -> (r: Reply)
    ensures
        r == served(path@),
{
    if text_eq(path, "app.js") {
        Reply::File(Asset::AppJs)
    } else if text_eq(path, "config.js") {
        Reply::File(Asset::ConfigJs)
    } else if text_eq(path, "index-ns.html") {
        Reply::File(Asset::IndexNs)
    } else if text_eq(path, "index-go.html") {
        Reply::File(Asset::IndexGo)
    } else if text_eq(path, "index.html") {
        Reply::File(Asset::Index)
    } else if text_eq(path, "favicon.ico") {
        Reply::File(Asset::Favicon)
    } else if text_eq(path, "icon.png") {
        Reply::File(Asset::Icon)
    } else {
        Reply::NotFound
    }
}

/// The page of each layout.
pub open spec fn index_page(spec: BrokenithmSpec) -> Asset {
    match spec {
        BrokenithmSpec::Basic => Asset::Index,
        BrokenithmSpec::GroundOnly => Asset::IndexGo,
        BrokenithmSpec::Nostalgia => Asset::IndexNs,
    }
}

/// Whether `path` starts with a one-byte (ASCII) character.
pub open spec fn starts_ascii(path: Seq<char>) -> bool {
    path.len() > 0 && path[0] <= '\u{7f}'
}

/// The answer to a request: only `GET` is served; `/` and `/index.html` give
/// the page of the layout; any other path without an upgrade header gives the
/// file named by the path after its first character; an upgrade request gives
/// the websocket at `/ws` and nothing elsewhere.
pub open spec fn spec_route(
    is_get: bool,
    path: Seq<char>,
    has_upgrade: bool,
    spec: BrokenithmSpec,
) -> Reply {
    if !is_get {
        Reply::NotFound
    } else if !has_upgrade {
        if path == "/"@ || path == "/index.html"@ {
            Reply::File(index_page(spec))
        } else {
            served(path.subrange(1, path.len() as int))
        }
    } else if path == "/ws"@ {
        Reply::WebSocket
    } else {
        Reply::NotFound
    }
}

/// Decides how to answer a request for `path`, of method `GET` or not, with an
/// `Upgrade` header or not, for a page of layout `spec`.
pub fn handle_request(is_get: bool, path: &str, has_upgrade: bool, spec: BrokenithmSpec) -> (r: Reply)
    requires
        is_get && !has_upgrade ==> starts_ascii(path@),
    ensures
        r == spec_route(is_get, path@, has_upgrade, spec),
{
    if !is_get {
        return Reply::NotFound;
    }
    if !has_upgrade {
        if text_eq(path, "/") || text_eq(path, "/index.html") {
            match spec {
                BrokenithmSpec::Basic => Reply::File(Asset::Index),
                BrokenithmSpec::GroundOnly => Reply::File(Asset::IndexGo),
                BrokenithmSpec::Nostalgia => Reply::File(Asset::IndexNs),
            }
        } else {
            let len = path.unicode_len();
            serve_file(path.substring_char(1, len))
        }
    } else if text_eq(path, "/ws") {
        Reply::WebSocket
    } else {
        Reply::NotFound
    }
}

/// An input frame of the newest connection sets each ground key to 255 where
/// its bit is `1` and to 0 where it is `0`, and each air sensor to 1 or 0 in the
/// same way; nothing else in the frame matters.
pub proof fn lemma_frame_sets_levels(event: SocketEvent, session_id: usize, input: SliderInputView)
    requires
        event matches SocketEvent::Text(m) && is_input_frame(m@),
    ensures
        ({
            let m = event->Text_0@;
            let after = next_input(event, session_id, session_id, input);
            &&& after.ground.len() == GROUND_KEYS
            &&& after.air.len() == AIR_SENSORS
            &&& forall|i: int|
                0 <= i < 32 ==> {
                    &&& (m[i + 1] == '1' ==> #[trigger] after.ground[i] == 255)
                    &&& (m[i + 1] == '0' ==> after.ground[i] == 0)
                }
            &&& forall|i: int|
                0 <= i < 6 ==> {
                    &&& (m[i + 33] == '1' ==> #[trigger] after.air[i] == 1)
                    &&& (m[i + 33] == '0' ==> after.air[i] == 0)
                }
        }),
{
}

/// Once a later connection has started, nothing that an earlier connection
/// receives changes the input.
pub proof fn lemma_later_session_supersedes(
    previous: usize,
    earlier: usize,
    event: SocketEvent,
    input: SliderInputView,
)
    requires
        earlier <= previous < usize::MAX,
    ensures
        next_input(event, earlier, (previous + 1) as usize, input) == input,
{
}

/// The heartbeat never changes the input, whichever connection sends it.
pub proof fn lemma_heartbeat_keeps_input(
    event: SocketEvent,
    session_id: usize,
    active_session: usize,
    input: SliderInputView,
)
    requires
        event matches SocketEvent::Text(m) && is_alive_probe(m@),
    ensures
        next_input(event, session_id, active_session, input) == input,
{
}

/// Every page file is found under its own name.
pub proof fn lemma_asset_names_resolve(a: Asset)
    ensures
        asset_named(a.spec_file_name()) == Some(a),
{
    reveal_strlit("app.js");
    reveal_strlit("config.js");
    reveal_strlit("index-ns.html");
    reveal_strlit("index-go.html");
    reveal_strlit("index.html");
    reveal_strlit("favicon.ico");
    reveal_strlit("icon.png");
    let names = seq![
        "app.js"@,
        "config.js"@,
        "index-ns.html"@,
        "index-go.html"@,
        "index.html"@,
        "favicon.ico"@,
        "icon.png"@,
    ];
    // Two names differ in their length or in the character at index 0 or 6.
    assert(names[2][6] != names[3][6]);
    assert(names[0][0] != names[1][0] && names[0][0] != names[2][0] && names[0][0] != names[5][0]);
    assert(names[1][0] != names[2][0] && names[1][0] != names[4][0] && names[1][0] != names[5][0]);
    assert(names[2][0] != names[5][0] && names[3][0] != names[5][0] && names[4][0] != names[5][0]);
    assert(names[0][0] != names[6][0] || names[0].len() != names[6].len());
    assert(names[1].len() != names[6].len() && names[2].len() != names[6].len());
    assert(names[3].len() != names[6].len() && names[4].len() != names[6].len());
    assert(names[5].len() != names[6].len());
    assert(names[0].len() != names[3].len() && names[0].len() != names[4].len());
    assert(names[1].len() != names[3].len() && names[1].len() != names[4].len());
    assert(names[2].len() != names[4].len() && names[3].len() != names[4].len());
}

/// `/` and `/index.html` both give the page of the layout, and that page is
/// also a file served by its own name.
pub proof fn lemma_index_routes(spec: BrokenithmSpec)
    ensures
        spec_route(true, "/"@, false, spec) == Reply::File(index_page(spec)),
        spec_route(true, "/index.html"@, false, spec) == Reply::File(index_page(spec)),
        served(index_page(spec).spec_file_name()) == Reply::File(index_page(spec)),
{
    lemma_asset_names_resolve(index_page(spec));
}

/// Only a `GET` is ever answered with something other than 404, and a request
/// with an upgrade header never gets a file.
pub proof fn lemma_route_guards(is_get: bool, path: Seq<char>, has_upgrade: bool, spec: BrokenithmSpec)
    ensures
        !is_get ==> spec_route(is_get, path, has_upgrade, spec) == Reply::NotFound,
        has_upgrade ==> !(spec_route(is_get, path, has_upgrade, spec) is File),
        !has_upgrade ==> !(spec_route(is_get, path, has_upgrade, spec) is WebSocket),
{
}

/// Whether `s` ends with `suffix`.
pub open spec fn ends_with(s: Seq<char>, suffix: Seq<char>) -> bool {
    s.len() >= suffix.len() && s.subrange(s.len() - suffix.len(), s.len() as int) == suffix
}

/// Each page file is served with the content type of its kind: the three
/// `.html` pages as `text/html`, the two `.js` scripts as `text/javascript`,
/// the `.ico` icon as `image/x-icon` and the `.png` icon as `image/png`.
pub proof fn lemma_content_types(a: Asset)
    ensures
        (a is Index || a is IndexGo || a is IndexNs) ==> ends_with(a.spec_file_name(), ".html"@)
            && a.spec_mime_type() == "text/html"@,
        (a is AppJs || a is ConfigJs) ==> ends_with(a.spec_file_name(), ".js"@)
            && a.spec_mime_type() == "text/javascript"@,
        a is Favicon ==> ends_with(a.spec_file_name(), ".ico"@) && a.spec_mime_type()
            == "image/x-icon"@,
        a is Icon ==> ends_with(a.spec_file_name(), ".png"@) && a.spec_mime_type() == "image/png"@,
{
    reveal_strlit("app.js");
    reveal_strlit("config.js");
    reveal_strlit("index-ns.html");
    reveal_strlit("index-go.html");
    reveal_strlit("index.html");
    reveal_strlit("favicon.ico");
    reveal_strlit("icon.png");
    reveal_strlit(".html");
    reveal_strlit(".js");
    reveal_strlit(".ico");
    reveal_strlit(".png");
    let name = a.spec_file_name();
    match a {
        Asset::Index => assert(name.subrange(5, 10) =~= ".html"@),
        Asset::IndexGo => assert(name.subrange(8, 13) =~= ".html"@),
        Asset::IndexNs => assert(name.subrange(8, 13) =~= ".html"@),
        Asset::AppJs => assert(name.subrange(3, 6) =~= ".js"@),
        Asset::ConfigJs => assert(name.subrange(6, 9) =~= ".js"@),
        Asset::Favicon => assert(name.subrange(7, 11) =~= ".ico"@),
        Asset::Icon => assert(name.subrange(4, 8) =~= ".png"@),
    }
}

/// The routes of the page by path: `/` (and `/index.html`) give `index.html`
/// for the basic layout, `index-go.html` for the ground-only one and
/// `index-ns.html` for Nostalgia; `/app.js`, `/config.js`, `/index-ns.html`,
/// `/index-go.html`, `/favicon.ico` and `/icon.png` give those files under
/// every layout; `/ws` with an upgrade header gives the websocket; and every
/// file other than `index.html` is reached at `/` followed by its name.
pub proof fn lemma_page_routes(spec: BrokenithmSpec, a: Asset)
    ensures
        spec_route(true, "/"@, false, BrokenithmSpec::Basic) == Reply::File(Asset::Index),
        spec_route(true, "/"@, false, BrokenithmSpec::GroundOnly) == Reply::File(Asset::IndexGo),
        spec_route(true, "/"@, false, BrokenithmSpec::Nostalgia) == Reply::File(Asset::IndexNs),
        spec_route(true, "/index.html"@, false, spec) == spec_route(true, "/"@, false, spec),
        spec_route(true, "/app.js"@, false, spec) == Reply::File(Asset::AppJs),
        spec_route(true, "/config.js"@, false, spec) == Reply::File(Asset::ConfigJs),
        spec_route(true, "/index-ns.html"@, false, spec) == Reply::File(Asset::IndexNs),
        spec_route(true, "/index-go.html"@, false, spec) == Reply::File(Asset::IndexGo),
        spec_route(true, "/favicon.ico"@, false, spec) == Reply::File(Asset::Favicon),
        spec_route(true, "/icon.png"@, false, spec) == Reply::File(Asset::Icon),
        spec_route(true, "/ws"@, true, spec) == Reply::WebSocket,
        !(a is Index) ==> spec_route(true, seq!['/'] + a.spec_file_name(), false, spec)
            == Reply::File(a),
{
    reveal_strlit("/");
    reveal_strlit("/index.html");
    reveal_strlit("/app.js");
    reveal_strlit("/config.js");
    reveal_strlit("/index-ns.html");
    reveal_strlit("/index-go.html");
    reveal_strlit("/favicon.ico");
    reveal_strlit("/icon.png");
    reveal_strlit("app.js");
    reveal_strlit("config.js");
    reveal_strlit("index-ns.html");
    reveal_strlit("index-go.html");
    reveal_strlit("index.html");
    reveal_strlit("favicon.ico");
    reveal_strlit("icon.png");
    lemma_asset_names_resolve(a);
    lemma_asset_names_resolve(Asset::AppJs);
    lemma_asset_names_resolve(Asset::ConfigJs);
    lemma_asset_names_resolve(Asset::IndexNs);
    lemma_asset_names_resolve(Asset::IndexGo);
    lemma_asset_names_resolve(Asset::Favicon);
    lemma_asset_names_resolve(Asset::Icon);
    assert("/app.js"@.subrange(1, 7) =~= "app.js"@);
    assert("/config.js"@.subrange(1, 10) =~= "config.js"@);
    assert("/index-ns.html"@.subrange(1, 14) =~= "index-ns.html"@);
    assert("/index-go.html"@.subrange(1, 14) =~= "index-go.html"@);
    assert("/favicon.ico"@.subrange(1, 12) =~= "favicon.ico"@);
    assert("/icon.png"@.subrange(1, 9) =~= "icon.png"@);
    // None of these paths is `/` or `/index.html`: they differ in length or
    // in the character at index 7.
    assert("/index-ns.html"@[7] != "/index.html"@[7]);
    assert("/index-go.html"@[7] != "/index.html"@[7]);
    let path = seq!['/'] + a.spec_file_name();
    assert(path.subrange(1, path.len() as int) =~= a.spec_file_name());
    if !(a is Index) {
        assert(path.len() != "/index.html"@.len() || path[7] != "/index.html"@[7]);
        assert(path != "/"@);
    }
}

/// The bit character of a key: `1` when touched, `0` when not.
pub open spec fn bit_char(touched: bool) -> char {
    if touched { '1' } else { '0' }
}

/// The frame that the page sends for these ground and air touches.
pub open spec fn encode_frame(ground: Seq<bool>, air: Seq<bool>) -> Seq<char> {
    seq!['b'] + ground.map_values(|t: bool| bit_char(t)) + air.map_values(|t: bool| bit_char(t))
}

/// Every frame that the page can send for 32 ground and 6 air touches is an
/// input frame, and it reads back as 255 for each touched ground key and 0
/// for each other one, and 1 and 0 for the air sensors; every input frame is
/// such a frame.
pub proof fn lemma_frame_round_trip(ground: Seq<bool>, air: Seq<bool>, m: Seq<char>)
    requires
        ground.len() == 32,
        air.len() == 6,
    ensures
        is_input_frame(encode_frame(ground, air)),
        forall|i: int|
            0 <= i < 32 ==> #[trigger] frame_ground(encode_frame(ground, air))[i] == (if ground[i] {
                255u8
            } else {
                0u8
            }),
        forall|i: int|
            0 <= i < 6 ==> #[trigger] frame_air(encode_frame(ground, air))[i] == (if air[i] {
                1u8
            } else {
                0u8
            }),
        is_input_frame(m) ==> m == encode_frame(
            Seq::new(32, |i: int| m[i + 1] == '1'),
            Seq::new(6, |i: int| m[i + 33] == '1'),
        ),
{
    let e = encode_frame(ground, air);
    assert forall|i: int| 1 <= i < 39 implies is_bit_char(#[trigger] e[i]) by {
        if i < 33 {
            assert(e[i] == bit_char(ground[i - 1]));
        } else {
            assert(e[i] == bit_char(air[i - 33]));
        }
    }
    assert forall|i: int| 0 <= i < 32 implies #[trigger] frame_ground(e)[i] == (if ground[i] {
        255u8
    } else {
        0u8
    }) by {
        assert(e[i + 1] == bit_char(ground[i]));
    }
    assert forall|i: int| 0 <= i < 6 implies #[trigger] frame_air(e)[i] == (if air[i] {
        1u8
    } else {
        0u8
    }) by {
        assert(e[i + 33] == bit_char(air[i]));
    }
    if is_input_frame(m) {
        let g = Seq::new(32, |i: int| m[i + 1] == '1');
        let a = Seq::new(6, |i: int| m[i + 33] == '1');
        let d = encode_frame(g, a);
        assert forall|i: int| 0 <= i < 39 implies #[trigger] d[i] == m[i] by {
            if i == 0 {
            } else if i < 33 {
                assert(d[i] == bit_char(g[i - 1]));
                assert(is_bit_char(m[i]));
            } else {
                assert(d[i] == bit_char(a[i - 33]));
                assert(is_bit_char(m[i]));
            }
        }
        assert(d =~= m);
    }
}

/// The answer to the heartbeat is the heartbeat without its question mark.
pub proof fn lemma_heartbeat_reply()
    ensures
        is_alive_probe(alive_reply() + seq!['?']),
{
    assert(alive_reply() + seq!['?'] =~= seq!['a', 'l', 'i', 'v', 'e', '?']);
}

/// Only the page files are served: a name that is found is the name of the
/// file that is returned.
pub proof fn lemma_only_page_files_served(name: Seq<char>)
    ensures
        asset_named(name) matches Some(a) ==> name == a.spec_file_name(),
{
}

/// The Brokenithm server of one device configuration.
pub struct BrokenithmJob<S> {
    state: S,
    spec: BrokenithmSpec,
    lights_enabled: bool,
    port: u16,
}

impl<S: Clone> BrokenithmJob<S> {
    pub closed spec fn spec_state(&self) -> S {
        self.state
    }

    pub closed spec fn spec_layout(&self) -> BrokenithmSpec {
        self.spec
    }

    pub closed spec fn spec_lights_enabled(&self) -> bool {
        self.lights_enabled
    }

    pub closed spec fn spec_port(&self) -> u16 {
        self.port
    }

    /// A job with a clone of the shared state and the given settings.
    pub fn new(state: &S, spec: &BrokenithmSpec, lights_enabled: &bool, port: &u16) -> (r: Self)
        ensures
            cloned(*state, r.spec_state()),
            r.spec_layout() == *spec,
            r.spec_lights_enabled() == *lights_enabled,
            r.spec_port() == *port,
    {
        BrokenithmJob { state: state.clone(), spec: *spec, lights_enabled: *lights_enabled, port: *port }
    }

    pub fn state(&self) -> (r: &S)
        ensures
            *r == self.spec_state(),
    {
        &self.state
    }

    pub fn spec(&self) -> (r: BrokenithmSpec)
        ensures
            r == self.spec_layout(),
    {
        self.spec
    }

    pub fn lights_enabled(&self) -> (r: bool)
        ensures
            r == self.spec_lights_enabled(),
    {
        self.lights_enabled
    }

    pub fn port(&self) -> (r: u16)
        ensures
            r == self.spec_port(),
    {
        self.port
    }
}

} // verus!
