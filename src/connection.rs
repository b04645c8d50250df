use vstd::prelude::*;

use crate::chat::ChatMode;
use crate::codec::{
    parse_string, parse_u16, parse_var_int, string_from_utf8, ByteBuffer, DeserializerError,
};

verus! {

/// The protocol number this server speaks.
pub const CURRENT_MC_PROTOCOL: i32 = 767;

/// Longest server address a handshake may carry, in bytes.
pub const MAX_SERVER_ADDRESS_LEN: usize = 255;

/// Longest player name, in bytes.
pub const MAX_PLAYER_NAME_LEN: usize = 16;

/// Protocol phase of a connection.
#[derive(Debug, Clone, Copy, PartialEq, Eq, Structural)]
pub enum ConnectionState {
    HandShake,
    Status,
    Login,
    Config,
    Play,
    Closed,
}

/// The first packet a client sends.
pub struct SHandShake {
    pub protocol_version: i32,
    pub server_address: String,
    pub server_port: u16,
    /// 1 asks for the status phase, 2 for the login phase.
    pub next_state: i32,
}

/// A handshake at the start of `s`: protocol version, server address, port, next phase.
pub open spec fn parse_handshake(s: Seq<u8>) -> Result<(i32, Seq<char>, u16, i32), DeserializerError> {
    match parse_var_int(s) {
        Err(e) => Err(e),
        Ok((version, n1)) => match parse_string(s.skip(n1 as int), MAX_SERVER_ADDRESS_LEN as nat) {
            Err(e) => Err(e),
            Ok((address, n2)) => match parse_u16(s.skip((n1 + n2) as int)) {
                Err(e) => Err(e),
                Ok((port, n3)) => match parse_var_int(s.skip((n1 + n2 + n3) as int)) {
                    Err(e) => Err(e),
                    Ok((next, n4)) => Ok((version, address, port, next)),
                },
            },
        },
    }
}

impl SHandShake {
    pub fn read(bytebuf: &mut ByteBuffer) -> (r: Result<SHandShake, DeserializerError>)
        requires
            old(bytebuf).wf(),
        ensures
            final(bytebuf).wf(),
            match parse_handshake(old(bytebuf).rest()) {
                Ok((version, address, port, next)) => r matches Ok(h) && h.protocol_version
                    == version && h.server_address@ == address && h.server_port == port
                    && h.next_state == next,
                Err(e) => r matches Err(f) && f == e,
            },
    {
        let ghost s = bytebuf.rest();
        let ghost start_pos = bytebuf.pos;
        let protocol_version = bytebuf.get_var_int()?;
        assert(bytebuf.rest() =~= s.skip(bytebuf.pos - start_pos));
        let server_address = bytebuf.get_string_len(MAX_SERVER_ADDRESS_LEN)?;
        assert(bytebuf.rest() =~= s.skip(bytebuf.pos - start_pos));
        let server_port = bytebuf.get_u16()?;
        assert(bytebuf.rest() =~= s.skip(bytebuf.pos - start_pos));
        let next_state = bytebuf.get_var_int()?;
        Ok(SHandShake { protocol_version, server_address, server_port, next_state })
    }
}


/// The identity a player logs in with.
pub struct GameProfile {
    pub id: u128,
    pub name: String,
}

/// The second login packet: the name and id the client claims.
pub struct SLoginStart {
    pub name: String,
    pub uuid: u128,
}

/// The client's settings, sent during configuration.
pub struct SClientInformationConfig {
    pub locale: String,
    pub view_distance: i8,
    pub chat_mode: i32,
    pub chat_colors: bool,
    pub skin_parts: u8,
    pub main_hand: i32,
    pub text_filtering: bool,
    pub server_listing: bool,
}

/// A message on a named plugin channel.
pub struct SPluginMessage {
    pub channel: String,
    pub data: Vec<u8>,
}

/// The hand a player holds items in by default.
#[derive(Debug, Clone, Copy, PartialEq, Eq, Structural)]
pub enum Hand {
    Left,
    Right,
}

/// The client's settings once checked.
pub struct PlayerConfig {
    pub locale: String,
    pub view_distance: i8,
    pub chat_mode: ChatMode,
    pub chat_colors: bool,
    pub skin_parts: u8,
    pub main_hand: Hand,
    pub text_filtering: bool,
    pub server_listing: bool,
}

/// A decoded packet from the client, or the outcome of work done outside for the connection.
pub enum ServerPacket {
    Handshake(SHandShake),
    StatusRequest,
    PingRequest(i64),
    LoginStart(SLoginStart),
    /// Outcome of the encryption exchange and of the profile check with the session service:
    /// the verified profile, or the reason for refusing it.
    LoginVerified(Result<GameProfile, String>),
    LoginAcknowledged,
    ClientInformation(SClientInformationConfig),
    PluginMessage(SPluginMessage),
    KnownPacks,
    AcknowledgeFinishConfig,
    /// A packet of the login or configuration phase that is handled outside the phase logic
    /// (an encryption or plugin response, a cookie, a keep-alive), with its id and payload.
    Deferred(i32, Vec<u8>),
    /// A packet of the play phase, handled by the player runtime.
    PlayPacket,
    /// A packet id that the current phase does not know.
    Unknown(i32),
}

/// Why a connection is refused, with a message for the client.
#[derive(Debug)]
pub enum KickReason {
    /// The client speaks an older protocol, whose number is given.
    ClientOutdated(i32),
    /// The client speaks a newer protocol.
    ServerOutdated,
    InvalidUsername,
    /// The profile check refused the player, for the reason given.
    AuthenticationFailed(String),
    InvalidClientInformation,
    /// The client's brand is not UTF-8.
    InvalidBrand,
    /// The handshake did not carry the address and id a BungeeCord proxy forwards.
    BungeeCordForwarding,
}

/// What the server does in answer to a packet.
#[derive(Debug)]
pub enum ClientAction {
    SendStatusResponse,
    SendPong(i64),
    /// Ask the client to encrypt, with this random verify token.
    SendEncryptionRequest(u32),
    /// Announce that packets above this many bytes are compressed from now on.
    SendSetCompression(i32),
    SendLoginSuccess(u128, String),
    SendBranding,
    SendResourcePack,
    SendKnownPacks,
    /// Ask the Velocity proxy, by a login plugin request, for the player's address and profile.
    SendVelocityRequest,
    SendRegistryData,
    SendFinishConfig,
    /// Create the player: the connection has entered the play phase.
    EnterPlay,
    /// Send a disconnect message, then close.
    Kick(KickReason),
    /// Close without a message.
    Close,
}

/// How the server lets players in.
#[derive(Debug, Clone, Copy, PartialEq, Eq, Structural)]
pub struct LoginSettings {
    pub online_mode: bool,
    /// Threshold for packet compression, when it is enabled.
    pub compression_threshold: Option<i32>,
    /// Whether clients are offered the server's resource pack.
    pub resource_pack: bool,
    /// Whether players come through a forwarding proxy, and which kind.
    pub proxy: ProxyMode,
}

/// How players reach the server.
#[derive(Debug, Clone, Copy, PartialEq, Eq, Structural)]
pub enum ProxyMode {
    /// Directly, and the server checks them itself.
    Direct,
    /// Through a Velocity proxy, which answers a login plugin request with the player's address
    /// and profile, signed; the signature is checked outside the phase logic.
    Velocity,
    /// Through a BungeeCord proxy, which puts the player's address and id in the handshake's
    /// server address, separated by NUL characters.
    BungeeCord,
}

/// One client connection's protocol state.
pub struct Client {
    pub connection_state: ConnectionState,
    pub protocol_version: i32,
    pub server_address: String,
    pub gameprofile: Option<GameProfile>,
    pub config: Option<PlayerConfig>,
    /// The client's brand, once it told it.
    pub brand: Option<String>,
    /// The compression threshold in force, once enabled.
    pub compression: Option<i32>,
    /// The player's own address, as a forwarding proxy reported it.
    pub forwarded_address: Option<String>,
    pub settings: LoginSettings,
}

/// Whether a player name is acceptable: 1 to 16 characters, each printable ASCII (33 to 126).
pub open spec fn valid_player_name(name: Seq<char>) -> bool {
    &&& 1 <= name.len() <= MAX_PLAYER_NAME_LEN
    &&& forall|i: int| 0 <= i < name.len() ==> 33 <= (#[trigger] name[i]) as u32 <= 126
}

/// Whether client settings carry a known hand (0 or 1) and a known chat mode (0 to 2).
pub open spec fn valid_client_information(c: SClientInformationConfig) -> bool {
    0 <= c.main_hand <= 1 && 0 <= c.chat_mode <= 2
}

/// Whether `s` starts with `prefix`.
pub open spec fn has_prefix(s: Seq<char>, prefix: Seq<char>) -> bool {
    prefix.len() <= s.len() && s.subrange(0, prefix.len() as int) == prefix
}

/// Whether a plugin channel carries the client's brand.
pub open spec fn is_brand_channel(channel: Seq<char>) -> bool {
    has_prefix(channel, "minecraft:brand"@) || has_prefix(channel, "MC|Brand"@)
}

/// Whether a plugin message is refused: a brand that is not UTF-8.
pub open spec fn bad_brand(m: SPluginMessage) -> bool {
    is_brand_channel(m.channel@) && !vstd::utf8::valid_utf8(m.data@)
}

/// The settings kept from valid client information: hand 0 is the left, 1 the right; chat
/// modes are numbered as `ChatMode::try_from` reads them.
pub open spec fn config_from(c: SClientInformationConfig) -> PlayerConfig {
    PlayerConfig {
        locale: c.locale,
        view_distance: c.view_distance,
        chat_mode: if c.chat_mode == 0 {
            ChatMode::Enabled
        } else if c.chat_mode == 1 {
            ChatMode::CommandsOnly
        } else {
            ChatMode::Hidden
        },
        chat_colors: c.chat_colors,
        skin_parts: c.skin_parts,
        main_hand: if c.main_hand == 0 {
            Hand::Left
        } else {
            Hand::Right
        },
        text_filtering: c.text_filtering,
        server_listing: c.server_listing,
    }
}

/// Whether the compression threshold, if any, enables compression.
pub open spec fn compression_enabled(settings: LoginSettings) -> bool {
    settings.compression_threshold matches Some(t) && t >= 0
}

/// What parsing `s` as a UUID, in any of its text forms, gives.
pub uninterp spec fn uuid_parsed(s: Seq<char>) -> Option<u128>;

/// Relies on `uuid::Uuid::parse_str`: the id a text stands for, if it is one; the outcome depends
/// on the text alone.
#[verifier::external_body]
fn parse_uuid(s: &str) -> (r: Option<u128>)
    ensures
        r == uuid_parsed(s@),
{
    uuid::Uuid::parse_str(s).ok().map(|u| u.as_u128())
}

/// The first NUL character of `s` at or after `from`, or the length of `s` if there is none.
pub open spec fn next_nul(s: Seq<char>, from: int) -> int
    decreases s.len() - from,
{
    if from >= s.len() || from < 0 {
        s.len() as int
    } else if s[from] == '\0' {
        from
    } else {
        next_nul(s, from + 1)
    }
}

/// The second and third NUL-separated fields of `s` (the forwarded address and id), when `s`
/// has at least three fields.
pub open spec fn bungee_fields(s: Seq<char>) -> Option<(Seq<char>, Seq<char>)> {
    let a = next_nul(s, 0);
    if a >= s.len() {
        None
    } else {
        let b = next_nul(s, a + 1);
        if b >= s.len() {
            None
        } else {
            let c = next_nul(s, b + 1);
            Some((s.subrange(a + 1, b), s.subrange(b + 1, c)))
        }
    }
}

/// The address and id a BungeeCord proxy forwarded in a handshake's server address.
pub open spec fn bungee_forwarding(address: Seq<char>) -> Option<(Seq<char>, u128)> {
    match bungee_fields(address) {
        None => None,
        Some((ip, id)) => match uuid_parsed(id) {
            Some(u) => Some((ip, u)),
            None => None,
        },
    }
}

/// Whether a login start is refused: a bad name, or forwarding that a BungeeCord proxy should
/// have put in the handshake and did not.
pub open spec fn login_start_refused(settings: LoginSettings, address: Seq<char>, name: Seq<char>) -> bool {
    !valid_player_name(name) || (settings.proxy == ProxyMode::BungeeCord && bungee_forwarding(
        address,
    ) is None)
}

/// The phase a connection is in after `packet`, from phase `state`.
pub open spec fn next_state(
    state: ConnectionState,
    packet: ServerPacket,
    settings: LoginSettings,
    address: Seq<char>,
) -> ConnectionState {
    match state {
        ConnectionState::HandShake => match packet {
            ServerPacket::Handshake(h) => if h.next_state == 1 {
                ConnectionState::Status
            } else if h.next_state == 2 && h.protocol_version == CURRENT_MC_PROTOCOL {
                ConnectionState::Login
            } else {
                ConnectionState::Closed
            },
            _ => ConnectionState::Closed,
        },
        ConnectionState::Status => match packet {
            ServerPacket::StatusRequest => ConnectionState::Status,
            _ => ConnectionState::Closed,
        },
        ConnectionState::Login => match packet {
            ServerPacket::LoginStart(l) => if !login_start_refused(settings, address, l.name@) {
                ConnectionState::Login
            } else {
                ConnectionState::Closed
            },
            ServerPacket::LoginVerified(v) => if v is Ok {
                ConnectionState::Login
            } else {
                ConnectionState::Closed
            },
            ServerPacket::LoginAcknowledged => ConnectionState::Config,
            ServerPacket::Deferred(_, _) => ConnectionState::Login,
            _ => ConnectionState::Closed,
        },
        ConnectionState::Config => match packet {
            ServerPacket::ClientInformation(c) => if valid_client_information(c) {
                ConnectionState::Config
            } else {
                ConnectionState::Closed
            },
            ServerPacket::PluginMessage(m) => if bad_brand(m) {
                ConnectionState::Closed
            } else {
                ConnectionState::Config
            },
            ServerPacket::KnownPacks => ConnectionState::Config,
            ServerPacket::AcknowledgeFinishConfig => ConnectionState::Play,
            ServerPacket::Deferred(_, _) => ConnectionState::Config,
            _ => ConnectionState::Closed,
        },
        ConnectionState::Play => match packet {
            ServerPacket::PlayPacket => ConnectionState::Play,
            _ => ConnectionState::Closed,
        },
        ConnectionState::Closed => ConnectionState::Closed,
    }
}

/// The transitions a connection may make: to the same phase, to closed, or forward along
/// handshake to status or login, login to configuration, configuration to play.
pub open spec fn allowed_transition(from: ConnectionState, to: ConnectionState) -> bool {
    ||| from == to
    ||| (to == ConnectionState::Closed)
    ||| (from == ConnectionState::HandShake && (to == ConnectionState::Status || to
        == ConnectionState::Login))
    ||| (from == ConnectionState::Login && to == ConnectionState::Config)
    ||| (from == ConnectionState::Config && to == ConnectionState::Play)
}

/// The phases a connection with `settings` goes through on `packets`, starting in `state`: one
/// more than packets. Each packet comes with the server address held when it arrives.
pub open spec fn phase_trace(state: ConnectionState, settings: LoginSettings, packets: Seq<(ServerPacket, Seq<char>)>) -> Seq<ConnectionState>
    decreases packets.len(),
{
    if packets.len() == 0 {
        seq![state]
    } else {
        let before = phase_trace(state, settings, packets.drop_last());
        before.push(next_state(before.last(), packets.last().0, settings, packets.last().1))
    }
}

proof fn lemma_trace_shape(state: ConnectionState, settings: LoginSettings, packets: Seq<(ServerPacket, Seq<char>)>)
    ensures
        phase_trace(state, settings, packets).len() == packets.len() + 1,
        phase_trace(state, settings, packets)[0] == state,
    decreases packets.len(),
{
    if packets.len() > 0 {
        lemma_trace_shape(state, settings, packets.drop_last());
    }
}

/// No sequence of packets moves a connection along a transition outside the allowed graph,
/// and a closed connection stays closed.
pub proof fn lemma_state_machine_sound(state: ConnectionState, settings: LoginSettings, packets: Seq<(ServerPacket, Seq<char>)>)
    ensures
        forall|i: int|
            0 <= i < packets.len() ==> allowed_transition(
                #[trigger] phase_trace(state, settings, packets)[i],
                phase_trace(state, settings, packets)[i + 1],
            ),
        forall|i: int|
            0 <= i < packets.len() && phase_trace(state, settings, packets)[i] == ConnectionState::Closed
                ==> #[trigger] phase_trace(state, settings, packets)[i + 1] == ConnectionState::Closed,
    decreases packets.len(),
{
    lemma_trace_shape(state, settings, packets);
    if packets.len() > 0 {
        let front = packets.drop_last();
        lemma_state_machine_sound(state, settings, front);
        lemma_trace_shape(state, settings, front);
        let before = phase_trace(state, settings, front);
        assert forall|i: int| 0 <= i < packets.len() implies allowed_transition(
            #[trigger] phase_trace(state, settings, packets)[i],
            phase_trace(state, settings, packets)[i + 1],
        ) by {
            if i < front.len() {
                assert(phase_trace(state, settings, packets)[i] == before[i]);
                assert(phase_trace(state, settings, packets)[i + 1] == before[i + 1]);
            }
        }
        assert forall|i: int|
            0 <= i < packets.len() && phase_trace(state, settings, packets)[i]
                == ConnectionState::Closed implies #[trigger] phase_trace(state, settings, packets)[i + 1]
            == ConnectionState::Closed by {
            if i < front.len() {
                assert(phase_trace(state, settings, packets)[i] == before[i]);
                assert(phase_trace(state, settings, packets)[i + 1] == before[i + 1]);
            }
        }
    }
}

/// Whether a login ended well for the profile `id`, `name`: compression first when it is
/// enabled, then the login success.
pub open spec fn login_finished(
    before: Client,
    id: u128,
    name: String,
    r: Seq<ClientAction>,
    after: Client,
) -> bool {
    &&& r.len() >= 1
    &&& r.last() == ClientAction::SendLoginSuccess(id, name)
    &&& after.gameprofile == Some(GameProfile { id, name })
    &&& compression_enabled(before.settings) ==> r.len() == 2 && r[0]
        == ClientAction::SendSetCompression(before.settings.compression_threshold->0)
    &&& !compression_enabled(before.settings) ==> r.len() == 1
}

/// What a login start does: a bad name is kicked; behind Velocity the proxy is asked for the
/// player; behind BungeeCord the forwarded id is taken from the handshake, or the player is
/// kicked without it; otherwise an online server asks for encryption and an offline one lets
/// the player in.
pub open spec fn login_start_done(
    before: Client,
    l: SLoginStart,
    r: Seq<ClientAction>,
    after: Client,
) -> bool {
    if !valid_player_name(l.name@) {
        r == seq![ClientAction::Kick(KickReason::InvalidUsername)] && after.gameprofile
            == before.gameprofile
    } else if before.settings.proxy == ProxyMode::Velocity {
        r == seq![ClientAction::SendVelocityRequest] && after.gameprofile == before.gameprofile
    } else if before.settings.proxy == ProxyMode::BungeeCord {
        match bungee_forwarding(before.server_address@) {
            None => r == seq![ClientAction::Kick(KickReason::BungeeCordForwarding)]
                && after.gameprofile == before.gameprofile,
            Some((ip, id)) => login_finished(before, id, l.name, r, after)
                && (after.forwarded_address matches Some(a) && a@ == ip),
        }
    } else if before.settings.online_mode {
        r.len() == 1 && r[0] is SendEncryptionRequest && after.gameprofile == Some(
            GameProfile { id: l.uuid, name: l.name },
        )
    } else {
        login_finished(before, l.uuid, l.name, r, after)
    }
}

fn find_nul(s: &str, from: usize) -> (r: usize)
    requires
        from <= s@.len(),
    ensures
        r as int == next_nul(s@, from as int),
        r <= s@.len(),
{
    let n = s.unicode_len();
    let mut i: usize = from;
    while i < n
        invariant
            n == s@.len(),
            from <= i <= n,
            next_nul(s@, from as int) == next_nul(s@, i as int),
        decreases n - i,
    {
        if s.get_char(i) == '\0' {
            return i;
        }
        i += 1;
    }
    i
}

proof fn lemma_next_nul_bound(s: Seq<char>, from: int)
    requires
        0 <= from <= s.len(),
    ensures
        from <= next_nul(s, from) <= s.len(),
    decreases s.len() - from,
{
    if from < s.len() && s[from] != '\0' {
        lemma_next_nul_bound(s, from + 1);
    }
}

/// The address and id a BungeeCord proxy forwarded in a handshake's server address.
fn forwarded_login(address: &str) -> (r: Option<(String, u128)>)
    ensures
        match bungee_forwarding(address@) {
            None => r is None,
            Some((ip, id)) => r matches Some((a, u)) && a@ == ip && u == id,
        },
{
    let n = address.unicode_len();
    let a = find_nul(address, 0);
    if a >= n {
        return None;
    }
    let b = find_nul(address, a + 1);
    if b >= n {
        return None;
    }
    let c = find_nul(address, b + 1);
    proof {
        lemma_next_nul_bound(address@, a + 1);
        lemma_next_nul_bound(address@, b + 1);
    }
    let ip = address.substring_char(a + 1, b).to_owned();
    let id_text = address.substring_char(b + 1, c);
    match parse_uuid(id_text) {
        Some(id) => Some((ip, id)),
        None => None,
    }
}

/// Why the session service's profile may not join.
#[derive(Debug, Clone, Copy, PartialEq, Eq, Structural)]
pub enum AuthError {
    /// The profile carries actions against it, and banned players are not let in.
    Banned,
    /// The profile lacks one of the actions the server requires.
    DisallowedAction,
}

/// Whether a verified profile's actions let it join: without banned players, any action
/// refuses it; with them, it must carry every allowed action.
pub open spec fn profile_actions_outcome(
    actions: Option<Seq<Seq<char>>>,
    allow_banned_players: bool,
    allowed_actions: Seq<Seq<char>>,
) -> Result<(), AuthError> {
    match actions {
        None => Ok(()),
        Some(a) => if !allow_banned_players {
            if a.len() == 0 {
                Ok(())
            } else {
                Err(AuthError::Banned)
            }
        } else if forall|i: int| 0 <= i < allowed_actions.len() ==> a.contains(allowed_actions[i]) {
            Ok(())
        } else {
            Err(AuthError::DisallowedAction)
        },
    }
}

/// The texts held by a list of strings.
pub open spec fn texts(list: Seq<String>) -> Seq<Seq<char>> {
    list.map_values(|s: String| s@)
}

fn contains_string(list: &Vec<String>, item: &String) -> (r: bool)
    ensures
        r == texts(list@).contains(item@),
{
    let mut i: usize = 0;
    while i < list.len()
        invariant
            i <= list@.len(),
            forall|k: int| 0 <= k < i ==> list@[k]@ != item@,
        decreases list@.len() - i,
    {
        if list[i] == *item {
            assert(texts(list@)[i as int] == item@);
            return true;
        }
        i += 1;
    }
    assert(!texts(list@).contains(item@)) by {
        if texts(list@).contains(item@) {
            let k = choose|k: int| 0 <= k < texts(list@).len() && texts(list@)[k] == item@;
            assert(list@[k]@ == item@);
        }
    }
    false
}

/// Checks the actions the session service reports against a verified profile.
pub fn check_profile_actions(
    actions: &Option<Vec<String>>,
    allow_banned_players: bool,
    allowed_actions: &Vec<String>,
) -> (r: Result<(), AuthError>)
    ensures
        r == profile_actions_outcome(
            match actions {
                Some(a) => Some(texts(a@)),
                None => None,
            },
            allow_banned_players,
            texts(allowed_actions@),
        ),
{
    match actions {
        None => Ok(()),
        Some(a) => {
            if !allow_banned_players {
                if a.len() == 0 {
                    Ok(())
                } else {
                    Err(AuthError::Banned)
                }
            } else {
                let mut i: usize = 0;
                while i < allowed_actions.len()
                    invariant
                        allow_banned_players,
                        *actions == Some(*a),
                        i <= allowed_actions@.len(),
                        forall|k: int| 0 <= k < i ==> texts(a@).contains(#[trigger] allowed_actions@[k]@),
                    decreases allowed_actions@.len() - i,
                {
                    if !contains_string(a, &allowed_actions[i]) {
                        assert(texts(allowed_actions@)[i as int] == allowed_actions@[i as int]@);
                        assert(!(forall|k: int|
                            0 <= k < texts(allowed_actions@).len() ==> texts(a@).contains(
                                texts(allowed_actions@)[k],
                            )));
                        return Err(AuthError::DisallowedAction);
                    }
                    i += 1;
                }
                assert forall|k: int| 0 <= k < texts(allowed_actions@).len() implies texts(
                    a@,
                ).contains(texts(allowed_actions@)[k]) by {
                    assert(texts(allowed_actions@)[k] == allowed_actions@[k]@);
                }
                Ok(())
            }
        },
    }
}

/// Relies on `rand::random`: four random bytes for the login verify token, of which nothing is
/// promised.
#[verifier::external_body]
fn random_verify_token() -> (r: u32) {
    u32::from_le_bytes(rand::random::<[u8; 4]>())
}

impl Client {
    pub fn new(settings: LoginSettings) -> (r: Client)
        ensures
            r.connection_state == ConnectionState::HandShake,
            r.gameprofile is None,
            r.compression is None,
            r.settings == settings,
    {
        Client {
            connection_state: ConnectionState::HandShake,
            protocol_version: 0,
            server_address: String::new(),
            gameprofile: None,
            config: None,
            brand: None,
            compression: None,
            forwarded_address: None,
            settings,
        }
    }

    /// Whether a player name is acceptable: 1 to 16 printable ASCII characters.
    pub fn is_valid_player_name(name: &str) -> (r: bool)
        ensures
            r == valid_player_name(name@),
    {
        let n = name.unicode_len();
        if n < 1 || n > MAX_PLAYER_NAME_LEN {
            return false;
        }
        let mut i: usize = 0;
        while i < n
            invariant
                n == name@.len(),
                i <= n,
                forall|k: int| 0 <= k < i ==> 33 <= (#[trigger] name@[k]) as u32 <= 126,
            decreases n - i,
        {
            let c = name.get_char(i);
            if (c as u32) < 33 || (c as u32) > 126 {
                return false;
            }
            i += 1;
        }
        true
    }

    /// Actions that complete a login with a known profile: compression first when enabled,
    /// then the login success.
    fn finish_login(&mut self, id: u128, name: String) -> (r: Vec<ClientAction>)
        ensures
            final(self).connection_state == old(self).connection_state,
            final(self).settings == old(self).settings,
            compression_enabled(old(self).settings) ==> r@.len() == 2
                && r@[0] == ClientAction::SendSetCompression(
                old(self).settings.compression_threshold->0,
            ) && r@[1] == ClientAction::SendLoginSuccess(id, name)
                && final(self).compression == old(self).settings.compression_threshold,
            !compression_enabled(old(self).settings) ==> r@ == seq![
                ClientAction::SendLoginSuccess(id, name),
            ] && final(self).compression == old(self).compression,
    {
        let mut actions: Vec<ClientAction> = Vec::new();
        match self.settings.compression_threshold {
            Some(t) => {
                if t >= 0 {
                    actions.push(ClientAction::SendSetCompression(t));
                    self.compression = Some(t);
                }
            },
            None => {},
        }
        actions.push(ClientAction::SendLoginSuccess(id, name));
        actions
    }

    /// Handles a packet from the client, or an outcome of work done outside for this
    /// connection, in the current phase.
    pub fn handle_packet(&mut self, packet: ServerPacket) -> (r: Vec<ClientAction>)
        ensures
            final(self).connection_state == next_state(old(self).connection_state, packet, old(self).settings, old(self).server_address@),
            final(self).settings == old(self).settings,
            old(self).connection_state == ConnectionState::Closed ==> r@.len() == 0,
            next_state(old(self).connection_state, packet, old(self).settings, old(self).server_address@) == ConnectionState::Closed
                && old(self).connection_state != ConnectionState::Closed ==> r@.len() >= 1 && (
            r@.last() is Close || r@.last() is Kick),
            old(self).connection_state == ConnectionState::HandShake ==> match packet {
                ServerPacket::Handshake(h) => if h.next_state == 2 && h.protocol_version
                    < CURRENT_MC_PROTOCOL {
                    r@ == seq![ClientAction::Kick(KickReason::ClientOutdated(h.protocol_version))]
                    && final(self).protocol_version == h.protocol_version
                    && final(self).server_address == h.server_address
                } else if h.next_state == 2 && h.protocol_version > CURRENT_MC_PROTOCOL {
                    r@ == seq![ClientAction::Kick(KickReason::ServerOutdated)]
                    && final(self).protocol_version == h.protocol_version
                    && final(self).server_address == h.server_address
                } else if h.next_state == 1 || h.next_state == 2 {
                    r@.len() == 0 && final(self).protocol_version == h.protocol_version
                        && final(self).server_address == h.server_address
                } else {
                    r@ == seq![ClientAction::Close]
                },
                _ => r@ == seq![ClientAction::Close],
            },
            old(self).connection_state == ConnectionState::Status ==> match packet {
                ServerPacket::StatusRequest => r@ == seq![ClientAction::SendStatusResponse],
                ServerPacket::PingRequest(p) => r@ == seq![
                    ClientAction::SendPong(p),
                    ClientAction::Close,
                ],
                _ => r@ == seq![ClientAction::Close],
            },
            old(self).connection_state == ConnectionState::Login ==> match packet {
                ServerPacket::LoginStart(l) => login_start_done(*old(self), l, r@, *final(self)),
                ServerPacket::LoginVerified(v) => match v {
                    Ok(p) => r@.last() == ClientAction::SendLoginSuccess(p.id, p.name)
                        && final(self).gameprofile == Some(p) && (compression_enabled(
                        old(self).settings,
                    ) ==> r@.len() == 2 && r@[0] == ClientAction::SendSetCompression(
                        old(self).settings.compression_threshold->0,
                    )) && (!compression_enabled(old(self).settings) ==> r@.len() == 1),
                    Err(msg) => r@ == seq![
                        ClientAction::Kick(KickReason::AuthenticationFailed(msg)),
                    ],
                },
                ServerPacket::Deferred(_, _) => r@.len() == 0,
                ServerPacket::LoginAcknowledged => if old(self).settings.resource_pack {
                    r@ == seq![
                        ClientAction::SendBranding,
                        ClientAction::SendResourcePack,
                        ClientAction::SendKnownPacks,
                    ]
                } else {
                    r@ == seq![ClientAction::SendBranding, ClientAction::SendKnownPacks]
                },
                _ => r@ == seq![ClientAction::Close],
            },
            old(self).connection_state == ConnectionState::Config ==> match packet {
                ServerPacket::ClientInformation(c) => if valid_client_information(c) {
                    r@.len() == 0 && final(self).config == Some(config_from(c))
                } else {
                    r@ == seq![ClientAction::Kick(KickReason::InvalidClientInformation)]
                },
                ServerPacket::PluginMessage(m) => if bad_brand(m) {
                    r@ == seq![ClientAction::Kick(KickReason::InvalidBrand)]
                } else {
                    r@.len() == 0 && (is_brand_channel(m.channel@) ==> (final(self).brand matches Some(
                        b,
                    ) && b@ == vstd::utf8::decode_utf8(m.data@)))
                },
                ServerPacket::KnownPacks => r@ == seq![
                    ClientAction::SendRegistryData,
                    ClientAction::SendFinishConfig,
                ],
                ServerPacket::AcknowledgeFinishConfig => r@ == seq![ClientAction::EnterPlay],
                ServerPacket::Deferred(_, _) => r@.len() == 0,
                _ => r@ == seq![ClientAction::Close],
            },
            old(self).connection_state == ConnectionState::Play ==> match packet {
                ServerPacket::PlayPacket => r@.len() == 0,
                _ => r@ == seq![ClientAction::Close],
            },
    {
        let state = self.connection_state;
        match state {
            ConnectionState::Closed => {
                return Vec::new();
            },
            _ => {},
        }
        match packet {
            ServerPacket::Handshake(h) => {
                if state == ConnectionState::HandShake {
                    self.handle_handshake(h)
                } else {
                    self.protocol_error()
                }
            },
            ServerPacket::StatusRequest => {
                if state == ConnectionState::Status {
                    vec![ClientAction::SendStatusResponse]
                } else {
                    self.protocol_error()
                }
            },
            ServerPacket::PingRequest(payload) => {
                if state == ConnectionState::Status {
                    self.connection_state = ConnectionState::Closed;
                    vec![ClientAction::SendPong(payload), ClientAction::Close]
                } else {
                    self.protocol_error()
                }
            },
            ServerPacket::LoginStart(l) => {
                if state == ConnectionState::Login {
                    self.handle_login_start(l)
                } else {
                    self.protocol_error()
                }
            },
            ServerPacket::LoginVerified(v) => {
                if state == ConnectionState::Login {
                    match v {
                        Ok(profile) => {
                            let GameProfile { id, name } = profile;
                            let display = name.clone();
                            let actions = self.finish_login(id, display);
                            self.gameprofile = Some(GameProfile { id, name });
                            actions
                        },
                        Err(msg) => self.kick(KickReason::AuthenticationFailed(msg)),
                    }
                } else {
                    self.protocol_error()
                }
            },
            ServerPacket::LoginAcknowledged => {
                if state == ConnectionState::Login {
                    self.connection_state = ConnectionState::Config;
                    if self.settings.resource_pack {
                        vec![
                            ClientAction::SendBranding,
                            ClientAction::SendResourcePack,
                            ClientAction::SendKnownPacks,
                        ]
                    } else {
                        vec![ClientAction::SendBranding, ClientAction::SendKnownPacks]
                    }
                } else {
                    self.protocol_error()
                }
            },
            ServerPacket::ClientInformation(c) => {
                if state == ConnectionState::Config {
                    self.handle_client_information_config(c)
                } else {
                    self.protocol_error()
                }
            },
            ServerPacket::PluginMessage(m) => {
                if state == ConnectionState::Config {
                    self.handle_plugin_message(m)
                } else {
                    self.protocol_error()
                }
            },
            ServerPacket::KnownPacks => {
                if state == ConnectionState::Config {
                    vec![ClientAction::SendRegistryData, ClientAction::SendFinishConfig]
                } else {
                    self.protocol_error()
                }
            },
            ServerPacket::AcknowledgeFinishConfig => {
                if state == ConnectionState::Config {
                    self.connection_state = ConnectionState::Play;
                    vec![ClientAction::EnterPlay]
                } else {
                    self.protocol_error()
                }
            },
            ServerPacket::Deferred(_, _) => {
                if state == ConnectionState::Login || state == ConnectionState::Config {
                    Vec::new()
                } else {
                    self.protocol_error()
                }
            },
            ServerPacket::PlayPacket => {
                if state == ConnectionState::Play {
                    Vec::new()
                } else {
                    self.protocol_error()
                }
            },
            ServerPacket::Unknown(_) => self.protocol_error(),
        }
    }

    fn protocol_error(&mut self) -> (r: Vec<ClientAction>)
        ensures
            final(self).connection_state == ConnectionState::Closed,
            final(self).settings == old(self).settings,
            r@ == seq![ClientAction::Close],
    {
        self.connection_state = ConnectionState::Closed;
        vec![ClientAction::Close]
    }

    fn kick(&mut self, reason: KickReason) -> (r: Vec<ClientAction>)
        ensures
            final(self).connection_state == ConnectionState::Closed,
            final(self).settings == old(self).settings,
            r@ == seq![ClientAction::Kick(reason)],
            final(self).gameprofile == old(self).gameprofile,
            final(self).protocol_version == old(self).protocol_version,
            final(self).server_address == old(self).server_address,
    {
        self.connection_state = ConnectionState::Closed;
        vec![ClientAction::Kick(reason)]
    }

    fn handle_handshake(&mut self, handshake: SHandShake) -> (r: Vec<ClientAction>)
        requires
            old(self).connection_state == ConnectionState::HandShake,
        ensures
            final(self).connection_state == next_state(
                ConnectionState::HandShake,
                ServerPacket::Handshake(handshake),
                old(self).settings,
                old(self).server_address@,
            ),
            final(self).settings == old(self).settings,
            if handshake.next_state == 2 && handshake.protocol_version < CURRENT_MC_PROTOCOL {
                r@ == seq![ClientAction::Kick(KickReason::ClientOutdated(handshake.protocol_version))]
                    && final(self).protocol_version == handshake.protocol_version
                    && final(self).server_address == handshake.server_address
            } else if handshake.next_state == 2 && handshake.protocol_version > CURRENT_MC_PROTOCOL {
                r@ == seq![ClientAction::Kick(KickReason::ServerOutdated)]
                    && final(self).protocol_version == handshake.protocol_version
                    && final(self).server_address == handshake.server_address
            } else if handshake.next_state == 1 || handshake.next_state == 2 {
                r@.len() == 0 && final(self).protocol_version == handshake.protocol_version
                    && final(self).server_address == handshake.server_address
            } else {
                r@ == seq![ClientAction::Close]
            },
    {
        let version = handshake.protocol_version;
        self.protocol_version = version;
        self.server_address = handshake.server_address;
        if handshake.next_state == 1 {
            self.connection_state = ConnectionState::Status;
            Vec::new()
        } else if handshake.next_state == 2 {
            if version < CURRENT_MC_PROTOCOL {
                self.kick(KickReason::ClientOutdated(version))
            } else if version > CURRENT_MC_PROTOCOL {
                self.kick(KickReason::ServerOutdated)
            } else {
                self.connection_state = ConnectionState::Login;
                Vec::new()
            }
        } else {
            self.protocol_error()
        }
    }

    fn handle_login_start(&mut self, login_start: SLoginStart) -> (r: Vec<ClientAction>)
        requires
            old(self).connection_state == ConnectionState::Login,
        ensures
            final(self).connection_state == next_state(
                ConnectionState::Login,
                ServerPacket::LoginStart(login_start),
                old(self).settings,
                old(self).server_address@,
            ),
            final(self).settings == old(self).settings,
            login_start_done(*old(self), login_start, r@, *final(self)),
    {
        if !Self::is_valid_player_name(login_start.name.as_str()) {
            return self.kick(KickReason::InvalidUsername);
        }
        let SLoginStart { name, uuid } = login_start;
        match self.settings.proxy {
            ProxyMode::Velocity => {
                let actions = vec![ClientAction::SendVelocityRequest];
                assert(actions@ == seq![ClientAction::SendVelocityRequest]);
                actions
            },
            ProxyMode::BungeeCord => match forwarded_login(self.server_address.as_str()) {
                None => self.kick(KickReason::BungeeCordForwarding),
                Some((ip, id)) => {
                    let display = name.clone();
                    let actions = self.finish_login(id, display);
                    self.gameprofile = Some(GameProfile { id, name });
                    self.forwarded_address = Some(ip);
                    assert(login_finished(*old(self), id, name, actions@, *self));
                    actions
                },
            },
            ProxyMode::Direct => {
                if self.settings.online_mode {
                    self.gameprofile = Some(GameProfile { id: uuid, name });
                    let token = random_verify_token();
                    vec![ClientAction::SendEncryptionRequest(token)]
                } else {
                    let display = name.clone();
                    let actions = self.finish_login(uuid, display);
                    self.gameprofile = Some(GameProfile { id: uuid, name });
                    actions
                }
            },
        }
    }

    /// Whether `s` starts with `prefix`.
    fn starts_with(s: &str, prefix: &str) -> (r: bool)
        ensures
            r == has_prefix(s@, prefix@),
    {
        let n = s.unicode_len();
        let m = prefix.unicode_len();
        if m > n {
            return false;
        }
        let mut i: usize = 0;
        while i < m
            invariant
                n == s@.len(),
                m == prefix@.len(),
                m <= n,
                i <= m,
                forall|k: int| 0 <= k < i ==> s@[k] == prefix@[k],
            decreases m - i,
        {
            if s.get_char(i) != prefix.get_char(i) {
                assert(s@.subrange(0, m as int)[i as int] != prefix@[i as int]);
                return false;
            }
            i += 1;
        }
        assert(s@.subrange(0, m as int) =~= prefix@);
        true
    }

    fn handle_plugin_message(&mut self, message: SPluginMessage) -> (r: Vec<ClientAction>)
        requires
            old(self).connection_state == ConnectionState::Config,
        ensures
            final(self).connection_state == next_state(
                ConnectionState::Config,
                ServerPacket::PluginMessage(message),
                old(self).settings,
                old(self).server_address@,
            ),
            final(self).settings == old(self).settings,
            if bad_brand(message) {
                r@ == seq![ClientAction::Kick(KickReason::InvalidBrand)]
            } else {
                r@.len() == 0 && (is_brand_channel(message.channel@) ==> (final(self).brand matches Some(
                    b,
                ) && b@ == vstd::utf8::decode_utf8(message.data@)))
            },
    {
        let brand = Self::starts_with(message.channel.as_str(), "minecraft:brand")
            || Self::starts_with(message.channel.as_str(), "MC|Brand");
        if !brand {
            return Vec::new();
        }
        match string_from_utf8(message.data) {
            Some(text) => {
                self.brand = Some(text);
                Vec::new()
            },
            None => self.kick(KickReason::InvalidBrand),
        }
    }

    fn handle_client_information_config(&mut self, info: SClientInformationConfig) -> (r: Vec<
        ClientAction,
    >)
        requires
            old(self).connection_state == ConnectionState::Config,
        ensures
            final(self).connection_state == next_state(
                ConnectionState::Config,
                ServerPacket::ClientInformation(info),
                old(self).settings,
                old(self).server_address@,
            ),
            final(self).settings == old(self).settings,
            if valid_client_information(info) {
                r@.len() == 0 && final(self).config == Some(config_from(info))
            } else {
                r@ == seq![ClientAction::Kick(KickReason::InvalidClientInformation)]
            },
    {
        let hand = if info.main_hand == 0 {
            Some(Hand::Left)
        } else if info.main_hand == 1 {
            Some(Hand::Right)
        } else {
            None
        };
        match (hand, ChatMode::try_from(info.chat_mode)) {
            (Some(main_hand), Ok(chat_mode)) => {
                self.config = Some(
                    PlayerConfig {
                        locale: info.locale,
                        view_distance: info.view_distance,
                        chat_mode,
                        chat_colors: info.chat_colors,
                        skin_parts: info.skin_parts,
                        main_hand,
                        text_filtering: info.text_filtering,
                        server_listing: info.server_listing,
                    },
                );
                Vec::new()
            },
            _ => self.kick(KickReason::InvalidClientInformation),
        }
    }
}

} // verus!
