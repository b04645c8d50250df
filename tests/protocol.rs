use pumpkin::chat::ChatMode;
use pumpkin::frame::RawPacket;
use pumpkin::serverbound::decode_server_packet;
use pumpkin::codec::{write_var_int, ByteBuffer, DeserializerError};
use pumpkin::connection::{
    check_profile_actions, AuthError, Client, ClientAction, ConnectionState, GameProfile,
    KickReason, LoginSettings, ProxyMode, SClientInformationConfig, SHandShake, SLoginStart, SPluginMessage,
    ServerPacket, CURRENT_MC_PROTOCOL,
};

fn offline() -> LoginSettings {
    LoginSettings { online_mode: false, compression_threshold: None, resource_pack: false, proxy: ProxyMode::Direct }
}

fn handshake(version: i32, next: i32) -> ServerPacket {
    ServerPacket::Handshake(SHandShake {
        protocol_version: version,
        server_address: "x".to_string(),
        server_port: 25565,
        next_state: next,
    })
}

#[test]
fn var_int_of_five_bytes_is_read() {
    let mut buf = ByteBuffer::new(vec![0xff, 0xff, 0xff, 0xff, 0x0f]);
    assert_eq!(buf.get_var_int(), Ok(-1));
    assert_eq!(buf.pos, 5);
    let mut buf = ByteBuffer::new(vec![0xff, 0xff, 0xff, 0xff, 0x07]);
    assert_eq!(buf.get_var_int(), Ok(i32::MAX));
    let mut buf = ByteBuffer::new(vec![0x80, 0x80, 0x80, 0x80, 0x08]);
    assert_eq!(buf.get_var_int(), Ok(i32::MIN));
}

#[test]
fn var_int_of_six_bytes_is_refused() {
    let mut buf = ByteBuffer::new(vec![0x80, 0x80, 0x80, 0x80, 0x80, 0x01]);
    assert_eq!(buf.get_var_int(), Err(DeserializerError::VarIntTooBig));
}

#[test]
fn truncated_var_int_is_incomplete() {
    let mut buf = ByteBuffer::new(vec![0x80, 0x80]);
    assert_eq!(buf.get_var_int(), Err(DeserializerError::Incomplete));
    let mut buf = ByteBuffer::new(vec![]);
    assert_eq!(buf.get_var_int(), Err(DeserializerError::Incomplete));
}

#[test]
fn var_long_takes_up_to_ten_bytes() {
    let mut bytes = vec![0xff; 9];
    bytes.push(0x01);
    let mut buf = ByteBuffer::new(bytes);
    assert_eq!(buf.get_var_long(), Ok(-1));
    let mut buf = ByteBuffer::new(vec![0x80; 11]);
    assert_eq!(buf.get_var_long(), Err(DeserializerError::VarIntTooBig));
    let mut buf = ByteBuffer::new(vec![0xac, 0x02]);
    assert_eq!(buf.get_var_long(), Ok(300));
}

#[test]
fn var_int_written_and_read_back() {
    for v in [0, 1, 127, 128, 300, 25565, -1, i32::MIN, i32::MAX] {
        let mut out = Vec::new();
        write_var_int(&mut out, v);
        let n = out.len();
        let mut buf = ByteBuffer::new(out);
        assert_eq!(buf.get_var_int(), Ok(v));
        assert_eq!(buf.pos, n);
    }
    let mut out = Vec::new();
    write_var_int(&mut out, 300);
    assert_eq!(out, vec![0xac, 0x02]);
    let mut out = Vec::new();
    write_var_int(&mut out, -1);
    assert_eq!(out, vec![0xff, 0xff, 0xff, 0xff, 0x0f]);
}

fn string_bytes(s: &str) -> Vec<u8> {
    let mut out = Vec::new();
    write_var_int(&mut out, s.len() as i32);
    out.extend_from_slice(s.as_bytes());
    out
}

#[test]
fn string_at_the_cap_is_read() {
    let mut buf = ByteBuffer::new(string_bytes("abcde"));
    assert_eq!(buf.get_string_len(5), Ok("abcde".to_string()));
    assert_eq!(buf.pos, 6);
}

#[test]
fn string_over_the_cap_is_refused() {
    let mut buf = ByteBuffer::new(string_bytes("abcdef"));
    assert_eq!(buf.get_string_len(5), Err(DeserializerError::StringTooLong));
}

#[test]
fn string_with_bad_utf8_or_short_data_is_refused() {
    let mut buf = ByteBuffer::new(vec![2, 0xc3, 0x28]);
    assert_eq!(buf.get_string_len(10), Err(DeserializerError::InvalidUtf8));
    let mut buf = ByteBuffer::new(vec![4, b'a']);
    assert_eq!(buf.get_string_len(10), Err(DeserializerError::Incomplete));
    let mut buf = ByteBuffer::new(string_bytes("héllo"));
    assert_eq!(buf.get_string_len(10), Ok("héllo".to_string()));
}

#[test]
fn u16_is_big_endian() {
    let mut buf = ByteBuffer::new(vec![0x63, 0xdd, 0x01]);
    assert_eq!(buf.get_u16(), Ok(25565));
    assert_eq!(buf.get_u16(), Err(DeserializerError::Incomplete));
}

#[test]
fn handshake_is_read() {
    let mut bytes = Vec::new();
    write_var_int(&mut bytes, 767);
    bytes.extend(string_bytes("localhost"));
    bytes.extend_from_slice(&25565u16.to_be_bytes());
    write_var_int(&mut bytes, 2);
    let mut buf = ByteBuffer::new(bytes);
    let h = SHandShake::read(&mut buf).unwrap_or_else(|e| panic!("{:?}", e));
    assert_eq!(h.protocol_version, 767);
    assert_eq!(h.server_address, "localhost");
    assert_eq!(h.server_port, 25565);
    assert_eq!(h.next_state, 2);
}

#[test]
fn handshake_with_long_address_is_refused() {
    let mut bytes = Vec::new();
    write_var_int(&mut bytes, 767);
    bytes.extend(string_bytes(&"a".repeat(256)));
    let mut buf = ByteBuffer::new(bytes);
    assert!(matches!(SHandShake::read(&mut buf), Err(DeserializerError::StringTooLong)));
}

#[test]
fn handshake_status_ping_closes() {
    let mut client = Client::new(offline());
    assert!(client.handle_packet(handshake(767, 1)).is_empty());
    assert_eq!(client.connection_state, ConnectionState::Status);
    let r = client.handle_packet(ServerPacket::StatusRequest);
    assert!(matches!(r.as_slice(), [ClientAction::SendStatusResponse]));
    let r = client.handle_packet(ServerPacket::PingRequest(42));
    assert!(matches!(r.as_slice(), [ClientAction::SendPong(42), ClientAction::Close]));
    assert_eq!(client.connection_state, ConnectionState::Closed);
}

#[test]
fn offline_login_without_compression() {
    let id = 0x1234_5678;
    let mut client = Client::new(offline());
    client.handle_packet(handshake(CURRENT_MC_PROTOCOL, 2));
    assert_eq!(client.connection_state, ConnectionState::Login);
    let r = client.handle_packet(ServerPacket::LoginStart(SLoginStart { name: "Alice".to_string(), uuid: id }));
    assert_eq!(r.len(), 1);
    match &r[0] {
        ClientAction::SendLoginSuccess(u, name) => {
            assert_eq!(*u, id);
            assert_eq!(name, "Alice");
        }
        other => panic!("unexpected {:?}", other),
    }
    assert!(!r.iter().any(|a| matches!(a, ClientAction::SendEncryptionRequest(_))));
    let r = client.handle_packet(ServerPacket::LoginAcknowledged);
    assert!(matches!(r.as_slice(), [ClientAction::SendBranding, ClientAction::SendKnownPacks]));
    assert_eq!(client.connection_state, ConnectionState::Config);
}

#[test]
fn offline_login_with_compression_sends_it_first() {
    let mut client = Client::new(LoginSettings { online_mode: false, compression_threshold: Some(256), resource_pack: false, proxy: ProxyMode::Direct });
    client.handle_packet(handshake(CURRENT_MC_PROTOCOL, 2));
    let r = client.handle_packet(ServerPacket::LoginStart(SLoginStart { name: "Bob".to_string(), uuid: 0 }));
    assert!(matches!(r.as_slice(), [ClientAction::SendSetCompression(256), ClientAction::SendLoginSuccess(_, _)]));
    assert_eq!(client.compression, Some(256));
}

#[test]
fn online_login_asks_for_encryption_then_verifies() {
    let mut client = Client::new(LoginSettings { online_mode: true, compression_threshold: Some(-1), resource_pack: true, proxy: ProxyMode::Direct });
    client.handle_packet(handshake(CURRENT_MC_PROTOCOL, 2));
    let r = client.handle_packet(ServerPacket::LoginStart(SLoginStart { name: "Carol".to_string(), uuid: 0 }));
    assert!(matches!(r.as_slice(), [ClientAction::SendEncryptionRequest(_)]));
    let verified = GameProfile { id: 7, name: "Carol".to_string() };
    let r = client.handle_packet(ServerPacket::LoginVerified(Ok(verified)));
    assert!(matches!(r.as_slice(), [ClientAction::SendLoginSuccess(_, _)]));
    assert_eq!(client.gameprofile.as_ref().map(|p| p.id), Some(7));
    assert_eq!(client.connection_state, ConnectionState::Login);
}

#[test]
fn refused_authentication_kicks() {
    let mut client = Client::new(LoginSettings { online_mode: true, compression_threshold: None, resource_pack: false, proxy: ProxyMode::Direct });
    client.handle_packet(handshake(CURRENT_MC_PROTOCOL, 2));
    client.handle_packet(ServerPacket::LoginStart(SLoginStart { name: "Dan".to_string(), uuid: 0 }));
    let r = client.handle_packet(ServerPacket::LoginVerified(Err("banned".to_string())));
    assert!(matches!(r.as_slice(), [ClientAction::Kick(KickReason::AuthenticationFailed(m))] if m == "banned"));
    assert_eq!(client.connection_state, ConnectionState::Closed);
}

#[test]
fn configuration_then_play() {
    let mut client = Client::new(offline());
    client.handle_packet(handshake(CURRENT_MC_PROTOCOL, 2));
    client.handle_packet(ServerPacket::LoginStart(SLoginStart { name: "Eve".to_string(), uuid: 0 }));
    client.handle_packet(ServerPacket::LoginAcknowledged);
    let info = SClientInformationConfig {
        locale: "en_us".to_string(),
        view_distance: 10,
        chat_mode: 1,
        chat_colors: true,
        skin_parts: 0x7f,
        main_hand: 1,
        text_filtering: false,
        server_listing: true,
    };
    assert!(client.handle_packet(ServerPacket::ClientInformation(info)).is_empty());
    assert_eq!(client.config.as_ref().map(|c| c.chat_mode), Some(ChatMode::CommandsOnly));
    let r = client.handle_packet(ServerPacket::KnownPacks);
    assert!(matches!(r.as_slice(), [ClientAction::SendRegistryData, ClientAction::SendFinishConfig]));
    let r = client.handle_packet(ServerPacket::AcknowledgeFinishConfig);
    assert!(matches!(r.as_slice(), [ClientAction::EnterPlay]));
    assert_eq!(client.connection_state, ConnectionState::Play);
    assert!(client.handle_packet(ServerPacket::PlayPacket).is_empty());
    let r = client.handle_packet(ServerPacket::Unknown(0x99));
    assert!(matches!(r.as_slice(), [ClientAction::Close]));
    assert_eq!(client.connection_state, ConnectionState::Closed);
    assert!(client.handle_packet(ServerPacket::PlayPacket).is_empty());
    assert_eq!(client.connection_state, ConnectionState::Closed);
}

#[test]
fn bad_client_information_kicks() {
    let mut client = Client::new(offline());
    client.handle_packet(handshake(CURRENT_MC_PROTOCOL, 2));
    client.handle_packet(ServerPacket::LoginStart(SLoginStart { name: "Eve".to_string(), uuid: 0 }));
    client.handle_packet(ServerPacket::LoginAcknowledged);
    let info = SClientInformationConfig {
        locale: String::new(),
        view_distance: 2,
        chat_mode: 3,
        chat_colors: false,
        skin_parts: 0,
        main_hand: 0,
        text_filtering: false,
        server_listing: false,
    };
    let r = client.handle_packet(ServerPacket::ClientInformation(info));
    assert!(matches!(r.as_slice(), [ClientAction::Kick(KickReason::InvalidClientInformation)]));
}

#[test]
fn outdated_versions_are_kicked_at_login_only() {
    let mut client = Client::new(offline());
    let r = client.handle_packet(handshake(CURRENT_MC_PROTOCOL - 1, 2));
    assert!(matches!(r.as_slice(), [ClientAction::Kick(KickReason::ClientOutdated(v))] if *v == CURRENT_MC_PROTOCOL - 1));
    assert_eq!(client.connection_state, ConnectionState::Closed);
    let mut client = Client::new(offline());
    let r = client.handle_packet(handshake(CURRENT_MC_PROTOCOL + 1, 2));
    assert!(matches!(r.as_slice(), [ClientAction::Kick(KickReason::ServerOutdated)]));
    let mut client = Client::new(offline());
    assert!(client.handle_packet(handshake(5, 1)).is_empty());
    assert_eq!(client.connection_state, ConnectionState::Status);
}

#[test]
fn unknown_next_state_closes() {
    let mut client = Client::new(offline());
    let r = client.handle_packet(handshake(CURRENT_MC_PROTOCOL, 3));
    assert!(matches!(r.as_slice(), [ClientAction::Close]));
    assert_eq!(client.connection_state, ConnectionState::Closed);
}

#[test]
fn unexpected_packet_closes() {
    let mut client = Client::new(offline());
    let r = client.handle_packet(ServerPacket::StatusRequest);
    assert!(matches!(r.as_slice(), [ClientAction::Close]));
    assert_eq!(client.connection_state, ConnectionState::Closed);
}

#[test]
fn invalid_names_are_kicked() {
    let mut client = Client::new(offline());
    client.handle_packet(handshake(CURRENT_MC_PROTOCOL, 2));
    let r = client.handle_packet(ServerPacket::LoginStart(SLoginStart { name: "bad name".to_string(), uuid: 0 }));
    assert!(matches!(r.as_slice(), [ClientAction::Kick(KickReason::InvalidUsername)]));
    assert_eq!(client.connection_state, ConnectionState::Closed);
}

#[test]
fn player_names_are_checked() {
    assert!(Client::is_valid_player_name("Alice"));
    assert!(Client::is_valid_player_name("a_b-c.d!~"));
    assert!(Client::is_valid_player_name("abcdefghijklmnop"));
    assert!(!Client::is_valid_player_name("abcdefghijklmnopq"));
    assert!(!Client::is_valid_player_name(""));
    assert!(!Client::is_valid_player_name("with space"));
    assert!(!Client::is_valid_player_name("héllo"));
    assert!(!Client::is_valid_player_name("tab\t"));
}

fn configured(settings: LoginSettings) -> Client {
    let mut client = Client::new(settings);
    client.handle_packet(handshake(CURRENT_MC_PROTOCOL, 2));
    client.handle_packet(ServerPacket::LoginStart(SLoginStart { name: "Fay".to_string(), uuid: 0 }));
    client
}

#[test]
fn resource_pack_is_offered_when_configured() {
    let mut client = configured(LoginSettings { online_mode: false, compression_threshold: None, resource_pack: true, proxy: ProxyMode::Direct });
    let r = client.handle_packet(ServerPacket::LoginAcknowledged);
    assert!(matches!(r.as_slice(), [ClientAction::SendBranding, ClientAction::SendResourcePack, ClientAction::SendKnownPacks]));
}

#[test]
fn brand_messages_are_kept() {
    let mut client = configured(offline());
    client.handle_packet(ServerPacket::LoginAcknowledged);
    let r = client.handle_packet(ServerPacket::PluginMessage(SPluginMessage { channel: "minecraft:brand".to_string(), data: b"vanilla".to_vec() }));
    assert!(r.is_empty());
    assert_eq!(client.brand.as_deref(), Some("vanilla"));
    let r = client.handle_packet(ServerPacket::PluginMessage(SPluginMessage { channel: "other:channel".to_string(), data: vec![0xff] }));
    assert!(r.is_empty());
    assert_eq!(client.connection_state, ConnectionState::Config);
    let r = client.handle_packet(ServerPacket::PluginMessage(SPluginMessage { channel: "MC|Brand".to_string(), data: vec![0xff, 0xfe] }));
    assert!(matches!(r.as_slice(), [ClientAction::Kick(KickReason::InvalidBrand)]));
    assert_eq!(client.connection_state, ConnectionState::Closed);
}

#[test]
fn profile_actions_decide_who_joins() {
    let none: Vec<String> = vec![];
    let forced = vec!["FORCED_NAME_CHANGE".to_string()];
    let allowed = vec!["FORCED_NAME_CHANGE".to_string()];
    assert_eq!(check_profile_actions(&None, false, &allowed), Ok(()));
    assert_eq!(check_profile_actions(&Some(none.clone()), false, &allowed), Ok(()));
    assert_eq!(check_profile_actions(&Some(forced.clone()), false, &allowed), Err(AuthError::Banned));
    assert_eq!(check_profile_actions(&Some(forced.clone()), true, &allowed), Ok(()));
    assert_eq!(check_profile_actions(&Some(none), true, &allowed), Err(AuthError::DisallowedAction));
    assert_eq!(check_profile_actions(&Some(forced), true, &vec![]), Ok(()));
}

fn raw(id: i32, payload: Vec<u8>) -> RawPacket {
    RawPacket { id, payload }
}

#[test]
fn status_and_ping_are_decoded_from_bytes() {
    let mut client = Client::new(offline());
    let mut hs = Vec::new();
    write_var_int(&mut hs, 767);
    hs.extend(string_bytes("x"));
    hs.extend_from_slice(&25565u16.to_be_bytes());
    write_var_int(&mut hs, 1);
    let p = decode_server_packet(client.connection_state, raw(0, hs)).unwrap();
    assert!(client.handle_packet(p).is_empty());
    let p = decode_server_packet(client.connection_state, raw(0, vec![])).unwrap();
    assert!(matches!(client.handle_packet(p).as_slice(), [ClientAction::SendStatusResponse]));
    let p = decode_server_packet(client.connection_state, raw(1, 42i64.to_be_bytes().to_vec())).unwrap();
    assert!(matches!(p, ServerPacket::PingRequest(42)));
    assert!(matches!(client.handle_packet(p).as_slice(), [ClientAction::SendPong(42), ClientAction::Close]));
    assert_eq!(client.connection_state, ConnectionState::Closed);
}

#[test]
fn login_start_is_decoded_from_bytes() {
    let mut payload = string_bytes("Alice");
    payload.extend_from_slice(&0x0123_4567_89ab_cdef_0011_2233_4455_6677u128.to_be_bytes());
    match decode_server_packet(ConnectionState::Login, raw(0, payload)).unwrap() {
        ServerPacket::LoginStart(l) => {
            assert_eq!(l.name, "Alice");
            assert_eq!(l.uuid, 0x0123_4567_89ab_cdef_0011_2233_4455_6677);
        }
        _ => panic!("not a login start"),
    }
    let short = string_bytes("Alice");
    assert!(matches!(decode_server_packet(ConnectionState::Login, raw(0, short)), Err(DeserializerError::Incomplete)));
    assert!(matches!(decode_server_packet(ConnectionState::Login, raw(0, string_bytes("seventeen_letters"))), Err(DeserializerError::StringTooLong)));
    assert!(matches!(decode_server_packet(ConnectionState::Login, raw(1, vec![5, 6])), Ok(ServerPacket::Deferred(1, d)) if d == vec![5, 6]));
    assert!(matches!(decode_server_packet(ConnectionState::Login, raw(3, vec![])), Ok(ServerPacket::LoginAcknowledged)));
    assert!(matches!(decode_server_packet(ConnectionState::Login, raw(9, vec![])), Ok(ServerPacket::Unknown(9))));
}

#[test]
fn configuration_packets_are_decoded_from_bytes() {
    let mut info = string_bytes("en_us");
    info.push(12);
    write_var_int(&mut info, 2);
    info.push(1);
    info.push(0x7f);
    write_var_int(&mut info, 0);
    info.push(0);
    info.push(1);
    match decode_server_packet(ConnectionState::Config, raw(0, info)).unwrap() {
        ServerPacket::ClientInformation(c) => {
            assert_eq!(c.locale, "en_us");
            assert_eq!(c.view_distance, 12);
            assert_eq!(c.chat_mode, 2);
            assert!(c.chat_colors);
            assert_eq!(c.skin_parts, 0x7f);
            assert_eq!(c.main_hand, 0);
            assert!(!c.text_filtering);
            assert!(c.server_listing);
        }
        _ => panic!("not client information"),
    }
    let mut msg = string_bytes("minecraft:brand");
    msg.extend_from_slice(b"vanilla");
    match decode_server_packet(ConnectionState::Config, raw(2, msg)).unwrap() {
        ServerPacket::PluginMessage(m) => {
            assert_eq!(m.channel, "minecraft:brand");
            assert_eq!(m.data, b"vanilla".to_vec());
        }
        _ => panic!("not a plugin message"),
    }
    assert!(matches!(decode_server_packet(ConnectionState::Config, raw(3, vec![])), Ok(ServerPacket::AcknowledgeFinishConfig)));
    assert!(matches!(decode_server_packet(ConnectionState::Config, raw(7, vec![0])), Ok(ServerPacket::KnownPacks)));
    assert!(matches!(decode_server_packet(ConnectionState::Config, raw(4, vec![1])), Ok(ServerPacket::Deferred(4, _))));
    assert!(matches!(decode_server_packet(ConnectionState::Config, raw(0x20, vec![])), Ok(ServerPacket::Unknown(0x20))));
    assert!(matches!(decode_server_packet(ConnectionState::Play, raw(0x20, vec![])), Ok(ServerPacket::PlayPacket)));
    assert!(matches!(decode_server_packet(ConnectionState::HandShake, raw(1, vec![])), Ok(ServerPacket::Unknown(1))));
}

fn handshake_to(address: &str) -> ServerPacket {
    ServerPacket::Handshake(SHandShake {
        protocol_version: CURRENT_MC_PROTOCOL,
        server_address: address.to_string(),
        server_port: 25565,
        next_state: 2,
    })
}

#[test]
fn bungeecord_forwarding_sets_the_profile() {
    let settings = LoginSettings { online_mode: true, compression_threshold: None, resource_pack: false, proxy: ProxyMode::BungeeCord };
    let mut client = Client::new(settings);
    client.handle_packet(handshake_to("play.example\x00203.0.113.7\x00069a79f444e94726a5befca90e38aaf5\x00[]"));
    let r = client.handle_packet(ServerPacket::LoginStart(SLoginStart { name: "Notch".to_string(), uuid: 1 }));
    assert!(matches!(r.as_slice(), [ClientAction::SendLoginSuccess(id, name)] if *id == 0x069a79f444e94726a5befca90e38aaf5 && name == "Notch"));
    assert_eq!(client.forwarded_address.as_deref(), Some("203.0.113.7"));
    assert_eq!(client.connection_state, ConnectionState::Login);
}

#[test]
fn bungeecord_without_forwarding_kicks() {
    let settings = LoginSettings { online_mode: false, compression_threshold: None, resource_pack: false, proxy: ProxyMode::BungeeCord };
    let mut client = Client::new(settings);
    client.handle_packet(handshake_to("play.example"));
    let r = client.handle_packet(ServerPacket::LoginStart(SLoginStart { name: "Notch".to_string(), uuid: 1 }));
    assert!(matches!(r.as_slice(), [ClientAction::Kick(KickReason::BungeeCordForwarding)]));
    assert_eq!(client.connection_state, ConnectionState::Closed);
    assert!(client.gameprofile.is_none());
    let mut client = Client::new(settings);
    client.handle_packet(handshake_to("host\x00127.0.0.1\x00not-a-uuid"));
    let r = client.handle_packet(ServerPacket::LoginStart(SLoginStart { name: "Notch".to_string(), uuid: 1 }));
    assert!(matches!(r.as_slice(), [ClientAction::Kick(KickReason::BungeeCordForwarding)]));
}

#[test]
fn velocity_asks_the_proxy() {
    let settings = LoginSettings { online_mode: true, compression_threshold: Some(64), resource_pack: false, proxy: ProxyMode::Velocity };
    let mut client = Client::new(settings);
    client.handle_packet(handshake(CURRENT_MC_PROTOCOL, 2));
    let r = client.handle_packet(ServerPacket::LoginStart(SLoginStart { name: "Ann".to_string(), uuid: 1 }));
    assert!(matches!(r.as_slice(), [ClientAction::SendVelocityRequest]));
    assert!(client.gameprofile.is_none());
    assert!(client.handle_packet(ServerPacket::Deferred(2, vec![1, 2])).is_empty());
    let r = client.handle_packet(ServerPacket::LoginVerified(Ok(GameProfile { id: 5, name: "Ann".to_string() })));
    assert!(matches!(r.as_slice(), [ClientAction::SendSetCompression(64), ClientAction::SendLoginSuccess(5, _)]));
}
