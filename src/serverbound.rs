use vstd::prelude::*;

use crate::codec::{
    parse_bool, parse_i64, parse_string, parse_u128, parse_u8, parse_var_int, ByteBuffer,
    DeserializerError,
};
use crate::connection::{
    parse_handshake, ConnectionState, SClientInformationConfig, SHandShake, SLoginStart,
    SPluginMessage, ServerPacket, MAX_PLAYER_NAME_LEN,
};
use crate::frame::RawPacket;

verus! {

/// Longest plugin channel name, in bytes.
pub const MAX_CHANNEL_LEN: usize = 32767;

/// Longest locale name, in bytes.
pub const MAX_LOCALE_LEN: usize = 16;

/// A login start payload: the player's name, then the 128-bit id it claims.
pub open spec fn parse_login_start(s: Seq<u8>) -> Result<(Seq<char>, u128), DeserializerError> {
    match parse_string(s, MAX_PLAYER_NAME_LEN as nat) {
        Err(e) => Err(e),
        Ok((name, n)) => match parse_u128(s.skip(n as int)) {
            Err(e) => Err(e),
            Ok((id, _)) => Ok((name, id)),
        },
    }
}

/// A plugin message payload: the channel name, then the data up to the end.
pub open spec fn parse_plugin_message(s: Seq<u8>) -> Result<(Seq<char>, Seq<u8>), DeserializerError> {
    match parse_string(s, MAX_CHANNEL_LEN as nat) {
        Err(e) => Err(e),
        Ok((channel, n)) => Ok((channel, s.skip(n as int))),
    }
}

/// The client settings fields, in order.
pub struct ClientInformationFields {
    pub locale: Seq<char>,
    pub view_distance: i8,
    pub chat_mode: i32,
    pub chat_colors: bool,
    pub skin_parts: u8,
    pub main_hand: i32,
    pub text_filtering: bool,
    pub server_listing: bool,
}

/// A client information payload: locale, view distance, chat mode, chat colors, skin parts,
/// main hand, text filtering, server listing.
pub open spec fn parse_client_information(s: Seq<u8>) -> Result<ClientInformationFields, DeserializerError> {
    match parse_string(s, MAX_LOCALE_LEN as nat) {
        Err(e) => Err(e),
        Ok((locale, n1)) => {
            let s1 = s.skip(n1 as int);
            match parse_u8(s1) {
                Err(e) => Err(e),
                Ok((view, n2)) => {
                    let s2 = s1.skip(n2 as int);
                    match parse_var_int(s2) {
                        Err(e) => Err(e),
                        Ok((chat_mode, n3)) => {
                            let s3 = s2.skip(n3 as int);
                            match parse_bool(s3) {
                                Err(e) => Err(e),
                                Ok((colors, n4)) => {
                                    let s4 = s3.skip(n4 as int);
                                    match parse_u8(s4) {
                                        Err(e) => Err(e),
                                        Ok((skin, n5)) => {
                                            let s5 = s4.skip(n5 as int);
                                            match parse_var_int(s5) {
                                                Err(e) => Err(e),
                                                Ok((hand, n6)) => {
                                                    let s6 = s5.skip(n6 as int);
                                                    match parse_bool(s6) {
                                                        Err(e) => Err(e),
                                                        Ok((filtering, n7)) => {
                                                            let s7 = s6.skip(n7 as int);
                                                            match parse_bool(s7) {
                                                                Err(e) => Err(e),
                                                                Ok((listing, _)) => Ok(
                                                                    ClientInformationFields {
                                                                        locale,
                                                                        view_distance: view as i8,
                                                                        chat_mode,
                                                                        chat_colors: colors,
                                                                        skin_parts: skin,
                                                                        main_hand: hand,
                                                                        text_filtering: filtering,
                                                                        server_listing: listing,
                                                                    },
                                                                ),
                                                            }
                                                        },
                                                    }
                                                },
                                            }
                                        },
                                    }
                                },
                            }
                        },
                    }
                },
            }
        },
    }
}

/// Whether a login-phase packet id is one handled outside the phase logic: encryption
/// response, plugin response, cookie response.
pub open spec fn deferred_login_id(id: i32) -> bool {
    id == 1 || id == 2 || id == 4
}

/// Whether a configuration-phase packet id is one handled outside the phase logic: cookie
/// response, keep-alive, pong, resource pack response.
pub open spec fn deferred_config_id(id: i32) -> bool {
    id == 1 || id == 4 || id == 5 || id == 6
}

/// Whether `r` is the packet that id `id` with payload `p` stands for in phase `state`.
pub open spec fn decoded_as(
    state: ConnectionState,
    id: i32,
    p: Seq<u8>,
    r: Result<ServerPacket, DeserializerError>,
) -> bool {
    match state {
        ConnectionState::HandShake => if id == 0 {
            match parse_handshake(p) {
                Ok((version, address, port, next)) => r matches Ok(ServerPacket::Handshake(h))
                    && h.protocol_version == version && h.server_address@ == address
                    && h.server_port == port && h.next_state == next,
                Err(e) => r == Err::<ServerPacket, DeserializerError>(e),
            }
        } else {
            r matches Ok(ServerPacket::Unknown(i)) && i == id
        },
        ConnectionState::Status => if id == 0 {
            r matches Ok(ServerPacket::StatusRequest)
        } else if id == 1 {
            match parse_i64(p) {
                Ok((v, _)) => r matches Ok(ServerPacket::PingRequest(x)) && x == v,
                Err(e) => r == Err::<ServerPacket, DeserializerError>(e),
            }
        } else {
            r matches Ok(ServerPacket::Unknown(i)) && i == id
        },
        ConnectionState::Login => if id == 0 {
            match parse_login_start(p) {
                Ok((name, uuid)) => r matches Ok(ServerPacket::LoginStart(l)) && l.name@ == name
                    && l.uuid == uuid,
                Err(e) => r == Err::<ServerPacket, DeserializerError>(e),
            }
        } else if id == 3 {
            r matches Ok(ServerPacket::LoginAcknowledged)
        } else if deferred_login_id(id) {
            r matches Ok(ServerPacket::Deferred(i, d)) && i == id && d@ == p
        } else {
            r matches Ok(ServerPacket::Unknown(i)) && i == id
        },
        ConnectionState::Config => if id == 0 {
            match parse_client_information(p) {
                Ok(f) => r matches Ok(ServerPacket::ClientInformation(c)) && c.locale@ == f.locale
                    && c.view_distance == f.view_distance && c.chat_mode == f.chat_mode
                    && c.chat_colors == f.chat_colors && c.skin_parts == f.skin_parts
                    && c.main_hand == f.main_hand && c.text_filtering == f.text_filtering
                    && c.server_listing == f.server_listing,
                Err(e) => r == Err::<ServerPacket, DeserializerError>(e),
            }
        } else if id == 2 {
            match parse_plugin_message(p) {
                Ok((channel, data)) => r matches Ok(ServerPacket::PluginMessage(m))
                    && m.channel@ == channel && m.data@ == data,
                Err(e) => r == Err::<ServerPacket, DeserializerError>(e),
            }
        } else if id == 3 {
            r matches Ok(ServerPacket::AcknowledgeFinishConfig)
        } else if id == 7 {
            r matches Ok(ServerPacket::KnownPacks)
        } else if deferred_config_id(id) {
            r matches Ok(ServerPacket::Deferred(i, d)) && i == id && d@ == p
        } else {
            r matches Ok(ServerPacket::Unknown(i)) && i == id
        },
        ConnectionState::Play => r matches Ok(ServerPacket::PlayPacket),
        ConnectionState::Closed => r matches Ok(ServerPacket::Unknown(i)) && i == id,
    }
}

fn rest_of(buf: &ByteBuffer) -> (r: Vec<u8>)
    requires
        buf.wf(),
    ensures
        r@ == buf.rest(),
{
    let mut out: Vec<u8> = Vec::new();
    let mut k: usize = buf.pos;
    while k < buf.data.len()
        invariant
            buf.pos <= k <= buf.data@.len(),
            out@ == buf.data@.subrange(buf.pos as int, k as int),
        decreases buf.data@.len() - k,
    {
        out.push(buf.data[k]);
        k += 1;
        assert(out@ =~= buf.data@.subrange(buf.pos as int, k as int));
    }
    out
}

fn read_client_information(buf: &mut ByteBuffer) -> (r: Result<SClientInformationConfig, DeserializerError>)
    requires
        old(buf).wf(),
    ensures
        match parse_client_information(old(buf).rest()) {
            Ok(f) => r matches Ok(c) && c.locale@ == f.locale && c.view_distance == f.view_distance
                && c.chat_mode == f.chat_mode && c.chat_colors == f.chat_colors && c.skin_parts
                == f.skin_parts && c.main_hand == f.main_hand && c.text_filtering
                == f.text_filtering && c.server_listing == f.server_listing,
            Err(e) => r == Err::<SClientInformationConfig, DeserializerError>(e),
        },
{
    let ghost rest0 = buf.rest();
    let ghost at0 = buf.pos;
    let locale = buf.get_string_len(MAX_LOCALE_LEN)?;
    assert(buf.rest() =~= rest0.skip(buf.pos - at0));
    let ghost rest1 = buf.rest();
    let ghost at1 = buf.pos;
    let view = buf.get_u8()?;
    assert(buf.rest() =~= rest1.skip(buf.pos - at1));
    let ghost rest2 = buf.rest();
    let ghost at2 = buf.pos;
    let chat_mode = buf.get_var_int()?;
    assert(buf.rest() =~= rest2.skip(buf.pos - at2));
    let ghost rest3 = buf.rest();
    let ghost at3 = buf.pos;
    let chat_colors = buf.get_bool()?;
    assert(buf.rest() =~= rest3.skip(buf.pos - at3));
    let ghost rest4 = buf.rest();
    let ghost at4 = buf.pos;
    let skin_parts = buf.get_u8()?;
    assert(buf.rest() =~= rest4.skip(buf.pos - at4));
    let ghost rest5 = buf.rest();
    let ghost at5 = buf.pos;
    let main_hand = buf.get_var_int()?;
    assert(buf.rest() =~= rest5.skip(buf.pos - at5));
    let ghost rest6 = buf.rest();
    let ghost at6 = buf.pos;
    let text_filtering = buf.get_bool()?;
    assert(buf.rest() =~= rest6.skip(buf.pos - at6));
    let server_listing = buf.get_bool()?;
    #[verifier::truncate]
    let view_distance: i8 = view as i8;
    Ok(
        SClientInformationConfig {
            locale,
            view_distance,
            chat_mode,
            chat_colors,
            skin_parts,
            main_hand,
            text_filtering,
            server_listing,
        },
    )
}

/// Reads a packet received in phase `state` by its id: ids the phase does not know give
/// `Unknown`, and every play-phase packet goes to the player runtime.
pub fn decode_server_packet(state: ConnectionState, packet: RawPacket) -> (r: Result<
    ServerPacket,
    DeserializerError,
>)
    ensures
        decoded_as(state, packet.id, packet.payload@, r),
{
    let id = packet.id;
    let ghost p = packet.payload@;
    let mut buf = ByteBuffer::new(packet.payload);
    match state {
        ConnectionState::HandShake => {
            if id == 0 {
                let h = SHandShake::read(&mut buf)?;
                Ok(ServerPacket::Handshake(h))
            } else {
                Ok(ServerPacket::Unknown(id))
            }
        },
        ConnectionState::Status => {
            if id == 0 {
                Ok(ServerPacket::StatusRequest)
            } else if id == 1 {
                let payload = buf.get_i64()?;
                Ok(ServerPacket::PingRequest(payload))
            } else {
                Ok(ServerPacket::Unknown(id))
            }
        },
        ConnectionState::Login => {
            if id == 0 {
                let name = buf.get_string_len(MAX_PLAYER_NAME_LEN)?;
                assert(buf.rest() =~= p.skip(buf.pos as int));
                let uuid = buf.get_u128()?;
                Ok(ServerPacket::LoginStart(SLoginStart { name, uuid }))
            } else if id == 3 {
                Ok(ServerPacket::LoginAcknowledged)
            } else if id == 1 || id == 2 || id == 4 {
                Ok(ServerPacket::Deferred(id, buf.data))
            } else {
                Ok(ServerPacket::Unknown(id))
            }
        },
        ConnectionState::Config => {
            if id == 0 {
                let c = read_client_information(&mut buf)?;
                Ok(ServerPacket::ClientInformation(c))
            } else if id == 2 {
                let channel = buf.get_string_len(MAX_CHANNEL_LEN)?;
                let data = rest_of(&buf);
                assert(data@ =~= p.skip(buf.pos as int));
                Ok(ServerPacket::PluginMessage(SPluginMessage { channel, data }))
            } else if id == 3 {
                Ok(ServerPacket::AcknowledgeFinishConfig)
            } else if id == 7 {
                Ok(ServerPacket::KnownPacks)
            } else if id == 1 || id == 4 || id == 5 || id == 6 {
                Ok(ServerPacket::Deferred(id, buf.data))
            } else {
                Ok(ServerPacket::Unknown(id))
            }
        },
        ConnectionState::Play => Ok(ServerPacket::PlayPacket),
        ConnectionState::Closed => Ok(ServerPacket::Unknown(id)),
    }
}

} // verus!
