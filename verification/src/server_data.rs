//! The server data a LAN server answers discovery requests with (version 4).

use crate::codec::{
    le_i32, lemma_le_roundtrip, lemma_take_at_prefix, prefixed_u8, read_bytes_u8, read_bytes_u8_spec, read_i32_le,
    read_i32_spec, read_u8, read_u8_spec, string_from_utf8, write_bytes_u8, write_i32_le,
    write_u8,
};
use crate::error::{
    describes, field_out_of_range, invalid_name, unread_bytes, version_mismatch, ErrorKind,
    NameField, NethernetError, ShiftedField,
};
use vstd::bytes::*;
use vstd::prelude::*;
use vstd::utf8::*;

verus! {

/// The version of the server data format.
pub const VERSION: u8 = 4;

/// What a LAN server tells about itself.
#[derive(Debug, Clone)]
pub struct ServerData {
    pub server_name: String,
    pub level_name: String,
    pub game_type: u8,
    pub player_count: i32,
    pub max_player_count: i32,
    pub editor_world: bool,
    pub hardcore: bool,
    pub transport_layer: u8,
    pub connection_type: u8,
}

/// The contents of a `ServerData`, with the names as characters.
pub struct ServerDataView {
    pub server_name: Seq<char>,
    pub level_name: Seq<char>,
    pub game_type: u8,
    pub player_count: i32,
    pub max_player_count: i32,
    pub editor_world: bool,
    pub hardcore: bool,
    pub transport_layer: u8,
    pub connection_type: u8,
}

impl View for ServerData {
    type V = ServerDataView;

    open spec fn view(&self) -> ServerDataView {
        ServerDataView {
            server_name: self.server_name@,
            level_name: self.level_name@,
            game_type: self.game_type,
            player_count: self.player_count,
            max_player_count: self.max_player_count,
            editor_world: self.editor_world,
            hardcore: self.hardcore,
            transport_layer: self.transport_layer,
            connection_type: self.connection_type,
        }
    }
}

/// The server data a server starts from: the given names, game type 0, one
/// player of eight, neither editor world nor hardcore, transport layer 2
/// and connection type 4.
pub open spec fn default_server_data(server_name: Seq<char>, level_name: Seq<char>) -> ServerDataView {
    ServerDataView {
        server_name,
        level_name,
        game_type: 0,
        player_count: 1,
        max_player_count: 8,
        editor_world: false,
        hardcore: false,
        transport_layer: 2,
        connection_type: 4,
    }
}

/// The wire bytes of server data: the version, both names as UTF-8 behind a
/// one-byte length, the game type shifted left by one, both player counts
/// as little-endian `i32`, the two flags as 0 or 1, and transport layer and
/// connection type shifted left by one.
pub open spec fn server_data_bytes(v: ServerDataView) -> Seq<u8> {
    seq![VERSION] + prefixed_u8(encode_utf8(v.server_name)) + prefixed_u8(
        encode_utf8(v.level_name),
    ) + seq![v.game_type << 1] + le_i32(v.player_count) + le_i32(v.max_player_count) + seq![
        if v.editor_world {
            1u8
        } else {
            0u8
        },
        if v.hardcore {
            1u8
        } else {
            0u8
        },
        v.transport_layer << 1,
        v.connection_type << 1,
    ]
}

/// What marshalling server data gives: a shifted field of 128 or more is
/// refused (game type, then transport layer, then connection type), then a
/// name of more than 255 UTF-8 bytes; otherwise the wire bytes.
pub open spec fn server_data_marshal_spec(v: ServerDataView) -> Result<Seq<u8>, ErrorKind> {
    if v.game_type >= 128 {
        Err(ErrorKind::FieldOutOfRange(ShiftedField::GameType, v.game_type))
    } else if v.transport_layer >= 128 {
        Err(ErrorKind::FieldOutOfRange(ShiftedField::TransportLayer, v.transport_layer))
    } else if v.connection_type >= 128 {
        Err(ErrorKind::FieldOutOfRange(ShiftedField::ConnectionType, v.connection_type))
    } else if encode_utf8(v.server_name).len() > 255 {
        Err(ErrorKind::BytesTooLong(encode_utf8(v.server_name).len() as usize))
    } else if encode_utf8(v.level_name).len() > 255 {
        Err(ErrorKind::BytesTooLong(encode_utf8(v.level_name).len() as usize))
    } else {
        Ok(server_data_bytes(v))
    }
}

/// Reading the name `field` as a UTF-8 string behind a one-byte length at
/// `pos`.
pub open spec fn read_string_u8_spec(field: NameField, s: Seq<u8>, pos: int) -> Result<
    (Seq<char>, int),
    ErrorKind,
> {
    match read_bytes_u8_spec(s, pos) {
        Err(e) => Err(e),
        Ok((b, p)) => if valid_utf8(b) {
            Ok((decode_utf8(b), p))
        } else {
            Err(ErrorKind::InvalidName(field, b))
        },
    }
}

/// The fields after the names, as read from the wire at `pos`: game type,
/// player counts, flags, transport layer, connection type, and the
/// position after them.
pub open spec fn read_tail_spec(s: Seq<u8>, pos: int) -> Result<
    (u8, i32, i32, bool, bool, u8, u8, int),
    ErrorKind,
> {
    match read_u8_spec(s, pos) {
        Err(e) => Err(e),
        Ok((gt, p1)) => match read_i32_spec(s, p1) {
            Err(e) => Err(e),
            Ok((pc, p2)) => match read_i32_spec(s, p2) {
                Err(e) => Err(e),
                Ok((mpc, p3)) => match read_u8_spec(s, p3) {
                    Err(e) => Err(e),
                    Ok((ew, p4)) => match read_u8_spec(s, p4) {
                        Err(e) => Err(e),
                        Ok((hc, p5)) => match read_u8_spec(s, p5) {
                            Err(e) => Err(e),
                            Ok((tl, p6)) => match read_u8_spec(s, p6) {
                                Err(e) => Err(e),
                                Ok((ct, p7)) => Ok(
                                    (gt >> 1, pc, mpc, ew != 0, hc != 0, tl >> 1, ct >> 1, p7),
                                ),
                            },
                        },
                    },
                },
            },
        },
    }
}

/// Reading the fields of server data from the start of `s`: the version
/// must be 4, the names valid UTF-8 and every field present. Gives the
/// fields and the position after the last one.
pub open spec fn server_data_fields_spec(s: Seq<u8>) -> Result<(ServerDataView, int), ErrorKind> {
    match read_u8_spec(s, 0) {
        Err(e) => Err(e),
        Ok((version, p0)) => if version != VERSION {
            Err(ErrorKind::VersionMismatch { got: version, want: VERSION })
        } else {
            match read_string_u8_spec(NameField::ServerName, s, p0) {
                Err(e) => Err(e),
                Ok((server_name, p1)) => match read_string_u8_spec(NameField::LevelName, s, p1) {
                    Err(e) => Err(e),
                    Ok((level_name, p2)) => match read_tail_spec(s, p2) {
                        Err(e) => Err(e),
                        Ok((gt, pc, mpc, ew, hc, tl, ct, end)) => Ok(
                            (
                                ServerDataView {
                                    server_name,
                                    level_name,
                                    game_type: gt,
                                    player_count: pc,
                                    max_player_count: mpc,
                                    editor_world: ew,
                                    hardcore: hc,
                                    transport_layer: tl,
                                    connection_type: ct,
                                },
                                end,
                            ),
                        ),
                    },
                },
            }
        },
    }
}

/// What unmarshalling server data gives: the fields, read as
/// `server_data_fields_spec` reads them, with no byte left over.
pub open spec fn server_data_unmarshal_spec(s: Seq<u8>) -> Result<ServerDataView, ErrorKind> {
    match server_data_fields_spec(s) {
        Err(e) => Err(e),
        Ok((v, end)) => if end != s.len() {
            Err(ErrorKind::UnreadBytes((s.len() - end) as usize))
        } else {
            Ok(v)
        },
    }
}

/// Reads the name `field` as a UTF-8 string behind a one-byte length at
/// `pos`.
fn read_string_u8(field: NameField, data: &[u8], pos: usize) -> (r: Result<
    (String, usize),
    NethernetError,
>)
    ensures
        match read_string_u8_spec(field, data@, pos as int) {
            Ok((v, p)) => r matches Ok((w, q)) && w@ == v && q == p,
            Err(e) => r matches Err(x) && describes(x, e),
        },
{
    let (bytes, p) = match read_bytes_u8(data, pos) {
        Ok(x) => x,
        Err(e) => return Err(e),
    };
    let ghost b = bytes@;
    match string_from_utf8(bytes) {
        Ok(s) => Ok((s, p)),
        Err(t) => Err(invalid_name(field, Ghost(b), t)),
    }
}

/// Reading back the bytes after the names.
proof fn lemma_read_tail(pre: Seq<u8>, v: ServerDataView)
    requires
        v.game_type < 128,
        v.transport_layer < 128,
        v.connection_type < 128,
    ensures
        ({
            let s = pre + (seq![v.game_type << 1] + le_i32(v.player_count) + le_i32(
                v.max_player_count,
            ) + seq![
                if v.editor_world {
                    1u8
                } else {
                    0u8
                },
                if v.hardcore {
                    1u8
                } else {
                    0u8
                },
                v.transport_layer << 1,
                v.connection_type << 1,
            ]);
            read_tail_spec(s, pre.len() as int) == Ok::<
                (u8, i32, i32, bool, bool, u8, u8, int),
                ErrorKind,
            >(
                (
                    v.game_type,
                    v.player_count,
                    v.max_player_count,
                    v.editor_world,
                    v.hardcore,
                    v.transport_layer,
                    v.connection_type,
                    s.len() as int,
                ),
            )
        }),
{
    lemma_le_roundtrip();
    let n = pre.len() as int;
    let gt = v.game_type;
    let tl = v.transport_layer;
    let ct = v.connection_type;
    assert((gt << 1) >> 1 == gt) by (bit_vector)
        requires
            gt < 128,
    ;
    assert((tl << 1) >> 1 == tl) by (bit_vector)
        requires
            tl < 128,
    ;
    assert((ct << 1) >> 1 == ct) by (bit_vector)
        requires
            ct < 128,
    ;
    let s = pre + (seq![v.game_type << 1] + le_i32(v.player_count) + le_i32(v.max_player_count)
        + seq![
        if v.editor_world {
            1u8
        } else {
            0u8
        },
        if v.hardcore {
            1u8
        } else {
            0u8
        },
        v.transport_layer << 1,
        v.connection_type << 1,
    ]);
    assert(s.len() == n + 13);
    assert(s.subrange(n + 1, n + 5) =~= le_i32(v.player_count));
    assert(s.subrange(n + 5, n + 9) =~= le_i32(v.max_player_count));
}

/// Reading a UTF-8 string written behind a one-byte length.
proof fn lemma_read_string(field: NameField, pre: Seq<u8>, name: Seq<char>, post: Seq<u8>)
    requires
        encode_utf8(name).len() <= 255,
    ensures
        read_string_u8_spec(field, pre + prefixed_u8(encode_utf8(name)) + post, pre.len() as int)
            == Ok::<(Seq<char>, int), ErrorKind>((name, (pre.len() + 1 + encode_utf8(name).len()) as int)),
{
    encode_utf8_valid_utf8(name);
    encode_utf8_decode_utf8(name);
    let b = encode_utf8(name);
    let s = pre + prefixed_u8(b) + post;
    let n = pre.len() as int;
    assert(s[n] == b.len() as u8);
    assert(s.subrange(n + 1, n + 1 + b.len()) =~= b);
}

/// Unmarshalling marshalled server data gives it back.
pub proof fn lemma_server_data_roundtrip(v: ServerDataView)
    requires
        server_data_marshal_spec(v) is Ok,
    ensures
        server_data_fields_spec(server_data_bytes(v)) == Ok::<(ServerDataView, int), ErrorKind>(
            (v, server_data_bytes(v).len() as int),
        ),
        server_data_unmarshal_spec(server_data_bytes(v)) == Ok::<ServerDataView, ErrorKind>(v),
{
    let a = prefixed_u8(encode_utf8(v.server_name));
    let b = prefixed_u8(encode_utf8(v.level_name));
    let tail = seq![v.game_type << 1] + le_i32(v.player_count) + le_i32(v.max_player_count) + seq![
        if v.editor_world {
            1u8
        } else {
            0u8
        },
        if v.hardcore {
            1u8
        } else {
            0u8
        },
        v.transport_layer << 1,
        v.connection_type << 1,
    ];
    let s = server_data_bytes(v);
    assert(s =~= seq![VERSION] + a + (b + tail));
    lemma_read_string(NameField::ServerName, seq![VERSION], v.server_name, b + tail);
    assert(s =~= (seq![VERSION] + a) + b + tail);
    lemma_read_string(NameField::LevelName, seq![VERSION] + a, v.level_name, tail);
    assert(s =~= (seq![VERSION] + a + b) + tail);
    lemma_read_tail(seq![VERSION] + a + b, v);
    let ew = v.editor_world;
    let hc = v.hardcore;
    assert(((if ew {
        1u8
    } else {
        0u8
    }) != 0) == ew);
    assert(((if hc {
        1u8
    } else {
        0u8
    }) != 0) == hc);
    let p1: int = 1 + a.len() as int;
    let p2: int = p1 + b.len();
    assert(read_u8_spec(s, 0) == Ok::<(u8, int), ErrorKind>((VERSION, 1)));
    assert(read_string_u8_spec(NameField::ServerName, s, 1) == Ok::<(Seq<char>, int), ErrorKind>(
        (v.server_name, p1),
    ));
    assert(read_string_u8_spec(NameField::LevelName, s, p1) == Ok::<(Seq<char>, int), ErrorKind>(
        (v.level_name, p2),
    ));
    assert(server_data_fields_spec(s) == Ok::<(ServerDataView, int), ErrorKind>(
        (v, s.len() as int),
    ));
}

/// Marshalled server data is laid out field by field in one fixed order,
/// whatever the values: the version 4, the length and UTF-8 bytes of the
/// server name, the length and UTF-8 bytes of the level name, the game
/// type doubled, both player counts as little-endian `i32`, the two flags
/// as 1 or 0, and transport layer and connection type doubled.
pub proof fn lemma_marshal_layout(v: ServerDataView)
    requires
        server_data_marshal_spec(v) is Ok,
    ensures
        ({
            let b = server_data_bytes(v);
            let a = encode_utf8(v.server_name);
            let na = a.len() as int;
            let l = encode_utf8(v.level_name);
            let nl = l.len() as int;
            let t = 3 + na + nl;
            &&& b.len() == t + 13
            &&& b[0] == 4
            &&& b[1] == na
            &&& b.subrange(2, 2 + na) == a
            &&& b[2 + na] == nl
            &&& b.subrange(3 + na, t) == l
            &&& b[t] == v.game_type * 2
            &&& b.subrange(t + 1, t + 5) == spec_u32_to_le_bytes(v.player_count as u32)
            &&& b.subrange(t + 5, t + 9) == spec_u32_to_le_bytes(v.max_player_count as u32)
            &&& b[t + 9] == (if v.editor_world { 1u8 } else { 0u8 })
            &&& b[t + 10] == (if v.hardcore { 1u8 } else { 0u8 })
            &&& b[t + 11] == v.transport_layer * 2
            &&& b[t + 12] == v.connection_type * 2
        }),
{
    lemma_le_roundtrip();
    let b = server_data_bytes(v);
    let a = encode_utf8(v.server_name);
    let na = a.len() as int;
    let l = encode_utf8(v.level_name);
    let nl = l.len() as int;
    let t = 3 + na + nl;
    let gt = v.game_type;
    let tl = v.transport_layer;
    let ct = v.connection_type;
    assert(gt << 1 == gt * 2) by (bit_vector)
        requires
            gt < 128,
    ;
    assert(tl << 1 == tl * 2) by (bit_vector)
        requires
            tl < 128,
    ;
    assert(ct << 1 == ct * 2) by (bit_vector)
        requires
            ct < 128,
    ;
    assert(b.subrange(2, 2 + na) =~= a);
    assert(b.subrange(3 + na, t) =~= l);
    assert(b.subrange(t + 1, t + 5) =~= le_i32(v.player_count));
    assert(b.subrange(t + 5, t + 9) =~= le_i32(v.max_player_count));
}

/// The bytes of server data do not depend on whether it is hardcore but
/// for the one byte of that flag: the names and every other field stay
/// where they are.
pub proof fn lemma_marshal_hardcore_only_flag(v: ServerDataView)
    requires
        server_data_marshal_spec(v) is Ok,
    ensures
        ({
            let w = ServerDataView { hardcore: !v.hardcore, ..v };
            let b = server_data_bytes(v);
            let c = server_data_bytes(w);
            &&& server_data_marshal_spec(w) is Ok
            &&& c.len() == b.len()
            &&& forall|i: int| 0 <= i < b.len() && i != b.len() - 3 ==> c[i] == b[i]
            &&& c[b.len() - 3] != b[b.len() - 3]
        }),
{
    let w = ServerDataView { hardcore: !v.hardcore, ..v };
    let b = server_data_bytes(v);
    let c = server_data_bytes(w);
    lemma_marshal_layout(v);
    lemma_marshal_layout(w);
    let a = encode_utf8(v.server_name);
    let na = a.len() as int;
    let l = encode_utf8(v.level_name);
    let nl = l.len() as int;
    let t = 3 + na + nl;
    assert forall|i: int| 0 <= i < b.len() && i != b.len() - 3 implies c[i] == b[i] by {
        if 2 <= i < 2 + na {
            assert(c[i] == c.subrange(2, 2 + na)[i - 2]);
            assert(b[i] == b.subrange(2, 2 + na)[i - 2]);
        } else if 3 + na <= i < t {
            assert(c[i] == c.subrange(3 + na, t)[i - 3 - na]);
            assert(b[i] == b.subrange(3 + na, t)[i - 3 - na]);
        } else if t + 1 <= i < t + 5 {
            assert(c[i] == c.subrange(t + 1, t + 5)[i - t - 1]);
            assert(b[i] == b.subrange(t + 1, t + 5)[i - t - 1]);
        } else if t + 5 <= i < t + 9 {
            assert(c[i] == c.subrange(t + 5, t + 9)[i - t - 5]);
            assert(b[i] == b.subrange(t + 5, t + 9)[i - t - 5]);
        }
    }
}

/// Unmarshalling reads the fields in one fixed order, whatever the values:
/// after the version 4, the first length-prefixed string is the server
/// name and the second the level name, then the game type (halved), both
/// player counts as little-endian `i32`, the two flags (any nonzero byte
/// is set), and transport layer and connection type (halved), with no byte
/// after them.
pub proof fn lemma_unmarshal_layout(s: Seq<u8>)
    requires
        server_data_unmarshal_spec(s) is Ok,
    ensures
        ({
            let v = server_data_unmarshal_spec(s)->Ok_0;
            let n1 = s[1] as int;
            let n2 = s[2 + n1] as int;
            let t = 3 + n1 + n2;
            &&& s.len() == t + 13
            &&& s[0] == 4
            &&& valid_utf8(s.subrange(2, 2 + n1))
            &&& v.server_name == decode_utf8(s.subrange(2, 2 + n1))
            &&& valid_utf8(s.subrange(3 + n1, t))
            &&& v.level_name == decode_utf8(s.subrange(3 + n1, t))
            &&& v.game_type == s[t] / 2
            &&& v.player_count == spec_u32_from_le_bytes(s.subrange(t + 1, t + 5)) as i32
            &&& v.max_player_count == spec_u32_from_le_bytes(s.subrange(t + 5, t + 9)) as i32
            &&& v.editor_world == (s[t + 9] != 0)
            &&& v.hardcore == (s[t + 10] != 0)
            &&& v.transport_layer == s[t + 11] / 2
            &&& v.connection_type == s[t + 12] / 2
        }),
{
    let n1 = s[1] as int;
    let n2 = s[2 + n1] as int;
    let t = 3 + n1 + n2;
    let g = s[t];
    let x = s[t + 11];
    let y = s[t + 12];
    assert(g >> 1 == g / 2) by (bit_vector);
    assert(x >> 1 == x / 2) by (bit_vector);
    assert(y >> 1 == y / 2) by (bit_vector);
}

/// Reading the fields from a prefix of `b` that succeeds reads the same
/// fields, ending at the same position, from `b`.
proof fn lemma_fields_prefix(t: Seq<u8>, b: Seq<u8>)
    requires
        t.len() <= b.len(),
        t == b.take(t.len() as int),
        server_data_fields_spec(t) is Ok,
    ensures
        server_data_fields_spec(b) == server_data_fields_spec(t),
{
    lemma_take_at_prefix(t, b);
    let (version, p0) = read_u8_spec(t, 0)->Ok_0;
    assert(read_u8_spec(b, 0) == read_u8_spec(t, 0));
    let (server_name, p1) = read_string_u8_spec(NameField::ServerName, t, p0)->Ok_0;
    assert(read_string_u8_spec(NameField::ServerName, b, p0) == read_string_u8_spec(
        NameField::ServerName,
        t,
        p0,
    ));
    let (level_name, p2) = read_string_u8_spec(NameField::LevelName, t, p1)->Ok_0;
    assert(read_string_u8_spec(NameField::LevelName, b, p1) == read_string_u8_spec(
        NameField::LevelName,
        t,
        p1,
    ));
    assert(read_tail_spec(b, p2) == read_tail_spec(t, p2));
}

/// Server data must be read whole: any shorter prefix of marshalled
/// server data is refused, and so are marshalled bytes followed by more
/// bytes, with the count of bytes left over.
pub proof fn lemma_server_data_exact_length(v: ServerDataView, k: int, extra: Seq<u8>)
    requires
        server_data_marshal_spec(v) is Ok,
        0 <= k < server_data_bytes(v).len(),
        extra.len() > 0,
    ensures
        server_data_unmarshal_spec(server_data_bytes(v).take(k)) is Err,
        server_data_unmarshal_spec(server_data_bytes(v) + extra) == Err::<ServerDataView, ErrorKind>(
            ErrorKind::UnreadBytes(extra.len() as usize),
        ),
{
    let b = server_data_bytes(v);
    lemma_server_data_roundtrip(v);
    let t = b.take(k);
    if server_data_fields_spec(t) is Ok {
        assert(t =~= b.take(t.len() as int));
        lemma_fields_prefix(t, b);
    }
    let be = b + extra;
    assert(b =~= be.take(b.len() as int));
    lemma_fields_prefix(b, be);
}

impl ServerData {
    /// Server data with the given names and the default fields.
    pub fn new(server_name: String, level_name: String) -> (r: Self)
        ensures
            r@ == default_server_data(server_name@, level_name@),
    {
        ServerData {
            server_name,
            level_name,
            game_type: 0,
            player_count: 1,
            max_player_count: 8,
            editor_world: false,
            hardcore: false,
            transport_layer: 2,
            connection_type: 4,
        }
    }

    /// The wire bytes of the server data, or why it has none. Unmarshalling
    /// the bytes gives the server data back.
    pub fn marshal(&self) -> (r: Result<Vec<u8>, NethernetError>)
        ensures
            match server_data_marshal_spec(self@) {
                Ok(b) => r matches Ok(v) && v@ == b,
                Err(e) => r matches Err(x) && describes(x, e),
            },
            r matches Ok(v) ==> server_data_unmarshal_spec(v@) == Ok::<ServerDataView, ErrorKind>(
                self@,
            ),
    {
        if self.game_type >= 128 {
            return Err(field_out_of_range(ShiftedField::GameType, self.game_type));
        }
        if self.transport_layer >= 128 {
            return Err(field_out_of_range(ShiftedField::TransportLayer, self.transport_layer));
        }
        if self.connection_type >= 128 {
            return Err(field_out_of_range(ShiftedField::ConnectionType, self.connection_type));
        }
        let mut buf: Vec<u8> = Vec::new();
        write_u8(&mut buf, VERSION);
        match write_bytes_u8(&mut buf, self.server_name.as_str().as_bytes()) {
            Ok(()) => {},
            Err(e) => return Err(e),
        }
        match write_bytes_u8(&mut buf, self.level_name.as_str().as_bytes()) {
            Ok(()) => {},
            Err(e) => return Err(e),
        }
        write_u8(&mut buf, self.game_type << 1);
        write_i32_le(&mut buf, self.player_count);
        write_i32_le(&mut buf, self.max_player_count);
        write_u8(
            &mut buf,
            if self.editor_world {
                1
            } else {
                0
            },
        );
        write_u8(
            &mut buf,
            if self.hardcore {
                1
            } else {
                0
            },
        );
        write_u8(&mut buf, self.transport_layer << 1);
        write_u8(&mut buf, self.connection_type << 1);
        assert(buf@ =~= server_data_bytes(self@));
        proof {
            lemma_server_data_roundtrip(self@);
        }
        Ok(buf)
    }

    /// Reads server data from its wire bytes.
    pub fn unmarshal(data: &[u8]) -> (r: Result<Self, NethernetError>)
        ensures
            match server_data_unmarshal_spec(data@) {
                Ok(v) => r matches Ok(d) && d@ == v,
                Err(e) => r matches Err(x) && describes(x, e),
            },
    {
        let (version, p0) = match read_u8(data, 0) {
            Ok(x) => x,
            Err(e) => return Err(e),
        };
        if version != VERSION {
            return Err(version_mismatch(version, VERSION));
        }
        let (server_name, p1) = match read_string_u8(NameField::ServerName, data, p0) {
            Ok(x) => x,
            Err(e) => return Err(e),
        };
        let (level_name, p2) = match read_string_u8(NameField::LevelName, data, p1) {
            Ok(x) => x,
            Err(e) => return Err(e),
        };
        let (gt, p3) = match read_u8(data, p2) {
            Ok(x) => x,
            Err(e) => return Err(e),
        };
        let (player_count, p4) = match read_i32_le(data, p3) {
            Ok(x) => x,
            Err(e) => return Err(e),
        };
        let (max_player_count, p5) = match read_i32_le(data, p4) {
            Ok(x) => x,
            Err(e) => return Err(e),
        };
        let (ew, p6) = match read_u8(data, p5) {
            Ok(x) => x,
            Err(e) => return Err(e),
        };
        let (hc, p7) = match read_u8(data, p6) {
            Ok(x) => x,
            Err(e) => return Err(e),
        };
        let (tl, p8) = match read_u8(data, p7) {
            Ok(x) => x,
            Err(e) => return Err(e),
        };
        let (ct, p9) = match read_u8(data, p8) {
            Ok(x) => x,
            Err(e) => return Err(e),
        };
        if p9 != data.len() {
            return Err(unread_bytes(data.len() - p9));
        }
        Ok(
            ServerData {
                server_name,
                level_name,
                game_type: gt >> 1,
                player_count,
                max_player_count,
                editor_world: ew != 0,
                hardcore: hc != 0,
                transport_layer: tl >> 1,
                connection_type: ct >> 1,
            },
        )
    }
}

} // verus!
