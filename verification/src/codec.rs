//! Wire codec: the text protocol between a connection and typed messages.
//!
//! A client sends `<player_id>|<direction>`, where the id is a decimal `u16`
//! and the direction one of `up`, `down`, `left`, `right`. An empty message
//! asks for the connection to be closed.

use vstd::prelude::*;
use vstd::slice::slice_subrange;

verus! {

/// The byte `|`, which parts the player id from the direction.
pub const SEPARATOR: u8 = 0x7c;

/// The byte `+`, which may stand before the digits of a player id.
pub const PLUS: u8 = 0x2b;

/// The byte `0`.
pub const ZERO: u8 = 0x30;

/// The byte `9`.
pub const NINE: u8 = 0x39;

/// The byte `-`, which stands before the digits of a negative coordinate.
pub const MINUS: u8 = 0x2d;

/// The byte `=`, which parts a snapshot's sequence number from its players.
pub const EQUALS: u8 = 0x3d;

/// The byte `:`, which parts a player's id from its position.
pub const COLON: u8 = 0x3a;

/// The byte `,`, which parts the two coordinates of a position.
pub const COMMA: u8 = 0x2c;

/// The byte `;`, which ends a player's line.
pub const SEMICOLON: u8 = 0x3b;

/// One of the four moves a player can ask for.
#[derive(Clone, Copy, Debug, PartialEq, Eq, Structural)]
pub enum Direction {
    Up,
    Down,
    Left,
    Right,
}

/// One validated input of one player.
#[derive(Clone, Copy, Debug, PartialEq, Eq, Structural)]
pub struct InputEvent {
    pub player_id: u16,
    pub direction: Direction,
}

/// What a well-formed client message asks for.
#[derive(Clone, Copy, Debug, PartialEq, Eq, Structural)]
pub enum ClientMessage {
    /// The empty message: the client wants the connection closed.
    Disconnect,
    /// One input event.
    Input(InputEvent),
}

/// Why a client message was rejected.
#[derive(Clone, Copy, Debug, PartialEq, Eq, Structural)]
pub enum DecodeError {
    /// The message is not two fields parted by exactly one `|`.
    Malformed,
    /// The second field is none of `up`, `down`, `left`, `right`.
    UnknownDirection,
    /// The first field is not a decimal number that fits a `u16`.
    InvalidPlayerId,
}

/// One player's line of a snapshot: the id and the position, in position
/// units.
#[derive(Clone, Copy, Debug, PartialEq, Eq, Structural)]
pub struct PlayerRecord {
    pub id: u16,
    pub x: i64,
    pub y: i64,
}

/// The world as it stood at the end of one tick. `tick` is the snapshot's
/// sequence number; `players` lists every known player once, in the order
/// in which the players were first seen.
#[derive(Clone, Debug, PartialEq, Eq)]
pub struct Snapshot {
    pub tick: u64,
    pub players: Vec<PlayerRecord>,
}

/// The bytes of `up`.
pub open spec fn token_up() -> Seq<u8> {
    seq![0x75u8, 0x70u8]
}

/// The bytes of `down`.
pub open spec fn token_down() -> Seq<u8> {
    seq![0x64u8, 0x6fu8, 0x77u8, 0x6eu8]
}

/// The bytes of `left`.
pub open spec fn token_left() -> Seq<u8> {
    seq![0x6cu8, 0x65u8, 0x66u8, 0x74u8]
}

/// The bytes of `right`.
pub open spec fn token_right() -> Seq<u8> {
    seq![0x72u8, 0x69u8, 0x67u8, 0x68u8, 0x74u8]
}

/// The direction that a token names, if it names one. Tokens are lower case
/// and match byte for byte.
pub open spec fn spec_parse_direction(token: Seq<u8>) -> Option<Direction> {
    if token == token_up() {
        Some(Direction::Up)
    } else if token == token_down() {
        Some(Direction::Down)
    } else if token == token_left() {
        Some(Direction::Left)
    } else if token == token_right() {
        Some(Direction::Right)
    } else {
        None
    }
}

/// Whether `b` is an ASCII decimal digit.
pub open spec fn is_digit(b: u8) -> bool {
    ZERO <= b <= NINE
}

/// Whether every byte of `s` is an ASCII decimal digit.
pub open spec fn all_digits(s: Seq<u8>) -> bool {
    forall|i: int| 0 <= i < s.len() ==> is_digit(#[trigger] s[i])
}

/// The number that a run of decimal digits writes, most significant first.
pub open spec fn digits_value(s: Seq<u8>) -> nat
    decreases s.len(),
{
    if s.len() == 0 {
        0
    } else {
        digits_value(s.drop_last()) * 10 + (s.last() - ZERO) as nat
    }
}

/// The digits of an id field: the field without its leading `+`, if it has
/// one.
pub open spec fn unsigned_part(field: Seq<u8>) -> Seq<u8> {
    if field.len() > 0 && field[0] == PLUS {
        field.subrange(1, field.len() as int)
    } else {
        field
    }
}

/// The player id that a field writes: an optional `+`, then one or more
/// decimal digits whose value fits a `u16`. Leading zeros are accepted; a
/// minus sign, blanks and an empty field are not.
pub open spec fn spec_parse_player_id(field: Seq<u8>) -> Option<u16> {
    let digits = unsigned_part(field);
    if digits.len() > 0 && all_digits(digits) && digits_value(digits) <= u16::MAX {
        Some(digits_value(digits) as u16)
    } else {
        None
    }
}

/// Whether `payload` has its one and only separator at index `i`.
pub open spec fn splits_at(payload: Seq<u8>, i: int) -> bool {
    &&& 0 <= i < payload.len()
    &&& payload[i] == SEPARATOR
    &&& forall|j: int| 0 <= j < payload.len() && j != i ==> #[trigger] payload[j] != SEPARATOR
}

/// Whether `payload` is two fields parted by exactly one separator.
pub open spec fn has_two_fields(payload: Seq<u8>) -> bool {
    exists|i: int| splits_at(payload, i)
}

/// Index of the separator of a payload of two fields.
pub open spec fn split_point(payload: Seq<u8>) -> int {
    choose|i: int| splits_at(payload, i)
}

/// What a payload decodes to. The empty payload is the disconnect signal.
/// Any other payload must have two fields; then the id is judged, and only
/// then the direction.
pub open spec fn spec_decode_input(payload: Seq<u8>) -> Result<ClientMessage, DecodeError> {
    if payload.len() == 0 {
        Ok(ClientMessage::Disconnect)
    } else if !has_two_fields(payload) {
        Err(DecodeError::Malformed)
    } else {
        let at = split_point(payload);
        let id_field = payload.subrange(0, at);
        let direction_field = payload.subrange(at + 1, payload.len() as int);
        match spec_parse_player_id(id_field) {
            None => Err(DecodeError::InvalidPlayerId),
            Some(player_id) => match spec_parse_direction(direction_field) {
                None => Err(DecodeError::UnknownDirection),
                Some(direction) => Ok(
                    ClientMessage::Input(InputEvent { player_id, direction }),
                ),
            },
        }
    }
}

/// A run of digits is worth at least as much as any of its prefixes.
proof fn lemma_digits_value_prefix(s: Seq<u8>, k: int)
    requires
        0 <= k <= s.len(),
    ensures
        digits_value(s.subrange(0, k)) <= digits_value(s),
    decreases s.len() - k,
{
    if k == s.len() {
        assert(s.subrange(0, k) =~= s);
    } else {
        lemma_digits_value_prefix(s.drop_last(), k);
        assert(s.drop_last().subrange(0, k) =~= s.subrange(0, k));
    }
}

/// Reads a direction token.
pub fn parse_direction(token: &[u8]) -> (result: Option<Direction>)
    ensures
        result == spec_parse_direction(token@),
{
    let n: usize = token.len();
    if n == 2 && token[0] == 0x75 && token[1] == 0x70 {
        assert(token@ =~= token_up());
        Some(Direction::Up)
    } else if n == 4 && token[0] == 0x64 && token[1] == 0x6f && token[2] == 0x77 && token[3]
        == 0x6e {
        assert(token@ =~= token_down());
        Some(Direction::Down)
    } else if n == 4 && token[0] == 0x6c && token[1] == 0x65 && token[2] == 0x66 && token[3]
        == 0x74 {
        assert(token@ =~= token_left());
        Some(Direction::Left)
    } else if n == 5 && token[0] == 0x72 && token[1] == 0x69 && token[2] == 0x67 && token[3]
        == 0x68 && token[4] == 0x74 {
        assert(token@ =~= token_right());
        Some(Direction::Right)
    } else {
        proof {
            if token@ == token_up() {
                assert(token@[0] == 0x75 && token@[1] == 0x70);
            }
            if token@ == token_down() {
                assert(token@[0] == 0x64 && token@[1] == 0x6f && token@[2] == 0x77 && token@[3]
                    == 0x6e);
            }
            if token@ == token_left() {
                assert(token@[0] == 0x6c && token@[1] == 0x65 && token@[2] == 0x66 && token@[3]
                    == 0x74);
            }
            if token@ == token_right() {
                assert(token@[0] == 0x72 && token@[1] == 0x69 && token@[2] == 0x67 && token@[3]
                    == 0x68 && token@[4] == 0x74);
            }
        }
        None
    }
}

/// Reads the id field of a message.
pub fn parse_player_id(field: &[u8]) -> (result: Option<u16>)
    ensures
        result == spec_parse_player_id(field@),
{
    let n: usize = field.len();
    let start: usize = if n > 0 && field[0] == PLUS {
        1
    } else {
        0
    };
    let ghost digits = unsigned_part(field@);
    assert(digits =~= field@.subrange(start as int, n as int));
    if start == n {
        return None;
    }
    let mut value: u32 = 0;
    let mut i: usize = start;
    while i < n
        invariant
            start <= i <= n,
            n == field@.len(),
            digits == unsigned_part(field@),
            digits == field@.subrange(start as int, n as int),
            all_digits(digits.subrange(0, i - start)),
            value == digits_value(digits.subrange(0, i - start)),
            value <= u16::MAX,
        decreases n - i,
    {
        let b: u8 = field[i];
        if b < ZERO || b > NINE {
            assert(!is_digit(digits[i - start]));
            return None;
        }
        let ghost before = digits.subrange(0, i - start);
        let ghost after = digits.subrange(0, i - start + 1);
        assert(after.drop_last() =~= before);
        assert(after.last() == b);
        value = value * 10 + (b - ZERO) as u32;
        assert forall|k: int| 0 <= k < after.len() implies is_digit(#[trigger] after[k]) by {
            if k < before.len() {
                assert(after[k] == before[k]);
            }
        }
        if value > 0xffff {
            proof {
                lemma_digits_value_prefix(digits, i - start + 1);
            }
            return None;
        }
        i = i + 1;
    }
    assert(digits.subrange(0, i - start) =~= digits);
    Some(value as u16)
}

/// Decodes one client message.
///
/// The empty payload is the disconnect signal. Any other payload must hold
/// exactly one `|`: otherwise it is `Malformed`. The field before it must
/// be a player id, else `InvalidPlayerId`; the field behind it must be a
/// direction, else `UnknownDirection`.
pub fn decode_input(payload: &[u8]) -> (result: Result<ClientMessage, DecodeError>)
    ensures
        result == spec_decode_input(payload@),
{
    let n: usize = payload.len();
    if n == 0 {
        return Ok(ClientMessage::Disconnect);
    }
    let mut at: usize = 0;
    while at < n && payload[at] != SEPARATOR
        invariant
            at <= n,
            n == payload@.len(),
            forall|j: int| 0 <= j < at ==> #[trigger] payload@[j] != SEPARATOR,
        decreases n - at,
    {
        at = at + 1;
    }
    if at == n {
        assert(!has_two_fields(payload@)) by {
            assert forall|i: int| !splits_at(payload@, i) by {
                if 0 <= i < n {
                    assert(payload@[i] != SEPARATOR);
                }
            }
        }
        return Err(DecodeError::Malformed);
    }
    let mut k: usize = at + 1;
    while k < n && payload[k] != SEPARATOR
        invariant
            at < k <= n,
            n == payload@.len(),
            forall|j: int| at < j < k ==> #[trigger] payload@[j] != SEPARATOR,
        decreases n - k,
    {
        k = k + 1;
    }
    if k < n {
        assert(!has_two_fields(payload@)) by {
            assert forall|i: int| !splits_at(payload@, i) by {
                if splits_at(payload@, i) {
                    if i == at {
                        assert(payload@[k as int] != SEPARATOR);
                    } else {
                        assert(payload@[at as int] != SEPARATOR);
                    }
                }
            }
        }
        return Err(DecodeError::Malformed);
    }
    proof {
        assert(splits_at(payload@, at as int));
        let chosen = split_point(payload@);
        assert(splits_at(payload@, chosen));
        if chosen != at {
            assert(payload@[at as int] != SEPARATOR);
        }
    }
    let id_field = slice_subrange(payload, 0, at);
    let direction_field = slice_subrange(payload, at + 1, n);
    match parse_player_id(id_field) {
        None => Err(DecodeError::InvalidPlayerId),
        Some(player_id) => match parse_direction(direction_field) {
            None => Err(DecodeError::UnknownDirection),
            Some(direction) => Ok(ClientMessage::Input(InputEvent { player_id, direction })),
        },
    }
}

/// The decimal digits of `n`, most significant first, without leading
/// zeros.
pub open spec fn decimal(n: nat) -> Seq<u8>
    decreases n,
{
    if n < 10 {
        seq![(ZERO + n) as u8]
    } else {
        decimal(n / 10).push((ZERO + n % 10) as u8)
    }
}

/// The decimal digits of `v`, behind a `-` where `v` is negative.
pub open spec fn signed_decimal(v: int) -> Seq<u8> {
    if v < 0 {
        seq![MINUS] + decimal((-v) as nat)
    } else {
        decimal(v as nat)
    }
}

/// One player's line: `<id>:<x>,<y>;`.
pub open spec fn spec_encode_player(record: PlayerRecord) -> Seq<u8> {
    decimal(record.id as nat) + seq![COLON] + signed_decimal(record.x as int) + seq![COMMA]
        + signed_decimal(record.y as int) + seq![SEMICOLON]
}

/// The lines of a run of players, one after the other.
pub open spec fn spec_encode_players(records: Seq<PlayerRecord>) -> Seq<u8>
    decreases records.len(),
{
    if records.len() == 0 {
        Seq::<u8>::empty()
    } else {
        spec_encode_players(records.drop_last()) + spec_encode_player(records.last())
    }
}

/// A snapshot on the wire: `<tick>=`, then one line per player.
pub open spec fn spec_encode_snapshot(tick: u64, players: Seq<PlayerRecord>) -> Seq<u8> {
    decimal(tick as nat) + seq![EQUALS] + spec_encode_players(players)
}

/// Whether every byte of `s` is an ASCII character.
pub open spec fn is_ascii(s: Seq<u8>) -> bool {
    forall|i: int| 0 <= i < s.len() ==> #[trigger] s[i] < 0x80
}

/// Decimal digits are digits.
pub proof fn lemma_decimal_is_digits(n: nat)
    ensures
        decimal(n).len() > 0,
        all_digits(decimal(n)),
    decreases n,
{
    if n >= 10 {
        lemma_decimal_is_digits(n / 10);
    }
}

/// A snapshot on the wire is ASCII text.
pub proof fn lemma_encoding_is_ascii(tick: u64, players: Seq<PlayerRecord>)
    ensures
        is_ascii(spec_encode_snapshot(tick, players)),
{
    lemma_decimal_is_digits(tick as nat);
    lemma_players_are_ascii(players);
}

/// The lines of a run of players are ASCII text.
proof fn lemma_players_are_ascii(records: Seq<PlayerRecord>)
    ensures
        is_ascii(spec_encode_players(records)),
    decreases records.len(),
{
    if records.len() > 0 {
        let last = records.last();
        lemma_players_are_ascii(records.drop_last());
        lemma_decimal_is_digits(last.id as nat);
        lemma_signed_is_ascii(last.x as int);
        lemma_signed_is_ascii(last.y as int);
    }
}

/// A signed decimal number is ASCII text.
proof fn lemma_signed_is_ascii(v: int)
    ensures
        is_ascii(signed_decimal(v)),
{
    if v < 0 {
        lemma_decimal_is_digits((-v) as nat);
    } else {
        lemma_decimal_is_digits(v as nat);
    }
}

/// Appends the decimal digits of `n`.
fn push_decimal(out: &mut Vec<u8>, n: u64)
    ensures
        final(out)@ == old(out)@ + decimal(n as nat),
    decreases n,
{
    if n >= 10 {
        push_decimal(out, n / 10);
    }
    let digit: u8 = (n % 10) as u8;
    out.push(ZERO + digit);
    proof {
        if n >= 10 {
            assert(out@ =~= old(out)@ + decimal(n as nat));
        } else {
            assert(out@ =~= old(out)@ + decimal(n as nat));
        }
    }
}

/// Appends the decimal digits of `v`, behind a `-` where `v` is negative.
fn push_signed_decimal(out: &mut Vec<u8>, v: i64)
    ensures
        final(out)@ == old(out)@ + signed_decimal(v as int),
{
    if v < 0 {
        out.push(MINUS);
        let magnitude: u64 = (-(v + 1)) as u64 + 1;
        push_decimal(out, magnitude);
        proof {
            assert(out@ =~= old(out)@ + signed_decimal(v as int));
        }
    } else {
        push_decimal(out, v as u64);
    }
}

/// Appends one player's line.
fn push_player(out: &mut Vec<u8>, record: &PlayerRecord)
    ensures
        final(out)@ == old(out)@ + spec_encode_player(*record),
{
    push_decimal(out, record.id as u64);
    out.push(COLON);
    push_signed_decimal(out, record.x);
    out.push(COMMA);
    push_signed_decimal(out, record.y);
    out.push(SEMICOLON);
    proof {
        assert(out@ =~= old(out)@ + spec_encode_player(*record));
    }
}

/// Writes a snapshot as `<tick>=<id>:<x>,<y>;...`, one `<id>:<x>,<y>;` per
/// player in the snapshot's order. The result is ASCII text.
pub fn encode_snapshot(snapshot: &Snapshot) -> (bytes: Vec<u8>)
    ensures
        bytes@ == spec_encode_snapshot(snapshot.tick, snapshot.players@),
        is_ascii(bytes@),
{
    let mut bytes: Vec<u8> = Vec::new();
    push_decimal(&mut bytes, snapshot.tick);
    bytes.push(EQUALS);
    let ghost head = bytes@;
    assert(head =~= decimal(snapshot.tick as nat) + seq![EQUALS]);
    let n: usize = snapshot.players.len();
    let mut i: usize = 0;
    while i < n
        invariant
            i <= n,
            n == snapshot.players@.len(),
            head == decimal(snapshot.tick as nat) + seq![EQUALS],
            bytes@ == head + spec_encode_players(snapshot.players@.subrange(0, i as int)),
        decreases n - i,
    {
        proof {
            let upto = snapshot.players@.subrange(0, i + 1);
            assert(upto.drop_last() =~= snapshot.players@.subrange(0, i as int));
            assert(upto.last() == snapshot.players@[i as int]);
        }
        push_player(&mut bytes, &snapshot.players[i]);
        proof {
            assert(bytes@ =~= head + spec_encode_players(
                snapshot.players@.subrange(0, i + 1),
            ));
        }
        i = i + 1;
    }
    proof {
        assert(snapshot.players@.subrange(0, n as int) =~= snapshot.players@);
        lemma_encoding_is_ascii(snapshot.tick, snapshot.players@);
    }
    bytes
}

/// The bytes that name a direction.
pub open spec fn token_of(direction: Direction) -> Seq<u8> {
    match direction {
        Direction::Up => token_up(),
        Direction::Down => token_down(),
        Direction::Left => token_left(),
        Direction::Right => token_right(),
    }
}

/// The text of an input event: the id in decimal, `|`, the direction.
pub open spec fn input_text(event: InputEvent) -> Seq<u8> {
    decimal(event.player_id as nat) + seq![SEPARATOR] + token_of(event.direction)
}

/// The decimal digits of a number write that number.
pub proof fn lemma_decimal_value(n: nat)
    ensures
        digits_value(decimal(n)) == n,
    decreases n,
{
    let text = decimal(n);
    if n < 10 {
        assert(text.drop_last() =~= Seq::<u8>::empty());
        assert(digits_value(Seq::<u8>::empty()) == 0);
        assert(text.last() == (ZERO + n) as u8);
    } else {
        lemma_decimal_value(n / 10);
        assert(text.drop_last() =~= decimal(n / 10));
        assert(text.last() == (ZERO + n % 10) as u8);
    }
}

/// An id written in decimal reads back as itself.
pub proof fn lemma_player_id_round_trip(id: u16)
    ensures
        spec_parse_player_id(decimal(id as nat)) == Some(id),
{
    lemma_decimal_is_digits(id as nat);
    lemma_decimal_value(id as nat);
    assert(is_digit(decimal(id as nat)[0]));
}

/// Every token names its own direction.
pub proof fn lemma_direction_round_trip(direction: Direction)
    ensures
        spec_parse_direction(token_of(direction)) == Some(direction),
{
    assert(token_up().len() == 2);
    assert(token_down().len() == 4 && token_down()[0] == 0x64u8);
    assert(token_left().len() == 4 && token_left()[0] == 0x6cu8);
    assert(token_right().len() == 5);
}

/// Every input event has a text that decodes to it: no event is beyond the
/// protocol.
pub proof fn lemma_input_text_decodes(event: InputEvent)
    ensures
        spec_decode_input(input_text(event)) == Ok::<ClientMessage, DecodeError>(
            ClientMessage::Input(event),
        ),
{
    let id_text = decimal(event.player_id as nat);
    let token = token_of(event.direction);
    let text = input_text(event);
    let at = id_text.len() as int;
    lemma_decimal_is_digits(event.player_id as nat);
    lemma_player_id_round_trip(event.player_id);
    lemma_direction_round_trip(event.direction);
    assert(text[at] == SEPARATOR);
    assert forall|j: int| 0 <= j < text.len() && j != at implies #[trigger] text[j]
        != SEPARATOR by {
        if j < at {
            assert(text[j] == id_text[j]);
            assert(is_digit(id_text[j]));
        } else {
            assert(text[j] == token[j - at - 1]);
        }
    }
    assert(splits_at(text, at));
    let chosen = split_point(text);
    assert(splits_at(text, chosen));
    if chosen != at {
        assert(text[at] != SEPARATOR);
    }
    assert(text.subrange(0, at) =~= id_text);
    assert(text.subrange(at + 1, text.len() as int) =~= token);
}

} // verus!
