use crate::bytes::{
    be_bytes, be_i32_at, be_u32_at, le_bytes, le_u32_at, lemma_be_bytes_roundtrip,
    lemma_le_bytes_roundtrip, lemma_signed_roundtrip, push_le_u32, read_be_i32, read_be_u32,
};
use crate::game_state::Obj;
use crate::ws_frame::{binary_message, binary_payload, to_binary_message};
use std::convert::TryFrom;
use tungstenite::Message;
use vstd::prelude::*;

verus! {

/// The error of a message whose type cannot be read.
#[derive(Debug, Clone, Copy)]
pub struct UnknownMessageError;

impl UnknownMessageError {
    /// The text that describes this error.
    pub fn to_string(&self) -> (s: String)
        ensures
            s@ == "unknown message type"@,
    {
        String::from_str("unknown message type")
    }
}

/// The kinds of message a client sends, by their type byte.
#[derive(Debug, Clone, Copy, PartialEq, Eq, Structural)]
pub enum MessageType {
    GetEntitiesRequest,
    NewEntityRequest,
    ClearEntitiesRequest,
    MoveEntityRequest,
    CreateControlEntity,
    Disconnect,
}

/// How many message types there are; type bytes run from 0 below it.
pub const MESSAGE_TYPE_COUNT: u8 = 6;

/// The message type that the type byte `b` selects.
pub open spec fn message_type_of(b: u8) -> MessageType
    recommends
        b < MESSAGE_TYPE_COUNT,
{
    if b == 0 {
        MessageType::GetEntitiesRequest
    } else if b == 1 {
        MessageType::NewEntityRequest
    } else if b == 2 {
        MessageType::ClearEntitiesRequest
    } else if b == 3 {
        MessageType::MoveEntityRequest
    } else if b == 4 {
        MessageType::CreateControlEntity
    } else {
        MessageType::Disconnect
    }
}

fn message_type_from_byte(b: u8) -> (t: MessageType)
    requires
        b < MESSAGE_TYPE_COUNT,
    ensures
        t == message_type_of(b),
{
    if b == 0 {
        MessageType::GetEntitiesRequest
    } else if b == 1 {
        MessageType::NewEntityRequest
    } else if b == 2 {
        MessageType::ClearEntitiesRequest
    } else if b == 3 {
        MessageType::MoveEntityRequest
    } else if b == 4 {
        MessageType::CreateControlEntity
    } else {
        MessageType::Disconnect
    }
}

/// The error of a message whose length does not fit its type.
pub const WRONG_LENGTH: &'static str = "RawMessage data is of the the wrong length";

/// The error of a WebSocket message that carries no binary payload.
pub const NOT_BINARY: &'static str = "Only Binary message types can be converted";

/// The bytes of one client message: the type byte, then the fields.
#[derive(Debug)]
pub struct RawMessage {
    pub data: Vec<u8>,
}

impl RawMessage {
    /// The message type named by the first byte; an empty message has none.
    pub fn get_msg_type(&self) -> (r: Result<MessageType, UnknownMessageError>)
        requires
            self.data@.len() > 0 ==> self.data@[0] < MESSAGE_TYPE_COUNT,
        ensures
            r == if self.data@.len() == 0 {
                Err(UnknownMessageError)
            } else {
                Ok::<MessageType, UnknownMessageError>(message_type_of(self.data@[0]))
            },
    {
        if self.data.len() == 0 {
            Err(UnknownMessageError)
        } else {
            Ok(message_type_from_byte(self.data[0]))
        }
    }
}

impl TryFrom<Message> for RawMessage {
    type Error = &'static str;

    /// The payload of a binary WebSocket message; other kinds are refused.
    fn try_from(value: Message) -> (r: Result<Self, Self::Error>)
        ensures
            match r {
                Ok(rm) => value == binary_message(rm.data@) && forall|e: Seq<u8>|
                    value == binary_message(e) ==> rm.data@ == e,
                Err(e) => e == NOT_BINARY && forall|d: Seq<u8>| value != binary_message(d),
            },
    {
        match binary_payload(value) {
            Some(data) => Ok(RawMessage { data }),
            None => Err(NOT_BINARY),
        }
    }
}

impl vstd::std_specs::convert::TryFromSpecImpl<Message> for RawMessage {
    /// The payload is a vector, which no spec value pins down, so the
    /// general law is not claimed; `try_from` states its result itself.
    open spec fn obeys_try_from_spec() -> bool {
        false
    }

    open spec fn try_from_spec(v: Message) -> Result<Self, Self::Error> {
        Err(NOT_BINARY)
    }
}

/// A request for the entities inside a rectangle.
#[derive(Debug, Clone, Copy)]
pub struct GetEntitiesRequestMessage {
    pub x: u32,  // bytes 1 to 4
    pub y: u32,  // bytes 5 to 8
    pub w: u32,  // bytes 9 to 12
    pub h: u32,  // bytes 13 to 16
}

impl GetEntitiesRequestMessage {
    /// A request of this kind is 17 bytes long.
    pub open spec fn decode(data: Seq<u8>) -> Result<Self, &'static str> {
        if data.len() == 17 {
            Ok(
                GetEntitiesRequestMessage {
                    x: be_u32_at(data, 1),
                    y: be_u32_at(data, 5),
                    w: be_u32_at(data, 9),
                    h: be_u32_at(data, 13),
                },
            )
        } else {
            Err(WRONG_LENGTH)
        }
    }
}

impl TryFrom<RawMessage> for GetEntitiesRequestMessage {
    type Error = &'static str;

    fn try_from(rm: RawMessage) -> (r: Result<Self, Self::Error>)
        ensures
            r == Self::decode(rm.data@),
    {
        if rm.data.len() != 17 {
            Err(WRONG_LENGTH)
        } else {
            let x = read_be_u32(&rm.data, 1);
            let y = read_be_u32(&rm.data, 5);
            let w = read_be_u32(&rm.data, 9);
            let h = read_be_u32(&rm.data, 13);
            Ok(GetEntitiesRequestMessage { x, y, w, h })
        }
    }
}

impl vstd::std_specs::convert::TryFromSpecImpl<RawMessage> for GetEntitiesRequestMessage {
    open spec fn obeys_try_from_spec() -> bool {
        true
    }

    open spec fn try_from_spec(v: RawMessage) -> Result<Self, Self::Error> {
        Self::decode(v.data@)
    }
}

/// A request to create an entity.
#[derive(Debug, Clone, Copy)]
pub struct NewEntityRequestMessage {
    pub x: u32,  // bytes 1 to 4
    pub y: u32,  // bytes 5 to 8
    pub entity_id: u32,  // bytes 9 to 12
}

impl NewEntityRequestMessage {
    /// A request of this kind is 13 bytes long.
    pub open spec fn decode(data: Seq<u8>) -> Result<Self, &'static str> {
        if data.len() == 13 {
            Ok(
                NewEntityRequestMessage {
                    x: be_u32_at(data, 1),
                    y: be_u32_at(data, 5),
                    entity_id: be_u32_at(data, 9),
                },
            )
        } else {
            Err(WRONG_LENGTH)
        }
    }
}

impl TryFrom<RawMessage> for NewEntityRequestMessage {
    type Error = &'static str;

    fn try_from(rm: RawMessage) -> (r: Result<Self, Self::Error>)
        ensures
            r == Self::decode(rm.data@),
    {
        if rm.data.len() != 13 {
            Err(WRONG_LENGTH)
        } else {
            let x = read_be_u32(&rm.data, 1);
            let y = read_be_u32(&rm.data, 5);
            let entity_id = read_be_u32(&rm.data, 9);
            Ok(NewEntityRequestMessage { x, y, entity_id })
        }
    }
}

impl vstd::std_specs::convert::TryFromSpecImpl<RawMessage> for NewEntityRequestMessage {
    open spec fn obeys_try_from_spec() -> bool {
        true
    }

    open spec fn try_from_spec(v: RawMessage) -> Result<Self, Self::Error> {
        Self::decode(v.data@)
    }
}

/// A request to remove every entity.
#[derive(Debug, Clone, Copy)]
pub struct ClearEntitiesRequestMessage {}

impl ClearEntitiesRequestMessage {
    /// A request of this kind is the type byte alone.
    pub open spec fn decode(data: Seq<u8>) -> Result<Self, &'static str> {
        if data.len() == 1 {
            Ok(ClearEntitiesRequestMessage {  })
        } else {
            Err(WRONG_LENGTH)
        }
    }
}

impl TryFrom<RawMessage> for ClearEntitiesRequestMessage {
    type Error = &'static str;

    fn try_from(rm: RawMessage) -> (r: Result<Self, Self::Error>)
        ensures
            r == Self::decode(rm.data@),
    {
        if rm.data.len() != 1 {
            Err(WRONG_LENGTH)
        } else {
            Ok(ClearEntitiesRequestMessage {  })
        }
    }
}

impl vstd::std_specs::convert::TryFromSpecImpl<RawMessage> for ClearEntitiesRequestMessage {
    open spec fn obeys_try_from_spec() -> bool {
        true
    }

    open spec fn try_from_spec(v: RawMessage) -> Result<Self, Self::Error> {
        Self::decode(v.data@)
    }
}

/// A request to set an entity's velocity.
#[derive(Debug, Clone, Copy)]
pub struct MoveEntityRequestMessage {
    pub x: i32,  // bytes 1 to 4
    pub y: i32,  // bytes 5 to 8
    pub entity_id: u32,  // bytes 9 to 12
}

impl MoveEntityRequestMessage {
    /// A request of this kind is 13 bytes long.
    pub open spec fn decode(data: Seq<u8>) -> Result<Self, &'static str> {
        if data.len() == 13 {
            Ok(
                MoveEntityRequestMessage {
                    x: be_i32_at(data, 1),
                    y: be_i32_at(data, 5),
                    entity_id: be_u32_at(data, 9),
                },
            )
        } else {
            Err(WRONG_LENGTH)
        }
    }
}

impl TryFrom<RawMessage> for MoveEntityRequestMessage {
    type Error = &'static str;

    fn try_from(rm: RawMessage) -> (r: Result<Self, Self::Error>)
        ensures
            r == Self::decode(rm.data@),
    {
        if rm.data.len() != 13 {
            Err(WRONG_LENGTH)
        } else {
            let x = read_be_i32(&rm.data, 1);
            let y = read_be_i32(&rm.data, 5);
            let entity_id = read_be_u32(&rm.data, 9);
            Ok(MoveEntityRequestMessage { x, y, entity_id })
        }
    }
}

impl vstd::std_specs::convert::TryFromSpecImpl<RawMessage> for MoveEntityRequestMessage {
    open spec fn obeys_try_from_spec() -> bool {
        true
    }

    open spec fn try_from_spec(v: RawMessage) -> Result<Self, Self::Error> {
        Self::decode(v.data@)
    }
}

/// A request for an entity that the client controls.
#[derive(Debug, Clone, Copy)]
pub struct CreateControlEntityMessage {}

impl CreateControlEntityMessage {
    /// A request of this kind is the type byte alone.
    pub open spec fn decode(data: Seq<u8>) -> Result<Self, &'static str> {
        if data.len() == 1 {
            Ok(CreateControlEntityMessage {  })
        } else {
            Err(WRONG_LENGTH)
        }
    }
}

impl TryFrom<RawMessage> for CreateControlEntityMessage {
    type Error = &'static str;

    fn try_from(rm: RawMessage) -> (r: Result<Self, Self::Error>)
        ensures
            r == Self::decode(rm.data@),
    {
        if rm.data.len() != 1 {
            Err(WRONG_LENGTH)
        } else {
            Ok(CreateControlEntityMessage {  })
        }
    }
}

impl vstd::std_specs::convert::TryFromSpecImpl<RawMessage> for CreateControlEntityMessage {
    open spec fn obeys_try_from_spec() -> bool {
        true
    }

    open spec fn try_from_spec(v: RawMessage) -> Result<Self, Self::Error> {
        Self::decode(v.data@)
    }
}

/// A client's notice that its control entity leaves.
#[derive(Debug, Clone, Copy)]
pub struct DisconnectMessage {
    pub id: u32,  // bytes 1 to 4
}

impl DisconnectMessage {
    /// A request of this kind is 5 bytes long.
    pub open spec fn decode(data: Seq<u8>) -> Result<Self, &'static str> {
        if data.len() == 5 {
            Ok(DisconnectMessage { id: be_u32_at(data, 1) })
        } else {
            Err(WRONG_LENGTH)
        }
    }
}

impl TryFrom<RawMessage> for DisconnectMessage {
    type Error = &'static str;

    fn try_from(rm: RawMessage) -> (r: Result<Self, Self::Error>)
        ensures
            r == Self::decode(rm.data@),
    {
        if rm.data.len() != 5 {
            Err(WRONG_LENGTH)
        } else {
            let id = read_be_u32(&rm.data, 1);
            Ok(DisconnectMessage { id })
        }
    }
}

impl vstd::std_specs::convert::TryFromSpecImpl<RawMessage> for DisconnectMessage {
    open spec fn obeys_try_from_spec() -> bool {
        true
    }

    open spec fn try_from_spec(v: RawMessage) -> Result<Self, Self::Error> {
        Self::decode(v.data@)
    }
}

/// Whether `o` lies in the rectangle of corner `(x, y)`, width `w` and height `h`.
pub open spec fn in_view(o: Obj, x: u32, y: u32, w: u32, h: u32) -> bool {
    o.x >= x && o.x < x + w && o.y >= y && o.y < y + h
}

/// How an entity is written into a response: id, `x`, `y`, each least
/// significant byte first.
pub open spec fn entity_record(o: Obj) -> Seq<u8> {
    le_bytes(o.id) + le_bytes(o.x) + le_bytes(o.y)
}

/// How many of `objs` lie in the rectangle.
pub open spec fn count_in_view(objs: Seq<Obj>, x: u32, y: u32, w: u32, h: u32) -> nat
    decreases objs.len(),
{
    if objs.len() == 0 {
        0
    } else {
        count_in_view(objs.drop_last(), x, y, w, h) + if in_view(objs.last(), x, y, w, h) {
            1nat
        } else {
            0nat
        }
    }
}

/// The records of the objects in the rectangle, in the order of `objs`.
pub open spec fn records_in_view(objs: Seq<Obj>, x: u32, y: u32, w: u32, h: u32) -> Seq<u8>
    decreases objs.len(),
{
    if objs.len() == 0 {
        Seq::empty()
    } else {
        records_in_view(objs.drop_last(), x, y, w, h) + if in_view(objs.last(), x, y, w, h) {
            entity_record(objs.last())
        } else {
            Seq::empty()
        }
    }
}

/// Whether the response to a request for the rectangle can be built: the
/// sums `x + w` and `y + h` that the test of each object reaches fit in a
/// `u32`, and at most 255 objects match, since one byte counts them.
pub open spec fn response_fits(objs: Seq<Obj>, x: u32, y: u32, w: u32, h: u32) -> bool {
    &&& forall|i: int|
        0 <= i < objs.len() ==> {
            &&& #[trigger] objs[i].x >= x ==> x + w <= u32::MAX
            &&& objs[i].x >= x && objs[i].x < x + w && objs[i].y >= y ==> y + h <= u32::MAX
        }
    &&& count_in_view(objs, x, y, w, h) <= 255
}

/// The response to a request for the rectangle: a zero byte, the number of
/// objects in it, then their records.
pub open spec fn entities_response(objs: Seq<Obj>, x: u32, y: u32, w: u32, h: u32) -> Seq<u8> {
    seq![0u8, count_in_view(objs, x, y, w, h) as u8] + records_in_view(objs, x, y, w, h)
}

/// The type byte of the response to a control entity's creation.
pub const CONTROL_RESPONSE_TYPE: u8 = 4;

/// The response to a control entity's creation: its type byte, then the
/// entity's record.
pub open spec fn control_response(o: Obj) -> Seq<u8> {
    seq![CONTROL_RESPONSE_TYPE] + entity_record(o)
}

proof fn lemma_count_prefix(objs: Seq<Obj>, x: u32, y: u32, w: u32, h: u32, i: int, j: int)
    requires
        0 <= i <= j <= objs.len(),
    ensures
        count_in_view(objs.take(i), x, y, w, h) <= count_in_view(objs.take(j), x, y, w, h),
    decreases j - i,
{
    if i < j {
        lemma_count_prefix(objs, x, y, w, h, i, j - 1);
        assert(objs.take(j).drop_last() =~= objs.take(j - 1));
    }
}

fn entities_response_bytes(objs: &Vec<Obj>, x: u32, y: u32, w: u32, h: u32) -> (resp: Vec<u8>)
    requires
        response_fits(objs@, x, y, w, h),
    ensures
        resp@ == entities_response(objs@, x, y, w, h),
{
    let mut resp: Vec<u8> = Vec::new();
    resp.push(0);
    resp.push(0);
    let mut i: usize = 0;
    while i < objs.len()
        invariant
            i <= objs@.len(),
            response_fits(objs@, x, y, w, h),
            count_in_view(objs@.take(i as int), x, y, w, h) <= 255,
            resp@ == seq![0u8, count_in_view(objs@.take(i as int), x, y, w, h) as u8]
                + records_in_view(objs@.take(i as int), x, y, w, h),
        decreases objs@.len() - i,
    {
        let o = objs[i];
        let ghost before = objs@.take(i as int);
        let ghost after = objs@.take(i + 1);
        assert(after.drop_last() =~= before);
        assert(after.last() == o);
        proof {
            lemma_count_prefix(objs@, x, y, w, h, i + 1, objs@.len() as int);
            assert(objs@.take(objs@.len() as int) =~= objs@);
        }
        assert(objs@[i as int].x >= x ==> x + w <= u32::MAX);
        if o.x >= x && o.x < x + w && o.y >= y && o.y < y + h {
            let n = resp[1];
            resp.set(1, n + 1);
            push_le_u32(&mut resp, o.id);
            push_le_u32(&mut resp, o.x);
            push_le_u32(&mut resp, o.y);
            assert(resp@ =~= seq![0u8, count_in_view(after, x, y, w, h) as u8] + records_in_view(
                after,
                x,
                y,
                w,
                h,
            ));
        } else {
            assert(resp@ =~= seq![0u8, count_in_view(after, x, y, w, h) as u8] + records_in_view(
                after,
                x,
                y,
                w,
                h,
            ));
        }
        i = i + 1;
    }
    assert(objs@.take(objs@.len() as int) =~= objs@);
    resp
}

impl GetEntitiesRequestMessage {
    /// Whether a response for the rectangle can be built (see `response_fits`).
    pub fn response_fits(objs: &Vec<Obj>, x: u32, y: u32, w: u32, h: u32) -> (ok: bool)
        ensures
            ok == response_fits(objs@, x, y, w, h),
    {
        let mut count: u32 = 0;
        let mut i: usize = 0;
        while i < objs.len()
            invariant
                i <= objs@.len(),
                count == count_in_view(objs@.take(i as int), x, y, w, h),
                count <= 255,
                forall|j: int|
                    0 <= j < i ==> {
                        &&& #[trigger] objs@[j].x >= x ==> x + w <= u32::MAX
                        &&& objs@[j].x >= x && objs@[j].x < x + w && objs@[j].y >= y ==> y + h
                            <= u32::MAX
                    },
            decreases objs@.len() - i,
        {
            let o = objs[i];
            let ghost after = objs@.take(i + 1);
            assert(after.drop_last() =~= objs@.take(i as int));
            if o.x >= x {
                if x > u32::MAX - w {
                    proof { assert(objs@[i as int].x >= x); }
                    return false;
                }
                if o.x < x + w && o.y >= y {
                    if y > u32::MAX - h {
                        proof { assert(objs@[i as int].x >= x && objs@[i as int].x < x + w); }
                        return false;
                    }
                    if o.y < y + h {
                        if count == 255 {
                            proof {
                                lemma_count_prefix(objs@, x, y, w, h, i + 1, objs@.len() as int);
                                assert(objs@.take(objs@.len() as int) =~= objs@);
                            }
                            return false;
                        }
                        count = count + 1;
                    }
                }
            }
            i = i + 1;
        }
        assert(objs@.take(objs@.len() as int) =~= objs@);
        true
    }

    /// The binary response that lists the objects in the rectangle.
    pub fn create_response(objs: &Vec<Obj>, x: u32, y: u32, w: u32, h: u32) -> (m: Message)
        requires
            response_fits(objs@, x, y, w, h),
        ensures
            m == binary_message(entities_response(objs@, x, y, w, h)),
    {
        to_binary_message(entities_response_bytes(objs, x, y, w, h))
    }
}

impl CreateControlEntityMessage {
    /// The binary response that hands the new control entity to its client.
    pub fn create_response(obj: Obj) -> (m: Message)
        ensures
            m == binary_message(control_response(obj)),
    {
        let mut resp: Vec<u8> = Vec::new();
        resp.push(CONTROL_RESPONSE_TYPE);
        push_le_u32(&mut resp, obj.id);
        push_le_u32(&mut resp, obj.x);
        push_le_u32(&mut resp, obj.y);
        assert(resp@ =~= control_response(obj));
        to_binary_message(resp)
    }
}

/// A rectangle request laid out as its comments say (type byte, then `x`,
/// `y`, `w`, `h` most significant byte first) decodes to the same request.
pub proof fn lemma_get_entities_layout(m: GetEntitiesRequestMessage, t: u8)
    ensures
        GetEntitiesRequestMessage::decode(
            seq![t] + be_bytes(m.x) + be_bytes(m.y) + be_bytes(m.w) + be_bytes(m.h),
        ) == Ok::<GetEntitiesRequestMessage, &'static str>(m),
{
    let data = seq![t] + be_bytes(m.x) + be_bytes(m.y) + be_bytes(m.w) + be_bytes(m.h);
    lemma_be_bytes_roundtrip(m.x);
    lemma_be_bytes_roundtrip(m.y);
    lemma_be_bytes_roundtrip(m.w);
    lemma_be_bytes_roundtrip(m.h);
    assert(data.subrange(1, 5) =~= be_bytes(m.x));
    assert(data.subrange(5, 9) =~= be_bytes(m.y));
    assert(data.subrange(9, 13) =~= be_bytes(m.w));
    assert(data.subrange(13, 17) =~= be_bytes(m.h));
}

/// A creation request laid out as its comments say decodes to the same request.
pub proof fn lemma_new_entity_layout(m: NewEntityRequestMessage, t: u8)
    ensures
        NewEntityRequestMessage::decode(
            seq![t] + be_bytes(m.x) + be_bytes(m.y) + be_bytes(m.entity_id),
        ) == Ok::<NewEntityRequestMessage, &'static str>(m),
{
    let data = seq![t] + be_bytes(m.x) + be_bytes(m.y) + be_bytes(m.entity_id);
    lemma_be_bytes_roundtrip(m.x);
    lemma_be_bytes_roundtrip(m.y);
    lemma_be_bytes_roundtrip(m.entity_id);
    assert(data.subrange(1, 5) =~= be_bytes(m.x));
    assert(data.subrange(5, 9) =~= be_bytes(m.y));
    assert(data.subrange(9, 13) =~= be_bytes(m.entity_id));
}

/// A velocity request laid out as its comments say (the velocities as
/// two's-complement bit patterns) decodes to the same request.
pub proof fn lemma_move_entity_layout(m: MoveEntityRequestMessage, t: u8)
    ensures
        MoveEntityRequestMessage::decode(
            seq![t] + be_bytes(#[verifier::truncate] (m.x as u32)) + be_bytes(
                #[verifier::truncate] (m.y as u32),
            ) + be_bytes(m.entity_id),
        ) == Ok::<MoveEntityRequestMessage, &'static str>(m),
{
    let ux = #[verifier::truncate] (m.x as u32);
    let uy = #[verifier::truncate] (m.y as u32);
    let data = seq![t] + be_bytes(ux) + be_bytes(uy) + be_bytes(m.entity_id);
    lemma_be_bytes_roundtrip(ux);
    lemma_be_bytes_roundtrip(uy);
    lemma_be_bytes_roundtrip(m.entity_id);
    lemma_signed_roundtrip(m.x);
    lemma_signed_roundtrip(m.y);
    assert(data.subrange(1, 5) =~= be_bytes(ux));
    assert(data.subrange(5, 9) =~= be_bytes(uy));
    assert(data.subrange(9, 13) =~= be_bytes(m.entity_id));
}

/// A disconnect laid out as its comment says decodes to the same notice.
pub proof fn lemma_disconnect_layout(m: DisconnectMessage, t: u8)
    ensures
        DisconnectMessage::decode(seq![t] + be_bytes(m.id)) == Ok::<DisconnectMessage, &'static str>(m),
{
    let data = seq![t] + be_bytes(m.id);
    lemma_be_bytes_roundtrip(m.id);
    assert(data.subrange(1, 5) =~= be_bytes(m.id));
}

/// The response to a rectangle request is two bytes plus twelve per object
/// in the rectangle.
pub proof fn lemma_entities_response_len(objs: Seq<Obj>, x: u32, y: u32, w: u32, h: u32)
    ensures
        entities_response(objs, x, y, w, h).len() == 2 + 12 * count_in_view(objs, x, y, w, h),
    decreases objs.len(),
{
    if objs.len() > 0 {
        lemma_entities_response_len(objs.drop_last(), x, y, w, h);
    }
}

/// Reading the control response back, least significant byte first, gives
/// the entity's id at offset 1, its `x` at 5 and its `y` at 9.
pub proof fn lemma_control_response_readback(o: Obj)
    ensures
        control_response(o).len() == 13,
        control_response(o)[0] == CONTROL_RESPONSE_TYPE,
        le_u32_at(control_response(o), 1) == o.id,
        le_u32_at(control_response(o), 5) == o.x,
        le_u32_at(control_response(o), 9) == o.y,
{
    let r = control_response(o);
    lemma_le_bytes_roundtrip(o.id);
    lemma_le_bytes_roundtrip(o.x);
    lemma_le_bytes_roundtrip(o.y);
    assert(r.subrange(1, 5) =~= le_bytes(o.id));
    assert(r.subrange(5, 9) =~= le_bytes(o.x));
    assert(r.subrange(9, 13) =~= le_bytes(o.y));
}

/// The objects of `objs` in the rectangle, in the order of `objs`.
pub open spec fn objects_in_view(objs: Seq<Obj>, x: u32, y: u32, w: u32, h: u32) -> Seq<Obj>
    decreases objs.len(),
{
    if objs.len() == 0 {
        Seq::empty()
    } else if in_view(objs.last(), x, y, w, h) {
        objects_in_view(objs.drop_last(), x, y, w, h).push(objs.last())
    } else {
        objects_in_view(objs.drop_last(), x, y, w, h)
    }
}

/// The records of `objs`, one after another.
pub open spec fn records_of(objs: Seq<Obj>) -> Seq<u8>
    decreases objs.len(),
{
    if objs.len() == 0 {
        Seq::empty()
    } else {
        records_of(objs.drop_last()) + entity_record(objs.last())
    }
}

/// The response lists, as its count and its records, exactly the objects in
/// the rectangle, in the order of `objs`.
pub proof fn lemma_response_lists_objects_in_view(objs: Seq<Obj>, x: u32, y: u32, w: u32, h: u32)
    ensures
        count_in_view(objs, x, y, w, h) == objects_in_view(objs, x, y, w, h).len(),
        records_in_view(objs, x, y, w, h) == records_of(objects_in_view(objs, x, y, w, h)),
    decreases objs.len(),
{
    if objs.len() > 0 {
        lemma_response_lists_objects_in_view(objs.drop_last(), x, y, w, h);
        let f = objects_in_view(objs.drop_last(), x, y, w, h);
        assert(f.push(objs.last()).drop_last() =~= f);
    }
}

proof fn lemma_in_view_len(objs: Seq<Obj>, x: u32, y: u32, w: u32, h: u32)
    ensures
        objects_in_view(objs, x, y, w, h).len() <= objs.len(),
    decreases objs.len(),
{
    if objs.len() > 0 {
        lemma_in_view_len(objs.drop_last(), x, y, w, h);
    }
}

/// Widening the rectangle keeps every object it listed, in the same order:
/// the objects of the smaller rectangle are those of the larger one that lie
/// in the smaller one, and the count does not drop.
pub proof fn lemma_wider_view_lists_more(
    objs: Seq<Obj>,
    x: u32,
    y: u32,
    w: u32,
    h: u32,
    w2: u32,
    h2: u32,
)
    requires
        w <= w2,
        h <= h2,
    ensures
        objects_in_view(objs, x, y, w, h) == objects_in_view(
            objects_in_view(objs, x, y, w2, h2),
            x,
            y,
            w,
            h,
        ),
        count_in_view(objs, x, y, w, h) <= count_in_view(objs, x, y, w2, h2),
    decreases objs.len(),
{
    lemma_response_lists_objects_in_view(objs, x, y, w, h);
    lemma_response_lists_objects_in_view(objs, x, y, w2, h2);
    lemma_in_view_len(objects_in_view(objs, x, y, w2, h2), x, y, w, h);
    if objs.len() > 0 {
        lemma_wider_view_lists_more(objs.drop_last(), x, y, w, h, w2, h2);
        let big = objects_in_view(objs.drop_last(), x, y, w2, h2);
        assert(big.push(objs.last()).drop_last() =~= big);
    }
}

/// A rectangle request is accepted exactly when it is 17 bytes long, any
/// other length is refused as wrong, and its fields are bytes 1 to 16 read
/// as four big-endian numbers.
pub proof fn lemma_get_entities_decoding(data: Seq<u8>)
    ensures
        GetEntitiesRequestMessage::decode(data) is Ok <==> data.len() == 17,
        data.len() != 17 ==> GetEntitiesRequestMessage::decode(data) == Err::<GetEntitiesRequestMessage, &'static str>(WRONG_LENGTH),
        match GetEntitiesRequestMessage::decode(data) {
            Ok(m) => m.x == data[1] * 0x100_0000 + data[2] * 0x1_0000 + data[3] * 0x100 + data[4] && m.y == data[5] * 0x100_0000 + data[6] * 0x1_0000 + data[7] * 0x100 + data[8] && m.w == data[9] * 0x100_0000 + data[10] * 0x1_0000 + data[11] * 0x100 + data[12] && m.h == data[13] * 0x100_0000 + data[14] * 0x1_0000 + data[15] * 0x100 + data[16],
            Err(_) => true,
        },
{
}

/// A creation request is accepted exactly when it is 13 bytes long, and its
/// fields are bytes 1 to 12 read as three big-endian numbers.
pub proof fn lemma_new_entity_decoding(data: Seq<u8>)
    ensures
        NewEntityRequestMessage::decode(data) is Ok <==> data.len() == 13,
        data.len() != 13 ==> NewEntityRequestMessage::decode(data) == Err::<NewEntityRequestMessage, &'static str>(WRONG_LENGTH),
        match NewEntityRequestMessage::decode(data) {
            Ok(m) => m.x == data[1] * 0x100_0000 + data[2] * 0x1_0000 + data[3] * 0x100 + data[4] && m.y == data[5] * 0x100_0000 + data[6] * 0x1_0000 + data[7] * 0x100 + data[8] && m.entity_id == data[9] * 0x100_0000 + data[10] * 0x1_0000 + data[11] * 0x100 + data[12],
            Err(_) => true,
        },
{
}

/// A clear request is accepted exactly when it is the type byte alone.
pub proof fn lemma_clear_entities_decoding(data: Seq<u8>)
    ensures
        ClearEntitiesRequestMessage::decode(data) is Ok <==> data.len() == 1,
        data.len() != 1 ==> ClearEntitiesRequestMessage::decode(data) == Err::<ClearEntitiesRequestMessage, &'static str>(WRONG_LENGTH),
        match ClearEntitiesRequestMessage::decode(data) {
            Ok(m) => true,
            Err(_) => true,
        },
{
}

/// A velocity request is accepted exactly when it is 13 bytes long; its
/// velocities are bytes 1 to 8 read as big-endian two's-complement numbers
/// and its id is bytes 9 to 12 read big-endian.
pub proof fn lemma_move_entity_decoding(data: Seq<u8>)
    ensures
        MoveEntityRequestMessage::decode(data) is Ok <==> data.len() == 13,
        data.len() != 13 ==> MoveEntityRequestMessage::decode(data) == Err::<MoveEntityRequestMessage, &'static str>(WRONG_LENGTH),
        match MoveEntityRequestMessage::decode(data) {
            Ok(m) => m.x == (if data[1] * 0x100_0000 + data[2] * 0x1_0000 + data[3] * 0x100 + data[4] < 0x8000_0000 { data[1] * 0x100_0000 + data[2] * 0x1_0000 + data[3] * 0x100 + data[4] } else { data[1] * 0x100_0000 + data[2] * 0x1_0000 + data[3] * 0x100 + data[4] - 0x1_0000_0000 }) && m.y == (if data[5] * 0x100_0000 + data[6] * 0x1_0000 + data[7] * 0x100 + data[8] < 0x8000_0000 { data[5] * 0x100_0000 + data[6] * 0x1_0000 + data[7] * 0x100 + data[8] } else { data[5] * 0x100_0000 + data[6] * 0x1_0000 + data[7] * 0x100 + data[8] - 0x1_0000_0000 }) && m.entity_id == data[9] * 0x100_0000 + data[10] * 0x1_0000 + data[11] * 0x100 + data[12],
            Err(_) => true,
        },
{
}

/// A control entity request is accepted exactly when it is the type byte alone.
pub proof fn lemma_create_control_entity_decoding(data: Seq<u8>)
    ensures
        CreateControlEntityMessage::decode(data) is Ok <==> data.len() == 1,
        data.len() != 1 ==> CreateControlEntityMessage::decode(data) == Err::<CreateControlEntityMessage, &'static str>(WRONG_LENGTH),
        match CreateControlEntityMessage::decode(data) {
            Ok(m) => true,
            Err(_) => true,
        },
{
}

/// A disconnect is accepted exactly when it is 5 bytes long, and its id is
/// bytes 1 to 4 read big-endian.
pub proof fn lemma_disconnect_decoding(data: Seq<u8>)
    ensures
        DisconnectMessage::decode(data) is Ok <==> data.len() == 5,
        data.len() != 5 ==> DisconnectMessage::decode(data) == Err::<DisconnectMessage, &'static str>(WRONG_LENGTH),
        match DisconnectMessage::decode(data) {
            Ok(m) => m.id == data[1] * 0x100_0000 + data[2] * 0x1_0000 + data[3] * 0x100 + data[4],
            Err(_) => true,
        },
{
}

/// The response to a request over no objects is a zero byte and a zero count.
pub proof fn lemma_entities_response_empty(x: u32, y: u32, w: u32, h: u32)
    ensures
        entities_response(Seq::empty(), x, y, w, h) == seq![0u8, 0u8],
{
    assert(entities_response(Seq::empty(), x, y, w, h) =~= seq![0u8, 0u8]);
}

/// An object that lies outside the rectangle on either axis changes nothing
/// in the response: it is neither counted nor listed.
pub proof fn lemma_response_skips_outside(objs: Seq<Obj>, o: Obj, x: u32, y: u32, w: u32, h: u32)
    requires
        o.x < x || o.x >= x + w || o.y < y || o.y >= y + h,
    ensures
        entities_response(objs.push(o), x, y, w, h) == entities_response(objs, x, y, w, h),
{
    assert(objs.push(o).drop_last() =~= objs);
}

/// An object inside the rectangle on both axes raises the count by one and
/// appends its id, `x` and `y`, each least significant byte first, after
/// the records already there.
pub proof fn lemma_response_adds_inside(objs: Seq<Obj>, o: Obj, x: u32, y: u32, w: u32, h: u32)
    requires
        x <= o.x < x + w,
        y <= o.y < y + h,
        objs.len() < 255,
    ensures
        ({
            let r0 = entities_response(objs, x, y, w, h);
            let r1 = entities_response(objs.push(o), x, y, w, h);
            &&& r1.len() == r0.len() + 12
            &&& r1[0] == 0
            &&& r1[1] == r0[1] + 1
            &&& r1.subrange(2, r0.len() as int) == r0.subrange(2, r0.len() as int)
            &&& le_u32_at(r1, r0.len() as int) == o.id
            &&& le_u32_at(r1, r0.len() as int + 4) == o.x
            &&& le_u32_at(r1, r0.len() as int + 8) == o.y
        }),
{
    let r0 = entities_response(objs, x, y, w, h);
    let r1 = entities_response(objs.push(o), x, y, w, h);
    assert(objs.push(o).drop_last() =~= objs);
    lemma_response_lists_objects_in_view(objs, x, y, w, h);
    lemma_in_view_len(objs, x, y, w, h);
    lemma_le_bytes_roundtrip(o.id);
    lemma_le_bytes_roundtrip(o.x);
    lemma_le_bytes_roundtrip(o.y);
    let n = r0.len() as int;
    assert(r1.subrange(n, n + 4) =~= le_bytes(o.id));
    assert(r1.subrange(n + 4, n + 8) =~= le_bytes(o.x));
    assert(r1.subrange(n + 8, n + 12) =~= le_bytes(o.y));
    assert(r1.subrange(2, n) =~= r0.subrange(2, n));
}

} // verus!
