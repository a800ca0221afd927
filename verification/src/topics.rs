//! Topics of the distributed hash table: where they are found and what its replies say of them.

use crate::json::{json_parse, json_tree, natural_member, parse, text_member};
use crate::json::{as_natural, as_text, law_natural_member, law_text_member, member, Json};
use vstd::prelude::*;
use vstd::string::*;

verus! {

/// Where the distributed hash table answers.
pub const DHT_ADDRESS: &'static str = "http://localhost:3000";

/// The address of the topic of a light.
pub open spec fn topic_address(topic_uuid: Seq<char>) -> Seq<char> {
    DHT_ADDRESS@ + "/topic_name/smart_light_assistants/topic_uuid/"@ + topic_uuid
}

/// The address under which the topic of a light is read and written.
pub fn topic_url(topic_uuid: &str) -> (url: String)
    ensures
        url@ == topic_address(topic_uuid@),
{
    let mut url = DHT_ADDRESS.to_string();
    url.append("/topic_name/smart_light_assistants/topic_uuid/");
    url.append(topic_uuid);
    url
}

/// The address under which the topics of all lights are read.
pub fn smart_lights_url() -> (url: String)
    ensures
        url@ == DHT_ADDRESS@ + "/topic_name/smart_light_assistants"@,
{
    let mut url = DHT_ADDRESS.to_string();
    url.append("/topic_name/smart_light_assistants");
    url
}

/// The address under which the topics of all rooms are read.
pub fn rooms_url() -> (url: String)
    ensures
        url@ == DHT_ADDRESS@ + "/topic_name/domo_room"@,
{
    let mut url = DHT_ADDRESS.to_string();
    url.append("/topic_name/domo_room");
    url
}

/// A lower-case hexadecimal digit.
pub open spec fn is_hex_digit(c: char) -> bool {
    '0' <= c <= '9' || 'a' <= c <= 'f'
}

/// The text of a random identifier: groups of eight, four, four, four and twelve lower-case
/// hexadecimal digits with hyphens between them. The third group starts with the version, the
/// fourth with the variant.
pub open spec fn is_random_uuid(text: Seq<char>) -> bool {
    &&& text.len() == 36
    &&& forall|i: int|
        0 <= i < 36 ==> if i == 8 || i == 13 || i == 18 || i == 23 {
            #[trigger] text[i] == '-'
        } else {
            is_hex_digit(text[i])
        }
    &&& text[14] == '4'
    &&& text[19] == '8' || text[19] == '9' || text[19] == 'a' || text[19] == 'b'
}

/// The random identifiers drawn so far, in order. The record is kept for contracts alone, and
/// drawing an identifier is the one way to add to it.
pub struct Draws {
    texts: Ghost<Seq<Seq<char>>>,
}

impl View for Draws {
    type V = Seq<Seq<char>>;

    closed spec fn view(&self) -> Seq<Seq<char>> {
        self.texts@
    }
}

impl Draws {
    /// Nothing has been drawn.
    pub(crate) fn none() -> (draws: Draws)
        ensures
            draws@ == Seq::<Seq<char>>::empty(),
    {
        Draws { texts: Ghost(Seq::empty()) }
    }
}

/// `uuid::Uuid::new_v4` with `to_string`: a random identifier in hyphenated lower-case form, which
/// is drawn by the call and is the one entry that the record gains. Which one is left to chance, so
/// two calls may differ. The call panics where the operating system has no random bytes to give,
/// which nothing here can rule out.
#[verifier::external_body]
pub(crate) fn fresh_topic_uuid(draws: &mut Draws) -> (text: String)
    ensures
        is_random_uuid(text@),
        final(draws)@ == old(draws)@.push(text@),
{
    uuid::Uuid::new_v4().to_string()
}

/// Whether a reply to a request for one topic shows that the topic exists: the reply names it.
pub fn reply_names_topic(reply: &serde_json::Value) -> (named: bool)
    ensures
        named == (as_text(member(json_tree(*reply), "topic_uuid"@)) is Some),
{
    text_member(reply, "topic_uuid").is_some()
}

/// A body is JSON for an object with a text under `topic_uuid`.
pub open spec fn shows_topic(body: Seq<u8>) -> bool {
    &&& json_parse(body) matches Some(Json::Object(members))
    &&& members.contains_key("topic_uuid"@)
    &&& members["topic_uuid"@] is Text
}

proof fn lemma_shows_topic(body: Seq<u8>)
    ensures
        shows_topic(body) == (json_parse(body) matches Some(reply) && as_text(
            member(reply, "topic_uuid"@),
        ) is Some),
{
    if let Some(reply) = json_parse(body) {
        law_text_member(reply, "topic_uuid"@, Seq::empty());
    }
}

/// Reads the body of a reply to a request for one topic: whether it shows that the topic exists, or
/// why it is no JSON.
pub fn read_reply(body: &[u8]) -> (named: Result<bool, serde_json::Error>)
    ensures
        match named {
            Ok(named) => json_parse(body@) matches Some(reply) && named == (as_text(
                member(reply, "topic_uuid"@),
            ) is Some),
            Err(_) => json_parse(body@) is None,
        },
        named matches Ok(named) ==> named == shows_topic(body@),
{
    proof {
        lemma_shows_topic(body@);
    }
    match parse(body) {
        Ok(reply) => Ok(reply_names_topic(&reply)),
        Err(error) => Err(error),
    }
}

/// Whether a topic exists, by the body of the reply to a request for it. A request without a
/// reply counts as a topic that does not exist, and so does a body that is no JSON.
pub fn topic_exists(body: Option<&[u8]>) -> (exists: bool)
    ensures
        exists == match body {
            Some(body) => match json_parse(body@) {
                Some(reply) => as_text(member(reply, "topic_uuid"@)) is Some,
                None => false,
            },
            None => false,
        },
        exists == (body matches Some(body) && shows_topic(body@)),
{
    match body {
        Some(body) => match read_reply(body) {
            Ok(named) => named,
            Err(_) => false,
        },
        None => false,
    }
}

/// A topic as the distributed hash table lists it.
pub struct Topic {
    pub topic_uuid: String,
    pub topic_name: String,
    pub value: serde_json::Value,
}

/// What is read in the topic of a room.
pub struct RoomTopic {
    pub topic_uuid: String,
    pub order_id: Option<u64>,
}

/// The topic of a room: its identifier and the place of the room in the order of rooms.
pub struct Room {
    pub topic_uuid: Seq<char>,
    pub order_id: Option<u64>,
}

impl View for RoomTopic {
    type V = Room;

    open spec fn view(&self) -> Room {
        Room { topic_uuid: self.topic_uuid@, order_id: self.order_id }
    }
}

impl Topic {
    /// What the topic says of a room.
    pub open spec fn as_room(self) -> Room {
        Room {
            topic_uuid: self.topic_uuid@,
            order_id: as_natural(member(json_tree(self.value), "order_id"@)),
        }
    }

    /// Reads the topic of a room.
    pub fn room(&self) -> (room: RoomTopic)
        ensures
            room@ == self.as_room(),
    {
        RoomTopic {
            topic_uuid: self.topic_uuid.clone(),
            order_id: natural_member(&self.value, "order_id"),
        }
    }
}

/// What the distributed hash table lacks.
#[derive(Debug, PartialEq, Eq, Structural)]
pub enum DhtError {
    /// No room is the first one.
    NoFirstRoom,
}

impl DhtError {
    /// The words for the error.
    pub fn message(&self) -> (message: String)
        ensures
            message@ == "No topic with order_id == 0 found"@,
    {
        "No topic with order_id == 0 found".to_string()
    }
}

/// The first of the listed rooms whose place in the order of rooms is 0.
pub open spec fn first_room(rooms: Seq<Room>) -> Option<Seq<char>>
    decreases rooms.len(),
{
    if rooms.len() == 0 {
        None
    } else if rooms[0].order_id == Some(0u64) {
        Some(rooms[0].topic_uuid)
    } else {
        first_room(rooms.drop_first())
    }
}

/// What a list of room topics says.
pub open spec fn rooms_read(rooms: Seq<RoomTopic>) -> Seq<Room> {
    rooms.map_values(|room: RoomTopic| room@)
}

/// What a list of topics says of rooms.
pub open spec fn rooms_listed(topics: Seq<Topic>) -> Seq<Room> {
    topics.map_values(|topic: Topic| topic.as_room())
}

/// Finds the room in which a new light is placed: the first one listed with the place 0.
pub fn first_room_uuid(rooms: &Vec<RoomTopic>) -> (found: Result<String, DhtError>)
    ensures
        match found {
            Ok(uuid) => first_room(rooms_read(rooms@)) == Some(uuid@),
            Err(error) => error == DhtError::NoFirstRoom && first_room(rooms_read(rooms@)) is None,
        },
{
    let ghost all = rooms_read(rooms@);
    assert(all.skip(0) =~= all);
    let mut i: usize = 0;
    while i < rooms.len()
        invariant
            i <= rooms.len(),
            all == rooms_read(rooms@),
            first_room(all) == first_room(all.skip(i as int)),
        decreases rooms.len() - i,
    {
        assert(all.skip(i as int)[0] == rooms[i as int]@);
        assert(all.skip(i as int).drop_first() =~= all.skip(i + 1));
        if let Some(0) = rooms[i].order_id {
            return Ok(rooms[i].topic_uuid.clone());
        }
        i += 1;
    }
    Err(DhtError::NoFirstRoom)
}

/// Finds the room in which a new light is placed, by the topics listed for rooms.
pub fn fetch_first_room_uuid(topics: &Vec<Topic>) -> (found: Result<String, DhtError>)
    ensures
        match found {
            Ok(uuid) => first_room(rooms_listed(topics@)) == Some(uuid@),
            Err(error) => error == DhtError::NoFirstRoom && first_room(
                rooms_listed(topics@),
            ) is None,
        },
        match found {
            Ok(uuid) => exists|i: int| #[trigger] is_first_room(topics@, i) && topics@[i].topic_uuid@
                == uuid@,
            Err(_) => forall|i: int|
                0 <= i < topics@.len() ==> !has_place_zero(#[trigger] topics@[i]),
        },
{
    proof {
        law_first_room_of_topics(topics@);
    }
    let mut rooms: Vec<RoomTopic> = Vec::new();
    let mut i: usize = 0;
    while i < topics.len()
        invariant
            i <= topics.len(),
            rooms_read(rooms@) == rooms_listed(topics@).take(i as int),
        decreases topics.len() - i,
    {
        let ghost before = rooms_read(rooms@);
        rooms.push(topics[i].room());
        assert(rooms_read(rooms@) =~= before.push(topics[i as int].as_room()));
        assert(rooms_read(rooms@) =~= rooms_listed(topics@).take(i + 1));
        i += 1;
    }
    assert(rooms_listed(topics@).take(i as int) =~= rooms_listed(topics@));
    first_room_uuid(&rooms)
}

/// Each topic of a light has an address of its own.
pub proof fn law_topics_have_their_own_addresses(a: Seq<char>, b: Seq<char>)
    requires
        topic_address(a) == topic_address(b),
    ensures
        a == b,
{
    let prefix = DHT_ADDRESS@ + "/topic_name/smart_light_assistants/topic_uuid/"@;
    assert(a =~= topic_address(a).skip(prefix.len() as int));
    assert(b =~= topic_address(b).skip(prefix.len() as int));
}

/// The first room is one of those listed, has the place 0, and none listed before it has.
pub proof fn law_first_room_is_first(rooms: Seq<Room>)
    ensures
        match first_room(rooms) {
            Some(uuid) => exists|i: int|
                0 <= i < rooms.len() && (#[trigger] rooms[i]).topic_uuid == uuid
                    && rooms[i].order_id == Some(0u64) && (forall|j: int|
                    0 <= j < i ==> (#[trigger] rooms[j]).order_id != Some(0u64)),
            None => forall|j: int|
                0 <= j < rooms.len() ==> (#[trigger] rooms[j]).order_id != Some(0u64),
        },
    decreases rooms.len(),
{
    if rooms.len() > 0 && rooms[0].order_id != Some(0u64) {
        let rest = rooms.drop_first();
        law_first_room_is_first(rest);
        match first_room(rest) {
            Some(uuid) => {
                let i = choose|i: int|
                    0 <= i < rest.len() && (#[trigger] rest[i]).topic_uuid == uuid
                        && rest[i].order_id == Some(0u64) && (forall|j: int|
                        0 <= j < i ==> (#[trigger] rest[j]).order_id != Some(0u64));
                assert(rooms[i + 1] == rest[i]);
                assert forall|j: int| 0 <= j < i + 1 implies (#[trigger] rooms[j]).order_id != Some(
                    0u64,
                ) by {
                    if j > 0 {
                        assert(rooms[j] == rest[j - 1]);
                    }
                }
            },
            None => {
                assert forall|j: int| 0 <= j < rooms.len() implies (
                #[trigger] rooms[j]).order_id != Some(0u64) by {
                    if j > 0 {
                        assert(rooms[j] == rest[j - 1]);
                    }
                }
            },
        }
    }
}

/// The value of a topic is a JSON object with the integer 0 under `order_id`.
pub open spec fn has_place_zero(topic: Topic) -> bool {
    &&& json_tree(topic.value) matches Json::Object(members)
    &&& members.contains_key("order_id"@)
    &&& members["order_id"@] == Json::Natural(0)
}

/// The topic at a position has the place 0 among rooms, and none listed before it has.
pub open spec fn is_first_room(topics: Seq<Topic>, i: int) -> bool {
    &&& 0 <= i < topics.len()
    &&& has_place_zero(topics[i])
    &&& forall|j: int| 0 <= j < i ==> !has_place_zero(#[trigger] topics[j])
}

/// The room for new lights is the first listed topic whose value holds the integer 0 under
/// `order_id`; there is none only if no listed topic holds that.
pub proof fn law_first_room_of_topics(topics: Seq<Topic>)
    ensures
        match first_room(rooms_listed(topics)) {
            Some(uuid) => exists|i: int| #[trigger] is_first_room(topics, i) && topics[i].topic_uuid@
                == uuid,
            None => forall|i: int| 0 <= i < topics.len() ==> !has_place_zero(#[trigger] topics[i]),
        },
{
    let rooms = rooms_listed(topics);
    law_first_room_is_first(rooms);
    assert forall|i: int| 0 <= i < topics.len() implies has_place_zero(#[trigger] topics[i]) == (
    rooms[i].order_id == Some(0u64)) by {
        law_natural_member(json_tree(topics[i].value), "order_id"@, 0);
    }
    if let Some(uuid) = first_room(rooms) {
        let i = choose|i: int|
            0 <= i < rooms.len() && (#[trigger] rooms[i]).topic_uuid == uuid && rooms[i].order_id
                == Some(0u64) && (forall|j: int|
                0 <= j < i ==> (#[trigger] rooms[j]).order_id != Some(0u64));
        assert forall|j: int| 0 <= j < i implies !has_place_zero(#[trigger] topics[j]) by {
            assert(rooms[j].order_id != Some(0u64));
        }
        assert(is_first_room(topics, i) && topics[i].topic_uuid@ == uuid);
    } else {
        assert forall|i: int| 0 <= i < topics.len() implies !has_place_zero(
            #[trigger] topics[i],
        ) by {
            assert(rooms[i].order_id != Some(0u64));
        }
    }
}

/// A room is read from its topic as it stands: the identifier, and the integer under `order_id` if
/// there is one that is not negative.
pub proof fn law_room_is_read_as_it_stands(topic: Topic, place: u64)
    ensures
        topic.as_room().topic_uuid == topic.topic_uuid@,
        topic.as_room().order_id == Some(place) <==> {
            &&& json_tree(topic.value) matches Json::Object(members)
            &&& members.contains_key("order_id"@)
            &&& members["order_id"@] == Json::Natural(place)
        },
        topic.as_room().order_id is None <==> !(json_tree(topic.value) matches Json::Object(members)
            && members.contains_key("order_id"@) && members["order_id"@] is Natural),
{
    law_natural_member(json_tree(topic.value), "order_id"@, place);
}

/// The list of rooms read is as long as the list of topics, and each stands in the place of its
/// topic.
pub proof fn law_rooms_keep_their_places(rooms: Seq<RoomTopic>, topics: Seq<Topic>, i: int)
    ensures
        rooms_read(rooms).len() == rooms.len(),
        0 <= i < rooms.len() ==> rooms_read(rooms)[i].topic_uuid == rooms[i].topic_uuid@
            && rooms_read(rooms)[i].order_id == rooms[i].order_id,
        rooms_listed(topics).len() == topics.len(),
        0 <= i < topics.len() ==> rooms_listed(topics)[i] == topics[i].as_room(),
{
}

/// The address of a topic is that of the local hash table, followed by the path of light topics and
/// the identifier.
pub proof fn law_topic_address_is_local(topic_uuid: Seq<char>)
    ensures
        topic_address(topic_uuid)
            == "http://localhost:3000/topic_name/smart_light_assistants/topic_uuid/"@ + topic_uuid,
{
    reveal_strlit("http://localhost:3000");
    reveal_strlit("/topic_name/smart_light_assistants/topic_uuid/");
    reveal_strlit("http://localhost:3000/topic_name/smart_light_assistants/topic_uuid/");
    assert(topic_address(topic_uuid)
        =~= "http://localhost:3000/topic_name/smart_light_assistants/topic_uuid/"@ + topic_uuid);
}

} // verus!
