//! The shapes of the wire: how requests, replies and rooms are written as JSON
//! text, and how such text is read back.
//!
//! Every tagged value is an object `{"type": tag, "data": ...}`; payloads that the
//! engine only passes on stay raw JSON text.

use vstd::prelude::*;
use vstd::string::StringExecFns;
use crate::decimal::{decimal, write_decimal};
use crate::json::{
    json_integer, json_members, json_quoted, json_string, json_strings, json_value,
    read_integer, read_members, read_string, read_strings, read_value, write_string,
};
use crate::player::{PlayerId, RoomInfo, SessionInfo};
use crate::text::same_text;

verus! {

/// Why a text was not read.
#[derive(Debug, Clone, Copy, PartialEq, Eq, Hash, Structural)]
pub enum DecodeError {
    /// The text is no JSON object.
    NotAnObject,
    /// The object has no `"type"` member that is a string.
    NoTag,
    /// The tag names no variant.
    UnknownTag,
    /// The `"data"` member is missing or not of the variant's shape.
    BadData,
}

/// The value of the first member of `members` whose key is `key`.
pub open spec fn member(members: Seq<(Seq<char>, Seq<char>)>, key: Seq<char>) -> Option<Seq<char>>
    decreases members.len(),
{
    if members.len() == 0 {
        None
    } else if members[0].0 == key {
        Some(members[0].1)
    } else {
        member(members.drop_first(), key)
    }
}

/// The tag and the data of a tagged value.
pub open spec fn tagged(text: Seq<char>) -> Result<(Seq<char>, Option<Seq<char>>), DecodeError> {
    match json_members(text) {
        None => Err(DecodeError::NotAnObject),
        Some(members) => match member(members, "type"@) {
            None => Err(DecodeError::NoTag),
            Some(raw) => match json_string(raw) {
                None => Err(DecodeError::NoTag),
                Some(tag) => Ok((tag, member(members, "data"@))),
            },
        },
    }
}

/// The member `key` of the object that `data` holds, if `data` is there, is an
/// object and has such a member.
pub open spec fn field(data: Option<Seq<char>>, key: Seq<char>) -> Option<Seq<char>> {
    match data {
        None => None,
        Some(text) => match json_members(text) {
            None => None,
            Some(members) => member(members, key),
        },
    }
}

/// The seats that a list of names stands for, if each is a seat's name.
pub open spec fn seats_of(names: Seq<Seq<char>>) -> Option<Seq<PlayerId>> {
    if forall|i: int| 0 <= i < names.len() ==> PlayerId::spec_from_name(#[trigger] names[i]) is Some {
        Some(Seq::new(names.len(), |i: int| PlayerId::spec_from_name(names[i]).unwrap()))
    } else {
        None
    }
}

/// The seats that `text` lists as a JSON array of seat names.
pub open spec fn seats_in(text: Option<Seq<char>>) -> Option<Seq<PlayerId>> {
    match text {
        None => None,
        Some(text) => match json_strings(text) {
            None => None,
            Some(names) => seats_of(names),
        },
    }
}

/// The seat that `text` names as a JSON string.
pub open spec fn seat_in(text: Option<Seq<char>>) -> Option<PlayerId> {
    match text {
        None => None,
        Some(text) => match json_string(text) {
            None => None,
            Some(name) => PlayerId::spec_from_name(name),
        },
    }
}

/// The 32-bit integer that `text` denotes.
pub open spec fn i32_in(text: Option<Seq<char>>) -> Option<i32> {
    match text {
        None => None,
        Some(text) => match json_integer(text) {
            None => None,
            Some(v) => if i32::MIN <= v <= i32::MAX {
                Some(v as i32)
            } else {
                None
            },
        },
    }
}

/// The unsigned 32-bit integer that `text` denotes.
pub open spec fn u32_in(text: Option<Seq<char>>) -> Option<u32> {
    match text {
        None => None,
        Some(text) => match json_integer(text) {
            None => None,
            Some(v) => if 0 <= v <= u32::MAX {
                Some(v as u32)
            } else {
                None
            },
        },
    }
}

/// A list of seats as a JSON array of their names, without spaces.
pub open spec fn seats_text(seats: Seq<PlayerId>) -> Seq<char> {
    "["@ + seats_joined(seats) + "]"@
}

/// The quoted names of `seats`, with a comma between neighbours.
pub open spec fn seats_joined(seats: Seq<PlayerId>) -> Seq<char>
    decreases seats.len(),
{
    if seats.len() == 0 {
        Seq::empty()
    } else if seats.len() == 1 {
        seat_text(seats[0])
    } else {
        seats_joined(seats.drop_last()) + ","@ + seat_text(seats.last())
    }
}

/// A seat as a JSON string.
pub open spec fn seat_text(seat: PlayerId) -> Seq<char> {
    "\""@ + seat.spec_name() + "\""@
}

/// Looks a key up among the members of an object.
pub fn find_member<'a>(members: &'a Vec<(String, String)>, key: &str) -> (found: Option<&'a str>)
    ensures
        found.deep_view() == member(members.deep_view(), key@),
{
    let ghost all = members.deep_view();
    let mut i: usize = 0;
    assert(all.skip(0) =~= all);
    while i < members.len()
        invariant
            i <= members.len(),
            all == members.deep_view(),
            all.len() == members.len(),
            member(all, key@) == member(all.skip(i as int), key@),
        decreases members.len() - i,
    {
        assert(all.skip(i as int)[0] == all[i as int]);
        assert(all[i as int] == members@[i as int].deep_view());
        assert(all.skip(i as int).drop_first() =~= all.skip(i + 1));
        if same_text(members[i].0.as_str(), key) {
            return Some(members[i].1.as_str());
        }
        i += 1;
    }
    None
}

/// Reads a list of seat names.
pub fn seats_from_names(names: &Vec<String>) -> (seats: Option<Vec<PlayerId>>)
    ensures
        match seats {
            Some(list) => seats_of(names.deep_view()) == Some(list@),
            None => seats_of(names.deep_view()) is None,
        },
{
    let ghost all = names.deep_view();
    let mut seats: Vec<PlayerId> = Vec::new();
    let mut i: usize = 0;
    while i < names.len()
        invariant
            i <= names.len(),
            all == names.deep_view(),
            all.len() == names.len(),
            seats.len() == i,
            forall|j: int| 0 <= j < i ==> PlayerId::spec_from_name(#[trigger] all[j]) == Some(seats@[j]),
        decreases names.len() - i,
    {
        assert(all[i as int] == names@[i as int]@);
        match PlayerId::from_name(names[i].as_str()) {
            Some(seat) => {
                seats.push(seat);
            },
            None => {
                return None;
            },
        }
        i += 1;
    }
    assert(seats@ =~= seats_of(all).unwrap());
    Some(seats)
}

/// Reads a JSON array of seat names.
pub fn read_seats(text: Option<&str>) -> (seats: Option<Vec<PlayerId>>)
    ensures
        match seats {
            Some(list) => seats_in(text.deep_view()) == Some(list@),
            None => seats_in(text.deep_view()) is None,
        },
{
    match text {
        None => None,
        Some(text) => match read_strings(text) {
            None => None,
            Some(names) => seats_from_names(&names),
        },
    }
}

/// Reads a JSON string that names a seat.
pub fn read_seat(text: Option<&str>) -> (seat: Option<PlayerId>)
    ensures
        seat == seat_in(text.deep_view()),
{
    match text {
        None => None,
        Some(text) => match read_string(text) {
            None => None,
            Some(name) => PlayerId::from_name(name.as_str()),
        },
    }
}

/// Reads a JSON number that fits `i32`.
pub fn read_i32(text: Option<&str>) -> (v: Option<i32>)
    ensures
        v == i32_in(text.deep_view()),
{
    match text {
        None => None,
        Some(text) => match read_integer(text) {
            None => None,
            Some(v) => if -2147483648 <= v && v <= 2147483647 {
                Some(v as i32)
            } else {
                None
            },
        },
    }
}

/// Reads a JSON number that fits `u32`.
pub fn read_u32(text: Option<&str>) -> (v: Option<u32>)
    ensures
        v == u32_in(text.deep_view()),
{
    match text {
        None => None,
        Some(text) => match read_integer(text) {
            None => None,
            Some(v) => if 0 <= v && v <= 4294967295 {
                Some(v as u32)
            } else {
                None
            },
        },
    }
}

/// Takes a tagged value apart: its tag, and its data where it has any.
pub fn read_tagged(text: &str) -> (parts: Result<(String, Option<String>), DecodeError>)
    ensures
        match parts {
            Ok(found) => tagged(text@) == Ok::<_, DecodeError>(found.deep_view()),
            Err(e) => tagged(text@) == Err::<(Seq<char>, Option<Seq<char>>), _>(e),
        },
{
    match read_members(text) {
        None => Err(DecodeError::NotAnObject),
        Some(members) => match find_member(&members, "type") {
            None => Err(DecodeError::NoTag),
            Some(raw) => match read_string(raw) {
                None => Err(DecodeError::NoTag),
                Some(tag) => {
                    let data = match find_member(&members, "data") {
                        None => None,
                        Some(d) => Some(d.to_owned()),
                    };
                    Ok((tag, data))
                },
            },
        },
    }
}

/// Reads the members of the object that `data` holds, for `pick` to look keys
/// up in.
pub fn read_fields(data: Option<&str>) -> (fields: Option<Vec<(String, String)>>)
    ensures
        forall|key: Seq<char>| #[trigger]
            picked(fields.deep_view(), key) == field(data.deep_view(), key),
{
    match data {
        None => None,
        Some(text) => read_members(text),
    }
}

/// The member `key` among `fields`, where there are fields.
pub open spec fn picked(fields: Option<Seq<(Seq<char>, Seq<char>)>>, key: Seq<char>) -> Option<
    Seq<char>,
> {
    match fields {
        None => None,
        Some(members) => member(members, key),
    }
}

/// Looks a key up among the fields that `read_fields` found.
pub fn pick<'a>(fields: &'a Option<Vec<(String, String)>>, key: &str) -> (value: Option<&'a str>)
    ensures
        value.deep_view() == picked(fields.deep_view(), key@),
{
    match fields {
        None => None,
        Some(members) => find_member(members, key),
    }
}

/// Copies an optional text.
pub fn owned(text: Option<&str>) -> (copy: Option<String>)
    ensures
        copy.deep_view() == text.deep_view(),
{
    match text {
        None => None,
        Some(text) => Some(text.to_owned()),
    }
}

/// Whether `found` is what `model` says, an `Ok` value taken by its view.
pub open spec fn agrees<T: View, E>(found: Result<T, E>, model: Result<T::V, E>) -> bool {
    match found {
        Ok(v) => model == Ok::<T::V, E>(v@),
        Err(e) => model == Err::<T::V, E>(e),
    }
}

/// A request of the guest to the host. `T` is the form in which opaque values travel.
#[derive(Debug, Clone, PartialEq, Eq, PartialOrd, Ord, Hash)]
pub enum Output<T> {
    /// The rules failed; nothing follows.
    Error(String),
    /// Asks for the room.
    SessionStart,
    /// The session is over.
    SessionEnd,
    /// Publishes the state of the game.
    UpdateState(T),
    /// Opens a scope that only `allowed` see.
    DoTaskIf { allowed: Vec<PlayerId> },
    /// Closes the innermost scope and shows `value` to `targets`.
    TaskDone { targets: Vec<PlayerId>, value: T },
    /// Asks for an integer between `start` and `end`, both included.
    Random { start: i32, end: i32 },
    /// Asks for the move of one player.
    Action { from: PlayerId, param: T },
}

/// What an `Output` holds, as mathematical values.
pub enum OutputView<V> {
    Error(Seq<char>),
    SessionStart,
    SessionEnd,
    UpdateState(V),
    DoTaskIf { allowed: Seq<PlayerId> },
    TaskDone { targets: Seq<PlayerId>, value: V },
    Random { start: i32, end: i32 },
    Action { from: PlayerId, param: V },
}

impl<T: View> View for Output<T> {
    type V = OutputView<T::V>;

    open spec fn view(&self) -> OutputView<T::V> {
        match *self {
            Output::Error(message) => OutputView::Error(message@),
            Output::SessionStart => OutputView::SessionStart,
            Output::SessionEnd => OutputView::SessionEnd,
            Output::UpdateState(value) => OutputView::UpdateState(value@),
            Output::DoTaskIf { allowed } => OutputView::DoTaskIf { allowed: allowed@ },
            Output::TaskDone { targets, value } => OutputView::TaskDone {
                targets: targets@,
                value: value@,
            },
            Output::Random { start, end } => OutputView::Random { start, end },
            Output::Action { from, param } => OutputView::Action { from, param: param@ },
        }
    }
}

/// What a player is told when a scope closes, and what the guest is told when it
/// asks to open one.
#[derive(Debug, Clone, PartialEq, Eq, PartialOrd, Ord, Hash)]
pub enum TaskResult<T> {
    /// The receiver is inside the scope: go on.
    DoTask,
    /// The receiver was outside: this is what the others produced.
    SyncResult(T),
    /// The receiver was outside and is told nothing.
    Restricted,
}

impl<T: View> View for TaskResult<T> {
    type V = TaskResult<T::V>;

    open spec fn view(&self) -> TaskResult<T::V> {
        match *self {
            TaskResult::DoTask => TaskResult::DoTask,
            TaskResult::SyncResult(value) => TaskResult::SyncResult(value@),
            TaskResult::Restricted => TaskResult::Restricted,
        }
    }
}

impl View for RoomInfo {
    type V = Seq<PlayerId>;

    open spec fn view(&self) -> Seq<PlayerId> {
        self.players@
    }
}

impl View for SessionInfo {
    type V = (Seq<PlayerId>, PlayerId);

    open spec fn view(&self) -> (Seq<PlayerId>, PlayerId) {
        (self.room.players@, self.player)
    }
}

/// The request that `text` denotes.
pub open spec fn output_of(text: Seq<char>) -> Result<OutputView<Seq<char>>, DecodeError> {
    match tagged(text) {
        Err(e) => Err(e),
        Ok((tag, data)) => if tag == "error"@ {
            match data {
                None => Err(DecodeError::BadData),
                Some(d) => match json_string(d) {
                    None => Err(DecodeError::BadData),
                    Some(message) => Ok(OutputView::Error(message)),
                },
            }
        } else if tag == "sessionStart"@ {
            Ok(OutputView::SessionStart)
        } else if tag == "sessionEnd"@ {
            Ok(OutputView::SessionEnd)
        } else if tag == "updateState"@ {
            match data {
                None => Err(DecodeError::BadData),
                Some(value) => Ok(OutputView::UpdateState(value)),
            }
        } else if tag == "doTaskIf"@ {
            match seats_in(field(data, "allowed"@)) {
                None => Err(DecodeError::BadData),
                Some(allowed) => Ok(OutputView::DoTaskIf { allowed }),
            }
        } else if tag == "taskDone"@ {
            match (seats_in(field(data, "targets"@)), field(data, "value"@)) {
                (Some(targets), Some(value)) => Ok(OutputView::TaskDone { targets, value }),
                _ => Err(DecodeError::BadData),
            }
        } else if tag == "random"@ {
            match (i32_in(field(data, "start"@)), i32_in(field(data, "end"@))) {
                (Some(start), Some(end)) => Ok(OutputView::Random { start, end }),
                _ => Err(DecodeError::BadData),
            }
        } else if tag == "action"@ {
            match (seat_in(field(data, "from"@)), field(data, "param"@)) {
                (Some(from), Some(param)) => Ok(OutputView::Action { from, param }),
                _ => Err(DecodeError::BadData),
            }
        } else {
            Err(DecodeError::UnknownTag)
        },
    }
}

/// The text of a request: the tag first, then the data, without spaces.
pub open spec fn output_text(out: OutputView<Seq<char>>) -> Seq<char> {
    match out {
        OutputView::Error(message) => "{\"type\":\"error\",\"data\":"@ + json_quoted(message) + "}"@,
        OutputView::SessionStart => "{\"type\":\"sessionStart\"}"@,
        OutputView::SessionEnd => "{\"type\":\"sessionEnd\"}"@,
        OutputView::UpdateState(value) => "{\"type\":\"updateState\",\"data\":"@ + value + "}"@,
        OutputView::DoTaskIf { allowed } => "{\"type\":\"doTaskIf\",\"data\":{\"allowed\":"@
            + seats_text(allowed) + "}}"@,
        OutputView::TaskDone { targets, value } => "{\"type\":\"taskDone\",\"data\":{\"targets\":"@
            + seats_text(targets) + ",\"value\":"@ + value + "}}"@,
        OutputView::Random { start, end } => "{\"type\":\"random\",\"data\":{\"start\":"@ + decimal(
            start as int,
        ) + ",\"end\":"@ + decimal(end as int) + "}}"@,
        OutputView::Action { from, param } => "{\"type\":\"action\",\"data\":{\"from\":"@
            + seat_text(from) + ",\"param\":"@ + param + "}}"@,
    }
}

/// The task result that `text` denotes.
pub open spec fn task_result_of(text: Seq<char>) -> Result<TaskResult<Seq<char>>, DecodeError> {
    match tagged(text) {
        Err(e) => Err(e),
        Ok((tag, data)) => if tag == "doTask"@ {
            Ok(TaskResult::DoTask)
        } else if tag == "syncResult"@ {
            match data {
                None => Err(DecodeError::BadData),
                Some(value) => Ok(TaskResult::SyncResult(value)),
            }
        } else if tag == "restricted"@ {
            Ok(TaskResult::Restricted)
        } else {
            Err(DecodeError::UnknownTag)
        },
    }
}

/// The text of a task result.
pub open spec fn task_result_text(result: TaskResult<Seq<char>>) -> Seq<char> {
    match result {
        TaskResult::DoTask => "{\"type\":\"doTask\"}"@,
        TaskResult::SyncResult(value) => "{\"type\":\"syncResult\",\"data\":"@ + value + "}"@,
        TaskResult::Restricted => "{\"type\":\"restricted\"}"@,
    }
}

/// The room that `text` denotes.
pub open spec fn room_of(text: Seq<char>) -> Result<Seq<PlayerId>, DecodeError> {
    match json_members(text) {
        None => Err(DecodeError::NotAnObject),
        Some(members) => match seats_in(member(members, "players"@)) {
            None => Err(DecodeError::BadData),
            Some(players) => Ok(players),
        },
    }
}

/// The text of a room.
pub open spec fn room_text(players: Seq<PlayerId>) -> Seq<char> {
    "{\"players\":"@ + seats_text(players) + "}"@
}

/// The session info that `text` denotes.
pub open spec fn session_of(text: Seq<char>) -> Result<(Seq<PlayerId>, PlayerId), DecodeError> {
    match json_members(text) {
        None => Err(DecodeError::NotAnObject),
        Some(members) => match member(members, "room"@) {
            None => Err(DecodeError::BadData),
            Some(room) => match (room_of(room), seat_in(member(members, "player"@))) {
                (Ok(players), Some(player)) => Ok((players, player)),
                _ => Err(DecodeError::BadData),
            },
        },
    }
}

/// The text of a session info.
pub open spec fn session_text(info: (Seq<PlayerId>, PlayerId)) -> Seq<char> {
    "{\"room\":"@ + room_text(info.0) + ",\"player\":"@ + seat_text(info.1) + "}"@
}

/// Writes a list of seats as a JSON array of names.
pub fn encode_seats(seats: &Vec<PlayerId>) -> (text: String)
    ensures
        text@ == seats_text(seats@),
{
    let mut text = "[".to_owned();
    let mut i: usize = 0;
    assert(text@ =~= "["@ + seats_joined(seats@.take(0)));
    while i < seats.len()
        invariant
            i <= seats.len(),
            text@ == "["@ + seats_joined(seats@.take(i as int)),
        decreases seats.len() - i,
    {
        let ghost before = text@;
        if i > 0 {
            text.append(",");
        }
        text.append("\"");
        text.append(seats[i].name());
        text.append("\"");
        proof {
            let next = seats@.take(i + 1);
            assert(next.drop_last() =~= seats@.take(i as int));
            assert(next.last() == seats@[i as int]);
            if i > 0 {
                assert(text@ =~= "["@ + (seats_joined(seats@.take(i as int)) + ","@ + seat_text(
                    seats@[i as int],
                )));
            } else {
                assert(seats_joined(seats@.take(0)) =~= Seq::<char>::empty());
                assert(text@ =~= "["@ + seat_text(seats@[i as int]));
            }
        }
        i += 1;
    }
    assert(seats@.take(seats.len() as int) =~= seats@);
    text.append("]");
    text
}

/// Writes a request of the guest.
pub fn encode_output(out: &Output<String>) -> (text: String)
    ensures
        text@ == output_text(out@),
{
    match out {
        Output::Error(message) => {
            let mut text = "{\"type\":\"error\",\"data\":".to_owned();
            text.append(write_string(message.as_str()).as_str());
            text.append("}");
            text
        },
        Output::SessionStart => "{\"type\":\"sessionStart\"}".to_owned(),
        Output::SessionEnd => "{\"type\":\"sessionEnd\"}".to_owned(),
        Output::UpdateState(value) => {
            let mut text = "{\"type\":\"updateState\",\"data\":".to_owned();
            text.append(value.as_str());
            text.append("}");
            text
        },
        Output::DoTaskIf { allowed } => {
            let mut text = "{\"type\":\"doTaskIf\",\"data\":{\"allowed\":".to_owned();
            text.append(encode_seats(allowed).as_str());
            text.append("}}");
            text
        },
        Output::TaskDone { targets, value } => {
            let mut text = "{\"type\":\"taskDone\",\"data\":{\"targets\":".to_owned();
            text.append(encode_seats(targets).as_str());
            text.append(",\"value\":");
            text.append(value.as_str());
            text.append("}}");
            text
        },
        Output::Random { start, end } => {
            let mut text = "{\"type\":\"random\",\"data\":{\"start\":".to_owned();
            text.append(write_decimal(*start as i64).as_str());
            text.append(",\"end\":");
            text.append(write_decimal(*end as i64).as_str());
            text.append("}}");
            text
        },
        Output::Action { from, param } => {
            let mut text = "{\"type\":\"action\",\"data\":{\"from\":".to_owned();
            text.append(encode_seat(*from).as_str());
            text.append(",\"param\":");
            text.append(param.as_str());
            text.append("}}");
            text
        },
    }
}

/// Writes a seat as a JSON string.
pub fn encode_seat(seat: PlayerId) -> (text: String)
    ensures
        text@ == seat_text(seat),
{
    let mut text = "\"".to_owned();
    text.append(seat.name());
    text.append("\"");
    text
}

/// Writes an integer as a JSON number.
pub fn encode_i32(v: i32) -> (text: String)
    ensures
        text@ == decimal(v as int),
{
    write_decimal(v as i64)
}

/// Writes the unit value, which is `null` on the wire.
pub fn encode_unit() -> (text: String)
    ensures
        text@ == "null"@,
{
    "null".to_owned()
}

/// Writes a task result.
pub fn encode_task_result(result: &TaskResult<String>) -> (text: String)
    ensures
        text@ == task_result_text(result@),
{
    match result {
        TaskResult::DoTask => "{\"type\":\"doTask\"}".to_owned(),
        TaskResult::SyncResult(value) => {
            let mut text = "{\"type\":\"syncResult\",\"data\":".to_owned();
            text.append(value.as_str());
            text.append("}");
            text
        },
        TaskResult::Restricted => "{\"type\":\"restricted\"}".to_owned(),
    }
}

/// Writes a room.
pub fn encode_room(room: &RoomInfo) -> (text: String)
    ensures
        text@ == room_text(room@),
{
    let mut text = "{\"players\":".to_owned();
    text.append(encode_seats(&room.players).as_str());
    text.append("}");
    text
}

/// Writes a session info.
pub fn encode_session(info: &SessionInfo) -> (text: String)
    ensures
        text@ == session_text(info@),
{
    let mut text = "{\"room\":".to_owned();
    text.append(encode_room(&info.room).as_str());
    text.append(",\"player\":");
    text.append(encode_seat(info.player).as_str());
    text.append("}");
    text
}

/// Reads a request of the guest.
pub fn decode_output(text: &str) -> (out: Result<Output<String>, DecodeError>)
    ensures
        agrees(out, output_of(text@)),
{
    let (tag, data) = match read_tagged(text) {
        Err(e) => {
            return Err(e);
        },
        Ok(parts) => parts,
    };
    let data: Option<&str> = match &data {
        None => None,
        Some(d) => Some(d.as_str()),
    };
    let tag = tag.as_str();
    if same_text(tag, "error") {
        match data {
            None => Err(DecodeError::BadData),
            Some(d) => match read_string(d) {
                None => Err(DecodeError::BadData),
                Some(message) => Ok(Output::Error(message)),
            },
        }
    } else if same_text(tag, "sessionStart") {
        Ok(Output::SessionStart)
    } else if same_text(tag, "sessionEnd") {
        Ok(Output::SessionEnd)
    } else if same_text(tag, "updateState") {
        match data {
            None => Err(DecodeError::BadData),
            Some(value) => Ok(Output::UpdateState(value.to_owned())),
        }
    } else if same_text(tag, "doTaskIf") {
        let fields = read_fields(data);
        match read_seats(pick(&fields, "allowed")) {
            None => Err(DecodeError::BadData),
            Some(allowed) => Ok(Output::DoTaskIf { allowed }),
        }
    } else if same_text(tag, "taskDone") {
        let fields = read_fields(data);
        match (read_seats(pick(&fields, "targets")), owned(pick(&fields, "value"))) {
            (Some(targets), Some(value)) => Ok(Output::TaskDone { targets, value }),
            _ => Err(DecodeError::BadData),
        }
    } else if same_text(tag, "random") {
        let fields = read_fields(data);
        match (read_i32(pick(&fields, "start")), read_i32(pick(&fields, "end"))) {
            (Some(start), Some(end)) => Ok(Output::Random { start, end }),
            _ => Err(DecodeError::BadData),
        }
    } else if same_text(tag, "action") {
        let fields = read_fields(data);
        match (read_seat(pick(&fields, "from")), owned(pick(&fields, "param"))) {
            (Some(from), Some(param)) => Ok(Output::Action { from, param }),
            _ => Err(DecodeError::BadData),
        }
    } else {
        Err(DecodeError::UnknownTag)
    }
}

/// Reads a task result.
pub fn decode_task_result(text: &str) -> (result: Result<TaskResult<String>, DecodeError>)
    ensures
        agrees(result, task_result_of(text@)),
{
    let (tag, data) = match read_tagged(text) {
        Err(e) => {
            return Err(e);
        },
        Ok(parts) => parts,
    };
    let tag = tag.as_str();
    if same_text(tag, "doTask") {
        Ok(TaskResult::DoTask)
    } else if same_text(tag, "syncResult") {
        match data {
            None => Err(DecodeError::BadData),
            Some(value) => Ok(TaskResult::SyncResult(value)),
        }
    } else if same_text(tag, "restricted") {
        Ok(TaskResult::Restricted)
    } else {
        Err(DecodeError::UnknownTag)
    }
}

/// Reads a room.
pub fn decode_room(text: &str) -> (room: Result<RoomInfo, DecodeError>)
    ensures
        agrees(room, room_of(text@)),
{
    match read_members(text) {
        None => Err(DecodeError::NotAnObject),
        Some(members) => match read_seats(find_member(&members, "players")) {
            None => Err(DecodeError::BadData),
            Some(players) => Ok(RoomInfo { players }),
        },
    }
}

/// Reads a session info.
pub fn decode_session(text: &str) -> (info: Result<SessionInfo, DecodeError>)
    ensures
        agrees(info, session_of(text@)),
{
    match read_members(text) {
        None => Err(DecodeError::NotAnObject),
        Some(members) => match find_member(&members, "room") {
            None => Err(DecodeError::BadData),
            Some(room) => match (decode_room(room), read_seat(find_member(&members, "player"))) {
                (Ok(room), Some(player)) => Ok(SessionInfo { room, player }),
                _ => Err(DecodeError::BadData),
            },
        },
    }
}

/// Reads an integer that fits `i32`.
pub fn decode_i32(text: &str) -> (v: Option<i32>)
    ensures
        v == i32_in(Some(text@)),
{
    read_i32(Some(text))
}

/// Whether `text` is the unit value: the JSON value `null`.
pub open spec fn is_unit(text: Seq<char>) -> bool {
    json_value(text) == Some("null"@)
}

/// Reads the unit value: `true` where the text is `null`.
pub fn decode_unit(text: &str) -> (ok: bool)
    ensures
        ok == is_unit(text@),
{
    match read_value(text.to_owned()) {
        Some(value) => same_text(value.as_str(), "null"),
        None => false,
    }
}

} // verus!
