//! The cells of the message list as the view reads them.

use crate::cells::{numbered, CellContent, CellValue, Role};
use crate::message::{MessageItem, MessageRow};
use crate::message_list::MessageList;
use crate::status::status_label;
use crate::text::same_text;
use crate::timefmt::{format_human_message_time, format_section_date};
use vstd::prelude::*;

verus! {

/// The role of the time of day of a message.
pub const ROLE_TIME: i32 = 6;

/// The role of the day heading of a message.
pub const ROLE_SECTION_DATE: i32 = 7;

/// The role that tells whether a message is the first of its day.
pub const ROLE_IS_START_OF_DAY: i32 = 13;

/// What the clock contributes to the cells of a row: the time of day, the
/// day heading, and whether the row is the first of its day.
#[derive(Debug, PartialEq, Eq)]
pub struct RowLabels {
    pub time: String,
    pub section_date: String,
    pub is_start_of_day: bool,
}

/// The mathematical value of `RowLabels`.
pub struct RowLabelsView {
    pub time: Seq<char>,
    pub section_date: Seq<char>,
    pub is_start_of_day: bool,
}

impl View for RowLabels {
    type V = RowLabelsView;

    open spec fn view(&self) -> RowLabelsView {
        RowLabelsView {
            time: self.time@,
            section_date: self.section_date@,
            is_start_of_day: self.is_start_of_day,
        }
    }
}

/// The cell of a row under a role.
///
/// 0 body, 1 own message, 2 transport type, 3 time in microseconds, 4 id,
/// 5 status word, 6 time of day, 7 day heading, 8 media address, 9 media
/// flag, 10 avatar address, 11 informational flag, 12 media type, 13 first
/// of its day, 14 thumbnail address, 15 upload progress.
pub open spec fn message_cell(row: MessageRow, role: i32, labels: RowLabelsView) -> CellContent {
    if role == 0 {
        CellContent::Text(row.body)
    } else if role == 1 {
        CellContent::Flag(row.from_me)
    } else if role == 2 {
        CellContent::Integer(row.transport_type)
    } else if role == 3 {
        CellContent::Integer(row.timestamp_micros)
    } else if role == 4 {
        CellContent::Text(row.message_id)
    } else if role == 5 {
        CellContent::Text(status_label(row.status))
    } else if role == 6 {
        CellContent::Text(labels.time)
    } else if role == 7 {
        CellContent::Text(labels.section_date)
    } else if role == 8 {
        CellContent::Text(row.media_url)
    } else if role == 9 {
        CellContent::Flag(row.is_media)
    } else if role == 10 {
        CellContent::Text(row.avatar_url)
    } else if role == 11 {
        CellContent::Flag(row.is_info)
    } else if role == 12 {
        CellContent::Text(row.mime_type)
    } else if role == 13 {
        CellContent::Flag(labels.is_start_of_day)
    } else if role == 14 {
        CellContent::Text(row.thumbnail_url)
    } else if role == 15 {
        CellContent::Progress(row.upload_progress)
    } else {
        CellContent::Empty
    }
}

/// The names of the roles of the message list, by number.
pub open spec fn message_role_names() -> Seq<Seq<char>> {
    seq![
        "body"@,
        "from_me"@,
        "transport_type"@,
        "timestamp_micros"@,
        "message_id"@,
        "status"@,
        "time"@,
        "section_date"@,
        "media_url"@,
        "is_media"@,
        "avatar_url"@,
        "is_info"@,
        "mime_type"@,
        "is_start_of_day"@,
        "thumbnail_url"@,
        "upload_progress"@,
    ]
}

/// Whether a row begins a day: its day heading differs from that of the
/// row behind it, or there is no row behind it.
pub open spec fn begins_day(section_date: Seq<char>, next_section_date: Option<Seq<char>>) -> bool {
    match next_section_date {
        Some(next) => section_date != next,
        None => true,
    }
}

/// Whether a row begins a day, given its day heading and that of the row
/// behind it.
pub fn starts_day(section_date: &str, next_section_date: Option<&str>) -> (first: bool)
    ensures
        first == begins_day(
            section_date@,
            match next_section_date {
                Some(next) => Some(next@),
                None => None,
            },
        ),
{
    match next_section_date {
        Some(next) => !same_text(section_date, next),
        None => true,
    }
}

/// The cell of an item under a role, given what the clock contributes.
pub fn cell_of(item: &MessageItem, role: i32, labels: &RowLabels) -> (cell: CellValue)
    ensures
        cell@ == message_cell(item@, role, labels@),
{
    if role == 0 {
        CellValue::Text(item.body.clone())
    } else if role == 1 {
        CellValue::Flag(item.from_me)
    } else if role == 2 {
        CellValue::Integer(item.transport_type)
    } else if role == 3 {
        CellValue::Integer(item.timestamp_micros)
    } else if role == 4 {
        CellValue::Text(item.message_id.clone())
    } else if role == 5 {
        CellValue::Text(item.status.label().to_owned())
    } else if role == 6 {
        CellValue::Text(labels.time.clone())
    } else if role == 7 {
        CellValue::Text(labels.section_date.clone())
    } else if role == 8 {
        CellValue::Text(item.media_url.clone())
    } else if role == 9 {
        CellValue::Flag(item.is_media)
    } else if role == 10 {
        CellValue::Text(item.avatar_url.clone())
    } else if role == 11 {
        CellValue::Flag(item.is_info)
    } else if role == 12 {
        CellValue::Text(item.mime_type.clone())
    } else if role == 13 {
        CellValue::Flag(labels.is_start_of_day)
    } else if role == 14 {
        CellValue::Text(item.thumbnail_url.clone())
    } else if role == 15 {
        CellValue::Progress(item.upload_progress)
    } else {
        CellValue::Empty
    }
}

impl MessageList {
    /// The roles of the list, by number.
    pub fn role_names(&self) -> (roles: Vec<Role>)
        ensures
            roles.deep_view() == numbered(message_role_names()),
    {
        let mut roles: Vec<Role> = Vec::new();
        roles.push(Role { number: 0, name: "body" });
        roles.push(Role { number: 1, name: "from_me" });
        roles.push(Role { number: 2, name: "transport_type" });
        roles.push(Role { number: 3, name: "timestamp_micros" });
        roles.push(Role { number: 4, name: "message_id" });
        roles.push(Role { number: 5, name: "status" });
        roles.push(Role { number: 6, name: "time" });
        roles.push(Role { number: 7, name: "section_date" });
        roles.push(Role { number: 8, name: "media_url" });
        roles.push(Role { number: 9, name: "is_media" });
        roles.push(Role { number: 10, name: "avatar_url" });
        roles.push(Role { number: 11, name: "is_info" });
        roles.push(Role { number: 12, name: "mime_type" });
        roles.push(Role { number: 13, name: "is_start_of_day" });
        roles.push(Role { number: 14, name: "thumbnail_url" });
        roles.push(Role { number: 15, name: "upload_progress" });
        assert(roles.deep_view() =~= numbered(message_role_names()));
        roles
    }

    /// The cell of the row `row` under `role`, given what the clock
    /// contributes; `Empty` for a row that does not exist.
    pub fn cell(&self, row: i32, role: i32, labels: &RowLabels) -> (cell: CellValue)
        ensures
            cell@ == if 0 <= row < self@.messages.len() {
                message_cell(self@.messages[row as int], role, labels@)
            } else {
                CellContent::Empty
            },
    {
        if row < 0 || row as usize >= self.messages.len() {
            return CellValue::Empty;
        }
        assert(self.messages[row as int]@ == self@.messages[row as int]);
        cell_of(&self.messages[row as usize], role, labels)
    }

    /// The cell of the row `row` under `role`; `Empty` for a row or a role
    /// that does not exist. The time of day, the day heading and the
    /// first-of-day flag are made with the clock of the moment, and only
    /// for the roles that show them.
    pub fn data(&self, row: i32, role: i32) -> (cell: CellValue)
        ensures
            !(0 <= row < self@.messages.len()) ==> cell@ == CellContent::Empty,
            0 <= row < self@.messages.len() ==> exists|labels: RowLabelsView|
                cell@ == message_cell(self@.messages[row as int], role, labels),
    {
        if row < 0 || row as usize >= self.messages.len() {
            return CellValue::Empty;
        }
        let at = row as usize;
        let item = &self.messages[at];
        let mut labels = RowLabels {
            time: String::new(),
            section_date: String::new(),
            is_start_of_day: true,
        };
        if role == ROLE_TIME {
            labels.time = format_human_message_time(item.timestamp_micros);
        } else if role == ROLE_SECTION_DATE {
            labels.section_date = format_section_date(item.timestamp_micros);
        } else if role == ROLE_IS_START_OF_DAY {
            let current = format_section_date(item.timestamp_micros);
            labels.is_start_of_day = if at + 1 < self.messages.len() {
                let next = format_section_date(self.messages[at + 1].timestamp_micros);
                starts_day(current.as_str(), Some(next.as_str()))
            } else {
                starts_day(current.as_str(), None)
            };
        }
        let cell = self.cell(row, role, &labels);
        assert(cell@ == message_cell(self@.messages[row as int], role, labels@));
        cell
    }
}

} // verus!
