//! The computing half of the command surface: what a command decides once
//! the outside world has been read, and before it is written to.

use vstd::prelude::*;
use vstd::string::*;
use crate::database::{add_message, create_conversation, first_message_after, LocalConversation};
use crate::text::{decimal_string, decimal_text, opt_text};
use crate::version::{digit_value, is_digit};

verus! {

/// The pattern in which a reset time is shown: month, day, hour, minute.
pub const RESET_TIME_PATTERN: &'static str = "%m-%d %H:%M";

/// Nanoseconds since the Unix epoch by the system clock, from
/// `chrono::Utc::now` and `timestamp_nanos_opt`; `None` where the moment
/// does not fit. Nothing is known of the number.
#[verifier::external_body]
fn utc_nanos() -> (nanos: Option<i64>) {
    chrono::Utc::now().timestamp_nanos_opt()
}

/// Whether `chrono` reads a text as an RFC 3339 date and time.
pub uninterp spec fn is_rfc3339(s: Seq<char>) -> bool;

/// The number that the two decimal digits at `at` write.
pub open spec fn two_digits(text: Seq<char>, at: int) -> nat {
    digit_value(text[at]) * 10 + digit_value(text[at + 1])
}

/// Whether a text is a reset time as it is shown: month, `-`, day, a
/// space, hour, `:`, minute, each a number of two digits in its range.
pub open spec fn is_reset_label(text: Seq<char>) -> bool {
    &&& text.len() == 11
    &&& is_digit(text[0]) && is_digit(text[1])
    &&& text[2] == '-'
    &&& is_digit(text[3]) && is_digit(text[4])
    &&& text[5] == ' '
    &&& is_digit(text[6]) && is_digit(text[7])
    &&& text[8] == ':'
    &&& is_digit(text[9]) && is_digit(text[10])
    &&& 1 <= two_digits(text, 0) <= 12
    &&& 1 <= two_digits(text, 3) <= 31
    &&& two_digits(text, 6) <= 23
    &&& two_digits(text, 9) <= 59
}

/// Reads an RFC 3339 time with `chrono::DateTime::parse_from_rfc3339` and
/// writes it in the machine's time zone with `with_timezone` and `format`
/// in the reset-time pattern. There is a result exactly where the text is
/// such a time. Which month, day, hour and minute come out depends on the
/// machine's time zone; that each is written as `chrono` documents `%m`,
/// `%d`, `%H` and `%M`, with two digits and in its range, holds whatever
/// the zone.
#[verifier::external_body]
fn local_time_text(iso_time: &str, pattern: &str) -> (text: Option<String>)
    requires
        pattern@ == RESET_TIME_PATTERN@,
    ensures
        (text is Some) == is_rfc3339(iso_time@),
        text matches Some(t) ==> is_reset_label(t@),
{
    match chrono::DateTime::parse_from_rfc3339(iso_time) {
        Ok(dt) => Some(dt.with_timezone(&chrono::Local).format(pattern).to_string()),
        Err(_) => None,
    }
}

/// The id of a conversation that starts at a given clock reading.
pub open spec fn conversation_id_text(nanos: int) -> Seq<char> {
    "local_"@ + decimal_text(nanos)
}

/// The id of a conversation that starts at `nanos`.
pub fn conversation_id_from(nanos: i64) -> (id: String)
    ensures
        id@ == conversation_id_text(nanos as int),
{
    let mut id: String = "local_".to_owned();
    let number: String = decimal_string(nanos);
    id.append(number.as_str());
    id
}

/// A fresh conversation id, made from the system clock; a clock reading
/// that does not fit counts as zero.
pub fn generate_conversation_id() -> (id: String)
    ensures
        exists|nanos: i64| id@ == conversation_id_text(nanos as int),
{
    let nanos: i64 = match utc_nanos() {
        Some(n) => n,
        None => 0,
    };
    let id: String = conversation_id_from(nanos);
    assert(id@ == conversation_id_text(nanos as int));
    id
}

/// What is shown for a reset time: the local rendering where there is
/// one, the text as it came otherwise.
pub open spec fn reset_time_text(iso_time: Seq<char>, local: Option<Seq<char>>) -> Seq<char> {
    match local {
        Some(text) => text,
        None => iso_time,
    }
}

/// Picks what is shown for a reset time.
pub fn reset_time_label(iso_time: String, local: Option<String>) -> (label: String)
    ensures
        label@ == reset_time_text(iso_time@, opt_text(local)),
{
    match local {
        Some(text) => text,
        None => iso_time,
    }
}

/// A reset time for display: in the machine's time zone as month-day
/// hour:minute where `iso_time` is an RFC 3339 time, unchanged otherwise.
pub fn format_reset_time(iso_time: String) -> (label: String)
    ensures
        is_rfc3339(iso_time@) ==> is_reset_label(label@),
        !is_rfc3339(iso_time@) ==> label@ == iso_time@,
{
    let local: Option<String> = local_time_text(iso_time.as_str(), RESET_TIME_PATTERN);
    reset_time_label(iso_time, local)
}

/// Books a message that was saved locally. A conversation that the store
/// does not hold yet is created first, without a first message; then the
/// message is booked on it as `add_message` does. `user_count` is the
/// number of `user` messages that the conversation holds, the new one
/// included. The result is the conversation's row to store.
pub fn save_local_message(
    existing: Option<LocalConversation>,
    conversation_id: &str,
    role: &str,
    content: &str,
    now: &str,
    user_count: i32,
) -> (row: LocalConversation)
    requires
        existing matches Some(c) ==> c.message_count < i32::MAX,
    ensures
        row.last_used_time@ == now@,
        existing matches Some(c) ==> row.conversation_id == c.conversation_id && row.name == c.name
            && row.is_generating == c.is_generating && row.message_count == c.message_count + 1
            && row.first_message@ == first_message_after(
            c.first_message@,
            role@,
            content@,
            user_count as int,
        ),
        existing is None ==> row.conversation_id@ == conversation_id@ && row.name@ == Seq::<
            char,
        >::empty() && !row.is_generating && row.message_count == 1 && row.first_message@
            == first_message_after(Seq::<char>::empty(), role@, content@, user_count as int),
{
    let mut row: LocalConversation = match existing {
        Some(c) => c,
        None => {
            proof {
                reveal_strlit("");
            }
            assert(""@ =~= Seq::<char>::empty());
            create_conversation(conversation_id, "", now)
        },
    };
    add_message(&mut row, role, content, now, user_count);
    row
}

} // verus!
