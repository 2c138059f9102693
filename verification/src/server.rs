//! The tools: what they accept, and what they show.
use vstd::prelude::*;
use crate::admission::{find_seat, law_first_seat, lemma_seated, names, seat_process, terms, Seat};
use crate::error::{invalid, relay_error_text, wire_error_text, CallError, RelayError, WireError};
use crate::ident::{hyphenated_text, SessionId};
use crate::json::{Json, Tree};
use crate::model::{copy_text, AgentIdentity, BoundChannel, ChannelSubscription, CreatedDirectMessage, CreatedPost, Post, SubscriptionState, Timeline, User};
use crate::relay::LocalRequest;
use crate::session::{indexed, indexed_title, Session, SessionIndexRow};
use crate::text::{characters, clipped, decimal, glue2, glue3, glue4, glue5, is_digit, is_lower, is_run, is_white, join, joined, law_clipped_text, law_joined_parts, law_replaced_text, law_words, lemma_joined_without, lemma_runs, lemma_runs_fit, longer_than, number, opt_str, opt_text, replace, replaced, runs, same, signed_decimal, signed_number, split_runs, texts, truncate_chars, Class};

verus! {

/// How many posts are read unless the caller says otherwise.
pub const DEFAULT_LIMIT: usize = 20;

/// How many posts are read at most.
pub const MAX_LIMIT: usize = 100;

/// The longest message, in characters.
pub const MAX_MESSAGE_CHARS: usize = 16_383;

/// How much of a body is shown in concise output, in characters.
pub const CONCISE_BODY_CHARS: usize = 1_000;

/// How much of a body is shown in full output, in characters.
pub const FULL_BODY_CHARS: usize = 12_000;

/// How much of a body a caller may ask for, in characters.
pub const MAX_BODY_CHARS: usize = 100_000;

/// How much is shown.
#[derive(Clone, Copy, Debug, PartialEq, Eq, Structural)]
pub enum DetailLevel {
    Concise,
    Full,
}

/// A fault in the arguments with the given message.
pub open spec fn invalid_params<T>(r: Result<T, CallError>, message: Seq<char>) -> bool {
    r is Err && r->Err_0 is InvalidParams && r->Err_0->InvalidParams_0@ == message
}

/// How many posts are read unless the caller says otherwise.
pub fn default_limit() -> (r: usize)
    ensures
        r == DEFAULT_LIMIT,
{
    DEFAULT_LIMIT
}

/// Whether a number of posts may be read at once.
pub fn validate_limit(limit: usize) -> (r: Result<(), CallError>)
    ensures
        if 1 <= limit <= MAX_LIMIT {
            r is Ok
        } else {
            invalid_params(r, "limit must be between 1 and 100"@)
        },
{
    if 1 <= limit && limit <= MAX_LIMIT {
        Ok(())
    } else {
        Err(invalid("limit must be between 1 and 100".to_owned()))
    }
}

/// How much of each body is shown.
pub open spec fn body_limit(body_chars: Option<usize>, detail: DetailLevel) -> usize {
    match body_chars {
        Some(chars) => chars,
        None => match detail {
            DetailLevel::Concise => CONCISE_BODY_CHARS,
            DetailLevel::Full => FULL_BODY_CHARS,
        },
    }
}

/// How much of each body is shown, where that is within bounds.
pub fn validate_body_chars(body_chars: Option<usize>, detail: DetailLevel) -> (r: Result<
    usize,
    CallError,
>)
    ensures
        ({
            let chars = body_limit(body_chars, detail);
            if 1 <= chars <= MAX_BODY_CHARS {
                r == Ok::<usize, CallError>(chars)
            } else {
                invalid_params(r, "body_chars must be between 1 and 100000"@)
            }
        }),
{
    let chars: usize = match body_chars {
        Some(chars) => chars,
        None => match detail {
            DetailLevel::Concise => CONCISE_BODY_CHARS,
            DetailLevel::Full => FULL_BODY_CHARS,
        },
    };
    if 1 <= chars && chars <= MAX_BODY_CHARS {
        Ok(chars)
    } else {
        Err(invalid("body_chars must be between 1 and 100000".to_owned()))
    }
}

/// An identifier as Mattermost makes them: 26 lower-case letters and digits.
pub open spec fn is_id(value: Seq<char>) -> bool {
    value.len() == 26 && forall|i: int|
        0 <= i < value.len() ==> is_lower(#[trigger] value[i]) || is_digit(value[i])
}

/// Whether a value is an identifier.
pub fn validate_id(value: &str, name: &str) -> (r: Result<(), CallError>)
    ensures
        if is_id(value@) {
            r is Ok
        } else {
            invalid_params(r, name@ + " must be a 26-character Mattermost ID"@)
        },
{
    let chars = characters(value);
    let mut fine = chars.len() == 26;
    let mut i: usize = 0;
    while i < chars.len()
        invariant
            i <= chars@.len(),
            chars@ == value@,
            fine <==> chars@.len() == 26 && forall|j: int|
                0 <= j < i ==> is_lower(#[trigger] chars@[j]) || is_digit(chars@[j]),
        decreases chars@.len() - i,
    {
        let c = chars[i];
        if !(('a' <= c && c <= 'z') || ('0' <= c && c <= '9')) {
            assert(!(is_lower(chars@[i as int]) || is_digit(chars@[i as int])));
            fine = false;
        }
        i += 1;
    }
    if fine {
        Ok(())
    } else {
        Err(invalid(glue2(name, " must be a 26-character Mattermost ID")))
    }
}

/// Whether a value that may be absent is an identifier.
pub fn validate_optional_id(value: Option<&str>, name: &str) -> (r: Result<(), CallError>)
    ensures
        match value {
            Some(value) => if is_id(value@) {
                r is Ok
            } else {
                invalid_params(r, name@ + " must be a 26-character Mattermost ID"@)
            },
            None => r is Ok,
        },
{
    match value {
        Some(value) => validate_id(value, name),
        None => Ok(()),
    }
}

/// Whether a message may be posted: why not, if not.
pub open spec fn message_fault(message: Seq<char>, reply_to: Option<Seq<char>>) -> Option<Seq<char>> {
    if message.len() == 0 {
        Some("message must be present"@)
    } else if message.len() > MAX_MESSAGE_CHARS {
        Some("message exceeds 16383 characters"@)
    } else {
        match reply_to {
            Some(id) => if is_id(id) {
                None
            } else {
                Some("reply_to"@ + " must be a 26-character Mattermost ID"@)
            },
            None => None,
        }
    }
}

/// Whether a message may be posted.
pub fn validate_message(message: &str, reply_to: Option<&str>) -> (r: Result<(), CallError>)
    ensures
        match message_fault(message@, opt_str(reply_to)) {
            Some(fault) => invalid_params(r, fault),
            None => r is Ok,
        },
{
    if message.is_empty() {
        return Err(invalid("message must be present".to_owned()));
    }
    if longer_than(message, MAX_MESSAGE_CHARS) {
        return Err(invalid("message exceeds 16383 characters".to_owned()));
    }
    validate_optional_id(reply_to, "reply_to")
}

/// Whether history may be read, and how much of each body is shown then: the bounds are looked at
/// first, then the identifiers.
pub open spec fn reads_within(
    limit: usize,
    thread: Option<Seq<char>>,
    before: Option<Seq<char>>,
    body_chars: Option<usize>,
    detail: DetailLevel,
    r: Result<usize, CallError>,
) -> bool {
    let chars = body_limit(body_chars, detail);
    if !(1 <= limit <= MAX_LIMIT) {
        invalid_params(r, "limit must be between 1 and 100"@)
    } else if thread is Some && !is_id(thread->Some_0) {
        invalid_params(r, "thread"@ + " must be a 26-character Mattermost ID"@)
    } else if before is Some && !is_id(before->Some_0) {
        invalid_params(r, "before"@ + " must be a 26-character Mattermost ID"@)
    } else if !(1 <= chars <= MAX_BODY_CHARS) {
        invalid_params(r, "body_chars must be between 1 and 100000"@)
    } else {
        r == Ok::<usize, CallError>(chars)
    }
}

/// Whether history may be read: the bounds, then the identifiers.
pub fn validate_read(
    limit: usize,
    thread: Option<&str>,
    before: Option<&str>,
    body_chars: Option<usize>,
    detail: DetailLevel,
) -> (r: Result<usize, CallError>)
    ensures
        reads_within(
            limit,
            opt_str(thread),
            opt_str(before),
            body_chars,
            detail,
            r,
        ),
{
    match validate_limit(limit) {
        Ok(()) => {},
        Err(error) => return Err(error),
    }
    match validate_optional_id(thread, "thread") {
        Ok(()) => {},
        Err(error) => return Err(error),
    }
    match validate_optional_id(before, "before") {
        Ok(()) => {},
        Err(error) => return Err(error),
    }
    validate_body_chars(body_chars, detail)
}

/// The beginning of a text, and whether it is not the whole.
pub fn truncate(value: &str, limit: usize) -> (r: (String, bool))
    ensures
        r.0@ == clipped(value@, limit as nat),
        r.1 == (value@.len() > limit),
{
    let output = truncate_chars(value, limit);
    (output, characters(value).len() > limit)
}

/// A text on one line: its words, with single spaces between them.
pub open spec fn collapsed(value: Seq<char>) -> Seq<char> {
    joined(runs(value, Class::Visible), " "@)
}

/// A text on one line.
pub fn collapse(value: &str) -> (r: String)
    ensures
        r@ == collapsed(value@),
{
    join(&split_runs(value, Class::Visible), " ")
}

/// What `time` writes for a moment, given in nanoseconds since 1970, by RFC 3339: nothing where
/// the moment is out of its range.
pub uninterp spec fn rfc3339(nanoseconds: int) -> Option<Seq<char>>;

/// `time::OffsetDateTime::from_unix_timestamp_nanos`, formatted by
/// `time::format_description::well_known::Rfc3339`. The text is a function of the moment; nothing
/// is said of its form.
#[verifier::external_body]
fn format_time(nanoseconds: i128) -> (r: Option<String>)
    ensures
        opt_text(r) == rfc3339(nanoseconds as int),
{
    let time = time::OffsetDateTime::from_unix_timestamp_nanos(nanoseconds).ok()?;
    time.format(&time::format_description::well_known::Rfc3339).ok()
}

/// How a moment is shown: as it was written out, or else as the bare number of milliseconds.
pub open spec fn shown_time(written: Option<Seq<char>>, milliseconds: int) -> Seq<char> {
    match written {
        Some(text) => text,
        None => signed_decimal(milliseconds),
    }
}

/// How a moment is shown, given how it was written out.
pub fn show_time(written: Option<String>, milliseconds: i64) -> (r: String)
    ensures
        r@ == shown_time(opt_text(written), milliseconds as int),
{
    match written {
        Some(text) => text,
        None => signed_number(milliseconds),
    }
}

/// How a moment is shown.
pub open spec fn time_text(milliseconds: int) -> Seq<char> {
    shown_time(rfc3339(milliseconds * 1_000_000), milliseconds)
}

/// How a moment is shown.
pub fn timestamp(milliseconds: i64) -> (r: String)
    ensures
        r@ == time_text(milliseconds as int),
{
    let nanoseconds: i128 = milliseconds as i128 * 1_000_000;
    show_time(format_time(nanoseconds), milliseconds)
}

/// A channel as it is named to callers.
pub open spec fn label_text(channel: BoundChannel) -> Seq<char> {
    channel.team.name@ + ":"@ + channel.channel.display_name@
}

/// A channel as it is named to callers.
pub fn channel_label(channel: &BoundChannel) -> (r: String)
    ensures
        r@ == label_text(*channel),
{
    glue3(channel.team.name.as_str(), ":", channel.channel.display_name.as_str())
}

#[derive(Debug, PartialEq, Eq)]
pub struct ChannelOutput {
    pub id: String,
    pub team: String,
    pub team_display: String,
    pub name: String,
    pub display_name: String,
    pub message_count: u64,
}

#[derive(Debug, PartialEq, Eq)]
pub struct ChannelsOutput {
    pub channels: Vec<ChannelOutput>,
}

#[derive(Debug, PartialEq, Eq)]
pub struct SessionOutput {
    pub id: SessionId,
    pub name: Option<String>,
    pub cwd: Option<String>,
    /// The process of a live session; a dormant one has none.
    pub pid: Option<u32>,
}

#[derive(Debug, PartialEq, Eq)]
pub struct SessionsOutput {
    pub sessions: Vec<SessionOutput>,
}

#[derive(Debug, PartialEq, Eq)]
pub struct MessageOutput {
    pub id: String,
    pub created_at: String,
    pub updated_at: Option<String>,
    pub sender: String,
    pub reply_to: Option<String>,
    pub body: String,
    pub body_truncated: bool,
}

#[derive(Debug, PartialEq, Eq)]
pub struct ReadOutput {
    pub channel: ChannelOutput,
    pub messages: Vec<MessageOutput>,
}

#[derive(Debug, PartialEq, Eq)]
pub struct PostOutput {
    pub channel: String,
    pub id: String,
    pub sender: String,
    pub reply_to: Option<String>,
}

#[derive(Debug, PartialEq, Eq)]
pub struct DirectMessageOutput {
    pub id: String,
    pub sender: String,
    pub recipient: String,
    pub reply_to: Option<String>,
    pub delivery: String,
}

#[derive(Debug, PartialEq, Eq)]
pub struct SubscriptionOutput {
    pub channel: String,
    pub subscribed: bool,
}

#[derive(Debug, PartialEq, Eq)]
pub struct IdentityOutput {
    pub session: SessionId,
    pub name: String,
    pub biography: Option<String>,
}

/// A channel as it is shown.
pub open spec fn shown_channel(channel: BoundChannel) -> ChannelOutput {
    ChannelOutput {
        id: channel.channel.id,
        team: channel.team.name,
        team_display: channel.team.display_name,
        name: channel.channel.name,
        display_name: channel.channel.display_name,
        message_count: channel.channel.total_msg_count,
    }
}

impl ChannelOutput {
    pub fn of(channel: &BoundChannel) -> (r: ChannelOutput)
        ensures
            r == shown_channel(*channel),
    {
        ChannelOutput {
            id: channel.channel.id.clone(),
            team: channel.team.name.clone(),
            team_display: channel.team.display_name.clone(),
            name: channel.channel.name.clone(),
            display_name: channel.channel.display_name.clone(),
            message_count: channel.channel.total_msg_count,
        }
    }
}

impl ChannelsOutput {
    pub fn of(channels: &Vec<BoundChannel>) -> (r: ChannelsOutput)
        ensures
            r.channels@ == channels@.map_values(|channel: BoundChannel| shown_channel(channel)),
    {
        let mut out: Vec<ChannelOutput> = Vec::new();
        let mut i: usize = 0;
        while i < channels.len()
            invariant
                i <= channels@.len(),
                out@ == channels@.take(i as int).map_values(
                    |channel: BoundChannel| shown_channel(channel),
                ),
            decreases channels@.len() - i,
        {
            out.push(ChannelOutput::of(&channels[i]));
            i += 1;
            assert(out@ =~= channels@.take(i as int).map_values(
                |channel: BoundChannel| shown_channel(channel),
            ));
        }
        assert(channels@.take(i as int) == channels@);
        ChannelsOutput { channels: out }
    }

    pub fn porcelain(&self) -> (r: String)
        ensures
            r@ == joined(channel_lines(self.channels@), "\n"@),
    {
        let mut lines: Vec<String> = Vec::new();
        lines.push("channel | id | messages".to_owned());
        let mut i: usize = 0;
        assert(texts(lines@) =~= channel_lines(self.channels@.take(0)));
        while i < self.channels.len()
            invariant
                i <= self.channels@.len(),
                texts(lines@) == channel_lines(self.channels@.take(i as int)),
            decreases self.channels@.len() - i,
        {
            let channel = &self.channels[i];
            assert(self.channels@.take(i + 1).drop_last() == self.channels@.take(i as int));
            let label = glue3(channel.team.as_str(), ":", channel.display_name.as_str());
            let count = number(channel.message_count);
            let line = glue5(label.as_str(), " | ", channel.id.as_str(), " | ", count.as_str());
            let ghost before = lines@;
            lines.push(line);
            i += 1;
            assert(texts(lines@) =~= texts(before).push(line@));
        }
        assert(self.channels@.take(i as int) == self.channels@);
        join(&lines, "\n")
    }
}

/// The line of a channel.
pub open spec fn channel_line(channel: ChannelOutput) -> Seq<char> {
    (channel.team@ + ":"@ + channel.display_name@) + " | "@ + channel.id@ + " | "@ + decimal(
        channel.message_count as nat,
    )
}

/// A heading, and the line of each channel.
pub open spec fn channel_lines(channels: Seq<ChannelOutput>) -> Seq<Seq<char>>
    decreases channels.len(),
{
    if channels.len() == 0 {
        seq!["channel | id | messages"@]
    } else {
        channel_lines(channels.drop_last()).push(channel_line(channels.last()))
    }
}

/// The live sessions that are loaded.
pub open spec fn ready_seats(seats: Seq<Seat>, loaded: Seq<SessionId>) -> Seq<Seat>
    decreases seats.len(),
{
    if seats.len() == 0 {
        Seq::empty()
    } else if loaded.contains(seats.last().session) {
        ready_seats(seats.drop_last(), loaded).push(seats.last())
    } else {
        ready_seats(seats.drop_last(), loaded)
    }
}

/// The sessions with a biography that are not live.
pub open spec fn dormant_sessions(seats: Seq<Seat>, established: Seq<SessionId>) -> Seq<SessionId>
    decreases established.len(),
{
    if established.len() == 0 {
        Seq::empty()
    } else if seat_process(seats, established.last()) is None {
        dormant_sessions(seats, established.drop_last()).push(established.last())
    } else {
        dormant_sessions(seats, established.drop_last())
    }
}

/// A live session as it is shown.
pub open spec fn shows_seat(row: SessionOutput, seat: Seat, index: Seq<SessionIndexRow>) -> bool {
    &&& row.id == seat.session
    &&& opt_text(row.name) == indexed(index, seat.session)
    &&& row.cwd == seat.cwd
    &&& row.pid == Some(seat.process.pid)
}

/// A dormant session as it is shown.
pub open spec fn shows_dormant(row: SessionOutput, id: SessionId, index: Seq<SessionIndexRow>) -> bool {
    &&& row.id == id
    &&& opt_text(row.name) == indexed(index, id)
    &&& row.cwd is None
    &&& row.pid is None
}

/// The sessions that can be written to, as they are shown: those that are live and loaded, then those
/// that are dormant and have a biography.
pub open spec fn lists_sessions(
    seats: Seq<Seat>,
    loaded: Seq<SessionId>,
    established: Seq<SessionId>,
    index: Seq<SessionIndexRow>,
    rows: Seq<SessionOutput>,
) -> bool {
    let ready = ready_seats(seats, loaded);
    let dormant = dormant_sessions(seats, established);
    &&& rows.len() == ready.len() + dormant.len()
    &&& forall|i: int| 0 <= i < ready.len() ==> shows_seat(#[trigger] rows[i], ready[i], index)
    &&& forall|i: int|
        ready.len() <= i < rows.len() ==> shows_dormant(
            #[trigger] rows[i],
            dormant[i - ready.len()],
            index,
        )
}

impl SessionsOutput {
    /// The sessions that can be written to: those that are live and loaded, then those that are
    /// dormant and have a biography.
    pub fn of(
        seats: &Vec<Seat>,
        loaded: &Vec<SessionId>,
        established: &Vec<SessionId>,
        index: &Vec<SessionIndexRow>,
    ) -> (r: SessionsOutput)
        ensures
            lists_sessions(seats@, loaded@, established@, index@, r.sessions@),
    {
        let mut out: Vec<SessionOutput> = Vec::new();
        let mut i: usize = 0;
        while i < seats.len()
            invariant
                i <= seats@.len(),
                out@.len() == ready_seats(seats@.take(i as int), loaded@).len(),
                forall|j: int|
                    0 <= j < out@.len() ==> shows_seat(
                        #[trigger] out@[j],
                        ready_seats(seats@.take(i as int), loaded@)[j],
                        index@,
                    ),
            decreases seats@.len() - i,
        {
            assert(seats@.take(i + 1).drop_last() == seats@.take(i as int));
            let seat = &seats[i];
            if names(loaded, seat.session) {
                out.push(
                    SessionOutput {
                        id: seat.session,
                        name: indexed_title(index, seat.session),
                        cwd: copy_text(&seat.cwd),
                        pid: Some(seat.process.pid),
                    },
                );
            }
            i += 1;
        }
        assert(seats@.take(i as int) == seats@);
        let ghost ready = ready_seats(seats@, loaded@);
        let mut k: usize = 0;
        while k < established.len()
            invariant
                k <= established@.len(),
                ready == ready_seats(seats@, loaded@),
                out@.len() == ready.len() + dormant_sessions(
                    seats@,
                    established@.take(k as int),
                ).len(),
                forall|j: int|
                    0 <= j < ready.len() ==> shows_seat(#[trigger] out@[j], ready[j], index@),
                forall|j: int|
                    ready.len() <= j < out@.len() ==> shows_dormant(
                        #[trigger] out@[j],
                        dormant_sessions(seats@, established@.take(k as int))[j - ready.len()],
                        index@,
                    ),
            decreases established@.len() - k,
        {
            assert(established@.take(k + 1).drop_last() == established@.take(k as int));
            if find_seat(seats, established[k]).is_none() {
                out.push(
                    SessionOutput {
                        id: established[k],
                        name: indexed_title(index, established[k]),
                        cwd: None,
                        pid: None,
                    },
                );
            }
            k += 1;
        }
        assert(established@.take(k as int) == established@);
        SessionsOutput { sessions: out }
    }

    pub fn porcelain(&self) -> (r: String)
        ensures
            r@ == joined(session_lines(self.sessions@), "\n"@),
    {
        let mut lines: Vec<String> = Vec::new();
        lines.push("session | name | cwd".to_owned());
        let mut i: usize = 0;
        assert(texts(lines@) =~= session_lines(self.sessions@.take(0)));
        while i < self.sessions.len()
            invariant
                i <= self.sessions@.len(),
                texts(lines@) == session_lines(self.sessions@.take(i as int)),
            decreases self.sessions@.len() - i,
        {
            let session = &self.sessions[i];
            assert(self.sessions@.take(i + 1).drop_last() == self.sessions@.take(i as int));
            let id = session.id.text();
            let line = glue5(
                id.as_str(),
                " | ",
                or_dash(&session.name),
                " | ",
                or_dash(&session.cwd),
            );
            let ghost before = lines@;
            lines.push(line);
            i += 1;
            assert(texts(lines@) =~= texts(before).push(line@));
        }
        assert(self.sessions@.take(i as int) == self.sessions@);
        join(&lines, "\n")
    }
}

/// The sessions that are listed.
pub open spec fn listed_sessions(
    seats: Seq<Seat>,
    loaded: Seq<SessionId>,
    established: Seq<SessionId>,
) -> Seq<SessionId> {
    ready_seats(seats, loaded).map_values(|seat: Seat| seat.session) + dormant_sessions(
        seats,
        established,
    )
}

proof fn lemma_ready_sessions(seats: Seq<Seat>, loaded: Seq<SessionId>, session: SessionId)
    ensures
        ready_seats(seats, loaded).map_values(|seat: Seat| seat.session).contains(session) <==>
            seat_process(seats, session) is Some && loaded.contains(session),
    decreases seats.len(),
{
    lemma_seated(seats, session);
    let ready = ready_seats(seats, loaded).map_values(|seat: Seat| seat.session);
    if seats.len() > 0 {
        let before = seats.drop_last();
        lemma_ready_sessions(before, loaded, session);
        lemma_seated(before, session);
        let kept = ready_seats(before, loaded).map_values(|seat: Seat| seat.session);
        assert(forall|i: int| 0 <= i < before.len() ==> before[i] == seats[i]);
        assert(seats[seats.len() - 1] == seats.last());
        if loaded.contains(seats.last().session) {
            assert(ready =~= kept.push(seats.last().session));
            lemma_pushed(kept, seats.last().session, session);
        } else {
            assert(ready =~= kept);
        }
        assert(seat_process(seats, session) is Some <==> seat_process(before, session) is Some
            || seats.last().session == session) by {
            if seat_process(seats, session) is Some {
                let i = choose|i: int|
                    0 <= i < seats.len() && (#[trigger] seats[i]).session == session;
                if i < before.len() {
                    assert(before[i].session == session);
                }
            }
            if seat_process(before, session) is Some {
                let i = choose|i: int|
                    0 <= i < before.len() && (#[trigger] before[i]).session == session;
                assert(seats[i].session == session);
            }
        }
    } else {
        assert(ready =~= Seq::<SessionId>::empty());
    }
}

proof fn lemma_pushed(sessions: Seq<SessionId>, last: SessionId, session: SessionId)
    ensures
        sessions.push(last).contains(session) <==> sessions.contains(session) || last == session,
{
    if sessions.contains(session) {
        let i = choose|i: int| 0 <= i < sessions.len() && sessions[i] == session;
        assert(sessions.push(last)[i] == session);
    }
    if last == session {
        assert(sessions.push(last)[sessions.len() as int] == session);
    }
}

proof fn lemma_dormant_sessions(seats: Seq<Seat>, established: Seq<SessionId>, session: SessionId)
    ensures
        dormant_sessions(seats, established).contains(session) <==> established.contains(session)
            && seat_process(seats, session) is None,
    decreases established.len(),
{
    if established.len() > 0 {
        let before = established.drop_last();
        lemma_dormant_sessions(seats, before, session);
        assert(established =~= before.push(established.last()));
        lemma_pushed(before, established.last(), session);
        lemma_pushed(dormant_sessions(seats, before), established.last(), session);
    }
}

/// The sessions that are listed are exactly those that can be reached.
pub proof fn law_listed_sessions_are_actionable(
    seats: Seq<Seat>,
    loaded: Seq<SessionId>,
    established: Seq<SessionId>,
    session: SessionId,
)
    ensures
        listed_sessions(seats, loaded, established).contains(session) <==> terms(
            seat_process(seats, session),
            loaded.contains(session),
            established.contains(session),
        ) is Some,
{
    lemma_ready_sessions(seats, loaded, session);
    lemma_dormant_sessions(seats, established, session);
    let ready = ready_seats(seats, loaded).map_values(|seat: Seat| seat.session);
    let dormant = dormant_sessions(seats, established);
    let listed = ready + dormant;
    if ready.contains(session) {
        let i = choose|i: int| 0 <= i < ready.len() && ready[i] == session;
        assert(listed[i] == session);
    }
    if dormant.contains(session) {
        let i = choose|i: int| 0 <= i < dormant.len() && dormant[i] == session;
        assert(listed[ready.len() + i] == session);
    }
    if listed.contains(session) {
        let i = choose|i: int| 0 <= i < listed.len() && listed[i] == session;
        if i < ready.len() {
            assert(ready[i] == session);
        } else {
            assert(dormant[i - ready.len()] == session);
        }
    }
}

/// A text, or a dash where there is none.
pub open spec fn dashed(value: Option<Seq<char>>) -> Seq<char> {
    match value {
        Some(text) => text,
        None => "-"@,
    }
}

fn or_dash(value: &Option<String>) -> (r: &str)
    ensures
        r@ == dashed(opt_text(*value)),
{
    match value {
        Some(text) => text.as_str(),
        None => "-",
    }
}

/// The line of a session.
pub open spec fn session_line(session: SessionOutput) -> Seq<char> {
    hyphenated_text(session.id.value) + " | "@ + dashed(opt_text(session.name)) + " | "@ + dashed(
        opt_text(session.cwd),
    )
}

/// A heading, and the line of each session.
pub open spec fn session_lines(sessions: Seq<SessionOutput>) -> Seq<Seq<char>>
    decreases sessions.len(),
{
    if sessions.len() == 0 {
        seq!["session | name | cwd"@]
    } else {
        session_lines(sessions.drop_last()).push(session_line(sessions.last()))
    }
}

/// How a user is called: by name where the name is known, or else by identifier.
pub open spec fn sender_name(users: Seq<User>, id: Seq<char>) -> Seq<char>
    decreases users.len(),
{
    if users.len() == 0 {
        id
    } else if users.last().id@ == id {
        users.last().username@
    } else {
        sender_name(users.drop_last(), id)
    }
}

fn find_sender(users: &Vec<User>, id: &str) -> (r: String)
    ensures
        r@ == sender_name(users@, id@),
{
    let mut i: usize = users.len();
    assert(users@.take(i as int) == users@);
    while i > 0
        invariant
            i <= users@.len(),
            sender_name(users@.take(i as int), id@) == sender_name(users@, id@),
        decreases i,
    {
        let ghost before = users@.take(i as int);
        i -= 1;
        assert(before.drop_last() == users@.take(i as int));
        if same(users[i].id.as_str(), id) {
            return users[i].username.clone();
        }
    }
    id.to_owned()
}

/// The post that a post replies to.
pub open spec fn root_of(root_id: Seq<char>) -> Option<Seq<char>> {
    if root_id.len() == 0 {
        None
    } else {
        Some(root_id)
    }
}

fn root(root_id: &String) -> (r: Option<String>)
    ensures
        opt_text(r) == root_of(root_id@),
{
    if root_id.as_str().is_empty() {
        None
    } else {
        Some(root_id.clone())
    }
}

/// When a post was changed, where that is shown.
pub open spec fn change_of(post: Post, detail: DetailLevel) -> Option<Seq<char>> {
    if detail == DetailLevel::Full && post.update_at != post.create_at {
        Some(time_text(post.update_at as int))
    } else {
        None
    }
}

/// A post as it is shown.
pub open spec fn shows_post(
    message: MessageOutput,
    post: Post,
    users: Seq<User>,
    body_chars: nat,
    detail: DetailLevel,
) -> bool {
    &&& message.id == post.id
    &&& message.created_at@ == time_text(post.create_at as int)
    &&& opt_text(message.updated_at) == change_of(post, detail)
    &&& message.sender@ == sender_name(users, post.user_id@)
    &&& opt_text(message.reply_to) == root_of(post.root_id@)
    &&& message.body@ == clipped(post.message@, body_chars)
    &&& message.body_truncated == (post.message@.len() > body_chars)
}

/// A history as it is shown.
pub open spec fn shows_timeline(
    output: ReadOutput,
    timeline: Timeline,
    body_chars: nat,
    detail: DetailLevel,
) -> bool {
    &&& output.channel == shown_channel(timeline.channel)
    &&& output.messages@.len() == timeline.posts@.len()
    &&& forall|i: int|
        0 <= i < output.messages@.len() ==> shows_post(
            #[trigger] output.messages@[i],
            timeline.posts@[i],
            timeline.users@,
            body_chars,
            detail,
        )
}

impl ReadOutput {
    pub fn from_timeline(timeline: &Timeline, body_chars: usize, detail: DetailLevel) -> (r: ReadOutput)
        ensures
            shows_timeline(r, *timeline, body_chars as nat, detail),
    {
        let mut messages: Vec<MessageOutput> = Vec::new();
        let mut i: usize = 0;
        while i < timeline.posts.len()
            invariant
                i <= timeline.posts@.len(),
                messages@.len() == i,
                forall|j: int|
                    0 <= j < i ==> shows_post(
                        #[trigger] messages@[j],
                        timeline.posts@[j],
                        timeline.users@,
                        body_chars as nat,
                        detail,
                    ),
            decreases timeline.posts@.len() - i,
        {
            let post = &timeline.posts[i];
            let (body, body_truncated) = truncate(post.message.as_str(), body_chars);
            let updated_at = if detail == DetailLevel::Full && post.update_at != post.create_at {
                Some(timestamp(post.update_at))
            } else {
                None
            };
            messages.push(
                MessageOutput {
                    id: post.id.clone(),
                    created_at: timestamp(post.create_at),
                    updated_at,
                    sender: find_sender(&timeline.users, post.user_id.as_str()),
                    reply_to: root(&post.root_id),
                    body,
                    body_truncated,
                },
            );
            i += 1;
        }
        ReadOutput { channel: ChannelOutput::of(&timeline.channel), messages }
    }

    pub fn porcelain(&self, detail: DetailLevel) -> (r: String)
        ensures
            r@ == joined(read_lines(self.channel, self.messages@, detail), "\n"@),
    {
        let mut lines: Vec<String> = Vec::new();
        let count = number(self.messages.len() as u64);
        let label = glue3(self.channel.team.as_str(), ":", self.channel.display_name.as_str());
        lines.push(glue4(label.as_str(), " | ", count.as_str(), " message(s)"));
        let ghost heading = read_heading(self.channel, self.messages@.len());
        assert(texts(lines@) =~= seq![heading]);
        let mut i: usize = 0;
        assert(texts(lines@) =~= seq![heading] + message_lines(self.messages@.take(0), detail));
        while i < self.messages.len()
            invariant
                i <= self.messages@.len(),
                texts(lines@) == seq![heading] + message_lines(
                    self.messages@.take(i as int),
                    detail,
                ),
            decreases self.messages@.len() - i,
        {
            let message = &self.messages[i];
            assert(self.messages@.take(i + 1).drop_last() == self.messages@.take(i as int));
            let place = glue5(
                message.created_at.as_str(),
                " | ",
                message.id.as_str(),
                " | @",
                message.sender.as_str(),
            );
            let first = glue3(place.as_str(), " | reply=", or_dash(&message.reply_to));
            let body = match detail {
                DetailLevel::Concise => collapse(message.body.as_str()),
                DetailLevel::Full => replace(message.body.as_str(), '\n', "\n  "),
            };
            let mark = if message.body_truncated {
                " …[truncated]"
            } else {
                ""
            };
            let second = glue3("  ", body.as_str(), mark);
            let ghost before = lines@;
            lines.push(first);
            lines.push(second);
            i += 1;
            assert(texts(lines@) =~= texts(before).push(first@).push(second@));
            assert(texts(lines@) =~= seq![heading] + message_lines(
                self.messages@.take(i as int),
                detail,
            ));
        }
        assert(self.messages@.take(i as int) == self.messages@);
        join(&lines, "\n")
    }
}

/// The heading of a history.
pub open spec fn read_heading(channel: ChannelOutput, count: nat) -> Seq<char> {
    (channel.team@ + ":"@ + channel.display_name@) + " | "@ + decimal(count) + " message(s)"@
}

/// The line that says where a message stands.
pub open spec fn place_line(message: MessageOutput) -> Seq<char> {
    (message.created_at@ + " | "@ + message.id@ + " | @"@ + message.sender@) + " | reply="@ + dashed(
        opt_text(message.reply_to),
    )
}

/// The line, or the indented lines, of a message's body.
pub open spec fn body_line(message: MessageOutput, detail: DetailLevel) -> Seq<char> {
    let body = match detail {
        DetailLevel::Concise => collapsed(message.body@),
        DetailLevel::Full => replaced(message.body@, '\n', "\n  "@),
    };
    let mark = if message.body_truncated {
        " …[truncated]"@
    } else {
        ""@
    };
    "  "@ + body + mark
}

/// The lines of messages.
pub open spec fn message_lines(messages: Seq<MessageOutput>, detail: DetailLevel) -> Seq<Seq<char>>
    decreases messages.len(),
{
    if messages.len() == 0 {
        Seq::empty()
    } else {
        message_lines(messages.drop_last(), detail).push(place_line(messages.last())).push(
            body_line(messages.last(), detail),
        )
    }
}

/// The lines of a history.
pub open spec fn read_lines(
    channel: ChannelOutput,
    messages: Seq<MessageOutput>,
    detail: DetailLevel,
) -> Seq<Seq<char>> {
    seq![read_heading(channel, messages.len())] + message_lines(messages, detail)
}

/// However many posts a history holds, its porcelain has two lines for each and one heading.
pub proof fn law_histories_are_line_oriented(
    channel: ChannelOutput,
    messages: Seq<MessageOutput>,
    detail: DetailLevel,
)
    ensures
        read_lines(channel, messages, detail).len() == 1 + 2 * messages.len(),
    decreases messages.len(),
{
    if messages.len() > 0 {
        law_histories_are_line_oriented(channel, messages.drop_last(), detail);
    }
}

/// In concise output a message's body is a single line, and it is no longer than what is shown of
/// the body, the indentation and the mark of truncation together.
pub proof fn law_concise_bodies_are_bounded_lines(message: MessageOutput)
    ensures
        !body_line(message, DetailLevel::Concise).contains('\n'),
        body_line(message, DetailLevel::Concise).len() <= message.body@.len() + "  "@.len()
            + " …[truncated]"@.len(),
{
    let words = runs(message.body@, Class::Visible);
    let body = collapsed(message.body@);
    let mark = if message.body_truncated {
        " …[truncated]"@
    } else {
        ""@
    };
    let line = body_line(message, DetailLevel::Concise);
    reveal_strlit(" ");
    reveal_strlit("  ");
    reveal_strlit("");
    reveal_strlit(" …[truncated]");
    lemma_runs(message.body@, Class::Visible);
    assert forall|i: int| 0 <= i < words.len() implies !(#[trigger] words[i]).contains('\n') by {
        assert(is_run(words[i], Class::Visible));
    }
    lemma_joined_without(words, " "@, '\n');
    lemma_runs_fit(message.body@, Class::Visible, " "@);
    assert(line == "  "@ + body + mark);
    assert forall|i: int| 0 <= i < line.len() implies line[i] != '\n' by {
        if i < 2 {
            assert(line[i] == "  "@[i]);
        } else if i < 2 + body.len() {
            assert(line[i] == body[i - 2]);
            assert(body.contains(body[i - 2]));
        } else {
            assert(line[i] == mark[i - 2 - body.len()]);
        }
    }
}

/// A new post as it is shown.
pub open spec fn shows_created(output: PostOutput, created: CreatedPost) -> bool {
    &&& output.channel@ == label_text(created.channel)
    &&& output.id == created.post.id
    &&& output.sender == created.sender
    &&& opt_text(output.reply_to) == root_of(created.post.root_id@)
}

/// The line of a new post.
pub open spec fn created_line(output: PostOutput) -> Seq<char> {
    "posted "@ + output.id@ + " | "@ + output.channel@ + (" | @"@ + output.sender@)
}

impl PostOutput {
    pub fn of(created: &CreatedPost) -> (r: PostOutput)
        ensures
            shows_created(r, *created),
    {
        PostOutput {
            channel: channel_label(&created.channel),
            id: created.post.id.clone(),
            sender: created.sender.clone(),
            reply_to: root(&created.post.root_id),
        }
    }

    pub fn porcelain(&self) -> (r: String)
        ensures
            r@ == created_line(*self),
    {
        let sender = glue2(" | @", self.sender.as_str());
        glue5("posted ", self.id.as_str(), " | ", self.channel.as_str(), sender.as_str())
    }
}

/// A direct message as it is shown.
pub open spec fn shows_direct_message(
    output: DirectMessageOutput,
    created: CreatedDirectMessage,
    delivery: Seq<char>,
) -> bool {
    &&& output.id == created.post.id
    &&& output.sender == created.sender
    &&& output.recipient == created.recipient
    &&& opt_text(output.reply_to) == root_of(created.post.root_id@)
    &&& output.delivery@ == delivery
}

/// The line of a direct message.
pub open spec fn direct_line(output: DirectMessageOutput) -> Seq<char> {
    ("posted "@ + output.id@ + " | @"@ + output.sender@) + " -> @"@ + output.recipient@
        + " | delivery="@ + output.delivery@
}

impl DirectMessageOutput {
    /// A direct message to the operator.
    pub fn human(created: &CreatedDirectMessage) -> (r: DirectMessageOutput)
        ensures
            shows_direct_message(r, *created, "Mattermost only"@),
    {
        DirectMessageOutput {
            id: created.post.id.clone(),
            sender: created.sender.clone(),
            recipient: created.recipient.clone(),
            reply_to: root(&created.post.root_id),
            delivery: "Mattermost only".to_owned(),
        }
    }

    /// A direct message to another session.
    pub fn peer(created: &CreatedDirectMessage) -> (r: DirectMessageOutput)
        ensures
            shows_direct_message(r, *created, "volatile best effort"@),
    {
        DirectMessageOutput {
            id: created.post.id.clone(),
            sender: created.sender.clone(),
            recipient: created.recipient.clone(),
            reply_to: root(&created.post.root_id),
            delivery: "volatile best effort".to_owned(),
        }
    }

    pub fn porcelain(&self) -> (r: String)
        ensures
            r@ == direct_line(*self),
    {
        let start = glue4("posted ", self.id.as_str(), " | @", self.sender.as_str());
        glue5(
            start.as_str(),
            " -> @",
            self.recipient.as_str(),
            " | delivery=",
            self.delivery.as_str(),
        )
    }
}

/// A subscription as it is shown.
pub open spec fn shows_subscription(
    output: SubscriptionOutput,
    subscription: ChannelSubscription,
) -> bool {
    &&& output.channel@ == label_text(subscription.channel)
    &&& output.subscribed == (subscription.state == SubscriptionState::Subscribed)
}

/// The line of a subscription.
pub open spec fn subscription_line(output: SubscriptionOutput) -> Seq<char> {
    if output.subscribed {
        "subscribed "@ + output.channel@
    } else {
        "unsubscribed "@ + output.channel@
    }
}

impl SubscriptionOutput {
    pub fn of(subscription: &ChannelSubscription) -> (r: SubscriptionOutput)
        ensures
            shows_subscription(r, *subscription),
    {
        SubscriptionOutput {
            channel: channel_label(&subscription.channel),
            subscribed: subscription.state == SubscriptionState::Subscribed,
        }
    }

    pub fn porcelain(&self) -> (r: String)
        ensures
            r@ == subscription_line(*self),
    {
        if self.subscribed {
            glue2("subscribed ", self.channel.as_str())
        } else {
            glue2("unsubscribed ", self.channel.as_str())
        }
    }
}

/// An identity as it is shown.
pub open spec fn shows_identity(output: IdentityOutput, identity: AgentIdentity) -> bool {
    &&& output.session == identity.session
    &&& output.name == identity.name
    &&& output.biography == identity.biography
}

/// The lines of an identity.
pub open spec fn identity_lines(output: IdentityOutput) -> Seq<char> {
    hyphenated_text(output.session.value) + " | "@ + output.name@ + "\n"@ + match opt_text(
        output.biography,
    ) {
        Some(biography) => biography,
        None => "anonymous"@,
    }
}

impl IdentityOutput {
    pub fn of(identity: &AgentIdentity) -> (r: IdentityOutput)
        ensures
            shows_identity(r, *identity),
    {
        IdentityOutput {
            session: identity.session,
            name: identity.name.clone(),
            biography: copy_text(&identity.biography),
        }
    }

    /// A line that says who it is, and one with the biography. A session without one is anonymous.
    pub fn porcelain(&self) -> (r: String)
        ensures
            r@ == identity_lines(*self),
    {
        let id = self.session.text();
        let biography = match &self.biography {
            Some(biography) => biography.as_str(),
            None => "anonymous",
        };
        glue5(id.as_str(), " | ", self.name.as_str(), "\n", biography)
    }
}

/// Whether a tool may be called again when the outcome of a call is unknown.
pub open spec fn recovery_text(tool: Seq<char>) -> Seq<char> {
    if tool == "chat.post"@ || tool == "chat.dm"@ {
        "at_most_once"@
    } else {
        "replay_safe"@
    }
}

/// Whether a tool may be called again when the outcome of a call is unknown.
pub fn recovery(tool: &str) -> (r: &'static str)
    ensures
        r@ == recovery_text(tool@),
{
    if same(tool, "chat.post") || same(tool, "chat.dm") {
        "at_most_once"
    } else {
        "replay_safe"
    }
}

/// What a tool call does to the world, as it is told to whoever runs the server: whether it may be
/// made again, and that no tool keeps a state.
pub fn effect(tool: &str) -> (r: Json)
    ensures
        r.settled(),
        r.tree() == Tree::Object(
            map![
                "recovery"@ => Tree::Object(
                    map![
                        "kind"@ => Tree::Text(recovery_text(tool@)),
                    ],
                ),
                "state"@ => Tree::Object(map!["kind"@ => Tree::Text("stateless"@)]),
            ],
        ),
{
    Json::object().with("recovery", Json::object().with("kind", Json::string(recovery(tool)))).with(
        "state",
        Json::object().with("kind", Json::string("stateless")),
    )
}

/// What a tool call comes to.
#[derive(Debug, PartialEq, Eq)]
pub enum Outcome {
    /// The call is at fault.
    Fault(CallError),
    /// The tool failed, in these words.
    Failure(String),
    Success(DirectMessageOutput),
}

/// A direct message, by what is to be done next.
#[derive(Debug, PartialEq, Eq)]
pub enum Dm {
    /// Post it to the operator and hand the result to `posted`.
    Operator { session: Session, message: String, reply_to: Option<String> },
    /// Reserve the target and hand the result to `reserved`.
    Reserve { session: Session, target: SessionId, message: String, reply_to: Option<String> },
    /// Post it to the target and hand the result to `posted`.
    Post { session: Session, target: SessionId, message: String, reply_to: Option<String> },
    /// Submit it on the reservation and hand the result to `submitted`.
    Submit { request: LocalRequest, output: DirectMessageOutput },
    Done(Outcome),
}

/// A call that failed in the given words.
pub open spec fn failed(dm: Dm, message: Seq<char>) -> bool {
    dm is Done && dm->Done_0 is Failure && dm->Done_0->Failure_0@ == message
}

/// A call that is at fault.
pub open spec fn faulty(dm: Dm, message: Seq<char>) -> bool {
    dm is Done && dm->Done_0 is Fault && dm->Done_0->Fault_0 is InvalidParams
        && dm->Done_0->Fault_0->InvalidParams_0@ == message
}

/// What a posted message makes of a direct message to another session.
pub open spec fn submits(
    dm: Dm,
    session: Session,
    target: SessionId,
    message: String,
    created: CreatedDirectMessage,
) -> bool {
    &&& dm is Submit
    &&& dm->request == (LocalRequest::Enqueue {
        target,
        post_id: created.post.id,
        sender_session: session.id,
        sender: created.sender,
        body: message,
    })
    &&& shows_direct_message(dm->output, created, "volatile best effort"@)
}

/// How a direct message begins: with a look at the message, at the caller and at whom it is for.
pub open spec fn dm_begins(
    message: Seq<char>,
    reply_to: Option<Seq<char>>,
    target: Option<SessionId>,
    session: Result<Session, WireError>,
    next: Dm,
) -> bool {
    match message_fault(message, reply_to) {
        Some(fault) => faulty(next, fault),
        None => match session {
            Err(error) => failed(next, wire_error_text(error)),
            Ok(session) => match target {
                None => {
                    &&& next is Operator
                    &&& next->Operator_session == session
                    &&& next->Operator_message@ == message
                    &&& opt_text(next->Operator_reply_to) == reply_to
                },
                Some(target) => if session.id == target {
                    faulty(next, "session_id cannot name the calling session"@)
                } else {
                    &&& next is Reserve
                    &&& next->Reserve_session == session
                    &&& next->Reserve_target == target
                    &&& next->Reserve_message@ == message
                    &&& opt_text(next->Reserve_reply_to) == reply_to
                },
            },
        },
    }
}

/// What a reservation makes of a direct message.
pub open spec fn dm_reserved(dm: Dm, result: Result<(), RelayError>, next: Dm) -> bool {
    match dm {
        Dm::Reserve { session, target, message, reply_to } => match result {
            Ok(_) => next == (Dm::Post { session, target, message, reply_to }),
            Err(error) => failed(
                next,
                "direct message not posted: "@ + relay_error_text(error),
            ),
        },
        _ => next == dm,
    }
}

/// What posting makes of a direct message.
pub open spec fn dm_posted(dm: Dm, result: Result<CreatedDirectMessage, WireError>, next: Dm) -> bool {
    match (dm, result) {
        (Dm::Operator { .. }, Ok(created)) => next is Done && next->Done_0 is Success
            && shows_direct_message(next->Done_0->Success_0, created, "Mattermost only"@),
        (Dm::Post { session, target, message, .. }, Ok(created)) => submits(
            next,
            session,
            target,
            message,
            created,
        ),
        (Dm::Operator { .. }, Err(error)) => failed(next, wire_error_text(error)),
        (Dm::Post { .. }, Err(error)) => failed(next, wire_error_text(error)),
        _ => next == dm,
    }
}

/// What submission makes of a direct message.
pub open spec fn dm_submitted(dm: Dm, result: Result<(), RelayError>, next: Dm) -> bool {
    match dm {
        Dm::Submit { output, .. } => match result {
            Ok(_) => next == Dm::Done(Outcome::Success(output)),
            Err(error) => failed(
                next,
                "posted "@ + output.id@ + " but volatile delivery was not queued: "@
                    + relay_error_text(error) + "; do not retry blindly"@,
            ),
        },
        _ => next == dm,
    }
}

impl Dm {
    /// A direct message that is not under way. `session` is that of the caller, or why there is
    /// none.
    pub fn begin(
        message: &str,
        reply_to: Option<&str>,
        target: Option<SessionId>,
        session: Result<Session, WireError>,
    ) -> (r: Dm)
        ensures
            dm_begins(message@, opt_str(reply_to), target, session, r),
    {
        match validate_message(message, reply_to) {
            Ok(()) => {},
            Err(error) => return Dm::Done(Outcome::Fault(error)),
        }
        let session = match session {
            Ok(session) => session,
            Err(error) => return Dm::Done(Outcome::Failure(error.text())),
        };
        let message = message.to_owned();
        let reply_to = match reply_to {
            Some(id) => Some(id.to_owned()),
            None => None,
        };
        match target {
            None => Dm::Operator { session, message, reply_to },
            Some(target) => if session.id == target {
                Dm::Done(
                    Outcome::Fault(
                        invalid("session_id cannot name the calling session".to_owned()),
                    ),
                )
            } else {
                Dm::Reserve { session, target, message, reply_to }
            },
        }
    }

    /// What a reservation makes of the message. One that awaits none stays as it is.
    pub fn reserved(self, result: Result<(), RelayError>) -> (r: Dm)
        ensures
            dm_reserved(self, result, r),
    {
        match self {
            Dm::Reserve { session, target, message, reply_to } => match result {
                Ok(()) => Dm::Post { session, target, message, reply_to },
                Err(error) => Dm::Done(
                    Outcome::Failure(
                        glue2("direct message not posted: ", error.text().as_str()),
                    ),
                ),
            },
            other => other,
        }
    }

    /// What posting makes of the message. One that awaits none stays as it is.
    pub fn posted(self, result: Result<CreatedDirectMessage, WireError>) -> (r: Dm)
        ensures
            dm_posted(self, result, r),
    {
        match self {
            Dm::Operator { .. } => match result {
                Ok(created) => Dm::Done(Outcome::Success(DirectMessageOutput::human(&created))),
                Err(error) => Dm::Done(Outcome::Failure(error.text())),
            },
            Dm::Post { session, target, message, reply_to: _ } => match result {
                Ok(created) => {
                    let output = DirectMessageOutput::peer(&created);
                    Dm::Submit {
                        request: LocalRequest::Enqueue {
                            target,
                            post_id: created.post.id,
                            sender_session: session.id,
                            sender: created.sender,
                            body: message,
                        },
                        output,
                    }
                },
                Err(error) => Dm::Done(Outcome::Failure(error.text())),
            },
            other => other,
        }
    }

    /// What submission makes of the message. One that awaits none stays as it is.
    pub fn submitted(self, result: Result<(), RelayError>) -> (r: Dm)
        ensures
            dm_submitted(self, result, r),
    {
        match self {
            Dm::Submit { request: _, output } => match result {
                Ok(()) => Dm::Done(Outcome::Success(output)),
                Err(error) => Dm::Done(
                    Outcome::Failure(
                        glue5(
                            "posted ",
                            output.id.as_str(),
                            " but volatile delivery was not queued: ",
                            error.text().as_str(),
                            "; do not retry blindly",
                        ),
                    ),
                ),
            },
            other => other,
        }
    }
}

/// A history may be read exactly where between one and a hundred posts are wanted, every identifier
/// has 26 lower-case letters and digits, and between one and a hundred thousand characters of each
/// body; without a wish, a thousand are shown, or twelve thousand in full output.
pub proof fn law_bounds_of_reading(
    limit: usize,
    thread: Option<Seq<char>>,
    before: Option<Seq<char>>,
    body_chars: Option<usize>,
    detail: DetailLevel,
    r: Result<usize, CallError>,
)
    requires
        reads_within(limit, thread, before, body_chars, detail, r),
    ensures
        r is Ok <==> 1 <= limit <= 100 && (thread matches Some(id) ==> is_id(id)) && (
        before matches Some(id) ==> is_id(id)) && (body_chars matches Some(chars) ==> 1 <= chars
            <= 100_000),
        r is Ok && body_chars is Some ==> r->Ok_0 == body_chars->Some_0,
        r is Ok && body_chars is None && detail == DetailLevel::Concise ==> r->Ok_0 == 1_000,
        r is Ok && body_chars is None && detail == DetailLevel::Full ==> r->Ok_0 == 12_000,
{
}

/// What is an identifier, and what may be posted: between one and 16383 characters, in answer to an
/// identifier or to nothing.
pub proof fn law_what_may_be_posted(message: Seq<char>, reply_to: Option<Seq<char>>, id: Seq<char>)
    ensures
        is_id(id) <==> id.len() == 26 && forall|i: int|
            0 <= i < id.len() ==> 'a' <= #[trigger] id[i] <= 'z' || '0' <= id[i] <= '9',
        message_fault(message, reply_to) is None <==> 1 <= message.len() <= 16_383 && (
        reply_to matches Some(root) ==> is_id(root)),
        message.len() == 0 ==> message_fault(message, reply_to) == Some("message must be present"@),
        message.len() > 16_383 ==> message_fault(message, reply_to) == Some(
            "message exceeds 16383 characters"@,
        ),
{
    if is_id(id) {
        assert forall|i: int| 0 <= i < id.len() implies 'a' <= #[trigger] id[i] <= 'z' || '0'
            <= id[i] <= '9' by {
            assert(is_lower(id[i]) || is_digit(id[i]));
        }
    }
}

/// On one line, a word is itself, and what stands on either side of white space is put on one line
/// for itself, with a single space between where both sides hold words.
pub proof fn law_one_line(left: Seq<char>, between: char, right: Seq<char>)
    ensures
        left.len() > 0 && (forall|i: int| 0 <= i < left.len() ==> !is_white(#[trigger] left[i]))
            ==> collapsed(left) == left,
        is_white(between) && runs(left, Class::Visible).len() > 0 && runs(right, Class::Visible).len()
            > 0 ==> collapsed(left.push(between) + right) == collapsed(left) + " "@ + collapsed(
            right,
        ),
        is_white(between) && runs(left, Class::Visible).len() == 0 ==> collapsed(
            left.push(between) + right,
        ) == collapsed(right),
        is_white(between) && runs(right, Class::Visible).len() == 0 ==> collapsed(
            left.push(between) + right,
        ) == collapsed(left),
        collapsed(Seq::empty()).len() == 0,
{
    if left.len() > 0 && (forall|i: int| 0 <= i < left.len() ==> !is_white(#[trigger] left[i])) {
        assert(forall|i: int|
            0 <= i < left.len() ==> crate::text::belongs(Class::Visible, #[trigger] left[i]));
    }
    law_words(left, between, right, Class::Visible);
    let first = runs(left, Class::Visible);
    let second = runs(right, Class::Visible);
    law_joined_parts(first, second, " "@);
    law_joined_parts(seq![left], Seq::empty(), " "@);
    if first.len() == 0 {
        assert(first + second =~= second);
    }
    if second.len() == 0 {
        assert(first + second =~= first);
    }
    assert(runs(Seq::empty(), Class::Visible) =~= Seq::<Seq<char>>::empty());
}

/// A moment is shown as it was written out, in nanoseconds; where it could not be, the bare number of
/// milliseconds is shown.
pub proof fn law_moments(milliseconds: int, written: Seq<char>)
    ensures
        rfc3339(milliseconds * 1_000_000) == Some(written) ==> time_text(milliseconds) == written,
        rfc3339(milliseconds * 1_000_000) is None ==> time_text(milliseconds) == signed_decimal(
            milliseconds,
        ),
{
}

/// A channel is shown with its own fields, the number of its messages and the names of its team.
pub proof fn law_shown_channels(channel: BoundChannel)
    ensures
        shown_channel(channel).id@ == channel.channel.id@,
        shown_channel(channel).team@ == channel.team.name@,
        shown_channel(channel).team_display@ == channel.team.display_name@,
        shown_channel(channel).name@ == channel.channel.name@,
        shown_channel(channel).display_name@ == channel.channel.display_name@,
        shown_channel(channel).message_count == channel.channel.total_msg_count,
{
}

/// Behind the heading stands one line for each channel, in order: its label, its identifier and how
/// many messages it holds.
pub proof fn law_channel_lines(channels: Seq<ChannelOutput>)
    ensures
        channel_lines(channels).len() == channels.len() + 1,
        channel_lines(channels)[0] == "channel | id | messages"@,
        forall|i: int|
            0 <= i < channels.len() ==> channel_lines(channels)[i + 1] == (#[trigger] channels[i]).team@
                + ":"@ + channels[i].display_name@ + " | "@ + channels[i].id@ + " | "@ + decimal(
                channels[i].message_count as nat,
            ),
    decreases channels.len(),
{
    if channels.len() > 0 {
        let before = channels.drop_last();
        law_channel_lines(before);
        assert forall|i: int| 0 <= i < channels.len() implies channel_lines(channels)[i + 1] == (
        #[trigger] channels[i]).team@ + ":"@ + channels[i].display_name@ + " | "@ + channels[i].id@
            + " | "@ + decimal(channels[i].message_count as nat) by {
            if i < before.len() {
                assert(before[i] == channels[i]);
                assert(channel_lines(channels)[i + 1] == channel_lines(before)[i + 1]);
            }
        }
    }
}

/// Behind the heading stands one line for each session, in order: its identifier, its name and where
/// it works, with a dash for what is not known.
pub proof fn law_session_lines(sessions: Seq<SessionOutput>)
    ensures
        session_lines(sessions).len() == sessions.len() + 1,
        session_lines(sessions)[0] == "session | name | cwd"@,
        forall|i: int|
            0 <= i < sessions.len() ==> session_lines(sessions)[i + 1] == hyphenated_text(
                (#[trigger] sessions[i]).id.value,
            ) + " | "@ + (match sessions[i].name {
                Some(name) => name@,
                None => "-"@,
            }) + " | "@ + (match sessions[i].cwd {
                Some(cwd) => cwd@,
                None => "-"@,
            }),
    decreases sessions.len(),
{
    if sessions.len() > 0 {
        let before = sessions.drop_last();
        law_session_lines(before);
        assert forall|i: int| 0 <= i < sessions.len() implies session_lines(sessions)[i + 1]
            == hyphenated_text((#[trigger] sessions[i]).id.value) + " | "@ + (
        match sessions[i].name {
            Some(name) => name@,
            None => "-"@,
        }) + " | "@ + (match sessions[i].cwd {
            Some(cwd) => cwd@,
            None => "-"@,
        }) by {
            if i < before.len() {
                assert(before[i] == sessions[i]);
                assert(session_lines(sessions)[i + 1] == session_lines(before)[i + 1]);
            }
        }
    }
}

/// Every message of a history has two lines behind the heading, in its place: when it was written,
/// its identifier, its author and what it answers; and its body.
pub proof fn law_message_lines(
    channel: ChannelOutput,
    messages: Seq<MessageOutput>,
    detail: DetailLevel,
    at: int,
)
    requires
        0 <= at < messages.len(),
    ensures
        read_lines(channel, messages, detail)[0] == channel.team@ + ":"@ + channel.display_name@
            + " | "@ + decimal(messages.len()) + " message(s)"@,
        read_lines(channel, messages, detail)[1 + 2 * at] == messages[at].created_at@ + " | "@
            + messages[at].id@ + " | @"@ + messages[at].sender@ + " | reply="@ + (
        match messages[at].reply_to {
            Some(id) => id@,
            None => "-"@,
        }),
        read_lines(channel, messages, detail)[2 + 2 * at] == body_line(messages[at], detail),
    decreases messages.len(),
{
    law_histories_are_line_oriented(channel, messages, detail);
    if at < messages.len() - 1 {
        let before = messages.drop_last();
        law_histories_are_line_oriented(channel, before, detail);
        law_message_lines(channel, before, detail, at);
        assert(read_lines(channel, messages, detail)[1 + 2 * at] == message_lines(
            messages,
            detail,
        )[2 * at]);
        assert(message_lines(messages, detail)[2 * at] == message_lines(before, detail)[2 * at]);
        assert(message_lines(messages, detail)[2 * at + 1] == message_lines(before, detail)[2 * at
            + 1]);
        assert(read_lines(channel, before, detail)[1 + 2 * at] == message_lines(
            before,
            detail,
        )[2 * at]);
        assert(read_lines(channel, before, detail)[2 + 2 * at] == message_lines(
            before,
            detail,
        )[2 * at + 1]);
    } else {
        law_histories_are_line_oriented(channel, messages.drop_last(), detail);
    }
}

/// A body is indented and, where it is not whole, marked; in full output it keeps all its characters,
/// with the same indentation behind each line feed, and in concise output it is put on one line.
pub proof fn law_bodies(message: MessageOutput, left: Seq<char>, right: Seq<char>)
    requires
        message.body@ == left + right,
    ensures
        !message.body_truncated ==> body_line(message, DetailLevel::Full) == "  "@ + (replaced(
            left,
            '\n',
            "\n  "@,
        ) + replaced(right, '\n', "\n  "@)),
        message.body_truncated ==> body_line(message, DetailLevel::Full) == "  "@ + (replaced(
            left,
            '\n',
            "\n  "@,
        ) + replaced(right, '\n', "\n  "@)) + " …[truncated]"@,
        !message.body_truncated ==> body_line(message, DetailLevel::Concise) == "  "@ + collapsed(
            message.body@,
        ),
        message.body_truncated ==> body_line(message, DetailLevel::Concise) == "  "@ + collapsed(
            message.body@,
        ) + " …[truncated]"@,
{
    reveal_strlit("");
    law_replaced_text(left, right, '\n', "\n  "@);
    let full = "  "@ + replaced(message.body@, '\n', "\n  "@);
    assert(full + ""@ =~= full);
    let concise = "  "@ + collapsed(message.body@);
    assert(concise + ""@ =~= concise);
}

/// The live sessions that are shown are those with a seat whose thread is loaded, and the dormant ones
/// those with a biography and without a seat; each in the order in which they were found.
pub proof fn law_shown_sessions(
    seats: Seq<Seat>,
    loaded: Seq<SessionId>,
    established: Seq<SessionId>,
)
    ensures
        ready_seats(seats, loaded) == seats.filter(|seat: Seat| loaded.contains(seat.session)),
        dormant_sessions(seats, established) == established.filter(
            |id: SessionId|
                forall|i: int| 0 <= i < seats.len() ==> (#[trigger] seats[i]).session != id,
        ),
    decreases seats.len() + established.len(),
{
    reveal(Seq::filter);
    if seats.len() > 0 {
        lemma_ready_filter(seats, loaded);
    } else {
        assert(ready_seats(seats, loaded) =~= seats.filter(
            |seat: Seat| loaded.contains(seat.session),
        ));
    }
    lemma_dormant_filter(seats, established);
}

proof fn lemma_ready_filter(seats: Seq<Seat>, loaded: Seq<SessionId>)
    ensures
        ready_seats(seats, loaded) == seats.filter(|seat: Seat| loaded.contains(seat.session)),
    decreases seats.len(),
{
    reveal(Seq::filter);
    if seats.len() > 0 {
        lemma_ready_filter(seats.drop_last(), loaded);
    }
}

proof fn lemma_dormant_filter(seats: Seq<Seat>, established: Seq<SessionId>)
    ensures
        dormant_sessions(seats, established) == established.filter(
            |id: SessionId|
                forall|i: int| 0 <= i < seats.len() ==> (#[trigger] seats[i]).session != id,
        ),
    decreases established.len(),
{
    reveal(Seq::filter);
    if established.len() > 0 {
        lemma_dormant_filter(seats, established.drop_last());
        lemma_seated(seats, established.last());
    }
}

/// Every live session that is loaded is shown in its process and where it works, and every dormant
/// one with a biography without either; both under the name that the index gives them.
pub proof fn law_every_reachable_session_is_shown(
    seats: Seq<Seat>,
    loaded: Seq<SessionId>,
    established: Seq<SessionId>,
    index: Seq<SessionIndexRow>,
    rows: Seq<SessionOutput>,
    at: int,
)
    requires
        lists_sessions(seats, loaded, established, index, rows),
    ensures
        0 <= at < seats.len() && loaded.contains(seats[at].session) ==> exists|k: int|
            0 <= k < rows.len() && (#[trigger] rows[k]).id == seats[at].session && rows[k].pid
                == Some(seats[at].process.pid) && rows[k].cwd == seats[at].cwd && opt_text(
                rows[k].name,
            ) == indexed(index, seats[at].session),
        0 <= at < established.len() && (forall|i: int|
            0 <= i < seats.len() ==> (#[trigger] seats[i]).session != established[at]) ==> exists|
            k: int,
        |
            0 <= k < rows.len() && (#[trigger] rows[k]).id == established[at] && rows[k].pid is None
                && rows[k].cwd is None && opt_text(rows[k].name) == indexed(index, established[at]),
{
    broadcast use vstd::seq_lib::group_filter_ensures;

    law_shown_sessions(seats, loaded, established);
    let ready = ready_seats(seats, loaded);
    let dormant = dormant_sessions(seats, established);
    if 0 <= at < seats.len() && loaded.contains(seats[at].session) {
        assert(seats.contains(seats[at]));
        assert(ready.contains(seats[at]));
        let k = choose|k: int| 0 <= k < ready.len() && ready[k] == seats[at];
        assert(shows_seat(rows[k], ready[k], index));
    }
    if 0 <= at < established.len() && (forall|i: int|
        0 <= i < seats.len() ==> (#[trigger] seats[i]).session != established[at]) {
        lemma_dormant_sessions(seats, established, established[at]);
        lemma_seated(seats, established[at]);
        assert(established.contains(established[at]));
        let k = choose|k: int| 0 <= k < dormant.len() && dormant[k] == established[at];
        assert(shows_dormant(rows[ready.len() + k], dormant[k], index));
    }
}

/// An author is called by the name of the last user with the author's identifier, and by the
/// identifier where there is none.
pub proof fn law_authors_names(users: Seq<User>, id: Seq<char>, at: int)
    ensures
        0 <= at < users.len() && users[at].id@ == id && (forall|i: int|
            at < i < users.len() ==> (#[trigger] users[i]).id@ != id) ==> sender_name(users, id)
            == users[at].username@,
        (forall|i: int| 0 <= i < users.len() ==> (#[trigger] users[i]).id@ != id) ==> sender_name(
            users,
            id,
        ) == id,
    decreases users.len(),
{
    if users.len() > 0 {
        let before = users.drop_last();
        assert(forall|i: int| 0 <= i < before.len() ==> before[i] == users[i]);
        assert(users[users.len() - 1] == users.last());
        law_authors_names(before, id, at);
    }
}

/// Every post of a history is shown in its place: under its identifier and its author's name, with
/// the post that it answers, if any, and its message, whole or as much of it as is wanted, marked
/// where that is not all; the time of its last change only in full output, and only where it has
/// changed.
pub proof fn law_every_post_is_shown(
    output: ReadOutput,
    timeline: Timeline,
    chars: nat,
    detail: DetailLevel,
    at: int,
)
    requires
        shows_timeline(output, timeline, chars, detail),
        0 <= at < timeline.posts@.len(),
    ensures
        output.messages@.len() == timeline.posts@.len(),
        output.channel.id@ == timeline.channel.channel.id@,
        output.messages@[at].id@ == timeline.posts@[at].id@,
        output.messages@[at].created_at@ == time_text(timeline.posts@[at].create_at as int),
        output.messages@[at].sender@ == sender_name(
            timeline.users@,
            timeline.posts@[at].user_id@,
        ),
        timeline.posts@[at].root_id@.len() > 0 ==> opt_text(output.messages@[at].reply_to) == Some(
            timeline.posts@[at].root_id@,
        ),
        timeline.posts@[at].root_id@.len() == 0 ==> output.messages@[at].reply_to is None,
        timeline.posts@[at].message@.len() <= chars ==> output.messages@[at].body@
            == timeline.posts@[at].message@ && !output.messages@[at].body_truncated,
        timeline.posts@[at].message@.len() > chars ==> output.messages@[at].body@
            == timeline.posts@[at].message@.take(chars as int) && output.messages@[at].body_truncated,
        detail == DetailLevel::Concise || timeline.posts@[at].update_at
            == timeline.posts@[at].create_at ==> output.messages@[at].updated_at is None,
        detail == DetailLevel::Full && timeline.posts@[at].update_at != timeline.posts@[at].create_at
            ==> opt_text(output.messages@[at].updated_at) == Some(
            time_text(timeline.posts@[at].update_at as int),
        ),
{
    assert(shows_post(
        output.messages@[at],
        timeline.posts@[at],
        timeline.users@,
        chars,
        detail,
    ));
    law_clipped_text(timeline.posts@[at].message@, chars);
}

/// Only what posts may happen no more than once; everything else may be called again.
pub proof fn law_recovery(tool: Seq<char>)
    ensures
        recovery_text("chat.post"@) == "at_most_once"@,
        recovery_text("chat.dm"@) == "at_most_once"@,
        tool != "chat.post"@ && tool != "chat.dm"@ ==> recovery_text(tool) == "replay_safe"@,
{
}

/// A direct message to another session is posted only once the session is reserved; then it is
/// submitted on the reservation, as it is, in the caller's name, with the identifier of its post; and
/// it succeeds once it is queued.
pub proof fn law_direct_messages_to_sessions(
    message: Seq<char>,
    reply_to: Option<Seq<char>>,
    target: SessionId,
    session: Session,
    created: CreatedDirectMessage,
    reserving: Dm,
    posting: Dm,
    submitting: Dm,
    end: Dm,
)
    requires
        1 <= message.len() <= 16_383,
        reply_to matches Some(root) ==> is_id(root),
        session.id != target,
        dm_begins(message, reply_to, Some(target), Ok(session), reserving),
        dm_reserved(reserving, Ok(()), posting),
        dm_posted(posting, Ok(created), submitting),
        dm_submitted(submitting, Ok(()), end),
    ensures
        reserving is Reserve,
        reserving->Reserve_target == target,
        posting is Post,
        posting->Post_target == target,
        posting->Post_session == session,
        posting->Post_message@ == message,
        opt_text(posting->Post_reply_to) == reply_to,
        submitting is Submit,
        submitting->request is Enqueue,
        submitting->request->Enqueue_target == target,
        submitting->request->body@ == message,
        submitting->request->post_id@ == created.post.id@,
        submitting->request->sender_session == session.id,
        submitting->request->sender@ == created.sender@,
        end is Done,
        end->Done_0 is Success,
        end->Done_0->Success_0.id@ == created.post.id@,
        end->Done_0->Success_0.sender@ == created.sender@,
        end->Done_0->Success_0.recipient@ == created.recipient@,
        end->Done_0->Success_0.delivery@ == "volatile best effort"@,
{
    law_what_may_be_posted(message, reply_to, Seq::empty());
}

/// A direct message to the operator is posted right away, and nothing is submitted.
pub proof fn law_direct_messages_to_the_operator(
    message: Seq<char>,
    reply_to: Option<Seq<char>>,
    session: Session,
    created: CreatedDirectMessage,
    posting: Dm,
    end: Dm,
)
    requires
        1 <= message.len() <= 16_383,
        reply_to matches Some(root) ==> is_id(root),
        dm_begins(message, reply_to, None, Ok(session), posting),
        dm_posted(posting, Ok(created), end),
    ensures
        posting is Operator,
        posting->Operator_message@ == message,
        posting->Operator_session == session,
        opt_text(posting->Operator_reply_to) == reply_to,
        end is Done,
        end->Done_0 is Success,
        end->Done_0->Success_0.id@ == created.post.id@,
        end->Done_0->Success_0.recipient@ == created.recipient@,
        end->Done_0->Success_0.delivery@ == "Mattermost only"@,
{
    law_what_may_be_posted(message, reply_to, Seq::empty());
}

/// A direct message that cannot be posted, that is for the caller itself or whose caller is unknown
/// goes nowhere; one that cannot be reserved is not posted; one that was posted and not queued says
/// so.
pub proof fn law_direct_messages_that_fail(
    message: Seq<char>,
    reply_to: Option<Seq<char>>,
    target: Option<SessionId>,
    session: Session,
    error: RelayError,
    begun: Dm,
    dm: Dm,
    unreserved: Dm,
    unsubmitted: Dm,
)
    requires
        dm_begins(message, reply_to, target, Ok(session), begun),
        dm is Reserve ==> dm_reserved(dm, Err(error), unreserved),
        dm is Submit ==> dm_submitted(dm, Err(error), unsubmitted),
    ensures
        message.len() == 0 || message.len() > 16_383 ==> begun is Done && begun->Done_0 is Fault,
        target == Some(session.id) ==> begun is Done && begun->Done_0 is Fault,
        dm is Reserve ==> unreserved is Done && unreserved->Done_0 is Failure
            && unreserved->Done_0->Failure_0@ == "direct message not posted: "@ + relay_error_text(
            error,
        ),
        dm is Submit ==> unsubmitted is Done && unsubmitted->Done_0 is Failure
            && unsubmitted->Done_0->Failure_0@ == "posted "@ + dm->output.id@
            + " but volatile delivery was not queued: "@ + relay_error_text(error)
            + "; do not retry blindly"@,
{
}

/// What was posted is confirmed by the identifier of the post, the label of its channel and the name
/// under which it was posted; with the post that it answers, if any.
pub proof fn law_posts_are_confirmed(created: CreatedPost, output: PostOutput)
    requires
        shows_created(output, created),
    ensures
        created_line(output) == "posted "@ + created.post.id@ + " | "@ + (
        created.channel.team.name@ + ":"@ + created.channel.channel.display_name@) + (" | @"@
            + created.sender@),
        created.post.root_id@.len() > 0 ==> opt_text(output.reply_to) == Some(created.post.root_id@),
        created.post.root_id@.len() == 0 ==> output.reply_to is None,
{
}

/// What was sent directly is confirmed by the identifier of its post, by both names and by how it is
/// delivered.
pub proof fn law_direct_messages_are_confirmed(
    created: CreatedDirectMessage,
    output: DirectMessageOutput,
    delivery: Seq<char>,
)
    requires
        shows_direct_message(output, created, delivery),
    ensures
        direct_line(output) == "posted "@ + created.post.id@ + " | @"@ + created.sender@ + " -> @"@
            + created.recipient@ + " | delivery="@ + delivery,
        created.post.root_id@.len() > 0 ==> opt_text(output.reply_to) == Some(created.post.root_id@),
        created.post.root_id@.len() == 0 ==> output.reply_to is None,
{
}

/// A subscription is confirmed by what it is now and by the label of its channel; an identity by the
/// session, its name and its biography, or that it has none.
pub proof fn law_states_are_confirmed(
    subscription: ChannelSubscription,
    output: SubscriptionOutput,
    identity: AgentIdentity,
    shown: IdentityOutput,
)
    requires
        shows_subscription(output, subscription),
        shows_identity(shown, identity),
    ensures
        subscription.state == SubscriptionState::Subscribed ==> subscription_line(output)
            == "subscribed "@ + (subscription.channel.team.name@ + ":"@
            + subscription.channel.channel.display_name@),
        subscription.state == SubscriptionState::Unsubscribed ==> subscription_line(output)
            == "unsubscribed "@ + (subscription.channel.team.name@ + ":"@
            + subscription.channel.channel.display_name@),
        identity.biography matches Some(biography) ==> identity_lines(shown) == hyphenated_text(
            identity.session.value,
        ) + " | "@ + identity.name@ + "\n"@ + biography@,
        identity.biography is None ==> identity_lines(shown) == hyphenated_text(
            identity.session.value,
        ) + " | "@ + identity.name@ + "\n"@ + "anonymous"@,
{
}

} // verus!
