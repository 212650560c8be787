//! The ingestion pipeline: the per-connection protocol state machine, line
//! trimming, and the step that turns one received line into a stored record
//! plus a persistence obligation.

use vstd::prelude::*;
use vstd::string::StrSliceExecFns;
use crate::components::{Config, Level, Log, LogLevel, Message, Timestamp, World};
use crate::persist::{file_name_spec, log_file_name, tag_kernel, tagged_spec};

verus! {

/// Relies on chrono::Local::now, formatted `%Y-%m-%d %H:%M:%S`: the current
/// local wall-clock time. Nothing is promised of the value, which depends on
/// the clock; callers state what holds whatever string comes back.
#[verifier::external_body]
fn current_timestamp() -> String {
    chrono::Local::now().format("%Y-%m-%d %H:%M:%S").to_string()
}

/// Relies on chrono::Local::now, formatted `%Y-%m-%d`: the current local
/// calendar day. Nothing is promised of the value, which depends on the
/// clock; callers state what holds whatever string comes back.
#[verifier::external_body]
fn current_day() -> String {
    chrono::Local::now().format("%Y-%m-%d").to_string()
}

/// `s` with its trailing line terminators (`'\n'`, `'\r'`) removed.
pub open spec fn trim_line_spec(s: Seq<char>) -> Seq<char>
    decreases s.len(),
{
    if s.len() > 0 && (s.last() == '\n' || s.last() == '\r') {
        trim_line_spec(s.drop_last())
    } else {
        s
    }
}

/// Strips the trailing line terminators from one received line.
pub fn trim_line(line: &str) -> (r: String)
    ensures
        r@ == trim_line_spec(line@),
{
    let n = line.unicode_len();
    let mut end: usize = n;
    proof {
        assert(line@.subrange(0, n as int) =~= line@);
    }
    loop
        invariant
            end <= n,
            n == line@.len(),
            trim_line_spec(line@) == trim_line_spec(line@.subrange(0, end as int)),
        ensures
            end <= n,
            trim_line_spec(line@) == trim_line_spec(line@.subrange(0, end as int)),
            end == 0 || (line@[end - 1] != '\n' && line@[end - 1] != '\r'),
        decreases end,
    {
        if end == 0 {
            break;
        }
        let c = line.get_char(end - 1);
        if c != '\n' && c != '\r' {
            break;
        }
        proof {
            assert(line@.subrange(0, end as int).drop_last()
                =~= line@.subrange(0, end - 1 as int));
        }
        end -= 1;
    }
    proof {
        assert(trim_line_spec(line@.subrange(0, end as int)) == line@.subrange(0, end as int));
    }
    line.substring_char(0, end).to_owned()
}

/// Records one message in the store at the current local time: the verified
/// successor of appending under a held lock — the id is fresh, the maps grow
/// by exactly this record, and nothing already stored changes.
pub fn log_system(world: &mut World, level: LogLevel, message_text: String) -> (id: Log)
    requires
        old(world).wf(),
        old(world).next_id() < Log::MAX,
    ensures
        final(world).wf(),
        id == old(world).next_id(),
        final(world).next_id() == id + 1,
        final(world).ids() == old(world).ids().push(id),
        final(world).level_at(id) == level,
        final(world).message_at(id) == message_text@,
        final(world).levels_map() == old(world).levels_map().insert(id, Level(level)),
        final(world).messages_map() == old(world).messages_map().insert(id, Message(message_text)),
        final(world).timestamps_map() == old(world).timestamps_map().insert(
            id,
            final(world).timestamps_map()[id],
        ),
{
    let timestamp = Timestamp(current_timestamp());
    let lvl = Level(level);
    world.create_log(timestamp, lvl, Message(message_text))
}

/// What one successfully ingested line obliges the caller to do for
/// persistence: append `persist_line`, followed by a terminator, to the file
/// named `file_name`.
pub struct IngestOutcome {
    pub id: Log,
    pub file_name: String,
    pub persist_line: String,
}

/// The verified core of one ingestion step, taking the wall-clock outputs as
/// arguments: trims the line, stores the original trimmed text at level Info,
/// and plans persistence of the kernel-tagged text into the day's file.
pub fn ingest_line_at(
    world: &mut World,
    config: &Config,
    line: &str,
    timestamp: Timestamp,
    day: &str,
) -> (out: IngestOutcome)
    requires
        old(world).wf(),
        old(world).next_id() < Log::MAX,
    ensures
        final(world).wf(),
        out.id == old(world).next_id(),
        final(world).next_id() == out.id + 1,
        final(world).ids() == old(world).ids().push(out.id),
        final(world).message_at(out.id) == trim_line_spec(line@),
        final(world).level_at(out.id) == LogLevel::Info,
        final(world).timestamp_at(out.id) == timestamp.0@,
        final(world).levels_map() == old(world).levels_map().insert(out.id, Level(LogLevel::Info)),
        final(world).messages_map() == old(world).messages_map().insert(
            out.id,
            final(world).messages_map()[out.id],
        ),
        final(world).timestamps_map() == old(world).timestamps_map().insert(out.id, timestamp),
        out.persist_line@ == tagged_spec(trim_line_spec(line@)),
        out.file_name@ == file_name_spec(config.log_file_path@, day@),
{
    let msg = trim_line(line);
    let persist_line = tag_kernel(msg.as_str());
    let file_name = log_file_name(config.log_file_path.as_str(), day);
    let id = world.create_log(timestamp, Level(LogLevel::Info), Message(msg));
    IngestOutcome { id, file_name, persist_line }
}

/// One ingestion step at the current wall clock: stores the trimmed line now
/// and plans persistence into today's file. The day and timestamp come from
/// the clock, so the contract holds whatever strings the clock yields.
pub fn ingest_line(world: &mut World, config: &Config, line: &str) -> (out: IngestOutcome)
    requires
        old(world).wf(),
        old(world).next_id() < Log::MAX,
    ensures
        final(world).wf(),
        out.id == old(world).next_id(),
        final(world).next_id() == out.id + 1,
        final(world).ids() == old(world).ids().push(out.id),
        final(world).message_at(out.id) == trim_line_spec(line@),
        final(world).level_at(out.id) == LogLevel::Info,
        out.persist_line@ == tagged_spec(trim_line_spec(line@)),
        exists|day: Seq<char>| out.file_name@ == file_name_spec(config.log_file_path@, day),
{
    let timestamp = Timestamp(current_timestamp());
    let day = current_day();
    let out = ingest_line_at(world, config, line, timestamp, day.as_str());
    proof {
        assert(out.file_name@ == file_name_spec(config.log_file_path@, day@));
    }
    out
}

/// The per-connection handler's control state.
#[derive(Debug, PartialEq, Eq, Structural, Clone, Copy)]
pub enum ConnState {
    /// Waiting for the next complete line.
    Reading,
    /// The peer closed the stream or a read failed; terminal.
    Closed,
}

/// One read outcome the transport hands to the handler.
pub enum ReadEvent {
    /// A complete line arrived (terminator still attached, as read).
    Line(String),
    /// The peer closed the stream.
    Eof,
    /// The read failed (for instance, invalid encoding).
    ReadError,
}

/// One step of the per-connection state machine: a complete line while
/// reading is ingested and the handler keeps reading; end-of-stream or a
/// read error closes only this handler and leaves the store untouched; a
/// closed handler ignores every further event.
pub fn connection_step(
    state: ConnState,
    event: ReadEvent,
    world: &mut World,
    config: &Config,
) -> (r: (ConnState, Option<IngestOutcome>))
    requires
        old(world).wf(),
        old(world).next_id() < Log::MAX,
    ensures
        final(world).wf(),
        match (state, event) {
            (ConnState::Reading, ReadEvent::Line(s)) => {
                &&& r.0 == ConnState::Reading
                &&& r.1 matches Some(out)
                &&& (r.1 matches Some(out) ==> {
                    &&& out.id == old(world).next_id()
                    &&& out.persist_line@ == tagged_spec(trim_line_spec(s@))
                    &&& (exists|day: Seq<char>|
                        out.file_name@ == file_name_spec(config.log_file_path@, day))
                })
                &&& final(world).next_id() == old(world).next_id() + 1
                &&& final(world).ids() == old(world).ids().push(old(world).next_id())
                &&& final(world).message_at(old(world).next_id()) == trim_line_spec(s@)
                &&& final(world).level_at(old(world).next_id()) == LogLevel::Info
            },
            _ => {
                &&& r.0 == ConnState::Closed
                &&& r.1 is None
                &&& *final(world) == *old(world)
            },
        },
{
    match (state, event) {
        (ConnState::Reading, ReadEvent::Line(s)) => {
            let out = ingest_line(world, config, s.as_str());
            (ConnState::Reading, Some(out))
        },
        _ => (ConnState::Closed, None),
    }
}

} // verus!
