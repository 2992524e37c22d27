//! The attention settings: quiet hours, the system notification channel and
//! the local time zone offset, as they are stored and read back.

use vstd::prelude::*;
use crate::error::CoreError;
use crate::sqlite::{self, Event, SqlValue, Trace};
use crate::storage::{outcome_well_formed, run, sql, SqliteStorage};

verus! {

/// The hours in which notifications wait, as minutes of the day; the span
/// may cross midnight.
#[derive(Clone, Copy, Debug, PartialEq, Eq, Structural)]
pub struct QuietHours {
    pub enabled: bool,
    pub start_minute: u16,
    pub end_minute: u16,
    pub allow_urgent: bool,
}

/// How the product may claim attention.
#[derive(Clone, Copy, Debug, PartialEq, Eq, Structural)]
pub struct AttentionSettings {
    pub quiet: QuietHours,
    pub os_channel_enabled: bool,
    pub local_offset_minutes: i16,
}

/// The last minute of a day.
pub open spec fn last_minute() -> int {
    1439
}

/// The widest offset from UTC, in minutes, a time zone has.
pub open spec fn widest_offset() -> int {
    840
}

pub open spec fn clamp(value: int, low: int, high: int) -> int {
    if value < low {
        low
    } else if value > high {
        high
    } else {
        value
    }
}

/// Settings as the storage can hold them: minutes within a day and an
/// offset no wider than any time zone's.
pub open spec fn storable(settings: AttentionSettings) -> bool {
    &&& settings.quiet.start_minute <= last_minute()
    &&& settings.quiet.end_minute <= last_minute()
    &&& -widest_offset() <= settings.local_offset_minutes <= widest_offset()
}

/// The stored row: six integers, flags as `0` or `1`.
pub open spec fn spec_settings_row(settings: AttentionSettings) -> Seq<i64> {
    seq![
        if settings.quiet.enabled { 1i64 } else { 0i64 },
        settings.quiet.start_minute as i64,
        settings.quiet.end_minute as i64,
        if settings.quiet.allow_urgent { 1i64 } else { 0i64 },
        if settings.os_channel_enabled { 1i64 } else { 0i64 },
        settings.local_offset_minutes as i64,
    ]
}

/// The settings a stored row stands for: any non-zero flag is on, minutes
/// are clamped into the day and the offset into the widest time zone's.
pub open spec fn spec_settings_from_row(row: Seq<i64>) -> AttentionSettings {
    AttentionSettings {
        quiet: QuietHours {
            enabled: row[0] != 0,
            start_minute: clamp(row[1] as int, 0, last_minute()) as u16,
            end_minute: clamp(row[2] as int, 0, last_minute()) as u16,
            allow_urgent: row[3] != 0,
        },
        os_channel_enabled: row[4] != 0,
        local_offset_minutes: clamp(row[5] as int, -widest_offset(), widest_offset()) as i16,
    }
}

fn clamp_i64(value: i64, low: i64, high: i64) -> (c: i64)
    requires
        low <= high,
    ensures
        c == clamp(value as int, low as int, high as int),
{
    if value < low {
        low
    } else if value > high {
        high
    } else {
        value
    }
}

/// Reads the settings from the six integers of their row.
pub fn settings_from_row(row: &Vec<i64>) -> (s: AttentionSettings)
    requires
        row@.len() == 6,
    ensures
        s == spec_settings_from_row(row@),
{
    let start = clamp_i64(row[1], 0, 1439);
    let end = clamp_i64(row[2], 0, 1439);
    let offset = clamp_i64(row[5], -840, 840);
    AttentionSettings {
        quiet: QuietHours {
            enabled: row[0] != 0,
            start_minute: start as u16,
            end_minute: end as u16,
            allow_urgent: row[3] != 0,
        },
        os_channel_enabled: row[4] != 0,
        local_offset_minutes: offset as i16,
    }
}

/// The six integers the settings are stored as.
pub fn settings_row(settings: AttentionSettings) -> (row: Vec<i64>)
    ensures
        row@ == spec_settings_row(settings),
{
    let mut row = Vec::new();
    row.push(if settings.quiet.enabled { 1i64 } else { 0i64 });
    row.push(settings.quiet.start_minute as i64);
    row.push(settings.quiet.end_minute as i64);
    row.push(if settings.quiet.allow_urgent { 1i64 } else { 0i64 });
    row.push(if settings.os_channel_enabled { 1i64 } else { 0i64 });
    row.push(settings.local_offset_minutes as i64);
    proof {
        assert(row@ =~= spec_settings_row(settings));
    }
    row
}

/// What is saved is what is read back, for any settings the storage can
/// hold.
pub proof fn law_saved_settings_read_back(settings: AttentionSettings)
    requires
        storable(settings),
    ensures
        spec_settings_from_row(spec_settings_row(settings)) == settings,
{
}

/// Reading clamps: whatever a row holds, the settings read from it can be
/// stored, and storing them gives a row that reads back the same.
pub proof fn law_read_settings_are_storable(row: Seq<i64>)
    requires
        row.len() == 6,
    ensures
        storable(spec_settings_from_row(row)),
        spec_settings_from_row(spec_settings_row(spec_settings_from_row(row)))
            == spec_settings_from_row(row),
{
}

/// The integers a row of values holds (a value that is none reads as zero).
pub open spec fn integers_of(cells: Seq<SqlValue>) -> Seq<i64> {
    cells.map_values(
        |c: SqlValue|
            match c {
                SqlValue::Integer(n) => n,
                _ => 0i64,
            },
    )
}

/// The values of a row of integers.
pub open spec fn integer_cells(row: Seq<i64>) -> Seq<SqlValue> {
    row.map_values(|n: i64| SqlValue::Integer(n))
}

pub const SETTINGS_QUERY: &'static str = "SELECT quiet_enabled, quiet_start_minute, quiet_end_minute, quiet_allow_urgent, os_channel_enabled, local_offset_minutes FROM attention_settings WHERE id = 1";

pub const SAVE_SETTINGS: &'static str = "UPDATE attention_settings SET quiet_enabled = ?1, quiet_start_minute = ?2, quiet_end_minute = ?3, quiet_allow_urgent = ?4, os_channel_enabled = ?5, local_offset_minutes = ?6 WHERE id = 1";

/// The first six integer columns of the first row `sql` returns
/// (`Connection::query_row`), recorded in the trace (as that one row) when
/// the read succeeds. Of the row, only its length is stated.
#[verifier::external_body]
fn read_settings_row(connection: &rusqlite::Connection, sql: &str, trace: &mut Trace) -> (r: Result<Vec<i64>, rusqlite::Error>)
    ensures
        r is Ok ==> r->Ok_0@.len() == 6,
        r is Ok ==> final(trace).events@ == old(trace).events@.push(
            Event::ReadRows(sql@, Seq::empty(), seq![integer_cells(r->Ok_0@)]),
        ),
        r is Err ==> final(trace).events@ == old(trace).events@,
{
    connection.query_row(
        sql,
        [],
        |row| Ok(vec![row.get::<_, i64>(0)?, row.get::<_, i64>(1)?, row.get::<_, i64>(2)?, row.get::<_, i64>(3)?, row.get::<_, i64>(4)?, row.get::<_, i64>(5)?]),
    )
}

impl SqliteStorage {
    /// The attention settings as stored, read as `settings_from_row` reads
    /// them: the trace shows the row read, and the settings are what it
    /// holds.
    pub fn attention_settings(&self, trace: &mut Trace) -> (r: Result<AttentionSettings, CoreError>)
        ensures
            outcome_well_formed(r),
            r is Ok ==> storable(r->Ok_0),
            r is Ok ==> exists|row: Seq<i64>|
                row.len() == 6 && r->Ok_0 == #[trigger] spec_settings_from_row(row),
            r is Ok ==> {
                &&& sqlite::one_more(old(trace).events@, final(trace).events@)
                &&& final(trace).events@.last() matches Event::ReadRows(q, v, rows) && q == SETTINGS_QUERY@
                    && v.len() == 0 && rows.len() == 1 && rows[0].len() == 6 && r->Ok_0
                    == spec_settings_from_row(integers_of(rows[0]))
            },
    {
        let ghost base = trace.events@;
        let read = read_settings_row(self.connection(), SETTINGS_QUERY, trace);
        let row = sql(read)?;
        let settings = settings_from_row(&row);
        proof {
            law_read_settings_are_storable(row@);
            assert(settings == spec_settings_from_row(row@));
            assert(trace.events@.drop_last() =~= base);
            assert(integers_of(integer_cells(row@)) =~= row@);
        }
        Ok(settings)
    }

    /// Saves the attention settings and returns them as read back, since the
    /// database has the last word on what was stored: the trace shows the
    /// update with the row `settings_row` gives, then the read back, and the
    /// settings returned are what that read holds.
    pub fn save_attention_settings(&self, settings: AttentionSettings, trace: &mut Trace) -> (r: Result<
        AttentionSettings,
        CoreError,
    >)
        ensures
            outcome_well_formed(r),
            r is Ok ==> storable(r->Ok_0),
            r is Ok ==> exists|row: Seq<i64>|
                row.len() == 6 && r->Ok_0 == #[trigger] spec_settings_from_row(row),
            r is Ok ==> {
                let e = final(trace).events@;
                let b = old(trace).events@.len() as int;
                &&& e.len() == b + 2
                &&& e.subrange(0, b) == old(trace).events@
                &&& e[b] == Event::Execute(SAVE_SETTINGS@, integer_cells(spec_settings_row(settings)))
                &&& e[b + 1] matches Event::ReadRows(q, v, rows) && q == SETTINGS_QUERY@ && rows.len() == 1
                    && rows[0].len() == 6 && r->Ok_0 == spec_settings_from_row(integers_of(rows[0]))
            },
    {
        let ghost base = trace.events@;
        let row = settings_row(settings);
        let mut values = Vec::new();
        let mut i: usize = 0;
        while i < row.len()
            invariant
                i <= row@.len(),
                values@ == integer_cells(row@.take(i as int)),
            decreases row@.len() - i,
        {
            values.push(SqlValue::Integer(row[i]));
            proof {
                assert(row@.take(i + 1) =~= row@.take(i as int).push(row@[i as int]));
                assert(integer_cells(row@.take(i + 1)) =~= integer_cells(row@.take(i as int)).push(SqlValue::Integer(row@[i as int])));
            }
            i = i + 1;
        }
        proof {
            assert(row@.take(row@.len() as int) =~= row@);
        }
        let done = run(self.connection(), SAVE_SETTINGS, &values, trace);
        let ghost t1 = trace.events@;
        done?;
        let read = self.attention_settings(trace);
        proof {
            if read is Ok {
                assert(trace.events@.drop_last() == t1);
                assert(trace.events@.subrange(0, base.len() as int) =~= base);
                assert(trace.events@[base.len() as int] == t1.last());
            }
        }
        read
    }
}

} // verus!
