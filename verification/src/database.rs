//! The activity log: an append-only sequence of records that is asked
//! questions by day.
//!
//! `Database` is the log as the program holds it. Durable storage keeps it as
//! rows of text; `Database::from_rows` and `Database::to_rows` lead from one
//! to the other.

use crate::clock::{
    current_time, date_of, local_date, parse_day, parse_rfc3339, parsed_day, parsed_rfc3339,
    rfc3339, rfc3339_text, today,
};
use crate::models::{Activity, ActivityView, Day, Timestamp};
use vstd::prelude::*;
use vstd::string::*;

verus! {

/// Why the log could not do what it was asked.
#[derive(Clone, Copy, Debug, PartialEq, Eq, Structural)]
pub enum StoreError {
    /// The log cannot be read or written.
    Unavailable,
}

/// A record as durable storage keeps it: the columns `id`, `description`,
/// `timestamp` and `date` of one row.
#[derive(Debug)]
pub struct Row {
    pub id: i64,
    pub description: String,
    /// RFC 3339, with offset.
    pub timestamp: String,
    /// `YYYY-MM-DD`.
    pub date: String,
}

pub struct RowView {
    pub id: i64,
    pub description: Seq<char>,
    pub timestamp: Seq<char>,
    pub date: Seq<char>,
}

impl View for Row {
    type V = RowView;

    open spec fn view(&self) -> RowView {
        RowView {
            id: self.id,
            description: self.description@,
            timestamp: self.timestamp@,
            date: self.date@,
        }
    }
}

/// A column of a row that does not hold what it should.
#[derive(Debug)]
pub struct InvalidColumn {
    /// The position of the column in the row, counted from zero.
    pub index: usize,
    pub name: String,
}

/// The views of `rows`, one by one.
pub open spec fn views(rows: Seq<Activity>) -> Seq<ActivityView> {
    Seq::new(rows.len(), |i: int| rows[i]@)
}

/// The views of `rows`, one by one.
pub open spec fn row_views(rows: Seq<Row>) -> Seq<RowView> {
    Seq::new(rows.len(), |i: int| rows[i]@)
}

/// The instant that the text of a `timestamp` column stands for, if it is
/// RFC 3339 and within the supported years.
pub open spec fn timestamp_of(text: Seq<char>) -> Option<Timestamp> {
    match parsed_rfc3339(text) {
        Some(ts) => if ts.wf() {
            Some(ts)
        } else {
            None
        },
        None => None,
    }
}

/// The day that the text of a `date` column stands for, if it is a date
/// with a year of four digits.
pub open spec fn day_of(text: Seq<char>) -> Option<Day> {
    match parsed_day(text) {
        Some(day) => if day.wf() {
            Some(day)
        } else {
            None
        },
        None => None,
    }
}

/// The record that a row stands for, if its columns hold what they should.
pub open spec fn decoded(row: RowView) -> Option<ActivityView> {
    match (timestamp_of(row.timestamp), day_of(row.date)) {
        (Some(timestamp), Some(date)) => Some(
            ActivityView { id: Some(row.id), description: row.description, timestamp, date },
        ),
        _ => None,
    }
}

/// The row that keeps a record with an identifier.
pub open spec fn encoded(record: ActivityView) -> RowView {
    RowView {
        id: record.id->0,
        description: record.description,
        timestamp: rfc3339(record.timestamp),
        date: record.date.iso_text(),
    }
}

/// What holds of every log: each record has an identifier, a description
/// that is not empty, a supported timestamp and an existing date, and the
/// identifiers are positive and grow along the log, so that none occurs twice.
pub open spec fn well_formed(log: Seq<ActivityView>) -> bool {
    &&& forall|i: int|
        0 <= i < log.len() ==> {
            &&& (#[trigger] log[i]).id is Some
            &&& log[i].id->0 >= 1
            &&& log[i].description.len() > 0
            &&& log[i].timestamp.wf()
            &&& log[i].date.wf()
        }
    &&& forall|i: int, j: int|
        0 <= i < j < log.len() ==> (#[trigger] log[i]).id->0 < (#[trigger] log[j]).id->0
}

/// The identifier that the next record of `log` gets.
pub open spec fn next_id(log: Seq<ActivityView>) -> int {
    if log.len() == 0 {
        1
    } else {
        log.last().id->0 + 1
    }
}

/// The record that appending `description` to `log` at the time `now` makes.
pub open spec fn appended(log: Seq<ActivityView>, description: Seq<char>, now: Timestamp)
    -> ActivityView {
    ActivityView {
        id: Some(next_id(log) as i64),
        description,
        timestamp: now,
        date: local_date(now),
    }
}

/// Whether a record can be appended to `log` at the time `now`: the time and
/// its date are supported, and an identifier is left.
pub open spec fn can_append(log: Seq<ActivityView>, now: Timestamp) -> bool {
    now.wf() && local_date(now).wf() && next_id(log) <= i64::MAX
}

/// The log that `rows` stand for, if every row can be decoded and the result
/// is a well-formed log.
pub open spec fn decoded_all(rows: Seq<RowView>) -> Option<Seq<ActivityView>> {
    let log = Seq::new(rows.len(), |i: int| decoded(rows[i])->0);
    if (forall|i: int| 0 <= i < rows.len() ==> decoded(#[trigger] rows[i]) is Some) && well_formed(
        log,
    ) {
        Some(log)
    } else {
        None
    }
}

/// The number of records of `log` that belong to `day`.
pub open spec fn count_for(log: Seq<ActivityView>, day: Day) -> nat
    decreases log.len(),
{
    if log.len() == 0 {
        0
    } else {
        let here: nat = if log.last().date == day {
            1
        } else {
            0
        };
        count_for(log.drop_last(), day) + here
    }
}

/// The order of a day's listing: by time, and by identifier, that is by
/// order of insertion, where two records carry the same time.
pub open spec fn comes_before(a: ActivityView, b: ActivityView) -> bool {
    a.timestamp.precedes(b.timestamp) || (!b.timestamp.precedes(a.timestamp) && a.id->0 < b.id->0)
}

/// `listing` holds exactly the records of `log` that belong to `day`, each
/// once, in ascending order.
pub open spec fn is_listing_for(log: Seq<ActivityView>, day: Day, listing: Seq<ActivityView>)
    -> bool {
    &&& forall|k: int|
        0 <= k < listing.len() ==> (#[trigger] listing[k]).date == day && log.contains(listing[k])
    &&& forall|i: int|
        0 <= i < log.len() && (#[trigger] log[i]).date == day ==> listing.contains(log[i])
    &&& forall|k: int, l: int|
        0 <= k < l < listing.len() ==> comes_before(#[trigger] listing[k], #[trigger] listing[l])
}

/// `found` is the latest record of `log` that belongs to `day`: none when
/// the day has no record, else the one that every other record of the day
/// comes before.
pub open spec fn is_last_for(log: Seq<ActivityView>, day: Day, found: Option<ActivityView>)
    -> bool {
    match found {
        None => forall|i: int| 0 <= i < log.len() ==> (#[trigger] log[i]).date != day,
        Some(last) => {
            &&& last.date == day
            &&& log.contains(last)
            &&& forall|i: int|
                0 <= i < log.len() && (#[trigger] log[i]).date == day ==> log[i] == last
                    || comes_before(log[i], last)
        },
    }
}

/// The view of an optional record.
pub open spec fn option_view(found: Option<Activity>) -> Option<ActivityView> {
    match found {
        Some(activity) => Some(activity@),
        None => None,
    }
}

/// In a well-formed log the record at position `k` has an identifier of at
/// least `k + 1`, so the log has no more records than there are identifiers.
pub proof fn lemma_len_bounded(log: Seq<ActivityView>)
    requires
        well_formed(log),
    ensures
        log.len() <= i64::MAX,
        forall|k: int| 0 <= k < log.len() ==> (#[trigger] log[k]).id->0 >= k + 1,
    decreases log.len(),
{
    if log.len() > 0 {
        let shorter = log.drop_last();
        assert forall|i: int, j: int| 0 <= i < j < shorter.len() implies (#[trigger] shorter[i]).id->0
            < (#[trigger] shorter[j]).id->0 by {
            assert(log[i].id->0 < log[j].id->0);
        }
        assert forall|i: int| 0 <= i < shorter.len() implies {
            &&& (#[trigger] shorter[i]).id is Some
            &&& shorter[i].id->0 >= 1
            &&& shorter[i].description.len() > 0
            &&& shorter[i].timestamp.wf()
            &&& shorter[i].date.wf()
        } by {
            assert(shorter[i] == log[i]);
        }
        lemma_len_bounded(shorter);
        assert forall|k: int| 0 <= k < log.len() implies (#[trigger] log[k]).id->0 >= k + 1 by {
            if k < shorter.len() {
                assert(shorter[k] == log[k]);
            } else if k > 0 {
                assert(shorter[k - 1].id->0 >= k);
                assert(log[k - 1].id->0 < log[k].id->0);
            }
        }
        assert(log[log.len() - 1].id->0 >= log.len());
    }
}

proof fn lemma_count_step(log: Seq<ActivityView>, i: int, day: Day)
    requires
        0 <= i < log.len(),
    ensures
        count_for(log.take(i + 1), day) == count_for(log.take(i), day) + if log[i].date == day {
            1nat
        } else {
            0nat
        },
        count_for(log.take(i), day) <= i,
    decreases i,
{
    assert(log.take(i + 1).drop_last() =~= log.take(i));
    assert(log.take(i + 1).last() == log[i]);
    if i > 0 {
        lemma_count_step(log, i - 1, day);
    }
}

fn record_before(a: &Activity, b: &Activity) -> (r: bool)
    requires
        a@.id is Some,
        b@.id is Some,
    ensures
        r == comes_before(a@, b@),
{
    if a.timestamp.is_before(&b.timestamp) {
        true
    } else if b.timestamp.is_before(&a.timestamp) {
        false
    } else {
        match (a.id, b.id) {
            (Some(x), Some(y)) => x < y,
            _ => false,
        }
    }
}

/// Reads a record from a row. The `timestamp` column (index 2) must hold an
/// RFC 3339 time and the `date` column (index 3) a `YYYY-MM-DD` date; the
/// first that does not is reported.
pub fn row_to_activity(row: &Row) -> (r: Result<Activity, InvalidColumn>)
    ensures
        match r {
            Ok(activity) => decoded(row@) == Some(activity@),
            Err(column) => if timestamp_of(row@.timestamp) is None {
                column.index == 2 && column.name@ == "timestamp"@
            } else {
                day_of(row@.date) is None && column.index == 3 && column.name@ == "date"@
            },
        },
{
    let timestamp: Timestamp = match parse_rfc3339(row.timestamp.as_str()) {
        Ok(ts) => ts,
        Err(_) => {
            return Err(InvalidColumn { index: 2, name: String::from_str("timestamp") });
        },
    };
    if !timestamp.is_valid() {
        return Err(InvalidColumn { index: 2, name: String::from_str("timestamp") });
    }
    let date: Day = match parse_day(row.date.as_str()) {
        Ok(day) => day,
        Err(_) => {
            return Err(InvalidColumn { index: 3, name: String::from_str("date") });
        },
    };
    if !date.is_valid() {
        return Err(InvalidColumn { index: 3, name: String::from_str("date") });
    }
    Ok(Activity { id: Some(row.id), description: row.description.clone(), timestamp, date })
}

/// The activity log.
#[derive(Debug)]
pub struct Database {
    rows: Vec<Activity>,
}

impl View for Database {
    type V = Seq<ActivityView>;

    closed spec fn view(&self) -> Seq<ActivityView> {
        views(self.rows@)
    }
}

impl Database {
    /// An empty log.
    pub fn new() -> (db: Database)
        ensures
            db@ == Seq::<ActivityView>::empty(),
            well_formed(db@),
    {
        let db = Database { rows: Vec::new() };
        assert(db@ =~= Seq::<ActivityView>::empty());
        db
    }

    /// The number of records in the log.
    pub fn len(&self) -> (n: usize)
        ensures
            n == self@.len(),
    {
        self.rows.len()
    }

    /// The log that `rows` stand for. It is unavailable when a row cannot be
    /// decoded or has an empty description, or when the identifiers are not
    /// positive and growing.
    pub fn from_rows(rows: &Vec<Row>) -> (r: Result<Database, StoreError>)
        ensures
            match r {
                Ok(db) => decoded_all(row_views(rows@)) == Some(db@) && well_formed(db@),
                Err(e) => e == StoreError::Unavailable && decoded_all(row_views(rows@)) is None,
            },
    {
        let ghost source = row_views(rows@);
        let ghost whole = Seq::new(source.len(), |i: int| decoded(source[i])->0);
        let mut out: Vec<Activity> = Vec::new();
        let mut previous: i64 = 0;
        let mut i: usize = 0;
        while i < rows.len()
            invariant
                0 <= i <= rows.len(),
                source == row_views(rows@),
                whole == Seq::new(source.len(), |k: int| decoded(source[k])->0),
                out@.len() == i,
                forall|k: int| 0 <= k < i ==> decoded(#[trigger] source[k]) is Some,
                forall|k: int| 0 <= k < i ==> (#[trigger] out@[k])@ == whole[k],
                well_formed(views(out@)),
                i == 0 ==> previous == 0,
                i > 0 ==> previous == whole[i - 1].id->0,
            decreases rows.len() - i,
        {
            let activity = match row_to_activity(&rows[i]) {
                Ok(activity) => activity,
                Err(_) => {
                    assert(decoded(source[i as int]) is None);
                    return Err(StoreError::Unavailable);
                },
            };
            assert(activity@ == whole[i as int]);
            if rows[i].description.as_str().is_empty() {
                assert(whole[i as int].description.len() == 0);
                assert(!well_formed(whole));
                return Err(StoreError::Unavailable);
            }
            if rows[i].id <= previous {
                proof {
                    if i > 0 {
                        assert(whole[i - 1].id->0 >= whole[i as int].id->0);
                    } else {
                        assert(whole[0].id->0 < 1);
                    }
                    assert(!well_formed(whole));
                }
                return Err(StoreError::Unavailable);
            }
            previous = rows[i].id;
            let ghost before = views(out@);
            out.push(activity);
            proof {
                let after = views(out@);
                assert(after =~= before.push(whole[i as int]));
                assert forall|a: int, b: int| 0 <= a < b < after.len() implies (#[trigger] after[a]).id->0
                    < (#[trigger] after[b]).id->0 by {
                    if b == i {
                        if a < i - 1 {
                            assert(before[a].id->0 < before[i - 1].id->0);
                        }
                    } else {
                        assert(before[a].id->0 < before[b].id->0);
                    }
                }
            }
            i = i + 1;
        }
        let db = Database { rows: out };
        assert(db@ =~= whole);
        Ok(db)
    }

    /// The rows that keep this log.
    pub fn to_rows(&self) -> (rows: Vec<Row>)
        requires
            well_formed(self@),
        ensures
            rows@.len() == self@.len(),
            forall|i: int| 0 <= i < rows@.len() ==> (#[trigger] rows@[i])@ == encoded(self@[i]),
    {
        let mut rows: Vec<Row> = Vec::new();
        let mut i: usize = 0;
        while i < self.rows.len()
            invariant
                0 <= i <= self.rows.len(),
                well_formed(self@),
                rows@.len() == i,
                forall|k: int| 0 <= k < i ==> (#[trigger] rows@[k])@ == encoded(self@[k]),
            decreases self.rows.len() - i,
        {
            let record = &self.rows[i];
            assert(self@[i as int] == record@);
            let id: i64 = match record.id {
                Some(id) => id,
                None => 0,
            };
            rows.push(
                Row {
                    id,
                    description: record.description.clone(),
                    timestamp: rfc3339_text(record.timestamp),
                    date: record.date.to_text(),
                },
            );
            i = i + 1;
        }
        rows
    }

    /// Appends a record that holds `description`, taken at the time `now`,
    /// and returns it. Its date is the local date of `now`; its identifier
    /// follows the last one of the log. The log is unavailable, and stays as
    /// it is, when `now` or its date is not supported or no identifier is left.
    pub fn add_activity_at(&mut self, description: String, now: Timestamp) -> (r: Result<
        Activity,
        StoreError,
    >)
        requires
            well_formed(old(self)@),
            description@.len() > 0,
        ensures
            well_formed(final(self)@),
            match r {
                Ok(activity) => {
                    &&& can_append(old(self)@, now)
                    &&& activity@ == appended(old(self)@, description@, now)
                    &&& final(self)@ == old(self)@.push(activity@)
                },
                Err(e) => {
                    &&& e == StoreError::Unavailable
                    &&& !can_append(old(self)@, now)
                    &&& final(self)@ == old(self)@
                },
            },
    {
        if !now.is_valid() {
            return Err(StoreError::Unavailable);
        }
        let date = date_of(now);
        if !date.is_valid() {
            return Err(StoreError::Unavailable);
        }
        let n: usize = self.rows.len();
        let id: i64 = if n == 0 {
            1
        } else {
            assert(self@[n - 1] == self.rows@[n - 1]@);
            let last: i64 = match self.rows[n - 1].id {
                Some(id) => id,
                None => 0,
            };
            if last == i64::MAX {
                return Err(StoreError::Unavailable);
            }
            last + 1
        };
        let activity = Activity { id: Some(id), description, timestamp: now, date };
        let copy = activity.duplicate();
        let ghost before = self@;
        self.rows.push(activity);
        proof {
            let after = self@;
            assert(after =~= before.push(copy@));
            assert forall|a: int, b: int| 0 <= a < b < after.len() implies (#[trigger] after[a]).id->0
                < (#[trigger] after[b]).id->0 by {
                if b == n {
                    if a < n - 1 {
                        assert(before[a].id->0 < before[n - 1].id->0);
                    }
                } else {
                    assert(before[a].id->0 < before[b].id->0);
                }
            }
        }
        Ok(copy)
    }

    /// Appends a record that holds `description`, taken now. The log is
    /// unavailable, and stays as it is, when the clock stands outside the
    /// supported years or no identifier is left.
    pub fn add_activity(&mut self, description: String) -> (r: Result<Activity, StoreError>)
        requires
            well_formed(old(self)@),
            description@.len() > 0,
        ensures
            well_formed(final(self)@),
            match r {
                Ok(activity) => {
                    &&& can_append(old(self)@, activity@.timestamp)
                    &&& activity@ == appended(old(self)@, description@, activity@.timestamp)
                    &&& final(self)@ == old(self)@.push(activity@)
                },
                Err(e) => e == StoreError::Unavailable && final(self)@ == old(self)@,
            },
    {
        match current_time() {
            Some(now) => self.add_activity_at(description, now),
            None => Err(StoreError::Unavailable),
        }
    }

    /// The number of records that belong to `day`.
    pub fn count_for_day(&self, day: Day) -> (n: i64)
        requires
            well_formed(self@),
        ensures
            n == count_for(self@, day),
    {
        let mut n: i64 = 0;
        let mut i: usize = 0;
        proof {
            lemma_len_bounded(self@);
        }
        while i < self.rows.len()
            invariant
                0 <= i <= self.rows.len(),
                self@.len() == self.rows.len(),
                self@.len() <= i64::MAX,
                n == count_for(self@.take(i as int), day),
                n <= i,
            decreases self.rows.len() - i,
        {
            proof {
                lemma_count_step(self@, i as int, day);
            }
            assert(self@[i as int] == self.rows@[i as int]@);
            if self.rows[i].date == day {
                n = n + 1;
            }
            i = i + 1;
        }
        assert(self@.take(i as int) =~= self@);
        n
    }

    /// The latest record that belongs to `day`, if the day has one. Where
    /// two records carry the same time, the one appended later is the later.
    pub fn last_for_day(&self, day: Day) -> (found: Option<Activity>)
        requires
            well_formed(self@),
        ensures
            is_last_for(self@, day, option_view(found)),
    {
        let mut best: Option<usize> = None;
        let mut i: usize = 0;
        while i < self.rows.len()
            invariant
                0 <= i <= self.rows.len(),
                self@.len() == self.rows.len(),
                well_formed(self@),
                match best {
                    None => forall|j: int| 0 <= j < i ==> (#[trigger] self@[j]).date != day,
                    Some(b) => {
                        &&& b < i
                        &&& self@[b as int].date == day
                        &&& forall|j: int|
                            0 <= j < i && (#[trigger] self@[j]).date == day ==> j == b
                                || comes_before(self@[j], self@[b as int])
                    },
                },
            decreases self.rows.len() - i,
        {
            assert(self@[i as int] == self.rows@[i as int]@);
            if self.rows[i].date == day {
                match best {
                    None => {
                        best = Some(i);
                    },
                    Some(b) => {
                        assert(self@[b as int] == self.rows@[b as int]@);
                        assert(self@[b as int].id->0 < self@[i as int].id->0);
                        if !record_before(&self.rows[i], &self.rows[b]) {
                            best = Some(i);
                        }
                    },
                }
            }
            i = i + 1;
        }
        match best {
            None => None,
            Some(b) => {
                assert(self@[b as int] == self.rows@[b as int]@);
                let found = self.rows[b].duplicate();
                assert(self@.contains(found@));
                Some(found)
            },
        }
    }

    /// The records that belong to `date`, in ascending order of time; where
    /// two carry the same time, the one appended first comes first.
    pub fn get_activities_for_date(&self, date: Day) -> (listing: Vec<Activity>)
        requires
            well_formed(self@),
        ensures
            is_listing_for(self@, date, views(listing@)),
            listing@.len() == count_for(self@, date),
    {
        let mut out: Vec<Activity> = Vec::new();
        let mut i: usize = 0;
        assert(is_listing_for(self@.take(0), date, views(out@)));
        while i < self.rows.len()
            invariant
                0 <= i <= self.rows.len(),
                self@.len() == self.rows.len(),
                well_formed(self@),
                is_listing_for(self@.take(i as int), date, views(out@)),
                out@.len() == count_for(self@.take(i as int), date),
            decreases self.rows.len() - i,
        {
            proof {
                lemma_count_step(self@, i as int, date);
            }
            assert(self@[i as int] == self.rows@[i as int]@);
            let ghost old_listing = views(out@);
            if self.rows[i].date == date {
                let mut p: usize = out.len();
                proof {
                    assert forall|k: int| 0 <= k < out@.len() implies (#[trigger] out@[k])@.id is Some
                        && out@[k]@.id->0 < self@[i as int].id->0 by {
                        lemma_member_is_earlier(self@, i as int, old_listing[k]);
                    }
                }
                while p > 0 && record_before(&self.rows[i], &out[p - 1])
                    invariant
                        0 <= p <= out@.len(),
                        i < self.rows.len(),
                        self@.len() == self.rows.len(),
                        self@[i as int] == self.rows@[i as int]@,
                        well_formed(self@),
                        forall|k: int|
                            0 <= k < out@.len() ==> (#[trigger] out@[k])@.id is Some
                                && out@[k]@.id->0 < self@[i as int].id->0,
                        forall|k: int|
                            p <= k < out@.len() ==> comes_before(
                                self@[i as int],
                                (#[trigger] out@[k])@,
                            ),
                    decreases p,
                {
                    p = p - 1;
                }
                let copy = self.rows[i].duplicate();
                out.insert(p, copy);
                proof {
                    let new_listing = views(out@);
                    assert(new_listing =~= old_listing.insert(p as int, self@[i as int]));
                    lemma_listing_insert(self@, i as int, date, old_listing, p as int);
                }
            } else {
                proof {
                    lemma_listing_skip(self@, i as int, date, old_listing);
                }
            }
            i = i + 1;
        }
        assert(self@.take(i as int) =~= self@);
        out
    }

    /// The latest record of today, if today has one. The log is unavailable
    /// when the clock stands outside the supported years.
    pub fn get_last_activity_today(&self) -> (r: Result<Option<Activity>, StoreError>)
        requires
            well_formed(self@),
        ensures
            match r {
                Ok(found) => exists|day: Day| #[trigger] is_last_for(self@, day, option_view(found)),
                Err(e) => e == StoreError::Unavailable,
            },
    {
        match today() {
            Some(day) => {
                let found = self.last_for_day(day);
                assert(is_last_for(self@, day, option_view(found)));
                Ok(found)
            },
            None => Err(StoreError::Unavailable),
        }
    }

    /// The number of records of today. The log is unavailable when the clock
    /// stands outside the supported years.
    pub fn count_activities_today(&self) -> (r: Result<i64, StoreError>)
        requires
            well_formed(self@),
        ensures
            match r {
                Ok(n) => exists|day: Day| n == #[trigger] count_for(self@, day),
                Err(e) => e == StoreError::Unavailable,
            },
    {
        match today() {
            Some(day) => {
                let n = self.count_for_day(day);
                assert(n == count_for(self@, day));
                Ok(n)
            },
            None => Err(StoreError::Unavailable),
        }
    }
}

proof fn lemma_member_is_earlier(log: Seq<ActivityView>, i: int, member: ActivityView)
    requires
        well_formed(log),
        0 <= i < log.len(),
        log.take(i).contains(member),
    ensures
        member.id is Some,
        member.id->0 < log[i].id->0,
{
    let j = choose|j: int| 0 <= j < log.take(i).len() && log.take(i)[j] == member;
    assert(log[j] == member);
    assert(log[j].id->0 < log[i].id->0);
}

proof fn lemma_listing_skip(log: Seq<ActivityView>, i: int, day: Day, listing: Seq<ActivityView>)
    requires
        0 <= i < log.len(),
        log[i].date != day,
        is_listing_for(log.take(i), day, listing),
    ensures
        is_listing_for(log.take(i + 1), day, listing),
{
    let shorter = log.take(i);
    let longer = log.take(i + 1);
    assert forall|k: int| 0 <= k < listing.len() implies (#[trigger] listing[k]).date == day
        && longer.contains(listing[k]) by {
        let j = choose|j: int| 0 <= j < shorter.len() && shorter[j] == listing[k];
        assert(longer[j] == listing[k]);
    }
    assert forall|j: int| 0 <= j < longer.len() && (#[trigger] longer[j]).date == day implies listing.contains(
        longer[j],
    ) by {
        assert(j < i);
        assert(shorter[j] == longer[j]);
    }
}

proof fn lemma_listing_insert(
    log: Seq<ActivityView>,
    i: int,
    day: Day,
    listing: Seq<ActivityView>,
    p: int,
)
    requires
        well_formed(log),
        0 <= i < log.len(),
        log[i].date == day,
        is_listing_for(log.take(i), day, listing),
        0 <= p <= listing.len(),
        forall|k: int| p <= k < listing.len() ==> comes_before(log[i], #[trigger] listing[k]),
        p > 0 ==> !comes_before(log[i], listing[p - 1]),
    ensures
        is_listing_for(log.take(i + 1), day, listing.insert(p, log[i])),
{
    let shorter = log.take(i);
    let longer = log.take(i + 1);
    let x = log[i];
    let grown = listing.insert(p, x);
    assert forall|k: int| 0 <= k < listing.len() implies (#[trigger] listing[k]).id->0 < x.id->0 by {
        lemma_member_is_earlier(log, i, listing[k]);
    }
    assert forall|k: int| 0 <= k < grown.len() implies (#[trigger] grown[k]).date == day
        && longer.contains(grown[k]) by {
        if k == p {
            assert(longer[i] == x);
        } else {
            let m = if k < p {
                k
            } else {
                k - 1
            };
            assert(grown[k] == listing[m]);
            let j = choose|j: int| 0 <= j < shorter.len() && shorter[j] == listing[m];
            assert(longer[j] == listing[m]);
        }
    }
    assert forall|j: int| 0 <= j < longer.len() && (#[trigger] longer[j]).date == day implies grown.contains(
        longer[j],
    ) by {
        if j == i {
            assert(grown[p] == x);
        } else {
            assert(shorter[j] == longer[j]);
            let m = choose|m: int| 0 <= m < listing.len() && listing[m] == shorter[j];
            if m < p {
                assert(grown[m] == listing[m]);
            } else {
                assert(grown[m + 1] == listing[m]);
            }
        }
    }
    assert forall|k: int, l: int| 0 <= k < l < grown.len() implies comes_before(
        #[trigger] grown[k],
        #[trigger] grown[l],
    ) by {
        if l == p {
            // grown[k] is listing[k] with k < p
            assert(grown[k] == listing[k]);
            if k < p - 1 {
                assert(comes_before(listing[k], listing[p - 1]));
            }
            assert(listing[p - 1].id->0 < x.id->0);
            assert(listing[k].id->0 < x.id->0);
        } else if k == p {
            assert(grown[l] == listing[l - 1]);
        } else {
            let a = if k < p {
                k
            } else {
                k - 1
            };
            let b = if l < p {
                l
            } else {
                l - 1
            };
            assert(grown[k] == listing[a]);
            assert(grown[l] == listing[b]);
        }
    }
}

/// Every record of `log` carries the local date of its own timestamp.
pub open spec fn dates_agree(log: Seq<ActivityView>) -> bool {
    forall|i: int| 0 <= i < log.len() ==> (#[trigger] log[i]).date == local_date(log[i].timestamp)
}

/// Appending adds exactly one record: the count of the record's own day
/// grows by one, and the count of every other day stays.
pub proof fn lemma_append_counts(log: Seq<ActivityView>, record: ActivityView, day: Day)
    ensures
        count_for(log.push(record), record.date) == count_for(log, record.date) + 1,
        day != record.date ==> count_for(log.push(record), day) == count_for(log, day),
{
    assert(log.push(record).drop_last() =~= log);
}

/// An appended record is the latest of its day unless an earlier record of
/// that day carries a later time; on a day without records it always is.
pub proof fn lemma_append_is_last(
    log: Seq<ActivityView>,
    description: Seq<char>,
    now: Timestamp,
)
    requires
        well_formed(log),
        can_append(log, now),
        forall|i: int|
            0 <= i < log.len() && (#[trigger] log[i]).date == local_date(now) ==> !now.precedes(
                log[i].timestamp,
            ),
    ensures
        is_last_for(
            log.push(appended(log, description, now)),
            local_date(now),
            Some(appended(log, description, now)),
        ),
{
    let record = appended(log, description, now);
    let longer = log.push(record);
    assert(longer[log.len() as int] == record);
    assert forall|i: int| 0 <= i < longer.len() && (#[trigger] longer[i]).date == local_date(
        now,
    ) implies longer[i] == record || comes_before(longer[i], record) by {
        if i < log.len() {
            assert(longer[i] == log[i]);
            if log.len() - 1 > i {
                assert(log[i].id->0 < log[log.len() - 1].id->0);
            }
        }
    }
}

/// Appending the same description twice makes two records, not one: the
/// second gets the next identifier, the log grows by two, and in the
/// listing of a day the first comes before the second whenever the clock
/// has not run backwards between them.
pub proof fn lemma_append_twice(
    log: Seq<ActivityView>,
    description: Seq<char>,
    first_time: Timestamp,
    second_time: Timestamp,
)
    requires
        well_formed(log),
        can_append(log, first_time),
        can_append(log.push(appended(log, description, first_time)), second_time),
        !second_time.precedes(first_time),
    ensures
        ({
            let first = appended(log, description, first_time);
            let second = appended(log.push(first), description, second_time);
            let twice = log.push(first).push(second);
            &&& first.id->0 + 1 == second.id->0
            &&& first != second
            &&& first.description == second.description
            &&& comes_before(first, second)
            &&& twice.len() == log.len() + 2
            &&& twice[log.len() as int] == first
            &&& twice[log.len() as int + 1] == second
            &&& local_date(first_time) == local_date(second_time) ==> count_for(
                twice,
                local_date(first_time),
            ) == count_for(log, local_date(first_time)) + 2
        }),
{
    let first = appended(log, description, first_time);
    let second = appended(log.push(first), description, second_time);
    lemma_append_counts(log, first, local_date(first_time));
    lemma_append_counts(log.push(first), second, local_date(second_time));
}

/// The empty log is one whose dates agree, appending keeps it so, and
/// whatever a listing of such a log returns carries the local date of its
/// own timestamp.
pub proof fn lemma_dates_agree(
    log: Seq<ActivityView>,
    description: Seq<char>,
    now: Timestamp,
    day: Day,
    listing: Seq<ActivityView>,
)
    ensures
        dates_agree(Seq::<ActivityView>::empty()),
        dates_agree(log) ==> dates_agree(log.push(appended(log, description, now))),
        dates_agree(log) && is_listing_for(log, day, listing) ==> forall|k: int|
            0 <= k < listing.len() ==> (#[trigger] listing[k]).date == local_date(
                listing[k].timestamp,
            ),
{
    if dates_agree(log) && is_listing_for(log, day, listing) {
        assert forall|k: int| 0 <= k < listing.len() implies (#[trigger] listing[k]).date
            == local_date(listing[k].timestamp) by {
            let j = choose|j: int| 0 <= j < log.len() && log[j] == listing[k];
            assert(log[j].date == local_date(log[j].timestamp));
        }
    }
}

/// The latest record of a day is the one that ends the day's listing.
pub proof fn lemma_last_ends_listing(log: Seq<ActivityView>, day: Day, listing: Seq<ActivityView>)
    requires
        well_formed(log),
        is_listing_for(log, day, listing),
    ensures
        listing.len() == 0 ==> is_last_for(log, day, None),
        listing.len() > 0 ==> is_last_for(log, day, Some(listing.last())),
{
    if listing.len() == 0 {
        assert forall|i: int| 0 <= i < log.len() implies (#[trigger] log[i]).date != day by {
            if log[i].date == day {
                assert(listing.contains(log[i]));
            }
        }
    } else {
        let last = listing.last();
        assert(listing[listing.len() - 1] == last);
        assert forall|i: int| 0 <= i < log.len() && (#[trigger] log[i]).date == day implies log[i]
            == last || comes_before(log[i], last) by {
            let m = choose|m: int| 0 <= m < listing.len() && listing[m] == log[i];
            if m < listing.len() - 1 {
                assert(comes_before(listing[m], listing[listing.len() - 1]));
            }
        }
    }
}

proof fn lemma_listings_agree_up_to(
    log: Seq<ActivityView>,
    day: Day,
    first: Seq<ActivityView>,
    second: Seq<ActivityView>,
    k: int,
)
    requires
        is_listing_for(log, day, first),
        is_listing_for(log, day, second),
        first.len() <= second.len(),
        0 <= k <= first.len(),
    ensures
        forall|m: int| 0 <= m < k ==> first[m] == second[m],
    decreases k,
{
    if k > 0 {
        lemma_listings_agree_up_to(log, day, first, second, k - 1);
        let at = k - 1;
        let x = first[at];
        let y = second[at];
        assert(log.contains(x));
        let ix = choose|i: int| 0 <= i < log.len() && log[i] == x;
        assert(second.contains(log[ix]));
        let j = choose|j: int| 0 <= j < second.len() && second[j] == x;
        assert(log.contains(y));
        let iy = choose|i: int| 0 <= i < log.len() && log[i] == y;
        assert(first.contains(log[iy]));
        let i = choose|i: int| 0 <= i < first.len() && first[i] == y;
        if j < at {
            assert(first[j] == second[j]);
            assert(comes_before(first[j], first[at]));
        } else if j > at {
            assert(comes_before(second[at], second[j]));
            if i < at {
                assert(first[i] == second[i]);
                assert(comes_before(second[i], second[at]));
            } else if i > at {
                assert(comes_before(first[at], first[i]));
            }
        }
    }
}

/// A day has one listing only: two sequences that both hold exactly the
/// day's records in ascending order are the same sequence.
pub proof fn lemma_listing_is_unique(
    log: Seq<ActivityView>,
    day: Day,
    first: Seq<ActivityView>,
    second: Seq<ActivityView>,
)
    requires
        is_listing_for(log, day, first),
        is_listing_for(log, day, second),
    ensures
        first == second,
{
    if first.len() <= second.len() {
        lemma_listings_agree_up_to(log, day, first, second, first.len() as int);
        if first.len() < second.len() {
            let extra = second[first.len() as int];
            assert(log.contains(extra));
            let ie = choose|i: int| 0 <= i < log.len() && log[i] == extra;
            assert(first.contains(log[ie]));
            let i = choose|i: int| 0 <= i < first.len() && first[i] == extra;
            assert(first[i] == second[i]);
            assert(comes_before(second[i], second[first.len() as int]));
        }
        assert(first =~= second);
    } else {
        lemma_listings_agree_up_to(log, day, second, first, second.len() as int);
        let extra = first[second.len() as int];
        assert(log.contains(extra));
        let ie = choose|i: int| 0 <= i < log.len() && log[i] == extra;
        assert(second.contains(log[ie]));
        let i = choose|i: int| 0 <= i < second.len() && second[i] == extra;
        assert(second[i] == first[i]);
        assert(comes_before(first[i], first[second.len() as int]));
    }
}

/// A day has one latest record only.
pub proof fn lemma_last_is_unique(
    log: Seq<ActivityView>,
    day: Day,
    first: Option<ActivityView>,
    second: Option<ActivityView>,
)
    requires
        is_last_for(log, day, first),
        is_last_for(log, day, second),
    ensures
        first == second,
{
    if first is Some {
        let a = first->0;
        let i = choose|i: int| 0 <= i < log.len() && log[i] == a;
        assert(log[i].date == day);
        if second is Some {
            let b = second->0;
            let j = choose|j: int| 0 <= j < log.len() && log[j] == b;
            assert(log[j].date == day);
            assert(log[i] == b || comes_before(log[i], b));
            assert(log[j] == a || comes_before(log[j], a));
        }
    } else if second is Some {
        let b = second->0;
        let j = choose|j: int| 0 <= j < log.len() && log[j] == b;
        assert(log[j].date == day);
    }
}

} // verus!
