//! The question planner: what one inquiry asks, and what each answer does
//! to the activity log.
//!
//! An inquiry starts from the log alone. On a day without records it asks an
//! open question; on a day with records it asks whether the latest activity
//! still goes on. It ends when a record has been appended or the inquiry is
//! cancelled.

use crate::clock::{local_date, now, today};
use crate::database::{
    appended, can_append, count_for, is_last_for, lemma_append_counts, lemma_append_is_last,
    option_view, well_formed, Database, StoreError,
};
use crate::models::{Activity, ActivityView, Day, Timestamp};
use crate::text::{trim, trimmed};
use vstd::prelude::*;
use vstd::string::*;

verus! {

/// The seconds that a window is given to close at the user's request.
pub const CLOSE_GRACE_SECS: u64 = 2;

/// The states of one inquiry.
#[derive(Clone, Copy, Debug, PartialEq, Eq, Structural)]
pub enum PlannerState {
    /// The open question is asked, and an answer in words is awaited.
    FirstQuestion,
    /// The latest activity is restated, and a yes or a no is awaited.
    ContinuationQuestion,
    /// The inquiry is over.
    Done,
}

/// What the planner asks next, given what the log says of today.
#[derive(Debug)]
pub enum Question {
    /// Ask what the user is doing.
    First,
    /// Ask whether the user is still doing this.
    Continuation(Activity),
}

pub enum QuestionView {
    First,
    Continuation(ActivityView),
}

impl View for Question {
    type V = QuestionView;

    open spec fn view(&self) -> QuestionView {
        match *self {
            Question::First => QuestionView::First,
            Question::Continuation(last) => QuestionView::Continuation(last@),
        }
    }
}

/// The open question.
pub open spec fn open_question() -> Seq<char> {
    "O que você está fazendo agora?"@
}

/// The question that restates an activity.
pub open spec fn continuation_question(description: Seq<char>) -> Seq<char> {
    "Você ainda está fazendo \""@ + description + "\"?"@
}

/// The message for an answer without words.
pub open spec fn empty_answer_message() -> Seq<char> {
    "Por favor, digite uma atividade."@
}

/// The message for an answer that was recorded.
pub open spec fn saved_message() -> Seq<char> {
    "Atividade salva com sucesso!"@
}

/// The message for an activity that was recorded as going on.
pub open spec fn continued_message() -> Seq<char> {
    "Atividade continuada registrada!"@
}

/// The message for an answer that the log could not take.
pub open spec fn save_error_message(cause: Seq<char>) -> Seq<char> {
    "Erro ao salvar: "@ + cause
}

/// The message for a yes or no that the log could not take.
pub open spec fn response_error_message(cause: Seq<char>) -> Seq<char> {
    "Erro: "@ + cause
}

/// The question for a day with `count` records, the latest of them `last`:
/// the open one on a day without records, and also where records are counted
/// but no latest is found; else the one that restates the latest.
pub open spec fn planned(count: int, last: Option<ActivityView>) -> QuestionView {
    if count == 0 {
        QuestionView::First
    } else {
        match last {
            Some(activity) => QuestionView::Continuation(activity),
            None => QuestionView::First,
        }
    }
}

/// Decides the question from what the log says of today.
pub fn plan_question(count: i64, last: Option<Activity>) -> (question: Question)
    ensures
        question@ == planned(count as int, option_view(last)),
{
    if count == 0 {
        Question::First
    } else {
        match last {
            Some(activity) => Question::Continuation(activity),
            None => Question::First,
        }
    }
}

/// The state of one inquiry, as mathematical values.
pub struct InquiryView {
    pub db: Seq<ActivityView>,
    pub current_input: Seq<char>,
    pub question_text: Seq<char>,
    pub is_first_question: bool,
    pub last_activity: Option<ActivityView>,
    pub message: Option<Seq<char>>,
    pub should_close: bool,
    pub close_requested: bool,
}

impl InquiryView {
    /// What holds of every inquiry: its log is well formed, and the activity
    /// that it restates has a description.
    pub open spec fn wf(self) -> bool {
        &&& well_formed(self.db)
        &&& self.last_activity matches Some(last) ==> last.description.len() > 0
    }

    /// The state of the planner that these values stand for.
    pub open spec fn state(self) -> PlannerState {
        if self.should_close {
            PlannerState::Done
        } else if self.is_first_question {
            PlannerState::FirstQuestion
        } else {
            PlannerState::ContinuationQuestion
        }
    }
}

/// What choosing the question for `today` makes of an inquiry: the open
/// question on a day without records, else the question that restates the
/// day's latest record, which is kept for the answer.
pub open spec fn asked(before: InquiryView, after: InquiryView, today: Day) -> bool {
    if count_for(before.db, today) == 0 {
        after == (InquiryView { is_first_question: true, question_text: open_question(), ..before })
    } else {
        &&& after.last_activity is Some
        &&& is_last_for(before.db, today, after.last_activity)
        &&& after == (InquiryView {
            is_first_question: false,
            question_text: continuation_question(after.last_activity->0.description),
            last_activity: after.last_activity,
            ..before
        })
    }
}

/// What an answer in words, given at the time `now`, makes of an inquiry.
/// The answer is the input without the white space at its ends. Without
/// words it is asked for again. Else it is appended to the log and the
/// inquiry is over, unless the log cannot take it: then nothing changes and
/// the error is returned.
pub open spec fn answered(
    before: InquiryView,
    after: InquiryView,
    now: Timestamp,
    result: Result<(), StoreError>,
) -> bool {
    let answer = trimmed(before.current_input);
    if answer.len() == 0 {
        &&& result is Ok
        &&& after == (InquiryView { message: Some(empty_answer_message()), ..before })
    } else if can_append(before.db, now) {
        &&& result is Ok
        &&& after == (InquiryView {
            db: before.db.push(appended(before.db, answer, now)),
            message: Some(saved_message()),
            current_input: Seq::empty(),
            should_close: true,
            ..before
        })
    } else {
        &&& result == Err::<(), StoreError>(StoreError::Unavailable)
        &&& after == before
    }
}

/// What a yes or a no, given at the time `now`, makes of an inquiry. A no
/// brings the open question back and appends nothing. A yes appends a new
/// record with the description of the restated activity, and the inquiry is
/// over, unless the log cannot take it: then nothing changes and the error
/// is returned.
pub open spec fn responded(
    before: InquiryView,
    after: InquiryView,
    is_yes: bool,
    now: Timestamp,
    result: Result<(), StoreError>,
) -> bool {
    if !is_yes {
        &&& result is Ok
        &&& after == (InquiryView {
            question_text: open_question(),
            is_first_question: true,
            ..before
        })
    } else {
        match before.last_activity {
            None => {
                &&& result is Ok
                &&& after == (InquiryView { should_close: true, ..before })
            },
            Some(last) => if can_append(before.db, now) {
                &&& result is Ok
                &&& after == (InquiryView {
                    db: before.db.push(appended(before.db, last.description, now)),
                    message: Some(continued_message()),
                    should_close: true,
                    ..before
                })
            } else {
                &&& result == Err::<(), StoreError>(StoreError::Unavailable)
                &&& after == before
            },
        }
    }
}

/// One inquiry: the log, the question on the screen, and what the user has
/// entered so far.
#[derive(Debug)]
pub struct InquiryApp {
    db: Database,
    current_input: String,
    question_text: String,
    is_first_question: bool,
    last_activity: Option<Activity>,
    message: Option<String>,
    should_close: bool,
    close_requested: bool,
}

/// The view of an optional text.
pub open spec fn text_view(text: Option<String>) -> Option<Seq<char>> {
    match text {
        Some(s) => Some(s@),
        None => None,
    }
}

impl View for InquiryApp {
    type V = InquiryView;

    closed spec fn view(&self) -> InquiryView {
        InquiryView {
            db: self.db@,
            current_input: self.current_input@,
            question_text: self.question_text@,
            is_first_question: self.is_first_question,
            last_activity: option_view(self.last_activity),
            message: text_view(self.message),
            should_close: self.should_close,
            close_requested: self.close_requested,
        }
    }
}

/// A day with records has a latest one.
proof fn lemma_counted_day_has_last(log: Seq<ActivityView>, day: Day)
    requires
        count_for(log, day) > 0,
    ensures
        !is_last_for(log, day, None),
    decreases log.len(),
{
    if log.len() > 0 {
        if log.last().date == day {
            assert(log[log.len() - 1].date == day);
        } else {
            lemma_counted_day_has_last(log.drop_last(), day);
            if is_last_for(log, day, None) {
                assert forall|i: int| 0 <= i < log.drop_last().len() implies (
                #[trigger] log.drop_last()[i]).date != day by {
                    assert(log[i].date != day);
                }
            }
        }
    }
}

impl InquiryApp {
    /// The inquiry before any question has been chosen.
    pub open spec fn fresh(db: Seq<ActivityView>) -> InquiryView {
        InquiryView {
            db,
            current_input: Seq::empty(),
            question_text: Seq::empty(),
            is_first_question: true,
            last_activity: None,
            message: None,
            should_close: false,
            close_requested: false,
        }
    }

    /// An inquiry over `db` whose question is chosen for the day `today`.
    pub fn new_on(db: Database, today: Day) -> (app: InquiryApp)
        requires
            well_formed(db@),
        ensures
            app@.wf(),
            asked(Self::fresh(db@), app@, today),
    {
        let mut app = InquiryApp {
            db,
            current_input: String::new(),
            question_text: String::new(),
            is_first_question: true,
            last_activity: None,
            message: None,
            should_close: false,
            close_requested: false,
        };
        app.setup_question_on(today);
        app
    }

    /// An inquiry over `db` whose question is chosen for today. The log is
    /// unavailable when the clock stands outside the supported years.
    pub fn new(db: Database) -> (r: Result<InquiryApp, StoreError>)
        requires
            well_formed(db@),
        ensures
            match r {
                Ok(app) => app@.wf() && exists|day: Day| #[trigger]
                    asked(Self::fresh(db@), app@, day),
                Err(e) => e == StoreError::Unavailable,
            },
    {
        match today() {
            Some(day) => {
                let app = Self::new_on(db, day);
                assert(asked(Self::fresh(db@), app@, day));
                Ok(app)
            },
            None => Err(StoreError::Unavailable),
        }
    }

    /// Chooses the question for the day `today` from the log.
    pub fn setup_question_on(&mut self, today: Day)
        requires
            old(self)@.wf(),
        ensures
            final(self)@.wf(),
            asked(old(self)@, final(self)@, today),
    {
        let count = self.db.count_for_day(today);
        let last = if count == 0 {
            None
        } else {
            proof {
                lemma_counted_day_has_last(self.db@, today);
            }
            self.db.last_for_day(today)
        };
        match plan_question(count, last) {
            Question::First => {
                self.is_first_question = true;
                self.question_text = String::from_str("O que você está fazendo agora?");
            },
            Question::Continuation(last_activity) => {
                self.is_first_question = false;
                let mut text = String::from_str("Você ainda está fazendo \"");
                text.append(last_activity.description.as_str());
                text.append("\"?");
                self.question_text = text;
                self.last_activity = Some(last_activity);
            },
        }
    }

    /// Chooses the question for today from the log. The log is unavailable,
    /// and nothing changes, when the clock stands outside the supported years.
    pub fn setup_question(&mut self) -> (r: Result<(), StoreError>)
        requires
            old(self)@.wf(),
        ensures
            final(self)@.wf(),
            match r {
                Ok(_) => exists|day: Day| #[trigger] asked(old(self)@, final(self)@, day),
                Err(e) => e == StoreError::Unavailable && final(self)@ == old(self)@,
            },
    {
        match today() {
            Some(day) => {
                self.setup_question_on(day);
                assert(asked(old(self)@, self@, day));
                Ok(())
            },
            None => Err(StoreError::Unavailable),
        }
    }

    /// Takes the answer in words that the user has entered, at the time `now`.
    pub fn save_activity_at(&mut self, now: Timestamp) -> (r: Result<(), StoreError>)
        requires
            old(self)@.wf(),
        ensures
            final(self)@.wf(),
            answered(old(self)@, final(self)@, now, r),
    {
        let answer = trim(self.current_input.as_str());
        if answer.is_empty() {
            self.message = Some(String::from_str("Por favor, digite uma atividade."));
            return Ok(());
        }
        let description = answer.to_owned();
        match self.db.add_activity_at(description, now) {
            Ok(_) => {},
            Err(e) => {
                return Err(e);
            },
        }
        self.message = Some(String::from_str("Atividade salva com sucesso!"));
        self.current_input = String::new();
        self.should_close = true;
        Ok(())
    }

    /// Takes the answer in words that the user has entered, at the time that
    /// the clock shows. An answer without words is asked for again, whatever
    /// the clock shows; one with words fails only where the log cannot take it.
    pub fn save_activity(&mut self) -> (r: Result<(), StoreError>)
        requires
            old(self)@.wf(),
        ensures
            final(self)@.wf(),
            exists|now: Timestamp| #[trigger] answered(old(self)@, final(self)@, now, r),
            trimmed(old(self)@.current_input).len() == 0 ==> {
                &&& r is Ok
                &&& final(self)@ == (InquiryView {
                    message: Some(empty_answer_message()),
                    ..old(self)@
                })
            },
            r matches Err(e) ==> e == StoreError::Unavailable && final(self)@ == old(self)@,
    {
        let now = now();
        let r = self.save_activity_at(now);
        assert(answered(old(self)@, self@, now, r));
        r
    }

    /// Takes the user's yes or no to the continuation question, at the time `now`.
    pub fn handle_yes_no_response_at(&mut self, is_yes: bool, now: Timestamp) -> (r: Result<
        (),
        StoreError,
    >)
        requires
            old(self)@.wf(),
        ensures
            final(self)@.wf(),
            responded(old(self)@, final(self)@, is_yes, now, r),
    {
        if is_yes {
            let description: Option<String> = match &self.last_activity {
                Some(last) => Some(last.description.clone()),
                None => None,
            };
            match description {
                Some(description) => {
                    match self.db.add_activity_at(description, now) {
                        Ok(_) => {},
                        Err(e) => {
                            return Err(e);
                        },
                    }
                    self.message = Some(String::from_str("Atividade continuada registrada!"));
                },
                None => {},
            }
        } else {
            self.question_text = String::from_str("O que você está fazendo agora?");
            self.is_first_question = true;
            return Ok(());
        }
        self.should_close = true;
        Ok(())
    }

    /// Takes the user's yes or no to the continuation question, at the time
    /// that the clock shows. A no brings the open question back, and a yes
    /// without a restated activity ends the inquiry, whatever the clock
    /// shows; a yes to a restated activity fails only where the log cannot
    /// take the new record.
    pub fn handle_yes_no_response(&mut self, is_yes: bool) -> (r: Result<(), StoreError>)
        requires
            old(self)@.wf(),
        ensures
            final(self)@.wf(),
            exists|now: Timestamp| #[trigger]
                responded(old(self)@, final(self)@, is_yes, now, r),
            !is_yes ==> {
                &&& r is Ok
                &&& final(self)@ == (InquiryView {
                    question_text: open_question(),
                    is_first_question: true,
                    ..old(self)@
                })
            },
            is_yes && old(self)@.last_activity is None ==> {
                &&& r is Ok
                &&& final(self)@ == (InquiryView { should_close: true, ..old(self)@ })
            },
            r matches Err(e) ==> e == StoreError::Unavailable && final(self)@ == old(self)@,
    {
        let now = now();
        let r = self.handle_yes_no_response_at(is_yes, now);
        assert(responded(old(self)@, self@, is_yes, now, r));
        r
    }

    /// Replaces what the user has entered.
    pub fn set_input(&mut self, text: String)
        ensures
            final(self)@ == (InquiryView { current_input: text@, ..old(self)@ }),
    {
        self.current_input = text;
    }

    /// Ends the inquiry at the user's request, without an answer.
    pub fn cancel(&mut self)
        ensures
            final(self)@ == (InquiryView { should_close: true, close_requested: true, ..old(self)@ }),
    {
        self.should_close = true;
        self.close_requested = true;
    }

    /// Shows that an answer in words could not be recorded, for the given cause.
    pub fn report_save_error(&mut self, cause: &str)
        ensures
            final(self)@ == (InquiryView {
                message: Some(save_error_message(cause@)),
                ..old(self)@
            }),
    {
        let mut text = String::from_str("Erro ao salvar: ");
        text.append(cause);
        self.message = Some(text);
    }

    /// Shows that a yes or no could not be recorded, for the given cause.
    pub fn report_response_error(&mut self, cause: &str)
        ensures
            final(self)@ == (InquiryView {
                message: Some(response_error_message(cause@)),
                ..old(self)@
            }),
    {
        let mut text = String::from_str("Erro: ");
        text.append(cause);
        self.message = Some(text);
    }

    /// Whether the window has to be closed by force: it has when the user
    /// asked to close it more than `CLOSE_GRACE_SECS` seconds ago.
    pub fn must_force_exit(&self, seconds_since_request: u64) -> (b: bool)
        ensures
            b == (self@.should_close && self@.close_requested && seconds_since_request
                > CLOSE_GRACE_SECS),
    {
        self.should_close && self.close_requested && seconds_since_request > CLOSE_GRACE_SECS
    }

    /// The state of the planner.
    pub fn state(&self) -> (state: PlannerState)
        ensures
            state == self@.state(),
    {
        if self.should_close {
            PlannerState::Done
        } else if self.is_first_question {
            PlannerState::FirstQuestion
        } else {
            PlannerState::ContinuationQuestion
        }
    }

    /// The log.
    pub fn db(&self) -> (db: &Database)
        ensures
            db@ == self@.db,
    {
        &self.db
    }

    /// The question on the screen.
    pub fn question_text(&self) -> (text: &String)
        ensures
            text@ == self@.question_text,
    {
        &self.question_text
    }

    /// What the user has entered.
    pub fn current_input(&self) -> (text: &String)
        ensures
            text@ == self@.current_input,
    {
        &self.current_input
    }

    /// Whether the open question is on the screen.
    pub fn is_first_question(&self) -> (b: bool)
        ensures
            b == self@.is_first_question,
    {
        self.is_first_question
    }

    /// The activity that the continuation question restates.
    pub fn last_activity(&self) -> (last: &Option<Activity>)
        ensures
            option_view(*last) == self@.last_activity,
    {
        &self.last_activity
    }

    /// The message on the screen.
    pub fn message(&self) -> (message: &Option<String>)
        ensures
            text_view(*message) == self@.message,
    {
        &self.message
    }

    /// Whether the inquiry is over.
    pub fn should_close(&self) -> (b: bool)
        ensures
            b == self@.should_close,
    {
        self.should_close
    }

    /// Whether the user has ended the inquiry without an answer.
    pub fn close_requested(&self) -> (b: bool)
        ensures
            b == self@.close_requested,
    {
        self.close_requested
    }
}

/// On a day without records the planner asks the open question. One answer
/// in words, once it has been taken, ends the inquiry and adds exactly one
/// record to that day: the day's latest, which holds the answer.
pub proof fn lemma_first_answer_is_recorded(
    db: Seq<ActivityView>,
    today: Day,
    ready: InquiryView,
    input: Seq<char>,
    now: Timestamp,
    done: InquiryView,
    result: Result<(), StoreError>,
)
    requires
        well_formed(db),
        count_for(db, today) == 0,
        asked(InquiryApp::fresh(db), ready, today),
        trimmed(input).len() > 0,
        local_date(now) == today,
        answered(InquiryView { current_input: input, ..ready }, done, now, result),
        result is Ok,
    ensures
        ready.state() == PlannerState::FirstQuestion,
        ready.question_text == open_question(),
        ready.db == db,
        done.state() == PlannerState::Done,
        done.db.len() == db.len() + 1,
        count_for(done.db, today) == count_for(db, today) + 1,
        done.db.last().description == trimmed(input),
        is_last_for(done.db, today, Some(done.db.last())),
{
    let record = appended(db, trimmed(input), now);
    lemma_append_counts(db, record, today);
    lemma_counted_day_is_not_empty(db, today);
    lemma_append_is_last(db, trimmed(input), now);
    assert(done.db.last() == record);
}

/// On a day with records the planner restates the day's latest record and
/// asks whether it still goes on. A yes at a later time, once it has been
/// taken, ends the inquiry and appends one new record with the same
/// description and that later time, which is then the day's latest. A no
/// brings the open question back and appends nothing.
pub proof fn lemma_continuation_is_recorded(
    db: Seq<ActivityView>,
    today: Day,
    ready: InquiryView,
    now: Timestamp,
    after_yes: InquiryView,
    yes_result: Result<(), StoreError>,
    after_no: InquiryView,
    no_result: Result<(), StoreError>,
)
    requires
        well_formed(db),
        count_for(db, today) > 0,
        asked(InquiryApp::fresh(db), ready, today),
        local_date(now) == today,
        ready.last_activity is Some ==> ready.last_activity->0.timestamp.precedes(now),
        responded(ready, after_yes, true, now, yes_result),
        yes_result is Ok,
        responded(ready, after_no, false, now, no_result),
    ensures
        ready.state() == PlannerState::ContinuationQuestion,
        ready.last_activity is Some,
        is_last_for(db, today, ready.last_activity),
        ready.question_text == continuation_question(ready.last_activity->0.description),
        after_yes.state() == PlannerState::Done,
        after_yes.db.len() == db.len() + 1,
        count_for(after_yes.db, today) == count_for(db, today) + 1,
        after_yes.db.last().description == ready.last_activity->0.description,
        after_yes.db.last().id != ready.last_activity->0.id,
        ready.last_activity->0.timestamp.precedes(after_yes.db.last().timestamp),
        is_last_for(after_yes.db, today, Some(after_yes.db.last())),
        no_result is Ok,
        after_no.state() == PlannerState::FirstQuestion,
        after_no.question_text == open_question(),
        after_no.db == db,
{
    let last = ready.last_activity->0;
    let record = appended(db, last.description, now);
    lemma_append_counts(db, record, today);
    assert forall|i: int| 0 <= i < db.len() && (#[trigger] db[i]).date == local_date(now) implies !now.precedes(
        db[i].timestamp,
    ) by {
        assert(db[i] == last || crate::database::comes_before(db[i], last));
    }
    lemma_append_is_last(db, last.description, now);
    assert(after_yes.db.last() == record);
    let j = choose|j: int| 0 <= j < db.len() && db[j] == last;
    if j < db.len() - 1 {
        assert(db[j].id->0 < db[db.len() - 1].id->0);
    }
}

/// A day without records has no record in the log.
proof fn lemma_counted_day_is_not_empty(log: Seq<ActivityView>, day: Day)
    requires
        count_for(log, day) == 0,
    ensures
        forall|i: int| 0 <= i < log.len() ==> (#[trigger] log[i]).date != day,
    decreases log.len(),
{
    if log.len() > 0 {
        lemma_counted_day_is_not_empty(log.drop_last(), day);
        assert forall|i: int| 0 <= i < log.len() implies (#[trigger] log[i]).date != day by {
            if i < log.len() - 1 {
                assert(log.drop_last()[i] == log[i]);
            }
        }
    }
}

} // verus!
