//! A session: the assertions made on one observed response, in the order
//! in which they were made.

use vstd::prelude::*;
use crate::assertion::Assertion;
use crate::document::{Body, Document, DocumentView};
use crate::dsl::http::{HeadersDsl, JsonBodyDsl, StatusCodeDsl, TimeDsl};
use crate::dsl::Expression;
use crate::headers::Headers;
use crate::report::{
    all_passed, record_of, reported, trace_view, LogSettings, RecordView, RenderRecord, Reporter,
};
use crate::status_code::StatusCode;

verus! {

/// What was observed of a response.
#[derive(Debug)]
pub struct Response {
    /// The status code.
    pub status: StatusCode,
    /// The headers, in the order in which they came.
    pub headers: Headers,
    /// The body, read as a document where it could be.
    pub body: Body,
    /// The time that the response took, in milliseconds.
    pub elapsed_ms: u64,
}

/// An observed response as a mathematical value.
pub ghost struct ResponseView {
    pub status: u16,
    pub headers: Seq<(Seq<char>, Seq<char>)>,
    pub body: Option<DocumentView>,
    pub elapsed_ms: u64,
}

impl View for Response {
    type V = ResponseView;

    open spec fn view(&self) -> ResponseView {
        ResponseView {
            status: self.status@,
            headers: self.headers@,
            body: self.body@,
            elapsed_ms: self.elapsed_ms,
        }
    }
}

/// A session as a mathematical value.
pub ghost struct SessionView {
    /// The observed response.
    pub response: ResponseView,
    /// The settings that the session reports under.
    pub settings: LogSettings,
    /// The records of the assertions made so far, the first one first.
    pub trace: Seq<RecordView>,
    /// Whether every assertion made so far passed.
    pub passed: bool,
}

impl SessionView {
    /// The session after one more assertion: its record stands at the end
    /// of the trace, whether it passed or not, and the session still passes
    /// only if it did before and the assertion passed.
    pub open spec fn after(self, record: RecordView) -> SessionView {
        SessionView {
            trace: self.trace.push(record),
            passed: self.passed && record.passed,
            ..self
        }
    }

    /// The session after several more assertions, made in the order of
    /// `records`.
    pub open spec fn after_all(self, records: Seq<RecordView>) -> SessionView
        decreases records.len(),
    {
        if records.len() == 0 {
            self
        } else {
            self.after_all(records.drop_last()).after(records.last())
        }
    }
}

/// A session keeps the order in which assertions are made on it: after
/// any number of them, passing or failing, the trace is the trace from
/// before followed by their records in that order, one record each, and
/// the session passes only if it did before and every one of them passed.
pub proof fn lemma_trace_keeps_call_order(session: SessionView, records: Seq<RecordView>)
    ensures
        session.after_all(records).trace == session.trace + records,
        session.after_all(records).trace.len() == session.trace.len() + records.len(),
        session.after_all(records).passed == (session.passed && all_passed(records)),
        session.after_all(records).response == session.response,
        session.after_all(records).settings == session.settings,
    decreases records.len(),
{
    if records.len() == 0 {
        assert(session.trace + records =~= session.trace);
    } else {
        let earlier = records.drop_last();
        lemma_trace_keeps_call_order(session, earlier);
        assert(session.trace + records =~= (session.trace + earlier).push(records.last()));
        if all_passed(records) {
            assert forall|i: int| 0 <= i < earlier.len() implies (#[trigger] earlier[i]).passed by {
                assert(records[i].passed);
            }
            assert(records[records.len() - 1].passed);
        }
        if all_passed(earlier) && records.last().passed {
            assert forall|i: int| 0 <= i < records.len() implies (#[trigger] records[i]).passed by {
                if i < earlier.len() {
                    assert(earlier[i].passed);
                }
            }
        }
    }
}

/// A session that starts with an empty trace passes, after any number of
/// assertions, exactly when every record of its trace passed.
pub proof fn lemma_session_passes_with_all(records: Seq<RecordView>, session: SessionView)
    requires
        session.trace.len() == 0,
        session.passed,
    ensures
        session.after_all(records).passed == all_passed(session.after_all(records).trace),
{
    lemma_trace_keeps_call_order(session, records);
    assert(session.trace + records =~= records);
}

/// A session that is open: assertions can still be made on its response.
/// Concluding it consumes it, so that none can be made after.
#[derive(Debug)]
pub struct Session {
    response: Response,
    settings: LogSettings,
    trace: Vec<RenderRecord>,
    passed: bool,
}

impl View for Session {
    type V = SessionView;

    closed spec fn view(&self) -> SessionView {
        SessionView {
            response: self.response@,
            settings: self.settings,
            trace: trace_view(self.trace@),
            passed: self.passed,
        }
    }
}

/// What a concluded session leaves: whether every assertion passed, the
/// record of every assertion, and what the report shows of them.
#[derive(Debug)]
pub struct Conclusion {
    passed: bool,
    trace: Vec<RenderRecord>,
    reported: Vec<RenderRecord>,
}

/// A conclusion as a mathematical value.
pub ghost struct ConclusionView {
    pub passed: bool,
    pub trace: Seq<RecordView>,
    pub reported: Seq<RecordView>,
}

impl View for Conclusion {
    type V = ConclusionView;

    closed spec fn view(&self) -> ConclusionView {
        ConclusionView {
            passed: self.passed,
            trace: trace_view(self.trace@),
            reported: trace_view(self.reported@),
        }
    }
}

impl Conclusion {
    /// Whether every assertion of the session passed.
    pub fn passed(&self) -> (passed: bool)
        ensures
            passed == self@.passed,
    {
        self.passed
    }

    /// Returns the record of every assertion, the first one first.
    pub fn trace(&self) -> (trace: &Vec<RenderRecord>)
        ensures
            trace_view(trace@) == self@.trace,
    {
        &self.trace
    }

    /// Returns what the report shows, the first record first.
    pub fn reported(&self) -> (seen: &Vec<RenderRecord>)
        ensures
            trace_view(seen@) == self@.reported,
    {
        &self.reported
    }
}

impl Session {
    #[verifier::type_invariant]
    spec fn coherent(self) -> bool {
        self.passed == all_passed(trace_view(self.trace@))
    }

    /// Opens a session on an observed response. No assertion has been
    /// made yet, so the session passes.
    pub fn new(response: Response, settings: LogSettings) -> (session: Session)
        ensures
            session@ == (SessionView {
                response: response@,
                settings,
                trace: Seq::empty(),
                passed: true,
            }),
    {
        let session = Session { response, settings, trace: Vec::new(), passed: true };
        assert(session@.trace =~= Seq::<RecordView>::empty());
        session
    }

    /// Whether every assertion made so far passed.
    pub fn passed(&self) -> (passed: bool)
        ensures
            passed == self@.passed,
            passed == all_passed(self@.trace),
    {
        proof {
            use_type_invariant(self);
        }
        self.passed
    }

    /// Returns the records of the assertions made so far, the first one
    /// first.
    pub fn trace(&self) -> (trace: &Vec<RenderRecord>)
        ensures
            trace_view(trace@) == self@.trace,
    {
        &self.trace
    }

    /// Returns the observed response.
    pub fn response(&self) -> (response: &Response)
        ensures
            response@ == self@.response,
    {
        &self.response
    }

    /// Puts the record of one more assertion at the end of the trace.
    fn with_record(self, record: RenderRecord) -> (next: Session)
        ensures
            next@ == self@.after(record@),
    {
        proof {
            use_type_invariant(&self);
        }
        let ghost before = self@;
        let Session { response, settings, trace, passed } = self;
        let mut trace = trace;
        let passed = passed && record.passed;
        trace.push(record);
        proof {
            let longer = trace_view(trace@);
            assert(longer =~= before.trace.push(record@));
            if all_passed(longer) {
                assert forall|i: int| 0 <= i < before.trace.len() implies (
                #[trigger] before.trace[i]).passed by {
                    assert(longer[i].passed);
                }
                assert(longer[before.trace.len() as int].passed);
            }
        }
        Session { response, settings, trace, passed }
    }

    /// Asserts on the status code of the response.
    pub fn status<E>(self, expression: Expression<E>) -> (next: Session) where
        E: StatusCodeDsl<StatusCode, Assertion = Assertion<u16>>,

        requires
            E::supports(expression.predicate_of()),
        ensures
            next@ == self@.after(
                record_of::<u16>(
                    expression.value_of().evaluated(
                        self@.response.status,
                        expression.predicate_of(),
                    ),
                ),
            ),
    {
        let (predicate, expected) = expression.into_parts();
        let assertion = expected.eval(self.response.status, predicate);
        let record = Reporter::record(&assertion);
        self.with_record(record)
    }

    /// Asserts on the headers of the response.
    pub fn headers<E>(self, expression: Expression<E>) -> (next: Session) where
        E: HeadersDsl<Headers, Assertion = Assertion<Headers>>,

        requires
            E::supports(expression.predicate_of()),
        ensures
            next@ == self@.after(
                record_of::<Headers>(
                    expression.value_of().evaluated(
                        self@.response.headers,
                        expression.predicate_of(),
                    ),
                ),
            ),
    {
        let (predicate, expected) = expression.into_parts();
        let assertion = expected.eval(self.response.headers.clone(), predicate);
        let record = Reporter::record(&assertion);
        self.with_record(record)
    }

    /// Asserts on the body of the response.
    pub fn json_body<E>(self, expression: Expression<E>) -> (next: Session) where
        E: JsonBodyDsl<Body, Assertion = Assertion<Document>>,

        requires
            E::supports(expression.predicate_of()),
        ensures
            exists|outcome: crate::assertion::AssertionView<DocumentView>|
                {
                    &&& #[trigger] expression.value_of().yields(
                        self@.response.body,
                        expression.predicate_of(),
                        outcome,
                    )
                    &&& next@ == self@.after(record_of::<Document>(outcome))
                },
    {
        let (predicate, expected) = expression.into_parts();
        let assertion = expected.eval(self.response.body.clone(), predicate);
        let record = Reporter::record(&assertion);
        self.with_record(record)
    }

    /// Asserts on the time that the response took.
    pub fn response_time<E>(self, expression: Expression<E>) -> (next: Session) where
        E: TimeDsl<u64, Assertion = Assertion<u64>>,

        requires
            E::supports(expression.predicate_of()),
        ensures
            next@ == self@.after(
                record_of::<u64>(
                    expression.value_of().evaluated(
                        self@.response.elapsed_ms,
                        expression.predicate_of(),
                    ),
                ),
            ),
    {
        let (predicate, expected) = expression.into_parts();
        let assertion = expected.eval(self.response.elapsed_ms, predicate);
        let record = Reporter::record(&assertion);
        self.with_record(record)
    }

    /// Concludes the session. The conclusion holds the record of every
    /// assertion, in the order in which they were made, and passes only if
    /// every one of them passed.
    pub fn conclude(self) -> (conclusion: Conclusion)
        ensures
            conclusion@.trace == self@.trace,
            conclusion@.passed == self@.passed,
            conclusion@.passed == all_passed(self@.trace),
            conclusion@.reported == reported(self@.trace, self@.settings.verbosity),
    {
        proof {
            use_type_invariant(&self);
        }
        let Session { response, settings, trace, passed } = self;
        let seen = Reporter::new(settings).report(&trace);
        Conclusion { passed, trace, reported: seen }
    }
}

} // verus!
