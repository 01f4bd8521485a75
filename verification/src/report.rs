//! Reports: the records that a sink receives, and how much of them it is
//! shown.

use vstd::prelude::*;
use vstd::string::*;
use crate::assertion::{Assertion, AssertionView, Operand};
use crate::render::Render;

verus! {

/// How much a report shows.
#[derive(Clone, Copy, Debug, PartialEq, Eq, Structural)]
pub enum Verbosity {
    /// Failures only.
    Quiet,
    /// Every assertion.
    Normal,
    /// Every assertion, and of a failure where the observed value departs
    /// from the expected one, if the domain told.
    Verbose,
}

/// How a session reports. It is set when the session starts and read
/// after, never changed.
#[derive(Clone, Copy, Debug, PartialEq, Eq, Structural)]
pub struct LogSettings {
    /// How much the report shows.
    pub verbosity: Verbosity,
    /// Whether the sink may use colours. The records do not depend on it.
    pub color: bool,
}

/// One assertion as a sink receives it.
#[derive(Debug)]
pub struct RenderRecord {
    /// The words that name the predicate.
    pub predicate_label: String,
    /// The expected operand, as text.
    pub expected_repr: String,
    /// The observed value, as text.
    pub actual_repr: String,
    /// Whether the assertion passed.
    pub passed: bool,
    /// Where the observed value departs from the expected one, if known.
    pub diff: Option<String>,
}

/// A record as a mathematical value.
pub ghost struct RecordView {
    pub predicate_label: Seq<char>,
    pub expected_repr: Seq<char>,
    pub actual_repr: Seq<char>,
    pub passed: bool,
    pub diff: Option<Seq<char>>,
}

impl View for RenderRecord {
    type V = RecordView;

    open spec fn view(&self) -> RecordView {
        RecordView {
            predicate_label: self.predicate_label@,
            expected_repr: self.expected_repr@,
            actual_repr: self.actual_repr@,
            passed: self.passed,
            diff: match self.diff {
                Some(text) => Some(text@),
                None => None,
            },
        }
    }
}

impl Clone for RenderRecord {
    fn clone(&self) -> (copy: Self)
        ensures
            copy@ == self@,
    {
        RenderRecord {
            predicate_label: self.predicate_label.clone(),
            expected_repr: self.expected_repr.clone(),
            actual_repr: self.actual_repr.clone(),
            passed: self.passed,
            diff: match &self.diff {
                Some(text) => Some(text.clone()),
                None => None,
            },
        }
    }
}

/// A trace as a mathematical value.
pub open spec fn trace_view(trace: Seq<RenderRecord>) -> Seq<RecordView> {
    trace.map_values(|record: RenderRecord| record@)
}

/// How a report shows an expected operand: one value as it reads, two
/// bounds between brackets.
pub open spec fn operand_text<T: Render>(operand: Operand<T::V>) -> Seq<char> {
    match operand {
        Operand::Single(value) => T::text(value),
        Operand::Bounds(low, high) => "["@ + T::text(low) + ", "@ + T::text(high) + "]"@,
    }
}

/// How a report shows an observed value, or the lack of one.
pub open spec fn actual_text<T: Render>(actual: Option<T::V>) -> Seq<char> {
    match actual {
        Some(value) => T::text(value),
        None => "nothing readable"@,
    }
}

/// The record of an assertion.
pub open spec fn record_of<T: Render>(assertion: AssertionView<T::V>) -> RecordView {
    RecordView {
        predicate_label: assertion.predicate.label_text(),
        expected_repr: operand_text::<T>(assertion.expected),
        actual_repr: actual_text::<T>(assertion.actual),
        passed: assertion.passed,
        diff: assertion.diff,
    }
}

/// Whether a report of this verbosity shows the record.
pub open spec fn shown(record: RecordView, verbosity: Verbosity) -> bool {
    verbosity == Verbosity::Quiet ==> !record.passed
}

/// The record as a report of this verbosity shows it, if it does: whole
/// under [`Verbosity::Verbose`], without its diff otherwise.
pub open spec fn presented(record: RecordView, verbosity: Verbosity) -> Option<RecordView> {
    if !shown(record, verbosity) {
        None
    } else if verbosity == Verbosity::Verbose {
        Some(record)
    } else {
        Some(RecordView { diff: None, ..record })
    }
}

/// What a report of this verbosity shows of a trace: the records that it
/// shows, in the order of the trace.
pub open spec fn reported(trace: Seq<RecordView>, verbosity: Verbosity) -> Seq<RecordView> {
    trace.filter_map(|record: RecordView| presented(record, verbosity))
}

/// A report can be made as the records come: what it shows of a trace
/// with one more record is what it showed before, followed by that record
/// if it shows it.
pub proof fn lemma_report_follows_trace(
    trace: Seq<RecordView>,
    record: RecordView,
    verbosity: Verbosity,
)
    ensures
        reported(trace.push(record), verbosity) == reported(trace, verbosity) + (match presented(
            record,
            verbosity,
        ) {
            Some(seen) => seq![seen],
            None => Seq::empty(),
        }),
{
    let longer = trace.push(record);
    assert(longer.drop_last() =~= trace);
    assert(longer.last() == record);
    if presented(record, verbosity) is None {
        assert(reported(trace, verbosity) + Seq::<RecordView>::empty() =~= reported(
            trace,
            verbosity,
        ));
    }
}

/// Unless it is quiet, a report shows one record for every record of the
/// trace, in the same order; a quiet one shows failures only.
pub proof fn lemma_report_shows_in_order(trace: Seq<RecordView>, verbosity: Verbosity)
    ensures
        verbosity != Verbosity::Quiet ==> {
            &&& reported(trace, verbosity).len() == trace.len()
            &&& forall|i: int|
                0 <= i < trace.len() ==> Some(#[trigger] reported(trace, verbosity)[i])
                    == presented(trace[i], verbosity)
        },
        verbosity == Verbosity::Quiet ==> forall|i: int|
            0 <= i < reported(trace, verbosity).len() ==> !(#[trigger] reported(
                trace,
                verbosity,
            )[i]).passed,
    decreases trace.len(),
{
    if trace.len() > 0 {
        let earlier = trace.drop_last();
        lemma_report_shows_in_order(earlier, verbosity);
        assert(earlier.push(trace.last()) =~= trace);
        lemma_report_follows_trace(earlier, trace.last(), verbosity);
    }
}

/// Whether every assertion of the trace passed.
pub open spec fn all_passed(trace: Seq<RecordView>) -> bool {
    forall|i: int| 0 <= i < trace.len() ==> (#[trigger] trace[i]).passed
}

/// Turns assertions into records, and shows of them what the settings ask
/// for.
#[derive(Clone, Copy, Debug)]
pub struct Reporter {
    settings: LogSettings,
}

impl Reporter {
    /// The settings that the reporter works under.
    pub closed spec fn settings_of(&self) -> LogSettings {
        self.settings
    }

    /// A reporter that works under `settings`.
    pub fn new(settings: LogSettings) -> (reporter: Reporter)
        ensures
            reporter.settings_of() == settings,
    {
        Reporter { settings }
    }

    /// Returns the settings that the reporter works under.
    pub fn settings(&self) -> (settings: LogSettings)
        ensures
            settings == self.settings_of(),
    {
        self.settings
    }

    /// Makes the record of an assertion. The record is whole: it does not
    /// depend on the settings.
    pub fn record<T: Render>(assertion: &Assertion<T>) -> (record: RenderRecord)
        ensures
            record@ == record_of::<T>(assertion@),
    {
        let expected_repr = match assertion.expected() {
            Operand::Single(value) => value.render(),
            Operand::Bounds(low, high) => {
                let mut text = "[".to_owned();
                let low_text = low.render();
                let high_text = high.render();
                text.append(low_text.as_str());
                text.append(", ");
                text.append(high_text.as_str());
                text.append("]");
                text
            },
        };
        let actual_repr = match assertion.actual() {
            Some(value) => value.render(),
            None => "nothing readable".to_owned(),
        };
        let diff = match assertion.diff() {
            Some(text) => Some(text.clone()),
            None => None,
        };
        RenderRecord {
            predicate_label: assertion.predicate().label().to_owned(),
            expected_repr,
            actual_repr,
            passed: assertion.passed(),
            diff,
        }
    }

    /// Returns the record as the report shows it, if it does.
    pub fn present(&self, record: &RenderRecord) -> (outcome: Option<RenderRecord>)
        ensures
            outcome.is_some() == presented(record@, self.settings_of().verbosity).is_some(),
            outcome matches Some(seen) ==> Some(seen@) == presented(
                record@,
                self.settings_of().verbosity,
            ),
    {
        match self.settings.verbosity {
            Verbosity::Quiet => {
                if record.passed {
                    None
                } else {
                    let mut seen = record.clone();
                    seen.diff = None;
                    Some(seen)
                }
            },
            Verbosity::Normal => {
                let mut seen = record.clone();
                seen.diff = None;
                Some(seen)
            },
            Verbosity::Verbose => Some(record.clone()),
        }
    }

    /// Returns what the report shows of a trace.
    pub fn report(&self, trace: &Vec<RenderRecord>) -> (seen: Vec<RenderRecord>)
        ensures
            trace_view(seen@) == reported(trace_view(trace@), self.settings_of().verbosity),
    {
        let ghost verbosity = self.settings.verbosity;
        let ghost all = trace_view(trace@);
        let ghost choice = |record: RecordView| presented(record, verbosity);
        let mut seen: Vec<RenderRecord> = Vec::new();
        let mut index: usize = 0;
        proof {
            assert(all.take(0) =~= Seq::<RecordView>::empty());
            assert(trace_view(seen@) =~= all.take(0).filter_map(choice));
        }
        while index < trace.len()
            invariant
                index <= trace.len(),
                verbosity == self.settings_of().verbosity,
                all == trace_view(trace@),
                choice == (|record: RecordView| presented(record, verbosity)),
                trace_view(seen@) == all.take(index as int).filter_map(choice),
            decreases trace.len() - index,
        {
            let ghost before = trace_view(seen@);
            proof {
                all.lemma_filter_map_take_succ(choice, index as int);
                assert(all[index as int] == trace@[index as int]@);
            }
            match self.present(&trace[index]) {
                Some(record) => {
                    seen.push(record);
                    proof {
                        assert(trace_view(seen@) =~= before + seq![record@]);
                    }
                },
                None => {},
            }
            index += 1;
        }
        proof {
            assert(all.take(index as int) =~= all);
        }
        seen
    }

    /// Whether every assertion of a trace passed.
    pub fn verdict(trace: &Vec<RenderRecord>) -> (passed: bool)
        ensures
            passed == all_passed(trace_view(trace@)),
    {
        let mut index: usize = 0;
        while index < trace.len()
            invariant
                index <= trace.len(),
                forall|i: int| 0 <= i < index ==> (#[trigger] trace_view(trace@)[i]).passed,
            decreases trace.len() - index,
        {
            if !trace[index].passed {
                assert(!trace_view(trace@)[index as int].passed);
                return false;
            }
            index += 1;
        }
        true
    }
}

} // verus!
