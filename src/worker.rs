//! The conversion worker as a state machine. A driver feeds it the input's
//! bytes, asks it for each row in turn, resolves the DOI it names, hands the
//! outcome back, and finally writes the bibliography text it assembled. Every
//! step returns the progress events to send.
use vstd::prelude::*;

use crate::event::{
    line_events, opt_message_view, outcome_line, outcome_message, EventView, FetchOutcome, OutcomeView, WorkerMessage,
};
use crate::model::{
    bib_text, candidate, conversion_events,
    rows_entries, rows_events, saved_events,
};
use crate::text::{is_header, trim};

verus! {

/// The first field of each record that csv reads from `data` without a
/// header row, in order; none for a record that failed to parse.
pub uninterp spec fn csv_first_fields(data: Seq<u8>) -> Seq<Option<Seq<char>>>;

pub open spec fn opt_view(s: Option<String>) -> Option<Seq<char>> {
    match s {
        Some(t) => Some(t@),
        None => None,
    }
}

pub open spec fn rows_view(rows: Seq<Option<String>>) -> Seq<Option<Seq<char>>> {
    rows.map_values(|r: Option<String>| opt_view(r))
}

pub open spec fn messages_view(ms: Seq<WorkerMessage>) -> Seq<EventView> {
    ms.map_values(|m: WorkerMessage| m@)
}

/// Relies on csv's `ReaderBuilder` (with `has_headers(false)`) and its
/// `records` iterator: one item per record of `data`, in order, each the
/// record's first field, or none where the record is an error.
#[verifier::external_body]
fn read_first_fields(data: &[u8]) -> (r: Vec<Option<String>>)
    ensures
        rows_view(r@) == csv_first_fields(data@),
{
    let mut reader = csv::ReaderBuilder::new().has_headers(false).from_reader(data);
    reader.records().map(|rec| rec.ok().and_then(|rec| rec.get(0).map(String::from))).collect()
}

/// The DOI that a row whose first field is `field` asks to resolve.
pub fn doi_candidate(field: &str) -> (r: Option<String>)
    ensures
        opt_view(r) == candidate(Some(field@)),
{
    let d = trim(field);
    if d.as_str().unicode_len() == 0 || is_header(d.as_str()) {
        None
    } else {
        Some(d)
    }
}

/// One row taken by the worker: the progress event to send, and the DOI to
/// resolve, if the row names one.
#[derive(Debug)]
pub struct RowStep {
    pub progress: WorkerMessage,
    pub doi: Option<String>,
}

/// The state of a conversion.
pub ghost struct ConversionView {
    /// The first field of each parsed row; none for a malformed row.
    pub rows: Seq<Option<Seq<char>>>,
    /// How many rows have been taken.
    pub next: nat,
    /// The DOI of the last row taken, while its outcome is awaited.
    pub pending: Option<Seq<char>>,
    /// One outcome per settled row; any value for a skipped row.
    pub outcomes: Seq<OutcomeView>,
    /// The bibliography entries gathered so far.
    pub entries: Seq<Seq<char>>,
    /// Every event returned so far, the total included.
    pub emitted: Seq<EventView>,
    pub finished: bool,
}

pub struct Conversion {
    rows: Vec<Option<String>>,
    next: usize,
    pending: Option<String>,
    entries: Vec<String>,
    outcomes: Ghost<Seq<OutcomeView>>,
    emitted: Ghost<Seq<EventView>>,
    finished: bool,
}

/// The relations that hold between the parts of a conversion's state.
pub open spec fn consistent(v: ConversionView) -> bool {
    &&& v.next <= v.rows.len()
    &&& v.pending is Some ==> v.next >= 1 && candidate(v.rows[v.next - 1]) == v.pending
    &&& v.outcomes.len() == if v.pending is Some {
        v.next - 1
    } else {
        v.next as int
    }
    &&& v.entries == rows_entries(v.rows, v.outcomes, v.outcomes.len())
    &&& !v.finished ==> v.emitted == seq![EventView::Total(v.rows.len())] + rows_events(
        v.rows,
        v.outcomes,
        v.outcomes.len(),
    ) + if v.pending is Some {
        seq![EventView::Progress(v.next)]
    } else {
        Seq::<EventView>::empty()
    }
    &&& v.finished ==> v.next == v.rows.len() && v.pending is None
}

impl View for Conversion {
    type V = ConversionView;

    closed spec fn view(&self) -> ConversionView {
        ConversionView {
            rows: rows_view(self.rows@),
            next: self.next as nat,
            pending: opt_view(self.pending),
            outcomes: self.outcomes@,
            entries: self.entries@.map_values(|s: String| s@),
            emitted: self.emitted@,
            finished: self.finished,
        }
    }
}

impl Conversion {
    pub open spec fn wf(&self) -> bool {
        consistent(self@)
    }

    /// Parses `data` as comma-separated rows, none of them a header by position.
    pub fn new(data: &[u8]) -> (r: Conversion)
        ensures
            r.wf(),
            r@.rows == csv_first_fields(data@),
            r@.next == 0,
            r@.pending is None,
            r@.outcomes == Seq::<OutcomeView>::empty(),
            r@.entries == Seq::<Seq<char>>::empty(),
            r@.emitted == seq![EventView::Total(r@.rows.len())],
            !r@.finished,
    {
        let rows = read_first_fields(data);
        let ghost first = seq![EventView::Total(rows@.len() as nat)];
        let r = Conversion {
            rows,
            next: 0,
            pending: None,
            entries: Vec::new(),
            outcomes: Ghost(Seq::empty()),
            emitted: Ghost(first),
            finished: false,
        };
        assert(r@.entries =~= Seq::<Seq<char>>::empty());
        assert(r@.emitted =~= seq![EventView::Total(r@.rows.len())] + rows_events(
            r@.rows,
            r@.outcomes,
            0,
        ) + Seq::<EventView>::empty());
        r
    }

    /// The event that announces how many rows the run will take.
    pub fn total_message(&self) -> (r: WorkerMessage)
        ensures
            r@ == EventView::Total(self@.rows.len()),
    {
        WorkerMessage::Total(self.rows.len())
    }

    /// Takes the next row: its progress event, and the DOI it asks to
    /// resolve, which then awaits its outcome. None once every row is taken.
    pub fn advance(&mut self) -> (r: Option<RowStep>)
        requires
            old(self).wf(),
            old(self)@.pending is None,
            !old(self)@.finished,
        ensures
            final(self).wf(),
            final(self)@.rows == old(self)@.rows,
            final(self)@.entries == old(self)@.entries,
            !final(self)@.finished,
            old(self)@.next == old(self)@.rows.len() ==> r is None && final(self)@ == old(self)@,
            old(self)@.next < old(self)@.rows.len() ==> (r matches Some(step) && {
                &&& step.progress@ == EventView::Progress(old(self)@.next + 1)
                &&& opt_view(step.doi) == candidate(old(self)@.rows[old(self)@.next as int])
                &&& final(self)@.next == old(self)@.next + 1
                &&& final(self)@.pending == opt_view(step.doi)
                &&& final(self)@.emitted == old(self)@.emitted.push(step.progress@)
                &&& step.doi is Some ==> final(self)@.outcomes == old(self)@.outcomes
                &&& step.doi is None ==> final(self)@.outcomes.drop_last() == old(self)@.outcomes
                    && final(self)@.outcomes.len() == old(self)@.outcomes.len() + 1
            }),
    {
        if self.next >= self.rows.len() {
            return None;
        }
        let i = self.next;
        let doi = match &self.rows[i] {
            Some(f) => doi_candidate(f.as_str()),
            None => None,
        };
        self.next = i + 1;
        let progress = WorkerMessage::Progress(i + 1);
        let ghost old_outs = self.outcomes@;
        let ghost rows = self@.rows;
        assert(rows[i as int] == opt_view(self.rows@[i as int]));
        match &doi {
            Some(d) => {
                self.pending = Some(d.clone());
            },
            None => {
                proof {
                    let outs = old_outs.push(OutcomeView::TransportError);
                    crate::model::lemma_rows_frame(rows, old_outs, outs, i as nat);
                    assert(rows_events(rows, outs, (i + 1) as nat) =~= rows_events(
                        rows,
                        old_outs,
                        i as nat,
                    ) + seq![EventView::Progress((i + 1) as nat)]);
                    assert(rows_entries(rows, outs, (i + 1) as nat) =~= rows_entries(
                        rows,
                        old_outs,
                        i as nat,
                    ));
                }
                self.outcomes = Ghost(old_outs.push(OutcomeView::TransportError));
            },
        }
        self.emitted = Ghost(self.emitted@.push(progress@));
        assert(self@.emitted =~= seq![EventView::Total(self@.rows.len())] + rows_events(
            self@.rows,
            self@.outcomes,
            self@.outcomes.len(),
        ) + if self@.pending is Some {
            seq![EventView::Progress(self@.next)]
        } else {
            Seq::<EventView>::empty()
        });
        Some(RowStep { progress, doi })
    }

    /// Records the outcome of resolving the awaited DOI: a successful body
    /// joins the entries, and the log event that reports it, if any, is returned.
    pub fn settle(&mut self, outcome: FetchOutcome) -> (r: Option<WorkerMessage>)
        requires
            old(self).wf(),
            old(self)@.pending is Some,
            !old(self)@.finished,
        ensures
            final(self).wf(),
            final(self)@.rows == old(self)@.rows,
            final(self)@.next == old(self)@.next,
            final(self)@.pending is None,
            !final(self)@.finished,
            final(self)@.outcomes == old(self)@.outcomes.push(outcome@),
            opt_message_view(r) == line_events(outcome_line(old(self)@.pending->0, outcome@)),
            final(self)@.emitted == old(self)@.emitted + opt_message_view(r),
            final(self)@.entries == old(self)@.entries + match outcome@ {
                OutcomeView::Success(t) => seq![t],
                _ => Seq::<Seq<char>>::empty(),
            },
    {
        let ghost o = outcome@;
        let ghost old_view = self@;
        let doi = match &self.pending {
            Some(d) => d.clone(),
            None => String::new(),
        };
        let r = outcome_message(doi.as_str(), &outcome);
        match outcome {
            FetchOutcome::Success(t) => {
                self.entries.push(t);
            },
            _ => {},
        }
        self.pending = None;
        proof {
            let rows = old_view.rows;
            let k = old_view.outcomes.len();
            let outs = old_view.outcomes.push(o);
            crate::model::lemma_rows_frame(rows, old_view.outcomes, outs, k);
            assert(self@.entries =~= old_view.entries + match o {
                OutcomeView::Success(t) => seq![t],
                _ => Seq::<Seq<char>>::empty(),
            });
            assert(rows_entries(rows, outs, k + 1) =~= self@.entries);
            assert(rows_events(rows, outs, k + 1) =~= rows_events(rows, old_view.outcomes, k)
                + seq![EventView::Progress(k + 1)] + opt_message_view(r));
        }
        self.outcomes = Ghost(self.outcomes@.push(o));
        self.emitted = Ghost(self.emitted@ + opt_message_view(r));
        assert(self@.emitted =~= seq![EventView::Total(self@.rows.len())] + rows_events(
            self@.rows,
            self@.outcomes,
            self@.outcomes.len(),
        ) + Seq::<EventView>::empty());
        r
    }

    /// The text of the output file: each entry gathered so far, trimmed and
    /// followed by a blank line.
    pub fn output_text(&self) -> (r: String)
        ensures
            r@ == bib_text(self@.entries),
    {
        let mut out = String::new();
        let mut i: usize = 0;
        while i < self.entries.len()
            invariant
                i <= self@.entries.len(),
                self@.entries.len() == self.entries@.len(),
                out@ == bib_text(self@.entries.take(i as int)),
            decreases self.entries.len() - i,
        {
            let t = trim(self.entries[i].as_str());
            out.append(t.as_str());
            out.append("\n\n");
            proof {
                let e = self@.entries;
                assert(e.take(i + 1).drop_last() =~= e.take(i as int));
                assert(e[i as int] == self.entries@[i as int]@);
            }
            i = i + 1;
        }
        assert(self@.entries.take(i as int) =~= self@.entries);
        out
    }

    /// Ends the run once every row is settled: the save report, where the
    /// output file could be written, then the end event.
    pub fn finish(&mut self, saved: bool) -> (r: Vec<WorkerMessage>)
        requires
            old(self).wf(),
            old(self)@.next == old(self)@.rows.len(),
            old(self)@.pending is None,
            !old(self)@.finished,
        ensures
            final(self).wf(),
            final(self)@.finished,
            final(self)@.rows == old(self)@.rows,
            final(self)@.outcomes == old(self)@.outcomes,
            final(self)@.entries == old(self)@.entries,
            messages_view(r@) == saved_events(saved) + seq![EventView::Finished],
            final(self)@.emitted == old(self)@.emitted + messages_view(r@),
            final(self)@.emitted == conversion_events(old(self)@.rows, old(self)@.outcomes, saved),
    {
        let mut r: Vec<WorkerMessage> = Vec::new();
        if saved {
            r.push(WorkerMessage::Log(String::from_str("Saved to 'references.bib'")));
        }
        r.push(WorkerMessage::Finished);
        assert(messages_view(r@) =~= saved_events(saved) + seq![EventView::Finished]);
        self.emitted = Ghost(self.emitted@ + messages_view(r@));
        self.finished = true;
        assert(self@.emitted =~= conversion_events(self@.rows, self@.outcomes, saved));
        r
    }
}

} // verus!
