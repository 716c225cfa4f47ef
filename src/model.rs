//! What a conversion run emits and writes, as functions of the parsed rows and
//! the outcome of each resolution, with the laws that every run obeys.
use vstd::prelude::*;

use crate::event::{
    line_events, outcome_line, open_error_line, reading_line, saved_line, EventView, OutcomeView,
};
use crate::text::{is_header_token, trim_of};

verus! {

/// The DOI that a row asks to resolve: its first field, trimmed; none for a
/// malformed row, an empty field or the header token.
pub open spec fn candidate(row: Option<Seq<char>>) -> Option<Seq<char>> {
    match row {
        None => None,
        Some(f) => {
            let d = trim_of(f);
            if d.len() == 0 || is_header_token(d) {
                None
            } else {
                Some(d)
            }
        },
    }
}

/// The events of the row at `index`, given the outcome its DOI would get.
pub open spec fn row_events(index: nat, row: Option<Seq<char>>, o: OutcomeView) -> Seq<EventView> {
    seq![EventView::Progress(index + 1)] + match candidate(row) {
        Some(d) => line_events(outcome_line(d, o)),
        None => seq![],
    }
}

/// The events of the first `k` rows.
pub open spec fn rows_events(rows: Seq<Option<Seq<char>>>, outs: Seq<OutcomeView>, k: nat) -> Seq<
    EventView,
>
    decreases k,
{
    if k == 0 {
        seq![]
    } else {
        rows_events(rows, outs, (k - 1) as nat) + row_events(
            (k - 1) as nat,
            rows[k - 1],
            outs[k - 1],
        )
    }
}

/// The bibliography entry, if any, that a row contributes.
pub open spec fn row_entry(row: Option<Seq<char>>, o: OutcomeView) -> Seq<Seq<char>> {
    match (candidate(row), o) {
        (Some(_), OutcomeView::Success(t)) => seq![t],
        _ => seq![],
    }
}

/// The bibliography entries of the first `k` rows, in row order.
pub open spec fn rows_entries(rows: Seq<Option<Seq<char>>>, outs: Seq<OutcomeView>, k: nat) -> Seq<
    Seq<char>,
>
    decreases k,
{
    if k == 0 {
        seq![]
    } else {
        rows_entries(rows, outs, (k - 1) as nat) + row_entry(rows[k - 1], outs[k - 1])
    }
}

/// The text of the output file: each entry trimmed and followed by a blank line.
pub open spec fn bib_text(entries: Seq<Seq<char>>) -> Seq<char>
    decreases entries.len(),
{
    if entries.len() == 0 {
        seq![]
    } else {
        bib_text(entries.drop_last()) + trim_of(entries.last()) + "\n\n"@
    }
}

pub open spec fn saved_events(saved: bool) -> Seq<EventView> {
    if saved {
        seq![EventView::Log(saved_line())]
    } else {
        seq![]
    }
}

/// The events after the input was read: the total, each row's events, the
/// save report where the output file could be created, and the end.
pub open spec fn conversion_events(
    rows: Seq<Option<Seq<char>>>,
    outs: Seq<OutcomeView>,
    saved: bool,
) -> Seq<EventView> {
    seq![EventView::Total(rows.len())] + rows_events(rows, outs, rows.len()) + saved_events(saved)
        + seq![EventView::Finished]
}

/// Every event of a run whose input was read.
pub open spec fn run_events(
    path: Seq<char>,
    rows: Seq<Option<Seq<char>>>,
    outs: Seq<OutcomeView>,
    saved: bool,
) -> Seq<EventView> {
    seq![EventView::Log(reading_line(path))] + conversion_events(rows, outs, saved)
}

/// Every event of a run whose input could not be opened.
pub open spec fn aborted_run_events(path: Seq<char>, err: Seq<char>) -> Seq<EventView> {
    seq![
        EventView::Log(reading_line(path)),
        EventView::Log(open_error_line(err)),
        EventView::Finished,
    ]
}

/// The counts carried by the progress events of `ev`, in order.
pub open spec fn progress_values(ev: Seq<EventView>) -> Seq<nat>
    decreases ev.len(),
{
    if ev.len() == 0 {
        seq![]
    } else {
        progress_values(ev.drop_last()) + match ev.last() {
            EventView::Progress(n) => seq![n],
            _ => seq![],
        }
    }
}

/// The counts carried by the total events of `ev`, in order.
pub open spec fn total_values(ev: Seq<EventView>) -> Seq<nat>
    decreases ev.len(),
{
    if ev.len() == 0 {
        seq![]
    } else {
        total_values(ev.drop_last()) + match ev.last() {
            EventView::Total(n) => seq![n],
            _ => seq![],
        }
    }
}

proof fn lemma_values_concat(a: Seq<EventView>, b: Seq<EventView>)
    ensures
        progress_values(a + b) == progress_values(a) + progress_values(b),
        total_values(a + b) == total_values(a) + total_values(b),
    decreases b.len(),
{
    if b.len() == 0 {
        assert(a + b =~= a);
        assert(progress_values(a) + progress_values(b) =~= progress_values(a));
        assert(total_values(a) + total_values(b) =~= total_values(a));
    } else {
        assert((a + b).drop_last() =~= a + b.drop_last());
        assert((a + b).last() == b.last());
        lemma_values_concat(a, b.drop_last());
        assert(progress_values(a + b) =~= progress_values(a) + progress_values(b));
        assert(total_values(a + b) =~= total_values(a) + total_values(b));
    }
}

proof fn lemma_values_single(e: EventView)
    ensures
        progress_values(seq![e]) == match e {
            EventView::Progress(n) => seq![n],
            _ => Seq::<nat>::empty(),
        },
        total_values(seq![e]) == match e {
            EventView::Total(n) => seq![n],
            _ => Seq::<nat>::empty(),
        },
{
    assert(seq![e].drop_last() =~= Seq::<EventView>::empty());
    assert(progress_values(seq![e]) =~= progress_values(Seq::<EventView>::empty()) + match e {
        EventView::Progress(n) => seq![n],
        _ => Seq::<nat>::empty(),
    });
    assert(total_values(seq![e]) =~= total_values(Seq::<EventView>::empty()) + match e {
        EventView::Total(n) => seq![n],
        _ => Seq::<nat>::empty(),
    });
}

proof fn lemma_row_values(index: nat, row: Option<Seq<char>>, o: OutcomeView)
    ensures
        progress_values(row_events(index, row, o)) == seq![index + 1],
        total_values(row_events(index, row, o)) == Seq::<nat>::empty(),
{
    let tail = match candidate(row) {
        Some(d) => line_events(outcome_line(d, o)),
        None => seq![],
    };
    lemma_values_concat(seq![EventView::Progress(index + 1)], tail);
    lemma_values_single(EventView::Progress(index + 1));
    if tail.len() > 0 {
        assert(tail =~= seq![tail[0]]);
        lemma_values_single(tail[0]);
    } else {
        assert(tail =~= Seq::<EventView>::empty());
    }
    assert(progress_values(row_events(index, row, o)) =~= seq![index + 1]);
    assert(total_values(row_events(index, row, o)) =~= Seq::<nat>::empty());
}

proof fn lemma_rows_values(rows: Seq<Option<Seq<char>>>, outs: Seq<OutcomeView>, k: nat)
    ensures
        progress_values(rows_events(rows, outs, k)) == Seq::new(k, |i: int| (i + 1) as nat),
        total_values(rows_events(rows, outs, k)) == Seq::<nat>::empty(),
    decreases k,
{
    if k == 0 {
        assert(progress_values(rows_events(rows, outs, k)) =~= Seq::new(k, |i: int| (i + 1) as nat));
    } else {
        let j = (k - 1) as nat;
        lemma_rows_values(rows, outs, j);
        lemma_values_concat(rows_events(rows, outs, j), row_events(j, rows[j as int], outs[j as int]));
        lemma_row_values(j, rows[j as int], outs[j as int]);
        assert(progress_values(rows_events(rows, outs, k)) =~= Seq::new(k, |i: int| (i + 1) as nat));
        assert(total_values(rows_events(rows, outs, k)) =~= Seq::<nat>::empty());
    }
}

/// A run reports one total, the number of parsed rows (well formed or not),
/// and one progress event per row, counting 1, 2, ... up to that total.
pub proof fn law_progress_counts(
    path: Seq<char>,
    rows: Seq<Option<Seq<char>>>,
    outs: Seq<OutcomeView>,
    saved: bool,
)
    requires
        outs.len() == rows.len(),
    ensures
        total_values(run_events(path, rows, outs, saved)) == seq![rows.len()],
        progress_values(run_events(path, rows, outs, saved)) == Seq::new(
            rows.len(),
            |i: int| (i + 1) as nat,
        ),
{
    let n = rows.len();
    let head = seq![EventView::Log(reading_line(path)), EventView::Total(n)];
    let body = rows_events(rows, outs, n);
    let tail = saved_events(saved) + seq![EventView::Finished];
    assert(run_events(path, rows, outs, saved) =~= head + body + tail);
    lemma_values_concat(head + body, tail);
    lemma_values_concat(head, body);
    lemma_rows_values(rows, outs, n);
    assert(head =~= seq![EventView::Log(reading_line(path))] + seq![EventView::Total(n)]);
    lemma_values_concat(seq![EventView::Log(reading_line(path))], seq![EventView::Total(n)]);
    lemma_values_single(EventView::Log(reading_line(path)));
    lemma_values_single(EventView::Total(n));
    lemma_values_concat(saved_events(saved), seq![EventView::Finished]);
    lemma_values_single(EventView::Finished);
    if saved {
        lemma_values_single(EventView::Log(saved_line()));
    } else {
        assert(saved_events(saved) =~= Seq::<EventView>::empty());
    }
    assert(total_values(run_events(path, rows, outs, saved)) =~= seq![n]);
    assert(progress_values(run_events(path, rows, outs, saved)) =~= Seq::new(
        n,
        |i: int| (i + 1) as nat,
    ));
}

/// A run whose input cannot be opened reports neither a total nor any progress.
pub proof fn law_aborted_run_counts(path: Seq<char>, err: Seq<char>)
    ensures
        total_values(aborted_run_events(path, err)) == Seq::<nat>::empty(),
        progress_values(aborted_run_events(path, err)) == Seq::<nat>::empty(),
{
    let a = EventView::Log(reading_line(path));
    let b = EventView::Log(open_error_line(err));
    assert(aborted_run_events(path, err) =~= seq![a] + seq![b] + seq![EventView::Finished]);
    lemma_values_concat(seq![a] + seq![b], seq![EventView::Finished]);
    lemma_values_concat(seq![a], seq![b]);
    lemma_values_single(a);
    lemma_values_single(b);
    lemma_values_single(EventView::Finished);
    assert(total_values(aborted_run_events(path, err)) =~= Seq::<nat>::empty());
    assert(progress_values(aborted_run_events(path, err)) =~= Seq::<nat>::empty());
}

proof fn lemma_rows_unfinished(rows: Seq<Option<Seq<char>>>, outs: Seq<OutcomeView>, k: nat)
    ensures
        forall|i: int|
            0 <= i < rows_events(rows, outs, k).len() ==> !(#[trigger] rows_events(
                rows,
                outs,
                k,
            )[i] is Finished),
    decreases k,
{
    if k > 0 {
        lemma_rows_unfinished(rows, outs, (k - 1) as nat);
    }
}

/// The end event closes every run, once, whether or not its input could be opened.
pub proof fn law_finished_last(
    path: Seq<char>,
    rows: Seq<Option<Seq<char>>>,
    outs: Seq<OutcomeView>,
    saved: bool,
    err: Seq<char>,
)
    ensures
        run_events(path, rows, outs, saved).last() is Finished,
        forall|i: int|
            0 <= i < run_events(path, rows, outs, saved).len() - 1 ==> !(#[trigger] run_events(
                path,
                rows,
                outs,
                saved,
            )[i] is Finished),
        aborted_run_events(path, err).last() is Finished,
        forall|i: int|
            0 <= i < aborted_run_events(path, err).len() - 1 ==> !(
            #[trigger] aborted_run_events(path, err)[i] is Finished),
{
    let ev = run_events(path, rows, outs, saved);
    let body = rows_events(rows, outs, rows.len());
    lemma_rows_unfinished(rows, outs, rows.len());
    assert forall|i: int| 0 <= i < ev.len() - 1 implies !(#[trigger] ev[i] is Finished) by {
        if 2 <= i < 2 + body.len() {
            assert(ev[i] == body[i - 2]);
        }
    }
}

pub(crate) proof fn lemma_rows_frame(
    rows: Seq<Option<Seq<char>>>,
    a: Seq<OutcomeView>,
    b: Seq<OutcomeView>,
    k: nat,
)
    requires
        k <= a.len(),
        k <= b.len(),
        forall|i: int| 0 <= i < k && candidate(rows[i]) is Some ==> a[i] == b[i],
    ensures
        rows_events(rows, a, k) == rows_events(rows, b, k),
        rows_entries(rows, a, k) == rows_entries(rows, b, k),
    decreases k,
{
    if k > 0 {
        let j = (k - 1) as nat;
        lemma_rows_frame(rows, a, b, j);
        if candidate(rows[j as int]) is Some {
            assert(a[j as int] == b[j as int]);
        }
    }
}

/// Two runs over the same rows whose resolutions come out alike emit the same
/// events and write the same bibliography text: the outcomes of rows that are
/// skipped play no part.
pub proof fn law_same_outcomes_same_run(
    rows: Seq<Option<Seq<char>>>,
    a: Seq<OutcomeView>,
    b: Seq<OutcomeView>,
    saved: bool,
)
    requires
        a.len() == rows.len(),
        b.len() == rows.len(),
        forall|i: int| 0 <= i < rows.len() && candidate(rows[i]) is Some ==> a[i] == b[i],
    ensures
        conversion_events(rows, a, saved) == conversion_events(rows, b, saved),
        bib_text(rows_entries(rows, a, rows.len())) == bib_text(rows_entries(rows, b, rows.len())),
{
    lemma_rows_frame(rows, a, b, rows.len());
}

/// A row that names no DOI adds its progress event and nothing else: no log
/// line, no entry, whatever outcome is set against it.
pub proof fn law_skipped_row(rows: Seq<Option<Seq<char>>>, outs: Seq<OutcomeView>, i: nat)
    requires
        i < rows.len(),
        outs.len() == rows.len(),
        candidate(rows[i as int]) is None,
    ensures
        rows_events(rows, outs, i + 1) == rows_events(rows, outs, i) + seq![
            EventView::Progress(i + 1),
        ],
        rows_entries(rows, outs, i + 1) == rows_entries(rows, outs, i),
{
    assert(rows_events(rows, outs, i + 1) =~= rows_events(rows, outs, i) + seq![
        EventView::Progress(i + 1),
    ]);
    assert(rows_entries(rows, outs, i + 1) =~= rows_entries(rows, outs, i));
}

} // verus!
