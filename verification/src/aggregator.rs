//! The consumer's side of the queue: what becomes of one line that has
//! arrived, and what a whole run prints of the lines that arrive.

use crate::filters::{FilterDecision, Filters};
use crate::logline::LogLine;
use crate::reader::{Reader, ReaderEvent};
use crate::stats::{accepted_in, bumped_by, excluded_in, Stats};
use vstd::prelude::*;
use vstd::string::StringExecFns;

verus! {

/// What the consumer does with a line that it has taken from the queue.
#[derive(Debug)]
pub enum ConsumeAction {
    /// Shutdown was requested: stop consuming and leave the queue as it is.
    Stop,
    /// Print this text, then take the next line.
    Emit(String),
    /// Print nothing, and take the next line.
    Skip,
}

/// The text printed for a kept line: the source in square brackets, a space,
/// and the line as it was read.
pub open spec fn emitted_text(source: Seq<char>, line: Seq<char>) -> Seq<char> {
    seq!['['] + source + seq![']', ' '] + line
}

/// What the consumer does with a line once its verdict is known.
pub open spec fn action_matches(action: ConsumeAction, decision: FilterDecision, msg: LogLine)
    -> bool {
    if decision.is_accepted() {
        action matches ConsumeAction::Emit(text) && text@ == emitted_text(msg.source@, msg.line@)
    } else {
        action is Skip
    }
}

/// The text printed for a kept line.
pub fn format_line(msg: &LogLine) -> (text: String)
    ensures
        text@ == emitted_text(msg.source@, msg.line@),
{
    proof {
        reveal_strlit("[");
        reveal_strlit("] ");
    }
    let mut text = String::new();
    text.append("[");
    text.append(msg.source.as_str());
    text.append("] ");
    text.append(msg.line.as_str());
    assert(text@ =~= emitted_text(msg.source@, msg.line@));
    text
}

/// Counts a line under its verdict and says whether it is printed: a line
/// that is `Included` or `Passed` is emitted, any other is skipped.
pub fn settle(stats: &mut Stats, decision: FilterDecision, msg: &LogLine) -> (action:
    ConsumeAction)
    ensures
        final(stats).follows(*old(stats), decision),
        action_matches(action, decision, *msg),
{
    stats.record(decision);
    if decision.accepted() {
        ConsumeAction::Emit(format_line(msg))
    } else {
        ConsumeAction::Skip
    }
}

/// Handles one line from the queue.
///
/// If shutdown has been requested the line is discarded uncounted and the
/// consumer stops. Otherwise the line is classified, counted under its
/// verdict, and emitted if the verdict lets it through.
pub fn consume(filters: &Filters, stats: &mut Stats, shutdown: bool, msg: &LogLine) -> (action:
    ConsumeAction)
    ensures
        shutdown ==> action is Stop && *final(stats) == *old(stats),
        !shutdown ==> final(stats).follows(*old(stats), filters.decision(msg.line@))
            && action_matches(action, filters.decision(msg.line@), *msg),
{
    if shutdown {
        return ConsumeAction::Stop;
    }
    let decision = filters.classify(msg.line.as_str());
    settle(stats, decision, msg)
}

/// The verdicts of the filters on `lines`, one for each line.
pub open spec fn decisions_of(filters: Filters, lines: Seq<LogLine>) -> Seq<FilterDecision> {
    Seq::new(lines.len(), |i: int| filters.decision(lines[i].line@))
}

/// The lines of `lines` that the filters let through, in their order.
pub open spec fn kept(filters: Filters, lines: Seq<LogLine>) -> Seq<LogLine>
    decreases lines.len(),
{
    if lines.len() == 0 {
        lines
    } else {
        let head = kept(filters, lines.drop_last());
        if filters.decision(lines.last().line@).is_accepted() {
            head.push(lines.last())
        } else {
            head
        }
    }
}

/// The lines of `lines` that come from the source called `source`, in their
/// order.
pub open spec fn of_source(lines: Seq<LogLine>, source: Seq<char>) -> Seq<LogLine>
    decreases lines.len(),
{
    if lines.len() == 0 {
        lines
    } else {
        let head = of_source(lines.drop_last(), source);
        if lines.last().source@ == source {
            head.push(lines.last())
        } else {
            head
        }
    }
}

/// Handles the lines of a run in the order in which they arrived, with no
/// shutdown requested, and gives the texts to print.
///
/// What is printed is what the filters let through, in the order of arrival,
/// each line under its source; every line is counted under its verdict.
pub fn consume_all(filters: &Filters, stats: &mut Stats, lines: &Vec<LogLine>) -> (printed: Vec<
    String,
>)
    ensures
        printed.len() == kept(*filters, lines@).len(),
        forall|i: int|
            0 <= i < printed.len() ==> (#[trigger] printed[i])@ == emitted_text(
                kept(*filters, lines@)[i].source@,
                kept(*filters, lines@)[i].line@,
            ),
        final(stats).total() == bumped_by(old(stats).total(), lines.len() as nat),
        final(stats).included() == bumped_by(
            old(stats).included(),
            accepted_in(decisions_of(*filters, lines@)),
        ),
        final(stats).excluded() == bumped_by(
            old(stats).excluded(),
            excluded_in(decisions_of(*filters, lines@)),
        ),
{
    let mut printed: Vec<String> = Vec::new();
    let mut i: usize = 0;
    while i < lines.len()
        invariant
            i <= lines.len(),
            printed.len() == kept(*filters, lines@.take(i as int)).len(),
            forall|k: int|
                0 <= k < printed.len() ==> (#[trigger] printed[k])@ == emitted_text(
                    kept(*filters, lines@.take(i as int))[k].source@,
                    kept(*filters, lines@.take(i as int))[k].line@,
                ),
            stats.total() == bumped_by(old(stats).total(), i as nat),
            stats.included() == bumped_by(
                old(stats).included(),
                accepted_in(decisions_of(*filters, lines@.take(i as int))),
            ),
            stats.excluded() == bumped_by(
                old(stats).excluded(),
                excluded_in(decisions_of(*filters, lines@.take(i as int))),
            ),
        decreases lines.len() - i,
    {
        proof {
            let before = lines@.take(i as int);
            let now = lines@.take(i + 1);
            assert(now.drop_last() =~= before);
            assert(now.last() == lines@[i as int]);
            assert(decisions_of(*filters, now).drop_last() =~= decisions_of(*filters, before));
            assert(decisions_of(*filters, now).last() == filters.decision(lines@[i as int].line@));
        }
        match consume(filters, stats, false, &lines[i]) {
            ConsumeAction::Emit(text) => {
                printed.push(text);
            },
            ConsumeAction::Skip => {},
            ConsumeAction::Stop => {},
        }
        i += 1;
    }
    assert(lines@.take(i as int) =~= lines@);
    printed
}

/// Filtering keeps each source's own order: of the lines that are let
/// through, those of one source are exactly what the filters let through of
/// that source's lines, in the order in which they arrived. Between the
/// lines of different sources no order is promised.
pub proof fn lemma_kept_in_source_order(filters: Filters, lines: Seq<LogLine>, source: Seq<char>)
    ensures
        of_source(kept(filters, lines), source) == kept(filters, of_source(lines, source)),
    decreases lines.len(),
{
    if lines.len() > 0 {
        let init = lines.drop_last();
        let last = lines.last();
        lemma_kept_in_source_order(filters, init, source);
        let accepted = filters.decision(last.line@).is_accepted();
        let from_it = last.source@ == source;
        if accepted && from_it {
            let a = kept(filters, init);
            let b = of_source(init, source);
            assert(a.push(last).drop_last() =~= a);
            assert(b.push(last).drop_last() =~= b);
            assert(of_source(a.push(last), source) == of_source(a, source).push(last));
            assert(kept(filters, b.push(last)) == kept(filters, b).push(last));
        } else if accepted {
            let a = kept(filters, init);
            assert(a.push(last).drop_last() =~= a);
            assert(of_source(a.push(last), source) == of_source(a, source));
        } else if from_it {
            let b = of_source(init, source);
            assert(b.push(last).drop_last() =~= b);
            assert(kept(filters, b.push(last)) == kept(filters, b));
        }
    }
}

/// Every line that is let through arrived: what is kept of `lines` holds no
/// more lines than `lines`, and each of them stands in `lines`.
pub proof fn lemma_kept_lines_arrived(filters: Filters, lines: Seq<LogLine>)
    ensures
        kept(filters, lines).len() <= lines.len(),
        forall|i: int|
            0 <= i < kept(filters, lines).len() ==> lines.contains(
                #[trigger] kept(filters, lines)[i],
            ) && filters.decision(kept(filters, lines)[i].line@).is_accepted(),
    decreases lines.len(),
{
    if lines.len() > 0 {
        let init = lines.drop_last();
        lemma_kept_lines_arrived(filters, init);
        assert forall|i: int| 0 <= i < kept(filters, lines).len() implies lines.contains(
            #[trigger] kept(filters, lines)[i],
        ) && filters.decision(kept(filters, lines)[i].line@).is_accepted() by {
            if i < kept(filters, init).len() {
                let line = kept(filters, init)[i];
                assert(init.contains(line));
                let k = choose|k: int| 0 <= k < init.len() && init[k] == line;
                assert(lines[k] == line);
            } else {
                assert(lines[lines.len() - 1] == lines.last());
            }
        }
    }
}

/// What a run prints of one source comes in the order in which that source
/// was read: if the lines of the reader's source arrive as the reader sent
/// them, then of the lines that are let through, those of that source are
/// what the filters let through of the lines the reader sent, in that order.
pub proof fn lemma_source_output_in_read_order(
    filters: Filters,
    reader: Reader,
    inputs: Seq<(ReaderEvent, bool)>,
    arrivals: Seq<LogLine>,
)
    requires
        of_source(arrivals, reader.name@) == reader.sent(inputs),
    ensures
        of_source(kept(filters, arrivals), reader.name@) == kept(filters, reader.sent(inputs)),
{
    lemma_kept_in_source_order(filters, arrivals, reader.name@);
}

} // verus!
