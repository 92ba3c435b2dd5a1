//! What holds of every run of the engine.
//!
//! A run is a sequence of events handed to an engine one after the other;
//! the laws speak of the states it passes through and of the directives it
//! is answered with.

use crate::alignment::alignment;
use crate::error::CoreError;
use crate::model::{
    asks_for_readiness, diagnostic_lines, ends_exchange, lines, response_lines, DirectiveView,
    EventView, Model, Phase,
};
use crate::protocol::{announces_ready, framed, invocation, is_noise};
use crate::text::{filtered, is_blank, tokens, trimmed, unicode_white_space};
use crate::text_laws::{law_blank_text_has_no_token, law_trimmed_has_no_white_space_at_its_ends};
use vstd::prelude::*;

verus! {

/// What holds after one more event: the state and the directive are those
/// of one step from the state before.
pub proof fn lemma_run_next(m: Model, events: Seq<EventView>, n: int)
    requires
        0 <= n < events.len(),
    ensures
        m.run(events.take(n + 1)) == m.run(events.take(n)).step(events[n]).0,
        m.directive(events, n) == m.run(events.take(n)).step(events[n]).1,
{
    assert(events.take(n + 1).drop_last() == events.take(n));
}

/// A run of one event is one step.
pub proof fn lemma_run_of_one(m: Model, event: EventView)
    ensures
        m.run(seq![event]) == m.step(event).0,
{
    assert(seq![event].drop_last() == Seq::<EventView>::empty());
    assert(m.run(Seq::<EventView>::empty()) == m);
}

/// A run of one sequence of events after another is the run of the second
/// from where the first has led.
pub proof fn lemma_runs_compose(m: Model, first: Seq<EventView>, second: Seq<EventView>)
    ensures
        m.run(first + second) == m.run(first).run(second),
    decreases second.len(),
{
    if second.len() > 0 {
        assert((first + second).drop_last() == first + second.drop_last());
        lemma_runs_compose(m, first, second.drop_last());
    }
}

/// Law: no event changes where the artifact lies, which flags it is
/// launched with, or what filtering keeps.
pub proof fn law_settings_are_fixed(m: Model, events: Seq<EventView>)
    ensures
        m.run(events).artifact == m.artifact,
        m.run(events).flags == m.flags,
        m.run(events).keep_digits == m.keep_digits,
    decreases events.len(),
{
    if events.len() > 0 {
        law_settings_are_fixed(m, events.drop_last());
    }
}

/// Law: every state that an engine reaches from a well-formed one is
/// well-formed. In particular a request is pending only while the analyzer
/// is ready.
pub proof fn law_runs_stay_well_formed(m: Model, events: Seq<EventView>)
    requires
        m.wf(),
    ensures
        m.run(events).wf(),
    decreases events.len(),
{
    if events.len() > 0 {
        law_runs_stay_well_formed(m, events.drop_last());
    }
}

/// Law: the engine never blames the configuration. No directive of a
/// well-formed engine fails with `InvalidConfiguration`: that is for the
/// caller to report before there is an engine.
pub proof fn law_engine_never_blames_configuration(m: Model, event: EventView)
    requires
        m.wf(),
    ensures
        m.step(event).1 != DirectiveView::Failed(CoreError::InvalidConfiguration),
{
}

/// Law: readiness and failure of startup are final. Once the analyzer is
/// ready it stays ready whatever happens, and once startup has failed it
/// stays failed for the same reason: an analyzer is never launched again.
pub proof fn law_outcome_of_startup_is_final(m: Model, events: Seq<EventView>)
    requires
        m.phase is Ready || m.phase is Failed,
    ensures
        m.run(events).phase == m.phase,
    decreases events.len(),
{
    if events.len() > 0 {
        law_outcome_of_startup_is_final(m, events.drop_last());
    }
}

/// The number of launches asked for so far is told by the phase alone.
proof fn lemma_spawn_count(m: Model, events: Seq<EventView>)
    ensures
        m.phase != Phase::Unlaunched ==> m.run(events).phase != Phase::Unlaunched
            && m.spawn_count(events) == 0,
        m.phase == Phase::Unlaunched ==> m.spawn_count(events) == (if m.run(events).phase
            == Phase::Unlaunched {
            0nat
        } else {
            1nat
        }),
        m.phase == Phase::Unlaunched ==> (m.run(events).phase == Phase::Unlaunched <==> (forall|
            i: int|
            0 <= i < events.len() ==> !asks_for_readiness(#[trigger] events[i]))),
    decreases events.len(),
{
    if events.len() > 0 {
        let front = events.drop_last();
        lemma_spawn_count(m, front);
        if m.phase == Phase::Unlaunched {
            if forall|i: int| 0 <= i < events.len() ==> !asks_for_readiness(#[trigger] events[i]) {
                assert forall|i: int| 0 <= i < front.len() implies !asks_for_readiness(
                    #[trigger] front[i],
                ) by {
                    assert(front[i] == events[i]);
                }
            } else {
                let i: int = choose|i: int| 0 <= i < events.len() && asks_for_readiness(events[i]);
                if i < front.len() {
                    assert(front[i] == events[i]);
                }
            }
        }
    }
}

/// Law: the analyzer is launched exactly once. However many calls ask for
/// readiness, and however they are mixed with other events, a new engine
/// asks for one launch if there is any such call, and for none otherwise.
/// An engine that has asked for its launch never asks again.
pub proof fn law_analyzer_is_launched_once(m: Model, events: Seq<EventView>)
    ensures
        m.spawn_count(events) <= 1,
        m.phase != Phase::Unlaunched ==> m.spawn_count(events) == 0,
        m.phase == Phase::Unlaunched ==> (m.spawn_count(events) == 1 <==> exists|i: int|
            0 <= i < events.len() && asks_for_readiness(#[trigger] events[i])),
{
    lemma_spawn_count(m, events);
}

/// Where the token is held at one point of a run and free at a later one,
/// a directive in between has ended the exchange.
proof fn lemma_token_is_given_up(m: Model, events: Seq<EventView>, from: int, to: int)
    requires
        0 <= from <= to <= events.len(),
        m.run(events.take(from)).pending is Some,
        m.run(events.take(to)).pending is None,
    ensures
        exists|k: int| from <= k < to && ends_exchange(#[trigger] m.directive(events, k)),
    decreases to - from,
{
    if from < to {
        lemma_run_next(m, events, to - 1);
        if m.run(events.take(to - 1)).pending is None {
            lemma_token_is_given_up(m, events, from, to - 1);
        }
    }
}

/// Law: exchanges never overlap. Between any two directives that send a
/// request there is one that ends the exchange of the first, so a request
/// goes out only after the one before it was answered or has failed.
pub proof fn law_exchanges_do_not_overlap(m: Model, events: Seq<EventView>, i: int, j: int)
    requires
        0 <= i < j < events.len(),
        m.directive(events, i) is Send,
        m.directive(events, j) is Send,
    ensures
        exists|k: int| i < k < j && ends_exchange(#[trigger] m.directive(events, k)),
{
    lemma_run_next(m, events, i);
    lemma_run_next(m, events, j);
    lemma_token_is_given_up(m, events, i + 1, j);
}

/// Law: what reaches the analyzer's input stream is a concatenation of
/// whole lines, one for each admitted request and in the order of
/// admission. No line is cut short, repeated, or mixed with another.
pub proof fn law_written_is_whole_requests(m: Model, events: Seq<EventView>)
    ensures
        m.written(events) == lines(m.admitted(events), m.keep_digits),
    decreases events.len(),
{
    if events.len() > 0 {
        let front = events.drop_last();
        law_written_is_whole_requests(m, front);
        law_settings_are_fixed(m, front);
        if m.run(front).step(events.last()).1 is Send {
            assert(m.admitted(events).drop_last() == m.admitted(front));
        }
    }
}

/// Law: an admitted request and the first line that answers it yield the
/// alignment of the two. Where the answer has as many tokens as the
/// filtered request, the alignment has one entry for each, in the order of
/// the request; where it has not, the alignment is empty and the request
/// still succeeds.
pub proof fn law_answer_is_aligned_with_request(m: Model, text: Seq<char>, line: Seq<char>)
    requires
        m.phase == Phase::Ready,
        m.pending is None,
        !is_noise(line),
    ensures
        ({
            let request = filtered(text, m.keep_digits);
            let answer = trimmed(line);
            let outcome = m.lemmatize(text).0.response_line(Some(line));
            &&& m.lemmatize(text).1 == DirectiveView::Send(framed(request))
            &&& outcome.0 == m
            &&& outcome.1 == DirectiveView::Done(alignment(request, answer))
            &&& tokens(request).len() == tokens(answer).len() ==> {
                let map = alignment(request, answer).word_lemma_map;
                &&& map.len() == tokens(request).len()
                &&& forall|i: int|
                    0 <= i < map.len() ==> (#[trigger] map[i]).0 == tokens(request)[i] && map[i].1
                        == tokens(answer)[i]
            }
            &&& tokens(request).len() != tokens(answer).len() ==> alignment(
                request,
                answer,
            ).word_lemma_map.len() == 0
        }),
{
}

/// Law: to ask for readiness is idempotent. A second request right after
/// the first changes nothing, and is never told to launch.
pub proof fn law_asking_for_readiness_is_idempotent(m: Model)
    ensures
        m.ensure_initialized().0.ensure_initialized().0 == m.ensure_initialized().0,
        !(m.ensure_initialized().0.ensure_initialized().1 is Spawn),
{
}

/// Law: the token has room for one. A request is admitted exactly when
/// the analyzer is ready and no request is pending, and then it is the
/// pending one.
pub proof fn law_one_request_at_a_time(m: Model, text: Seq<char>)
    ensures
        m.lemmatize(text).1 is Send <==> m.phase == Phase::Ready && m.pending is None,
        m.lemmatize(text).1 is Send ==> m.lemmatize(text).0.pending == Some(
            filtered(text, m.keep_digits),
        ),
        m.phase == Phase::Ready && m.pending is Some ==> m.lemmatize(text) == (
            m,
            DirectiveView::Busy,
        ),
{
}

/// Law: the token is given up on every way out of an exchange. Whether a
/// pending request ends with its result or with a failure, none is pending
/// afterwards, and the analyzer is as ready as it was.
pub proof fn law_token_is_given_up_on_every_exit(m: Model, line: Option<Seq<char>>)
    requires
        m.wf(),
        m.pending is Some,
    ensures
        ends_exchange(m.response_line(line).1) ==> m.response_line(line).0 == (Model {
            pending: None,
            ..m
        }),
        !ends_exchange(m.response_line(line).1) ==> m.response_line(line) == (
            m,
            DirectiveView::ReadResponse,
        ),
        line is None ==> m.response_line(line).1 == DirectiveView::Failed(
            CoreError::ProcessTerminatedEarly,
        ),
{
}

/// Law: lines without an answer change nothing, in any state.
pub proof fn law_noise_is_passed_over(m: Model, lines: Seq<Seq<char>>)
    requires
        forall|i: int| 0 <= i < lines.len() ==> is_noise(#[trigger] lines[i]),
    ensures
        m.run(response_lines(lines)) == m,
    decreases lines.len(),
{
    if lines.len() > 0 {
        assert(response_lines(lines).drop_last() == response_lines(lines.drop_last()));
        law_noise_is_passed_over(m, lines.drop_last());
    }
}

/// Law: the first line that carries an answer is the whole answer. With a
/// request pending, any number of lines without an answer are passed over,
/// each with the directive to read on, and the first other line completes
/// the request with the alignment of its filtered text and that line,
/// trimmed.
pub proof fn law_first_answer_completes_request(m: Model, noise: Seq<Seq<char>>, line: Seq<char>)
    requires
        m.wf(),
        m.pending is Some,
        forall|i: int| 0 <= i < noise.len() ==> is_noise(#[trigger] noise[i]),
        !is_noise(line),
    ensures
        forall|i: int|
            0 <= i < noise.len() ==> #[trigger] m.directive(response_lines(noise.push(line)), i)
                == DirectiveView::ReadResponse,
        m.directive(response_lines(noise.push(line)), noise.len() as int) == DirectiveView::Done(
            alignment(m.pending->0, trimmed(line)),
        ),
        m.run(response_lines(noise.push(line))) == (Model { pending: None, ..m }),
{
    let events = response_lines(noise.push(line));
    assert forall|i: int| 0 <= i <= noise.len() implies m.run(events.take(i)) == m by {
        assert(events.take(i) == response_lines(noise.take(i)));
        law_noise_is_passed_over(m, noise.take(i));
    }
}

/// Law: the end of the output stream fails the pending request, however
/// many lines without an answer came before, and leaves the analyzer's
/// phase alone: the next request is admitted, and fails alike if the stream
/// is still at its end.
pub proof fn law_end_of_stream_fails_request(m: Model, noise: Seq<Seq<char>>)
    requires
        m.wf(),
        m.pending is Some,
        forall|i: int| 0 <= i < noise.len() ==> is_noise(#[trigger] noise[i]),
    ensures
        m.run(response_lines(noise)).response_line(None) == (
            Model { pending: None, ..m },
            DirectiveView::Failed(CoreError::ProcessTerminatedEarly),
        ),
{
    law_noise_is_passed_over(m, noise);
}

/// Law: startup ends at the first line that holds the marker. While the
/// analyzer starts, any number of lines without the marker are passed over,
/// each with the directive to read on, and the first line with the marker
/// makes the analyzer ready.
pub proof fn law_marker_ends_startup(m: Model, chatter: Seq<Seq<char>>, line: Seq<char>)
    requires
        m.phase == Phase::Starting,
        forall|i: int| 0 <= i < chatter.len() ==> !announces_ready(#[trigger] chatter[i]),
        announces_ready(line),
    ensures
        forall|i: int|
            0 <= i < chatter.len() ==> #[trigger] m.directive(
                diagnostic_lines(chatter.push(line)),
                i,
            ) == DirectiveView::ReadDiagnostic,
        m.directive(diagnostic_lines(chatter.push(line)), chatter.len() as int)
            == DirectiveView::Ready,
        m.run(diagnostic_lines(chatter.push(line))) == (Model { phase: Phase::Ready, ..m }),
{
    let events = diagnostic_lines(chatter.push(line));
    assert forall|i: int| 0 <= i <= chatter.len() implies m.run(events.take(i)) == m by {
        lemma_chatter_is_passed_over(m, chatter.take(i));
        assert(events.take(i) == diagnostic_lines(chatter.take(i)));
    }
}

/// Law: the end of the diagnostic stream before the marker fails startup
/// for good, however many lines without the marker came before.
pub proof fn law_end_of_stream_fails_startup(m: Model, chatter: Seq<Seq<char>>)
    requires
        m.phase == Phase::Starting,
        forall|i: int| 0 <= i < chatter.len() ==> !announces_ready(#[trigger] chatter[i]),
    ensures
        m.run(diagnostic_lines(chatter)).diagnostic_line(None) == (
            Model { phase: Phase::Failed(CoreError::ProcessTerminatedEarly), ..m },
            DirectiveView::Failed(CoreError::ProcessTerminatedEarly),
        ),
{
    lemma_chatter_is_passed_over(m, chatter);
}

/// Diagnostic lines without the marker change nothing while the analyzer
/// starts.
proof fn lemma_chatter_is_passed_over(m: Model, chatter: Seq<Seq<char>>)
    requires
        m.phase == Phase::Starting,
        forall|i: int| 0 <= i < chatter.len() ==> !announces_ready(#[trigger] chatter[i]),
    ensures
        m.run(diagnostic_lines(chatter)) == m,
    decreases chatter.len(),
{
    if chatter.len() > 0 {
        assert(diagnostic_lines(chatter).drop_last() == diagnostic_lines(chatter.drop_last()));
        lemma_chatter_is_passed_over(m, chatter.drop_last());
    }
}

/// Law: the alignment of a completed request is empty exactly when the
/// counts of tokens differ. A line that carries an answer has at least one
/// token, so an empty alignment always tells of a mismatch.
pub proof fn law_empty_alignment_tells_of_mismatch(request: Seq<char>, line: Seq<char>)
    requires
        !is_noise(line),
    ensures
        tokens(trimmed(line)).len() > 0,
        alignment(request, trimmed(line)).word_lemma_map.len() == 0 <==> tokens(request).len()
            != tokens(trimmed(line)).len(),
{
    law_trimmed_has_no_white_space_at_its_ends(line);
    law_blank_text_has_no_token(trimmed(line));
}

/// Law: the first request to a new engine is served in full. The request
/// is told to launch the analyzer; the launch succeeds; the diagnostic
/// stream holds any lines without the marker and then one with it; the
/// request is made again and goes out as one line; the output stream holds
/// any lines without an answer and then one with it. Then the analyzer was
/// launched once, with the artifact's path and no flags; the line sent is
/// the filtered text; the result is its alignment with the answer; and the
/// engine is ready for the next request.
pub proof fn law_first_request_is_served(
    artifact: Seq<char>,
    text: Seq<char>,
    chatter: Seq<Seq<char>>,
    ready_line: Seq<char>,
    noise: Seq<Seq<char>>,
    line: Seq<char>,
)
    requires
        forall|i: int| 0 <= i < chatter.len() ==> !announces_ready(#[trigger] chatter[i]),
        announces_ready(ready_line),
        forall|i: int| 0 <= i < noise.len() ==> is_noise(#[trigger] noise[i]),
        !is_noise(line),
    ensures
        ({
            let m = Model::initial(artifact);
            let request = filtered(text, false);
            let startup = seq![EventView::Lemmatize(text), EventView::SpawnSucceeded]
                + diagnostic_lines(chatter.push(ready_line));
            let exchange = seq![EventView::Lemmatize(text)] + response_lines(noise.push(line));
            let events = startup + exchange;
            &&& m.directive(events, 0) == DirectiveView::Spawn(invocation(artifact, Seq::empty()))
            &&& m.directive(events, startup.len() as int) == DirectiveView::Send(framed(request))
            &&& m.directive(events, events.len() - 1) == DirectiveView::Done(
                alignment(request, trimmed(line)),
            )
            &&& m.run(events) == (Model { phase: Phase::Ready, ..m })
            &&& m.spawn_count(events) == 1
            &&& m.written(events) == framed(request)
        }),
{
    let m = Model::initial(artifact);
    let request = filtered(text, false);
    let calls = seq![EventView::Lemmatize(text), EventView::SpawnSucceeded];
    let handshake = diagnostic_lines(chatter.push(ready_line));
    let startup = calls + handshake;
    let call = seq![EventView::Lemmatize(text)];
    let answers = response_lines(noise.push(line));
    let exchange = call + answers;
    let events = startup + exchange;

    // Startup: the launch is asked for and succeeds, and the marker arrives.
    let starting = Model { phase: Phase::Starting, ..m };
    let ready = Model { phase: Phase::Ready, ..m };
    assert(m.run(calls) == starting) by {
        lemma_run_of_one(m, EventView::Lemmatize(text));
        assert(calls.drop_last() == seq![EventView::Lemmatize(text)]);
    }
    law_marker_ends_startup(starting, chatter, ready_line);
    lemma_runs_compose(m, calls, handshake);

    // The exchange: the request is admitted and the answer completes it.
    let pending = Model { pending: Some(request), ..ready };
    assert(ready.run(call) == pending) by {
        lemma_run_of_one(ready, EventView::Lemmatize(text));
    }
    law_first_answer_completes_request(pending, noise, line);
    lemma_runs_compose(ready, call, answers);
    lemma_runs_compose(m, startup, exchange);

    // The directives at the three places.
    assert(events.take(startup.len() as int) == startup);
    let last: int = events.len() - 1;
    assert(events.take(last) == startup + (call + answers.drop_last()));
    lemma_runs_compose(m, startup, call + answers.drop_last());
    lemma_runs_compose(ready, call, answers.drop_last());
    law_noise_is_passed_over(pending, noise);

    // One launch, one line.
    law_analyzer_is_launched_once(m, events);
    law_written_is_whole_requests(m, events);
    assert forall|i: int| 0 <= i < startup.len() implies m.run(startup.take(i)).phase
        != Phase::Ready by {
        if i == 1 {
            assert(startup.take(1) == seq![EventView::Lemmatize(text)]);
            lemma_run_of_one(m, EventView::Lemmatize(text));
        } else if i >= 2 {
            assert(startup.take(i) == calls + handshake.take(i - 2));
            assert(handshake.take(i - 2) == diagnostic_lines(chatter.take(i - 2)));
            lemma_runs_compose(m, calls, handshake.take(i - 2));
            lemma_chatter_is_passed_over(starting, chatter.take(i - 2));
        }
    }
    lemma_one_request_was_admitted(m, startup, text, answers);
    assert(lines(seq![text], false) == framed(request)) by {
        assert(seq![text].drop_last() == Seq::<Seq<char>>::empty());
        assert(lines(Seq::<Seq<char>>::empty(), false) == Seq::<char>::empty());
    }
}

/// Events that are no requests admit none.
proof fn lemma_answers_admit_nothing(m: Model, before: Seq<EventView>, answers: Seq<EventView>)
    requires
        forall|i: int| 0 <= i < answers.len() ==> !(#[trigger] answers[i] is Lemmatize),
    ensures
        m.admitted(before + answers) == m.admitted(before),
    decreases answers.len(),
{
    if answers.len() > 0 {
        assert((before + answers).drop_last() == before + answers.drop_last());
        lemma_answers_admit_nothing(m, before, answers.drop_last());
    }
}

/// Requests that are not answered with `Send` are not admitted.
proof fn lemma_startup_admits_nothing(m: Model, events: Seq<EventView>)
    requires
        forall|i: int| 0 <= i < events.len() ==> m.run(events.take(i)).phase != Phase::Ready,
    ensures
        m.admitted(events) == Seq::<Seq<char>>::empty(),
    decreases events.len(),
{
    if events.len() > 0 {
        let front = events.drop_last();
        assert forall|i: int| 0 <= i < front.len() implies m.run(front.take(i)).phase
            != Phase::Ready by {
            assert(front.take(i) == events.take(i));
        }
        lemma_startup_admits_nothing(m, front);
    }
}

/// Where startup admits no request, and the next event is a request that
/// is admitted, and only answers follow, that request is the one admitted.
proof fn lemma_one_request_was_admitted(
    m: Model,
    startup: Seq<EventView>,
    text: Seq<char>,
    answers: Seq<EventView>,
)
    requires
        forall|i: int| 0 <= i < startup.len() ==> m.run(startup.take(i)).phase != Phase::Ready,
        m.run(startup).phase == Phase::Ready,
        m.run(startup).pending is None,
        forall|i: int| 0 <= i < answers.len() ==> !(#[trigger] answers[i] is Lemmatize),
    ensures
        m.admitted(startup + (seq![EventView::Lemmatize(text)] + answers)) == seq![text],
{
    let call = seq![EventView::Lemmatize(text)];
    lemma_startup_admits_nothing(m, startup);
    assert(startup + (call + answers) == (startup + call) + answers);
    lemma_answers_admit_nothing(m, startup + call, answers);
    assert((startup + call).drop_last() == startup);
}

} // verus!
