use lemmatizer::protocol::LaunchCommand;
use lemmatizer::text::filter_text;
use lemmatizer::{CoreError, Directive, Event, LemmatizeResult, Lemmatizer, Phase};

fn entry(word: &str, lemma: &str, parts: &[&str]) -> (String, String, Vec<String>) {
    (word.to_string(), lemma.to_string(), parts.iter().map(|p| p.to_string()).collect())
}

fn spawn(args: &[&str]) -> Directive {
    Directive::Spawn(LaunchCommand {
        program: "java".to_string(),
        args: args.iter().map(|a| a.to_string()).collect(),
    })
}

fn send(line: &str) -> Directive {
    Directive::Send(line.to_string())
}

fn ready_engine() -> Lemmatizer {
    let mut engine = Lemmatizer::new("/srv/analyzer.jar".to_string());
    assert_eq!(engine.ensure_initialized(), spawn(&["-jar", "/srv/analyzer.jar"]));
    assert_eq!(engine.spawn_succeeded(), Directive::ReadDiagnostic);
    assert_eq!(engine.diagnostic_line(Some("System ready!\n")), Directive::Ready);
    engine
}

#[test]
fn a_new_engine_has_launched_nothing() {
    let engine = Lemmatizer::new("/srv/analyzer.jar".to_string());
    assert_eq!(engine.phase(), Phase::Unlaunched);
    assert!(!engine.is_ready());
    assert!(!engine.is_busy());
    assert_eq!(engine.jar_path(), "/srv/analyzer.jar");
}

#[test]
fn startup_waits_for_the_marker() {
    let mut engine = Lemmatizer::new("/srv/analyzer.jar".to_string());
    assert_eq!(engine.ensure_initialized(), spawn(&["-jar", "/srv/analyzer.jar"]));
    assert_eq!(engine.phase(), Phase::Launching);
    assert_eq!(engine.spawn_succeeded(), Directive::ReadDiagnostic);
    assert_eq!(engine.phase(), Phase::Starting);
    assert_eq!(engine.diagnostic_line(Some("Loading models\n")), Directive::ReadDiagnostic);
    assert_eq!(engine.diagnostic_line(Some("\n")), Directive::ReadDiagnostic);
    assert_eq!(engine.phase(), Phase::Starting);
    assert_eq!(engine.diagnostic_line(Some("INFO: System ready!\n")), Directive::Ready);
    assert_eq!(engine.phase(), Phase::Ready);
    assert!(engine.is_ready());
}

#[test]
fn flags_are_handed_to_the_analyzer() {
    let mut engine = Lemmatizer::new("a.jar".to_string())
        .with_flags(vec!["--lemma".to_string(), "1".to_string()]);
    assert_eq!(engine.ensure_initialized(), spawn(&["-jar", "a.jar", "--lemma", "1"]));
}

#[test]
fn the_analyzer_is_launched_once() {
    let mut engine = Lemmatizer::new("a.jar".to_string());
    let mut spawns = 0;
    let mut count = |directive: Directive| {
        if let Directive::Spawn(_) = directive {
            spawns += 1;
        }
    };
    count(engine.ensure_initialized());
    count(engine.ensure_initialized());
    count(engine.lemmatize("cats"));
    count(engine.spawn_succeeded());
    count(engine.ensure_initialized());
    count(engine.diagnostic_line(Some("System ready!")));
    count(engine.ensure_initialized());
    count(engine.lemmatize("cats"));
    count(engine.response_line(Some("cat")));
    count(engine.ensure_initialized());
    assert_eq!(spawns, 1);
}

#[test]
fn callers_that_come_during_startup_are_told_to_wait() {
    let mut engine = Lemmatizer::new("a.jar".to_string());
    assert_eq!(engine.ensure_initialized(), spawn(&["-jar", "a.jar"]));
    assert_eq!(engine.ensure_initialized(), Directive::InProgress);
    assert_eq!(engine.lemmatize("cats"), Directive::InProgress);
    engine.spawn_succeeded();
    assert_eq!(engine.ensure_initialized(), Directive::InProgress);
    assert_eq!(engine.lemmatize("cats"), Directive::InProgress);
    assert!(!engine.is_busy());
    engine.diagnostic_line(Some("System ready!"));
    assert_eq!(engine.ensure_initialized(), Directive::Ready);
    assert_eq!(engine.ensure_initialized(), Directive::Ready);
}

#[test]
fn the_first_request_launches_the_analyzer() {
    let mut engine = Lemmatizer::new("a.jar".to_string());
    assert_eq!(engine.lemmatize("cats running"), spawn(&["-jar", "a.jar"]));
    assert!(!engine.is_busy());
    assert_eq!(engine.spawn_succeeded(), Directive::ReadDiagnostic);
    assert_eq!(engine.diagnostic_line(Some("System ready!\n")), Directive::Ready);
    assert_eq!(engine.lemmatize("cats running"), send("cats running\n"));
}

#[test]
fn a_failed_launch_fails_every_later_call() {
    let mut engine = Lemmatizer::new("a.jar".to_string());
    engine.ensure_initialized();
    assert_eq!(engine.spawn_failed(), Directive::Failed(CoreError::LaunchFailure));
    assert_eq!(engine.phase(), Phase::Failed(CoreError::LaunchFailure));
    assert_eq!(engine.ensure_initialized(), Directive::Failed(CoreError::LaunchFailure));
    assert_eq!(engine.lemmatize("cats"), Directive::Failed(CoreError::LaunchFailure));
    assert_eq!(engine.spawn_succeeded(), Directive::Ignored);
    assert_eq!(engine.phase(), Phase::Failed(CoreError::LaunchFailure));
}

#[test]
fn a_stream_that_ends_during_startup_fails_it() {
    let mut engine = Lemmatizer::new("a.jar".to_string());
    engine.ensure_initialized();
    engine.spawn_succeeded();
    assert_eq!(engine.diagnostic_line(Some("Loading\n")), Directive::ReadDiagnostic);
    assert_eq!(engine.diagnostic_line(None), Directive::Failed(CoreError::ProcessTerminatedEarly));
    assert_eq!(engine.phase(), Phase::Failed(CoreError::ProcessTerminatedEarly));
    assert_eq!(engine.ensure_initialized(), Directive::Failed(CoreError::ProcessTerminatedEarly));
    assert_eq!(engine.lemmatize("cats"), Directive::Failed(CoreError::ProcessTerminatedEarly));
    assert_eq!(engine.diagnostic_line(Some("System ready!")), Directive::Ignored);
    assert!(!engine.is_ready());
}

#[test]
fn a_request_is_answered_by_its_alignment() {
    let mut engine = ready_engine();
    assert_eq!(engine.lemmatize("cats running"), send("cats running\n"));
    assert!(engine.is_busy());
    assert_eq!(
        engine.response_line(Some("cat run\n")),
        Directive::Done(LemmatizeResult {
            lemmatized_text: "cat run".to_string(),
            word_lemma_map: vec![entry("cats", "cat", &["cat"]), entry("running", "run", &["run"])],
        })
    );
    assert!(!engine.is_busy());
    assert!(engine.is_ready());
}

#[test]
fn punctuation_never_reaches_the_analyzer() {
    let mut engine = ready_engine();
    assert_eq!(engine.lemmatize("hello, world!"), send("hello world\n"));
}

#[test]
fn digits_reach_the_analyzer_only_where_they_are_kept() {
    let mut stripping = ready_engine();
    assert_eq!(stripping.lemmatize("room 101"), send("room \n"));
    let mut keeping = ready_engine().keeping_digits(true);
    assert_eq!(keeping.lemmatize("room 101"), send("room 101\n"));
    let mut stripping_again = ready_engine().keeping_digits(true).keeping_digits(false);
    assert_eq!(stripping_again.lemmatize("room 101"), send("room \n"));
}

#[test]
fn the_alignment_is_made_against_the_filtered_text() {
    let mut engine = ready_engine();
    assert_eq!(engine.lemmatize("The cat's toys!"), send("The cats toys\n"));
    assert_eq!(
        engine.response_line(Some("the cat toy\n")),
        Directive::Done(LemmatizeResult {
            lemmatized_text: "the cat toy".to_string(),
            word_lemma_map: vec![
                entry("The", "the", &["the"]),
                entry("cats", "cat", &["cat"]),
                entry("toys", "toy", &["toy"]),
            ],
        })
    );
}

#[test]
fn parts_come_with_each_lemma() {
    let mut engine = ready_engine();
    assert_eq!(engine.lemmatize("كتبها"), send("كتبها\n"));
    assert_eq!(
        engine.response_line(Some("ktb+ha\n")),
        Directive::Done(LemmatizeResult {
            lemmatized_text: "ktb+ha".to_string(),
            word_lemma_map: vec![entry("كتبها", "ktb+ha", &["ktb", "ha"])],
        })
    );
}

#[test]
fn lines_without_an_answer_are_passed_over() {
    let mut engine = ready_engine();
    engine.lemmatize("cats");
    assert_eq!(engine.response_line(Some("\n")), Directive::ReadResponse);
    assert_eq!(engine.response_line(Some("System ready!\n")), Directive::ReadResponse);
    assert_eq!(engine.response_line(Some("   \n")), Directive::ReadResponse);
    assert!(engine.is_busy());
    assert_eq!(
        engine.response_line(Some("  cat  \n")),
        Directive::Done(LemmatizeResult {
            lemmatized_text: "cat".to_string(),
            word_lemma_map: vec![entry("cats", "cat", &["cat"])],
        })
    );
}

#[test]
fn a_mismatch_of_counts_is_a_result_and_no_error() {
    let mut engine = ready_engine();
    engine.lemmatize("cats running fast");
    assert_eq!(
        engine.response_line(Some("cat run\n")),
        Directive::Done(LemmatizeResult {
            lemmatized_text: "cat run".to_string(),
            word_lemma_map: vec![],
        })
    );
    assert!(engine.is_ready());
    assert!(!engine.is_busy());
}

#[test]
fn a_stream_that_ends_during_an_exchange_fails_the_request_only() {
    let mut engine = ready_engine();
    engine.lemmatize("cats");
    assert_eq!(engine.response_line(Some("\n")), Directive::ReadResponse);
    assert_eq!(engine.response_line(None), Directive::Failed(CoreError::ProcessTerminatedEarly));
    assert!(!engine.is_busy());
    assert_eq!(engine.phase(), Phase::Ready);
    assert_eq!(engine.ensure_initialized(), Directive::Ready);
}

#[test]
fn after_the_analyzer_died_every_request_fails_alike() {
    let mut engine = ready_engine();
    for text in ["cats", "dogs", "birds"] {
        assert_eq!(engine.lemmatize(text), send(&format!("{}\n", text)));
        assert_eq!(
            engine.response_line(None),
            Directive::Failed(CoreError::ProcessTerminatedEarly)
        );
        assert!(!engine.is_busy());
    }
}

#[test]
fn two_requests_at_once_become_two_exchanges_in_turn() {
    let mut engine = ready_engine();
    assert_eq!(engine.lemmatize("cats"), send("cats\n"));
    assert_eq!(engine.lemmatize("dogs"), Directive::Busy);
    assert_eq!(engine.lemmatize("dogs"), Directive::Busy);
    assert_eq!(
        engine.response_line(Some("cat\n")),
        Directive::Done(LemmatizeResult {
            lemmatized_text: "cat".to_string(),
            word_lemma_map: vec![entry("cats", "cat", &["cat"])],
        })
    );
    assert_eq!(engine.lemmatize("dogs"), send("dogs\n"));
    assert_eq!(engine.lemmatize("cats"), Directive::Busy);
    assert_eq!(
        engine.response_line(Some("dog\n")),
        Directive::Done(LemmatizeResult {
            lemmatized_text: "dog".to_string(),
            word_lemma_map: vec![entry("dogs", "dog", &["dog"])],
        })
    );
}

#[test]
fn what_is_written_is_one_whole_line_per_admitted_request() {
    let mut engine = ready_engine();
    let mut written = String::new();
    let mut note = |directive: Directive| {
        if let Directive::Send(line) = directive {
            written.push_str(&line);
        }
    };
    note(engine.lemmatize("first one"));
    note(engine.lemmatize("second, refused"));
    note(engine.response_line(Some("\n")));
    note(engine.lemmatize("third, refused"));
    note(engine.response_line(Some("first one\n")));
    note(engine.lemmatize("fourth!"));
    note(engine.response_line(None));
    note(engine.lemmatize("fifth"));
    assert_eq!(written, "first one\nfourth\nfifth\n");
}

#[test]
fn events_out_of_place_change_nothing() {
    let mut engine = Lemmatizer::new("a.jar".to_string());
    assert_eq!(engine.spawn_succeeded(), Directive::Ignored);
    assert_eq!(engine.spawn_failed(), Directive::Ignored);
    assert_eq!(engine.diagnostic_line(Some("System ready!")), Directive::Ignored);
    assert_eq!(engine.diagnostic_line(None), Directive::Ignored);
    assert_eq!(engine.response_line(Some("cat")), Directive::Ignored);
    assert_eq!(engine.response_line(None), Directive::Ignored);
    assert_eq!(engine.phase(), Phase::Unlaunched);

    let mut ready = ready_engine();
    assert_eq!(ready.spawn_succeeded(), Directive::Ignored);
    assert_eq!(ready.spawn_failed(), Directive::Ignored);
    assert_eq!(ready.diagnostic_line(None), Directive::Ignored);
    assert_eq!(ready.response_line(Some("cat")), Directive::Ignored);
    assert_eq!(ready.response_line(Some("\n")), Directive::Ignored);
    assert_eq!(ready.response_line(None), Directive::Ignored);
    assert_eq!(ready.phase(), Phase::Ready);
    assert!(!ready.is_busy());
}

#[test]
fn a_ready_analyzer_stays_ready() {
    let mut engine = ready_engine();
    engine.diagnostic_line(None);
    engine.spawn_failed();
    engine.lemmatize("cats");
    engine.response_line(None);
    assert_eq!(engine.phase(), Phase::Ready);
}

#[test]
fn step_does_what_the_methods_do() {
    let mut engine = Lemmatizer::new("a.jar".to_string());
    assert_eq!(engine.step(Event::EnsureInitialized), spawn(&["-jar", "a.jar"]));
    assert_eq!(engine.step(Event::EnsureInitialized), Directive::InProgress);
    assert_eq!(engine.step(Event::SpawnSucceeded), Directive::ReadDiagnostic);
    assert_eq!(engine.step(Event::DiagnosticLine(Some("Loading\n"))), Directive::ReadDiagnostic);
    assert_eq!(engine.step(Event::DiagnosticLine(Some("System ready!\n"))), Directive::Ready);
    assert_eq!(engine.step(Event::Lemmatize("cats running")), send("cats running\n"));
    assert_eq!(engine.step(Event::Lemmatize("dogs")), Directive::Busy);
    assert_eq!(engine.step(Event::ResponseLine(Some("\n"))), Directive::ReadResponse);
    assert_eq!(
        engine.step(Event::ResponseLine(Some("cat run\n"))),
        Directive::Done(LemmatizeResult {
            lemmatized_text: "cat run".to_string(),
            word_lemma_map: vec![entry("cats", "cat", &["cat"]), entry("running", "run", &["run"])],
        })
    );
    assert_eq!(engine.step(Event::Lemmatize("dogs")), send("dogs\n"));
    assert_eq!(
        engine.step(Event::ResponseLine(None)),
        Directive::Failed(CoreError::ProcessTerminatedEarly)
    );
    assert_eq!(engine.step(Event::SpawnFailed), Directive::Ignored);
}

#[test]
fn a_failed_launch_is_reported_through_step() {
    let mut engine = Lemmatizer::new("a.jar".to_string());
    engine.step(Event::Lemmatize("cats"));
    assert_eq!(engine.step(Event::SpawnFailed), Directive::Failed(CoreError::LaunchFailure));
    assert_eq!(engine.step(Event::Lemmatize("cats")), Directive::Failed(CoreError::LaunchFailure));
}

const TEXTS: [&str; 5] = ["cats running", "hello, world!", "", "room 101", "كتبها"];

const LINES: [Option<&str>; 7] = [
    None,
    Some("\n"),
    Some("System ready!\n"),
    Some("  INFO System ready!\n"),
    Some("cat run\n"),
    Some("ktb+ha\n"),
    Some("Loading models\n"),
];

/// A small generator of numbers below `bound`, the same on every run.
fn next(state: &mut u64, bound: usize) -> usize {
    *state = state.wrapping_mul(6364136223846793005).wrapping_add(1442695040888963407);
    ((*state >> 33) as usize) % bound
}

fn pick(state: &mut u64) -> Event<'static> {
    match next(state, 8) {
        0 => Event::EnsureInitialized,
        1 | 2 => Event::Lemmatize(TEXTS[next(state, TEXTS.len())]),
        3 => Event::SpawnSucceeded,
        4 => {
            if next(state, 4) == 0 {
                Event::SpawnFailed
            } else {
                Event::SpawnSucceeded
            }
        }
        5 => Event::DiagnosticLine(LINES[next(state, LINES.len())]),
        _ => Event::ResponseLine(LINES[next(state, LINES.len())]),
    }
}

#[test]
fn every_run_launches_once_and_sends_whole_lines_in_turn() {
    for seed in 0..500u64 {
        let mut state = seed;
        let keep_digits = seed % 2 == 1;
        let mut engine = Lemmatizer::new("a.jar".to_string()).keeping_digits(keep_digits);
        let mut asked = false;
        let mut spawns = 0;
        let mut in_flight = false;
        let mut written = String::new();
        let mut admitted = String::new();
        for _ in 0..80 {
            let event = pick(&mut state);
            if matches!(event, Event::EnsureInitialized | Event::Lemmatize(_)) {
                asked = true;
            }
            let was_ready = engine.is_ready();
            match engine.step(event) {
                Directive::Spawn(_) => spawns += 1,
                Directive::Send(line) => {
                    assert!(!in_flight, "a request went out while another was pending");
                    in_flight = true;
                    written.push_str(&line);
                    match event {
                        Event::Lemmatize(text) => {
                            admitted.push_str(&filter_text(text, keep_digits));
                            admitted.push('\n');
                        }
                        _ => panic!("a line went out for no request"),
                    }
                }
                Directive::Done(_) => {
                    assert!(in_flight, "a result came for no request");
                    in_flight = false;
                }
                Directive::Failed(_) => {
                    if was_ready {
                        assert!(in_flight, "a failure came for no request");
                        in_flight = false;
                    }
                }
                Directive::Busy | Directive::ReadResponse => assert!(in_flight),
                _ => {}
            }
            assert_eq!(engine.is_busy(), in_flight);
            assert!(!was_ready || engine.is_ready());
        }
        assert_eq!(spawns, if asked { 1 } else { 0 });
        assert_eq!(written, admitted);
    }
}
