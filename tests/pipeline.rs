use auto_correct::assemble::{join_corrections, reassemble};
use auto_correct::batch::{build_batches, MAX_BATCH_CHARS};
use auto_correct::oracle::{start_batch, step, OracleAction, OracleEvent, OracleState, MAX_SAMPLES};
use auto_correct::regions::scan_regions;
use auto_correct::structure::{classify_line, env_name_of, segment_working, EnvStack, LineClass, Segment};

fn lines(text: &str) -> Vec<String> {
    text.lines().map(|l| l.to_string()).collect()
}

fn strings(items: &[&str]) -> Vec<String> {
    items.iter().map(|s| s.to_string()).collect()
}

/// Drives one batch through the oracle state machine with a service that
/// answers `answer` on the first sample.
fn correct_with(batch: &str, answer: &str) -> (String, usize) {
    let (mut state, mut action) = start_batch(batch.to_string());
    let mut submissions = 0;
    let mut output = String::from("old output");
    loop {
        let event = match action {
            OracleAction::Finish(t) => return (t, submissions),
            OracleAction::ReadOutput => OracleEvent::Snapshot(output.clone()),
            OracleAction::ReplaceInput(_) => {
                submissions += 1;
                OracleEvent::InputReplaced
            }
            OracleAction::SampleOutput => {
                output = answer.to_string();
                OracleEvent::Snapshot(output.clone())
            }
            OracleAction::AwaitConfirmation => OracleEvent::Confirmed(output.clone()),
            OracleAction::Ignore => panic!("event out of order"),
        };
        let (s, a) = step(state, event);
        state = s;
        action = a;
    }
}

/// Runs the whole pipeline, with each chunk taken as one sentence and
/// corrected to upper case.
fn run(text: &str) -> (String, usize) {
    let doc = lines(text);
    let regions = scan_regions(&doc);
    let segments = segment_working(&regions.working);
    let mut resolved = Vec::new();
    let mut calls = 0;
    for seg in segments {
        match seg {
            Segment::Preserved(l) => resolved.push(Segment::Preserved(l)),
            Segment::Chunk(t) => {
                let batches = build_batches(&vec![t.clone()]);
                let mut parts = Vec::new();
                for b in batches {
                    let (c, n) = correct_with(&b, &b.trim().to_uppercase());
                    calls += n;
                    parts.push(c);
                }
                resolved.push(Segment::Chunk(join_corrections(&parts)));
            }
        }
    }
    (reassemble(&regions.preamble, &resolved, &regions.trailer), calls)
}

#[test]
fn document_without_start_marker_is_unchanged() {
    let text = "\\documentclass{article}\nSome text.\n%CORRECT_END\nMore.\n";
    let (out, calls) = run(text);
    assert_eq!(out, text);
    assert_eq!(calls, 0);
}

#[test]
fn scenario_plain_working_region() {
    let text = "Hello world.\n%CORRECT_START\nThis is broken grammar.\n%CORRECT_END\nBye.\n";
    let regions = scan_regions(&lines(text));
    assert_eq!(regions.preamble, strings(&["Hello world."]));
    assert_eq!(regions.working, strings(&["This is broken grammar."]));
    assert_eq!(regions.trailer, strings(&["Bye."]));
    let segments = segment_working(&regions.working);
    assert_eq!(segments, vec![Segment::Chunk("This is broken grammar.\n".to_string())]);
    let (out, calls) = run(text);
    assert_eq!(calls, 1);
    assert_eq!(out, "Hello world.\nTHIS IS BROKEN GRAMMAR.\nBye.\n");
}

#[test]
fn scenario_environment_block() {
    let working = strings(&["\\begin{equation}", "x=1", "\\end{equation}", "Fix this sentence."]);
    let segments = segment_working(&working);
    assert_eq!(
        segments,
        vec![
            Segment::Preserved("\\begin{equation}".to_string()),
            Segment::Preserved("x=1".to_string()),
            Segment::Preserved("\\end{equation}".to_string()),
            Segment::Chunk("Fix this sentence.\n".to_string()),
        ]
    );
    let text = "%CORRECT_START\n\\begin{equation}\nx=1\n\\end{equation}\nFix this sentence.\n%CORRECT_END\n";
    let (out, calls) = run(text);
    assert_eq!(calls, 1);
    assert_eq!(out, "\\begin{equation}\nx=1\n\\end{equation}\nFIX THIS SENTENCE.\n");
}

#[test]
fn scenario_greedy_packing() {
    let sentences = vec!["a".repeat(1000), "b".repeat(2000), "c".repeat(1500)];
    let batches = build_batches(&sentences);
    assert_eq!(batches, sentences);
    let small = vec!["a".repeat(1000), "b".repeat(999), "c".repeat(5)];
    let batches = build_batches(&small);
    assert_eq!(batches, vec![format!("{} {}", small[0], small[1]), small[2].clone()]);
    assert_eq!(batches[0].len(), MAX_BATCH_CHARS);
}

#[test]
fn batches_keep_every_sentence_in_order() {
    let sentences: Vec<String> = (0..50).map(|i| format!("Sentence {} {}.", i, "x".repeat(i * 37))).collect();
    let batches = build_batches(&sentences);
    assert!(batches.len() > 1);
    assert_eq!(batches.join(" "), sentences.join(" "));
    for b in &batches {
        assert!(b.chars().count() <= MAX_BATCH_CHARS);
    }
}

#[test]
fn oversized_sentence_forms_its_own_batch() {
    let sentences = vec!["short.".to_string(), "y".repeat(2500), "tail.".to_string()];
    let batches = build_batches(&sentences);
    assert_eq!(batches, sentences);
    assert!(build_batches(&Vec::new()).is_empty());
}

#[test]
fn blank_batch_never_reaches_the_service() {
    let (state, action) = start_batch(" \n\t ".to_string());
    assert_eq!(state, OracleState::Done { result: String::new() });
    assert_eq!(action, OracleAction::Finish(String::new()));
    let (state, action) = start_batch(String::new());
    assert_eq!(state, OracleState::Done { result: String::new() });
    assert_eq!(action, OracleAction::Finish(String::new()));
    let (state, action) = start_batch("Text.".to_string());
    assert_eq!(state, OracleState::Baseline { batch: "Text.".to_string() });
    assert_eq!(action, OracleAction::ReadOutput);
}

#[test]
fn unchanged_output_resubmits_after_a_round() {
    let (mut state, _) = start_batch("Fix me.".to_string());
    let (s, a) = step(state, OracleEvent::Snapshot("same".to_string()));
    assert_eq!(a, OracleAction::ReplaceInput("Fix me.".to_string()));
    let (s, a) = step(s, OracleEvent::InputReplaced);
    assert_eq!(a, OracleAction::SampleOutput);
    state = s;
    for i in 0..MAX_SAMPLES {
        let (s, a) = step(state, OracleEvent::Snapshot("same".to_string()));
        if i + 1 < MAX_SAMPLES {
            assert_eq!(a, OracleAction::SampleOutput);
        } else {
            assert_eq!(a, OracleAction::ReplaceInput("Fix me.".to_string()));
            assert_eq!(s, OracleState::Submitted { batch: "Fix me.".to_string(), prev: "same".to_string() });
        }
        state = s;
    }
    let (s, a) = step(state, OracleEvent::InputReplaced);
    assert_eq!(a, OracleAction::SampleOutput);
    let (s, a) = step(s, OracleEvent::Snapshot("Fixed me.".to_string()));
    assert_eq!(a, OracleAction::AwaitConfirmation);
    assert_eq!(s, OracleState::AwaitingConfirmation);
    let (s, a) = step(s, OracleEvent::Snapshot("ignored".to_string()));
    assert_eq!(a, OracleAction::Ignore);
    let (s, a) = step(s, OracleEvent::Confirmed("Fixed me!".to_string()));
    assert_eq!(a, OracleAction::Finish("Fixed me!".to_string()));
    assert_eq!(s, OracleState::Done { result: "Fixed me!".to_string() });
}

#[test]
fn reassembly_keeps_order_and_puts_trailer_last() {
    let pre = strings(&["pre a", "pre b"]);
    let segs = vec![
        Segment::Chunk("fixed text".to_string()),
        Segment::Preserved("% note".to_string()),
        Segment::Chunk("more".to_string()),
    ];
    let trailer = strings(&["tail"]);
    assert_eq!(reassemble(&pre, &segs, &trailer), "pre a\npre b\nfixed text\n% note\nmore\ntail\n");
    let text = "a\n%CORRECT_START\n%CORRECT_END\nb\n";
    assert_eq!(run(text).0, "a\nb\n");
}

#[test]
fn join_corrections_separates_by_spaces() {
    assert_eq!(join_corrections(&strings(&["A.", "B.", "C."])), "A. B. C.");
    assert_eq!(join_corrections(&Vec::new()), "");
}

#[test]
fn nested_environments_keep_lines_preserved() {
    let mut stack = EnvStack::new();
    assert_eq!(classify_line(&mut stack, "\\begin{a}"), LineClass::Preserved);
    assert_eq!(classify_line(&mut stack, "\\begin{a}"), LineClass::Preserved);
    assert_eq!(classify_line(&mut stack, "\\end{a}"), LineClass::Preserved);
    assert_eq!(stack.depth(), 1);
    assert_eq!(classify_line(&mut stack, "plain words"), LineClass::Preserved);
    assert_eq!(classify_line(&mut stack, "\\end{b}"), LineClass::Preserved);
    assert_eq!(stack.depth(), 1);
    assert_eq!(classify_line(&mut stack, "\\end{a}"), LineClass::Preserved);
    assert_eq!(stack.depth(), 0);
    assert_eq!(classify_line(&mut stack, "plain words"), LineClass::FreeText);
    assert_eq!(classify_line(&mut stack, "% comment"), LineClass::Preserved);
    assert_eq!(classify_line(&mut stack, "\\section{x}"), LineClass::Preserved);
}

#[test]
fn end_removes_first_matching_name_from_bottom() {
    let mut stack = EnvStack::new();
    classify_line(&mut stack, "\\begin{a}");
    classify_line(&mut stack, "\\begin{b}");
    classify_line(&mut stack, "\\end{a}");
    assert_eq!(stack.names, strings(&["b"]));
}

#[test]
fn environment_names() {
    assert_eq!(env_name_of("\\begin{equation}"), "equation");
    assert_eq!(env_name_of("\\begin{figure}[h]{x}"), "figure");
    assert_eq!(env_name_of("\\end{open"), "open");
    assert_eq!(env_name_of("\\begin{}"), "");
}

#[test]
fn missing_end_marker_runs_to_end() {
    let regions = scan_regions(&lines("a\n%CORRECT_START\nb\nc\n"));
    assert_eq!(regions.preamble, strings(&["a"]));
    assert_eq!(regions.working, strings(&["b", "c"]));
    assert!(regions.trailer.is_empty());
    let regions = scan_regions(&lines("x\n%CORRECT_END\n%CORRECT_START\ny\n%CORRECT_END\nz\n%CORRECT_END\n"));
    assert_eq!(regions.preamble, strings(&["x", "%CORRECT_END"]));
    assert_eq!(regions.working, strings(&["y"]));
    assert_eq!(regions.trailer, strings(&["z", "%CORRECT_END"]));
}

#[test]
fn trailing_free_text_is_flushed() {
    let working = strings(&["One line.", "Two line.", "% c", "Three."]);
    assert_eq!(
        segment_working(&working),
        vec![
            Segment::Chunk("One line.\nTwo line.\n".to_string()),
            Segment::Preserved("% c".to_string()),
            Segment::Chunk("Three.\n".to_string()),
        ]
    );
    assert!(segment_working(&Vec::new()).is_empty());
}
