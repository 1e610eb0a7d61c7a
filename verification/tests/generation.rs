use wishmaster::generation::{
    contains_stop_sequence, strip_stop_sequences, Action, CancelFlag, Generation, GenerationError,
    Phase, Sampled, StopReason,
};

enum Step {
    Fail,
    Eos,
    Piece(&'static str),
    NoText(&'static str),
}

struct Run {
    fragments: Vec<String>,
    callbacks: usize,
    finishes: usize,
    decodes: usize,
    result: Result<StopReason, String>,
    accumulated: String,
}

fn describe(e: GenerationError) -> String {
    format!("{:?}", e)
}

/// Drives a generation the way a caller does: every action is performed
/// against a script of sampling outcomes, a consumer that declines at its
/// `decline_at`th call, and a decode that fails at its `fail_decode_at`th
/// call.
fn drive(
    max_tokens: usize,
    script: Vec<Step>,
    decline_at: Option<usize>,
    fail_decode_at: Option<usize>,
) -> Run {
    let mut generation = Generation::begin(true, Ok(5), max_tokens).expect("begins");
    let mut run = Run {
        fragments: Vec::new(),
        callbacks: 0,
        finishes: 0,
        decodes: 0,
        result: Err("never finished".to_string()),
        accumulated: String::new(),
    };
    let mut script = script.into_iter();
    let mut action = generation.on_prefill(Ok(()));
    loop {
        action = match action {
            Action::Sample => {
                assert_eq!(generation.phase, Phase::Sampling);
                let outcome = match script.next().expect("script too short") {
                    Step::Fail => Sampled::Failed,
                    Step::Eos => Sampled::EndOfSequence,
                    Step::Piece(p) => Sampled::Piece(p.to_string()),
                    Step::NoText(d) => Sampled::PieceFailed(d.to_string()),
                };
                generation.on_sampled(outcome)
            }
            Action::Emit(fragment) => {
                assert!(!fragment.is_empty());
                run.callbacks += 1;
                let keep_going = decline_at != Some(run.callbacks);
                if keep_going {
                    run.fragments.push(fragment);
                }
                generation.on_consumer(keep_going)
            }
            Action::Decode => {
                run.decodes += 1;
                if fail_decode_at == Some(run.decodes) {
                    generation.on_decoded(Err("device lost".to_string()))
                } else {
                    generation.on_decoded(Ok(()))
                }
            }
            Action::Finish(result) => {
                run.finishes += 1;
                assert!(generation.is_finished());
                assert_eq!(generation.phase, Phase::Done);
                run.result = result.map_err(describe);
                break;
            }
        };
        assert!(generation.produced <= generation.max_tokens);
    }
    run.accumulated = generation.accumulated.clone();
    run
}

#[test]
fn test_generation_refuses_without_model() {
    match Generation::begin(false, Ok(5), 10) {
        Err(GenerationError::ModelNotLoaded) => {}
        _ => panic!("must refuse"),
    }
    match Generation::begin(false, Err("x".to_string()), 10) {
        Err(GenerationError::ModelNotLoaded) => {}
        _ => panic!("must refuse"),
    }
    match Generation::begin(true, Err("bad bytes".to_string()), 10) {
        Err(GenerationError::TokenizeFailed(d)) => assert_eq!(d, "bad bytes"),
        _ => panic!("must refuse"),
    }
    match Generation::begin(true, Ok(0), 10) {
        Err(GenerationError::EmptyPrompt) => {}
        _ => panic!("must refuse"),
    }
    let g = Generation::begin(true, Ok(1), 10).unwrap();
    assert_eq!(g.phase, Phase::Prefill);
    assert_eq!(g.accumulated, "");
    assert_eq!((g.produced, g.max_tokens), (0, 10));
}

#[test]
fn test_generation_prefill_outcomes() {
    let mut g = Generation::begin(true, Ok(3), 10).unwrap();
    match g.on_prefill(Err("no memory".to_string())) {
        Action::Finish(Err(GenerationError::DecodeFailed(d))) => assert_eq!(d, "no memory"),
        other => panic!("unexpected {:?}", other),
    }
    assert!(g.is_finished());
    let mut g = Generation::begin(true, Ok(3), 0).unwrap();
    match g.on_prefill(Ok(())) {
        Action::Finish(Ok(StopReason::MaxTokens)) => {}
        other => panic!("unexpected {:?}", other),
    }
    let mut g = Generation::begin(true, Ok(3), 1).unwrap();
    assert!(matches!(g.on_prefill(Ok(())), Action::Sample));
    assert!(!g.is_finished());
}

#[test]
fn test_generation_runs_to_end_of_sequence() {
    let run = drive(
        10,
        vec![Step::Piece("Hel"), Step::Piece("lo"), Step::Piece(" world"), Step::Eos],
        None,
        None,
    );
    assert_eq!(run.fragments, vec!["Hel", "lo", " world"]);
    assert_eq!(run.result, Ok(StopReason::EndOfSequence));
    assert_eq!((run.callbacks, run.decodes, run.finishes), (3, 3, 1));
    assert_eq!(run.accumulated, "Hello world");
}

#[test]
fn test_generation_stops_at_the_budget() {
    let run = drive(
        2,
        vec![Step::Piece("a"), Step::Piece("b"), Step::Piece("c")],
        None,
        None,
    );
    assert_eq!(run.fragments, vec!["a", "b"]);
    assert_eq!(run.result, Ok(StopReason::MaxTokens));
    assert_eq!((run.decodes, run.finishes), (2, 1));
}

#[test]
fn test_generation_stops_at_a_stop_sequence() {
    let run = drive(
        10,
        vec![Step::Piece("Привет"), Step::Piece("!<|im_end|>"), Step::Piece("never")],
        None,
        None,
    );
    assert_eq!(run.fragments, vec!["Привет", "!"]);
    assert_eq!(run.result, Ok(StopReason::StopSequence));
    assert_eq!((run.decodes, run.finishes), (1, 1));
    assert_eq!(run.accumulated, "Привет!<|im_end|>");

    let bare = drive(10, vec![Step::Piece("a"), Step::Piece("</s>"), Step::Piece("b")], None, None);
    assert_eq!(bare.fragments, vec!["a"]);
    assert_eq!(bare.result, Ok(StopReason::StopSequence));
    assert_eq!(bare.callbacks, 1);
}

#[test]
fn test_generation_detects_a_split_stop_sequence() {
    let run = drive(
        10,
        vec![Step::Piece("ok<|im_"), Step::Piece("end|>"), Step::Piece("never")],
        None,
        None,
    );
    assert_eq!(run.fragments, vec!["ok<|im_", "end|>"]);
    assert_eq!(run.result, Ok(StopReason::StopSequence));
    assert_eq!(run.decodes, 1);
}

#[test]
fn test_generation_skips_empty_pieces() {
    let run = drive(10, vec![Step::Piece(""), Step::Piece("x"), Step::Eos], None, None);
    assert_eq!(run.fragments, vec!["x"]);
    assert_eq!((run.callbacks, run.decodes), (1, 2));
    assert_eq!(run.result, Ok(StopReason::EndOfSequence));
}

#[test]
fn test_cancel_makes_the_callback_the_last() {
    let run = drive(
        10,
        vec![Step::Piece("a"), Step::Piece("b"), Step::Piece("c"), Step::Piece("d")],
        Some(2),
        None,
    );
    assert_eq!(run.fragments, vec!["a"]);
    assert_eq!(run.callbacks, 2);
    assert_eq!(run.result, Ok(StopReason::Cancelled));
    assert_eq!(run.finishes, 1);
    assert_eq!(run.decodes, 1);

    let at_once = drive(10, vec![Step::Piece("a"), Step::Piece("b")], Some(1), None);
    assert!(at_once.fragments.is_empty());
    assert_eq!((at_once.callbacks, at_once.decodes, at_once.finishes), (1, 0, 1));
    assert_eq!(at_once.result, Ok(StopReason::Cancelled));
}

#[test]
fn test_generation_failures_are_reported() {
    let sample = drive(10, vec![Step::Piece("a"), Step::Fail], None, None);
    assert_eq!(sample.fragments, vec!["a"]);
    assert_eq!(sample.result, Err("SampleFailed".to_string()));
    assert_eq!(sample.finishes, 1);

    let piece = drive(10, vec![Step::NoText("bad token")], None, None);
    assert_eq!(piece.result, Err("TokenizeFailed(\"bad token\")".to_string()));

    let decode = drive(10, vec![Step::Piece("a"), Step::Piece("b")], None, Some(1));
    assert_eq!(decode.fragments, vec!["a"]);
    assert_eq!(decode.result, Err("DecodeFailed(\"device lost\")".to_string()));
    assert_eq!(decode.finishes, 1);
}

#[test]
fn test_stop_sequences_are_found_and_removed() {
    assert!(contains_stop_sequence("<|im_end|>"));
    assert!(contains_stop_sequence("x<|im_start|>y"));
    assert!(contains_stop_sequence("x</s>"));
    assert!(contains_stop_sequence("<|endoftext|>y"));
    assert!(!contains_stop_sequence(""));
    assert!(!contains_stop_sequence("<|im_end"));
    assert!(!contains_stop_sequence("< /s>"));
    assert_eq!(strip_stop_sequences(""), "");
    assert_eq!(strip_stop_sequences("</s>"), "");
    assert_eq!(strip_stop_sequences("a<|im_end|>b<|im_end|>c"), "abc");
    assert_eq!(strip_stop_sequences("<|im_start|>assistant\n"), "assistant\n");
    assert_eq!(strip_stop_sequences("<|endoftext|></s>"), "");
    assert_eq!(strip_stop_sequences("<<|im_end|>/s>"), "");
    assert_eq!(strip_stop_sequences("<|im_<|im_end|>end|>"), "<|im_end|>");
    for text in ["a</s></s>b", "<<|im_end|>/s>", "</<|endoftext|>s>", "<|im_<|im_end|>end|>", "<|im_end|"] {
        let expected = ["<|im_end|>", "<|im_start|>", "</s>", "<|endoftext|>"]
            .iter()
            .fold(text.to_string(), |acc, seq| acc.replace(seq, ""));
        assert_eq!(strip_stop_sequences(text), expected, "for {:?}", text);
    }
}

#[test]
fn test_cancel_flag_withholds_the_fragment() {
    let mut flag = CancelFlag::new();
    assert!(!flag.requested);
    assert_eq!(flag.deliver("a".to_string()), Some("a".to_string()));
    flag.request();
    assert!(flag.requested);
    assert_eq!(flag.deliver("b".to_string()), None);
    flag.request();
    assert_eq!(flag.deliver("c".to_string()), None);
    flag.reset();
    assert_eq!(flag.deliver("d".to_string()), Some("d".to_string()));

    let mut generation = Generation::begin(true, Ok(3), 10).unwrap();
    let mut flag = CancelFlag::new();
    let mut sent: Vec<String> = Vec::new();
    let mut callbacks = 0;
    let mut pieces = vec!["one", "two", "three", "four"].into_iter();
    let mut action = generation.on_prefill(Ok(()));
    let result = loop {
        action = match action {
            Action::Sample => generation.on_sampled(Sampled::Piece(pieces.next().unwrap().to_string())),
            Action::Emit(fragment) => {
                callbacks += 1;
                let passed = flag.deliver(fragment);
                let keep_going = passed.is_some();
                if let Some(text) = passed {
                    sent.push(text);
                }
                if sent.len() == 2 {
                    flag.request();
                }
                generation.on_consumer(keep_going)
            }
            Action::Decode => generation.on_decoded(Ok(())),
            Action::Finish(result) => break result,
        };
    };
    assert_eq!(sent, vec!["one", "two"]);
    assert_eq!(callbacks, 3);
    assert!(matches!(result, Ok(StopReason::Cancelled)));
    assert!(generation.is_finished());
    assert!(generation.is_well_formed());
}
