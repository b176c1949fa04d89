use selection_translate::extraction::{
    ExtractionFailure, ExtractionSource, TriggerKind,
};
use selection_translate::geometry::{ScreenPoint, ScreenRect};
use selection_translate::ocr::{
    admit_recognition, check_buffer, check_image, crop_anchor, crop_rect, expected_bgra8_len,
    has_exact_bgra8_len, hover_word, nearest_word, pointer_rect_for_dpi, recognition_wait,
    selection_center, selection_context_padding, selection_context_rect_for_dpi, target_words,
    valid_line_bounds, word_indices_in_region, Bounds, Coordinate, OcrExtractor, OcrScene,
    OcrWorker, WordBox, HOVER_CONTEXT_HEIGHT, HOVER_CONTEXT_WIDTH, MANUAL_POINTER_HEIGHT,
    MANUAL_POINTER_WIDTH, OCR_REQUEST_TIMEOUT,
};
use selection_translate::ocr_run::{
    finish_recognition, recognition_step, recognized_target, sentence_query, RecognitionNext,
    RecognitionStep,
};
use selection_translate::ocr_text::{
    all_words, assemble_text, check_recognized, contiguous_line_group, hover_context_admitted,
    hover_sentence_from_lines, normalized_words_target, target_screen_rect, OcrLine, WordPlace,
};

fn at(value: f32) -> Coordinate {
    Coordinate::from_bits(value.to_bits())
}

fn bounds(left: f32, top: f32, right: f32, bottom: f32) -> Bounds {
    Bounds {
        left: at(left),
        top: at(top),
        right: at(right),
        bottom: at(bottom),
    }
}

fn word(text: &str, left: f32, top: f32, right: f32, bottom: f32) -> WordBox {
    WordBox {
        text: text.into(),
        bounds: bounds(left, top, right, bottom),
    }
}

type Edges = (f32, f32, f32, f32);

fn distance_squared(edges: Edges, x: f32, y: f32) -> f32 {
    let (left, top, right, bottom) = edges;
    let dx = if x < left {
        left - x
    } else if x > right {
        x - right
    } else {
        0.0
    };
    let dy = if y < top {
        top - y
    } else if y > bottom {
        y - bottom
    } else {
        0.0
    };
    dx * dx + dy * dy
}

fn distances(boxes: &[Edges], x: f32, y: f32) -> Vec<Coordinate> {
    boxes
        .iter()
        .map(|edges| at(distance_squared(*edges, x, y)))
        .collect()
}

fn contiguous(first: Edges, second: Edges) -> bool {
    let valid = |e: Edges| valid_line_bounds(bounds(e.0, e.1, e.2, e.3));
    if !valid(first) || !valid(second) {
        return false;
    }
    let (left, top, right, bottom) = first;
    let (other_left, other_top, other_right, other_bottom) = second;
    let vertical_gap = (top - other_bottom).max(other_top - bottom).max(0.0);
    let horizontal_gap = (left - other_right).max(other_left - right).max(0.0);
    let max_height = (bottom - top).max(other_bottom - other_top);
    vertical_gap <= max_height * 1.5 && horizontal_gap <= max_height * 2.0
}

fn line_boxes(lines: &[Edges]) -> Vec<Option<Bounds>> {
    lines
        .iter()
        .map(|e| Some(bounds(e.0, e.1, e.2, e.3)))
        .collect()
}

fn links(lines: &[Edges]) -> Vec<Vec<bool>> {
    lines
        .iter()
        .map(|first| {
            lines
                .iter()
                .map(|second| contiguous(*first, *second))
                .collect()
        })
        .collect()
}

#[test]
fn nearest_word_prefers_containing_or_closest_box() {
    let words = [(0.0, 0.0, 20.0, 20.0), (30.0, 0.0, 50.0, 20.0)];
    assert_eq!(nearest_word(&distances(&words, 10.0, 10.0)), Some(0));
    assert_eq!(nearest_word(&distances(&words, 49.0, 10.0)), Some(1));
}

#[test]
fn geometry_matches_trigger_contract() {
    let target = ScreenRect::new(10, 20, 30, 40);
    assert_eq!(
        OcrExtractor::selection_rect(target),
        ScreenRect::new(-6, 4, 46, 56)
    );
    assert_eq!(selection_context_padding(96), (480, 48));
    assert_eq!(
        selection_context_rect_for_dpi(target, 96),
        ScreenRect::new(-470, -28, 510, 88)
    );
    let context = selection_context_rect_for_dpi(target, 96);
    assert!(context.left < target.left);
    assert!(context.top < target.top);
    assert!(context.right > target.right);
    assert!(context.bottom > target.bottom);
    assert_eq!(
        OcrExtractor::manual_rect(None, ScreenPoint::new(0, 0), 96),
        ScreenRect::new(-480, -160, 480, 160)
    );
    assert_eq!(
        pointer_rect_for_dpi(
            ScreenPoint::new(0, 0),
            MANUAL_POINTER_WIDTH,
            MANUAL_POINTER_HEIGHT,
            192,
        ),
        ScreenRect::new(-960, -320, 960, 320)
    );
    assert_eq!(
        pointer_rect_for_dpi(
            ScreenPoint::new(0, 0),
            HOVER_CONTEXT_WIDTH,
            HOVER_CONTEXT_HEIGHT,
            96,
        ),
        ScreenRect::new(-768, -192, 768, 192)
    );
    assert_eq!(
        OcrExtractor::hover_rect(ScreenPoint::new(0, 0), 96),
        pointer_rect_for_dpi(
            ScreenPoint::new(0, 0),
            HOVER_CONTEXT_WIDTH,
            HOVER_CONTEXT_HEIGHT,
            96,
        )
    );
}

#[test]
fn region_selection_uses_the_recognized_word_index_for_repeated_words() {
    let on_screen = [
        bounds(0.0, 0.0, 35.0, 20.0),
        bounds(100.0, 0.0, 135.0, 20.0),
    ];
    assert_eq!(
        word_indices_in_region(&on_screen, bounds(90.0, 0.0, 140.0, 25.0)),
        vec![1]
    );
}

#[test]
fn hover_requires_derived_sentence_context() {
    assert_eq!(hover_context_admitted(None, "", "word"), None);
    assert_eq!(
        hover_context_admitted(Some("\u{200B} \u{FEFF}".into()), "", "word"),
        None
    );
    assert_eq!(
        hover_context_admitted(Some("word".into()), "word", "word"),
        Some("word".into())
    );
    assert_eq!(
        hover_context_admitted(
            Some("A word in context.".into()),
            "A word in context.",
            "word"
        ),
        Some("A word in context.".into())
    );
    assert_eq!(
        hover_context_admitted(Some("other sentence.".into()), "other sentence.", "word"),
        None
    );
}

#[test]
fn hover_requires_pointer_inside_a_valid_word_box() {
    let words = vec![word("hello", 10.0, 10.0, 30.0, 25.0)];

    assert_eq!(hover_word(&words, at(20.0), at(20.0)), Some(0));
    assert_eq!(hover_word(&words, at(5.0), at(20.0)), None);
    assert_eq!(hover_word(&words, at(30.0), at(20.0)), None);
    assert_eq!(hover_word(&words, at(f32::NAN), at(20.0)), None);
}

#[test]
fn hover_skips_malformed_boxes_and_uses_the_exact_containing_word() {
    let words = vec![
        word("malformed", 40.0, 10.0, 20.0, 25.0),
        word("infinite", f32::NAN, 10.0, 60.0, 25.0),
        word("target", 10.0, 10.0, 30.0, 25.0),
        word("nearby", 31.0, 10.0, 50.0, 25.0),
    ];

    assert_eq!(hover_word(&words, at(20.0), at(20.0)), Some(2));
    assert_eq!(hover_word(&words, at(35.0), at(20.0)), Some(3));
    assert_eq!(hover_word(&words, at(55.0), at(20.0)), None);
}

#[test]
fn hover_line_group_keeps_wrapped_neighbors_and_rejects_far_columns() {
    let lines = [
        (10.0, 10.0, 100.0, 20.0),
        (12.0, 22.0, 95.0, 32.0),
        (11.0, 34.0, 98.0, 44.0),
        (300.0, 22.0, 390.0, 32.0),
    ];
    assert_eq!(
        contiguous_line_group(&line_boxes(&lines), &links(&lines), 0),
        vec![0, 1, 2]
    );
}

#[test]
fn line_group_is_the_same_from_each_of_its_members() {
    let lines = [
        (10.0, 10.0, 100.0, 20.0),
        (12.0, 22.0, 95.0, 32.0),
        (11.0, 34.0, 98.0, 44.0),
        (300.0, 22.0, 390.0, 32.0),
        (60.0, 10.0, 50.0, 20.0),
    ];
    for member in 0..3 {
        assert_eq!(
            contiguous_line_group(&line_boxes(&lines), &links(&lines), member),
            vec![0, 1, 2]
        );
    }
    assert_eq!(
        contiguous_line_group(&line_boxes(&lines), &links(&lines), 3),
        vec![3]
    );
    assert!(contiguous_line_group(&line_boxes(&lines), &links(&lines), 4).is_empty());
    assert!(contiguous_line_group(&line_boxes(&lines), &links(&lines), 9).is_empty());
}

#[test]
fn hover_sentence_joins_only_the_target_wrapped_line_group() {
    let lines = vec![
        "This sentence".to_owned(),
        "wraps around target here.".to_owned(),
        "Unrelated column.".to_owned(),
    ];
    let edges = [
        (10.0, 10.0, 100.0, 20.0),
        (12.0, 22.0, 110.0, 32.0),
        (300.0, 22.0, 390.0, 32.0),
    ];
    let places = vec![WordPlace {
        line: 1,
        line_offset: Some("wraps around ".len()),
        context_offset: None,
    }];
    let query = hover_sentence_from_lines(0, &places, &lines, &line_boxes(&edges), &links(&edges))
        .expect("a sentence");
    assert_eq!(query.source, "This sentence wraps around target here.");
    assert_eq!(&query.source[query.offset..query.offset + 6], "target");
}

#[test]
fn formatting_only_ocr_words_are_absent_from_the_target() {
    let normalized = vec![String::new(), String::new(), "actual".to_owned()];
    assert_eq!(normalized_words_target(&normalized, &vec![0, 1]), "");
    assert_eq!(normalized_words_target(&normalized, &vec![0, 2]), "actual");
}

#[test]
fn bgra8_length_is_checked_without_overflow() {
    assert_eq!(expected_bgra8_len(2, 3), Some(24));
    assert_eq!(
        expected_bgra8_len(u32::MAX, u32::MAX),
        usize::MAX.checked_mul(4)
    );
    assert!(has_exact_bgra8_len(2, 3, 24));
    assert!(!has_exact_bgra8_len(2, 3, 23));
    assert!(!has_exact_bgra8_len(0, 3, 0));
    assert!(!has_exact_bgra8_len(i32::MAX as u32 + 1, 1, 4));
}

#[test]
fn coordinates_are_ordered_as_their_numbers() {
    let samples = [
        0.0_f32,
        -0.0,
        1.0,
        -1.0,
        1.5,
        f32::MIN_POSITIVE,
        -f32::MIN_POSITIVE,
        f32::MAX,
        f32::MIN,
        f32::INFINITY,
        f32::NEG_INFINITY,
        f32::NAN,
        1e-45,
        -1e-45,
        2047.75,
    ];
    for a in samples {
        assert_eq!(at(a).is_finite(), a.is_finite());
        for b in samples {
            assert_eq!(at(a).lt(at(b)), a < b);
            assert_eq!(at(a).le(at(b)), a <= b);
        }
    }
}

#[test]
fn crops_follow_the_trigger() {
    let point = Some(ScreenPoint::new(100, 100));
    let rect = Some(ScreenRect::new(10, 20, 30, 40));
    assert_eq!(
        crop_anchor(TriggerKind::Hover, None, rect),
        Err(ExtractionFailure::EmptyRange)
    );
    assert_eq!(
        crop_anchor(TriggerKind::Hover, point, None),
        Ok(ScreenPoint::new(100, 100))
    );
    assert_eq!(
        crop_rect(TriggerKind::Hover, point, None, 96),
        Ok(OcrExtractor::hover_rect(ScreenPoint::new(100, 100), 96))
    );
    assert_eq!(
        selection_center(ScreenRect::new(10, 20, 30, 40)),
        ScreenPoint::new(20, 30)
    );
    assert_eq!(
        OcrExtractor::selection_context_rect(ScreenRect::new(10, 20, 30, 40), 96),
        ScreenRect::new(-470, -28, 510, 88)
    );
}

#[test]
fn images_and_buffers_are_checked() {
    assert_eq!(check_image(2, 3, 24, 3), Ok(()));
    assert!(check_image(2, 3, 24, 2).is_err());
    assert!(check_image(2, 3, 25, 3).is_err());
    assert_eq!(check_buffer(2, 3, 24), Ok(()));
    assert!(check_buffer(2, 3, 20).is_err());
}

#[test]
fn one_recognition_runs_at_a_time() {
    assert_eq!(admit_recognition(false, OcrWorker::Idle), Ok(()));
    assert_eq!(admit_recognition(false, OcrWorker::Finished), Ok(()));
    assert!(admit_recognition(false, OcrWorker::Running).is_err());
    assert!(admit_recognition(true, OcrWorker::Idle).is_err());
    assert!(recognition_wait(false, 0, OCR_REQUEST_TIMEOUT).is_ok());
    assert!(recognition_wait(true, 0, OCR_REQUEST_TIMEOUT).is_err());
}

#[test]
fn recognition_calls_run_in_order_and_release_the_runtime() {
    let mut step = RecognitionStep::InitializeRuntime;
    let mut performed = 1;
    loop {
        match recognition_step(step, true) {
            RecognitionNext::Perform(next) => {
                step = next;
                performed += 1;
            }
            RecognitionNext::Recognized { release } => {
                assert!(release);
                break;
            }
            RecognitionNext::Fail { .. } => panic!("a step failed"),
        }
    }
    assert_eq!(performed, 10);
    assert_eq!(
        recognition_step(RecognitionStep::InitializeRuntime, false),
        RecognitionNext::Fail {
            failure: ExtractionFailure::Platform,
            release: false
        }
    );
    assert_eq!(
        recognition_step(RecognitionStep::MakeEngine, false),
        RecognitionNext::Fail {
            failure: ExtractionFailure::UnsupportedPattern,
            release: true
        }
    );
}

fn sample_lines() -> Vec<OcrLine> {
    vec![
        OcrLine {
            text: "one two".to_owned(),
            words: vec![
                word("one", 0.0, 0.0, 20.0, 10.0),
                word("two", 30.0, 0.0, 50.0, 10.0),
            ],
        },
        OcrLine {
            text: "two three".to_owned(),
            words: vec![
                word("two", 0.0, 12.0, 20.0, 22.0),
                word("three", 30.0, 12.0, 60.0, 22.0),
            ],
        },
    ]
}

fn sample_scene(pointer: (f32, f32)) -> OcrScene {
    let edges = [
        (0.0, 0.0, 20.0, 10.0),
        (30.0, 0.0, 50.0, 10.0),
        (0.0, 12.0, 20.0, 22.0),
        (30.0, 12.0, 60.0, 22.0),
    ];
    let lines = sample_lines();
    let words: Vec<WordBox> = lines.into_iter().flat_map(|line| line.words).collect();
    OcrScene {
        on_screen: words.iter().map(|word| word.bounds).collect(),
        region: None,
        pointer: Some((at(pointer.0), at(pointer.1))),
        distances: distances(&edges, pointer.0, pointer.1),
    }
}

#[test]
fn words_are_placed_in_the_joined_text() {
    let text = assemble_text(&sample_lines());
    assert_eq!(text.context, "one two two three");
    let offsets: Vec<Option<usize>> = text
        .places
        .iter()
        .map(|place| place.context_offset)
        .collect();
    assert_eq!(offsets, vec![Some(0), Some(4), Some(8), Some(12)]);
    assert_eq!(text.places[3].line_offset, Some(4));
    assert_eq!(text.line_bounds[0], Some(bounds(0.0, 0.0, 50.0, 10.0)));
    assert_eq!(check_recognized(0, "x"), Err(ExtractionFailure::EmptyRange));
    assert_eq!(check_recognized(1, " "), Err(ExtractionFailure::EmptyRange));
}

#[test]
fn hovered_word_is_recognized_with_its_sentence() {
    let lines = sample_lines();
    let scene = sample_scene((10.0, 15.0));
    let words = all_words(&lines);
    assert_eq!(words.len(), 4);
    assert_eq!(words[3].text, "three");
    assert_eq!(target_words(TriggerKind::Hover, &words, &scene), vec![2]);
    let normalized: Vec<String> = words.iter().map(|word| word.text.clone()).collect();
    let found = recognized_target(TriggerKind::Hover, &lines, &scene, &normalized).expect("target");
    assert_eq!(found.target, "two");
    let edges = [(0.0, 0.0, 50.0, 10.0), (0.0, 12.0, 60.0, 22.0)];
    assert_eq!(found.text.texts, vec!["one two", "two three"]);
    let query = sentence_query(TriggerKind::Hover, &found, &links(&edges)).expect("query");
    assert_eq!(query.source, "one two two three");
    assert_eq!(query.offset, 8);
    let boxes = vec![
        Some(ScreenRect::new(0, 0, 20, 10)),
        Some(ScreenRect::new(30, 0, 50, 10)),
        Some(ScreenRect::new(0, 12, 20, 22)),
        Some(ScreenRect::new(30, 12, 60, 22)),
    ];
    let crop = ScreenRect::new(100, 200, 300, 400);
    assert_eq!(
        target_screen_rect(&boxes, &vec![0, 3], crop),
        Some(ScreenRect::new(100, 200, 160, 222))
    );
    let sentence = Some("one two two three".to_owned());
    let result = finish_recognition(
        TriggerKind::Hover,
        found,
        sentence,
        "one two two three",
        "two",
        &boxes,
        crop,
    )
    .expect("text");
    assert_eq!(result.target, "two");
    assert_eq!(result.source, ExtractionSource::Ocr);
    assert_eq!(result.screen_rect, Some(ScreenRect::new(100, 212, 120, 222)));
}

#[test]
fn hover_without_a_word_or_a_sentence_is_empty() {
    let lines = sample_lines();
    let scene = sample_scene((90.0, 90.0));
    let normalized: Vec<String> = all_words(&lines).iter().map(|word| word.text.clone()).collect();
    assert_eq!(
        recognized_target(TriggerKind::Hover, &lines, &scene, &normalized).unwrap_err(),
        ExtractionFailure::EmptyRange
    );
    let manual = recognized_target(TriggerKind::Manual, &lines, &scene, &normalized).expect("near");
    assert_eq!(manual.target, "three");
    let query = sentence_query(TriggerKind::Manual, &manual, &links(&[(0.0, 0.0, 1.0, 1.0), (0.0, 0.0, 1.0, 1.0)]))
        .expect("query");
    assert_eq!(query.offset, 12);
    let crop = ScreenRect::new(0, 0, 1, 1);
    assert_eq!(
        finish_recognition(
            TriggerKind::Hover,
            manual,
            None,
            "",
            "three",
            &vec![None, None, None, None],
            crop
        ),
        Err(ExtractionFailure::EmptyRange)
    );
}
