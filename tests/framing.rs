use arroyo_state::framing::{Framing, FramingIterator, FramingMethod, NewlineDelimitedFraming};
use std::sync::Arc;

fn frames(framing: Option<Arc<Framing>>, text: &str) -> Vec<String> {
    FramingIterator::new(framing, text.as_bytes())
        .collect_frames()
        .into_iter()
        .map(|t| String::from_utf8(t).unwrap())
        .collect()
}

#[test]
fn test_line_framing() {
    let framing = Some(Arc::new(Framing {
        method: FramingMethod::Newline(NewlineDelimitedFraming {
            max_line_length: None,
        }),
    }));

    let result = frames(framing.clone(), "one block");
    assert_eq!(vec!["one block".to_string()], result);

    let result = frames(framing.clone(), "one block\ntwo block\nthree block");
    assert_eq!(
        vec![
            "one block".to_string(),
            "two block".to_string(),
            "three block".to_string(),
        ],
        result
    );

    let result = frames(framing.clone(), "one block\ntwo block\nthree block\n");
    assert_eq!(
        vec![
            "one block".to_string(),
            "two block".to_string(),
            "three block".to_string(),
        ],
        result
    );
}

#[test]
fn test_max_line_length() {
    let framing = Some(Arc::new(Framing {
        method: FramingMethod::Newline(NewlineDelimitedFraming {
            max_line_length: Some(5),
        }),
    }));

    let result = frames(framing, "one block\ntwo block\nwhole");
    assert_eq!(
        vec!["one b".to_string(), "two b".to_string(), "whole".to_string()],
        result
    );
}

#[test]
fn unframed_buffer_is_one_frame() {
    let result = frames(None, "a\nb\n");
    assert_eq!(vec!["a\nb\n".to_string()], result);
    assert!(frames(None, "").is_empty());
}

#[test]
fn empty_lines_are_frames() {
    let framing = Some(Arc::new(Framing {
        method: FramingMethod::Newline(NewlineDelimitedFraming {
            max_line_length: Some(0),
        }),
    }));
    let result = frames(framing, "ab\n\ncd");
    assert_eq!(vec![String::new(), String::new(), String::new()], result);
}

#[test]
fn next_hands_out_one_frame_at_a_time() {
    let framing = Some(Arc::new(Framing {
        method: FramingMethod::Newline(NewlineDelimitedFraming {
            max_line_length: None,
        }),
    }));
    let mut it = FramingIterator::new(framing, b"x\ny");
    assert_eq!(it.next(), Some(b"x".to_vec()));
    assert_eq!(it.next(), Some(b"y".to_vec()));
    assert_eq!(it.next(), None);
    assert_eq!(it.next(), None);
}
