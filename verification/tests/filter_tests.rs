use test_error_filter::filter::abbreviate_test_error;
use test_error_filter::tree::{ErrorNode, Frame};

fn frame(origin: &str) -> Frame {
    Frame { origin: Some(String::from(origin)) }
}

fn leaf(message: &str, frames: Vec<Frame>) -> ErrorNode {
    ErrorNode { message: String::from(message), frames, cause: None, aggregated: None }
}

fn origins(n: &ErrorNode) -> Vec<Option<String>> {
    n.frames.iter().map(|f| f.origin.clone()).collect()
}

fn count_nodes(n: &ErrorNode) -> usize {
    let mut total = 1;
    if let Some(c) = &n.cause {
        total += count_nodes(c);
    }
    if let Some(v) = &n.aggregated {
        for e in v {
            total += count_nodes(e);
        }
    }
    total
}

#[test]
fn user_only_trace_is_untouched() {
    let n = leaf(
        "Error: boom",
        vec![frame("file:///a.js"), frame("file:///b.js")],
    );
    let r = abbreviate_test_error(&n);
    assert_eq!(origins(&r), origins(&n));
    assert_eq!(r.message, "Error: boom");
}

#[test]
fn all_internal_trace_is_preserved() {
    let n = leaf(
        "Error: boom",
        vec![frame("ext:core/setup.js"), frame("[ext:core/run.js]")],
    );
    let r = abbreviate_test_error(&n);
    assert_eq!(
        origins(&r),
        vec![
            Some(String::from("ext:core/setup.js")),
            Some(String::from("[ext:core/run.js]")),
        ]
    );
}

#[test]
fn empty_trace_is_preserved() {
    let n = leaf("Error: boom", vec![]);
    let r = abbreviate_test_error(&n);
    assert_eq!(r.frames.len(), 0);
}

#[test]
fn trailing_internal_run_is_trimmed() {
    // outermost to innermost: [A(user), B(internal), C(internal)] -> [A]
    let n = leaf(
        "Error: boom",
        vec![
            frame("file:///a.js"),
            frame("ext:core/b.js"),
            frame("ext:core/c.js"),
        ],
    );
    let r = abbreviate_test_error(&n);
    assert_eq!(origins(&r), vec![Some(String::from("file:///a.js"))]);
}

#[test]
fn internal_frame_above_user_frame_is_kept() {
    // [A(internal), B(user), C(internal)] -> [A, B]
    let n = leaf(
        "Error: boom",
        vec![
            frame("ext:core/a.js"),
            frame("file:///b.js"),
            frame("ext:core/c.js"),
        ],
    );
    let r = abbreviate_test_error(&n);
    assert_eq!(
        origins(&r),
        vec![Some(String::from("ext:core/a.js")), Some(String::from("file:///b.js"))]
    );
}

#[test]
fn absent_origin_counts_as_user_code() {
    // The frame without an origin is user code: it makes the trace mixed and
    // survives the trim.
    let n = leaf(
        "Error: boom",
        vec![Frame { origin: None }, frame("ext:core/a.js")],
    );
    let r = abbreviate_test_error(&n);
    assert_eq!(origins(&r), vec![None]);
}

#[test]
fn bracketed_and_plain_markers_both_classify_internal() {
    let n = leaf(
        "Error: boom",
        vec![
            frame("file:///a.js"),
            frame("[ext:core/b.js]"),
            frame("ext:core/c.js"),
        ],
    );
    let r = abbreviate_test_error(&n);
    assert_eq!(origins(&r), vec![Some(String::from("file:///a.js"))]);
}

#[test]
fn cause_is_filtered_by_the_same_rule() {
    // The cause's trailing internal frames are stripped exactly as the
    // root's, whatever the root's own frames look like.
    let cause = leaf(
        "Error: inner",
        vec![frame("file:///inner.js"), frame("ext:core/glue.js")],
    );
    let n = ErrorNode {
        message: String::from("Error: outer"),
        frames: vec![frame("file:///outer.js"), frame("ext:core/run.js")],
        cause: Some(Box::new(cause)),
        aggregated: None,
    };
    let r = abbreviate_test_error(&n);
    assert_eq!(origins(&r), vec![Some(String::from("file:///outer.js"))]);
    let rc = r.cause.expect("cause must be preserved");
    assert_eq!(origins(&rc), vec![Some(String::from("file:///inner.js"))]);
    assert_eq!(rc.message, "Error: inner");
}

#[test]
fn node_count_is_preserved() {
    let agg1 = leaf("Error: one", vec![frame("ext:core/a.js")]);
    let agg2 = leaf(
        "Error: two",
        vec![frame("file:///t.js"), frame("ext:core/b.js")],
    );
    let cause_of_cause = leaf("Error: deep", vec![]);
    let cause = ErrorNode {
        message: String::from("Error: mid"),
        frames: vec![frame("file:///m.js")],
        cause: Some(Box::new(cause_of_cause)),
        aggregated: None,
    };
    let n = ErrorNode {
        message: String::from("Error: top"),
        frames: vec![frame("file:///r.js")],
        cause: Some(Box::new(cause)),
        aggregated: Some(vec![agg1, agg2]),
    };
    assert_eq!(count_nodes(&n), 5);
    let r = abbreviate_test_error(&n);
    assert_eq!(count_nodes(&r), 5);
}

#[test]
fn aggregated_errors_keep_their_order_and_are_filtered() {
    let agg1 = leaf(
        "Error: one",
        vec![frame("file:///one.js"), frame("ext:core/a.js")],
    );
    let agg2 = leaf("Error: two", vec![frame("ext:core/b.js")]);
    let agg3 = leaf("Error: three", vec![frame("file:///three.js")]);
    let n = ErrorNode {
        message: String::from("AggregateError: several"),
        frames: vec![],
        cause: None,
        aggregated: Some(vec![agg1, agg2, agg3]),
    };
    let r = abbreviate_test_error(&n);
    let agg = r.aggregated.expect("aggregated list must be preserved");
    assert_eq!(agg.len(), 3);
    assert_eq!(agg[0].message, "Error: one");
    assert_eq!(origins(&agg[0]), vec![Some(String::from("file:///one.js"))]);
    // all-internal sibling kept verbatim
    assert_eq!(origins(&agg[1]), vec![Some(String::from("ext:core/b.js"))]);
    assert_eq!(agg[2].message, "Error: three");
    assert_eq!(origins(&agg[2]), vec![Some(String::from("file:///three.js"))]);
}

#[test]
fn surviving_frames_keep_their_relative_order() {
    let n = leaf(
        "Error: boom",
        vec![
            frame("ext:core/a.js"),
            frame("file:///b.js"),
            frame("ext:core/c.js"),
            frame("file:///d.js"),
            frame("ext:core/e.js"),
        ],
    );
    let r = abbreviate_test_error(&n);
    assert_eq!(
        origins(&r),
        vec![
            Some(String::from("ext:core/a.js")),
            Some(String::from("file:///b.js")),
            Some(String::from("ext:core/c.js")),
            Some(String::from("file:///d.js")),
        ]
    );
}
