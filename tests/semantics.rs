use flt::semantics::{
    anchor, to_flags, FlutterRect, FlutterSemanticsFlag, FlutterSemanticsNode, FlutterSemanticsTree,
    SemanticsUpdate,
};
use flt::transform::{mul_fixed, FlutterTransformation, FIXED_ONE};

fn translate(x: i64, y: i64) -> FlutterTransformation {
    FlutterTransformation { trans_x: x * FIXED_ONE, trans_y: y * FIXED_ONE, ..FlutterTransformation::empty() }
}

fn node(label: &str, flags: Vec<FlutterSemanticsFlag>, transform: FlutterTransformation) -> FlutterSemanticsNode {
    FlutterSemanticsNode {
        label: label.to_string(),
        flags,
        value: String::new(),
        rect: FlutterRect { left: 0, top: 0, right: 0, bottom: 0 },
        transform,
    }
}

fn update(id: i32, children: Vec<i32>, n: FlutterSemanticsNode) -> SemanticsUpdate {
    SemanticsUpdate { id, children, node: n }
}

#[test]
fn identity_composition_leaves_a_transform_unchanged() {
    let t = FlutterTransformation {
        scale_x: 3 * FIXED_ONE,
        scale_y: FIXED_ONE / 2,
        trans_x: -7 * FIXED_ONE,
        trans_y: 12345,
        pers2: 2 * FIXED_ONE,
        skew_x: FIXED_ONE,
        skew_y: -FIXED_ONE / 3,
        pers0: 17,
        pers1: -5,
    };
    assert_eq!(FlutterTransformation::empty().merge_with(&t), t);
    assert_eq!(t.merge_with(&FlutterTransformation::empty()), t);
}

#[test]
fn translations_add_in_either_order() {
    let a = translate(3, -2);
    let b = translate(10, 5);
    assert_eq!(a.merge_with(&b).trans_x, 13 * FIXED_ONE);
    assert_eq!(a.merge_with(&b).trans_y, 3 * FIXED_ONE);
    assert_eq!(a.merge_with(&b).trans_x, b.merge_with(&a).trans_x);
    assert_eq!(a.merge_with(&b).trans_y, b.merge_with(&a).trans_y);
}

#[test]
fn scales_multiply() {
    let a = FlutterTransformation { scale_x: 2 * FIXED_ONE, scale_y: FIXED_ONE / 2, ..FlutterTransformation::empty() };
    let b = FlutterTransformation { scale_x: 3 * FIXED_ONE, scale_y: FIXED_ONE / 4, ..FlutterTransformation::empty() };
    let m = a.merge_with(&b);
    assert_eq!(m.scale_x, 6 * FIXED_ONE);
    assert_eq!(m.scale_y, FIXED_ONE / 8);
    assert_eq!(mul_fixed(-3 * FIXED_ONE, FIXED_ONE / 2), -3 * FIXED_ONE / 2);
    assert_eq!(mul_fixed(i64::MAX, 2 * FIXED_ONE), i64::MAX);
}

#[test]
fn second_update_of_an_id_replaces_only_that_id() {
    let mut tree = FlutterSemanticsTree::new();
    tree.update(vec![
        update(0, vec![5], node("root", vec![], FlutterTransformation::empty())),
        update(9, vec![1, 2], node("other", vec![], FlutterTransformation::empty())),
    ]);
    tree.update(vec![update(5, vec![], node("first", vec![], FlutterTransformation::empty()))]);
    tree.update(vec![update(5, vec![7], node("second", vec![], FlutterTransformation::empty()))]);
    assert_eq!(tree.children_of(5), Some(&vec![7]));
    assert_eq!(tree.node(5).unwrap().label, "second");
    assert_eq!(tree.children_of(9), Some(&vec![1, 2]));
    assert_eq!(tree.node(9).unwrap().label, "other");
    assert_eq!(tree.children_of(0), Some(&vec![5]));
    assert!(tree.node(7).is_none());
}

#[test]
fn graph_needs_every_node_it_meets() {
    let mut tree = FlutterSemanticsTree::new();
    assert!(tree.as_graph().is_none());
    tree.update(vec![update(0, vec![1], node("", vec![], FlutterTransformation::empty()))]);
    assert!(tree.as_graph().is_none());
    tree.update(vec![update(1, vec![], node("leaf", vec![], FlutterTransformation::empty()))]);
    let graph = tree.as_graph().unwrap();
    assert_eq!(graph.children.len(), 1);
    assert_eq!(graph.children[0].current.label, "leaf");
    assert!(graph.children[0].children.is_empty());
}

#[test]
fn cycles_do_not_make_a_graph() {
    let mut tree = FlutterSemanticsTree::new();
    tree.update(vec![
        update(0, vec![1], node("", vec![], FlutterTransformation::empty())),
        update(1, vec![0], node("", vec![], FlutterTransformation::empty())),
    ]);
    assert!(tree.as_graph().is_none());
    assert!(tree.as_label_positions().is_none());
}

#[test]
fn label_positions_walk_depth_first_and_skip_hidden_and_empty() {
    let mut tree = FlutterSemanticsTree::new();
    let scaled = FlutterTransformation { scale_x: 2 * FIXED_ONE, scale_y: 2 * FIXED_ONE, ..translate(2, 2) };
    tree.update(vec![
        update(0, vec![1, 2], node("", vec![], FlutterTransformation::empty())),
        update(1, vec![], node("a", vec![], translate(10, 4))),
        update(2, vec![3], node("b", vec![FlutterSemanticsFlag::IsHidden], translate(1, 1))),
        update(3, vec![], node("c", vec![], scaled)),
    ]);
    let labels = tree.as_label_positions().unwrap();
    let found: Vec<(usize, usize, String)> = labels.into_iter().map(|l| (l.x, l.y, l.label)).collect();
    assert_eq!(found, vec![(10, 4, "a".to_string()), (6, 6, "c".to_string())]);
}

#[test]
fn anchor_rounds_half_away_and_stops_at_zero() {
    assert_eq!(anchor(3 * FIXED_ONE / 2, FIXED_ONE), 2);
    assert_eq!(anchor(5 * FIXED_ONE / 4, FIXED_ONE), 1);
    assert_eq!(anchor(-4 * FIXED_ONE, FIXED_ONE), 0);
}

#[test]
fn flags_come_from_their_bits() {
    assert_eq!(to_flags(0), vec![]);
    assert_eq!(
        to_flags((1 << 0) | (1 << 3) | (1 << 13)),
        vec![
            FlutterSemanticsFlag::HasCheckedState,
            FlutterSemanticsFlag::IsButton,
            FlutterSemanticsFlag::IsHidden
        ]
    );
    assert_eq!(to_flags(1 << 25), vec![FlutterSemanticsFlag::IsCheckStateMixed]);
    assert!(node("x", to_flags(1 << 13), FlutterTransformation::empty()).is_hidden());
}

use flt::text_input::{apply_text_input_call, decode_text_input, handle_message, ImeState, PlatformMessage, TextInputCall};

fn message(channel: &str, body: &str) -> PlatformMessage<()> {
    PlatformMessage { channel: channel.to_string(), message: body.as_bytes().to_vec(), response_handle: () }
}

#[test]
fn text_input_calls_are_decoded() {
    assert!(matches!(
        decode_text_input(&br#"{"method":"TextInput.setClient","args":[3,{}]}"#.to_vec()),
        TextInputCall::SetClient(3)
    ));
    match decode_text_input(&br#"{"method":"TextInput.setEditingState","args":[{"text":"hi"}]}"#.to_vec()) {
        TextInputCall::SetEditingState(text) => assert_eq!(text, "hi"),
        _ => panic!("expected an editing state"),
    }
    assert!(matches!(decode_text_input(&b"not json".to_vec()), TextInputCall::Other));
    assert!(matches!(
        decode_text_input(&br#"{"method":"TextInput.show","args":[]}"#.to_vec()),
        TextInputCall::Other
    ));
}

#[test]
fn editing_state_needs_a_client() {
    let mut state: Option<ImeState> = None;
    apply_text_input_call(&mut state, TextInputCall::SetEditingState("lost".to_string()));
    assert!(state.is_none());
    apply_text_input_call(&mut state, TextInputCall::SetClient(7));
    apply_text_input_call(&mut state, TextInputCall::SetEditingState("abc".to_string()));
    let s = state.unwrap();
    assert_eq!((s.client_id, s.text.as_str()), (7, "abc"));
}

#[test]
fn platform_messages_go_unhandled_and_only_text_input_changes_state() {
    let mut state: Option<ImeState> = None;
    assert!(!handle_message(&mut state, &message("flutter/platform", r#"{"method":"TextInput.setClient","args":[1]}"#)));
    assert!(state.is_none());
    assert!(!handle_message(&mut state, &message("flutter/textinput", r#"{"method":"TextInput.setClient","args":[1]}"#)));
    assert_eq!(state.as_ref().map(|s| s.client_id), Some(1));
}
