use autoclicker::actions::{Action, DelayAction, KeyButton, LoopAction, MoveAction, PressAction};
use autoclicker::codec::{decode_loop, encode_loop, DecodeError, FORMAT_VERSION};

fn sample_press() -> Action {
    Action::Press(PressAction {
        keybutton: KeyButton::KeyboardKey(65),
        down: true,
        up: true,
        hold_time_ms: 50,
        delay_after_ms: 10,
    })
}

fn sample_move() -> Action {
    Action::Move(MoveAction { x: -120, y: 45, relative: true, move_time_ms: 250, delay_after_ms: 1 })
}

fn sample_delay() -> Action {
    Action::Delay(DelayAction { random: true, delay_ms_min: 5, delay_ms_max: 9 })
}

/// A tree with all four variants and nesting depth three.
fn deep_tree() -> LoopAction {
    let innermost = LoopAction {
        infinite: true,
        iterations: 7,
        actions: vec![sample_delay(), sample_press()],
    };
    let middle = LoopAction {
        infinite: false,
        iterations: 3,
        actions: vec![sample_move(), Action::Loop(innermost), sample_press()],
    };
    LoopAction {
        infinite: false,
        iterations: u64::MAX,
        actions: vec![Action::Loop(middle), sample_delay(), sample_move()],
    }
}

#[test]
fn round_trip_deep_tree() {
    let tree = deep_tree();
    let bytes = encode_loop(&tree);
    let back = decode_loop(&bytes).expect("decoding an encoded tree succeeds");
    assert!(back.structurally_equal(&tree));
}

#[test]
fn round_trip_empty_loop() {
    let tree = LoopAction { infinite: true, iterations: 0, actions: vec![] };
    let bytes = encode_loop(&tree);
    let back = decode_loop(&bytes).expect("decoding an encoded tree succeeds");
    assert!(back.structurally_equal(&tree));
}

#[test]
fn saved_then_loaded_nested_move_is_structurally_equal() {
    // one top-level move nested two loop levels deep
    let mv = Action::Move(MoveAction { x: 100, y: 50, relative: false, move_time_ms: 300, delay_after_ms: 0 });
    let inner = LoopAction { infinite: false, iterations: 1, actions: vec![mv] };
    let tree = LoopAction { infinite: false, iterations: 2, actions: vec![Action::Loop(inner)] };
    let bytes = encode_loop(&tree);
    let back = decode_loop(&bytes).expect("decoding an encoded tree succeeds");
    assert!(back.structurally_equal(&tree));
}

#[test]
fn round_trip_keeps_extreme_field_values() {
    let tree = LoopAction {
        infinite: false,
        iterations: 1,
        actions: vec![
            Action::Move(MoveAction {
                x: i32::MIN,
                y: i32::MAX,
                relative: false,
                move_time_ms: u64::MAX,
                delay_after_ms: u64::MAX,
            }),
            Action::Press(PressAction {
                keybutton: KeyButton::MouseButton(u32::MAX),
                down: false,
                up: false,
                hold_time_ms: 0,
                delay_after_ms: 0,
            }),
        ],
    };
    let bytes = encode_loop(&tree);
    let back = decode_loop(&bytes).expect("decoding an encoded tree succeeds");
    assert!(back.structurally_equal(&tree));
}

#[test]
fn wrong_version_is_distinct_from_malformed() {
    let tree = deep_tree();
    let mut bytes = encode_loop(&tree);
    bytes[0] = FORMAT_VERSION.wrapping_add(1);
    assert!(matches!(decode_loop(&bytes), Err(DecodeError::UnsupportedVersion)));
    let empty: Vec<u8> = vec![];
    assert!(matches!(decode_loop(&empty), Err(DecodeError::UnsupportedVersion)));
}

#[test]
fn truncated_bytes_are_malformed() {
    let tree = deep_tree();
    let bytes = encode_loop(&tree);
    let cut = bytes[..bytes.len() - 1].to_vec();
    assert!(matches!(decode_loop(&cut), Err(DecodeError::Malformed)));
}

#[test]
fn trailing_bytes_are_malformed() {
    let tree = deep_tree();
    let mut bytes = encode_loop(&tree);
    bytes.push(0);
    assert!(matches!(decode_loop(&bytes), Err(DecodeError::Malformed)));
}

#[test]
fn unknown_tag_is_malformed() {
    let tree = LoopAction { infinite: false, iterations: 1, actions: vec![sample_delay()] };
    let mut bytes = encode_loop(&tree);
    // the first action's tag sits right after the version byte and the
    // 17-byte loop header
    bytes[18] = 200;
    assert!(matches!(decode_loop(&bytes), Err(DecodeError::Malformed)));
}

#[test]
fn failed_load_leaves_the_existing_tree_untouched() {
    let current = deep_tree();
    let garbage: Vec<u8> = vec![FORMAT_VERSION, 9, 9, 9];
    let result = decode_loop(&garbage);
    assert!(result.is_err());
    // the tree the caller holds is only replaced on success
    assert!(current.structurally_equal(&deep_tree()));
}
