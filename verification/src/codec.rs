//! The persistence codec: a self-describing byte encoding of an action tree.
//!
//! The file starts with a format version byte, followed by the fields of the
//! root loop. Every number is a little-endian `u64`, every boolean one byte
//! (`0` or `1`), every variant a one-byte tag, and a loop body is a count
//! followed by that many encoded actions. Decoding rejects anything that the
//! encoder cannot have produced, and decoding an encoded tree returns the
//! tree, structurally.
use vstd::prelude::*;

verus! {

use crate::actions::{Action, ActionModel, KeyButton, LoopAction, LoopModel, MoveAction,
    PressAction, DelayAction, model_of, loop_model_of, models_of, lemma_models_of};

/// First byte of every saved file.
pub const FORMAT_VERSION: u8 = 1;

pub const TAG_LOOP: u8 = 0;

pub const TAG_PRESS: u8 = 1;

pub const TAG_MOVE: u8 = 2;

pub const TAG_DELAY: u8 = 3;

pub const TAG_KEYBOARD: u8 = 0;

pub const TAG_MOUSE: u8 = 1;

/// Why a byte buffer was rejected by `decode_loop`.
#[derive(Debug, Copy, Clone, PartialEq, Eq, Structural)]
pub enum DecodeError {
    /// The buffer does not start with `FORMAT_VERSION`.
    UnsupportedVersion,
    /// The buffer is truncated, carries an unknown tag, or has trailing data.
    Malformed,
}

/// The eight little-endian bytes of `n`.
pub open spec fn u64_le(n: u64) -> Seq<u8> {
    seq![
        (n & 0xff) as u8,
        ((n >> 8) & 0xff) as u8,
        ((n >> 16) & 0xff) as u8,
        ((n >> 24) & 0xff) as u8,
        ((n >> 32) & 0xff) as u8,
        ((n >> 40) & 0xff) as u8,
        ((n >> 48) & 0xff) as u8,
        ((n >> 56) & 0xff) as u8,
    ]
}

/// The `u64` formed from eight little-endian bytes of `s` starting at `pos`.
pub open spec fn read_u64(s: Seq<u8>, pos: int) -> u64
    recommends
        0 <= pos,
        pos + 8 <= s.len(),
{
    (s[pos] as u64) | ((s[pos + 1] as u64) << 8) | ((s[pos + 2] as u64) << 16) | ((s[pos
        + 3] as u64) << 24) | ((s[pos + 4] as u64) << 32) | ((s[pos + 5] as u64) << 40) | ((s[pos
        + 6] as u64) << 48) | ((s[pos + 7] as u64) << 56)
}

/// Reading back the little-endian bytes of `n` yields `n`.
pub proof fn lemma_read_u64_le(s: Seq<u8>, pos: int, n: u64)
    requires
        0 <= pos,
        pos + 8 <= s.len(),
        forall|k: int| 0 <= k < 8 ==> s[pos + k] == u64_le(n)[k],
    ensures
        read_u64(s, pos) == n,
{
    assert(s[pos + 0] == u64_le(n)[0] && s[pos + 1] == u64_le(n)[1] && s[pos + 2] == u64_le(n)[2]
        && s[pos + 3] == u64_le(n)[3] && s[pos + 4] == u64_le(n)[4] && s[pos + 5] == u64_le(n)[5]
        && s[pos + 6] == u64_le(n)[6] && s[pos + 7] == u64_le(n)[7]);
    assert(s[pos] == (n & 0xff) as u8);
    assert(s[pos + 1] == ((n >> 8) & 0xff) as u8);
    assert(s[pos + 2] == ((n >> 16) & 0xff) as u8);
    assert(s[pos + 3] == ((n >> 24) & 0xff) as u8);
    assert(s[pos + 4] == ((n >> 32) & 0xff) as u8);
    assert(s[pos + 5] == ((n >> 40) & 0xff) as u8);
    assert(s[pos + 6] == ((n >> 48) & 0xff) as u8);
    assert(s[pos + 7] == ((n >> 56) & 0xff) as u8);
    assert((((n & 0xff) as u8) as u64) | ((((n >> 8) & 0xff) as u8) as u64) << 8 | ((((n >> 16)
        & 0xff) as u8) as u64) << 16 | ((((n >> 24) & 0xff) as u8) as u64) << 24 | ((((n >> 32)
        & 0xff) as u8) as u64) << 32 | ((((n >> 40) & 0xff) as u8) as u64) << 40 | ((((n >> 48)
        & 0xff) as u8) as u64) << 48 | ((((n >> 56) & 0xff) as u8) as u64) << 56 == n)
        by (bit_vector);
}

/// The `u32` bit pattern of `x`, as a value.
pub open spec fn u32_of_i32(x: i32) -> u32 {
    if x >= 0 {
        x as u32
    } else {
        (x + 0x1_0000_0000) as u32
    }
}

/// The `i32` whose bit pattern is `u`.
pub open spec fn i32_of_u32(u: u32) -> i32 {
    if u < 0x8000_0000 {
        u as i32
    } else {
        (u - 0x1_0000_0000) as i32
    }
}

/// The two bit-pattern conversions invert each other.
pub proof fn lemma_i32_bits_round_trip(x: i32)
    ensures
        i32_of_u32(u32_of_i32(x)) == x,
{
}

/// One byte for a boolean.
pub open spec fn bool_byte(b: bool) -> u8 {
    if b {
        1
    } else {
        0
    }
}

/// Appends the little-endian bytes of `n`.
fn push_u64(out: &mut Vec<u8>, n: u64)
    ensures
        final(out)@ == old(out)@ + u64_le(n),
{
    out.push((n & 0xff) as u8);
    out.push(((n >> 8) & 0xff) as u8);
    out.push(((n >> 16) & 0xff) as u8);
    out.push(((n >> 24) & 0xff) as u8);
    out.push(((n >> 32) & 0xff) as u8);
    out.push(((n >> 40) & 0xff) as u8);
    out.push(((n >> 48) & 0xff) as u8);
    out.push(((n >> 56) & 0xff) as u8);
    proof {
        assert(out@ =~= old(out)@ + u64_le(n));
    }
}

/// Reads the `u64` stored at `pos`.
fn read_u64_at(bytes: &Vec<u8>, pos: usize) -> (r: u64)
    requires
        pos + 8 <= bytes@.len(),
    ensures
        r == read_u64(bytes@, pos as int),
{
    let _bound: usize = bytes.len();
    (bytes[pos] as u64) | ((bytes[pos + 1] as u64) << 8) | ((bytes[pos + 2] as u64) << 16) | ((
    bytes[pos + 3] as u64) << 24) | ((bytes[pos + 4] as u64) << 32) | ((bytes[pos + 5] as u64)
        << 40) | ((bytes[pos + 6] as u64) << 48) | ((bytes[pos + 7] as u64) << 56)
}

/// Splitting a concatenation read from `s` recovers both halves.
pub proof fn lemma_split(s: Seq<u8>, pos: int, a: Seq<u8>, b: Seq<u8>)
    requires
        0 <= pos,
        pos + a.len() + b.len() <= s.len(),
        s.subrange(pos, pos + a.len() + b.len()) == a + b,
    ensures
        s.subrange(pos, pos + a.len()) == a,
        s.subrange(pos + a.len(), pos + a.len() + b.len()) == b,
{
    assert forall|i: int| 0 <= i < a.len() implies s.subrange(pos, pos + a.len() as int)[i] == a[i]
    by {
        assert((a + b)[i] == s.subrange(pos, pos + a.len() + b.len())[i]);
    }
    assert(s.subrange(pos, pos + a.len() as int) =~= a);
    assert forall|i: int| 0 <= i < b.len() implies s.subrange(
        pos + a.len(),
        pos + a.len() + b.len(),
    )[i] == b[i] by {
        let j = a.len() + i;
        assert(s.subrange(pos, pos + a.len() + b.len())[j] == s[pos + j]);
        assert((a + b)[j] == b[i]);
        assert(s.subrange(pos + a.len(), pos + a.len() + b.len())[i] == s[pos + a.len() + i]);
    }
    assert(s.subrange(pos + a.len(), pos + a.len() + b.len()) =~= b);
}

/// An encodable model: every loop body is short enough for its length to be
/// stored as a `u64`. The model of any in-memory tree satisfies this.
pub open spec fn action_model_wf(m: ActionModel) -> bool
    decreases m,
{
    match m {
        ActionModel::Loop(lm) => loop_model_wf(lm),
        _ => true,
    }
}

pub open spec fn loop_model_wf(lm: LoopModel) -> bool
    decreases lm,
{
    lm.actions.len() <= u64::MAX && models_wf(lm.actions)
}

pub open spec fn models_wf(s: Seq<ActionModel>) -> bool
    decreases s,
{
    if s.len() == 0 {
        true
    } else {
        action_model_wf(s[0]) && models_wf(s.subrange(1, s.len() as int))
    }
}

pub open spec fn spec_enc_keybutton(k: KeyButton) -> Seq<u8> {
    match k {
        KeyButton::KeyboardKey(c) => seq![TAG_KEYBOARD] + u64_le(c as u64),
        KeyButton::MouseButton(c) => seq![TAG_MOUSE] + u64_le(c as u64),
    }
}

pub open spec fn spec_enc_press(p: PressAction) -> Seq<u8> {
    seq![TAG_PRESS] + spec_enc_keybutton(p.keybutton) + seq![bool_byte(p.down), bool_byte(p.up)]
        + u64_le(p.hold_time_ms) + u64_le(p.delay_after_ms)
}

pub open spec fn spec_enc_move(m: MoveAction) -> Seq<u8> {
    seq![TAG_MOVE] + u64_le(u32_of_i32(m.x) as u64) + u64_le(u32_of_i32(m.y) as u64)
        + seq![bool_byte(m.relative)] + u64_le(m.move_time_ms) + u64_le(m.delay_after_ms)
}

pub open spec fn spec_enc_delay(d: DelayAction) -> Seq<u8> {
    seq![TAG_DELAY, bool_byte(d.random)] + u64_le(d.delay_ms_min) + u64_le(d.delay_ms_max)
}

pub open spec fn spec_enc_action(m: ActionModel) -> Seq<u8>
    decreases m,
{
    match m {
        ActionModel::Loop(lm) => seq![TAG_LOOP] + spec_enc_loop_fields(lm),
        ActionModel::Press(p) => spec_enc_press(p),
        ActionModel::Move(mv) => spec_enc_move(mv),
        ActionModel::Delay(d) => spec_enc_delay(d),
    }
}

pub open spec fn spec_enc_loop_fields(lm: LoopModel) -> Seq<u8>
    decreases lm,
{
    seq![bool_byte(lm.infinite)] + u64_le(lm.iterations) + u64_le(lm.actions.len() as u64)
        + spec_enc_actions(lm.actions)
}

pub open spec fn spec_enc_actions(s: Seq<ActionModel>) -> Seq<u8>
    decreases s,
{
    if s.len() == 0 {
        Seq::empty()
    } else {
        spec_enc_action(s[0]) + spec_enc_actions(s.subrange(1, s.len() as int))
    }
}

/// The whole file: a version byte, then the root loop's fields.
pub open spec fn spec_enc_file(lm: LoopModel) -> Seq<u8> {
    seq![FORMAT_VERSION] + spec_enc_loop_fields(lm)
}

pub open spec fn spec_parse_action(s: Seq<u8>, pos: int) -> Option<(ActionModel, int)>
    decreases s.len() - pos, 1int,
{
    if pos < 0 || pos + 1 > s.len() {
        None
    } else {
        let tag = s[pos];
        if tag == TAG_LOOP {
            match spec_parse_loop_fields(s, pos + 1) {
                Some((lm, p)) => Some((ActionModel::Loop(lm), p)),
                None => None,
            }
        } else if tag == TAG_PRESS {
            if pos + 28 > s.len() {
                None
            } else {
                let kb_tag = s[pos + 1];
                let code = read_u64(s, pos + 2);
                let down_b = s[pos + 10];
                let up_b = s[pos + 11];
                if kb_tag > 1 || code > u32::MAX as u64 || down_b > 1 || up_b > 1 {
                    None
                } else {
                    let kb = if kb_tag == TAG_KEYBOARD {
                        KeyButton::KeyboardKey(code as u32)
                    } else {
                        KeyButton::MouseButton(code as u32)
                    };
                    Some((ActionModel::Press(PressAction {
                        keybutton: kb,
                        down: down_b == 1,
                        up: up_b == 1,
                        hold_time_ms: read_u64(s, pos + 12),
                        delay_after_ms: read_u64(s, pos + 20),
                    }), pos + 28))
                }
            }
        } else if tag == TAG_MOVE {
            if pos + 34 > s.len() {
                None
            } else {
                let xu = read_u64(s, pos + 1);
                let yu = read_u64(s, pos + 9);
                let rel_b = s[pos + 17];
                if xu > u32::MAX as u64 || yu > u32::MAX as u64 || rel_b > 1 {
                    None
                } else {
                    Some((ActionModel::Move(MoveAction {
                        x: i32_of_u32(xu as u32),
                        y: i32_of_u32(yu as u32),
                        relative: rel_b == 1,
                        move_time_ms: read_u64(s, pos + 18),
                        delay_after_ms: read_u64(s, pos + 26),
                    }), pos + 34))
                }
            }
        } else if tag == TAG_DELAY {
            if pos + 18 > s.len() {
                None
            } else {
                let rnd_b = s[pos + 1];
                if rnd_b > 1 {
                    None
                } else {
                    Some((ActionModel::Delay(DelayAction {
                        random: rnd_b == 1,
                        delay_ms_min: read_u64(s, pos + 2),
                        delay_ms_max: read_u64(s, pos + 10),
                    }), pos + 18))
                }
            }
        } else {
            None
        }
    }
}

pub open spec fn spec_parse_loop_fields(s: Seq<u8>, pos: int) -> Option<(LoopModel, int)>
    decreases s.len() - pos, 0int,
{
    if pos < 0 || pos + 17 > s.len() {
        None
    } else {
        let inf_b = s[pos];
        if inf_b > 1 {
            None
        } else {
            let iterations = read_u64(s, pos + 1);
            let count = read_u64(s, pos + 9);
            match spec_parse_actions(s, pos + 17, count) {
                Some((acts, p2)) => Some((LoopModel {
                    infinite: inf_b == 1,
                    iterations,
                    actions: acts,
                }, p2)),
                None => None,
            }
        }
    }
}

pub open spec fn spec_parse_actions(s: Seq<u8>, pos: int, count: u64) -> Option<
    (Seq<ActionModel>, int),
>
    decreases s.len() - pos, 2int,
{
    if count == 0 {
        Some((Seq::empty(), pos))
    } else if pos < 0 || pos >= s.len() {
        None
    } else {
        match spec_parse_action(s, pos) {
            None => None,
            Some((a, p1)) => if p1 <= pos || p1 > s.len() {
                None
            } else {
                match spec_parse_actions(s, p1, (count - 1) as u64) {
                    None => None,
                    Some((rest, p2)) => Some((seq![a] + rest, p2)),
                }
            },
        }
    }
}

/// The whole file: the version byte must match and every byte must be used.
pub open spec fn spec_parse_file(s: Seq<u8>) -> Option<LoopModel> {
    if s.len() < 1 || s[0] != FORMAT_VERSION {
        None
    } else {
        match spec_parse_loop_fields(s, 1) {
            Some((lm, p)) => if p == s.len() {
                Some(lm)
            } else {
                None
            },
            None => None,
        }
    }
}

/// Every encoded action occupies at least its tag and smallest payload.
pub proof fn lemma_enc_action_len(m: ActionModel)
    ensures
        spec_enc_action(m).len() >= 18,
{
}

/// Reading a `u64` from a range known to hold its little-endian bytes.
pub proof fn lemma_read_u64_sub(s: Seq<u8>, pos: int, n: u64)
    requires
        0 <= pos,
        pos + 8 <= s.len(),
        s.subrange(pos, pos + 8) == u64_le(n),
    ensures
        read_u64(s, pos) == n,
{
    assert forall|k: int| 0 <= k < 8 implies s[pos + k] == u64_le(n)[k] by {
        assert(s.subrange(pos, pos + 8)[k] == s[pos + k]);
    }
    lemma_read_u64_le(s, pos, n);
}

/// Parsing an encoded action out of a larger buffer yields the action back.
#[verifier::rlimit(60)]
pub proof fn lemma_parse_enc_action(m: ActionModel, s: Seq<u8>, pos: int)
    requires
        action_model_wf(m),
        0 <= pos,
        pos + spec_enc_action(m).len() <= s.len(),
        s.subrange(pos, pos + spec_enc_action(m).len()) == spec_enc_action(m),
    ensures
        spec_parse_action(s, pos) == Some((m, pos + spec_enc_action(m).len())),
    decreases m,
{
    let e = spec_enc_action(m);
    match m {
        ActionModel::Loop(lm) => {
            let f = spec_enc_loop_fields(lm);
            lemma_split(s, pos, seq![TAG_LOOP], f);
            assert(s[pos] == s.subrange(pos, pos + 1)[0]);
            lemma_parse_enc_loop_fields(lm, s, pos + 1);
        },
        ActionModel::Press(p) => {
            let kb = spec_enc_keybutton(p.keybutton);
            let head = seq![TAG_PRESS] + kb + seq![bool_byte(p.down), bool_byte(p.up)] + u64_le(
                p.hold_time_ms,
            );
            lemma_split(s, pos, head, u64_le(p.delay_after_ms));
            lemma_read_u64_sub(s, pos + 20, p.delay_after_ms);
            lemma_split(
                s,
                pos,
                seq![TAG_PRESS] + kb + seq![bool_byte(p.down), bool_byte(p.up)],
                u64_le(p.hold_time_ms),
            );
            lemma_read_u64_sub(s, pos + 12, p.hold_time_ms);
            lemma_split(s, pos, seq![TAG_PRESS] + kb, seq![bool_byte(p.down), bool_byte(p.up)]);
            assert(s[pos + 10] == s.subrange(pos + 10, pos + 12)[0]);
            assert(s[pos + 11] == s.subrange(pos + 10, pos + 12)[1]);
            lemma_split(s, pos, seq![TAG_PRESS], kb);
            assert(s[pos] == s.subrange(pos, pos + 1)[0]);
            let code: u64 = match p.keybutton {
                KeyButton::KeyboardKey(c) => c as u64,
                KeyButton::MouseButton(c) => c as u64,
            };
            let kb_tag: u8 = match p.keybutton {
                KeyButton::KeyboardKey(_) => TAG_KEYBOARD,
                KeyButton::MouseButton(_) => TAG_MOUSE,
            };
            lemma_split(s, pos + 1, seq![kb_tag], u64_le(code));
            assert(s[pos + 1] == s.subrange(pos + 1, pos + 2)[0]);
            lemma_read_u64_sub(s, pos + 2, code);
        },
        ActionModel::Move(mv) => {
            let xu = u32_of_i32(mv.x) as u64;
            let yu = u32_of_i32(mv.y) as u64;
            let head4 = seq![TAG_MOVE] + u64_le(xu) + u64_le(yu) + seq![bool_byte(mv.relative)]
                + u64_le(mv.move_time_ms);
            lemma_split(s, pos, head4, u64_le(mv.delay_after_ms));
            lemma_read_u64_sub(s, pos + 26, mv.delay_after_ms);
            lemma_split(
                s,
                pos,
                seq![TAG_MOVE] + u64_le(xu) + u64_le(yu) + seq![bool_byte(mv.relative)],
                u64_le(mv.move_time_ms),
            );
            lemma_read_u64_sub(s, pos + 18, mv.move_time_ms);
            lemma_split(
                s,
                pos,
                seq![TAG_MOVE] + u64_le(xu) + u64_le(yu),
                seq![bool_byte(mv.relative)],
            );
            assert(s[pos + 17] == s.subrange(pos + 17, pos + 18)[0]);
            lemma_split(s, pos, seq![TAG_MOVE] + u64_le(xu), u64_le(yu));
            lemma_read_u64_sub(s, pos + 9, yu);
            lemma_split(s, pos, seq![TAG_MOVE], u64_le(xu));
            assert(s[pos] == s.subrange(pos, pos + 1)[0]);
            lemma_read_u64_sub(s, pos + 1, xu);
            lemma_i32_bits_round_trip(mv.x);
            lemma_i32_bits_round_trip(mv.y);
        },
        ActionModel::Delay(d) => {
            let head2 = seq![TAG_DELAY, bool_byte(d.random)] + u64_le(d.delay_ms_min);
            lemma_split(s, pos, head2, u64_le(d.delay_ms_max));
            lemma_read_u64_sub(s, pos + 10, d.delay_ms_max);
            lemma_split(s, pos, seq![TAG_DELAY, bool_byte(d.random)], u64_le(d.delay_ms_min));
            lemma_read_u64_sub(s, pos + 2, d.delay_ms_min);
            assert(s[pos] == s.subrange(pos, pos + 2)[0]);
            assert(s[pos + 1] == s.subrange(pos, pos + 2)[1]);
        },
    }
}

/// Parsing encoded loop fields out of a larger buffer yields the loop back.
pub proof fn lemma_parse_enc_loop_fields(lm: LoopModel, s: Seq<u8>, pos: int)
    requires
        loop_model_wf(lm),
        0 <= pos,
        pos + spec_enc_loop_fields(lm).len() <= s.len(),
        s.subrange(pos, pos + spec_enc_loop_fields(lm).len()) == spec_enc_loop_fields(lm),
    ensures
        spec_parse_loop_fields(s, pos) == Some(
            (lm, pos + spec_enc_loop_fields(lm).len()),
        ),
    decreases lm,
{
    let cnt: u64 = lm.actions.len() as u64;
    let body = spec_enc_actions(lm.actions);
    let head3 = seq![bool_byte(lm.infinite)] + u64_le(lm.iterations) + u64_le(cnt);
    lemma_split(s, pos, head3, body);
    lemma_split(s, pos, seq![bool_byte(lm.infinite)] + u64_le(lm.iterations), u64_le(cnt));
    lemma_read_u64_sub(s, pos + 9, cnt);
    lemma_split(s, pos, seq![bool_byte(lm.infinite)], u64_le(lm.iterations));
    assert(s[pos] == s.subrange(pos, pos + 1)[0]);
    lemma_read_u64_sub(s, pos + 1, lm.iterations);
    lemma_parse_enc_actions(lm.actions, s, pos + 17);
}

/// Parsing an encoded action sequence out of a larger buffer yields it back.
pub proof fn lemma_parse_enc_actions(ms: Seq<ActionModel>, s: Seq<u8>, pos: int)
    requires
        models_wf(ms),
        ms.len() <= u64::MAX,
        0 <= pos,
        pos + spec_enc_actions(ms).len() <= s.len(),
        s.subrange(pos, pos + spec_enc_actions(ms).len()) == spec_enc_actions(ms),
    ensures
        spec_parse_actions(s, pos, ms.len() as u64) == Some(
            (ms, pos + spec_enc_actions(ms).len()),
        ),
    decreases ms,
{
    if ms.len() == 0 {
        assert(ms =~= Seq::<ActionModel>::empty());
    } else {
        let head = ms[0];
        let tail = ms.subrange(1, ms.len() as int);
        let e1 = spec_enc_action(head);
        let rest = spec_enc_actions(tail);
        lemma_split(s, pos, e1, rest);
        assert(action_model_wf(ms[0]) && models_wf(tail));
        lemma_enc_action_len(head);
        lemma_parse_enc_action(head, s, pos);
        lemma_parse_enc_actions(tail, s, pos + e1.len());
        assert(seq![head] + tail =~= ms);
    }
}

/// Round trip: decoding an encoded tree yields the tree, structurally, for
/// any tree at any nesting depth.
pub proof fn lemma_file_round_trip(lm: LoopModel)
    requires
        loop_model_wf(lm),
    ensures
        spec_parse_file(spec_enc_file(lm)) == Some(lm),
{
    let s = spec_enc_file(lm);
    let f = spec_enc_loop_fields(lm);
    assert(s[0] == FORMAT_VERSION);
    assert(s.subrange(1, 1 + f.len() as int) =~= f);
    lemma_parse_enc_loop_fields(lm, s, 1);
}

/// `models_of` maps over a cons cell.
pub proof fn lemma_models_of_cons(a: Action, s: Seq<Action>)
    ensures
        models_of(seq![a] + s) == seq![model_of(a)] + models_of(s),
{
    let whole = seq![a] + s;
    assert(whole[0] == a);
    assert(whole.subrange(1, whole.len() as int) =~= s);
    assert(models_of(whole) =~= seq![model_of(a)] + models_of(s));
}

/// Appending one action appends its encoding.
pub proof fn lemma_enc_actions_snoc(ms: Seq<ActionModel>, m: ActionModel)
    ensures
        spec_enc_actions(ms.push(m)) == spec_enc_actions(ms) + spec_enc_action(m),
    decreases ms,
{
    let whole = ms.push(m);
    if ms.len() == 0 {
        assert(whole[0] == m);
        assert(ms =~= Seq::<ActionModel>::empty());
        assert(whole.subrange(1, whole.len() as int) =~= ms);
        assert(spec_enc_actions(whole) == spec_enc_action(m) + spec_enc_actions(ms));
        assert(spec_enc_actions(ms) =~= Seq::<u8>::empty());
        assert(spec_enc_action(m) + spec_enc_actions(ms) =~= spec_enc_actions(ms)
            + spec_enc_action(m));
    } else {
        let tail = ms.subrange(1, ms.len() as int);
        lemma_enc_actions_snoc(tail, m);
        assert(whole[0] == ms[0]);
        assert(whole.subrange(1, whole.len() as int) =~= tail.push(m));
        assert(spec_enc_actions(whole) == spec_enc_action(ms[0]) + spec_enc_actions(
            tail.push(m),
        ));
        assert(spec_enc_actions(ms) == spec_enc_action(ms[0]) + spec_enc_actions(tail));
        assert(spec_enc_action(ms[0]) + (spec_enc_actions(tail) + spec_enc_action(m)) =~= (
        spec_enc_action(ms[0]) + spec_enc_actions(tail)) + spec_enc_action(m));
    }
}

/// Appending one action appends its model.
pub proof fn lemma_models_of_snoc(s: Seq<Action>, a: Action)
    ensures
        models_of(s.push(a)) == models_of(s).push(model_of(a)),
    decreases s,
{
    let whole = s.push(a);
    if s.len() == 0 {
        assert(whole[0] == a);
        assert(s =~= Seq::<Action>::empty());
        assert(whole.subrange(1, whole.len() as int) =~= s);
        assert(models_of(whole) == seq![model_of(a)] + models_of(s));
        assert(models_of(s) =~= Seq::<ActionModel>::empty());
        assert(seq![model_of(a)] + models_of(s) =~= models_of(s).push(model_of(a)));
    } else {
        let tail = s.subrange(1, s.len() as int);
        lemma_models_of_snoc(tail, a);
        assert(whole[0] == s[0]);
        assert(whole.subrange(1, whole.len() as int) =~= tail.push(a));
        assert(models_of(whole) == seq![model_of(s[0])] + models_of(tail.push(a)));
        assert(models_of(s) == seq![model_of(s[0])] + models_of(tail));
        assert(seq![model_of(s[0])] + models_of(tail).push(model_of(a)) =~= (seq![model_of(s[0])]
            + models_of(tail)).push(model_of(a)));
    }
}

/// Appends one byte for a boolean.
fn push_bool(out: &mut Vec<u8>, b: bool)
    ensures
        final(out)@ == old(out)@ + seq![bool_byte(b)],
{
    if b {
        out.push(1);
    } else {
        out.push(0);
    }
    proof {
        assert(out@ =~= old(out)@ + seq![bool_byte(b)]);
    }
}

/// The `u32` bit pattern of `x`, computed.
fn bits_of_i32(x: i32) -> (r: u32)
    ensures
        r == u32_of_i32(x),
{
    if x >= 0 {
        x as u32
    } else {
        ((x as i64) + 0x1_0000_0000) as u32
    }
}

/// The `i32` whose bit pattern is `u`, computed.
fn i32_from_bits(u: u32) -> (r: i32)
    ensures
        r == i32_of_u32(u),
{
    if u < 0x8000_0000 {
        u as i32
    } else {
        ((u as i64) - 0x1_0000_0000) as i32
    }
}

/// Appends the encoding of one action.
fn enc_action_into(a: &Action, out: &mut Vec<u8>)
    ensures
        final(out)@ == old(out)@ + spec_enc_action(a@),
    decreases a,
{
    match a {
        Action::Loop(l) => {
            out.push(TAG_LOOP);
            enc_loop_fields_into(l, out);
            proof {
                assert(out@ =~= old(out)@ + spec_enc_action(a@));
            }
        },
        Action::Press(p) => {
            out.push(TAG_PRESS);
            match p.keybutton {
                KeyButton::KeyboardKey(c) => {
                    out.push(TAG_KEYBOARD);
                    push_u64(out, c as u64);
                },
                KeyButton::MouseButton(c) => {
                    out.push(TAG_MOUSE);
                    push_u64(out, c as u64);
                },
            }
            push_bool(out, p.down);
            push_bool(out, p.up);
            push_u64(out, p.hold_time_ms);
            push_u64(out, p.delay_after_ms);
            proof {
                assert(out@ =~= old(out)@ + spec_enc_action(a@));
            }
        },
        Action::Move(m) => {
            out.push(TAG_MOVE);
            let xb = bits_of_i32(m.x);
            let yb = bits_of_i32(m.y);
            push_u64(out, xb as u64);
            push_u64(out, yb as u64);
            push_bool(out, m.relative);
            push_u64(out, m.move_time_ms);
            push_u64(out, m.delay_after_ms);
            proof {
                assert(out@ =~= old(out)@ + spec_enc_action(a@));
            }
        },
        Action::Delay(d) => {
            out.push(TAG_DELAY);
            push_bool(out, d.random);
            push_u64(out, d.delay_ms_min);
            push_u64(out, d.delay_ms_max);
            proof {
                assert(out@ =~= old(out)@ + spec_enc_action(a@));
            }
        },
    }
}

/// Appends the encoding of a loop's fields: header, then each body action.
fn enc_loop_fields_into(l: &LoopAction, out: &mut Vec<u8>)
    ensures
        final(out)@ == old(out)@ + spec_enc_loop_fields(l@),
    decreases l,
{
    proof {
        lemma_models_of(l.actions@);
        assert(l.actions.len() == l.actions@.len());
    }
    push_bool(out, l.infinite);
    push_u64(out, l.iterations);
    let n = l.actions.len();
    push_u64(out, n as u64);
    let ghost header = old(out)@ + seq![bool_byte(l.infinite)] + u64_le(l.iterations) + u64_le(
        n as u64,
    );
    let mut i: usize = 0;
    while i < n
        invariant
            i <= n,
            n == l.actions.len(),
            out@ == header + spec_enc_actions(models_of(l.actions@.subrange(0, i as int))),
        decreases n - i,
    {
        proof {
            assert(decreases_to!(l.actions => l.actions[i as int]));
        }
        let ghost prefix = l.actions@.subrange(0, i as int);
        enc_action_into(&l.actions[i], out);
        proof {
            lemma_models_of_snoc(prefix, l.actions@[i as int]);
            lemma_enc_actions_snoc(models_of(prefix), model_of(l.actions@[i as int]));
            assert(l.actions@.subrange(0, i + 1) =~= prefix.push(l.actions@[i as int]));
            assert(out@ =~= header + spec_enc_actions(
                models_of(l.actions@.subrange(0, i + 1)),
            ));
        }
        i += 1;
    }
    proof {
        assert(l.actions@.subrange(0, n as int) =~= l.actions@);
        assert(out@ =~= old(out)@ + spec_enc_loop_fields(l@));
    }
}

/// Encodes a whole tree as the bytes of a saved file.
pub fn encode_loop(l: &LoopAction) -> (out: Vec<u8>)
    ensures
        out@ == spec_enc_file(l@),
{
    let mut out: Vec<u8> = Vec::new();
    out.push(FORMAT_VERSION);
    enc_loop_fields_into(l, &mut out);
    proof {
        assert(out@ =~= spec_enc_file(l@));
    }
    out
}

/// Reads one encoded action starting at `pos`.
fn parse_action(bytes: &Vec<u8>, pos: usize) -> (r: Option<(Action, usize)>)
    ensures
        match r {
            Some((a, p)) => spec_parse_action(bytes@, pos as int) == Some((a@, p as int)) && pos
                <= p <= bytes@.len(),
            None => spec_parse_action(bytes@, pos as int) is None,
        },
    decreases bytes@.len() - pos, 1int,
{
    let n = bytes.len();
    if pos >= n {
        return None;
    }
    let tag = bytes[pos];
    if tag == TAG_LOOP {
        match parse_loop_fields(bytes, pos + 1) {
            Some((lm, p)) => Some((Action::Loop(lm), p)),
            None => None,
        }
    } else if tag == TAG_PRESS {
        if n - pos < 28 {
            return None;
        }
        let kb_tag = bytes[pos + 1];
        let code = read_u64_at(bytes, pos + 2);
        let down_b = bytes[pos + 10];
        let up_b = bytes[pos + 11];
        if kb_tag > 1 || code > u32::MAX as u64 || down_b > 1 || up_b > 1 {
            return None;
        }
        let kb = if kb_tag == TAG_KEYBOARD {
            KeyButton::KeyboardKey(code as u32)
        } else {
            KeyButton::MouseButton(code as u32)
        };
        Some((Action::Press(PressAction {
            keybutton: kb,
            down: down_b == 1,
            up: up_b == 1,
            hold_time_ms: read_u64_at(bytes, pos + 12),
            delay_after_ms: read_u64_at(bytes, pos + 20),
        }), pos + 28))
    } else if tag == TAG_MOVE {
        if n - pos < 34 {
            return None;
        }
        let xu = read_u64_at(bytes, pos + 1);
        let yu = read_u64_at(bytes, pos + 9);
        let rel_b = bytes[pos + 17];
        if xu > u32::MAX as u64 || yu > u32::MAX as u64 || rel_b > 1 {
            return None;
        }
        Some((Action::Move(MoveAction {
            x: i32_from_bits(xu as u32),
            y: i32_from_bits(yu as u32),
            relative: rel_b == 1,
            move_time_ms: read_u64_at(bytes, pos + 18),
            delay_after_ms: read_u64_at(bytes, pos + 26),
        }), pos + 34))
    } else if tag == TAG_DELAY {
        if n - pos < 18 {
            return None;
        }
        let rnd_b = bytes[pos + 1];
        if rnd_b > 1 {
            return None;
        }
        Some((Action::Delay(DelayAction {
            random: rnd_b == 1,
            delay_ms_min: read_u64_at(bytes, pos + 2),
            delay_ms_max: read_u64_at(bytes, pos + 10),
        }), pos + 18))
    } else {
        None
    }
}

/// Reads a loop's fields (header, then its body actions) starting at `pos`.
fn parse_loop_fields(bytes: &Vec<u8>, pos: usize) -> (r: Option<(LoopAction, usize)>)
    ensures
        match r {
            Some((l, p)) => spec_parse_loop_fields(bytes@, pos as int) == Some((l@, p as int))
                && pos <= p <= bytes@.len(),
            None => spec_parse_loop_fields(bytes@, pos as int) is None,
        },
    decreases bytes@.len() - pos, 0int,
{
    let n = bytes.len();
    if pos >= n || n - pos < 17 {
        return None;
    }
    let inf_b = bytes[pos];
    if inf_b > 1 {
        return None;
    }
    let iterations = read_u64_at(bytes, pos + 1);
    let count = read_u64_at(bytes, pos + 9);
    match parse_actions(bytes, pos + 17, count) {
        Some((acts, p2)) => Some((LoopAction {
            infinite: inf_b == 1,
            iterations,
            actions: acts,
        }, p2)),
        None => None,
    }
}

/// Reads `count` encoded actions starting at `pos`.
fn parse_actions(bytes: &Vec<u8>, pos: usize, count: u64) -> (r: Option<(Vec<Action>, usize)>)
    requires
        pos <= bytes@.len(),
    ensures
        match r {
            Some((v, p)) => spec_parse_actions(bytes@, pos as int, count) == Some(
                (models_of(v@), p as int),
            ) && pos <= p <= bytes@.len(),
            None => spec_parse_actions(bytes@, pos as int, count) is None,
        },
    decreases bytes@.len() - pos, 2int,
{
    let n = bytes.len();
    if count == 0 {
        let v: Vec<Action> = Vec::new();
        proof {
            assert(models_of(v@) =~= Seq::<ActionModel>::empty());
        }
        return Some((v, pos));
    }
    if pos >= n {
        return None;
    }
    match parse_action(bytes, pos) {
        None => None,
        Some((a, p1)) => {
            if p1 <= pos {
                return None;
            }
            match parse_actions(bytes, p1, count - 1) {
                None => None,
                Some((rest, p2)) => {
                    let mut v: Vec<Action> = Vec::new();
                    v.push(a);
                    let mut rest_v = rest;
                    v.append(&mut rest_v);
                    proof {
                        assert(v@ =~= seq![a] + rest@);
                        lemma_models_of_cons(a, rest@);
                    }
                    Some((v, p2))
                },
            }
        },
    }
}

/// Decodes the bytes of a saved file back into a tree. Returns
/// `UnsupportedVersion` exactly when the first byte is missing or wrong, and
/// `Malformed` exactly when the version matches but the rest of the bytes
/// are not an encoding.
pub fn decode_loop(bytes: &Vec<u8>) -> (r: Result<LoopAction, DecodeError>)
    ensures
        r matches Ok(l) ==> spec_parse_file(bytes@) == Some(l@),
        r is Err ==> spec_parse_file(bytes@) is None,
        r matches Err(e) ==> ((e == DecodeError::UnsupportedVersion) <==> (bytes@.len() < 1
            || bytes@[0] != FORMAT_VERSION)),
{
    let n = bytes.len();
    if n < 1 || bytes[0] != FORMAT_VERSION {
        return Err(DecodeError::UnsupportedVersion);
    }
    match parse_loop_fields(bytes, 1) {
        Some((l, p)) => if p == n {
            Ok(l)
        } else {
            Err(DecodeError::Malformed)
        },
        None => Err(DecodeError::Malformed),
    }
}

/// Round trip for any in-memory tree: the bytes that `encode_loop` produces
/// decode back to a structurally equal tree.
pub proof fn lemma_encode_decode(l: LoopAction)
    ensures
        spec_parse_file(spec_enc_file(l@)) == Some(l@),
{
    lemma_loop_model_wf(l);
    lemma_file_round_trip(l@);
}

/// The model of every in-memory tree is encodable.
pub proof fn lemma_loop_model_wf(l: LoopAction)
    ensures
        loop_model_wf(l@),
    decreases l,
{
    assert(l.actions.len() == l.actions@.len());
    lemma_models_of(l.actions@);
    assert(decreases_to!(l => l.actions));
    assert(decreases_to!(l.actions => l.actions@));
    lemma_models_of_wf(l.actions@);
    assert(l@.actions.len() <= u64::MAX);
}

/// The models of a sequence of in-memory actions are encodable.
pub proof fn lemma_models_of_wf(s: Seq<Action>)
    ensures
        models_wf(models_of(s)),
    decreases s,
{
    if s.len() > 0 {
        lemma_action_model_wf(s[0]);
        lemma_models_of_wf(s.subrange(1, s.len() as int));
        let whole = models_of(s);
        assert(whole[0] == model_of(s[0]));
        assert(whole.subrange(1, whole.len() as int) =~= models_of(
            s.subrange(1, s.len() as int),
        ));
    }
}

/// The model of every in-memory action is encodable.
pub proof fn lemma_action_model_wf(a: Action)
    ensures
        action_model_wf(a@),
    decreases a,
{
    match a {
        Action::Loop(l) => lemma_loop_model_wf(l),
        _ => {},
    }
}

} // verus!
