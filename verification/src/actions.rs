//! The action data model: one executable step is a press, a pointer move, a
//! delay, or a loop over an ordered body of further actions.
use vstd::prelude::*;

verus! {

/// Identifies one physical input: a keyboard key or a mouse button, each by
/// its platform code. The caller that talks to the real input layer maps the
/// codes to its own key and button values.
#[derive(Debug, Copy, Clone, PartialEq, Eq, Structural)]
pub enum KeyButton {
    KeyboardKey(u32),
    MouseButton(u32),
}

/// Press and/or release a key or button. If both `down` and `up` are set, the
/// press is held for `hold_time_ms` before the release (a click). After all
/// of that, execution pauses for `delay_after_ms`.
#[derive(Debug, Copy, Clone, PartialEq, Eq, Structural)]
pub struct PressAction {
    pub keybutton: KeyButton,
    pub down: bool,
    pub up: bool,
    pub hold_time_ms: u64,
    pub delay_after_ms: u64,
}

/// Move the pointer to `(x, y)` — a displacement if `relative`, an absolute
/// position otherwise. With `move_time_ms == 0` the move is instantaneous;
/// otherwise the pointer is interpolated linearly over that many
/// milliseconds. After the move, execution pauses for `delay_after_ms`.
#[derive(Debug, Copy, Clone, PartialEq, Eq, Structural)]
pub struct MoveAction {
    pub x: i32,
    pub y: i32,
    pub relative: bool,
    pub move_time_ms: u64,
    pub delay_after_ms: u64,
}

/// Pause execution. Without `random`, or when `delay_ms_min >= delay_ms_max`,
/// the pause is exactly `delay_ms_min`; otherwise it is drawn uniformly from
/// `[delay_ms_min, delay_ms_max)`.
#[derive(Debug, Copy, Clone, PartialEq, Eq, Structural)]
pub struct DelayAction {
    pub random: bool,
    pub delay_ms_min: u64,
    pub delay_ms_max: u64,
}

/// A repeatable block: its body runs `iterations` times, or indefinitely if
/// `infinite`. The body may contain further loops to arbitrary depth.
#[derive(Debug)]
#[verifier::ext_equal]
pub struct LoopAction {
    pub infinite: bool,
    pub iterations: u64,
    pub actions: Vec<Action>,
}

/// One executable step of the tree.
#[derive(Debug)]
#[verifier::ext_equal]
pub enum Action {
    Loop(LoopAction),
    Press(PressAction),
    Move(MoveAction),
    Delay(DelayAction),
}

/// The mathematical model of an `Action`: the same tree with every `Vec`
/// replaced by a `Seq`. Contracts compare trees through this model, so two
/// trees are "the same" exactly when they are structurally equal.
#[verifier::ext_equal]
pub enum ActionModel {
    Loop(LoopModel),
    Press(PressAction),
    Move(MoveAction),
    Delay(DelayAction),
}

/// The mathematical model of a `LoopAction`.
#[verifier::ext_equal]
pub struct LoopModel {
    pub infinite: bool,
    pub iterations: u64,
    pub actions: Seq<ActionModel>,
}

pub open spec fn model_of(a: Action) -> ActionModel
    decreases a,
{
    match a {
        Action::Loop(l) => ActionModel::Loop(loop_model_of(l)),
        Action::Press(p) => ActionModel::Press(p),
        Action::Move(m) => ActionModel::Move(m),
        Action::Delay(d) => ActionModel::Delay(d),
    }
}

pub open spec fn loop_model_of(l: LoopAction) -> LoopModel
    decreases l,
{
    LoopModel { infinite: l.infinite, iterations: l.iterations, actions: models_of(l.actions@) }
}

pub open spec fn models_of(s: Seq<Action>) -> Seq<ActionModel>
    decreases s,
{
    if s.len() == 0 {
        Seq::empty()
    } else {
        seq![model_of(s[0])] + models_of(s.subrange(1, s.len() as int))
    }
}

impl View for Action {
    type V = ActionModel;

    open spec fn view(&self) -> ActionModel {
        model_of(*self)
    }
}

impl View for LoopAction {
    type V = LoopModel;

    open spec fn view(&self) -> LoopModel {
        loop_model_of(*self)
    }
}

/// `models_of` is the element-wise model of a sequence of actions.
pub proof fn lemma_models_of(s: Seq<Action>)
    ensures
        models_of(s).len() == s.len(),
        forall|i: int| 0 <= i < s.len() ==> models_of(s)[i] == model_of(s[i]),
    decreases s,
{
    if s.len() > 0 {
        lemma_models_of(s.subrange(1, s.len() as int));
    }
}

impl Action {
    /// Deep structural equality: true exactly when the two trees have the
    /// same shape and the same field values everywhere.
    pub fn structurally_equal(&self, other: &Action) -> (r: bool)
        ensures
            r == (self@ == other@),
        decreases self,
    {
        match (self, other) {
            (Action::Loop(a), Action::Loop(b)) => a.structurally_equal(b),
            (Action::Press(a), Action::Press(b)) => *a == *b,
            (Action::Move(a), Action::Move(b)) => *a == *b,
            (Action::Delay(a), Action::Delay(b)) => *a == *b,
            _ => false,
        }
    }
}

impl LoopAction {
    /// Deep structural equality: true exactly when the two trees have the
    /// same shape and the same field values everywhere.
    pub fn structurally_equal(&self, other: &LoopAction) -> (r: bool)
        ensures
            r == (self@ == other@),
        decreases self,
    {
        proof {
            lemma_models_of(self.actions@);
            lemma_models_of(other.actions@);
        }
        if self.infinite != other.infinite || self.iterations != other.iterations {
            return false;
        }
        let n = self.actions.len();
        if n != other.actions.len() {
            return false;
        }
        let mut i: usize = 0;
        while i < n
            invariant
                i <= n,
                n == self.actions@.len(),
                n == other.actions@.len(),
                forall|j: int|
                    0 <= j < i ==> #[trigger] model_of(self.actions@[j]) == model_of(
                        other.actions@[j],
                    ),
            decreases n - i,
        {
            proof {
                assert(decreases_to!(self.actions => self.actions[i as int]));
            }
            if !self.actions[i].structurally_equal(&other.actions[i]) {
                proof {
                    lemma_models_of(self.actions@);
                    lemma_models_of(other.actions@);
                    assert(models_of(self.actions@)[i as int] != models_of(other.actions@)[
                        i as int]);
                }
                return false;
            }
            i += 1;
        }
        proof {
            assert(models_of(self.actions@) =~= models_of(other.actions@));
        }
        true
    }
}

impl Clone for Action {
    /// A deep copy: the clone is structurally equal to the original.
    fn clone(&self) -> (res: Self)
        ensures
            res@ == self@,
        decreases self,
    {
        match self {
            Action::Loop(l) => Action::Loop(l.clone()),
            Action::Press(p) => Action::Press(*p),
            Action::Move(m) => Action::Move(*m),
            Action::Delay(d) => Action::Delay(*d),
        }
    }
}

impl Clone for LoopAction {
    /// A deep copy: the clone is structurally equal to the original.
    fn clone(&self) -> (res: Self)
        ensures
            res@ == self@,
        decreases self,
    {
        let mut cloned: Vec<Action> = Vec::new();
        let n = self.actions.len();
        let mut i: usize = 0;
        while i < n
            invariant
                i <= n,
                n == self.actions.len(),
                cloned@.len() == i,
                forall|j: int| 0 <= j < i ==> model_of(cloned@[j]) == model_of(self.actions@[j]),
            decreases n - i,
        {
            proof {
                assert(decreases_to!(self.actions => self.actions[i as int]));
            }
            cloned.push(self.actions[i].clone());
            i += 1;
        }
        let res = LoopAction { infinite: self.infinite, iterations: self.iterations, actions: cloned };
        proof {
            lemma_models_of(res.actions@);
            lemma_models_of(self.actions@);
            assert(models_of(res.actions@) =~= models_of(self.actions@));
            assert(res@ =~= self@);
        }
        res
    }
}

impl From<MoveAction> for Action {
    fn from(value: MoveAction) -> Self {
        Action::Move(value)
    }
}

impl vstd::std_specs::convert::FromSpecImpl<MoveAction> for Action {
    open spec fn obeys_from_spec() -> bool {
        true
    }

    open spec fn from_spec(value: MoveAction) -> Action {
        Action::Move(value)
    }
}

impl From<PressAction> for Action {
    fn from(value: PressAction) -> Self {
        Action::Press(value)
    }
}

impl vstd::std_specs::convert::FromSpecImpl<PressAction> for Action {
    open spec fn obeys_from_spec() -> bool {
        true
    }

    open spec fn from_spec(value: PressAction) -> Action {
        Action::Press(value)
    }
}

impl From<DelayAction> for Action {
    fn from(value: DelayAction) -> Self {
        Action::Delay(value)
    }
}

impl vstd::std_specs::convert::FromSpecImpl<DelayAction> for Action {
    open spec fn obeys_from_spec() -> bool {
        true
    }

    open spec fn from_spec(value: DelayAction) -> Action {
        Action::Delay(value)
    }
}

impl From<LoopAction> for Action {
    fn from(value: LoopAction) -> Self {
        Action::Loop(value)
    }
}

impl vstd::std_specs::convert::FromSpecImpl<LoopAction> for Action {
    open spec fn obeys_from_spec() -> bool {
        true
    }

    open spec fn from_spec(value: LoopAction) -> Action {
        Action::Loop(value)
    }
}

} // verus!
