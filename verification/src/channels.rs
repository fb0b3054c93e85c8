//! Where the player's submissions go while a script runs: a pending
//! `input` event takes typed text; a pending `choices` event takes a choice,
//! and typed text too when it allows free input.
use vstd::prelude::*;
use crate::text::owned;

verus! {

/// What a running script waits for.
#[derive(Debug, Clone, Copy, PartialEq, Eq, Structural)]
pub struct Pending {
    /// An `input` event waits for text.
    pub input: bool,
    /// A `choices` event waits for a choice.
    pub choice: bool,
    /// The waiting `choices` event accepts typed text.
    pub choice_allow_free: bool,
}

/// Where a submission is delivered.
#[derive(Debug, Clone, Copy, PartialEq, Eq, Structural)]
pub enum Delivery {
    Input,
    Choice,
}

pub const MSG_NO_FREE_INPUT: &'static str = "当前的选项不接受自由输入，请点击一个选项";
pub const MSG_NOTHING_WAITS: &'static str = "当前没有等待输入的脚本事件";
pub const MSG_NO_CHOICE_WAITS: &'static str = "当前没有等待选择的脚本事件";

/// Typed text goes to the waiting `input` event; else to a waiting choice
/// that accepts free input (which is then answered); a choice that does not
/// accept it refuses the text and stays usable; with nothing waiting, the
/// text is refused. A delivery answers what it goes to.
pub open spec fn route_input_spec(p: Pending) -> (Result<Delivery, Seq<char>>, Pending) {
    if p.input {
        (Ok(Delivery::Input), Pending { input: false, ..p })
    } else if p.choice_allow_free && p.choice {
        (Ok(Delivery::Choice), Pending { choice: false, choice_allow_free: false, ..p })
    } else if p.choice {
        (Err(MSG_NO_FREE_INPUT@), p)
    } else {
        (Err(MSG_NOTHING_WAITS@), p)
    }
}

/// Routes typed text; returns where it goes and what still waits.
pub fn route_input(p: Pending) -> (r: (Result<Delivery, String>, Pending))
    ensures
        match route_input_spec(p).0 {
            Ok(d) => r.0 is Ok && r.0->Ok_0 == d,
            Err(m) => r.0 is Err && r.0->Err_0@ == m,
        },
        r.1 == route_input_spec(p).1,
{
    if p.input {
        (Ok(Delivery::Input), Pending { input: false, ..p })
    } else if p.choice_allow_free && p.choice {
        (Ok(Delivery::Choice), Pending { choice: false, choice_allow_free: false, ..p })
    } else if p.choice {
        (Err(owned(MSG_NO_FREE_INPUT)), p)
    } else {
        (Err(owned(MSG_NOTHING_WAITS)), p)
    }
}

/// A clicked choice goes to the waiting `choices` event, which is then
/// answered; with no choice waiting it is refused.
pub open spec fn route_choice_spec(p: Pending) -> (Result<Delivery, Seq<char>>, Pending) {
    if p.choice {
        (Ok(Delivery::Choice), Pending { choice: false, choice_allow_free: false, ..p })
    } else {
        (Err(MSG_NO_CHOICE_WAITS@), p)
    }
}

/// Routes a clicked choice; returns where it goes and what still waits.
pub fn route_choice(p: Pending) -> (r: (Result<Delivery, String>, Pending))
    ensures
        match route_choice_spec(p).0 {
            Ok(d) => r.0 is Ok && r.0->Ok_0 == d,
            Err(m) => r.0 is Err && r.0->Err_0@ == m,
        },
        r.1 == route_choice_spec(p).1,
{
    if p.choice {
        (Ok(Delivery::Choice), Pending { choice: false, choice_allow_free: false, ..p })
    } else {
        (Err(owned(MSG_NO_CHOICE_WAITS)), p)
    }
}

/// A refused submission changes nothing, and a delivered one answers
/// exactly the event it goes to (the other stays waiting).
pub proof fn law_submissions_answer_one_event(p: Pending)
    ensures
        route_input_spec(p).0 is Err ==> route_input_spec(p).1 == p,
        route_choice_spec(p).0 is Err ==> route_choice_spec(p).1 == p,
        route_input_spec(p).0 == Ok::<Delivery, Seq<char>>(Delivery::Input) ==>
            p.input && !route_input_spec(p).1.input && route_input_spec(p).1.choice == p.choice,
        route_input_spec(p).0 == Ok::<Delivery, Seq<char>>(Delivery::Choice) ==>
            p.choice && !route_input_spec(p).1.choice && route_input_spec(p).1.input == p.input,
        route_choice_spec(p).0 is Ok ==> p.choice && !route_choice_spec(p).1.choice && route_choice_spec(p).1.input == p.input,
{
}

} // verus!
