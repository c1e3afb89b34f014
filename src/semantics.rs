use vstd::prelude::*;
use crate::ast::Node;
use vstd::wrapping::i64_specs::{wrapping_add, wrapping_mul, wrapping_sub};

verus! {

/// Why executing a node failed.
pub enum Fault {
    StackUnderflow,
    DivideByZero,
    UnknownWord(Seq<char>),
    MalformedDefinition,
    MalformedBody,
    CallDepthExceeded,
}

/// One displayed item.
pub enum Event {
    Text(Seq<char>),
    Value(i64),
    Stack(Seq<i64>),
    Error(Fault),
}

/// The abstract state of an interpreter session.
pub struct State {
    /// Operand stack, top last.
    pub stack: Seq<i64>,
    /// User-defined words and their phrases.
    pub dict: Map<Seq<char>, Seq<Node>>,
    /// Index of the innermost running counted loop.
    pub loop_i: Option<i64>,
    /// Everything displayed so far.
    pub out: Seq<Event>,
}

/// The built-in words.
#[derive(Debug, Clone, Copy, PartialEq, Eq, Structural)]
pub enum Builtin {
    Mul,
    Div,
    Add,
    Sub,
    Equal,
    Mod,
    And,
    Or,
    Invert,
    Dup,
    Swap,
    Clear,
    Dot,
    DotS,
    Nop,
}

pub open spec fn builtin_named(name: Seq<char>) -> Option<Builtin> {
    if name == "*"@ {
        Some(Builtin::Mul)
    } else if name == "/"@ {
        Some(Builtin::Div)
    } else if name == "+"@ {
        Some(Builtin::Add)
    } else if name == "-"@ {
        Some(Builtin::Sub)
    } else if name == "="@ {
        Some(Builtin::Equal)
    } else if name == "mod"@ {
        Some(Builtin::Mod)
    } else if name == "and"@ {
        Some(Builtin::And)
    } else if name == "or"@ {
        Some(Builtin::Or)
    } else if name == "invert"@ {
        Some(Builtin::Invert)
    } else if name == "dup"@ {
        Some(Builtin::Dup)
    } else if name == "swap"@ {
        Some(Builtin::Swap)
    } else if name == "clear"@ {
        Some(Builtin::Clear)
    } else if name == "."@ {
        Some(Builtin::Dot)
    } else if name == ".s"@ {
        Some(Builtin::DotS)
    } else if name.len() == 0 {
        Some(Builtin::Nop)
    } else {
        None
    }
}

pub open spec fn is_binary(b: Builtin) -> bool {
    match b {
        Builtin::Mul | Builtin::Div | Builtin::Add | Builtin::Sub | Builtin::Equal | Builtin::Mod
        | Builtin::And | Builtin::Or => true,
        _ => false,
    }
}

/// The truth flags: -1 for true, 0 for false.
pub open spec fn flag(b: bool) -> i64 {
    if b {
        -1i64
    } else {
        0i64
    }
}

/// Truncating quotient; the one overflowing case wraps to `i64::MIN`.
pub open spec fn quotient(a: i64, b: i64) -> i64 {
    match a.checked_div(b) {
        Some(q) => q,
        None => i64::MIN,
    }
}

/// Remainder with the sign of the dividend; the one overflowing case gives 0.
pub open spec fn remainder(a: i64, b: i64) -> i64 {
    match a.checked_rem(b) {
        Some(r) => r,
        None => 0,
    }
}

/// `v2 op v1`, where `v1` was the top of the stack; `None` on a zero divisor.
pub open spec fn binary_result(b: Builtin, v2: i64, v1: i64) -> Option<i64> {
    match b {
        Builtin::Mul => Some(wrapping_mul(v2, v1)),
        Builtin::Add => Some(wrapping_add(v2, v1)),
        Builtin::Sub => Some(wrapping_sub(v2, v1)),
        Builtin::Div => if v1 == 0 { None } else { Some(quotient(v2, v1)) },
        Builtin::Mod => if v1 == 0 { None } else { Some(remainder(v2, v1)) },
        Builtin::Equal => Some(flag(v2 == v1)),
        Builtin::And => Some(flag(v2 == -1 && v1 == -1)),
        Builtin::Or => Some(flag(v2 == -1 || v1 == -1)),
        _ => None,
    }
}

pub open spec fn with_stack(s: State, stack: Seq<i64>) -> State {
    State { stack: stack, ..s }
}

pub open spec fn emit(s: State, e: Event) -> State {
    State { out: s.out.push(e), ..s }
}

/// What a built-in word does. A failing word leaves the state as it was.
pub open spec fn apply(s: State, b: Builtin) -> (State, Result<(), Fault>) {
    let n = s.stack.len();
    match b {
        Builtin::Dup => if n == 0 {
            (s, Ok(()))
        } else {
            (with_stack(s, s.stack.push(s.stack[n - 1])), Ok(()))
        },
        Builtin::Swap => if n < 2 {
            (s, Err(Fault::StackUnderflow))
        } else {
            (with_stack(s, s.stack.subrange(0, n - 2).push(s.stack[n - 1]).push(s.stack[n - 2])), Ok(()))
        },
        Builtin::Clear => (with_stack(s, Seq::empty()), Ok(())),
        Builtin::Dot => if n == 0 {
            (s, Err(Fault::StackUnderflow))
        } else {
            (emit(with_stack(s, s.stack.drop_last()), Event::Value(s.stack[n - 1])), Ok(()))
        },
        Builtin::DotS => (emit(s, Event::Stack(s.stack)), Ok(())),
        Builtin::Nop => (s, Ok(())),
        Builtin::Invert => if n == 0 {
            (s, Err(Fault::StackUnderflow))
        } else {
            (with_stack(s, s.stack.drop_last().push(flag(s.stack[n - 1] != -1))), Ok(()))
        },
        _ => if n < 2 {
            (s, Err(Fault::StackUnderflow))
        } else {
            match binary_result(b, s.stack[n - 2], s.stack[n - 1]) {
                Some(v) => (with_stack(s, s.stack.subrange(0, n - 2).push(v)), Ok(())),
                None => (s, Err(Fault::DivideByZero)),
            }
        },
    }
}

/// A branch or body is acceptable when absent or a sequence.
pub open spec fn branch_ok(b: Option<Box<Node>>) -> bool {
    match b {
        Some(x) => (*x) is Sequence,
        None => true,
    }
}

/// Executes one node. `fuel` bounds the nesting of user-defined word calls.
pub open spec fn run(s: State, n: Node, fuel: nat) -> (State, Result<(), Fault>)
    decreases fuel, n, 0int,
{
    match n {
        Node::Sequence(items) => (run_seq(s, items, 0, fuel), Ok(())),
        Node::PushLiteral(v) => (with_stack(s, s.stack.push(v)), Ok(())),
        Node::PrintString(t) => (emit(s, Event::Text(t)), Ok(())),
        Node::Definition(b) => match *b {
            Node::Sequence(items) => if items.len() > 0 && items[0] is Word {
                (State { dict: s.dict.insert(items[0]->Word_0, items.drop_first()), ..s }, Ok(()))
            } else {
                (s, Err(Fault::MalformedDefinition))
            },
            _ => (s, Err(Fault::MalformedDefinition)),
        },
        Node::Conditional { consequent, alternative } => if !branch_ok(consequent) || !branch_ok(
            alternative,
        ) {
            (s, Err(Fault::MalformedBody))
        } else if s.stack.len() == 0 {
            (s, Err(Fault::StackUnderflow))
        } else {
            let popped = with_stack(s, s.stack.drop_last());
            let chosen = if s.stack.last() == -1 {
                consequent
            } else {
                alternative
            };
            match chosen {
                Some(b) => match *b {
                    Node::Sequence(items) => (run_seq(popped, items, 0, fuel), Ok(())),
                    _ => (popped, Ok(())),
                },
                None => (popped, Ok(())),
            }
        },
        Node::CountedLoop(b) => match *b {
            Node::Sequence(items) => if s.stack.len() < 2 {
                (s, Err(Fault::StackUnderflow))
            } else {
                let len = s.stack.len();
                let popped = with_stack(s, s.stack.subrange(0, len - 2));
                let done = run_loop(popped, items, s.stack[len - 1], s.stack[len - 2], fuel);
                (State { loop_i: None, ..done }, Ok(()))
            },
            _ => (s, Err(Fault::MalformedBody)),
        },
        Node::Word(name) => match builtin_named(name) {
            Some(op) => apply(s, op),
            None => if name == "i"@ && s.loop_i is Some {
                (with_stack(s, s.stack.push(s.loop_i->0)), Ok(()))
            } else if s.dict.contains_key(name) {
                if fuel == 0 {
                    (s, Err(Fault::CallDepthExceeded))
                } else {
                    (run_seq(s, s.dict[name], 0, (fuel - 1) as nat), Ok(()))
                }
            } else {
                (s, Err(Fault::UnknownWord(name)))
            },
        },
    }
}

/// Executes `items[i..]` in order; a failing item is displayed and the rest still run.
pub open spec fn run_seq(s: State, items: Seq<Node>, i: int, fuel: nat) -> State
    decreases fuel, items, items.len() - i,
{
    if i < 0 || i >= items.len() {
        s
    } else {
        let (s1, r) = run(s, items[i], fuel);
        let s2 = match r {
            Ok(_) => s1,
            Err(f) => emit(s1, Event::Error(f)),
        };
        run_seq(s2, items, i + 1, fuel)
    }
}

/// Runs `body` once for each index from `cur` up to, not including, `end`.
pub open spec fn run_loop(s: State, body: Seq<Node>, cur: i64, end: i64, fuel: nat) -> State
    decreases fuel, body, body.len() + 1 + end - cur,
{
    if cur >= end {
        s
    } else {
        let s1 = run_seq(State { loop_i: Some(cur), ..s }, body, 0, fuel);
        run_loop(s1, body, (cur + 1) as i64, end, fuel)
    }
}

} // verus!
