use vstd::prelude::*;
use crate::ast::Node;
use crate::semantics::{Fault, Event, State, Builtin, builtin_named, run, run_seq, with_stack, emit};

verus! {

/// The node `: name body ;`.
pub open spec fn definition(name: Seq<char>, body: Seq<Node>) -> Node {
    Node::Definition(Box::new(Node::Sequence(seq![Node::Word(name)] + body)))
}

/// The state after one item of a sequence ran, its failure (if any) displayed.
pub open spec fn reported(step: (State, Result<(), Fault>)) -> State {
    match step.1 {
        Ok(_) => step.0,
        Err(f) => emit(step.0, Event::Error(f)),
    }
}

proof fn lemma_builtin_names()
    ensures
        builtin_named("i"@) is None,
        builtin_named("dup"@) == Some(Builtin::Dup),
        builtin_named(".s"@) == Some(Builtin::DotS),
{
    reveal_strlit("*");
    reveal_strlit("/");
    reveal_strlit("+");
    reveal_strlit("-");
    reveal_strlit("=");
    reveal_strlit("mod");
    reveal_strlit("and");
    reveal_strlit("or");
    reveal_strlit("invert");
    reveal_strlit("dup");
    reveal_strlit("swap");
    reveal_strlit("clear");
    reveal_strlit(".");
    reveal_strlit(".s");
    reveal_strlit("i");
    assert("i"@ != "*"@) by { assert("i"@[0] != "*"@[0]); }
    assert("i"@ != "/"@) by { assert("i"@[0] != "/"@[0]); }
    assert("i"@ != "+"@) by { assert("i"@[0] != "+"@[0]); }
    assert("i"@ != "-"@) by { assert("i"@[0] != "-"@[0]); }
    assert("i"@ != "="@) by { assert("i"@[0] != "="@[0]); }
    assert("i"@ != "mod"@) by { assert("i"@.len() != "mod"@.len()); }
    assert("i"@ != "and"@) by { assert("i"@.len() != "and"@.len()); }
    assert("i"@ != "or"@) by { assert("i"@.len() != "or"@.len()); }
    assert("i"@ != "invert"@) by { assert("i"@.len() != "invert"@.len()); }
    assert("i"@ != "dup"@) by { assert("i"@.len() != "dup"@.len()); }
    assert("i"@ != "swap"@) by { assert("i"@.len() != "swap"@.len()); }
    assert("i"@ != "clear"@) by { assert("i"@.len() != "clear"@.len()); }
    assert("i"@ != "."@) by { assert("i"@[0] != "."@[0]); }
    assert("i"@ != ".s"@) by { assert("i"@.len() != ".s"@.len()); }
    assert("dup"@ != "*"@) by { assert("dup"@.len() != "*"@.len()); }
    assert("dup"@ != "/"@) by { assert("dup"@.len() != "/"@.len()); }
    assert("dup"@ != "+"@) by { assert("dup"@.len() != "+"@.len()); }
    assert("dup"@ != "-"@) by { assert("dup"@.len() != "-"@.len()); }
    assert("dup"@ != "="@) by { assert("dup"@.len() != "="@.len()); }
    assert("dup"@ != "mod"@) by { assert("dup"@[0] != "mod"@[0]); }
    assert("dup"@ != "and"@) by { assert("dup"@[0] != "and"@[0]); }
    assert("dup"@ != "or"@) by { assert("dup"@.len() != "or"@.len()); }
    assert("dup"@ != "invert"@) by { assert("dup"@.len() != "invert"@.len()); }
    assert(".s"@ != "*"@) by { assert(".s"@.len() != "*"@.len()); }
    assert(".s"@ != "/"@) by { assert(".s"@.len() != "/"@.len()); }
    assert(".s"@ != "+"@) by { assert(".s"@.len() != "+"@.len()); }
    assert(".s"@ != "-"@) by { assert(".s"@.len() != "-"@.len()); }
    assert(".s"@ != "="@) by { assert(".s"@.len() != "="@.len()); }
    assert(".s"@ != "mod"@) by { assert(".s"@.len() != "mod"@.len()); }
    assert(".s"@ != "and"@) by { assert(".s"@.len() != "and"@.len()); }
    assert(".s"@ != "or"@) by { assert(".s"@[0] != "or"@[0]); }
    assert(".s"@ != "invert"@) by { assert(".s"@.len() != "invert"@.len()); }
    assert(".s"@ != "dup"@) by { assert(".s"@.len() != "dup"@.len()); }
    assert(".s"@ != "swap"@) by { assert(".s"@.len() != "swap"@.len()); }
    assert(".s"@ != "clear"@) by { assert(".s"@.len() != "clear"@.len()); }
    assert(".s"@ != "."@) by { assert(".s"@.len() != "."@.len()); }
    assert("i"@.len() != 0);
}

/// A node that fails changes nothing: stack, dictionary, loop index and display
/// are as they were before it ran.
pub proof fn law_failure_leaves_state(s: State, n: Node, fuel: nat)
    requires
        run(s, n, fuel).1 is Err,
    ensures
        run(s, n, fuel).0 == s,
{
    match n {
        Node::Word(name) => {
            if builtin_named(name) is Some {
                let b = builtin_named(name)->0;
                assert(run(s, n, fuel) == crate::semantics::apply(s, b));
            }
        },
        _ => {},
    }
}

/// A sequence never fails: each item runs in turn, and the failure of one is
/// displayed before the next runs.
pub proof fn law_sequence_isolates_failures(s: State, items: Seq<Node>, fuel: nat)
    requires
        items.len() > 0,
    ensures
        run(s, Node::Sequence(items), fuel).1 is Ok,
        run(s, Node::Sequence(items), fuel).0 == run_seq(reported(run(s, items[0], fuel)), items, 1, fuel),
{
}

/// Words are resolved when they run: a word `a` defined as calling `b`, with `b`
/// defined afterwards, runs the phrase that `b` has by then.
pub proof fn law_late_binding(s: State, a: Seq<char>, b: Seq<char>, body: Seq<Node>, fuel: nat)
    requires
        a != b,
        builtin_named(a) is None,
        builtin_named(b) is None,
        a != "i"@,
        b != "i"@,
        fuel >= 2,
    ensures
        ({
            let s1 = run(s, definition(a, seq![Node::Word(b)]), fuel).0;
            let s2 = run(s1, definition(b, body), fuel).0;
            run(s2, Node::Word(a), fuel) == (run_seq(s2, body, 0, (fuel - 2) as nat), Ok::<(), Fault>(()))
        }),
{
    let s1 = run(s, definition(a, seq![Node::Word(b)]), fuel).0;
    let s2 = run(s1, definition(b, body), fuel).0;
    assert((seq![Node::Word(a)] + seq![Node::Word(b)]).drop_first() =~= seq![Node::Word(b)]);
    assert((seq![Node::Word(b)] + body).drop_first() =~= body);
    assert(s2.dict[a] == seq![Node::Word(b)]);
    assert(s2.dict[b] == body);
    let f1 = (fuel - 1) as nat;
    let inner = run_seq(s2, body, 0, (fuel - 2) as nat);
    assert(run(s2, Node::Word(b), f1) == (inner, Ok::<(), Fault>(())));
    assert(run_seq(s2, seq![Node::Word(b)], 0, f1) == run_seq(inner, seq![Node::Word(b)], 1, f1));
}

/// Defining a word again replaces its phrase: only the second body is used.
pub proof fn law_redefinition(s: State, x: Seq<char>, first: Seq<Node>, second: Seq<Node>, fuel: nat)
    requires
        builtin_named(x) is None,
        x != "i"@,
        fuel >= 1,
    ensures
        ({
            let s1 = run(s, definition(x, first), fuel).0;
            let s2 = run(s1, definition(x, second), fuel).0;
            &&& s2.dict == s.dict.insert(x, second)
            &&& run(s2, Node::Word(x), fuel) == (run_seq(s2, second, 0, (fuel - 1) as nat), Ok::<(), Fault>(()))
        }),
{
    let s1 = run(s, definition(x, first), fuel).0;
    let s2 = run(s1, definition(x, second), fuel).0;
    assert((seq![Node::Word(x)] + first).drop_first() =~= first);
    assert((seq![Node::Word(x)] + second).drop_first() =~= second);
    assert(s2.dict =~= s.dict.insert(x, second));
}

/// Inside a loop, `i` pushes the current index.
pub proof fn law_loop_index(s: State, fuel: nat)
    requires
        s.loop_i is Some,
    ensures
        run(s, Node::Word("i"@), fuel) == (with_stack(s, s.stack.push(s.loop_i->0)), Ok::<(), Fault>(())),
{
    lemma_builtin_names();
}

/// Once a counted loop has finished there is no loop index, and `i`, unless
/// defined as a word, is unknown.
pub proof fn law_loop_index_cleared(s: State, body: Seq<Node>, fuel: nat)
    requires
        s.stack.len() >= 2,
    ensures
        ({
            let (after, r) = run(s, Node::CountedLoop(Box::new(Node::Sequence(body))), fuel);
            &&& r is Ok
            &&& after.loop_i is None
            &&& !after.dict.contains_key("i"@) ==> run(after, Node::Word("i"@), fuel) == (
                after,
                Err::<(), Fault>(Fault::UnknownWord("i"@)),
            )
        }),
{
    lemma_builtin_names();
}

/// A conditional pops a flag: -1 runs the consequent, any other value the
/// alternative; with no flag it fails with a stack underflow.
pub proof fn law_conditional(s: State, yes: Seq<Node>, no: Seq<Node>, fuel: nat)
    ensures
        ({
            let n = Node::Conditional {
                consequent: Some(Box::new(Node::Sequence(yes))),
                alternative: Some(Box::new(Node::Sequence(no))),
            };
            let popped = with_stack(s, s.stack.drop_last());
            &&& s.stack.len() == 0 ==> run(s, n, fuel) == (s, Err::<(), Fault>(Fault::StackUnderflow))
            &&& s.stack.len() > 0 && s.stack.last() == -1 ==> run(s, n, fuel) == (
                run_seq(popped, yes, 0, fuel),
                Ok::<(), Fault>(()),
            )
            &&& s.stack.len() > 0 && s.stack.last() != -1 ==> run(s, n, fuel) == (
                run_seq(popped, no, 0, fuel),
                Ok::<(), Fault>(()),
            )
        }),
{
}

/// On an empty stack `dup` does nothing and `.s` displays an empty stack.
pub proof fn law_empty_stack_forgiving(s: State, fuel: nat)
    requires
        s.stack.len() == 0,
    ensures
        run(s, Node::Word("dup"@), fuel) == (s, Ok::<(), Fault>(())),
        run(s, Node::Word(".s"@), fuel) == (emit(s, Event::Stack(Seq::empty())), Ok::<(), Fault>(())),
{
    lemma_builtin_names();
    assert(s.stack =~= Seq::<i64>::empty());
}

} // verus!
