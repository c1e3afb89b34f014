use vstd::prelude::*;
use crate::ast::{Ast, Node, view_items, lemma_view_items, copy_items};
use crate::semantics::{Fault, Event, State, Builtin, builtin_named, is_binary, binary_result, flag, apply, run, run_seq, run_loop, with_stack, emit};

verus! {

/// The deepest nesting of user-defined word calls that `exec` allows.
pub const MAX_CALL_DEPTH: u64 = 128;

/// Why executing a node failed.
#[derive(Debug, PartialEq, Eq)]
pub enum Failure {
    /// An operation needed more operands than the stack held.
    StackUnderflow,
    /// `/` or `mod` with a zero divisor.
    DivideByZero,
    /// A word that is neither built in, nor defined, nor the index of a running loop.
    UnknownWord(String),
    /// A definition whose body is not a sequence starting with a word.
    MalformedDefinition,
    /// A branch or loop body that is not a sequence.
    MalformedBody,
    /// User-defined words called each other too deeply.
    CallDepthExceeded,
}

impl Ast {
    /// Whether this node is a sequence.
    pub fn is_sequence(&self) -> (r: bool)
        ensures
            r == (self.view() is Sequence),
    {
        match self {
            Ast::Sequence(_) => true,
            _ => false,
        }
    }
}

impl Failure {
    pub open spec fn view(&self) -> Fault {
        match self {
            Failure::StackUnderflow => Fault::StackUnderflow,
            Failure::DivideByZero => Fault::DivideByZero,
            Failure::UnknownWord(w) => Fault::UnknownWord(w@),
            Failure::MalformedDefinition => Fault::MalformedDefinition,
            Failure::MalformedBody => Fault::MalformedBody,
            Failure::CallDepthExceeded => Fault::CallDepthExceeded,
        }
    }
}

/// One item displayed by the interpreter.
#[derive(Debug, PartialEq, Eq)]
pub enum Output {
    /// A literal string.
    Text(String),
    /// A value popped by `.`.
    Value(i64),
    /// The whole stack, bottom first, shown by `.s`.
    Stack(Vec<i64>),
    /// A failure reported by an enclosing sequence.
    Error(Failure),
}

impl Output {
    pub open spec fn view(&self) -> Event {
        match self {
            Output::Text(t) => Event::Text(t@),
            Output::Value(v) => Event::Value(*v),
            Output::Stack(s) => Event::Stack(s@),
            Output::Error(f) => Event::Error(f.view()),
        }
    }
}

pub open spec fn view_result(r: Result<(), Failure>) -> Result<(), Fault> {
    match r {
        Ok(_) => Ok(()),
        Err(f) => Err(f.view()),
    }
}

/// The dictionary held as a list of entries; later entries win.
pub open spec fn dict_of(s: Seq<(String, Vec<Ast>)>) -> Map<Seq<char>, Seq<Node>>
    decreases s.len(),
{
    if s.len() == 0 {
        Map::empty()
    } else {
        dict_of(s.drop_last()).insert(s.last().0@, view_items(s.last().1@))
    }
}

pub open spec fn names_unique(s: Seq<(String, Vec<Ast>)>) -> bool {
    forall|i: int, j: int| 0 <= i < s.len() && 0 <= j < s.len() && i != j ==> s[i].0@ != s[j].0@
}

proof fn lemma_dict_lookup(s: Seq<(String, Vec<Ast>)>, k: Seq<char>)
    requires
        names_unique(s),
    ensures
        dict_of(s).contains_key(k) <==> exists|i: int| 0 <= i < s.len() && s[i].0@ == k,
        forall|j: int| 0 <= j < s.len() && s[j].0@ == k ==> dict_of(s)[k] == view_items(s[j].1@),
    decreases s.len(),
{
    if s.len() > 0 {
        let p = s.drop_last();
        assert(names_unique(p));
        lemma_dict_lookup(p, k);
        if dict_of(s).contains_key(k) && s.last().0@ != k {
            let i = choose|i: int| 0 <= i < p.len() && p[i].0@ == k;
            assert(s[i].0@ == k);
        }
        if exists|i: int| 0 <= i < s.len() && s[i].0@ == k {
            let i = choose|i: int| 0 <= i < s.len() && s[i].0@ == k;
            if i < s.len() - 1 {
                assert(p[i].0@ == k);
            }
        }
    }
}

proof fn lemma_dict_update(s: Seq<(String, Vec<Ast>)>, j: int, e: (String, Vec<Ast>))
    requires
        names_unique(s),
        0 <= j < s.len(),
        s[j].0@ == e.0@,
    ensures
        names_unique(s.update(j, e)),
        dict_of(s.update(j, e)) == dict_of(s).insert(e.0@, view_items(e.1@)),
    decreases s.len(),
{
    let t = s.update(j, e);
    assert(names_unique(t));
    if j == s.len() - 1 {
        assert(t.drop_last() =~= s.drop_last());
        assert(dict_of(t) =~= dict_of(s).insert(e.0@, view_items(e.1@)));
    } else {
        let p = s.drop_last();
        assert(names_unique(p));
        lemma_dict_update(p, j, e);
        assert(t.drop_last() =~= p.update(j, e));
        assert(s.last().0@ != e.0@);
        assert(dict_of(t) =~= dict_of(s).insert(e.0@, view_items(e.1@)));
    }
}

/// An interpreter session: operand stack, dictionary and loop index.
#[derive(Debug)]
pub struct Forth {
    stack: Vec<i64>,
    dictionary: Vec<(String, Vec<Ast>)>,
    loop_i: Option<i64>,
    output: Vec<Output>,
}

impl Forth {
    pub closed spec fn view(&self) -> State {
        State {
            stack: self.stack@,
            dict: dict_of(self.dictionary@),
            loop_i: self.loop_i,
            out: self.output@.map_values(|o: Output| o.view()),
        }
    }

    /// The dictionary holds each name once.
    pub closed spec fn wf(&self) -> bool {
        names_unique(self.dictionary@)
    }

    /// A session with an empty stack, an empty dictionary and no running loop.
    pub fn new() -> (r: Forth)
        ensures
            r.wf(),
            r.view().stack == Seq::<i64>::empty(),
            r.view().dict == Map::<Seq<char>, Seq<Node>>::empty(),
            r.view().loop_i is None,
            r.view().out == Seq::<Event>::empty(),
    {
        let r = Forth { stack: Vec::new(), dictionary: Vec::new(), loop_i: None, output: Vec::new() };
        assert(r.view().out =~= Seq::<Event>::empty());
        r
    }

    fn emit_output(&mut self, o: Output)
        ensures
            final(self).view() == emit(old(self).view(), o.view()),
            final(self).wf() == old(self).wf(),
    {
        let ghost e = o.view();
        self.output.push(o);
        proof {
            assert(self.output@.map_values(|o: Output| o.view()) =~= old(self).output@.map_values(
                |o: Output| o.view(),
            ).push(e));
        }
    }

    /// Pushes `item` onto the stack.
    pub fn push(&mut self, item: i64)
        ensures
            final(self).view() == with_stack(old(self).view(), old(self).view().stack.push(item)),
            final(self).wf() == old(self).wf(),
    {
        self.stack.push(item);
    }

    /// Pops the top of the stack and displays it.
    pub fn pop(&mut self) -> (r: Result<(), Failure>)
        ensures
            final(self).view() == apply(old(self).view(), Builtin::Dot).0,
            view_result(r) == apply(old(self).view(), Builtin::Dot).1,
            final(self).wf() == old(self).wf(),
    {
        match self.stack.pop() {
            Some(v) => {
                self.emit_output(Output::Value(v));
                Ok(())
            },
            None => Err(Failure::StackUnderflow),
        }
    }

    /// Displays the whole stack without changing it.
    pub fn print(&mut self) -> (r: Result<(), Failure>)
        ensures
            final(self).view() == apply(old(self).view(), Builtin::DotS).0,
            view_result(r) == apply(old(self).view(), Builtin::DotS).1,
            final(self).wf() == old(self).wf(),
    {
        let mut copy: Vec<i64> = Vec::new();
        let mut k: usize = 0;
        while k < self.stack.len()
            invariant
                k <= self.stack.len(),
                copy@ == self.stack@.subrange(0, k as int),
            decreases self.stack.len() - k,
        {
            copy.push(self.stack[k]);
            k = k + 1;
            assert(copy@ =~= self.stack@.subrange(0, k as int));
        }
        assert(copy@ =~= self.stack@);
        self.emit_output(Output::Stack(copy));
        Ok(())
    }

    /// Duplicates the top of the stack; does nothing on an empty stack.
    pub fn dup(&mut self) -> (r: Result<(), Failure>)
        ensures
            final(self).view() == apply(old(self).view(), Builtin::Dup).0,
            view_result(r) == apply(old(self).view(), Builtin::Dup).1,
            final(self).wf() == old(self).wf(),
    {
        let n = self.stack.len();
        if n > 0 {
            let last = self.stack[n - 1];
            self.stack.push(last);
        }
        Ok(())
    }

    /// Empties the stack.
    pub fn clear(&mut self) -> (r: Result<(), Failure>)
        ensures
            final(self).view() == apply(old(self).view(), Builtin::Clear).0,
            view_result(r) == apply(old(self).view(), Builtin::Clear).1,
            final(self).wf() == old(self).wf(),
    {
        self.stack.clear();
        assert(self.stack@ =~= Seq::<i64>::empty());
        Ok(())
    }

    /// Exchanges the top two values.
    pub fn swap(&mut self) -> (r: Result<(), Failure>)
        ensures
            final(self).view() == apply(old(self).view(), Builtin::Swap).0,
            view_result(r) == apply(old(self).view(), Builtin::Swap).1,
            final(self).wf() == old(self).wf(),
    {
        let n = self.stack.len();
        if n < 2 {
            return Err(Failure::StackUnderflow);
        }
        let top_one = self.stack[n - 1];
        let top_two = self.stack[n - 2];
        self.stack.set(n - 2, top_one);
        self.stack.set(n - 1, top_two);
        assert(self.stack@ =~= old(self).stack@.subrange(0, n - 2).push(top_one).push(top_two));
        Ok(())
    }

    /// Applies a two-operand word: pops `v1` then `v2` and pushes `v2 op v1`.
    pub fn op_two(&mut self, op: Builtin) -> (r: Result<(), Failure>)
        requires
            is_binary(op),
        ensures
            final(self).view() == apply(old(self).view(), op).0,
            view_result(r) == apply(old(self).view(), op).1,
            final(self).wf() == old(self).wf(),
    {
        let n = self.stack.len();
        if n < 2 {
            return Err(Failure::StackUnderflow);
        }
        let v1 = self.stack[n - 1];
        let v2 = self.stack[n - 2];
        match compute_two(op, v2, v1) {
            Some(v) => {
                self.stack.pop();
                self.stack.set(n - 2, v);
                assert(self.stack@ =~= old(self).stack@.subrange(0, n - 2).push(v));
                Ok(())
            },
            None => Err(Failure::DivideByZero),
        }
    }

    /// `invert`: replaces the top with its logical negation.
    pub fn op(&mut self) -> (r: Result<(), Failure>)
        ensures
            final(self).view() == apply(old(self).view(), Builtin::Invert).0,
            view_result(r) == apply(old(self).view(), Builtin::Invert).1,
            final(self).wf() == old(self).wf(),
    {
        let n = self.stack.len();
        if n == 0 {
            return Err(Failure::StackUnderflow);
        }
        let v = self.stack[n - 1];
        let r: i64 = if v != -1 {
            -1
        } else {
            0
        };
        self.stack.set(n - 1, r);
        assert(self.stack@ =~= old(self).stack@.drop_last().push(flag(v != -1)));
        Ok(())
    }

    fn find(&self, name: &String) -> (r: Option<usize>)
        ensures
            match r {
                Some(j) => j < self.dictionary@.len() && self.dictionary@[j as int].0@ == name@,
                None => forall|i: int|
                    0 <= i < self.dictionary@.len() ==> self.dictionary@[i].0@ != name@,
            },
    {
        let mut k: usize = 0;
        while k < self.dictionary.len()
            invariant
                k <= self.dictionary@.len(),
                forall|i: int| 0 <= i < k ==> self.dictionary@[i].0@ != name@,
            decreases self.dictionary.len() - k,
        {
            if self.dictionary[k].0 == *name {
                return Some(k);
            }
            k = k + 1;
        }
        None
    }

    /// Stores `phrase` as the meaning of `name`, replacing any earlier one.
    pub fn compile(&mut self, name: String, phrase: Vec<Ast>) -> (r: Result<(), Failure>)
        requires
            old(self).wf(),
        ensures
            final(self).wf(),
            final(self).view() == (State {
                dict: old(self).view().dict.insert(name@, view_items(phrase@)),
                ..old(self).view()
            }),
            r is Ok,
    {
        let ghost e = (name, phrase);
        match self.find(&name) {
            Some(j) => {
                self.dictionary.set(j, (name, phrase));
                proof {
                    lemma_dict_update(old(self).dictionary@, j as int, e);
                }
            },
            None => {
                self.dictionary.push((name, phrase));
                proof {
                    assert(self.dictionary@.drop_last() =~= old(self).dictionary@);
                }
            },
        }
        Ok(())
    }

    /// Executes one node with `MAX_CALL_DEPTH` as the bound on nested word calls.
    pub fn exec(&mut self, ast: Ast) -> (r: Result<(), Failure>)
        requires
            old(self).wf(),
        ensures
            final(self).wf(),
            (final(self).view(), view_result(r)) == run(old(self).view(), ast.view(), MAX_CALL_DEPTH as nat),
    {
        self.run_node(&ast, MAX_CALL_DEPTH)
    }

    fn run_node(&mut self, a: &Ast, fuel: u64) -> (r: Result<(), Failure>)
        requires
            old(self).wf(),
        ensures
            final(self).wf(),
            (final(self).view(), view_result(r)) == run(old(self).view(), a.view(), fuel as nat),
        decreases fuel, a, 0int,
    {
        match a {
            Ast::Sequence(items) => {
                self.run_items(items, fuel);
                Ok(())
            },
            Ast::PushLiteral(v) => {
                self.push(*v);
                Ok(())
            },
            Ast::PrintString(t) => {
                self.emit_output(Output::Text(t.clone()));
                Ok(())
            },
            Ast::Definition(b) => match &**b {
                Ast::Sequence(items) => {
                    proof {
                        lemma_view_items(items@);
                        assert((**b).view() == Node::Sequence(view_items(items@)));
                    }
                    if items.len() == 0 {
                        return Err(Failure::MalformedDefinition);
                    }
                    match &items[0] {
                        Ast::Word(name) => {
                            let rest = copy_items(items, 1);
                            proof {
                                lemma_view_items(rest@);
                                assert(view_items(rest@) =~= view_items(items@).drop_first());
                            }
                            self.compile(name.clone(), rest)
                        },
                        _ => Err(Failure::MalformedDefinition),
                    }
                },
                _ => Err(Failure::MalformedDefinition),
            },
            Ast::Conditional { consequent, alternative } => {
                let c_ok = match consequent {
                    Some(c) => c.is_sequence(),
                    None => true,
                };
                let a_ok = match alternative {
                    Some(x) => x.is_sequence(),
                    None => true,
                };
                if !c_ok || !a_ok {
                    return Err(Failure::MalformedBody);
                }
                match self.stack.pop() {
                    None => Err(Failure::StackUnderflow),
                    Some(v) => {
                        let chosen = if v == -1 {
                            consequent
                        } else {
                            alternative
                        };
                        match chosen {
                            Some(bx) => match &**bx {
                                Ast::Sequence(items) => {
                                    self.run_items(items, fuel);
                                },
                                _ => {},
                            },
                            None => {},
                        }
                        Ok(())
                    },
                }
            },
            Ast::CountedLoop(b) => match &**b {
                Ast::Sequence(items) => {
                    assert((**b).view() == Node::Sequence(view_items(items@)));
                    let n = self.stack.len();
                    if n < 2 {
                        return Err(Failure::StackUnderflow);
                    }
                    let start = self.stack[n - 1];
                    let end = self.stack[n - 2];
                    self.stack.pop();
                    self.stack.pop();
                    assert(self.stack@ =~= old(self).stack@.subrange(0, n - 2));
                    self.run_loop(items, start, end, fuel);
                    self.loop_i = None;
                    Ok(())
                },
                _ => Err(Failure::MalformedBody),
            },
            Ast::Word(name) => match builtin_of(name) {
                Some(op) => self.apply_builtin(op),
                None => {
                    if is_named(name, "i") {
                        if let Some(n) = self.loop_i {
                            self.push(n);
                            return Ok(());
                        }
                    }
                    match self.find(name) {
                        Some(j) => {
                            proof {
                                lemma_dict_lookup(self.dictionary@, name@);
                            }
                            if fuel == 0 {
                                return Err(Failure::CallDepthExceeded);
                            }
                            let body = copy_items(&self.dictionary[j].1, 0);
                            proof {
                                lemma_view_items(body@);
                                lemma_view_items(self.dictionary@[j as int].1@);
                                assert(view_items(body@) =~= view_items(self.dictionary@[j as int].1@));
                            }
                            self.run_items(&body, fuel - 1);
                            Ok(())
                        },
                        None => {
                            proof {
                                lemma_dict_lookup(self.dictionary@, name@);
                            }
                            Err(Failure::UnknownWord(name.clone()))
                        },
                    }
                },
            },
        }
    }

    fn run_items(&mut self, items: &Vec<Ast>, fuel: u64)
        requires
            old(self).wf(),
        ensures
            final(self).wf(),
            final(self).view() == run_seq(old(self).view(), view_items(items@), 0, fuel as nat),
        decreases fuel, items, 0int,
    {
        proof {
            lemma_view_items(items@);
        }
        let mut i: usize = 0;
        while i < items.len()
            invariant
                self.wf(),
                i <= items.len(),
                view_items(items@).len() == items@.len(),
                forall|k: int| 0 <= k < items@.len() ==> #[trigger] view_items(items@)[k] == items@[k].view(),
                run_seq(self.view(), view_items(items@), i as int, fuel as nat) == run_seq(
                    old(self).view(),
                    view_items(items@),
                    0,
                    fuel as nat,
                ),
            decreases items.len() - i,
        {
            proof {
                vstd::std_specs::vec::axiom_vec_index_decreases(*items, i as int);
            }
            let r = self.run_node(&items[i], fuel);
            match r {
                Ok(()) => {},
                Err(f) => self.emit_output(Output::Error(f)),
            }
            i = i + 1;
        }
    }

    fn run_loop(&mut self, body: &Vec<Ast>, start: i64, end: i64, fuel: u64)
        requires
            old(self).wf(),
        ensures
            final(self).wf(),
            final(self).view() == run_loop(old(self).view(), view_items(body@), start, end, fuel as nat),
        decreases fuel, body, 1int,
    {
        let mut n = start;
        while n < end
            invariant
                self.wf(),
                run_loop(self.view(), view_items(body@), n, end, fuel as nat) == run_loop(
                    old(self).view(),
                    view_items(body@),
                    start,
                    end,
                    fuel as nat,
                ),
            decreases end - n,
        {
            self.loop_i = Some(n);
            self.run_items(body, fuel);
            n = n + 1;
        }
    }

    /// The operand stack, bottom first.
    pub fn stack(&self) -> (r: &Vec<i64>)
        ensures
            r@ == self.view().stack,
    {
        &self.stack
    }

    /// The index of the innermost running loop, if any.
    pub fn loop_index(&self) -> (r: Option<i64>)
        ensures
            r == self.view().loop_i,
    {
        self.loop_i
    }

    /// Whether `name` has a user definition.
    pub fn is_defined(&self, name: &String) -> (r: bool)
        requires
            self.wf(),
        ensures
            r == self.view().dict.contains_key(name@),
    {
        proof {
            lemma_dict_lookup(self.dictionary@, name@);
        }
        match self.find(name) {
            Some(_) => true,
            None => false,
        }
    }

    /// Hands out everything displayed since the last call and forgets it.
    pub fn take_output(&mut self) -> (r: Vec<Output>)
        ensures
            r@.map_values(|o: Output| o.view()) == old(self).view().out,
            final(self).view() == (State { out: Seq::empty(), ..old(self).view() }),
            final(self).wf() == old(self).wf(),
    {
        let mut taken: Vec<Output> = Vec::new();
        std::mem::swap(&mut taken, &mut self.output);
        assert(self.output@.map_values(|o: Output| o.view()) =~= Seq::<Event>::empty());
        taken
    }

    fn apply_builtin(&mut self, b: Builtin) -> (r: Result<(), Failure>)
        ensures
            final(self).view() == apply(old(self).view(), b).0,
            view_result(r) == apply(old(self).view(), b).1,
            final(self).wf() == old(self).wf(),
    {
        match b {
            Builtin::Dup => self.dup(),
            Builtin::Swap => self.swap(),
            Builtin::Clear => self.clear(),
            Builtin::Dot => self.pop(),
            Builtin::DotS => self.print(),
            Builtin::Nop => Ok(()),
            Builtin::Invert => self.op(),
            _ => self.op_two(b),
        }
    }
}

/// `v2 op v1` for a two-operand word; `None` on a zero divisor.
pub fn compute_two(op: Builtin, v2: i64, v1: i64) -> (r: Option<i64>)
    requires
        is_binary(op),
    ensures
        r == binary_result(op, v2, v1),
{
    match op {
        Builtin::Mul => Some(v2.wrapping_mul(v1)),
        Builtin::Add => Some(v2.wrapping_add(v1)),
        Builtin::Sub => Some(v2.wrapping_sub(v1)),
        Builtin::Div => if v1 == 0 {
            None
        } else {
            match v2.checked_div(v1) {
                Some(q) => Some(q),
                None => Some(i64::MIN),
            }
        },
        Builtin::Mod => if v1 == 0 {
            None
        } else {
            match v2.checked_rem(v1) {
                Some(q) => Some(q),
                None => Some(0),
            }
        },
        Builtin::Equal => Some(if v2 == v1 { -1 } else { 0 }),
        Builtin::And => Some(if v2 == -1 && v1 == -1 { -1 } else { 0 }),
        _ => Some(if v2 == -1 || v1 == -1 { -1 } else { 0 }),
    }
}

fn is_named(name: &String, lit: &str) -> (r: bool)
    ensures
        r == (name@ == lit@),
{
    let l = lit.to_owned();
    *name == l
}

/// The built-in word that `name` denotes, if any.
pub fn builtin_of(name: &String) -> (r: Option<Builtin>)
    ensures
        r == builtin_named(name@),
{
    if is_named(name, "*") {
        Some(Builtin::Mul)
    } else if is_named(name, "/") {
        Some(Builtin::Div)
    } else if is_named(name, "+") {
        Some(Builtin::Add)
    } else if is_named(name, "-") {
        Some(Builtin::Sub)
    } else if is_named(name, "=") {
        Some(Builtin::Equal)
    } else if is_named(name, "mod") {
        Some(Builtin::Mod)
    } else if is_named(name, "and") {
        Some(Builtin::And)
    } else if is_named(name, "or") {
        Some(Builtin::Or)
    } else if is_named(name, "invert") {
        Some(Builtin::Invert)
    } else if is_named(name, "dup") {
        Some(Builtin::Dup)
    } else if is_named(name, "swap") {
        Some(Builtin::Swap)
    } else if is_named(name, "clear") {
        Some(Builtin::Clear)
    } else if is_named(name, ".") {
        Some(Builtin::Dot)
    } else if is_named(name, ".s") {
        Some(Builtin::DotS)
    } else if is_named(name, "") {
        proof {
            reveal_strlit("");
        }
        Some(Builtin::Nop)
    } else {
        proof {
            reveal_strlit("");
            assert(name@.len() != 0) by {
                if name@.len() == 0 {
                    assert(name@ =~= ""@);
                }
            }
        }
        None
    }
}

} // verus!
