use vstd::prelude::*;

verus! {

/// A parsed program fragment, as handed to the evaluator.
#[derive(Debug, PartialEq, Eq)]
pub enum Ast {
    /// An ordered list of nodes, executed left to right.
    Sequence(Vec<Ast>),
    /// Push a number onto the stack.
    PushLiteral(i64),
    /// Display a literal string.
    PrintString(String),
    /// A built-in or user-defined word, resolved when it runs.
    Word(String),
    /// `: name body ;` -- a sequence whose first element names the word.
    Definition(Box<Ast>),
    /// `if ... else ... then`, both branches optional.
    Conditional { consequent: Option<Box<Ast>>, alternative: Option<Box<Ast>> },
    /// `do ... loop`, bounds taken from the stack.
    CountedLoop(Box<Ast>),
}

/// The mathematical value of an `Ast`.
pub enum Node {
    Sequence(Seq<Node>),
    PushLiteral(i64),
    PrintString(Seq<char>),
    Word(Seq<char>),
    Definition(Box<Node>),
    Conditional { consequent: Option<Box<Node>>, alternative: Option<Box<Node>> },
    CountedLoop(Box<Node>),
}

pub open spec fn view_items(s: Seq<Ast>) -> Seq<Node>
    decreases s,
{
    if s.len() == 0 {
        Seq::empty()
    } else {
        view_items(s.drop_last()).push(s.last().view())
    }
}

impl Ast {
    pub open spec fn view(&self) -> Node
        decreases self,
    {
        match self {
            Ast::Sequence(items) => Node::Sequence(view_items(items@)),
            Ast::PushLiteral(v) => Node::PushLiteral(*v),
            Ast::PrintString(s) => Node::PrintString(s@),
            Ast::Word(w) => Node::Word(w@),
            Ast::Definition(b) => Node::Definition(Box::new((**b).view())),
            Ast::Conditional { consequent, alternative } => Node::Conditional {
                consequent: match consequent {
                    Some(c) => Some(Box::new((**c).view())),
                    None => None,
                },
                alternative: match alternative {
                    Some(a) => Some(Box::new((**a).view())),
                    None => None,
                },
            },
            Ast::CountedLoop(b) => Node::CountedLoop(Box::new((**b).view())),
        }
    }
}


pub proof fn lemma_view_items(s: Seq<Ast>)
    ensures
        view_items(s).len() == s.len(),
        forall|i: int| 0 <= i < s.len() ==> #[trigger] view_items(s)[i] == s[i].view(),
    decreases s.len(),
{
    if s.len() > 0 {
        lemma_view_items(s.drop_last());
    }
}

/// Builds a fresh copy of a node, equal to it in value.
pub fn copy_ast(a: &Ast) -> (r: Ast)
    ensures
        r.view() == a.view(),
    decreases a,
{
    match a {
        Ast::Sequence(items) => {
            let copied = copy_items(items, 0);
            proof {
                lemma_view_items(items@);
                lemma_view_items(copied@);
                assert(view_items(copied@) =~= view_items(items@));
            }
            Ast::Sequence(copied)
        },
        Ast::PushLiteral(v) => Ast::PushLiteral(*v),
        Ast::PrintString(s) => Ast::PrintString(s.clone()),
        Ast::Word(w) => Ast::Word(w.clone()),
        Ast::Definition(b) => Ast::Definition(Box::new(copy_ast(b))),
        Ast::Conditional { consequent, alternative } => {
            let c = match consequent {
                Some(c) => Some(Box::new(copy_ast(c))),
                None => None,
            };
            let alt = match alternative {
                Some(x) => Some(Box::new(copy_ast(x))),
                None => None,
            };
            Ast::Conditional { consequent: c, alternative: alt }
        },
        Ast::CountedLoop(b) => Ast::CountedLoop(Box::new(copy_ast(b))),
    }
}

/// Copies the nodes of `items` from index `from` on.
pub fn copy_items(items: &Vec<Ast>, from: usize) -> (r: Vec<Ast>)
    requires
        from <= items.len(),
    ensures
        r.len() == items.len() - from,
        forall|i: int| 0 <= i < r.len() ==> (#[trigger] r@[i]).view() == items@[from + i].view(),
    decreases items,
{
    let mut r: Vec<Ast> = Vec::new();
    let mut k: usize = from;
    while k < items.len()
        invariant
            from <= k <= items.len(),
            r.len() == k - from,
            forall|i: int| 0 <= i < r.len() ==> (#[trigger] r@[i]).view() == items@[from + i].view(),
        decreases items.len() - k,
    {
        proof {
            vstd::std_specs::vec::axiom_vec_index_decreases(*items, k as int);
        }
        let c = copy_ast(&items[k]);
        r.push(c);
        k = k + 1;
    }
    r
}

} // verus!
