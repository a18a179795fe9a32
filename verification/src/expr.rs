//! Expression trees and their mathematical model.

use vstd::prelude::*;
use vstd::string::*;

verus! {

/// What holds of the text that stands for a symbol: `wolfram_expr` accepts it
/// as an absolute symbol, a name written together with its context.
pub uninterp spec fn absolute_symbol(name: Seq<char>) -> bool;

/// Calls `wolfram_expr::Symbol::try_new` and reports whether it accepted the
/// text. The answer depends on the text alone. The parser splits the text at
/// every context mark and accepts it only when that gives two or more parts,
/// so an accepted text holds at least one context mark.
#[verifier::external_body]
pub(crate) fn symbol_is_absolute(name: &str) -> (accepted: bool)
    ensures
        accepted == absolute_symbol(name@),
        accepted ==> name@.contains('`'),
{
    wolfram_expr::Symbol::try_new(name).is_some()
}

/// A tree-structured symbolic expression.
#[derive(Debug, PartialEq, Eq)]
pub enum Expression {
    /// A head applied to an ordered sequence of arguments.
    Normal { head: Box<Expression>, contents: Vec<Expression> },
    /// A symbol, written with its context.
    Symbol(String),
    /// A piece of text.
    String(String),
    /// A 64-bit signed integer.
    Integer(i64),
    /// A real number, held as the bit pattern of an IEEE 754 double.
    Real(u64),
}

/// The mathematical value of an [`Expression`].
pub enum ExprModel {
    Normal(Box<ExprModel>, Seq<ExprModel>),
    Symbol(Seq<char>),
    String(Seq<char>),
    Integer(i64),
    Real(u64),
}

impl Expression {
    /// The mathematical value of the tree.
    pub open spec fn model(self) -> ExprModel
        decreases self,
    {
        match self {
            Expression::Normal { head, contents } => ExprModel::Normal(
                Box::new((*head).model()),
                Seq::new(
                    contents.len() as nat,
                    |i: int|
                        if 0 <= i < contents.len() {
                            contents[i].model()
                        } else {
                            ExprModel::Integer(0)
                        },
                ),
            ),
            Expression::Symbol(name) => ExprModel::Symbol(name@),
            Expression::String(text) => ExprModel::String(text@),
            Expression::Integer(value) => ExprModel::Integer(value),
            Expression::Real(bits) => ExprModel::Real(bits),
        }
    }
}

impl View for Expression {
    type V = ExprModel;

    open spec fn view(&self) -> ExprModel {
        self.model()
    }
}

/// Whether a bit pattern of an IEEE 754 double is a NaN: every exponent bit
/// set and some fraction bit set.
pub open spec fn is_nan(bits: u64) -> bool {
    (bits & 0x7ff0_0000_0000_0000) == 0x7ff0_0000_0000_0000 && (bits & 0x000f_ffff_ffff_ffff) != 0
}

/// Whether an expression is one that a link can hand out: every symbol in it
/// is written with its context and no real in it is a NaN.
pub open spec fn well_formed(e: ExprModel) -> bool
    decreases e,
{
    match e {
        ExprModel::Normal(head, contents) => well_formed(*head) && forall|i: int|
            0 <= i < contents.len() ==> well_formed(#[trigger] contents[i]),
        ExprModel::Symbol(name) => absolute_symbol(name),
        ExprModel::String(_) => true,
        ExprModel::Integer(_) => true,
        ExprModel::Real(bits) => !is_nan(bits),
    }
}

/// The values of a run of expressions, in order.
pub open spec fn expr_models(items: Seq<Expression>) -> Seq<ExprModel> {
    Seq::new(items.len(), |i: int| items[i]@)
}

/// The value of a head with its arguments is made of the value of the head
/// and the values of the arguments.
pub proof fn lemma_normal_model(head: Box<Expression>, contents: Vec<Expression>)
    ensures
        (Expression::Normal { head, contents })@ == ExprModel::Normal(
            Box::new((*head)@),
            expr_models(contents@),
        ),
{
    let e = Expression::Normal { head, contents };
    let m = e.model();
    assert(m is Normal);
    assert(m->Normal_1 =~= expr_models(contents@));
    assert(*m->Normal_0 == (*head).model());
}

/// Whether a bit pattern of an IEEE 754 double is a NaN.
pub fn real_is_nan(bits: u64) -> (nan: bool)
    ensures
        nan == is_nan(bits),
{
    (bits & 0x7ff0_0000_0000_0000) == 0x7ff0_0000_0000_0000 && (bits & 0x000f_ffff_ffff_ffff) != 0
}

impl Expression {
    /// A head applied to its arguments.
    pub fn normal(head: Expression, contents: Vec<Expression>) -> (e: Expression)
        ensures
            e@ == ExprModel::Normal(Box::new(head@), expr_models(contents@)),
    {
        let head = Box::new(head);
        proof {
            lemma_normal_model(head, contents);
        }
        Expression::Normal { head, contents }
    }

    /// The symbol of that name, if the name is written with its context.
    pub fn symbol(name: &str) -> (e: Option<Expression>)
        ensures
            match e {
                Some(symbol) => absolute_symbol(name@) && symbol@ == ExprModel::Symbol(name@),
                None => !absolute_symbol(name@),
            },
    {
        if symbol_is_absolute(name) {
            Some(Expression::Symbol(String::from_str(name)))
        } else {
            None
        }
    }

    /// A piece of text.
    pub fn string(text: &str) -> (e: Expression)
        ensures
            e@ == ExprModel::String(text@),
    {
        Expression::String(String::from_str(text))
    }

    /// An integer.
    pub fn integer(value: i64) -> (e: Expression)
        ensures
            e@ == ExprModel::Integer(value),
    {
        Expression::Integer(value)
    }

    /// The real with that bit pattern, unless the pattern is a NaN.
    pub fn real_from_bits(bits: u64) -> (e: Option<Expression>)
        ensures
            match e {
                Some(number) => !is_nan(bits) && number@ == ExprModel::Real(bits),
                None => is_nan(bits),
            },
    {
        if real_is_nan(bits) {
            None
        } else {
            Some(Expression::Real(bits))
        }
    }

    /// A copy of the tree.
    pub fn duplicate(&self) -> (copy: Expression)
        ensures
            copy@ == self@,
        decreases self,
    {
        match self {
            Expression::Normal { head, contents } => {
                let head_copy = Box::new((**head).duplicate());
                let mut items: Vec<Expression> = Vec::new();
                let mut i: usize = 0;
                while i < contents.len()
                    invariant
                        i <= contents.len(),
                        items.len() == i,
                        forall|j: int| 0 <= j < i ==> (#[trigger] items[j])@ == contents[j]@,
                        *self == (Expression::Normal { head: *head, contents: *contents }),
                    decreases contents.len() - i,
                {
                    assert(decreases_to!(*self => self->contents));
                    assert(decreases_to!(*contents => contents[i as int]));
                    let item = contents[i].duplicate();
                    items.push(item);
                    i += 1;
                }
                proof {
                    lemma_normal_model(*head, *contents);
                    lemma_normal_model(head_copy, items);
                    assert(expr_models(items@) =~= expr_models(contents@));
                }
                Expression::Normal { head: head_copy, contents: items }
            },
            Expression::Symbol(name) => Expression::Symbol(name.clone()),
            Expression::String(text) => Expression::String(text.clone()),
            Expression::Integer(value) => Expression::Integer(*value),
            Expression::Real(bits) => Expression::Real(*bits),
        }
    }

    /// Whether the tree is one that a link can hand out.
    pub fn is_well_formed(&self) -> (valid: bool)
        ensures
            valid == well_formed(self@),
        decreases self,
    {
        match self {
            Expression::Normal { head, contents } => {
                proof {
                    lemma_normal_model(*head, *contents);
                }
                if !(**head).is_well_formed() {
                    return false;
                }
                let mut i: usize = 0;
                while i < contents.len()
                    invariant
                        i <= contents.len(),
                        forall|j: int|
                            0 <= j < i ==> well_formed(#[trigger] expr_models(contents@)[j]),
                        *self == (Expression::Normal { head: *head, contents: *contents }),
                        self@ == ExprModel::Normal(Box::new((**head)@), expr_models(contents@)),
                        well_formed((**head)@),
                    decreases contents.len() - i,
                {
                    assert(decreases_to!(*contents => contents[i as int]));
                    if !contents[i].is_well_formed() {
                        assert(!well_formed(self@->Normal_1[i as int]));
                        return false;
                    }
                    i += 1;
                }
                true
            },
            Expression::Symbol(name) => symbol_is_absolute(name.as_str()),
            Expression::String(_) => true,
            Expression::Integer(_) => true,
            Expression::Real(bits) => !real_is_nan(*bits),
        }
    }
}

impl Clone for Expression {
    fn clone(&self) -> (copy: Expression)
        ensures
            copy@ == self@,
    {
        self.duplicate()
    }
}

} // verus!
