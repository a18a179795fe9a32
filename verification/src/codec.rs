//! Writing expression trees as tokens and reading them back.
//!
//! An expression is written head first: a head with its arguments is the
//! token that announces how many arguments follow, then the head, then the
//! arguments from left to right; every other expression is one token. A link
//! hands tokens to its reader in the order in which they were written, so
//! what holds of a run of tokens holds of what comes out of a link.

use vstd::prelude::*;
use crate::error::{Error, ErrorModel, Violation, ViolationModel};
use crate::expr::{
    absolute_symbol,
    expr_models,
    is_nan,
    lemma_normal_model,
    real_is_nan,
    symbol_is_absolute,
    well_formed,
    ExprModel,
    Expression,
};
use crate::laws::{lemma_decoded_was_encoded, lemma_step_sound};
use crate::token::{token_models, Token, TokenModel, TAG_ERROR};

verus! {

/// The tokens that stand for an expression.
pub open spec fn encoding(e: ExprModel) -> Seq<TokenModel>
    decreases e, 0nat,
{
    match e {
        ExprModel::Normal(head, contents) => seq![TokenModel::Function(contents.len())] + encoding(
            *head,
        ) + encoding_seq(contents, contents.len()),
        ExprModel::Symbol(name) => seq![TokenModel::Symbol(name)],
        ExprModel::String(text) => seq![TokenModel::String(text)],
        ExprModel::Integer(value) => seq![TokenModel::Integer(value)],
        ExprModel::Real(bits) => seq![TokenModel::Real(bits)],
    }
}

/// The tokens that stand for the first `n` of a run of expressions, one
/// expression after the other.
pub open spec fn encoding_seq(items: Seq<ExprModel>, n: nat) -> Seq<TokenModel>
    decreases items, n,
{
    if n == 0 || n > items.len() {
        Seq::empty()
    } else {
        encoding_seq(items, (n - 1) as nat) + encoding(items[n - 1])
    }
}

/// The tokens that stand for a run of expressions, one expression after the
/// other.
pub open spec fn encoding_all(items: Seq<ExprModel>) -> Seq<TokenModel> {
    encoding_seq(items, items.len())
}

/// The values of a run of tokens that was extended by one token.
proof fn lemma_token_models_push(tokens: Seq<Token>, token: Token)
    ensures
        token_models(tokens.push(token)) == token_models(tokens).push(token@),
{
    assert(token_models(tokens.push(token)) =~= token_models(tokens).push(token@));
}

impl Expression {
    /// Appends the tokens that stand for the expression. Nothing is checked
    /// on the way: a symbol goes out under the name it has, a real with the
    /// bits it has.
    pub fn encode_into(&self, out: &mut Vec<Token>)
        ensures
            token_models(final(out)@) == token_models(old(out)@) + encoding(self@),
        decreases self,
    {
        let ghost before = token_models(out@);
        match self {
            Expression::Normal { head, contents } => {
                proof {
                    lemma_normal_model(*head, *contents);
                    lemma_token_models_push(out@, Token::Function(contents.len()));
                }
                out.push(Token::Function(contents.len()));
                (**head).encode_into(out);
                let ghost models = expr_models(contents@);
                let ghost start = token_models(out@);
                let mut i: usize = 0;
                while i < contents.len()
                    invariant
                        i <= contents.len(),
                        models == expr_models(contents@),
                        *self is Normal,
                        self->contents == *contents,
                        token_models(out@) == start + encoding_seq(models, i as nat),
                    decreases contents.len() - i,
                {
                    assert(decreases_to!(*self => self->contents));
                    assert(decreases_to!(*contents => contents[i as int]));
                    contents[i].encode_into(out);
                    proof {
                        assert(models[i as int] == contents[i as int]@);
                        assert(encoding_seq(models, (i + 1) as nat) == encoding_seq(
                            models,
                            i as nat,
                        ) + encoding(models[i as int]));
                        assert(token_models(out@) =~= start + encoding_seq(
                            models,
                            (i + 1) as nat,
                        ));
                    }
                    i += 1;
                }
                proof {
                    assert(token_models(out@) =~= before + encoding(self@));
                }
            },
            Expression::Symbol(name) => {
                proof {
                    lemma_token_models_push(out@, Token::Symbol(*name));
                }
                out.push(Token::Symbol(name.clone()));
                proof {
                    assert(token_models(out@) =~= before + encoding(self@));
                }
            },
            Expression::String(text) => {
                proof {
                    lemma_token_models_push(out@, Token::String(*text));
                }
                out.push(Token::String(text.clone()));
                proof {
                    assert(token_models(out@) =~= before + encoding(self@));
                }
            },
            Expression::Integer(value) => {
                proof {
                    lemma_token_models_push(out@, Token::Integer(*value));
                }
                out.push(Token::Integer(*value));
                proof {
                    assert(token_models(out@) =~= before + encoding(self@));
                }
            },
            Expression::Real(bits) => {
                proof {
                    lemma_token_models_push(out@, Token::Real(*bits));
                }
                out.push(Token::Real(*bits));
                proof {
                    assert(token_models(out@) =~= before + encoding(self@));
                }
            },
        }
    }

    /// The tokens that stand for the expression, in the order in which they
    /// go over the wire.
    pub fn encode(&self) -> (tokens: Vec<Token>)
        ensures
            token_models(tokens@) == encoding(self@),
    {
        let mut tokens: Vec<Token> = Vec::new();
        self.encode_into(&mut tokens);
        proof {
            assert(token_models(tokens@) =~= encoding(self@));
        }
        tokens
    }
}

/// A head that is being read: how many arguments were announced, and the
/// expressions that came in for it so far, the head itself first.
pub struct FrameModel {
    pub arity: nat,
    pub items: Seq<ExprModel>,
}

/// Where a reader stands after a token.
pub enum StepModel {
    /// Inside an expression, with these heads open, the outermost first.
    More(Seq<FrameModel>),
    /// At the end of an expression.
    Done(ExprModel),
    /// At a token that no expression can hold.
    Fail(ErrorModel),
}

/// The head with its arguments that a full frame amounts to.
pub open spec fn assemble(items: Seq<ExprModel>) -> ExprModel {
    ExprModel::Normal(Box::new(items[0]), items.subrange(1, items.len() as int))
}

/// Hands a finished expression to the innermost open head. A head that
/// thereby has all it was announced with is finished in turn and handed on;
/// with no head open the expression is the result.
pub open spec fn deliver(frames: Seq<FrameModel>, e: ExprModel) -> StepModel
    decreases frames.len(),
{
    if frames.len() == 0 {
        StepModel::Done(e)
    } else {
        let top = frames.last();
        let items = top.items.push(e);
        if items.len() == top.arity + 1 {
            deliver(frames.drop_last(), assemble(items))
        } else {
            StepModel::More(frames.drop_last().push(FrameModel { arity: top.arity, items }))
        }
    }
}

/// What one token does to a reader with these heads open.
pub open spec fn step(frames: Seq<FrameModel>, token: TokenModel) -> StepModel {
    match token {
        TokenModel::Integer(value) => deliver(frames, ExprModel::Integer(value)),
        TokenModel::Real(bits) => if is_nan(bits) {
            StepModel::Fail(ErrorModel::Domain(ViolationModel::NotANumber))
        } else {
            deliver(frames, ExprModel::Real(bits))
        },
        TokenModel::String(text) => deliver(frames, ExprModel::String(text)),
        TokenModel::Symbol(name) => if absolute_symbol(name) {
            deliver(frames, ExprModel::Symbol(name))
        } else {
            StepModel::Fail(ErrorModel::Domain(ViolationModel::NoContext(name)))
        },
        TokenModel::Function(arity) => StepModel::More(
            frames.push(FrameModel { arity, items: Seq::empty() }),
        ),
        TokenModel::Unrecognized(tag) => StepModel::Fail(ErrorModel::Protocol(tag)),
    }
}

/// Whether an open head holds well-formed expressions only, and fewer than
/// would finish it.
pub open spec fn frame_sound(frame: FrameModel) -> bool {
    &&& frame.items.len() <= frame.arity
    &&& forall|j: int| 0 <= j < frame.items.len() ==> well_formed(#[trigger] frame.items[j])
}

/// Whether every open head is sound.
pub open spec fn sound(frames: Seq<FrameModel>) -> bool {
    forall|i: int| 0 <= i < frames.len() ==> frame_sound(#[trigger] frames[i])
}

/// The tokens that a reader has taken in for the heads that it holds open.
pub open spec fn trail(frames: Seq<FrameModel>) -> Seq<TokenModel>
    decreases frames.len(),
{
    if frames.len() == 0 {
        Seq::empty()
    } else {
        trail(frames.drop_last()) + seq![TokenModel::Function(frames.last().arity)] + encoding_all(
            frames.last().items,
        )
    }
}

/// A head that is being read.
struct Frame {
    arity: usize,
    items: Vec<Expression>,
}

impl View for Frame {
    type V = FrameModel;

    closed spec fn view(&self) -> FrameModel {
        FrameModel { arity: self.arity as nat, items: expr_models(self.items@) }
    }
}

/// What a token did to a [`Decoder`].
#[derive(Debug, PartialEq, Eq)]
pub enum Step {
    /// The expression goes on: the next token is wanted.
    More,
    /// The token ended this expression.
    Done(Expression),
    /// The token cannot be part of an expression. What was read of the
    /// expression is dropped.
    Fail(Error),
}

/// Reads expressions from tokens that are handed in one at a time.
pub struct Decoder {
    frames: Vec<Frame>,
}

/// The values of a stack of frames, the outermost first.
closed spec fn frame_models(frames: Seq<Frame>) -> Seq<FrameModel> {
    Seq::new(frames.len(), |i: int| frames[i]@)
}

impl View for Decoder {
    type V = Seq<FrameModel>;

    closed spec fn view(&self) -> Seq<FrameModel> {
        frame_models(self.frames@)
    }
}

/// Hands a finished expression to the innermost of a stack of open heads.
fn deliver_to(frames: &mut Vec<Frame>, e: Expression) -> (outcome: Step)
    ensures
        match deliver(frame_models(old(frames)@), e@) {
            StepModel::More(open) => outcome is More && frame_models(final(frames)@) == open,
            StepModel::Done(result) => outcome is Done && outcome->Done_0@ == result
                && final(frames)@.len() == 0,
            StepModel::Fail(_) => false,
        },
{
    let ghost goal = deliver(frame_models(old(frames)@), e@);
    let mut current = e;
    loop
        invariant
            goal == deliver(frame_models(old(frames)@), e@),
            deliver(frame_models(frames@), current@) == goal,
        decreases frames.len(),
    {
        if frames.len() == 0 {
            return Step::Done(current);
        }
        let ghost before = frame_models(frames@);
        let ghost value = current@;
        let mut top = frames.pop().unwrap();
        assert(frame_models(frames@) =~= before.drop_last());
        assert(top@ == before.last());
        let ghost held = expr_models(top.items@);
        top.items.push(current);
        assert(expr_models(top.items@) =~= held.push(value));
        if top.items.len() - 1 == top.arity {
            let mut items = top.items;
            let ghost full = expr_models(items@);
            let head = items.remove(0);
            assert(expr_models(items@) =~= full.subrange(1, full.len() as int));
            assert(head@ == full[0]);
            current = Expression::normal(head, items);
            assert(current@ == assemble(full));
        } else {
            let ghost kept = top@;
            frames.push(top);
            assert(frame_models(frames@) =~= before.drop_last().push(kept));
            return Step::More;
        }
    }
}

impl Decoder {
    /// Every open head holds well-formed expressions, and fewer than would
    /// finish it.
    #[verifier::type_invariant]
    closed spec fn holds_sound_frames(self) -> bool {
        sound(self@)
    }

    /// A reader that stands before an expression.
    pub fn new() -> (decoder: Decoder)
        ensures
            decoder@ == Seq::<FrameModel>::empty(),
    {
        let frames: Vec<Frame> = Vec::new();
        assert(frame_models(frames@) =~= Seq::<FrameModel>::empty());
        Decoder { frames }
    }

    /// The number of heads that are open.
    pub fn depth(&self) -> (depth: usize)
        ensures
            depth == self@.len(),
    {
        self.frames.len()
    }

    /// The tokens that were taken in for the expression that is being read.
    pub open spec fn trail(self) -> Seq<TokenModel> {
        trail(self@)
    }

    /// Takes the next token off the wire.
    ///
    /// A token that completes the expression hands the expression out and
    /// leaves the reader before the next one: the expression is well formed,
    /// and what stands for it is what was taken in for it, this token last. A
    /// real that is not a number, a symbol that is not written with its
    /// context and a tag that starts no token each end the reading with their
    /// error; what was read of the expression until then is dropped. Any
    /// other token is added to what was taken in.
    pub fn feed(&mut self, token: Token) -> (outcome: Step)
        ensures
            match step(old(self)@, token@) {
                StepModel::More(frames) => outcome is More && final(self)@ == frames,
                StepModel::Done(result) => outcome is Done && outcome->Done_0@ == result
                    && final(self)@.len() == 0,
                StepModel::Fail(error) => outcome is Fail && outcome->Fail_0@ == error
                    && final(self)@.len() == 0,
            },
            outcome is More ==> final(self).trail() == old(self).trail().push(token@),
            outcome matches Step::Done(e) ==> well_formed(e@)
                && encoding(e@) == old(self).trail().push(token@),
            token@ matches TokenModel::Real(bits) ==> (is_nan(bits) ==> outcome is Fail
                && outcome->Fail_0@ == ErrorModel::Domain(ViolationModel::NotANumber)
                && final(self)@.len() == 0),
            token@ matches TokenModel::Symbol(name) ==> (!name.contains('`') ==> outcome is Fail
                && outcome->Fail_0@ == ErrorModel::Domain(ViolationModel::NoContext(name))
                && final(self)@.len() == 0),
            token@ matches TokenModel::Unrecognized(tag) ==> outcome is Fail && outcome->Fail_0@
                == ErrorModel::Protocol(tag) && final(self)@.len() == 0,
    {
        proof {
            use_type_invariant(&*self);
            lemma_step_sound(self@, token@);
        }
        let mut frames: Vec<Frame> = Vec::new();
        assert(frame_models(frames@) =~= Seq::<FrameModel>::empty());
        core::mem::swap(&mut self.frames, &mut frames);
        let outcome = match token {
            Token::Integer(value) => deliver_to(&mut frames, Expression::Integer(value)),
            Token::Real(bits) => {
                if real_is_nan(bits) {
                    Step::Fail(Error::Domain { reason: Violation::NotANumber })
                } else {
                    deliver_to(&mut frames, Expression::Real(bits))
                }
            },
            Token::String(text) => deliver_to(&mut frames, Expression::String(text)),
            Token::Symbol(name) => {
                if symbol_is_absolute(name.as_str()) {
                    deliver_to(&mut frames, Expression::Symbol(name))
                } else {
                    Step::Fail(Error::Domain { reason: Violation::NoContext { name } })
                }
            },
            Token::Function(arity) => {
                let ghost before = frame_models(frames@);
                let frame = Frame { arity, items: Vec::new() };
                assert(frame@.items =~= Seq::<ExprModel>::empty());
                frames.push(frame);
                assert(frame_models(frames@) =~= before.push(
                    FrameModel { arity: arity as nat, items: Seq::empty() },
                ));
                Step::More
            },
            Token::Unrecognized(tag) => Step::Fail(Error::Protocol { tag }),
        };
        match outcome {
            Step::More => {
                self.frames = frames;
            },
            _ => {},
        }
        outcome
    }

    /// Drops what was read of an unfinished expression.
    pub fn reset(&mut self)
        ensures
            final(self)@.len() == 0,
    {
        let frames: Vec<Frame> = Vec::new();
        assert(frame_models(frames@) =~= Seq::<FrameModel>::empty());
        self.frames = frames;
    }
}

/// What reading one expression from a run of tokens gives.
pub enum Decoded {
    /// The expression, and the place of the token after it.
    Complete(ExprModel, int),
    /// The error that ended the reading.
    Failed(ErrorModel),
}

/// What a reader with these heads open makes of the tokens from place `at`
/// on. Where the tokens end inside the expression, the read fails as a read
/// from an empty link does, with the mark of a failed read.
pub open spec fn run(frames: Seq<FrameModel>, tokens: Seq<TokenModel>, at: int) -> Decoded
    decreases tokens.len() - at,
{
    if at < 0 || at >= tokens.len() {
        Decoded::Failed(ErrorModel::Protocol(TAG_ERROR))
    } else {
        match step(frames, tokens[at]) {
            StepModel::More(open) => run(open, tokens, at + 1),
            StepModel::Done(e) => Decoded::Complete(e, at + 1),
            StepModel::Fail(error) => Decoded::Failed(error),
        }
    }
}

/// What reading one expression from place `at` of a run of tokens gives.
pub open spec fn decoding(tokens: Seq<TokenModel>, at: int) -> Decoded {
    run(Seq::empty(), tokens, at)
}

/// Reads one expression from a run of tokens, starting at place `start`.
/// Gives the expression and the place of the token after it, or the error
/// that ended the reading. An expression that comes out is well formed, and
/// the tokens that were read for it are the tokens that stand for it.
pub fn decode(tokens: &Vec<Token>, start: usize) -> (result: Result<(Expression, usize), Error>)
    ensures
        match decoding(token_models(tokens@), start as int) {
            Decoded::Complete(e, next) => result is Ok && result->Ok_0.0@ == e && result->Ok_0.1
                == next,
            Decoded::Failed(error) => result is Err && result->Err_0@ == error,
        },
        result matches Ok(read) ==> {
            &&& start < read.1 <= tokens.len()
            &&& well_formed(read.0@)
            &&& token_models(tokens@).subrange(start as int, read.1 as int) == encoding(read.0@)
        },
{
    let ghost models = token_models(tokens@);
    let mut decoder = Decoder::new();
    let mut at: usize = start;
    while at < tokens.len()
        invariant
            models == token_models(tokens@),
            run(decoder@, models, at as int) == decoding(models, start as int),
        decreases tokens.len() - at,
    {
        let token = tokens[at].duplicate();
        assert(token@ == models[at as int]);
        match decoder.feed(token) {
            Step::More => {
                at += 1;
            },
            Step::Done(e) => {
                proof {
                    lemma_decoded_was_encoded(models, start as int);
                }
                return Ok((e, at + 1));
            },
            Step::Fail(error) => {
                return Err(error);
            },
        }
    }
    Err(Error::Protocol { tag: TAG_ERROR })
}

} // verus!
