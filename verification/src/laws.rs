//! What holds of writing and reading: what was written is read back, in
//! the order in which it was written, and nothing is read that was not
//! written.

use vstd::prelude::*;
use crate::codec::{
    assemble,
    decoding,
    deliver,
    encoding,
    encoding_all,
    encoding_seq,
    frame_sound,
    run,
    sound,
    step,
    trail,
    Decoded,
    FrameModel,
    StepModel,
};
use crate::expr::{absolute_symbol, is_nan, well_formed, ExprModel};
use crate::token::TokenModel;

verus! {

/// Whether the tokens from place `at` on start with the given run.
pub open spec fn holds_at(tokens: Seq<TokenModel>, at: int, part: Seq<TokenModel>) -> bool {
    &&& 0 <= at
    &&& at + part.len() <= tokens.len()
    &&& forall|j: int| 0 <= j < part.len() ==> tokens[at + j] == #[trigger] part[j]
}

/// Tokens that start with two runs in a row start with the first, and go
/// on with the second.
proof fn lemma_holds_split(
    tokens: Seq<TokenModel>,
    at: int,
    first: Seq<TokenModel>,
    second: Seq<TokenModel>,
)
    requires
        holds_at(tokens, at, first + second),
    ensures
        holds_at(tokens, at, first),
        holds_at(tokens, at + first.len(), second),
{
    let whole = first + second;
    assert forall|j: int| 0 <= j < first.len() implies tokens[at + j] == #[trigger] first[j] by {
        assert(whole[j] == first[j]);
    }
    assert forall|j: int| 0 <= j < second.len() implies tokens[at + first.len() + j]
        == #[trigger] second[j] by {
        assert(whole[first.len() + j] == second[j]);
    }
}

/// Tokens that start with the tokens of a run of expressions start with
/// the tokens of each shorter run of them.
proof fn lemma_holds_prefix(
    tokens: Seq<TokenModel>,
    at: int,
    items: Seq<ExprModel>,
    k: nat,
    n: nat,
)
    requires
        k <= n <= items.len(),
        holds_at(tokens, at, encoding_seq(items, n)),
    ensures
        holds_at(tokens, at, encoding_seq(items, k)),
    decreases n - k,
{
    if k < n {
        lemma_holds_split(tokens, at, encoding_seq(items, (n - 1) as nat), encoding(items[n - 1]));
        lemma_holds_prefix(tokens, at, items, k, (n - 1) as nat);
    }
}

/// The result of handing `e` to a reader, seen from the place `end` that
/// follows the tokens of `e`.
pub open spec fn after(
    frames: Seq<FrameModel>,
    e: ExprModel,
    tokens: Seq<TokenModel>,
    end: int,
) -> Decoded {
    match deliver(frames, e) {
        StepModel::More(open) => run(open, tokens, end),
        StepModel::Done(result) => Decoded::Complete(result, end),
        StepModel::Fail(error) => Decoded::Failed(error),
    }
}

/// A reader that meets the tokens of a well-formed expression reads them
/// all and then stands where it would stand had the expression been handed
/// to it whole.
pub proof fn lemma_run_encoding(
    frames: Seq<FrameModel>,
    e: ExprModel,
    tokens: Seq<TokenModel>,
    at: int,
)
    requires
        well_formed(e),
        holds_at(tokens, at, encoding(e)),
    ensures
        run(frames, tokens, at) == after(frames, e, tokens, at + encoding(e).len()),
    decreases e, 0nat,
{
    match e {
        ExprModel::Normal(head, contents) => {
            let n = contents.len();
            let opening = seq![TokenModel::Function(n)];
            let inner = encoding(*head);
            let rest = encoding_seq(contents, n);
            assert(encoding(e) == opening + inner + rest);
            lemma_holds_split(tokens, at, opening + inner, rest);
            lemma_holds_split(tokens, at, opening, inner);
            assert(tokens[at + 0] == opening[0]);
            let fresh = FrameModel { arity: n, items: Seq::empty() };
            let opened = frames.push(fresh);
            assert(step(frames, tokens[at]) == StepModel::More(opened));
            assert(run(frames, tokens, at) == run(opened, tokens, at + 1));
            lemma_run_encoding(opened, *head, tokens, at + 1);
            let base = at + 1 + inner.len();
            assert(opened.last() == fresh);
            assert(opened.drop_last() =~= frames);
            let first = Seq::<ExprModel>::empty().push(*head);
            assert(fresh.items.push(*head) =~= first);
            if n == 0 {
                assert(first.subrange(1, 1) =~= contents);
                assert(assemble(first) == e);
                assert(rest =~= Seq::<TokenModel>::empty());
                assert(deliver(opened, *head) == deliver(frames, e));
            } else {
                let started = frames.push(FrameModel { arity: n, items: first });
                assert(deliver(opened, *head) == StepModel::More(started));
                assert(first =~= seq![*head] + contents.take(0));
                lemma_run_arguments(frames, *head, contents, 0, tokens, base);
            }
        },
        ExprModel::Symbol(name) => {
            assert(tokens[at + 0] == encoding(e)[0]);
        },
        ExprModel::String(text) => {
            assert(tokens[at + 0] == encoding(e)[0]);
        },
        ExprModel::Integer(value) => {
            assert(tokens[at + 0] == encoding(e)[0]);
        },
        ExprModel::Real(bits) => {
            assert(tokens[at + 0] == encoding(e)[0]);
        },
    }
}

/// A reader that holds a head with its first `k` arguments and meets the
/// tokens of the remaining ones reads them all and then stands where it
/// would stand had the head with all its arguments been handed to it whole.
proof fn lemma_run_arguments(
    frames: Seq<FrameModel>,
    head: ExprModel,
    contents: Seq<ExprModel>,
    k: nat,
    tokens: Seq<TokenModel>,
    base: int,
)
    requires
        k < contents.len(),
        forall|i: int| 0 <= i < contents.len() ==> well_formed(#[trigger] contents[i]),
        holds_at(tokens, base, encoding_seq(contents, contents.len())),
    ensures
        run(
            frames.push(
                FrameModel { arity: contents.len(), items: seq![head] + contents.take(k as int) },
            ),
            tokens,
            base + encoding_seq(contents, k).len(),
        ) == after(
            frames,
            ExprModel::Normal(Box::new(head), contents),
            tokens,
            base + encoding_seq(contents, contents.len()).len(),
        ),
    decreases contents, contents.len() - k,
{
    let n = contents.len();
    let held = seq![head] + contents.take(k as int);
    let current = frames.push(FrameModel { arity: n, items: held });
    let at = base + encoding_seq(contents, k).len();
    let item = contents[k as int];
    lemma_holds_prefix(tokens, base, contents, k + 1, n);
    assert(encoding_seq(contents, k + 1) == encoding_seq(contents, k) + encoding(item));
    lemma_holds_split(tokens, base, encoding_seq(contents, k), encoding(item));
    lemma_run_encoding(current, item, tokens, at);
    let next = held.push(item);
    assert(next =~= seq![head] + contents.take(k + 1 as int));
    assert(current.last().items.push(item) == next);
    assert(current.drop_last() =~= frames);
    if k + 1 == n {
        assert(contents.take(n as int) =~= contents);
        assert(next.subrange(1, next.len() as int) =~= contents);
        assert(next[0] == head);
        assert(assemble(next) == ExprModel::Normal(Box::new(head), contents));
        assert(deliver(current, item) == deliver(
            frames,
            ExprModel::Normal(Box::new(head), contents),
        ));
    } else {
        assert(deliver(current, item) == StepModel::More(
            frames.push(FrameModel { arity: n, items: next }),
        ));
        lemma_run_arguments(frames, head, contents, k + 1, tokens, base);
    }
}

/// Reading the tokens that stand for a well-formed expression gives that
/// expression back and stops right after them, whatever tokens follow.
pub proof fn lemma_round_trip(e: ExprModel, tokens: Seq<TokenModel>, at: int)
    requires
        well_formed(e),
        holds_at(tokens, at, encoding(e)),
    ensures
        decoding(tokens, at) == Decoded::Complete(e, at + encoding(e).len()),
{
    lemma_run_encoding(Seq::empty(), e, tokens, at);
}

/// Reading what was written gives it back: the tokens of a well-formed
/// expression, read from their start, give that expression and leave no
/// token over.
pub proof fn lemma_decode_encode(e: ExprModel)
    requires
        well_formed(e),
    ensures
        decoding(encoding(e), 0) == Decoded::Complete(e, encoding(e).len() as int),
{
    lemma_round_trip(e, encoding(e), 0);
}

/// The place at which the expression of index `i` starts among the tokens
/// of a run of expressions.
pub open spec fn place(items: Seq<ExprModel>, i: nat) -> int {
    encoding_seq(items, i).len() as int
}

/// First in, first out: from the tokens of a run of well-formed
/// expressions, written one after the other, the reading that starts where
/// the one before it stopped gives the next expression of the run, none
/// lost and none out of order.
pub proof fn lemma_first_in_first_out(items: Seq<ExprModel>, i: nat)
    requires
        i < items.len(),
        forall|j: int| 0 <= j < items.len() ==> well_formed(#[trigger] items[j]),
    ensures
        decoding(encoding_all(items), place(items, i)) == Decoded::Complete(
            items[i as int],
            place(items, i + 1),
        ),
        place(items, 0) == 0,
        place(items, items.len()) == encoding_all(items).len(),
{
    let tokens = encoding_all(items);
    assert(holds_at(tokens, 0, encoding_seq(items, items.len())));
    lemma_holds_prefix(tokens, 0, items, i + 1, items.len());
    assert(encoding_seq(items, i + 1) == encoding_seq(items, i) + encoding(items[i as int]));
    lemma_holds_split(tokens, 0, encoding_seq(items, i), encoding(items[i as int]));
    lemma_round_trip(items[i as int], tokens, place(items, i));
}

/// The tokens of the first `n` expressions of a run do not depend on what
/// follows them in the run.
proof fn lemma_encoding_seq_push(items: Seq<ExprModel>, e: ExprModel, n: nat)
    requires
        n <= items.len(),
    ensures
        encoding_seq(items.push(e), n) == encoding_seq(items, n),
    decreases n,
{
    if n > 0 {
        lemma_encoding_seq_push(items, e, (n - 1) as nat);
        assert(items.push(e)[n - 1] == items[n - 1]);
    }
}

/// The tokens of a run that was extended by one expression are those of the
/// run, then those of the expression.
proof fn lemma_encoding_all_push(items: Seq<ExprModel>, e: ExprModel)
    ensures
        encoding_all(items.push(e)) == encoding_all(items) + encoding(e),
{
    lemma_encoding_seq_push(items, e, items.len());
    assert(items.push(e)[items.len() as int] == e);
}

/// The tokens of a run are those of its first expression, then those of
/// the rest.
proof fn lemma_encoding_seq_front(items: Seq<ExprModel>, n: nat)
    requires
        1 <= n <= items.len(),
    ensures
        encoding_seq(items, n) == encoding(items[0]) + encoding_seq(
            items.subrange(1, items.len() as int),
            (n - 1) as nat,
        ),
    decreases n,
{
    let rest = items.subrange(1, items.len() as int);
    if n == 1 {
        assert(encoding_seq(items, 0) =~= Seq::<TokenModel>::empty());
        assert(encoding_seq(rest, 0) =~= Seq::<TokenModel>::empty());
        assert(encoding_seq(items, 1) =~= encoding(items[0]) + encoding_seq(rest, 0));
    } else {
        lemma_encoding_seq_front(items, (n - 1) as nat);
        assert(rest[n - 2] == items[n - 1]);
        assert(encoding_seq(items, n) =~= encoding(items[0]) + encoding_seq(
            rest,
            (n - 1) as nat,
        ));
    }
}

/// A full frame amounts to a well-formed head with arguments whose tokens
/// are the announcement followed by the tokens of what the frame holds.
proof fn lemma_assemble(items: Seq<ExprModel>)
    requires
        items.len() >= 1,
        forall|j: int| 0 <= j < items.len() ==> well_formed(#[trigger] items[j]),
    ensures
        well_formed(assemble(items)),
        encoding(assemble(items)) == seq![TokenModel::Function((items.len() - 1) as nat)]
            + encoding_all(items),
{
    let rest = items.subrange(1, items.len() as int);
    assert forall|j: int| 0 <= j < rest.len() implies well_formed(#[trigger] rest[j]) by {
        assert(rest[j] == items[j + 1]);
    }
    lemma_encoding_seq_front(items, items.len());
    assert(encoding(assemble(items)) =~= seq![TokenModel::Function((items.len() - 1) as nat)]
        + encoding_all(items));
}

/// Handing a well-formed expression to a sound reader keeps the reader
/// sound and adds the tokens of the expression to its trail; where that
/// finishes the outermost head, the result is well formed and the trail with
/// the tokens of the expression is what stands for it.
proof fn lemma_deliver_sound(frames: Seq<FrameModel>, e: ExprModel)
    requires
        sound(frames),
        well_formed(e),
    ensures
        match deliver(frames, e) {
            StepModel::More(open) => sound(open) && trail(open) == trail(frames) + encoding(e),
            StepModel::Done(result) => well_formed(result) && encoding(result) == trail(frames)
                + encoding(e),
            StepModel::Fail(_) => false,
        },
    decreases frames.len(),
{
    if frames.len() == 0 {
        assert(trail(frames) + encoding(e) =~= encoding(e));
    } else {
        let top = frames.last();
        let below = frames.drop_last();
        let items = top.items.push(e);
        assert(frame_sound(top));
        assert forall|j: int| 0 <= j < items.len() implies well_formed(#[trigger] items[j]) by {
            if j < top.items.len() {
                assert(items[j] == top.items[j]);
            }
        }
        assert forall|i: int| 0 <= i < below.len() implies frame_sound(#[trigger] below[i]) by {
            assert(below[i] == frames[i]);
        }
        lemma_encoding_all_push(top.items, e);
        let announced = seq![TokenModel::Function(top.arity)];
        assert(trail(frames) == trail(below) + announced + encoding_all(top.items));
        if items.len() == top.arity + 1 {
            lemma_assemble(items);
            lemma_deliver_sound(below, assemble(items));
            assert(trail(below) + encoding(assemble(items)) =~= trail(frames) + encoding(e));
        } else {
            let kept = FrameModel { arity: top.arity, items };
            let open = below.push(kept);
            assert(frame_sound(kept));
            assert forall|i: int| 0 <= i < open.len() implies frame_sound(#[trigger] open[i]) by {
                if i < below.len() {
                    assert(open[i] == below[i]);
                }
            }
            assert(open.drop_last() =~= below);
            assert(open.last() == kept);
            assert(trail(open) == trail(below) + announced + encoding_all(items));
            assert(trail(open) =~= trail(frames) + encoding(e));
        }
    }
}

/// What one token does to a sound reader: a token that the expression goes
/// on with leaves the reader sound and is added to its trail; a token that
/// ends the expression ends a well-formed one, and what stands for it is the
/// trail followed by that token.
pub proof fn lemma_step_sound(frames: Seq<FrameModel>, token: TokenModel)
    requires
        sound(frames),
    ensures
        match step(frames, token) {
            StepModel::More(open) => sound(open) && trail(open) == trail(frames).push(token),
            StepModel::Done(e) => well_formed(e) && encoding(e) == trail(frames).push(token),
            StepModel::Fail(_) => true,
        },
{
    let single = seq![token];
    assert(trail(frames).push(token) =~= trail(frames) + single);
    match token {
        TokenModel::Integer(value) => {
            let leaf = ExprModel::Integer(value);
            assert(encoding(leaf) == single);
            lemma_deliver_sound(frames, leaf);
        },
        TokenModel::Real(bits) => {
            if !is_nan(bits) {
                let leaf = ExprModel::Real(bits);
                assert(encoding(leaf) == single);
                lemma_deliver_sound(frames, leaf);
            }
        },
        TokenModel::String(text) => {
            let leaf = ExprModel::String(text);
            assert(encoding(leaf) == single);
            lemma_deliver_sound(frames, leaf);
        },
        TokenModel::Symbol(name) => {
            if absolute_symbol(name) {
                let leaf = ExprModel::Symbol(name);
                assert(encoding(leaf) == single);
                lemma_deliver_sound(frames, leaf);
            }
        },
        TokenModel::Function(arity) => {
            let fresh = FrameModel { arity, items: Seq::empty() };
            let open = frames.push(fresh);
            assert(frame_sound(fresh));
            assert forall|i: int| 0 <= i < open.len() implies frame_sound(#[trigger] open[i]) by {
                if i < frames.len() {
                    assert(open[i] == frames[i]);
                }
            }
            assert(open.drop_last() =~= frames);
            assert(open.last() == fresh);
            assert(encoding_all(fresh.items) =~= Seq::<TokenModel>::empty());
            assert(trail(open) =~= trail(frames) + single);
        },
        TokenModel::Unrecognized(_) => {},
    }
}

/// Whatever a sound reader makes of the tokens from place `at` on: where it
/// comes to the end of an expression, that expression is well formed, and
/// what stands for it is the reader's trail followed by the tokens that it
/// read.
proof fn lemma_run_sound(frames: Seq<FrameModel>, tokens: Seq<TokenModel>, at: int)
    requires
        sound(frames),
    ensures
        run(frames, tokens, at) matches Decoded::Complete(e, next) ==> {
            &&& 0 <= at < next <= tokens.len()
            &&& well_formed(e)
            &&& encoding(e) == trail(frames) + tokens.subrange(at, next)
        },
    decreases tokens.len() - at,
{
    if 0 <= at < tokens.len() {
        let token = tokens[at];
        lemma_step_sound(frames, token);
        assert(tokens.subrange(at, at + 1) =~= seq![token]);
        assert(trail(frames).push(token) =~= trail(frames) + tokens.subrange(at, at + 1));
        match step(frames, token) {
            StepModel::More(open) => {
                lemma_run_sound(open, tokens, at + 1);
                match run(open, tokens, at + 1) {
                    Decoded::Complete(e, next) => {
                        assert(trail(open) + tokens.subrange(at + 1, next) =~= trail(frames)
                            + tokens.subrange(at, next));
                    },
                    Decoded::Failed(_) => {},
                }
            },
            StepModel::Done(e) => {},
            StepModel::Fail(_) => {},
        }
    }
}

/// Nothing is read that was not written: where reading from place `at`
/// gives an expression, that expression is well formed and the tokens that
/// were read are exactly the tokens that stand for it.
pub proof fn lemma_decoded_was_encoded(tokens: Seq<TokenModel>, at: int)
    ensures
        decoding(tokens, at) matches Decoded::Complete(e, next) ==> {
            &&& 0 <= at < next <= tokens.len()
            &&& well_formed(e)
            &&& tokens.subrange(at, next) == encoding(e)
        },
{
    let none = Seq::<FrameModel>::empty();
    lemma_run_sound(none, tokens, at);
    match decoding(tokens, at) {
        Decoded::Complete(e, next) => {
            assert(trail(none) + tokens.subrange(at, next) =~= tokens.subrange(at, next));
        },
        Decoded::Failed(_) => {},
    }
}

/// No two well-formed expressions are written alike.
pub proof fn lemma_encoding_injective(a: ExprModel, b: ExprModel)
    requires
        well_formed(a),
        well_formed(b),
        encoding(a) == encoding(b),
    ensures
        a == b,
{
    lemma_decode_encode(a);
    lemma_decode_encode(b);
}

} // verus!
