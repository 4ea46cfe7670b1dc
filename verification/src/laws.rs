//! Laws of the interpreter, proved once and for all against the
//! transition function [`machine_next`] and the tokenizer's grammar.

use vstd::prelude::*;

use crate::builtins::{builtin_of, Builtin, Op2};
use crate::lexer::{lex_spec, lex_at, neg_number_len, number_len};
use crate::machine::{
    halt,
    machine_next,
    seeded_vars,
    wf,
    ErrorModel,
    MachineModel,
    Phase,
    Reply,
    RequestModel,
};
use crate::numeral::literal_index;
use crate::token::TokenModel;

verus! {

/// Text that is exactly one numeric literal: a whole-text match of the
/// negative-number rule or of the unsigned-number rule.
pub open spec fn literal_text(s: Seq<char>) -> bool {
    s.len() > 0 && (neg_number_len(s, 0) == s.len() || number_len(s, 0) == s.len())
}

/// The one token that a single-literal text denotes.
pub open spec fn literal_token(s: Seq<char>) -> TokenModel {
    if s.len() > 0 && s[0] == '-' {
        TokenModel::Number { negative: true, digits: s.subrange(1, s.len() as int) }
    } else {
        TokenModel::Number { negative: false, digits: s }
    }
}

/// The state a fresh machine starts in (what [`crate::machine::Machine::new`]
/// establishes).
pub open spec fn start_model(
    tokens: Seq<TokenModel>,
    args: Seq<Seq<char>>,
    euler: u64,
    pi: u64,
) -> MachineModel {
    MachineModel {
        tokens,
        pos: 0,
        stack: Seq::empty(),
        vars: seeded_vars(euler, pi),
        args,
        phase: Phase::Run,
    }
}

/// Law: a program text that is exactly one numeric literal tokenizes to
/// that one `Number` token; evaluating it asks the host for that one
/// parse and nothing else — in particular, no print — and finishes with
/// the host's answer `v` as the only stack entry.
pub proof fn law_single_literal(
    text: Seq<char>,
    args: Seq<Seq<char>>,
    euler: u64,
    pi: u64,
    v: u64,
)
    requires
        literal_text(text),
    ensures
        lex_spec(text) == Ok::<Seq<TokenModel>, int>(seq![literal_token(text)]),
        ({
            let m0 = start_model(seq![literal_token(text)], args, euler, pi);
            let s1 = machine_next(m0, Reply::Go);
            let s2 = machine_next(s1.0, Reply::Value(v));
            let s3 = machine_next(s2.0, Reply::Go);
            &&& s1.1 == (RequestModel::ParseNumber {
                negative: literal_token(text)->Number_negative,
                text: literal_token(text)->Number_digits,
            })
            &&& s2.1 == RequestModel::Continue
            &&& s3.1 == RequestModel::Finished
            &&& s3.0.stack =~= seq![v]
            &&& s3.0.phase is Halted
        }),
{
    let n = text.len() as int;
    if neg_number_len(text, 0) == n {
        assert(text[0] == '-');
        assert(lex_at(text, n) == Ok::<Seq<TokenModel>, int>(Seq::empty()));
        assert(seq![literal_token(text)] + Seq::<TokenModel>::empty() =~= seq![
            literal_token(text),
        ]);
    } else {
        assert(number_len(text, 0) == n);
        assert(neg_number_len(text, 0) == 0);
        assert(text[0] != '-');
        assert(text.subrange(0, n) =~= text);
        assert(lex_at(text, n) == Ok::<Seq<TokenModel>, int>(Seq::empty()));
        assert(seq![literal_token(text)] + Seq::<TokenModel>::empty() =~= seq![
            literal_token(text),
        ]);
    }
    let m0 = start_model(seq![literal_token(text)], args, euler, pi);
    let s2 = machine_next(machine_next(m0, Reply::Go).0, Reply::Value(v));
    assert(s2.0.stack =~= seq![v]);
}

/// Law: the program `a b op`, for a two-operand built-in `op`, asks the
/// host to apply `op` with left operand `a` (the number pushed first)
/// and right operand `b`, and finishes with exactly the host's answer
/// `r` on the stack. The program `b a op` asks with the operands
/// exchanged. So whenever the host's operation answers both requests
/// alike — as the commutative built-ins `+`, `*` and `=` do — the two
/// programs finish with the same stack.
pub proof fn law_binary_operand_order(
    name: Seq<char>,
    op: Op2,
    first: TokenModel,
    second: TokenModel,
    a: u64,
    b: u64,
    r: u64,
    args: Seq<Seq<char>>,
    euler: u64,
    pi: u64,
)
    requires
        builtin_of(name) == Some(Builtin::Binary(op)),
        first is Number,
        second is Number,
    ensures
        ({
            let m0 = start_model(seq![first, second, TokenModel::Identifier(name)], args, euler, pi);
            let s1 = machine_next(m0, Reply::Go);
            let s2 = machine_next(s1.0, Reply::Value(a));
            let s3 = machine_next(s2.0, Reply::Go);
            let s4 = machine_next(s3.0, Reply::Value(b));
            let s5 = machine_next(s4.0, Reply::Go);
            let s6 = machine_next(s5.0, Reply::Value(r));
            let s7 = machine_next(s6.0, Reply::Go);
            &&& s5.1 == (RequestModel::Apply2 { op, lhs: a, rhs: b })
            &&& s7.1 == RequestModel::Finished
            &&& s7.0.stack =~= seq![r]
        }),
{
    let m0 = start_model(seq![first, second, TokenModel::Identifier(name)], args, euler, pi);
    let s1 = machine_next(m0, Reply::Go);
    let s2 = machine_next(s1.0, Reply::Value(a));
    assert(s2.0.stack =~= seq![a]);
    let s3 = machine_next(s2.0, Reply::Go);
    let s4 = machine_next(s3.0, Reply::Value(b));
    assert(s4.0.stack =~= seq![a, b]);
    let s5 = machine_next(s4.0, Reply::Go);
    assert(s4.0.stack[0] == a && s4.0.stack[1] == b);
    assert(s5.0.stack =~= Seq::<u64>::empty());
    let s6 = machine_next(s5.0, Reply::Value(r));
    assert(s6.0.stack =~= seq![r]);
}

/// Law: assignment pops the stack's top and binds it to the name after
/// `:`, a later assignment to the same name overwrites the earlier one,
/// and `$ name` pushes the current binding. The program
/// `v1 : x v2 : x $ x` therefore finishes with exactly `v2` on the
/// stack, and with `x` bound to `v2` — for every name `x`, the seeded
/// constants `E` and `PI` included: bindings are not protected.
pub proof fn law_assign_last_write_wins(
    x: Seq<char>,
    first: TokenModel,
    second: TokenModel,
    v1: u64,
    v2: u64,
    args: Seq<Seq<char>>,
    euler: u64,
    pi: u64,
)
    requires
        first is Number,
        second is Number,
    ensures
        ({
            let m0 = start_model(
                seq![
                    first,
                    TokenModel::Assign,
                    TokenModel::Identifier(x),
                    second,
                    TokenModel::Assign,
                    TokenModel::Identifier(x),
                    TokenModel::ValueOf,
                    TokenModel::Identifier(x),
                ],
                args,
                euler,
                pi,
            );
            let s1 = machine_next(m0, Reply::Go);
            let s2 = machine_next(s1.0, Reply::Value(v1));
            let s3 = machine_next(s2.0, Reply::Go);
            let s4 = machine_next(s3.0, Reply::Go);
            let s5 = machine_next(s4.0, Reply::Value(v2));
            let s6 = machine_next(s5.0, Reply::Go);
            let s7 = machine_next(s6.0, Reply::Go);
            let s8 = machine_next(s7.0, Reply::Go);
            &&& s8.1 == RequestModel::Finished
            &&& s8.0.stack =~= seq![v2]
            &&& s8.0.vars =~= seeded_vars(euler, pi).insert(x, v2)
        }),
{
    let m0 = start_model(
        seq![
            first,
            TokenModel::Assign,
            TokenModel::Identifier(x),
            second,
            TokenModel::Assign,
            TokenModel::Identifier(x),
            TokenModel::ValueOf,
            TokenModel::Identifier(x),
        ],
        args,
        euler,
        pi,
    );
    let s1 = machine_next(m0, Reply::Go);
    let s2 = machine_next(s1.0, Reply::Value(v1));
    assert(s2.0.stack =~= seq![v1]);
    let s3 = machine_next(s2.0, Reply::Go);
    assert(s3.0.stack =~= Seq::<u64>::empty());
    let s4 = machine_next(s3.0, Reply::Go);
    let s5 = machine_next(s4.0, Reply::Value(v2));
    assert(s5.0.stack =~= seq![v2]);
    let s6 = machine_next(s5.0, Reply::Go);
    assert(s6.0.stack =~= Seq::<u64>::empty());
    assert(s6.0.vars == seeded_vars(euler, pi).insert(x, v1).insert(x, v2));
    let s7 = machine_next(s6.0, Reply::Go);
    assert(s6.0.vars.contains_key(x));
    assert(s6.0.vars[x] == v2);
    assert(s7.0.stack =~= seq![v2]);
    let s8 = machine_next(s7.0, Reply::Go);
    assert(s8.0.vars =~= seeded_vars(euler, pi).insert(x, v2));
}

/// Law: `$` before a number token selects the external argument at the
/// position one past the literal's integer value (a negative literal
/// counts as zero), asks the host to parse that argument's text, and
/// finishes with the host's answer as the only stack entry.
pub proof fn law_argument_indexing(
    negative: bool,
    digits: Seq<char>,
    args: Seq<Seq<char>>,
    euler: u64,
    pi: u64,
    v: u64,
)
    requires
        literal_index(negative, digits) + 1 < args.len(),
    ensures
        ({
            let m0 = start_model(
                seq![TokenModel::ValueOf, TokenModel::Number { negative, digits }],
                args,
                euler,
                pi,
            );
            let s1 = machine_next(m0, Reply::Go);
            let s2 = machine_next(s1.0, Reply::Value(v));
            let s3 = machine_next(s2.0, Reply::Go);
            &&& s1.1 == (RequestModel::ParseNumber {
                negative: false,
                text: args[literal_index(negative, digits) + 1],
            })
            &&& s3.1 == RequestModel::Finished
            &&& s3.0.stack =~= seq![v]
        }),
{
    let m0 = start_model(
        seq![TokenModel::ValueOf, TokenModel::Number { negative, digits }],
        args,
        euler,
        pi,
    );
    let s1 = machine_next(m0, Reply::Go);
    let s2 = machine_next(s1.0, Reply::Value(v));
    assert(s2.0.stack =~= seq![v]);
}

/// How many stack entries each built-in consumes.
pub open spec fn arity(b: Builtin) -> int {
    match b {
        Builtin::Binary(_) => 2,
        Builtin::Unary(_) => 1,
        Builtin::Select => 3,
        Builtin::Print => 1,
    }
}

/// Law: a built-in reached with fewer stack entries than its arity
/// halts the run at once with a stack underflow; nothing is pushed, no
/// request is made of the host.
pub proof fn law_stack_underflow(m: MachineModel, name: Seq<char>, b: Builtin)
    requires
        wf(m),
        m.phase is Run,
        m.pos < m.tokens.len(),
        m.tokens[m.pos] == TokenModel::Identifier(name),
        builtin_of(name) == Some(b),
        m.stack.len() < arity(b),
    ensures
        machine_next(m, Reply::Go) == (
            halt(m),
            RequestModel::Failed(ErrorModel::StackUnderflow),
        ),
{
}

/// Law: `?` pops the if-false branch, the if-true branch and the
/// condition, in that order, and asks the host whether the condition is
/// nonzero; a positive answer pushes back the if-true branch, a
/// negative one the if-false branch.
pub proof fn law_select(m: MachineModel, name: Seq<char>, answer: bool)
    requires
        wf(m),
        m.phase is Run,
        m.pos < m.tokens.len(),
        m.tokens[m.pos] == TokenModel::Identifier(name),
        builtin_of(name) == Some(Builtin::Select),
        m.stack.len() >= 3,
    ensures
        ({
            let cond = m.stack[m.stack.len() - 3];
            let iftrue = m.stack[m.stack.len() - 2];
            let iffalse = m.stack[m.stack.len() - 1];
            let s1 = machine_next(m, Reply::Go);
            let s2 = machine_next(s1.0, Reply::Truth(answer));
            &&& s1.1 == (RequestModel::TestNonZero { value: cond })
            &&& s2.0.stack =~= m.stack.subrange(0, m.stack.len() - 3).push(
                if answer {
                    iftrue
                } else {
                    iffalse
                },
            )
        }),
{
}

/// Law: an identifier that names no built-in halts the run at once,
/// reporting that name as an unknown function — whether or not a
/// variable of the same name is bound.
pub proof fn law_unknown_function(m: MachineModel, name: Seq<char>)
    requires
        wf(m),
        m.phase is Run,
        m.pos < m.tokens.len(),
        m.tokens[m.pos] == TokenModel::Identifier(name),
        builtin_of(name) is None,
    ensures
        machine_next(m, Reply::Go) == (
            halt(m),
            RequestModel::Failed(ErrorModel::UnknownFunction(name)),
        ),
{
}

} // verus!

