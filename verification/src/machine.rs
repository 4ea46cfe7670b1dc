//! The evaluator: a stack machine driven step by step by its host.
//!
//! The machine consumes tokens in order against a stack of opaque
//! 64-bit number payloads, a variable table and an indexed external
//! argument list. It never computes on the numbers itself: whenever a
//! literal must be parsed, a built-in applied, a condition tested or a
//! value printed, [`Machine::step`] hands the host a [`Request`], and
//! the host answers through the next call's [`Reply`]. Every transition
//! is fixed by the specification function [`machine_next`], whatever
//! the host answers.
//!
//! Any failure — stack underflow, an unbound variable, an unknown
//! function, a marker without its follow-on token, a bad argument
//! lookup — halts the machine with the matching [`RunError`].

use vstd::prelude::*;

use crate::builtins::{lookup_builtin, builtin_of, Builtin, Op1, Op2};
use crate::lexer::{lex_spec, tokenize, LexError};
use crate::numeral::{literal_index, literal_position};
use crate::token::{Token, TokenModel};
use crate::vars::VarTable;

verus! {

/// What the host hands the machine at each step.
#[derive(Clone, Copy, PartialEq, Eq, Debug)]
pub enum Reply {
    /// Nothing to report: start, or the previous request asked for no
    /// value back.
    Go,
    /// The number that the previous request asked for, as an opaque
    /// 64-bit payload.
    Value(u64),
    /// The answer to a condition test.
    Truth(bool),
    /// The text of the previous parse request does not denote a number.
    NotNumber,
}

/// Why a run failed.
#[derive(Clone, PartialEq, Eq, Debug)]
pub enum RunError {
    /// `$` not followed by a number or an identifier, or by nothing.
    ValueOfSyntax,
    /// `:` not followed by an identifier, or by nothing.
    AssignSyntax,
    /// `$name` where `name` has no binding.
    UnboundVariable(String),
    /// An identifier that names no built-in function.
    UnknownFunction(String),
    /// A pop from an empty or too-short stack.
    StackUnderflow,
    /// `$n` with the index outside the argument list, or argument or
    /// literal text that the host could not parse as a number.
    ArgumentParse,
}

/// The shape of a [`RunError`], with text as character sequences.
pub enum ErrorModel {
    ValueOfSyntax,
    AssignSyntax,
    UnboundVariable(Seq<char>),
    UnknownFunction(Seq<char>),
    StackUnderflow,
    ArgumentParse,
}

impl View for RunError {
    type V = ErrorModel;

    open spec fn view(&self) -> ErrorModel {
        match self {
            RunError::ValueOfSyntax => ErrorModel::ValueOfSyntax,
            RunError::AssignSyntax => ErrorModel::AssignSyntax,
            RunError::UnboundVariable(name) => ErrorModel::UnboundVariable(name@),
            RunError::UnknownFunction(name) => ErrorModel::UnknownFunction(name@),
            RunError::StackUnderflow => ErrorModel::StackUnderflow,
            RunError::ArgumentParse => ErrorModel::ArgumentParse,
        }
    }
}

/// What the machine asks of its host after a step.
#[derive(Clone, PartialEq, Eq, Debug)]
pub enum Request {
    /// Parse `text` as a number — negated when `negative` — and answer
    /// `Value` with its payload, or `NotNumber`.
    ParseNumber { negative: bool, text: String },
    /// Apply the two-operand built-in `op` and answer `Value`; `lhs` is
    /// the deeper operand.
    Apply2 { op: Op2, lhs: u64, rhs: u64 },
    /// Apply the one-operand built-in `op` and answer `Value`.
    Apply1 { op: Op1, arg: u64 },
    /// Answer `Truth`: is `value` a nonzero number?
    TestNonZero { value: u64 },
    /// Print `value` on a line of its own, then answer `Go`.
    Print { value: u64 },
    /// Nothing to do: answer `Go` to keep evaluating.
    Continue,
    /// All tokens are consumed; the run succeeded.
    Finished,
    /// The run failed; the machine has halted.
    Failed(RunError),
}

/// The shape of a [`Request`], with text as character sequences.
pub enum RequestModel {
    ParseNumber { negative: bool, text: Seq<char> },
    Apply2 { op: Op2, lhs: u64, rhs: u64 },
    Apply1 { op: Op1, arg: u64 },
    TestNonZero { value: u64 },
    Print { value: u64 },
    Continue,
    Finished,
    Failed(ErrorModel),
}

impl View for Request {
    type V = RequestModel;

    open spec fn view(&self) -> RequestModel {
        match self {
            Request::ParseNumber { negative, text } => RequestModel::ParseNumber {
                negative: *negative,
                text: text@,
            },
            Request::Apply2 { op, lhs, rhs } => RequestModel::Apply2 {
                op: *op,
                lhs: *lhs,
                rhs: *rhs,
            },
            Request::Apply1 { op, arg } => RequestModel::Apply1 { op: *op, arg: *arg },
            Request::TestNonZero { value } => RequestModel::TestNonZero { value: *value },
            Request::Print { value } => RequestModel::Print { value: *value },
            Request::Continue => RequestModel::Continue,
            Request::Finished => RequestModel::Finished,
            Request::Failed(e) => RequestModel::Failed(e@),
        }
    }
}

/// What the machine is waiting for.
#[derive(Clone, Copy, PartialEq, Eq, Debug)]
pub enum Phase {
    /// Ready to consume the next token; expects `Go`.
    Run,
    /// A value was requested; expects `Value` or `NotNumber`.
    WaitPush,
    /// A condition test was requested; expects `Truth`. The two saved
    /// branch values are pushed back according to the answer.
    WaitSelect { iftrue: u64, iffalse: u64 },
    /// Finished or failed; expects nothing.
    Halted,
}

/// The mathematical state of a machine.
pub struct MachineModel {
    pub tokens: Seq<TokenModel>,
    pub pos: int,
    pub stack: Seq<u64>,
    pub vars: Map<Seq<char>, u64>,
    pub args: Seq<Seq<char>>,
    pub phase: Phase,
}

/// A machine state that the evaluator can be in.
pub open spec fn wf(m: MachineModel) -> bool {
    0 <= m.pos <= m.tokens.len()
}

/// Which replies a state accepts.
pub open spec fn expects(m: MachineModel, reply: Reply) -> bool {
    match m.phase {
        Phase::Run => reply is Go,
        Phase::WaitPush => reply is Value || reply is NotNumber,
        Phase::WaitSelect { .. } => reply is Truth,
        Phase::Halted => false,
    }
}

/// The given state, halted.
pub open spec fn halt(m: MachineModel) -> MachineModel {
    MachineModel { phase: Phase::Halted, ..m }
}

/// Dispatch on an identifier token: look the name up in the built-in
/// table and apply its stack discipline.
pub open spec fn next_builtin(m: MachineModel, name: Seq<char>) -> (MachineModel, RequestModel) {
    match builtin_of(name) {
        None => (halt(m), RequestModel::Failed(ErrorModel::UnknownFunction(name))),
        Some(Builtin::Binary(op)) => if m.stack.len() >= 2 {
            (
                MachineModel {
                    pos: m.pos + 1,
                    stack: m.stack.subrange(0, m.stack.len() - 2),
                    phase: Phase::WaitPush,
                    ..m
                },
                RequestModel::Apply2 {
                    op,
                    lhs: m.stack[m.stack.len() - 2],
                    rhs: m.stack[m.stack.len() - 1],
                },
            )
        } else {
            (halt(m), RequestModel::Failed(ErrorModel::StackUnderflow))
        },
        Some(Builtin::Unary(op)) => if m.stack.len() >= 1 {
            (
                MachineModel {
                    pos: m.pos + 1,
                    stack: m.stack.drop_last(),
                    phase: Phase::WaitPush,
                    ..m
                },
                RequestModel::Apply1 { op, arg: m.stack.last() },
            )
        } else {
            (halt(m), RequestModel::Failed(ErrorModel::StackUnderflow))
        },
        Some(Builtin::Select) => if m.stack.len() >= 3 {
            (
                MachineModel {
                    pos: m.pos + 1,
                    stack: m.stack.subrange(0, m.stack.len() - 3),
                    phase: Phase::WaitSelect {
                        iftrue: m.stack[m.stack.len() - 2],
                        iffalse: m.stack[m.stack.len() - 1],
                    },
                    ..m
                },
                RequestModel::TestNonZero { value: m.stack[m.stack.len() - 3] },
            )
        } else {
            (halt(m), RequestModel::Failed(ErrorModel::StackUnderflow))
        },
        Some(Builtin::Print) => if m.stack.len() >= 1 {
            (
                MachineModel { pos: m.pos + 1, stack: m.stack.drop_last(), ..m },
                RequestModel::Print { value: m.stack.last() },
            )
        } else {
            (halt(m), RequestModel::Failed(ErrorModel::StackUnderflow))
        },
    }
}

/// Dispatch on `$`: the next token must be a number (an argument
/// lookup) or an identifier (a variable read).
pub open spec fn next_value_of(m: MachineModel) -> (MachineModel, RequestModel) {
    if m.pos + 1 >= m.tokens.len() {
        (halt(m), RequestModel::Failed(ErrorModel::ValueOfSyntax))
    } else {
        match m.tokens[m.pos + 1] {
            TokenModel::Number { negative, digits } => {
                let p = literal_index(negative, digits) + 1;
                if p < m.args.len() {
                    (
                        MachineModel { pos: m.pos + 2, phase: Phase::WaitPush, ..m },
                        RequestModel::ParseNumber { negative: false, text: m.args[p] },
                    )
                } else {
                    (halt(m), RequestModel::Failed(ErrorModel::ArgumentParse))
                }
            },
            TokenModel::Identifier(name) => if m.vars.contains_key(name) {
                (
                    MachineModel { pos: m.pos + 2, stack: m.stack.push(m.vars[name]), ..m },
                    RequestModel::Continue,
                )
            } else {
                (halt(m), RequestModel::Failed(ErrorModel::UnboundVariable(name)))
            },
            _ => (halt(m), RequestModel::Failed(ErrorModel::ValueOfSyntax)),
        }
    }
}

/// Dispatch on `:`: the next token must be an identifier; the stack's
/// top is popped and bound to it, replacing any earlier binding.
pub open spec fn next_assign(m: MachineModel) -> (MachineModel, RequestModel) {
    if m.pos + 1 >= m.tokens.len() {
        (halt(m), RequestModel::Failed(ErrorModel::AssignSyntax))
    } else {
        match m.tokens[m.pos + 1] {
            TokenModel::Identifier(name) => if m.stack.len() >= 1 {
                (
                    MachineModel {
                        pos: m.pos + 2,
                        stack: m.stack.drop_last(),
                        vars: m.vars.insert(name, m.stack.last()),
                        ..m
                    },
                    RequestModel::Continue,
                )
            } else {
                (halt(m), RequestModel::Failed(ErrorModel::StackUnderflow))
            },
            _ => (halt(m), RequestModel::Failed(ErrorModel::AssignSyntax)),
        }
    }
}

/// Consume the token at the cursor.
pub open spec fn next_token(m: MachineModel) -> (MachineModel, RequestModel) {
    if m.pos >= m.tokens.len() {
        (halt(m), RequestModel::Finished)
    } else {
        match m.tokens[m.pos] {
            TokenModel::Number { negative, digits } => (
                MachineModel { pos: m.pos + 1, phase: Phase::WaitPush, ..m },
                RequestModel::ParseNumber { negative, text: digits },
            ),
            TokenModel::Identifier(name) => next_builtin(m, name),
            TokenModel::ValueOf => next_value_of(m),
            TokenModel::Assign => next_assign(m),
        }
    }
}

/// The machine's transition function: the state after a step, and the
/// request it makes, for a state and the host's reply. A reply of a
/// kind the phase does not expect changes nothing; [`Machine::step`]
/// requires [`expects`], so it never answers such a reply.
pub open spec fn machine_next(m: MachineModel, reply: Reply) -> (MachineModel, RequestModel) {
    match m.phase {
        Phase::Run => match reply {
            Reply::Go => next_token(m),
            _ => (m, RequestModel::Continue),
        },
        Phase::WaitPush => match reply {
            Reply::Value(v) => (
                MachineModel { stack: m.stack.push(v), phase: Phase::Run, ..m },
                RequestModel::Continue,
            ),
            Reply::NotNumber => (halt(m), RequestModel::Failed(ErrorModel::ArgumentParse)),
            _ => (m, RequestModel::Continue),
        },
        Phase::WaitSelect { iftrue, iffalse } => match reply {
            Reply::Truth(b) => (
                MachineModel {
                    stack: m.stack.push(if b {
                        iftrue
                    } else {
                        iffalse
                    }),
                    phase: Phase::Run,
                    ..m
                },
                RequestModel::Continue,
            ),
            _ => (m, RequestModel::Continue),
        },
        Phase::Halted => (m, RequestModel::Continue),
    }
}

/// The evaluator's state: tokens, cursor, stack, variables, external
/// arguments, and what it is waiting for.
pub struct Machine {
    tokens: Vec<Token>,
    pos: usize,
    stack: Vec<u64>,
    vars: VarTable,
    args: Vec<String>,
    phase: Phase,
}

impl View for Machine {
    type V = MachineModel;

    closed spec fn view(&self) -> MachineModel {
        MachineModel {
            tokens: self.tokens.deep_view(),
            pos: self.pos as int,
            stack: self.stack@,
            vars: self.vars@,
            args: self.args.deep_view(),
            phase: self.phase,
        }
    }
}

/// The variable table every machine starts with: the two constants,
/// bound to whatever payloads the host passes for them.
pub open spec fn seeded_vars(euler: u64, pi: u64) -> Map<Seq<char>, u64> {
    Map::empty().insert("E"@, euler).insert("PI"@, pi)
}

impl Machine {
    /// A machine ready to evaluate `tokens` against `args`, with an
    /// empty stack and the variables `E` and `PI` bound to the payloads
    /// the host supplies for those constants.
    pub fn new(tokens: Vec<Token>, args: Vec<String>, euler: u64, pi: u64) -> (m: Machine)
        ensures
            wf(m@),
            m@ == (MachineModel {
                tokens: tokens.deep_view(),
                pos: 0,
                stack: Seq::empty(),
                vars: seeded_vars(euler, pi),
                args: args.deep_view(),
                phase: Phase::Run,
            }),
    {
        let mut vars = VarTable::new();
        vars.set(String::from_str("E"), euler);
        vars.set(String::from_str("PI"), pi);
        Machine { tokens, pos: 0, stack: Vec::new(), vars, args, phase: Phase::Run }
    }

    /// A machine for a whole program text: tokenize it, then start.
    /// Tokenization completes before evaluation begins, so a lexing
    /// failure aborts the run before any token takes effect.
    pub fn from_program(program: &str, args: Vec<String>, euler: u64, pi: u64) -> (r: Result<
        Machine,
        LexError,
    >)
        ensures
            match r {
                Ok(m) => wf(m@) && (lex_spec(program@) matches Ok(ts) && m@ == (MachineModel {
                    tokens: ts,
                    pos: 0,
                    stack: Seq::empty(),
                    vars: seeded_vars(euler, pi),
                    args: args.deep_view(),
                    phase: Phase::Run,
                })),
                Err(e) => lex_spec(program@) == Err::<Seq<TokenModel>, int>(e.position as int),
            },
    {
        match tokenize(program) {
            Ok(tokens) => Ok(Machine::new(tokens, args, euler, pi)),
            Err(e) => Err(e),
        }
    }

    /// The stack, bottom first.
    pub fn stack(&self) -> (s: &Vec<u64>)
        ensures
            s@ == self@.stack,
    {
        &self.stack
    }

    /// The value bound to `name`, if any.
    pub fn lookup_var(&self, name: &String) -> (r: Option<u64>)
        ensures
            r == if self@.vars.contains_key(name@) {
                Some(self@.vars[name@])
            } else {
                None::<u64>
            },
    {
        self.vars.get(name)
    }

    /// One step: answer the previous request with `reply`, and get the
    /// next request. The machine moves exactly as [`machine_next`]
    /// says.
    pub fn step(&mut self, reply: Reply) -> (req: Request)
        requires
            wf(old(self)@),
            expects(old(self)@, reply),
        ensures
            wf(final(self)@),
            final(self)@ == machine_next(old(self)@, reply).0,
            req@ == machine_next(old(self)@, reply).1,
    {
        match self.phase {
            Phase::WaitPush => match reply {
                Reply::Value(v) => {
                    self.stack.push(v);
                    self.phase = Phase::Run;
                    Request::Continue
                },
                _ => {
                    self.phase = Phase::Halted;
                    Request::Failed(RunError::ArgumentParse)
                },
            },
            Phase::WaitSelect { iftrue, iffalse } => {
                let b = match reply {
                    Reply::Truth(b) => b,
                    _ => false,
                };
                self.stack.push(if b {
                    iftrue
                } else {
                    iffalse
                });
                self.phase = Phase::Run;
                Request::Continue
            },
            Phase::Halted => Request::Continue,
            Phase::Run => self.step_token(),
        }
    }

    /// Consume the token at the cursor (the `Run` phase of [`step`]).
    fn step_token(&mut self) -> (req: Request)
        requires
            wf(old(self)@),
            old(self)@.phase is Run,
        ensures
            wf(final(self)@),
            final(self)@ == next_token(old(self)@).0,
            req@ == next_token(old(self)@).1,
    {
        if self.pos >= self.tokens.len() {
            self.phase = Phase::Halted;
            return Request::Finished;
        }
        let tok_kind: usize = match &self.tokens[self.pos] {
            Token::Number(_) => 0,
            Token::Identifier(_) => 1,
            Token::ValueOf => 2,
            Token::Assign => 3,
        };
        if tok_kind == 0 {
            let (negative, text) = match &self.tokens[self.pos] {
                Token::Number(lit) => (lit.negative, lit.digits.clone()),
                _ => (false, String::new()),
            };
            self.pos = self.pos + 1;
            self.phase = Phase::WaitPush;
            Request::ParseNumber { negative, text }
        } else if tok_kind == 1 {
            self.step_builtin()
        } else if tok_kind == 2 {
            self.step_value_of()
        } else {
            self.step_assign()
        }
    }

    /// Dispatch on an identifier token (see [`next_builtin`]).
    fn step_builtin(&mut self) -> (req: Request)
        requires
            wf(old(self)@),
            old(self)@.pos < old(self)@.tokens.len(),
            old(self)@.tokens[old(self)@.pos] is Identifier,
        ensures
            wf(final(self)@),
            final(self)@ == next_builtin(old(self)@, old(self)@.tokens[old(self)@.pos]->Identifier_0).0,
            req@ == next_builtin(old(self)@, old(self)@.tokens[old(self)@.pos]->Identifier_0).1,
    {
        proof {
            assert(self.tokens.deep_view().len() == self.tokens@.len());
        }
        let tokens_len = self.tokens.len();
        assert(self.pos < tokens_len);
        let found = match &self.tokens[self.pos] {
            Token::Identifier(name) => lookup_builtin(name),
            _ => None,
        };
        match found {
            None => {
                let name = match &self.tokens[self.pos] {
                    Token::Identifier(name) => name.clone(),
                    _ => String::new(),
                };
                self.phase = Phase::Halted;
                Request::Failed(RunError::UnknownFunction(name))
            },
            Some(Builtin::Binary(op)) => {
                if self.stack.len() >= 2 {
                    let rhs = self.stack.pop().unwrap();
                    let lhs = self.stack.pop().unwrap();
                    proof {
                        assert(self.stack@ =~= old(self)@.stack.subrange(
                            0,
                            old(self)@.stack.len() - 2,
                        ));
                    }
                    self.pos = self.pos + 1;
                    self.phase = Phase::WaitPush;
                    Request::Apply2 { op, lhs, rhs }
                } else {
                    self.phase = Phase::Halted;
                    Request::Failed(RunError::StackUnderflow)
                }
            },
            Some(Builtin::Unary(op)) => {
                if self.stack.len() >= 1 {
                    let arg = self.stack.pop().unwrap();
                    proof {
                        assert(self.stack@ =~= old(self)@.stack.drop_last());
                    }
                    self.pos = self.pos + 1;
                    self.phase = Phase::WaitPush;
                    Request::Apply1 { op, arg }
                } else {
                    self.phase = Phase::Halted;
                    Request::Failed(RunError::StackUnderflow)
                }
            },
            Some(Builtin::Select) => {
                if self.stack.len() >= 3 {
                    let iffalse = self.stack.pop().unwrap();
                    let iftrue = self.stack.pop().unwrap();
                    let cond = self.stack.pop().unwrap();
                    proof {
                        assert(self.stack@ =~= old(self)@.stack.subrange(
                            0,
                            old(self)@.stack.len() - 3,
                        ));
                    }
                    self.pos = self.pos + 1;
                    self.phase = Phase::WaitSelect { iftrue, iffalse };
                    Request::TestNonZero { value: cond }
                } else {
                    self.phase = Phase::Halted;
                    Request::Failed(RunError::StackUnderflow)
                }
            },
            Some(Builtin::Print) => {
                if self.stack.len() >= 1 {
                    let value = self.stack.pop().unwrap();
                    proof {
                        assert(self.stack@ =~= old(self)@.stack.drop_last());
                    }
                    self.pos = self.pos + 1;
                    Request::Print { value }
                } else {
                    self.phase = Phase::Halted;
                    Request::Failed(RunError::StackUnderflow)
                }
            },
        }
    }

    /// Dispatch on `$` (see [`next_value_of`]).
    fn step_value_of(&mut self) -> (req: Request)
        requires
            wf(old(self)@),
            old(self)@.pos < old(self)@.tokens.len(),
            old(self)@.tokens[old(self)@.pos] is ValueOf,
        ensures
            wf(final(self)@),
            final(self)@ == next_value_of(old(self)@).0,
            req@ == next_value_of(old(self)@).1,
    {
        proof {
            assert(self.tokens.deep_view().len() == self.tokens@.len());
        }
        let tokens_len = self.tokens.len();
        assert(self.pos < tokens_len);
        if self.pos + 1 >= self.tokens.len() {
            self.phase = Phase::Halted;
            return Request::Failed(RunError::ValueOfSyntax);
        }
        let follow_kind: usize = match &self.tokens[self.pos + 1] {
            Token::Number(_) => 0,
            Token::Identifier(_) => 1,
            _ => 2,
        };
        if follow_kind == 0 {
            let position = match &self.tokens[self.pos + 1] {
                Token::Number(lit) => literal_position(
                    lit.negative,
                    lit.digits.as_str(),
                    self.args.len(),
                ),
                _ => None,
            };
            match position {
                Some(p) => {
                    let text = self.args[p].clone();
                    self.pos = self.pos + 2;
                    self.phase = Phase::WaitPush;
                    Request::ParseNumber { negative: false, text }
                },
                None => {
                    self.phase = Phase::Halted;
                    Request::Failed(RunError::ArgumentParse)
                },
            }
        } else if follow_kind == 1 {
            let bound = match &self.tokens[self.pos + 1] {
                Token::Identifier(name) => self.vars.get(name),
                _ => None,
            };
            match bound {
                Some(v) => {
                    self.stack.push(v);
                    self.pos = self.pos + 2;
                    Request::Continue
                },
                None => {
                    let name = match &self.tokens[self.pos + 1] {
                        Token::Identifier(name) => name.clone(),
                        _ => String::new(),
                    };
                    self.phase = Phase::Halted;
                    Request::Failed(RunError::UnboundVariable(name))
                },
            }
        } else {
            self.phase = Phase::Halted;
            Request::Failed(RunError::ValueOfSyntax)
        }
    }

    /// Dispatch on `:` (see [`next_assign`]).
    fn step_assign(&mut self) -> (req: Request)
        requires
            wf(old(self)@),
            old(self)@.pos < old(self)@.tokens.len(),
            old(self)@.tokens[old(self)@.pos] is Assign,
        ensures
            wf(final(self)@),
            final(self)@ == next_assign(old(self)@).0,
            req@ == next_assign(old(self)@).1,
    {
        proof {
            assert(self.tokens.deep_view().len() == self.tokens@.len());
        }
        let tokens_len = self.tokens.len();
        assert(self.pos < tokens_len);
        if self.pos + 1 >= self.tokens.len() {
            self.phase = Phase::Halted;
            return Request::Failed(RunError::AssignSyntax);
        }
        let name = match &self.tokens[self.pos + 1] {
            Token::Identifier(name) => Some(name.clone()),
            _ => None,
        };
        match name {
            Some(name) => {
                if self.stack.len() >= 1 {
                    let value = self.stack.pop().unwrap();
                    proof {
                        assert(self.stack@ =~= old(self)@.stack.drop_last());
                    }
                    self.vars.set(name, value);
                    self.pos = self.pos + 2;
                    Request::Continue
                } else {
                    self.phase = Phase::Halted;
                    Request::Failed(RunError::StackUnderflow)
                }
            },
            None => {
                self.phase = Phase::Halted;
                Request::Failed(RunError::AssignSyntax)
            },
        }
    }
}

} // verus!
