//! The stack machine. It fetches and decodes instructions and keeps the
//! operand stack; the arithmetic on values is handed to its driver, one
//! operation at a time, and the result pushed back.
use crate::chunk::{constant_index, Chunk, OpCode};
use vstd::prelude::*;

verus! {

/// Room reserved on the operand stack when a machine is made.
pub const INITIAL_STACK_SIZE: usize = 256;

/// Why execution stopped before a `Return`.
#[derive(Copy, Clone, PartialEq, Eq, Debug, Structural)]
pub enum RuntimeError {
    /// An instruction needed more operands than the stack held.
    StackUnderflow,
    /// The instructions ran out before a `Return`.
    MissingReturn,
}

/// The arithmetic that an instruction applies to two operands.
#[derive(Copy, Clone, PartialEq, Eq, Debug, Structural)]
pub enum BinaryOp {
    Add,
    Subtract,
    Multiply,
    Divide,
    Modulo,
}

/// What executing one instruction asks of the driver.
#[derive(PartialEq, Eq, Debug)]
pub enum Step<V> {
    /// Nothing: a constant was pushed.
    Continue,
    /// Apply the arithmetic instruction to the left and right operands, which
    /// were popped, and push the result.
    Binary(BinaryOp, V, V),
    /// Push the negation of the operand, which was popped.
    Negate(V),
    /// The program's result, popped; execution is over.
    Return(V),
}

/// The arithmetic of `op`, when it pops two operands and pushes one result.
pub open spec fn binary_op(op: OpCode) -> Option<BinaryOp> {
    match op {
        OpCode::Add => Some(BinaryOp::Add),
        OpCode::Subtract => Some(BinaryOp::Subtract),
        OpCode::Multiply => Some(BinaryOp::Multiply),
        OpCode::Divide => Some(BinaryOp::Divide),
        OpCode::Modulo => Some(BinaryOp::Modulo),
        _ => None,
    }
}

/// Executing the instruction at `ip` of `code` on `stack`: what it yields,
/// and the stack after it.
pub open spec fn step_spec<V>(code: Seq<OpCode>, constants: Seq<V>, ip: int, stack: Seq<V>) -> (
    Result<Step<V>, RuntimeError>,
    Seq<V>,
) {
    let n = stack.len() as int;
    if ip < 0 || ip >= code.len() {
        (Err(RuntimeError::MissingReturn), stack)
    } else {
        let op = code[ip];
        if constant_index(op) is Some {
            (Ok(Step::Continue), stack.push(constants[constant_index(op)->0]))
        } else if binary_op(op) is Some {
            if n >= 2 {
                (
                    Ok(Step::Binary(binary_op(op)->0, stack[n - 2], stack[n - 1])),
                    stack.subrange(0, n - 2),
                )
            } else {
                (Err(RuntimeError::StackUnderflow), stack)
            }
        } else if n >= 1 {
            (
                Ok(
                    if op == OpCode::Negate {
                        Step::Negate(stack[n - 1])
                    } else {
                        Step::Return(stack[n - 1])
                    },
                ),
                stack.subrange(0, n - 1),
            )
        } else {
            (Err(RuntimeError::StackUnderflow), stack)
        }
    }
}

/// A stack machine that runs one chunk at a time.
pub struct VM<V> {
    chunk: Chunk<V>,
    ip: usize,
    stack: Vec<V>,
}

impl<V: Copy> VM<V> {
    /// The chunk being run.
    pub closed spec fn loaded(&self) -> Chunk<V> {
        self.chunk
    }

    /// The offset of the next instruction.
    pub closed spec fn ip_view(&self) -> int {
        self.ip as int
    }

    /// The operand stack, bottom first.
    pub closed spec fn stack_view(&self) -> Seq<V> {
        self.stack@
    }

    /// The chunk being run is valid.
    pub open spec fn wf(&self) -> bool {
        self.loaded().wf()
    }

    pub fn new() -> (r: VM<V>)
        ensures
            r.wf(),
            r.loaded().code_view().len() == 0,
            r.loaded().constants_view().len() == 0,
            r.loaded().line_view().len() == 0,
            r.loaded().run_count() == 0,
            r.ip_view() == 0,
            r.stack_view().len() == 0,
    {
        VM { chunk: Chunk::new(), ip: 0, stack: Vec::with_capacity(INITIAL_STACK_SIZE) }
    }

    /// Takes `chunk` to run from its first instruction, on an empty stack.
    pub fn load(&mut self, chunk: Chunk<V>)
        requires
            chunk.wf(),
        ensures
            final(self).wf(),
            final(self).loaded() == chunk,
            final(self).ip_view() == 0,
            final(self).stack_view().len() == 0,
    {
        self.chunk = chunk;
        self.ip = 0;
        self.reset_stack();
    }

    /// Executes the next instruction.
    pub fn step(&mut self) -> (r: Result<Step<V>, RuntimeError>)
        requires
            old(self).wf(),
        ensures
            final(self).wf(),
            final(self).loaded() == old(self).loaded(),
            final(self).ip_view() == if old(self).ip_view() < old(self).loaded().code_view().len() {
                old(self).ip_view() + 1
            } else {
                old(self).ip_view()
            },
            (r, final(self).stack_view()) == step_spec(
                old(self).loaded().code_view(),
                old(self).loaded().constants_view(),
                old(self).ip_view(),
                old(self).stack_view(),
            ),
    {
        let ghost ip = self.ip as int;
        let instruction = match self.next_ins() {
            Some(instruction) => instruction,
            None => return Err(RuntimeError::MissingReturn),
        };
        proof {
            if constant_index(instruction) is Some {
                self.chunk.lemma_loads_written_constants(ip);
            }
        }
        match instruction {
            OpCode::Constant(index) => {
                let constant = self.get_constant(index as usize);
                self.push(constant);
                Ok(Step::Continue)
            },
            OpCode::LongConstant(index) => {
                let constant = self.get_constant(index as usize);
                self.push(constant);
                Ok(Step::Continue)
            },
            OpCode::Add => self.binary(BinaryOp::Add),
            OpCode::Subtract => self.binary(BinaryOp::Subtract),
            OpCode::Multiply => self.binary(BinaryOp::Multiply),
            OpCode::Divide => self.binary(BinaryOp::Divide),
            OpCode::Modulo => self.binary(BinaryOp::Modulo),
            OpCode::Negate => {
                if self.stack.len() < 1 {
                    return Err(RuntimeError::StackUnderflow);
                }
                Ok(Step::Negate(self.pop()))
            },
            OpCode::Return => {
                if self.stack.len() < 1 {
                    return Err(RuntimeError::StackUnderflow);
                }
                Ok(Step::Return(self.pop()))
            },
        }
    }

    /// Pops the right operand, then the left one, for `op`.
    fn binary(&mut self, op: BinaryOp) -> (r: Result<Step<V>, RuntimeError>)
        ensures
            final(self).chunk == old(self).chunk,
            final(self).ip == old(self).ip,
            ({
                let n = old(self).stack@.len() as int;
                if n >= 2 {
                    r == Ok::<Step<V>, RuntimeError>(
                        Step::Binary(op, old(self).stack@[n - 2], old(self).stack@[n - 1]),
                    ) && final(self).stack@ == old(self).stack@.subrange(0, n - 2)
                } else {
                    r == Err::<Step<V>, RuntimeError>(RuntimeError::StackUnderflow)
                        && final(self).stack@ == old(self).stack@
                }
            }),
    {
        if self.stack.len() < 2 {
            return Err(RuntimeError::StackUnderflow);
        }
        let b = self.pop();
        let a = self.pop();
        Ok(Step::Binary(op, a, b))
    }

    /// Fetches the instruction at the cursor and moves past it.
    fn next_ins(&mut self) -> (r: Option<OpCode>)
        requires
            old(self).wf(),
        ensures
            final(self).chunk == old(self).chunk,
            final(self).stack@ == old(self).stack@,
            if old(self).ip < old(self).chunk.code_view().len() {
                r == Some(old(self).chunk.code_view()[old(self).ip as int]) && final(self).ip
                    == old(self).ip + 1
            } else {
                r is None && final(self).ip == old(self).ip
            },
    {
        let code = self.chunk.code();
        if self.ip < code.len() {
            let instruction = code[self.ip];
            self.ip += 1;
            Some(instruction)
        } else {
            None
        }
    }

    fn get_constant(&self, index: usize) -> (r: V)
        requires
            index < self.chunk.constants_view().len(),
        ensures
            r == self.chunk.constants_view()[index as int],
    {
        self.chunk.constants()[index]
    }

    fn reset_stack(&mut self)
        ensures
            final(self).stack@.len() == 0,
            final(self).chunk == old(self).chunk,
            final(self).ip == old(self).ip,
    {
        self.stack.clear();
    }

    /// Pushes `value` on the operand stack.
    pub fn push(&mut self, value: V)
        ensures
            final(self).wf() == old(self).wf(),
            final(self).stack_view() == old(self).stack_view().push(value),
            final(self).loaded() == old(self).loaded(),
            final(self).ip_view() == old(self).ip_view(),
    {
        self.stack.push(value);
    }

    fn pop(&mut self) -> (r: V)
        requires
            old(self).stack@.len() >= 1,
        ensures
            r == old(self).stack@.last(),
            final(self).stack@ == old(self).stack@.drop_last(),
            final(self).chunk == old(self).chunk,
            final(self).ip == old(self).ip,
    {
        self.stack.pop().unwrap()
    }

    /// The operand stack, bottom first.
    pub fn stack(&self) -> (r: &Vec<V>)
        ensures
            r@ == self.stack_view(),
    {
        &self.stack
    }

    /// The offset of the next instruction.
    pub fn offset(&self) -> (r: usize)
        ensures
            r == self.ip_view(),
    {
        self.ip
    }

    /// The chunk being run.
    pub fn chunk(&self) -> (r: &Chunk<V>)
        ensures
            *r == self.loaded(),
    {
        &self.chunk
    }
}

} // verus!
