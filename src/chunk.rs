//! The bytecode container: instructions, a constant pool and a run-length
//! table of source lines.
use vstd::prelude::*;

verus! {

/// One instruction. A constant is named by its index in the pool.
#[derive(Copy, Clone, PartialEq, Eq, Debug, Structural)]
pub enum OpCode {
    Constant(u8),
    LongConstant(u32),
    Add,
    Subtract,
    Multiply,
    Divide,
    Modulo,
    Negate,
    Return,
}

/// `count` consecutive instructions written for source line `line`.
#[derive(Copy, Clone, PartialEq, Eq, Debug, Structural)]
pub struct LineRun {
    pub line: usize,
    pub count: usize,
}

/// The constant index that `op` reads, if it reads one.
pub open spec fn constant_index(op: OpCode) -> Option<int> {
    match op {
        OpCode::Constant(i) => Some(i as int),
        OpCode::LongConstant(i) => Some(i as int),
        _ => None,
    }
}

/// The line of every instruction that the first `k` runs cover, in order.
pub open spec fn expand(runs: Seq<LineRun>, k: int) -> Seq<usize>
    decreases k,
{
    if k <= 0 {
        Seq::empty()
    } else {
        expand(runs, k - 1) + Seq::new(runs[k - 1].count as nat, |j: int| runs[k - 1].line)
    }
}

/// How many instructions the first `k` runs cover.
pub open spec fn covered(runs: Seq<LineRun>, k: int) -> int
    decreases k,
{
    if k <= 0 {
        0
    } else {
        covered(runs, k - 1) + runs[k - 1].count
    }
}

pub proof fn lemma_expand_len(runs: Seq<LineRun>, k: int)
    requires
        0 <= k <= runs.len(),
    ensures
        expand(runs, k).len() == covered(runs, k),
        0 <= covered(runs, k),
    decreases k,
{
    if k > 0 {
        lemma_expand_len(runs, k - 1);
    }
}

/// Expanding reads only the runs it covers.
pub proof fn lemma_expand_prefix(a: Seq<LineRun>, b: Seq<LineRun>, k: int)
    requires
        0 <= k <= a.len(),
        k <= b.len(),
        forall|j: int| 0 <= j < k ==> a[j] == b[j],
    ensures
        expand(a, k) == expand(b, k),
        covered(a, k) == covered(b, k),
    decreases k,
{
    if k > 0 {
        lemma_expand_prefix(a, b, k - 1);
    }
}

/// An offset that run `k` covers has that run's line.
pub proof fn lemma_expand_index(runs: Seq<LineRun>, k: int, n: int, offset: int)
    requires
        0 <= k < n <= runs.len(),
        covered(runs, k) <= offset < covered(runs, k + 1),
    ensures
        expand(runs, n)[offset] == runs[k].line,
        offset < expand(runs, n).len(),
    decreases n,
{
    lemma_expand_len(runs, n);
    lemma_expand_len(runs, n - 1);
    lemma_expand_len(runs, k);
    if n > k + 1 {
        lemma_expand_index(runs, k, n - 1, offset);
        lemma_covered_monotone(runs, k + 1, n - 1);
    }
}

pub proof fn lemma_covered_monotone(runs: Seq<LineRun>, j: int, k: int)
    requires
        0 <= j <= k <= runs.len(),
    ensures
        covered(runs, j) <= covered(runs, k),
    decreases k,
{
    if j < k {
        lemma_covered_monotone(runs, j, k - 1);
    }
}

/// The mnemonic of `op` in disassembly.
pub open spec fn mnemonic(op: OpCode) -> &'static str {
    match op {
        OpCode::Constant(_) => "OP_CONSTANT",
        OpCode::LongConstant(_) => "OP_CONSTANT_LONG",
        OpCode::Add => "OP_ADD",
        OpCode::Subtract => "OP_SUBTRACT",
        OpCode::Multiply => "OP_MULTIPLY",
        OpCode::Divide => "OP_DIVIDE",
        OpCode::Modulo => "OP_MODULO",
        OpCode::Negate => "OP_NEGATE",
        OpCode::Return => "OP_RETURN",
    }
}

impl OpCode {
    pub fn name(&self) -> (r: &'static str)
        ensures
            r == mnemonic(*self),
    {
        match self {
            OpCode::Constant(_) => "OP_CONSTANT",
            OpCode::LongConstant(_) => "OP_CONSTANT_LONG",
            OpCode::Add => "OP_ADD",
            OpCode::Subtract => "OP_SUBTRACT",
            OpCode::Multiply => "OP_MULTIPLY",
            OpCode::Divide => "OP_DIVIDE",
            OpCode::Modulo => "OP_MODULO",
            OpCode::Negate => "OP_NEGATE",
            OpCode::Return => "OP_RETURN",
        }
    }
}

/// What a disassembly line shows of one instruction.
#[derive(Copy, Clone, PartialEq, Eq, Debug)]
pub struct InstructionTrace {
    pub offset: usize,
    /// The source line, or `None` when it is the previous instruction's.
    pub line: Option<usize>,
    pub name: &'static str,
    /// The constant index that the instruction loads, if any.
    pub constant: Option<usize>,
}

/// Instructions, the constants they load, and the source line of each.
pub struct Chunk<V> {
    code: Vec<OpCode>,
    lines: Vec<LineRun>,
    constants: Vec<V>,
}

impl<V> Chunk<V> {
    /// The source line of each instruction, in order.
    pub closed spec fn line_view(&self) -> Seq<usize> {
        expand(self.lines@, self.lines@.len() as int)
    }

    /// The instructions, in order.
    pub closed spec fn code_view(&self) -> Seq<OpCode> {
        self.code@
    }

    /// The constant pool, in order.
    pub closed spec fn constants_view(&self) -> Seq<V> {
        self.constants@
    }

    /// The number of runs in the line table.
    pub closed spec fn run_count(&self) -> int {
        self.lines@.len() as int
    }

    /// The line of the last run, if there is one.
    pub closed spec fn last_run_line(&self) -> Option<usize> {
        if self.lines@.len() == 0 {
            None
        } else {
            Some(self.lines@.last().line)
        }
    }

    /// The runs cover the instructions one for one, none is empty, two in a
    /// row have different lines, and every constant loaded is in the pool.
    pub closed spec fn wf(&self) -> bool {
        &&& self.line_view().len() == self.code@.len()
        &&& forall|k: int| 0 <= k < self.lines@.len() ==> #[trigger] self.lines@[k].count >= 1
        &&& forall|k: int|
            0 < k < self.lines@.len() ==> #[trigger] self.lines@[k].line != self.lines@[k
                - 1].line
        &&& forall|k: int|
            0 <= k < self.code@.len() ==> (#[trigger] constant_index(self.code@[k]) is Some
                ==> constant_index(self.code@[k])->0 < self.constants@.len())
    }

    pub fn new() -> (r: Chunk<V>)
        ensures
            r.wf(),
            r.code_view() == Seq::<OpCode>::empty(),
            r.constants_view() == Seq::<V>::empty(),
            r.line_view() == Seq::<usize>::empty(),
            r.run_count() == 0,
            r.last_run_line() is None,
            r.line_view().len() == r.code_view().len(),
    {
        Chunk { code: Vec::new(), lines: Vec::new(), constants: Vec::new() }
    }

    /// Appends `instruction`, written for source `line`.
    pub fn write(&mut self, instruction: OpCode, line: usize)
        requires
            old(self).wf(),
            old(self).code_view().len() < usize::MAX,
            constant_index(instruction) is Some ==> constant_index(instruction)->0 < old(self).constants_view().len(),
        ensures
            final(self).wf(),
            final(self).code_view() == old(self).code_view().push(instruction),
            final(self).constants_view() == old(self).constants_view(),
            final(self).line_view() == old(self).line_view().push(line),
            final(self).run_count() == old(self).run_count() + if old(self).last_run_line()
                == Some(line) {
                0int
            } else {
                1int
            },
            final(self).last_run_line() == Some(line),
            final(self).line_view().len() == final(self).code_view().len(),
    {
        self.code.push(instruction);
        self.write_line(line);
        assert forall|k: int|
            0 <= k < self.code@.len() && #[trigger] constant_index(self.code@[k]) is Some implies constant_index(
            self.code@[k],
        )->0 < self.constants@.len() by {
            if k < old(self).code@.len() {
                assert(self.code@[k] == old(self).code@[k]);
            }
        }
    }

    /// Adds `value` to the pool and appends the instruction that loads it:
    /// `Constant` while the index fits in a byte, `LongConstant` after.
    pub fn write_constant(&mut self, value: V, line: usize)
        requires
            old(self).wf(),
            old(self).code_view().len() < usize::MAX,
            old(self).constants_view().len() <= u32::MAX,
        ensures
            final(self).wf(),
            final(self).constants_view() == old(self).constants_view().push(value),
            final(self).code_view() == old(self).code_view().push(
                if old(self).constants_view().len() < 256 {
                    OpCode::Constant(old(self).constants_view().len() as u8)
                } else {
                    OpCode::LongConstant(old(self).constants_view().len() as u32)
                },
            ),
            final(self).line_view() == old(self).line_view().push(line),
            final(self).run_count() == old(self).run_count() + if old(self).last_run_line()
                == Some(line) {
                0int
            } else {
                1int
            },
            final(self).last_run_line() == Some(line),
            final(self).line_view().len() == final(self).code_view().len(),
    {
        let index = self.add_constant(value);
        if index < 256 {
            self.write(OpCode::Constant(index as u8), line);
        } else {
            self.write(OpCode::LongConstant(index as u32), line);
        }
    }

    fn add_constant(&mut self, value: V) -> (r: usize)
        requires
            old(self).wf(),
        ensures
            final(self).wf(),
            final(self).constants@ == old(self).constants@.push(value),
            final(self).code@ == old(self).code@,
            final(self).lines@ == old(self).lines@,
            r == old(self).constants.len(),
    {
        self.constants.push(value);
        self.constants.len() - 1
    }

    /// Records `line` for an instruction just appended: the last run grows
    /// when it has that line, else a run of one starts.
    fn write_line(&mut self, line: usize)
        requires
            old(self).line_view().len() + 1 == old(self).code@.len(),
            old(self).code.len() <= usize::MAX,
            forall|k: int| 0 <= k < old(self).lines@.len() ==> #[trigger] old(self).lines@[k].count >= 1,
            forall|k: int|
                0 < k < old(self).lines@.len() ==> #[trigger] old(self).lines@[k].line != old(self).lines@[k - 1].line,
        ensures
            final(self).code@ == old(self).code@,
            final(self).constants@ == old(self).constants@,
            final(self).line_view() == old(self).line_view().push(line),
            final(self).line_view().len() == final(self).code@.len(),
            forall|k: int| 0 <= k < final(self).lines@.len() ==> #[trigger] final(self).lines@[k].count >= 1,
            forall|k: int|
                0 < k < final(self).lines@.len() ==> #[trigger] final(self).lines@[k].line != final(self).lines@[k - 1].line,
            final(self).run_count() == old(self).run_count() + if old(self).last_run_line()
                == Some(line) {
                0int
            } else {
                1int
            },
            final(self).last_run_line() == Some(line),
    {
        let ghost runs = self.lines@;
        let ghost n = runs.len() as int;
        let len = self.lines.len();
        proof {
            lemma_expand_len(runs, n);
        }
        if len == 0 || self.lines[len - 1].line != line {
            self.lines.push(LineRun { line, count: 1 });
            proof {
                lemma_expand_prefix(runs, self.lines@, n);
                assert(expand(self.lines@, n + 1) =~= expand(runs, n).push(line));
            }
        } else {
            let last = self.lines[len - 1];
            proof {
                lemma_expand_len(runs, n - 1);
            }
            self.lines.set(len - 1, LineRun { line, count: last.count + 1 });
            proof {
                lemma_expand_prefix(runs, self.lines@, n - 1);
                assert(expand(self.lines@, n) =~= expand(runs, n).push(line));
            }
        }
    }

    /// The source line of the instruction at `offset`.
    pub fn get_line(&self, offset: usize) -> (r: usize)
        requires
            self.wf(),
            offset < self.code_view().len(),
        ensures
            r == self.line_view()[offset as int],
    {
        let ghost runs = self.lines@;
        let ghost n = runs.len() as int;
        proof {
            lemma_expand_len(runs, n);
        }
        let mut k: usize = 0;
        let mut covered_so_far: usize = 0;
        while k < self.lines.len() && self.lines[k].count <= offset - covered_so_far
            invariant
                runs == self.lines@,
                n == runs.len(),
                covered(runs, n) == self.code.len(),
                0 <= k <= n,
                covered_so_far == covered(runs, k as int),
                covered_so_far <= offset,
                offset < self.code.len(),
            decreases n - k,
        {
            proof {
                lemma_covered_monotone(runs, k as int + 1, n);
            }
            covered_so_far = covered_so_far + self.lines[k].count;
            k += 1;
        }
        proof {
            if k as int == n {
                assert(false);
            }
            lemma_expand_index(runs, k as int, n, offset as int);
        }
        self.lines[k].line
    }

    /// A valid chunk has one line for each instruction.
    pub proof fn lemma_one_line_per_instruction(&self)
        requires
            self.wf(),
        ensures
            self.line_view().len() == self.code_view().len(),
    {
    }

    /// Every constant that an instruction loads is in the pool.
    pub proof fn lemma_loads_written_constants(&self, k: int)
        requires
            self.wf(),
            0 <= k < self.code_view().len(),
            constant_index(self.code_view()[k]) is Some,
        ensures
            constant_index(self.code_view()[k])->0 < self.constants_view().len(),
    {
    }

    pub fn code(&self) -> (r: &Vec<OpCode>)
        ensures
            r@ == self.code_view(),
    {
        &self.code
    }

    pub fn constants(&self) -> (r: &Vec<V>)
        ensures
            r@ == self.constants_view(),
    {
        &self.constants
    }

    /// The pieces of the disassembly line of the instruction at `offset`.
    pub fn disassemble_instruction(&self, offset: usize) -> (r: InstructionTrace)
        requires
            self.wf(),
            offset < self.code_view().len(),
        ensures
            r.offset == offset,
            r.line == if offset > 0 && self.line_view()[offset as int] == self.line_view()[offset
                - 1] {
                None
            } else {
                Some(self.line_view()[offset as int])
            },
            r.name == mnemonic(self.code_view()[offset as int]),
            r.constant == match constant_index(self.code_view()[offset as int]) {
                Some(i) => Some(i as usize),
                None => None::<usize>,
            },
    {
        let line = self.get_line(offset);
        let shown = if offset > 0 && line == self.get_line(offset - 1) {
            None
        } else {
            Some(line)
        };
        let instruction = self.code[offset];
        let constant = match instruction {
            OpCode::Constant(index) => Some(index as usize),
            OpCode::LongConstant(index) => Some(index as usize),
            _ => None,
        };
        InstructionTrace { offset, line: shown, name: instruction.name(), constant }
    }

    /// The number of runs in the line table.
    pub fn line_run_count(&self) -> (r: usize)
        ensures
            r == self.run_count(),
    {
        self.lines.len()
    }
}

} // verus!
