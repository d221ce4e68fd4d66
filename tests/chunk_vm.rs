use lox::chunk::{Chunk, OpCode};
use lox::compiler::{CompileError, Compiler};
use lox::error::{error_type, exit_code, is_compile_err, LoxError};
use lox::location::Loc;
use lox::scanner::ScanningError;
use lox::vm::{BinaryOp, RuntimeError, Step, VM};

fn apply(op: BinaryOp, a: f64, b: f64) -> f64 {
    match op {
        BinaryOp::Add => a + b,
        BinaryOp::Subtract => a - b,
        BinaryOp::Multiply => a * b,
        BinaryOp::Divide => a / b,
        BinaryOp::Modulo => a % b,
    }
}

fn run(chunk: Chunk<f64>) -> Result<f64, RuntimeError> {
    let mut vm = VM::new();
    vm.load(chunk);
    loop {
        match vm.step()? {
            Step::Continue => {}
            Step::Binary(op, a, b) => vm.push(apply(op, a, b)),
            Step::Negate(v) => vm.push(-v),
            Step::Return(v) => return Ok(v),
        }
    }
}

#[test]
fn test_line_index_runs() {
    let mut chunk: Chunk<f64> = Chunk::new();
    for line in [1, 1, 1, 2, 2, 3] {
        chunk.write(OpCode::Return, line);
    }
    let lines: Vec<usize> = (0..6).map(|offset| chunk.get_line(offset)).collect();
    assert_eq!(vec![1, 1, 1, 2, 2, 3], lines);
    assert_eq!(3, chunk.line_run_count());
}

#[test]
fn test_line_index_returning_line() {
    let mut chunk: Chunk<f64> = Chunk::new();
    for line in [4, 7, 4] {
        chunk.write(OpCode::Add, line);
    }
    assert_eq!(3, chunk.line_run_count());
    assert_eq!(4, chunk.get_line(0));
    assert_eq!(7, chunk.get_line(1));
    assert_eq!(4, chunk.get_line(2));
}

#[test]
fn test_constant_threshold() {
    let mut chunk: Chunk<f64> = Chunk::new();
    for i in 0..257 {
        chunk.write_constant(i as f64, 1);
    }
    for i in 0..256 {
        assert_eq!(OpCode::Constant(i as u8), chunk.code()[i]);
    }
    assert_eq!(OpCode::LongConstant(256), chunk.code()[256]);
    assert_eq!(257, chunk.constants().len());
    assert_eq!(256.0, chunk.constants()[256]);
    assert_eq!(1, chunk.line_run_count());
}

#[test]
fn test_disassembly_pieces() {
    let mut chunk: Chunk<f64> = Chunk::new();
    chunk.write_constant(1.5, 10);
    chunk.write(OpCode::Negate, 10);
    chunk.write(OpCode::Return, 11);
    let first = chunk.disassemble_instruction(0);
    assert_eq!(0, first.offset);
    assert_eq!(Some(10), first.line);
    assert_eq!("OP_CONSTANT", first.name);
    assert_eq!(Some(0), first.constant);
    let second = chunk.disassemble_instruction(1);
    assert_eq!(None, second.line);
    assert_eq!("OP_NEGATE", second.name);
    assert_eq!(None, second.constant);
    let third = chunk.disassemble_instruction(2);
    assert_eq!(Some(11), third.line);
    assert_eq!("OP_RETURN", third.name);
}

#[test]
fn test_mnemonics() {
    assert_eq!("OP_CONSTANT_LONG", OpCode::LongConstant(300).name());
    assert_eq!("OP_ADD", OpCode::Add.name());
    assert_eq!("OP_SUBTRACT", OpCode::Subtract.name());
    assert_eq!("OP_MULTIPLY", OpCode::Multiply.name());
    assert_eq!("OP_DIVIDE", OpCode::Divide.name());
    assert_eq!("OP_MODULO", OpCode::Modulo.name());
}

#[test]
fn test_vm_arithmetic() {
    let mut chunk: Chunk<f64> = Chunk::new();
    chunk.write_constant(1.2, 1);
    chunk.write_constant(3.4, 1);
    chunk.write(OpCode::Add, 1);
    chunk.write_constant(5.6, 1);
    chunk.write(OpCode::Divide, 1);
    chunk.write(OpCode::Negate, 1);
    chunk.write(OpCode::Return, 1);
    assert_eq!(Ok(-((1.2 + 3.4) / 5.6)), run(chunk));
}

#[test]
fn test_vm_example() {
    let mut chunk: Chunk<f64> = Chunk::new();
    chunk.write_constant(3.5, 123);
    chunk.write(OpCode::Return, 123);
    assert_eq!(Ok(3.5), run(chunk));
}

#[test]
fn test_vm_operand_order() {
    let mut chunk: Chunk<f64> = Chunk::new();
    chunk.write_constant(7.0, 1);
    chunk.write_constant(2.0, 1);
    chunk.write(OpCode::Subtract, 1);
    chunk.write_constant(4.0, 1);
    chunk.write(OpCode::Modulo, 1);
    chunk.write(OpCode::Return, 1);
    assert_eq!(Ok(1.0), run(chunk));
}

#[test]
fn test_vm_stack_underflow() {
    let mut chunk: Chunk<f64> = Chunk::new();
    chunk.write_constant(1.0, 1);
    chunk.write(OpCode::Multiply, 1);
    assert_eq!(Err(RuntimeError::StackUnderflow), run(chunk));
}

#[test]
fn test_vm_missing_return() {
    let mut chunk: Chunk<f64> = Chunk::new();
    chunk.write_constant(1.0, 1);
    let mut vm = VM::new();
    vm.load(chunk);
    assert_eq!(Ok(Step::Continue), vm.step());
    assert_eq!(vec![1.0], *vm.stack());
    assert_eq!(1, vm.offset());
    assert_eq!(Err(RuntimeError::MissingReturn), vm.step());
}

#[test]
fn test_vm_load_resets_stack() {
    let mut first: Chunk<f64> = Chunk::new();
    first.write_constant(1.0, 1);
    let mut vm = VM::new();
    vm.load(first);
    assert_eq!(Ok(Step::Continue), vm.step());
    let mut second: Chunk<f64> = Chunk::new();
    second.write(OpCode::Return, 1);
    vm.load(second);
    assert_eq!(0, vm.stack().len());
    assert_eq!(Err(RuntimeError::StackUnderflow), vm.step());
}

#[test]
fn test_compile_ok_gives_empty_chunk() {
    let chunk = Compiler::compile::<f64>("var a = 1 + 2;").unwrap();
    assert_eq!(0, chunk.code().len());
    assert_eq!(0, chunk.constants().len());
}

#[test]
fn test_compile_lexical_error() {
    let r = Compiler::compile::<f64>("print \"abc");
    assert_eq!(
        Some(CompileError::Lexical(ScanningError::UnterminatedString(Loc::new(0, 10)))),
        r.err()
    );
}

#[test]
fn test_exit_codes() {
    let scanning = LoxError::Scanning(ScanningError::UnterminatedString(Loc::new(0, 1)));
    let compile = LoxError::Compile(CompileError::Lexical(
        ScanningError::UnterminatedBlockComment(Loc::new(2, 3)),
    ));
    let runtime = LoxError::Runtime(RuntimeError::StackUnderflow);
    assert_eq!(65, exit_code(&scanning));
    assert_eq!(65, exit_code(&compile));
    assert_eq!(70, exit_code(&runtime));
    assert_eq!(1, exit_code(&LoxError::Other));
    assert!(is_compile_err(&scanning));
    assert!(!is_compile_err(&runtime));
    assert_eq!("CompileError", error_type(&compile));
    assert_eq!("RuntimeError", error_type(&runtime));
    assert_eq!("Error", error_type(&LoxError::Other));
}
