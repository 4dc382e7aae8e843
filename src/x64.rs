use vstd::prelude::*;

verus! {

/// The general-purpose registers.
#[derive(Debug, PartialEq, Eq, Structural, Clone, Copy)]
pub enum Register {
    Rax,
    Rbx,
    Rcx,
    Rdx,
    Rsi,
    Rdi,
    Rbp,
    Rsp,
    R8,
    R9,
    R10,
    R11,
    R12,
    R13,
    R14,
    R15,
}

/// `[base + index * scale + displacement]`
#[derive(Debug)]
pub struct MemoryOperand {
    pub base: Option<Register>,
    pub index: Option<Register>,
    pub scale: Option<u8>,
    pub displacement: i32,
}

#[derive(Debug)]
pub enum Operand {
    Register(Register),
    Immediate(i64),
    Memory(Box<MemoryOperand>),
}

/// The target instructions.
#[derive(Debug)]
pub enum Instruction {
    Mov { dest: Operand, source: Operand },
    Push { operand: Operand },
    Pop { operand: Operand },
    Add { dest: Operand, source: Operand },
    Sub { dest: Operand, source: Operand },
    Imul { dest: Operand, source: Operand },
    Idiv { divisor: Operand },
    Inc { operand: Operand },
    Dec { operand: Operand },
    And { dest: Operand, source: Operand },
    Or { dest: Operand, source: Operand },
    Xor { dest: Operand, source: Operand },
    Not { operand: Operand },
    Shl { dest: Operand, count: Operand },
    Shr { dest: Operand, count: Operand },
    Sar { dest: Operand, count: Operand },
    Jmp { target: Operand },
    Je { target: Operand },
    Jne { target: Operand },
    Jl { target: Operand },
    Jle { target: Operand },
    Jg { target: Operand },
    Jge { target: Operand },
    Call { target: Operand },
    Ret,
    Cmp { left: Operand, right: Operand },
    Test { left: Operand, right: Operand },
    Enter { stack_space: u16, nesting_level: u8 },
    Leave,
    Syscall,
}

} // verus!
