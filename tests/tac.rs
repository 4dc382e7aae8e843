use minic::basic_block::BasicBlock;
use minic::tac::{Instruction, Operand, Operator};

#[test]
fn test_assign() {
    {
        let tac1 = Instruction::Assign1 {
            lhs: Operand::Variable(String::from("var")),
            rhs: Some(Operand::Constant(5)),
        };
        assert_eq!(tac1.to_string(), "var = 5");
    }
    {
        let tac2 = Instruction::Assign1 {
            lhs: Operand::Variable(String::from("var1")),
            rhs: Some(Operand::Variable(String::from("var2"))),
        };
        assert_eq!(tac2.to_string(), "var1 = var2");
    }
    {
        let tac2 = Instruction::Assign2 {
            lhs: Operand::Variable(String::from("var1")),
            rhs1: Operand::Variable(String::from("var2")),
            op: Operator::Add,
            rhs2: Operand::Variable(String::from("var3")),
        };
        assert_eq!(tac2.to_string(), "var1 = var2 + var3");
    }
    {
        let tac2 = Instruction::Assign2 {
            lhs: Operand::Variable(String::from("var1")),
            rhs1: Operand::Variable(String::from("var2")),
            op: Operator::Add,
            rhs2: Operand::Constant(3),
        };
        assert_eq!(tac2.to_string(), "var1 = var2 + 3");
    }
    {
        let tac2 = Instruction::Assign2 {
            lhs: Operand::Variable(String::from("var1")),
            rhs1: Operand::Constant(3),
            op: Operator::Add,
            rhs2: Operand::Variable(String::from("var2")),
        };
        assert_eq!(tac2.to_string(), "var1 = 3 + var2");
    }
    {
        let tac3 = Instruction::Ifz {
            condition: Operand::Variable(String::from("_t0")),
            target: Operand::Label(String::from("L1")),
        };
        assert_eq!(tac3.to_string(), "Ifz _t0 Goto L1");
    }
}

#[test]
fn constants_and_other_operators() {
    let tac = Instruction::Assign2 {
        lhs: Operand::Variable(String::from("t")),
        rhs1: Operand::Constant(-4),
        op: Operator::Lte,
        rhs2: Operand::Constant(10),
    };
    assert_eq!(tac.to_string(), "t = -4 <= 10");
}

#[test]
fn new_basic_block_is_empty() {
    let b = BasicBlock::new(7);
    assert_eq!(b.id, 7);
    assert!(b.instructions.is_empty());
    assert!(b.predecessors.is_empty());
    assert!(b.successors.is_empty());
}
