use stack_vm::text::render;
use stack_vm::{CompileError, Fault, FaultKind, Lexer, Op, VM};

fn malformed(index: usize, token: &str) -> Result<Vec<Op>, CompileError> {
    Err(CompileError { index, token: token.to_string() })
}

fn word(text: &str) -> Vec<char> {
    text.chars().collect()
}

#[test]
fn every_keyword_has_its_instruction() {
    assert_eq!(
        Lexer::codegen("+ - * / load store jmp cjmp . dup swap = < >"),
        Ok(vec![
            Op::Add,
            Op::Sub,
            Op::Mul,
            Op::Div,
            Op::Load,
            Op::Store,
            Op::Jmp,
            Op::CJmp,
            Op::Put,
            Op::Dup,
            Op::Swap,
            Op::Eq,
            Op::Lt,
            Op::Gt,
        ])
    );
}

#[test]
fn empty_source_is_an_empty_program() {
    assert_eq!(Lexer::codegen(""), Ok(vec![]));
    assert_eq!(Lexer::codegen(" \t\n "), Ok(vec![]));
}

#[test]
fn literals_are_signed_decimals() {
    assert_eq!(
        Lexer::codegen("0 7 -7 +7 007 -0"),
        Ok(vec![Op::Lit(0), Op::Lit(7), Op::Lit(-7), Op::Lit(7), Op::Lit(7), Op::Lit(0)])
    );
}

#[test]
fn literals_reach_both_limits() {
    assert_eq!(
        Lexer::codegen("9223372036854775807 -9223372036854775808"),
        Ok(vec![Op::Lit(i64::MAX), Op::Lit(i64::MIN)])
    );
}

#[test]
fn literal_out_of_range_is_malformed() {
    assert_eq!(Lexer::codegen("9223372036854775808"), malformed(0, "9223372036854775808"));
    assert_eq!(Lexer::codegen("1 -9223372036854775809"), malformed(1, "-9223372036854775809"));
    assert_eq!(
        Lexer::codegen("99999999999999999999999999"),
        malformed(0, "99999999999999999999999999")
    );
}

#[test]
fn labels_end_in_a_colon() {
    assert_eq!(
        Lexer::codegen("0: 1: 12: +3: 007:"),
        Ok(vec![Op::Label(0), Op::Label(1), Op::Label(12), Op::Label(3), Op::Label(7)])
    );
}

#[test]
fn label_needs_an_unsigned_number() {
    assert_eq!(Lexer::codegen("-1:"), malformed(0, "-1:"));
    assert_eq!(Lexer::codegen(":"), malformed(0, ":"));
    assert_eq!(Lexer::codegen("+:"), malformed(0, "+:"));
    assert_eq!(Lexer::codegen("label0:"), malformed(0, "label0:"));
    assert_eq!(Lexer::codegen("1::"), malformed(0, "1::"));
    assert_eq!(
        Lexer::codegen("99999999999999999999999999:"),
        malformed(0, "99999999999999999999999999:")
    );
}

#[test]
fn other_tokens_are_malformed() {
    assert_eq!(Lexer::codegen("1 2 add"), malformed(2, "add"));
    assert_eq!(Lexer::codegen("exit"), malformed(0, "exit"));
    assert_eq!(Lexer::codegen("1 ++ 2"), malformed(1, "++"));
    assert_eq!(Lexer::codegen("--1"), malformed(0, "--1"));
    assert_eq!(Lexer::codegen("1a"), malformed(0, "1a"));
    assert_eq!(Lexer::codegen("LOAD"), malformed(0, "LOAD"));
    assert_eq!(Lexer::codegen("1.5"), malformed(0, "1.5"));
}

#[test]
fn first_malformed_token_is_reported() {
    assert_eq!(Lexer::codegen("1 foo 2 bar"), malformed(1, "foo"));
    assert_eq!(Lexer::codegen("  foo"), malformed(0, "foo"));
    assert_eq!(Lexer::codegen("1 2 foo"), malformed(2, "foo"));
}

#[test]
fn tokens_are_split_at_any_white_space() {
    assert_eq!(
        Lexer::codegen("\t1\n2\r\n+ \u{a0}.\u{2003}dup\u{3000}"),
        Ok(vec![Op::Lit(1), Op::Lit(2), Op::Add, Op::Put, Op::Dup])
    );
}

#[test]
fn tokens_need_white_space_between_them() {
    assert_eq!(Lexer::codegen("1+2"), malformed(0, "1+2"));
    assert_eq!(Lexer::codegen("dup."), malformed(0, "dup."));
}

#[test]
fn characters_outside_ascii_are_no_digits() {
    assert_eq!(Lexer::codegen("1 \u{663}"), malformed(1, "\u{663}"));
    assert_eq!(Lexer::codegen("\u{e9}t\u{e9} 1"), malformed(0, "\u{e9}t\u{e9}"));
}

#[test]
fn translate_reads_one_token() {
    assert_eq!(Lexer::translate(&word("swap")), Some(Op::Swap));
    assert_eq!(Lexer::translate(&word("-")), Some(Op::Sub));
    assert_eq!(Lexer::translate(&word("-12")), Some(Op::Lit(-12)));
    assert_eq!(Lexer::translate(&word("4:")), Some(Op::Label(4)));
    assert_eq!(Lexer::translate(&word("")), None);
    assert_eq!(Lexer::translate(&word("4 :")), None);
}

#[test]
fn compiled_addition_yields_the_sum() {
    let program = Lexer::codegen("1 2 +").unwrap();
    assert_eq!(program, vec![Op::Lit(1), Op::Lit(2), Op::Add]);
    let mut vm = VM::new();
    assert_eq!(vm.excecute(&program), Ok(Some(3)));
}

#[test]
fn compiled_addition_of_rendered_numbers() {
    for (a, b) in [(0, 0), (-1, 1), (i64::MAX, i64::MIN), (123456789, -987654321), (i64::MIN, 0)] {
        let source = format!("{} {} +", render(a), render(b));
        let program = Lexer::codegen(&source).unwrap();
        assert_eq!(program, vec![Op::Lit(a), Op::Lit(b), Op::Add]);
        let mut vm = VM::new();
        assert_eq!(vm.excecute(&program), Ok(Some(a + b)));
    }
}

#[test]
fn compiled_put_emits_one_line() {
    let program = Lexer::codegen("-250 .").unwrap();
    let mut vm = VM::new();
    assert_eq!(vm.excecute(&program), Ok(None));
    assert_eq!(vm.take_lines(), vec!["-250".to_string()]);
    assert!(vm.output().is_empty());
    assert!(vm.stack().is_empty());
}

#[test]
fn countdown_from_ten() {
    let source = "10 0 store 0: 0 load . 1 0 load - 0 store 0 load 0 cjmp";
    let program = Lexer::codegen(source).unwrap();
    let mut vm = VM::new();
    assert_eq!(vm.excecute(&program), Ok(None));
    assert_eq!(vm.output(), &vec![10, 9, 8, 7, 6, 5, 4, 3, 2, 1]);
    assert_eq!(vm.take_lines(), vec!["10", "9", "8", "7", "6", "5", "4", "3", "2", "1"]);
    assert_eq!(vm.memory(), &vec![0]);
    assert!(vm.stack().is_empty());
}

#[test]
fn countdown_with_words_for_labels_does_not_compile() {
    let source = "10 0 store label0: 0 load . 1 0 load - 0 store 0 load cjmp 0 exit";
    assert_eq!(Lexer::codegen(source), malformed(3, "label0:"));
}

#[test]
fn endless_loop_runs_out_of_fuel() {
    let program = Lexer::codegen("0: 0 jmp").unwrap();
    let mut vm = VM::new();
    assert_eq!(vm.index_labels(&program), Ok(()));
    assert_eq!(
        vm.run(&program, 0, 1000),
        Err(Fault { kind: FaultKind::StepLimit, at: 1 })
    );
}

#[test]
fn render_writes_decimal_forms() {
    assert_eq!(render(0), "0");
    assert_eq!(render(7), "7");
    assert_eq!(render(-7), "-7");
    assert_eq!(render(10), "10");
    assert_eq!(render(1234567890), "1234567890");
    assert_eq!(render(i64::MAX), "9223372036854775807");
    assert_eq!(render(i64::MIN), "-9223372036854775808");
}

#[test]
fn render_agrees_with_the_standard_formatting() {
    for v in [0, 1, -1, 9, 10, 99, 100, -100, 4096, i64::MAX, i64::MIN, i64::MIN + 1] {
        assert_eq!(render(v), format!("{}", v));
    }
}

#[test]
fn literals_read_as_the_standard_parser_reads_them() {
    for text in ["0", "-0", "+0", "12", "+12", "-12", "0012", "9223372036854775807", "-9223372036854775808"] {
        let expected = text.parse::<i64>().unwrap();
        assert_eq!(Lexer::codegen(text), Ok(vec![Op::Lit(expected)]));
    }
    for text in ["", "+", "-", "+-1", "1_000", "0x10", "9223372036854775808", "1e3", " 1"] {
        assert!(text.parse::<i64>().is_err());
    }
}
