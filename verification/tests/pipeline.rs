use std::collections::VecDeque;

use kyanite::ast::Decl;
use kyanite::codegen::{assemble_program, frame_codes, Codegen, FrameCode, Target};
use kyanite::error::Source;
use kyanite::parse::Parser;
use kyanite::registers::Registers;
use kyanite::symbol::SymbolTable;
use kyanite::token::{Kind, Span, Token};
use kyanite::translate::{Label, Stmt, Temp, Translator};

fn tok(kind: Kind, text: &str, column: usize) -> Token {
    let lexeme = if text.is_empty() { None } else { Some(text.to_string()) };
    Token::new(kind, lexeme, Span::new(1, column, text.len()))
}

/// `fun main(): int { let x: int = 1; return x + 2; }`
fn main_tokens() -> VecDeque<Token> {
    VecDeque::from(vec![
        tok(Kind::Fun, "fun", 0),
        tok(Kind::Identifier, "main", 4),
        tok(Kind::LeftParen, "(", 8),
        tok(Kind::RightParen, ")", 9),
        tok(Kind::Colon, ":", 10),
        tok(Kind::Identifier, "int", 12),
        tok(Kind::LeftBrace, "{", 16),
        tok(Kind::Let, "let", 18),
        tok(Kind::Identifier, "x", 22),
        tok(Kind::Colon, ":", 23),
        tok(Kind::Identifier, "int", 25),
        tok(Kind::Equal, "=", 29),
        tok(Kind::Literal, "1", 31),
        tok(Kind::Semicolon, ";", 32),
        tok(Kind::Return, "return", 34),
        tok(Kind::Identifier, "x", 41),
        tok(Kind::Plus, "+", 43),
        tok(Kind::Literal, "2", 45),
        tok(Kind::Semicolon, ";", 46),
        tok(Kind::RightBrace, "}", 48),
        tok(Kind::Eof, "", 49),
    ])
}

fn main_source() -> Source {
    Source::new(vec!["fun main(): int { let x: int = 1; return x + 2; }".to_string()])
}

fn parse_main(source: &Source) -> Vec<Decl> {
    let mut parser = Parser::new(source, main_tokens());
    match parser.parse() {
        Ok(decls) => decls,
        Err(errors) => panic!("unexpected diagnostics: {}", errors.len()),
    }
}

const MAIN_LISTING: &str = "main:  \npushq %rbp \nmovq %rsp, %rbp\nsubq $8, %rsp\nmovq $1, T0\nmovq T0, -8(%rbp)\nmovq $2, T1\nmovq -8(%rbp), T2\naddq T1, T2\nmovq T2, rax\nmain.epilogue:  \nmovq %rbp, %rsp\npopq %rbp \nret  \n";

#[test]
fn parse_function_declaration() {
    let source = main_source();
    let decls = parse_main(&source);
    assert_eq!(decls.len(), 1);
    match &decls[0] {
        Decl::Function(f) => {
            assert_eq!(f.name.text(), "main");
            assert!(f.params.is_empty());
            assert_eq!(f.body.len(), 2);
            assert!(!f.external);
            match &f.ty {
                Some(ty) => assert_eq!(ty.name.text(), "int"),
                None => panic!("missing return type"),
            }
        }
        _ => panic!("expected a function"),
    }
}

#[test]
fn parse_reports_missing_parenthesis() {
    let source = Source::new(vec!["fun main {".to_string()]);
    let tokens = VecDeque::from(vec![
        tok(Kind::Fun, "fun", 0),
        tok(Kind::Identifier, "main", 4),
        tok(Kind::LeftBrace, "{", 9),
        tok(Kind::Eof, "", 10),
    ]);
    let mut parser = Parser::new(&source, tokens);
    let result = parser.parse();
    match result {
        Ok(_) => panic!("expected a diagnostic"),
        Err(errors) => {
            assert_eq!(errors.len(), 1);
            assert_eq!(errors[0].heading(), "expected ( but found {");
            assert_eq!(errors[0].text(), "expected ( here");
            assert_eq!(errors[0].line(), "fun main {");
            assert_eq!(errors[0].span().column, 9);
        }
    }
}

#[test]
fn parse_rejects_a_stray_token() {
    let source = Source::new(vec!["return".to_string()]);
    let tokens = VecDeque::from(vec![tok(Kind::Return, "return", 0), tok(Kind::Eof, "", 6)]);
    let mut parser = Parser::new(&source, tokens);
    match parser.parse() {
        Ok(_) => panic!("expected a diagnostic"),
        Err(errors) => {
            assert_eq!(errors.len(), 1);
            assert_eq!(errors[0].heading(), "unexpected return");
        }
    }
}

#[test]
fn parse_of_nothing_is_empty() {
    let source = Source::new(vec![String::new()]);
    let mut parser = Parser::new(&source, VecDeque::from(vec![tok(Kind::Eof, "", 0)]));
    match parser.parse() {
        Ok(decls) => assert!(decls.is_empty()),
        Err(_) => panic!("no diagnostic expected"),
    }
}

#[test]
fn symbol_table_resolves_functions() {
    let source = main_source();
    let decls = parse_main(&source);
    let builtins: Vec<Decl> = Vec::new();
    let table = SymbolTable::from(&builtins, &decls);
    match table.get("main") {
        Some(symbol) => assert_eq!(symbol.function().name.text(), "main"),
        None => panic!("main is declared"),
    }
    assert!(table.get("other").is_none());
}

#[test]
fn temporaries_and_labels_are_numbered() {
    assert_eq!(Temp::new(0), "T0");
    assert_eq!(Temp::new(42), "T42");
    assert_eq!(Label::new(7), "L7");
}

#[test]
fn translate_function_into_label_and_moves() {
    let source = main_source();
    let decls = parse_main(&source);
    let mut translator = Translator::new(Vec::new(), Vec::new());
    let ir = translator.translate(&decls);
    assert_eq!(ir.len(), 1);
    assert_eq!(ir[0].label(), "main");
    assert_eq!(translator.functions().len(), 1);
    assert_eq!(translator.functions()[0].1.size, 8);
    assert_eq!(translator.functions()[0].1.get_offset("x"), Some(-8));
    match &ir[0] {
        Stmt::Sequence { right: Some(_), .. } => {}
        _ => panic!("expected the label followed by the body"),
    }
}

#[test]
fn codegen_selects_instructions_for_a_function() {
    let source = main_source();
    let decls = parse_main(&source);
    let mut translator = Translator::new(Vec::new(), Vec::new());
    let ir = translator.translate(&decls);
    let functions = frame_codes(translator.functions());
    let mut codegen = Codegen::new(functions, &decls, Target::x86_64(), translator.temps());
    codegen.assembly(ir);
    let instructions = codegen.instructions();
    assert_eq!(instructions.len(), 14);
    for (k, instr) in instructions.iter().enumerate() {
        assert_eq!(instr.id(), k);
    }
    assert_eq!(instructions[0].label(), Some("main".to_string()));
    assert_eq!(instructions[10].label(), Some("main.epilogue".to_string()));
    assert_eq!(instructions[0].operands(), 0);
    assert_eq!(instructions[1].operands(), 1);
    assert_eq!(instructions[2].operands(), 2);
    let text = codegen.format(&Registers::new(Vec::new()));
    assert_eq!(text, MAIN_LISTING);
}

#[test]
fn assemble_program_with_registers() {
    let source = main_source();
    let decls = parse_main(&source);
    let registers = Registers::new(vec![
        ("T0".to_string(), "%rcx".to_string()),
        ("T1".to_string(), "%rdx".to_string()),
        ("T2".to_string(), "%rax".to_string()),
        ("rax".to_string(), "%rax".to_string()),
    ]);
    let text = assemble_program(&decls, Vec::new(), Vec::new(), &registers);
    let expected = MAIN_LISTING
        .replace("T0", "%rcx")
        .replace("T1", "%rdx")
        .replace("T2", "%rax")
        .replace(", rax", ", %rax");
    assert_eq!(text, expected);
}

#[test]
fn x86_frame_code() {
    let code = FrameCode::x86_64(16);
    assert_eq!(code.prologue.len(), 3);
    assert_eq!(code.epilogue.len(), 3);
    let target = Target::x86_64();
    assert_eq!(target.arguments[0], "%rdi");
    assert_eq!(target.arguments.len(), 6);
    assert_eq!(target.ret, "rax");
}

#[test]
fn law_parse_keeps_diagnostics() {
    let source = Source::new(vec!["return fun".to_string()]);
    let tokens = VecDeque::from(vec![
        tok(Kind::Return, "return", 0),
        tok(Kind::Fun, "fun", 7),
        tok(Kind::Eof, "", 10),
    ]);
    let mut parser = Parser::new(&source, tokens);
    let first: Vec<String> = match parser.parse() {
        Ok(_) => panic!("expected diagnostics"),
        Err(errors) => errors.iter().map(|e| e.heading().clone()).collect(),
    };
    assert!(!first.is_empty());
    assert_eq!(first[0], "unexpected return");
    let second: Vec<String> = match parser.parse() {
        Ok(_) => panic!("the diagnostics stay"),
        Err(errors) => errors.iter().map(|e| e.heading().clone()).collect(),
    };
    assert!(second.len() >= first.len());
    assert_eq!(second[..first.len()], first[..]);
    assert_eq!(parser.errors().len(), second.len());
}
