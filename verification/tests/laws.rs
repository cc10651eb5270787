use kyanite::ast::{Access, Decl, FuncDecl, Ident, If, Init, Initializer, Literal, RecordDecl, Return, TypeRef, VarDecl};
use kyanite::isa::A64;
use kyanite::registers::Registers;
use kyanite::symbol::{Symbol, SymbolTable};
use kyanite::token::{Kind, Span, Token};
use kyanite::translate::{Expr, Label, Stmt, Temp, Translator};

fn name(text: &str) -> Token {
    Token::new(Kind::Identifier, Some(text.to_string()), Span::new(1, 0, text.len()))
}

fn int_type() -> TypeRef {
    TypeRef { name: name("int"), params: Vec::new() }
}

fn lit(value: i64) -> kyanite::ast::Expr {
    Literal::integer(value, Token::new(Kind::Literal, Some(value.to_string()), Span::new(1, 0, 1)))
}

fn function(fname: &str, body: Vec<kyanite::ast::Stmt>, id: usize) -> Decl {
    FuncDecl::wrapped(name(fname), Vec::new(), None, Vec::new(), body, false, id)
}

fn labels(s: &Stmt, out: &mut Vec<String>) {
    match s {
        Stmt::Label(l) => out.push(l.clone()),
        Stmt::Sequence { left, right } => {
            labels(left, out);
            if let Some(r) = right {
                labels(r, out);
            }
        }
        _ => {}
    }
}

#[test]
fn law_names_distinct_on_values() {
    assert_ne!(Temp::new(1), Temp::new(10));
    assert_ne!(Label::new(3), Label::new(30));
    assert_ne!(Temp::new(3), Label::new(3));
    assert_eq!(Temp::new(12), Temp::new(12));
}

#[test]
fn law_last_declaration_wins_on_values() {
    let builtins = vec![function("print", Vec::new(), 0)];
    let nodes = vec![
        RecordDecl::wrapped(name("print"), Vec::new()),
        function("main", Vec::new(), 1),
    ];
    let table = SymbolTable::from(&builtins, &nodes);
    match table.get("print") {
        Some(Symbol::Record(r)) => assert_eq!(r.name.text(), "print"),
        _ => panic!("the program's record shadows the built-in function"),
    }
    match table.get("main") {
        Some(symbol) => assert_eq!(symbol.function().id, 1),
        None => panic!("main is declared"),
    }
    assert!(table.get("missing").is_none());
}

#[test]
fn law_no_memory_to_memory_on_values() {
    let body = vec![
        VarDecl::wrapped(name("x"), int_type(), lit(1)),
        VarDecl::wrapped(name("y"), int_type(), Ident::wrapped(name("x"))),
    ];
    let program = vec![function("main", body, 0)];
    let mut translator = Translator::new(Vec::new(), Vec::new());
    let ir = translator.translate(&program);
    let mut moves = Vec::new();
    fn collect<'a>(s: &'a Stmt, out: &mut Vec<&'a Stmt>) {
        match s {
            Stmt::Sequence { left, right } => {
                collect(left, out);
                if let Some(r) = right {
                    collect(r, out);
                }
            }
            Stmt::Move { .. } => out.push(s),
            _ => {}
        }
    }
    collect(&ir[0], &mut moves);
    assert_eq!(moves.len(), 2);
    match moves[1] {
        Stmt::Move { target, expr } => {
            assert!(matches!(**target, Expr::Mem(_)));
            match &**expr {
                Expr::ESeq { stmt, expr, .. } => {
                    assert!(matches!(**expr, Expr::Temp(_)));
                    match &**stmt {
                        Stmt::Move { target: t, expr: source } => {
                            assert!(matches!(**t, Expr::Temp(_)));
                            assert!(matches!(**source, Expr::Mem(_)), "the temporary receives the word, not its address");
                        }
                        _ => panic!("the temporary is loaded by a move"),
                    }
                }
                _ => panic!("a read from memory into memory goes through a temporary"),
            }
        }
        _ => unreachable!(),
    }
}

#[test]
fn law_fresh_labels_on_values() {
    let body = vec![
        If::wrapped(lit(1), vec![VarDecl::wrapped(name("a"), int_type(), lit(2))], Vec::new()),
        If::wrapped(lit(0), Vec::new(), vec![If::wrapped(lit(1), Vec::new(), Vec::new())]),
    ];
    let program = vec![function("main", body, 0), function("other", Vec::new(), 1)];
    let mut translator = Translator::new(Vec::new(), Vec::new());
    let ir = translator.translate(&program);
    let mut found = Vec::new();
    for s in &ir {
        labels(s, &mut found);
    }
    assert_eq!(found[0], "main");
    assert!(found.contains(&"other".to_string()));
    let generated: Vec<&String> = found.iter().filter(|l| l.starts_with('L')).collect();
    assert_eq!(generated.len(), 9);
    for (i, a) in generated.iter().enumerate() {
        for b in generated.iter().skip(i + 1) {
            assert_ne!(a, b);
        }
    }
    for k in 0..9 {
        assert!(found.contains(&Label::new(k)));
    }
}

#[test]
fn law_format_renames_registers_on_values() {
    let registers = Registers::new(vec![("T1".to_string(), "x1".to_string()), ("T2".to_string(), "x2".to_string())]);
    let before = A64::store(String::from("T1"), String::from("T2"), 8);
    assert_eq!(before.uses(), vec!["T1".to_string(), "T2".to_string()]);
    let after = before.format(&registers);
    assert_eq!(after.uses(), vec!["x1".to_string(), "x2".to_string()]);
    let jump = A64::conditional_jump(String::from("T1"), kyanite::translate::RelOp::NotEqual).format(&registers);
    assert_eq!(jump.to(), Some("T1".to_string()));
    assert!(jump.jump());
}

#[test]
fn field_access_reads_the_field_word() {
    let point = Init::wrapped(
        name("Point"),
        vec![Initializer::new(name("x"), lit(1)), Initializer::new(name("y"), lit(2))],
        (name("("), name(")")),
    );
    let read = Access::wrapped(vec![Ident::wrapped(name("p")), Ident::wrapped(name("y"))], 0);
    let body = vec![
        VarDecl::wrapped(name("p"), TypeRef { name: name("Point"), params: Vec::new() }, point),
        Return::wrapped(read, name("return")),
    ];
    let program = vec![function("main", body, 0)];
    let records = vec![(
        "Point".to_string(),
        vec![("x".to_string(), "int".to_string()), ("y".to_string(), "int".to_string())],
    )];
    let mut translator = Translator::new(vec![(0, "Point".to_string())], records);
    let ir = translator.translate(&program);
    let mut moves = Vec::new();
    fn collect<'a>(s: &'a Stmt, out: &mut Vec<&'a Stmt>) {
        match s {
            Stmt::Sequence { left, right } => {
                collect(left, out);
                if let Some(r) = right {
                    collect(r, out);
                }
            }
            Stmt::Move { .. } => out.push(s),
            _ => {}
        }
    }
    collect(&ir[0], &mut moves);
    assert_eq!(moves.len(), 2);
    match moves[1] {
        Stmt::Move { target, expr } => {
            assert_eq!(target.temp(), Some("rax".to_string()));
            match &**expr {
                Expr::ESeq { stmt, expr: field, .. } => {
                    match &**stmt {
                        Stmt::Move { target: t, expr: source } => {
                            assert!(matches!(**t, Expr::Temp(_)));
                            match &**source {
                                Expr::Mem(address) => match &**address {
                                    Expr::Binary { right, .. } => assert_eq!(right.integer(), Some(-8)),
                                    _ => panic!("the local's slot"),
                                },
                                _ => panic!("the start offset is read from the local"),
                            }
                        }
                        _ => panic!("a move into the temporary"),
                    }
                    match &**field {
                        Expr::Mem(address) => match &**address {
                            Expr::Binary { left, right, .. } => {
                                assert_eq!(left.temp(), Some("rbp".to_string()));
                                match &**right {
                                    Expr::Binary { right: disp, .. } => assert_eq!(disp.integer(), Some(0)),
                                    _ => panic!("offset plus displacement"),
                                }
                            }
                            _ => panic!("an address"),
                        },
                        _ => panic!("the field's word"),
                    }
                }
                _ => panic!("the access is a statement-expression"),
            }
        }
        _ => unreachable!(),
    }
}
