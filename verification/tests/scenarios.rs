use phpfmt::ast::ArgumentList;
use phpfmt::ast::BlockStatement;
use phpfmt::ast::CallExpr;
use phpfmt::ast::Expression;
use phpfmt::ast::ExpressionStatement;
use phpfmt::ast::FunctionCall;
use phpfmt::ast::FunctionDecl;
use phpfmt::ast::InstantiationExpr;
use phpfmt::ast::MethodCall;
use phpfmt::ast::ParameterList;
use phpfmt::ast::Program;
use phpfmt::ast::Statement;
use phpfmt::ast::WhileLoop;
use phpfmt::comments::CommentIndex;
use phpfmt::format::format_expression_to_string;
use phpfmt::format::format_program;
use phpfmt::settings::Settings;
use phpfmt::span::Span;

fn ch(s: &str) -> Vec<char> {
    s.chars().collect()
}

fn sp() -> Span {
    Span::new(0, 0)
}

fn empty_index() -> CommentIndex {
    CommentIndex::new(Vec::new(), Vec::new())
}

fn empty_params() -> ParameterList {
    ParameterList { left_parenthesis: sp(), parameters: Vec::new(), right_parenthesis: sp() }
}

fn args(list: Vec<Expression>) -> ArgumentList {
    ArgumentList { left_parenthesis: sp(), arguments: list, right_parenthesis: sp() }
}

fn call(callee: &str, list: Vec<Expression>) -> Expression {
    Expression::Call(Box::new(CallExpr::Function(FunctionCall {
        callee: Expression::Literal(ch(callee)),
        arguments: args(list),
    })))
}

fn method(object: Expression, name: &str) -> Expression {
    Expression::Call(Box::new(CallExpr::Method(MethodCall {
        object,
        method: ch(name),
        arguments: args(Vec::new()),
    })))
}

fn expr_stmt(e: Expression) -> Statement {
    Statement::Expression(Box::new(ExpressionStatement { expression: e, span: sp() }))
}

fn program(stmts: Vec<Statement>) -> Program {
    Program { statements: stmts }
}

#[test]
fn empty_function_body_breaks() {
    let decl = FunctionDecl {
        name: ch("f"),
        parameters: empty_params(),
        left_brace: sp(),
        body: Vec::new(),
        right_brace: sp(),
        span: sp(),
    };
    let p = program(vec![Statement::Function(Box::new(decl))]);
    let out = format_program(&p, empty_index(), Settings::standard());
    assert_eq!(out, "function f() {\n}\n");
}

#[test]
fn empty_while_body_stays_compact() {
    let block = BlockStatement {
        left_brace: sp(),
        statements: Vec::new(),
        right_brace: sp(),
        span: sp(),
    };
    let w = WhileLoop {
        condition: Expression::Literal(ch("true")),
        body: Statement::Block(Box::new(block)),
        span: sp(),
    };
    let p = program(vec![Statement::While(Box::new(w))]);
    let out = format_program(&p, empty_index(), Settings::standard());
    assert_eq!(out, "while (true) {}\n");
}

#[test]
fn single_argument_hug() {
    let e = call("foo", vec![Expression::Variable(ch("$x"))]);
    let p = program(vec![expr_stmt(e)]);
    let out = format_program(&p, empty_index(), Settings::standard());
    assert_eq!(out, "foo($x);\n");
}

#[test]
fn two_arguments_break_with_trailing_comma() {
    let e = call(
        "foo",
        vec![
            Expression::Variable(ch("$veryLongArgumentName")),
            Expression::Variable(ch("$anotherLongArgumentName")),
        ],
    );
    let mut settings = Settings::standard();
    settings.print_width = 40;
    let out = format_expression_to_string(&e, empty_index(), settings);
    assert_eq!(out, "foo(\n    $veryLongArgumentName,\n    $anotherLongArgumentName,\n)\n");
}

#[test]
fn two_short_arguments_stay_flat_without_comma() {
    let e = call("foo", vec![Expression::Variable(ch("$a")), Expression::Variable(ch("$b"))]);
    let out = format_expression_to_string(&e, empty_index(), Settings::standard());
    assert_eq!(out, "foo($a, $b)\n");
}

#[test]
fn method_chain_same_line() {
    let e = method(method(method(Expression::Variable(ch("$a")), "b"), "c"), "d");
    let p = program(vec![expr_stmt(e)]);
    let out = format_program(&p, empty_index(), Settings::standard());
    assert_eq!(out, "$a->b()\n    ->c()\n    ->d();\n");
}

#[test]
fn method_chain_instantiation_base_parenthesized() {
    let base = Expression::Instantiation(Box::new(InstantiationExpr {
        class: Expression::Literal(ch("Foo")),
        arguments: Some(args(Vec::new())),
    }));
    let e = method(method(base, "bar"), "baz");
    let p = program(vec![expr_stmt(e)]);
    let out = format_program(&p, empty_index(), Settings::standard());
    assert_eq!(out, "(new Foo())->bar()\n    ->baz();\n");
}

#[test]
fn noop_statement_prints_semicolon() {
    let p = program(vec![Statement::Noop(sp())]);
    let out = format_program(&p, empty_index(), Settings::standard());
    assert_eq!(out, ";\n");
}

#[test]
fn statements_separated_by_newlines() {
    let p = program(vec![
        expr_stmt(call("foo", vec![])),
        expr_stmt(call("bar", vec![])),
    ]);
    let out = format_program(&p, empty_index(), Settings::standard());
    assert_eq!(out, "foo();\nbar();\n");
}
