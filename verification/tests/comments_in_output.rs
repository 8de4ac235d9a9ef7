use phpfmt::ast::ArgumentList;
use phpfmt::ast::CallExpr;
use phpfmt::ast::Expression;
use phpfmt::ast::ExpressionStatement;
use phpfmt::ast::FunctionCall;
use phpfmt::ast::FunctionDecl;
use phpfmt::ast::ParameterList;
use phpfmt::ast::Program;
use phpfmt::ast::Statement;
use phpfmt::comments::Comment;
use phpfmt::comments::CommentIndex;
use phpfmt::comments::CommentKind;
use phpfmt::format::format_program;
use phpfmt::settings::Settings;
use phpfmt::span::Span;

fn text(s: &str) -> Vec<char> {
    s.chars().collect()
}

fn func(name: &str, parens: Span, braces: (Span, Span)) -> FunctionDecl {
    FunctionDecl {
        name: text(name),
        parameters: ParameterList {
            left_parenthesis: parens,
            parameters: Vec::new(),
            right_parenthesis: parens,
        },
        left_brace: braces.0,
        body: Vec::new(),
        right_brace: braces.1,
        span: Span::new(0, 0),
    }
}

#[test]
fn dangling_comment_kept_inside_empty_body() {
    // function f() { // note
    // }
    let src = b"function f() { // note\n}\n".to_vec();
    let comments = vec![Comment {
        span: Span::new(15, 23),
        kind: CommentKind::Line,
        text: text("// note"),
    }];
    let index = CommentIndex::new(src, comments);
    let decl = func("f", Span::new(10, 12), (Span::new(13, 14), Span::new(24, 25)));
    let p = Program { statements: vec![Statement::Function(Box::new(decl))] };
    let out = format_program(&p, index, Settings::standard());
    assert_eq!(out, "function f() {\n    // note\n}\n");
}

#[test]
fn dangling_comment_kept_inside_empty_parameter_list() {
    // function f( // why
    // ) {}
    let src = b"function f( // why\n) {\n}\n".to_vec();
    let comments = vec![Comment {
        span: Span::new(12, 18),
        kind: CommentKind::Line,
        text: text("// why"),
    }];
    let index = CommentIndex::new(src, comments);
    let decl = FunctionDecl {
        name: text("f"),
        parameters: ParameterList {
            left_parenthesis: Span::new(10, 11),
            parameters: Vec::new(),
            right_parenthesis: Span::new(19, 20),
        },
        left_brace: Span::new(21, 22),
        body: Vec::new(),
        right_brace: Span::new(23, 24),
        span: Span::new(0, 0),
    };
    let p = Program { statements: vec![Statement::Function(Box::new(decl))] };
    let out = format_program(&p, index, Settings::standard());
    assert_eq!(out, "function f(\n    // why\n) {\n}\n");
}

#[test]
fn leading_comment_is_kept_before_statement() {
    let src = b"// a\nfoo();\n".to_vec();
    let comments = vec![Comment { span: Span::new(0, 4), kind: CommentKind::Line, text: text("// a") }];
    let index = CommentIndex::new(src, comments);
    let p = Program { statements: vec![call_stmt("foo", 5, 11)] };
    let out = format_program(&p, index, Settings::standard());
    assert_eq!(out, "// a\nfoo();\n");
}

#[test]
fn trailing_comment_stays_on_the_line() {
    let src = b"foo(); // b\n".to_vec();
    let comments = vec![Comment { span: Span::new(7, 11), kind: CommentKind::Line, text: text("// b") }];
    let index = CommentIndex::new(src, comments);
    let p = Program { statements: vec![call_stmt("foo", 0, 6)] };
    let out = format_program(&p, index, Settings::standard());
    assert_eq!(out, "foo(); // b\n");
}

#[test]
fn comment_between_statements_prints_once_as_trailing() {
    let src = b"a(); // x\nb();\n".to_vec();
    let comments = vec![Comment { span: Span::new(5, 9), kind: CommentKind::Line, text: text("// x") }];
    let index = CommentIndex::new(src, comments);
    let p = Program { statements: vec![call_stmt("a", 0, 4), call_stmt("b", 10, 14)] };
    let out = format_program(&p, index, Settings::standard());
    assert_eq!(out, "a(); // x\nb();\n");
}

#[test]
fn blank_line_between_statements_is_kept() {
    let src = b"a();\n\nb();\n".to_vec();
    let index = CommentIndex::new(src, Vec::new());
    let p = Program { statements: vec![call_stmt("a", 0, 4), call_stmt("b", 6, 10)] };
    let out = format_program(&p, index, Settings::standard());
    assert_eq!(out, "a();\n\nb();\n");
}

fn call_stmt(name: &str, start: usize, end: usize) -> Statement {
    Statement::Expression(Box::new(ExpressionStatement {
        expression: Expression::Call(Box::new(CallExpr::Function(FunctionCall {
            callee: Expression::Literal(text(name)),
            arguments: ArgumentList {
                left_parenthesis: Span::new(0, 0),
                arguments: Vec::new(),
                right_parenthesis: Span::new(0, 0),
            },
        }))),
        span: Span::new(start, end),
    }))
}
