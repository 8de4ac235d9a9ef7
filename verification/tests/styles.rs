use phpfmt::ast::Expression;
use phpfmt::ast::FunctionDecl;
use phpfmt::ast::MethodCall;
use phpfmt::ast::CallExpr;
use phpfmt::ast::ArgumentList;
use phpfmt::ast::Parameter;
use phpfmt::ast::ParameterList;
use phpfmt::ast::Program;
use phpfmt::ast::Statement;
use phpfmt::comments::CommentIndex;
use phpfmt::format::format_expression_to_string;
use phpfmt::format::format_program;
use phpfmt::settings::MethodChainBreakingStyle;
use phpfmt::settings::Settings;
use phpfmt::span::Span;

fn cs(s: &str) -> Vec<char> {
    s.chars().collect()
}

fn zero() -> Span {
    Span::new(0, 0)
}

fn no_comments() -> CommentIndex {
    CommentIndex::new(Vec::new(), Vec::new())
}

fn plain_param(name: &str) -> Parameter {
    Parameter {
        attribute_lists: Vec::new(),
        modifiers: Vec::new(),
        name: cs(name),
        hooks: None,
        span: zero(),
    }
}

fn func_with_params(params: Vec<Parameter>) -> Program {
    let decl = FunctionDecl {
        name: cs("f"),
        parameters: ParameterList {
            left_parenthesis: zero(),
            parameters: params,
            right_parenthesis: zero(),
        },
        left_brace: zero(),
        body: Vec::new(),
        right_brace: zero(),
        span: zero(),
    };
    Program { statements: vec![Statement::Function(Box::new(decl))] }
}

#[test]
fn hugged_parameter_stays_inline() {
    let p = func_with_params(vec![plain_param("$x")]);
    let out = format_program(&p, no_comments(), Settings::standard());
    assert_eq!(out, "function f($x) {\n}\n");
}

#[test]
fn broken_parameter_list_ends_with_trailing_comma() {
    let p = func_with_params(vec![plain_param("$veryLongParameterName"), plain_param("$anotherLongName")]);
    let mut settings = Settings::standard();
    settings.print_width = 30;
    let out = format_program(&p, no_comments(), settings);
    assert_eq!(
        out,
        "function f(\n    $veryLongParameterName,\n    $anotherLongName,\n) {\n}\n"
    );
}

#[test]
fn flat_parameter_list_has_no_trailing_comma() {
    let p = func_with_params(vec![plain_param("$a"), plain_param("$b")]);
    let out = format_program(&p, no_comments(), Settings::standard());
    assert_eq!(out, "function f($a, $b) {\n}\n");
}

#[test]
fn promoted_property_forces_parameter_break() {
    let mut promoted = plain_param("$x");
    promoted.modifiers = vec![cs("private")];
    let other = plain_param("$y");
    let p = func_with_params(vec![promoted, other]);
    let out = format_program(&p, no_comments(), Settings::standard());
    assert_eq!(out, "function f(\n    private $x,\n    $y,\n) {\n}\n");
}

#[test]
fn chain_next_line_style_puts_base_alone() {
    let base = Expression::Variable(cs("$a"));
    let inner = Expression::Call(Box::new(CallExpr::Method(MethodCall {
        object: base,
        method: cs("b"),
        arguments: ArgumentList {
            left_parenthesis: zero(),
            arguments: Vec::new(),
            right_parenthesis: zero(),
        },
    })));
    let e = Expression::Call(Box::new(CallExpr::Method(MethodCall {
        object: inner,
        method: cs("c"),
        arguments: ArgumentList {
            left_parenthesis: zero(),
            arguments: Vec::new(),
            right_parenthesis: zero(),
        },
    })));
    let mut settings = Settings::standard();
    settings.method_chain_breaking_style = MethodChainBreakingStyle::NextLine;
    let out = format_expression_to_string(&e, no_comments(), settings);
    assert_eq!(out, "$a\n    ->b()\n    ->c()\n");
}
