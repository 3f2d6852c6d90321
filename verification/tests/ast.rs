use yo_lexer::ast::{Node, Program, AST};

struct Statement {
    first: &'static str,
}

impl Node for Statement {
    fn literal(&self) -> vstd::seq::Seq<char> {
        unreachable!()
    }

    fn token_literal(&self) -> String {
        String::from(self.first)
    }
}

#[test]
fn empty_program_has_no_literal() {
    let program = Program { statements: Vec::new() };
    assert_eq!(program.token_literal(), "");
}

#[test]
fn program_begins_with_its_first_statement() {
    let program = Program {
        statements: vec![
            Box::new(Statement { first: "let" }),
            Box::new(Statement { first: "return" }),
        ],
    };
    assert_eq!(program.token_literal(), "let");
}

#[test]
fn nested_program() {
    let inner = Program { statements: vec![Box::new(Statement { first: "fun" })] };
    let outer = Program { statements: vec![Box::new(inner)] };
    assert_eq!(outer.token_literal(), "fun");
}

#[test]
fn syntax_tree_can_be_built() {
    let _tree = AST {};
}
