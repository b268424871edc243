use k2::k2_lang::ast::AstProcessor;
use k2::k2_lang::objects::{K2Object, K2ReturnStruct};
use k2::k2lang::ast::AbstractSyntaxTree;
use k2::k2lang::objects::K2LangStruct;
use k2::k2lang::parser::Parser as CodeParser;
use k2::k2_lang::parser::Parser;
use k2::k2_lang::syntax_tree::SyntaxTreeProcessor;

fn command(line: &str) -> K2ReturnStruct {
    K2ReturnStruct {
        success: true,
        command: line.to_string(),
        tokens: line.split_whitespace().map(|s| s.to_string()).collect(),
        message: "Ok".to_string(),
        data: Vec::new(),
    }
}

fn tokens(line: &str) -> Vec<String> {
    line.split_whitespace().map(|s| s.to_string()).collect()
}

#[test]
fn test() {}

#[test]
fn ast_add_test() {}

#[test]
fn ast_delete_test() {}

#[test]
fn ast_set_test() {}

#[test]
fn ast_connect_disconnect_test() {}

#[test]
fn ast_exec_test() {}

#[test]
fn parser_checks_names() {
    let ok = Parser::check_name(&"lib.proc.in".to_string()).unwrap();
    assert_eq!(ok, vec!["lib".to_string(), "proc".to_string(), "in".to_string()]);
    assert_eq!(Parser::check_name(&"lib..in".to_string()).err().unwrap(), "Invalid object name");
    assert_eq!(Parser::check_name(&"li-b".to_string()).err().unwrap(), "Invalid object name");
}

#[test]
fn parser_answers_commands() {
    let mut parser = Parser::new("parser".to_string());
    let line = "new processor lib.proc";
    let r = parser.parse_command(&line.to_string(), tokens(line));
    assert!(r.success);
    assert_eq!(r.message, "Ok");
    assert_eq!(r.tokens, tokens(line));
    let line = "new processor lib";
    let r = parser.parse_command(&line.to_string(), tokens(line));
    assert!(!r.success);
    assert_eq!(r.message, "Invalid object name format for processor");
    let line = "new input lib.proc.in";
    let r = parser.parse_command(&line.to_string(), tokens(line));
    assert!(!r.success);
    assert_eq!(r.message, "Invalid command length for input/output");
    let line = "frobnicate x";
    let r = parser.parse_command(&line.to_string(), tokens(line));
    assert!(!r.success);
    assert_eq!(r.message, "Unknown");
    assert!(r.tokens.is_empty());
}

#[test]
fn syntax_tree_builds_objects() {
    let mut tree = SyntaxTreeProcessor::new("tree".to_string());
    tree.initialize();
    let r = tree.parse_command(&command("new library lib /tmp/lib")).unwrap();
    assert!(r.success);
    assert_eq!(r.message, "New");
    assert_eq!(r.data.len(), 1);
    assert_eq!(r.data[0].properties.get("path").unwrap(), "/tmp/lib");
    let r = tree.parse_command(&command("new processor lib.proc")).unwrap();
    assert_eq!(r.data[0].name, "lib.proc");
    let r = tree.parse_command(&command("new input lib.proc.in f64")).unwrap();
    assert_eq!(r.data[0].properties.get("type").unwrap(), "f64");
    let e = tree.parse_command(&command("new processor lib.proc")).unwrap();
    assert!(!e.success);
    assert_eq!(e.message, "Object with same name already exists!");
    let e = tree.parse_command(&command("new parameter lib.proc.p i64 3 sometimes")).unwrap();
    assert!(!e.success);
    assert_eq!(e.message, "Parameter can be static or dynamic");
    let e = tree.parse_command(&command("new input other.proc.in f64")).unwrap();
    assert!(!e.success);
    assert_eq!(e.message, "Object other.proc not found");
}

#[test]
fn code_parser_and_tree_take_commands() {
    assert!(!CodeParser::accepts(&tokens("new processor")));
    assert!(CodeParser::accepts(&tokens("new processor lib.p")));
    assert!(!CodeParser::accepts(&tokens("connect a")));
    assert!(CodeParser::accepts(&tokens("exec x")));
    assert!(CodeParser::accepts(&tokens("add")));
    let parser = CodeParser::new("parser".to_string());
    let line = "new processor lib.p".to_string();
    let parsed = parser.parse_command(&line, &tokens(&line)).unwrap();
    assert_eq!(parsed.data.len(), 1);
    assert_eq!(parsed.data[0].name, "lib.p");
    assert_eq!(parsed.data[0].object_type, "processor");
    let mut tree = AbstractSyntaxTree::new("ast".to_string());
    tree.insert_object(K2Object::named("lib".to_string(), "library".to_string()));
    assert!(tree.accepts(&parsed));
    let answer = tree.parse_command(Ok(parsed)).unwrap();
    assert_eq!(answer.data.len(), 2);
    assert_eq!(answer.data[0].name, "lib");
    assert_eq!(answer.data[0].children, vec!["lib.p".to_string()]);
    assert_eq!(answer.data[1].name, "lib.p");
    let short = K2LangStruct {
        command: "new input lib.p.in".to_string(),
        message: String::new(),
        tokens: tokens("new input lib.p.in"),
        data: vec![K2Object::named("lib.p.in".to_string(), "input".to_string())],
    };
    assert!(!tree.accepts(&short));
    let orphan = K2LangStruct {
        command: "new input other.p.in".to_string(),
        message: String::new(),
        tokens: tokens("new input other.p.in"),
        data: vec![K2Object::named("other.p.in".to_string(), "input".to_string())],
    };
    assert!(tree.accepts(&orphan));
}

#[test]
fn syntax_tree_accepts_commands() {
    let mut tree = SyntaxTreeProcessor::new("tree".to_string());
    let short = command("new library");
    assert!(tree.accepts(&short));
    tree.initialize();
    assert!(!tree.accepts(&short));
    assert!(tree.accepts(&command("new library lib /tmp/lib")));
    assert!(tree.accepts(&command("connect a.b.out c.d.in")));
    assert!(tree.accepts(&command("frobnicate x")));
    let mut refused = command("new library");
    refused.success = false;
    assert!(tree.accepts(&refused));
}

#[test]
fn stream_disconnect_undoes_connect() {
    let mut ast = AstProcessor::new("ast".to_string());
    assert!(ast.parse_new(&command("new application app /tmp/app")).is_ok());
    let made = ast.parse_new(&command("new stream app.s proc")).unwrap();
    assert_eq!(made.data[0].properties.get("connection").unwrap(), "0");
    assert_eq!(made.data[0].properties.len(), 2);
    let linked = ast.parse_connect(&command("connect app.s.out app.s.in")).unwrap();
    assert_eq!(linked.data[0].properties.get("connection").unwrap(), "1");
    assert_eq!(linked.data[0].properties.get("connection_1").unwrap(), "app.s.out-app.s.in");
    let unlinked = ast.parse_disconnect(&command("disconnect app.s.out app.s.in")).unwrap();
    assert_eq!(unlinked.data[0].properties.get("connection").unwrap(), "0");
    assert!(unlinked.data[0].properties.get("connection_1").is_none());
    assert_eq!(unlinked.data[0].properties.get("type").unwrap(), "proc");
    assert_eq!(unlinked.data[0].properties.len(), 2);
    assert!(ast.parse_disconnect(&command("disconnect app.s.out app.s.in")).is_err());
}

#[test]
fn port_disconnect_undoes_connect() {
    let mut tree = AbstractSyntaxTree::new("ast".to_string());
    tree.insert_object(K2Object::named("lib.p.out".to_string(), "output".to_string()));
    tree.insert_object(K2Object::named("lib.q.in".to_string(), "input".to_string()));
    let input = K2LangStruct {
        command: "connect lib.p.out lib.q.in".to_string(),
        message: String::new(),
        tokens: tokens("connect lib.p.out lib.q.in"),
        data: vec![
            K2Object::named("lib.p.out".to_string(), "output".to_string()),
            K2Object::named("lib.q.in".to_string(), "input".to_string()),
        ],
    };
    let linked = tree.parse_connect(&input).unwrap();
    assert_eq!(linked.data[0].properties.get("lib.q.in").unwrap(), "connection");
    let unlinked = tree.parse_disconnect(&input).unwrap();
    assert_eq!(unlinked.data[0].properties.len(), 0);
}

#[test]
fn code_parser_refusal_messages() {
    let parser = CodeParser::new("parser".to_string());
    let line = "new processor lib.p.x".to_string();
    let e = parser.parse_command(&line, &tokens(&line)).err().unwrap();
    assert_eq!(e.message, "Invalid name for processor");
    let line = "new widget lib.p".to_string();
    let e = parser.parse_command(&line, &tokens(&line)).err().unwrap();
    assert_eq!(e.message, "Unknow type widget");
    let line = "new processor lib.p extra".to_string();
    let e = parser.parse_command(&line, &tokens(&line)).err().unwrap();
    assert_eq!(e.message, "Wrong number of parameter for new processor");
    let line = "frobnicate x".to_string();
    let e = parser.parse_command(&line, &tokens(&line)).err().unwrap();
    assert_eq!(e.message, "Keyword frobnicate not valid");
    let e = parser.parse_command(&String::new(), &Vec::new()).err().unwrap();
    assert_eq!(e.message, "Empty command");
    let line = "connect a.b.c a.b.c.d".to_string();
    let e = parser.parse_command(&line, &tokens(&line)).err().unwrap();
    assert_eq!(e.message, "Object can not be connectted");
    let line = "exec bad-name".to_string();
    let e = parser.parse_command(&line, &tokens(&line)).err().unwrap();
    assert_eq!(e.message, "Invalid object name");
}

fn lang_cmd(line: &str, data: Vec<K2Object>) -> K2LangStruct {
    K2LangStruct { command: line.to_string(), message: String::new(), tokens: tokens(line), data }
}

#[test]
fn syntax_tree_refusals_name_objects() {
    let mut tree = AbstractSyntaxTree::new("ast".to_string());
    tree.insert_object(K2Object::named("lib".to_string(), "library".to_string()));
    tree.insert_object(K2Object::named("lib.p".to_string(), "processor".to_string()));
    tree.insert_object(K2Object::named("lib.p.a".to_string(), "input".to_string()));
    tree.insert_object(K2Object::named("lib.p.b".to_string(), "input".to_string()));
    let e = tree.parse_new(&lang_cmd("new processor lib.p", vec![K2Object::named("lib.p".to_string(), "processor".to_string())])).err().unwrap();
    assert_eq!(e.message, "Object lib.p already exists");
    let e = tree.parse_new(&lang_cmd("new processor other.p", vec![K2Object::named("other.p".to_string(), "processor".to_string())])).err().unwrap();
    assert_eq!(e.message, "Parent other does not exist");
    let e = tree.parse_new(&lang_cmd("new chain lib.p.c", vec![K2Object::named("lib.p.c".to_string(), "chain".to_string())])).err().unwrap();
    assert_eq!(e.message, "Type processor can not have type chain as children");
    let e = tree.parse_add(&lang_cmd("add x lib.p", vec![])).err().unwrap();
    assert_eq!(e.message, "Object x not found");
    let e = tree.parse_add(&lang_cmd("add lib.p.a lib.p", vec![])).err().unwrap();
    assert_eq!(e.message, "Cannot add input to processor");
    let e = tree.parse_set(&lang_cmd("set lib.p 3", vec![K2Object::named("lib.p".to_string(), String::new())])).err().unwrap();
    assert_eq!(e.message, "Type processor is not settable");
    let pair = vec![
        K2Object::named("lib.p.a".to_string(), String::new()),
        K2Object::named("lib.p.b".to_string(), String::new()),
    ];
    let e = tree.parse_connect(&lang_cmd("connect lib.p.a lib.p.b", pair)).err().unwrap();
    assert_eq!(e.message, "lib.p.a and lib.p.b shall be input and output");
    let e = tree.parse_exec(&lang_cmd("exec x lib.p", vec![])).err().unwrap();
    assert_eq!(e.message, "Object lib.p is not a command");
    let e = tree.parse_command(Ok(lang_cmd("frob x", vec![]))).err().unwrap();
    assert_eq!(e.message, "Keyword frob not valid");
    let e = tree.parse_delete(&lang_cmd("delete y", vec![K2Object::named("y".to_string(), String::new())])).err().unwrap();
    assert_eq!(e.message, "Object y not found");
}

#[test]
fn words_split_at_unicode_spaces() {
    let words = k2::text::split_words("a\u{3000}b\u{00A0}c  d");
    assert_eq!(words, vec!["a".to_string(), "b".to_string(), "c".to_string(), "d".to_string()]);
}
