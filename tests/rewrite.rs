use blam::call::{classify, print, rewrite, Action, Argument, Arguments, CallSite, Callee, Shape};
use blam::cli::{is_source_extension, request_of, Request};
use blam::message::{escape, message_for};

fn arg(text: &str, shape: Shape, separator: &str) -> Argument {
    Argument { text: text.to_string(), shape, separator: separator.to_string() }
}

fn string_arg(token: &str, separator: &str) -> Argument {
    arg(token, Shape::StringLiteral { token: token.to_string() }, separator)
}

fn other_arg(text: &str, separator: &str) -> Argument {
    arg(text, Shape::Other, separator)
}

fn call_of(name: &str, list: Vec<Argument>) -> CallSite {
    CallSite {
        callee: Callee::Identifier { name: name.to_string(), text: name.to_string() },
        arguments: Arguments::Parenthesized {
            open: "(".to_string(),
            list,
            close: ")".to_string(),
        },
        rest: String::new(),
    }
}

fn rewrite_text(call: CallSite) -> String {
    print(&rewrite(call).0)
}

// The message is "[blam]" and a newline before the condition's source; the
// newline is written as the escape `\n` inside the literal.

#[test]
fn test_adds_second_argument() {
    let call = call_of("assert", vec![other_arg("true", "")]);
    assert_eq!("assert(true, \"[blam]\\ntrue\")", rewrite_text(call));
}

#[test]
fn test_empty_single_quote_replacement() {
    let call = call_of("assert", vec![other_arg("true", ", "), string_arg("''", "")]);
    assert_eq!("assert(true, \"[blam]\\ntrue\")", rewrite_text(call));
}

#[test]
fn test_empty_double_quote_replacement() {
    let call = call_of("assert", vec![other_arg("true", ", "), string_arg("\"\"", "")]);
    assert_eq!("assert(true, \"[blam]\\ntrue\")", rewrite_text(call));
}

#[test]
fn test_interpolated_string_replacement() {
    let empty = arg("``", Shape::InterpolatedString { token: "``".to_string() }, "");
    let call = call_of("assert", vec![other_arg("true", ", "), empty]);
    assert_eq!("assert(true, \"[blam]\\ntrue\")", rewrite_text(call));
}

#[test]
fn test_doesnt_replace_meaningful_messages() {
    let call =
        call_of("assert", vec![other_arg("true", ", "), string_arg("\"existing message\"", "")]);
    assert_eq!("assert(true, \"existing message\")", rewrite_text(call));
}

#[test]
fn test_replaces_existing_blam_messages() {
    let call = call_of("assert", vec![other_arg("true", ", "), string_arg("\"[blam] false\"", "")]);
    assert_eq!("assert(true, \"[blam]\\ntrue\")", rewrite_text(call));
}

#[test]
fn test_doesnt_replace_nonstring_message() {
    let call = call_of("assert", vec![other_arg("true", ", "), other_arg("0", "")]);
    assert_eq!("assert(true, 0)", rewrite_text(call));
}

#[test]
fn classify_each_shape() {
    assert_eq!(classify(&call_of("assert", vec![])), Action::Malformed);
    assert_eq!(classify(&call_of("assert", vec![other_arg("x", "")])), Action::Append);
    assert_eq!(
        classify(&call_of("assert", vec![other_arg("x", ", "), string_arg("''", "")])),
        Action::Replace
    );
    assert_eq!(
        classify(&call_of("assert", vec![other_arg("x", ", "), string_arg("'hi'", "")])),
        Action::Preserve
    );
    assert_eq!(
        classify(&call_of("assert", vec![other_arg("x", ", "), other_arg("false", "")])),
        Action::Preserve
    );
    assert_eq!(classify(&call_of("foo", vec![other_arg("x", "")])), Action::Unmatched);
}

#[test]
fn malformed_call_is_left_alone() {
    let (after, action) = rewrite(call_of("assert", vec![]));
    assert_eq!(action, Action::Malformed);
    assert_eq!("assert()", print(&after));
}

#[test]
fn non_assert_calls_are_untouched() {
    assert_eq!("foo(true)", rewrite_text(call_of("foo", vec![other_arg("true", "")])));
    let method = CallSite {
        callee: Callee::Identifier { name: "obj".to_string(), text: "obj".to_string() },
        arguments: Arguments::Other { text: ".assert".to_string() },
        rest: "(true)".to_string(),
    };
    assert_eq!(classify(&method), Action::Unmatched);
    assert_eq!("obj.assert(true)", rewrite_text(method));
    let wrapped = CallSite {
        callee: Callee::Other { text: "(assert)".to_string() },
        arguments: Arguments::Parenthesized {
            open: "(".to_string(),
            list: vec![other_arg("true", "")],
            close: ")".to_string(),
        },
        rest: String::new(),
    };
    assert_eq!("(assert)(true)", rewrite_text(wrapped));
}

#[test]
fn third_argument_is_kept() {
    let call = call_of(
        "assert",
        vec![other_arg("ok", ", "), string_arg("\"\"", ",  "), other_arg("level", "")],
    );
    assert_eq!("assert(ok, \"[blam]\\nok\",  level)", rewrite_text(call));
}

#[test]
fn trivia_of_the_call_is_kept() {
    let call = CallSite {
        callee: Callee::Identifier { name: "assert".to_string(), text: "  assert".to_string() },
        arguments: Arguments::Parenthesized {
            open: "( ".to_string(),
            list: vec![other_arg("x  ==  1 ", "")],
            close: ") -- done".to_string(),
        },
        rest: String::new(),
    };
    assert_eq!("  assert( x  ==  1 , \"[blam]\\nx  ==  1 \") -- done", rewrite_text(call));
}

#[test]
fn rewriting_twice_gives_the_same_text() {
    let once = rewrite(call_of("assert", vec![other_arg("a \"b\"", "")])).0;
    let once_text = print(&once);
    let twice = rewrite(once).0;
    assert_eq!(once_text, print(&twice));
    assert_eq!("assert(a \"b\", \"[blam]\\na \\\"b\\\"\")", once_text);
}

#[test]
fn escape_writes_each_special_character() {
    assert_eq!(escape("a\\b\"c\nd\re\tf"), "a\\\\b\\\"c\\nd\\re\\tf");
    assert_eq!(escape(""), "");
    assert_eq!(escape("plain"), "plain");
}

#[test]
fn message_literal_for_a_mixed_source() {
    assert_eq!(message_for("s == \"\\t\"\n"), "\"[blam]\\ns == \\\"\\\\t\\\"\\n\"");
}

#[test]
fn message_literal_decodes_to_its_source() {
    let source = "x\\y \"q\"\r\n\tz";
    let literal = message_for(source);
    let body = &literal[1..literal.len() - 1];
    let mut decoded = String::new();
    let mut chars = body.chars();
    while let Some(c) = chars.next() {
        if c == '\\' {
            match chars.next() {
                Some('n') => decoded.push('\n'),
                Some('r') => decoded.push('\r'),
                Some('t') => decoded.push('\t'),
                Some(other) => decoded.push(other),
                None => decoded.push('\\'),
            }
        } else {
            decoded.push(c);
        }
    }
    assert_eq!(decoded, format!("[blam]\n{}", source));
}

#[test]
fn command_line_requests() {
    assert_eq!(request_of("-h"), Request::Help);
    assert_eq!(request_of("--help"), Request::Help);
    assert_eq!(request_of("-v"), Request::Version);
    assert_eq!(request_of("--version"), Request::Version);
    assert_eq!(request_of("src"), Request::Path);
    assert_eq!(request_of("-x"), Request::Path);
}

#[test]
fn only_lua_extensions_are_rewritten() {
    assert!(is_source_extension("lua"));
    assert!(is_source_extension("luau"));
    assert!(!is_source_extension("luac"));
    assert!(!is_source_extension("rs"));
    assert!(!is_source_extension(""));
}
