use atomic_css::parser::{parse, Node};

#[test]
fn test_parse_function_valid() {
    let result = parse("(myFunc arg1 arg2)");
    assert_eq!(
        result,
        Ok(vec![Node::Function(
            "myFunc".to_string(),
            vec![
                Node::Identifier("arg1".to_string()),
                Node::Identifier("arg2".to_string())
            ]
        )])
    );
}

#[test]
fn test_parse_function_invalid() {
    let result = parse("(1234)");
    assert!(result.is_err());
}

#[test]
fn test_parse_function_unmatched() {
    let result = parse("(myFunc arg1 arg2");
    assert!(result.is_err());
}

#[test]
fn test_parse_empty() {
    let result = parse("");
    assert_eq!(result, Ok(vec![]));
}

#[test]
fn test_parse_empty_function_invalid() {
    let result = parse("()");
    assert!(result.is_err());
}

#[test]
fn test_parse_non_function() {
    let number = parse("1234");
    assert!(number.is_err());

    let string = parse("`string`");
    assert!(string.is_err());

    let identifier = parse("identifier");
    assert!(identifier.is_err());
}

#[test]
fn test_node_string_valid() {
    let result = parse("(test `valid string`)");
    assert_eq!(
        result,
        Ok(vec![Node::Function(
            "test".to_string(),
            vec![Node::String("valid string".to_string())]
        )])
    );
}

#[test]
fn test_node_string_invalid() {
    let result = parse("(test invalid string)");
    assert_ne!(
        result,
        Ok(vec![Node::Function(
            "test".to_string(),
            vec![Node::String("invalid string".to_string())]
        )])
    );
}

#[test]
fn test_node_identifier_valid() {
    let result = parse("(validIdentifier)");
    assert_eq!(
        result,
        Ok(vec![Node::Function("validIdentifier".to_string(), vec![])])
    );
}

#[test]
fn test_node_identifier_dash() {
    let result = parse("(valid-identifier)");
    assert_eq!(
        result,
        Ok(vec![Node::Function("valid-identifier".to_string(), vec![])])
    );
}

#[test]
fn test_node_identifier_at() {
    let result = parse("(@identifier)");
    assert_eq!(
        result,
        Ok(vec![Node::Function("@identifier".to_string(), vec![])])
    );
}

#[test]
fn test_node_identifier_ampersand() {
    let result = parse("(&)");
    assert_eq!(result, Ok(vec![Node::Function("&".to_string(), vec![])]));
}

#[test]
fn test_node_identifier_invalid() {
    let result = parse("(1234)");
    assert_ne!(result, Ok(vec![Node::Function("1234".to_string(), vec![])]));
}

#[test]
fn it_parses() {
    let source = r##"
(electron `red` (color `#ff0000`))
(electron `blue` (color `#0000ff`))
(electron `bg_green` (background-color `#00ff00`))

(molecule `button`
  (atom `label` (electrons `blue`)))

(molecule `flag`
  (atom `root` (electrons `red` `bg_green`))
  (atom `label` (import `button` `label`))
  (& `${root}`
    (padding `1rem`)
    (margin `0`))
  (@ `foo`)
  (@ `bar` `baz`)
  (@ `media` `(min-width: 1024px)`
    (& `${root}` (padding `1.5rem`))))

"##;

    let result = parse(source);
    assert!(result.is_ok());
    assert_eq!(result.unwrap().len(), 5);
}

#[test]
fn test_parse_nested_function() {
    let result = parse("(outer (inner `x`) tail)");
    assert_eq!(
        result,
        Ok(vec![Node::Function(
            "outer".to_string(),
            vec![
                Node::Function("inner".to_string(), vec![Node::String("x".to_string())]),
                Node::Identifier("tail".to_string()),
            ]
        )])
    );
}

#[test]
fn test_parse_error_messages() {
    let unmatched = parse("(myFunc");
    let (msg, _) = unmatched.unwrap_err();
    assert_eq!(msg, "Unmatched open parenthesis");

    let missing_identifier = parse("(`str`)");
    let (msg, _) = missing_identifier.unwrap_err();
    assert_eq!(msg, "Identifier expected");

    let stray = parse("fn");
    let (msg, span) = stray.unwrap_err();
    assert_eq!(msg, "Invalid token");
    assert_eq!((span.start, span.end), (0, 2));
}
