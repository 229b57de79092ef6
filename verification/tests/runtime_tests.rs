use atomic_css::runtime::{RunError, Runtime};

#[test]
fn it_works() {}

fn eval_err(src: &str) -> (String, usize) {
    let mut runtime = Runtime::new();
    match runtime.run(src) {
        Err(RunError::Eval(msg, nodes)) => (msg, nodes.len()),
        other => panic!("expected an evaluation error, got {:?}", other.err()),
    }
}

#[test]
fn test_run_end_to_end() {
    let source = r##"
(electron `red` (color `#ff0000`))
(electron `bg_green` (background-color `#00ff00`))

(molecule `flag`
  (atom `root` (electrons `bg_green`))
  (atom `label` (import `button` `label`))
  (& `${root}` (padding `1rem`))
  (@ `foo`)
  (@ `bar` `baz`)
  (@ `media` `(min-width: 1024px)`
    (& `${root}` (padding `1.5rem`))))

(molecule `button`
  (atom `label` (electrons `red`)))
"##;

    let mut runtime = Runtime::new();
    runtime.run(source).expect("the fixture evaluates");
    runtime
        .organism
        .update_exports()
        .expect("no dependency cycle in the fixture");

    // flag's root exports bg_green plus its own hashed class.
    let flag_exports = runtime
        .organism
        .get_exports("flag")
        .expect("flag was resolved");
    let root = &flag_exports
        .iter()
        .find(|(atom, _)| atom == "root")
        .expect("root was exported")
        .1;
    assert_eq!(root.len(), 2);
    assert!(root.contains(&"bg_green".to_string()));

    let flag = &runtime
        .organism
        .molecules
        .iter()
        .find(|(name, _)| name == "flag")
        .expect("flag is registered")
        .1;
    let root_selector = flag.get_atom_selector("root").unwrap().clone();
    assert!(root.contains(&root_selector[1..].to_string()));

    // The rendered CSS substitutes every ${root} and renders the three
    // at-rule shapes.
    let css = flag.get_css();
    assert!(!css.contains("${root}"));
    assert!(css.contains(&format!("{}{{padding:1rem;}}", root_selector)));
    assert!(css.contains("@foo;"));
    assert!(css.contains("@bar baz;"));
    assert!(css.contains(&format!(
        "@media (min-width: 1024px){{{}{{padding:1.5rem;}}}}",
        root_selector
    )));
}

#[test]
fn test_run_unknown_forms_are_noops() {
    let mut runtime = Runtime::new();
    runtime
        .run("(frobnicate `x`) (electron `e` (color `red`))")
        .expect("unknown top-level forms evaluate to nothing");
    assert_eq!(runtime.organism.electrons.len(), 1);
    assert_eq!(runtime.organism.electrons[0].0, "e");
}

#[test]
fn test_run_parse_error() {
    let mut runtime = Runtime::new();
    match runtime.run("(") {
        Err(RunError::Parse(msg, _)) => assert_eq!(msg, "Identifier expected"),
        other => panic!("expected a parse error, got {:?}", other.err()),
    }
    match runtime.run("1234") {
        Err(RunError::Parse(msg, span)) => {
            assert_eq!(msg, "Invalid token");
            assert_eq!((span.start, span.end), (0, 1));
        }
        other => panic!("expected a parse error, got {:?}", other.err()),
    }
}

#[test]
fn test_run_invalid_electron() {
    assert_eq!(eval_err("(electron `x`)").0, "Invalid electron");
    assert_eq!(
        eval_err("(electron `x` (color))").0,
        "Expected string value"
    );
    assert_eq!(
        eval_err("(molecule `m` (atom `a` (electrons notastring)))").0,
        "Invalid electron"
    );
}

#[test]
fn test_run_invalid_molecule_and_atom() {
    assert_eq!(eval_err("(molecule)").0, "Invalid molecule");
    assert_eq!(eval_err("(molecule `m` (atom))").0, "Invalid atom");
    assert_eq!(
        eval_err("(molecule `m` (atom `a` (import `b`)))").0,
        "Invalid import"
    );
}

#[test]
fn test_run_invalid_rules() {
    assert_eq!(eval_err("(molecule `m` (&))").0, "Invalid rule");
    assert_eq!(
        eval_err("(molecule `m` (& `s` (padding)))").0,
        "Invalid declaration"
    );
    assert_eq!(eval_err("(molecule `m` (@))").0, "Invalid at rule");
    assert_eq!(
        eval_err("(molecule `m` (@ `media` `x` stray))").0,
        "Invalid rule"
    );
}

#[test]
fn test_run_nested_rule_failure_propagates() {
    // A malformed nested rule or at-rule inside a rule body fails the whole
    // form; it is not silently dropped.
    assert_eq!(
        eval_err("(molecule `m` (atom `a`) (& `${a}` (&)))").0,
        "Invalid rule"
    );
    assert_eq!(
        eval_err("(molecule `m` (atom `a`) (& `${a}` (@)))").0,
        "Invalid at rule"
    );
}

#[test]
fn test_run_unresolved_reference_is_rejected() {
    // A placeholder that names no atom of the molecule can never be
    // substituted; evaluation rejects the molecule instead of leaving a
    // rendering time failure behind.
    assert_eq!(
        eval_err("(molecule `m` (& `${ghost}` (padding `1rem`)))").0,
        "Unresolved atom reference"
    );
}

#[test]
fn test_run_keeps_partial_state_on_error() {
    let mut runtime = Runtime::new();
    let result = runtime.run("(electron `a` (color `red`)) (electron bad)");
    assert!(matches!(result, Err(RunError::Eval(_, _))));
    // The first form's mutation is kept; nothing is rolled back.
    assert_eq!(runtime.organism.electrons.len(), 1);
    assert_eq!(runtime.organism.electrons[0].0, "a");
}

#[test]
fn test_run_twice_is_deterministic() {
    let source = "(electron `red` (color `#ff0000`))\n(molecule `m`\n  (atom `a`)\n  (& `${a}` (padding `2px`)))";
    let mut first = Runtime::new();
    first.run(source).expect("evaluates");
    let mut second = Runtime::new();
    second.run(source).expect("evaluates");
    assert_eq!(first.organism.get_css(), second.organism.get_css());
}
