use atomic_css::atom::Atom;
use atomic_css::css::{CSSAtRule, CSSDeclaration, CSSRule};
use atomic_css::electron::Electron;
use atomic_css::molecule::Molecule;
use atomic_css::organism::{GraphError, Organism};

fn flag_molecule() -> Molecule {
    Molecule::new("flag")
        .with_atom(Atom::new("root").with_electrons(vec!["bg_green"]))
        .with_atom(Atom::new("label").with_imports(vec![("button", "label")]))
        .with_css_rule(CSSRule::new("${root}").with_declaration(CSSDeclaration::new(
            "padding", "1rem",
        )))
        .with_css_at_rule(CSSAtRule::new("foo", None))
        .with_css_at_rule(CSSAtRule::new("bar", Some("baz")))
        .with_css_at_rule(
            CSSAtRule::new("media", Some("(min-width: 1024px)")).with_rule(
                CSSRule::new("${root}")
                    .with_declaration(CSSDeclaration::new("padding", "1.5rem")),
            ),
        )
}

#[test]
fn organism_it_works() {
    let electrons = vec![
        Electron::new("red", "color", "#ff0000"),
        Electron::new("bg_green", "background-color", "#00ff00"),
    ];

    let flag = flag_molecule();
    let button = Molecule::new("button").with_atom(Atom::new("label").with_electrons(vec!["red"]));

    let mut library = Organism::new()
        .with_electrons(electrons)
        .with_molecules(vec![flag, button]);

    library.update_exports().expect("Failed to update exports");

    for (_, molecule) in &library.molecules {
        println!("{}: {}", molecule.name, molecule.get_css());
    }
}

#[test]
fn test_export_inheritance() {
    // flag.label carries no hashable content of its own, so it exports
    // exactly what it inherits from button.label: the electron `red`.
    let button = Molecule::new("button").with_atom(Atom::new("label").with_electrons(vec!["red"]));
    let flag = Molecule::new("flag").with_atom(Atom::new("label").with_imports(vec![(
        "button", "label",
    )]));

    let mut organism = Organism::new().with_molecules(vec![flag, button]);
    organism.update_exports().expect("no cycle here");

    let flag_exports = organism.get_exports("flag").expect("flag was resolved");
    let label = &flag_exports
        .iter()
        .find(|(atom, _)| atom == "label")
        .expect("label was exported")
        .1;
    assert_eq!(label, &vec!["red".to_string()]);
}

#[test]
fn test_export_inheritance_with_own_content() {
    // Once flag.label accumulates content of its own, its export set is its
    // own hashed selector (without the leading dot) plus the inherited
    // `red`.
    let button = Molecule::new("button").with_atom(Atom::new("label").with_electrons(vec!["red"]));
    let flag = Molecule::new("flag")
        .with_atom(Atom::new("label").with_imports(vec![("button", "label")]))
        .with_css_rule(
            CSSRule::new("${label}").with_declaration(CSSDeclaration::new("margin", "0")),
        );

    let mut organism = Organism::new().with_molecules(vec![flag, button]);
    organism.update_exports().expect("no cycle here");

    let own_selector = {
        let flag_molecule = &organism
            .molecules
            .iter()
            .find(|(name, _)| name == "flag")
            .expect("flag is registered")
            .1;
        flag_molecule
            .get_atom_selector("label")
            .expect("label has a selector")
            .clone()
    };
    let stripped = own_selector[1..].to_string();

    let flag_exports = organism.get_exports("flag").expect("flag was resolved");
    let label = &flag_exports
        .iter()
        .find(|(atom, _)| atom == "label")
        .expect("label was exported")
        .1;
    assert_eq!(label, &vec![stripped, "red".to_string()]);
}

#[test]
fn test_cyclic_dependency_fails() {
    let a = Molecule::new("a").with_atom(Atom::new("x").with_imports(vec![("b", "x")]));
    let b = Molecule::new("b").with_atom(Atom::new("x").with_imports(vec![("c", "x")]));
    let c = Molecule::new("c").with_atom(Atom::new("x").with_imports(vec![("a", "x")]));

    let mut organism = Organism::new().with_molecules(vec![a, b, c]);
    let err = organism.update_exports().expect_err("the cycle must fail");
    let GraphError::CyclicDependency(node) = err;
    assert!(node == "a" || node == "b" || node == "c");
}

#[test]
fn test_acyclic_exports_resolve() {
    // A chain a -> b -> c resolves, and the leaf's electron reaches the
    // root through two hops of inheritance.
    let c = Molecule::new("c").with_atom(Atom::new("x").with_electrons(vec!["deep"]));
    let b = Molecule::new("b").with_atom(Atom::new("x").with_imports(vec![("c", "x")]));
    let a = Molecule::new("a").with_atom(Atom::new("x").with_imports(vec![("b", "x")]));

    let mut organism = Organism::new().with_molecules(vec![a, b, c]);
    organism.update_exports().expect("acyclic chain resolves");

    let a_exports = organism.get_exports("a").expect("a was resolved");
    let x = &a_exports
        .iter()
        .find(|(atom, _)| atom == "x")
        .expect("x was exported")
        .1;
    assert_eq!(x, &vec!["deep".to_string()]);
}

#[test]
fn test_selector_determinism() {
    // The same insertions on a fresh organism twice: byte-identical
    // selectors and CSS both times.
    let build = || {
        Organism::new()
            .with_electron(Electron::new("red", "color", "#ff0000"))
            .with_molecule(flag_molecule())
    };
    let first = build();
    let second = build();

    assert_eq!(first.get_css(), second.get_css());
    let sel1 = first.molecules[0].1.get_atom_selector("root").unwrap();
    let sel2 = second.molecules[0].1.get_atom_selector("root").unwrap();
    assert_eq!(sel1, sel2);
}

#[test]
fn test_hash_distinct_content_distinct_selectors() {
    // Two accumulated contents of equal length must give different
    // selectors: the length-based scheme would collide here, a content hash
    // must not.
    let build = |value: &str| {
        Molecule::new("m")
            .with_atom(Atom::new("a"))
            .with_css_rule(
                CSSRule::new("${a}").with_declaration(CSSDeclaration::new("padding", value)),
            )
    };
    let one = build("1rem");
    let two = build("2rem");
    let sel_one = one.get_atom_selector("a").unwrap();
    let sel_two = two.get_atom_selector("a").unwrap();
    assert_ne!(sel_one, sel_two);
}

#[test]
fn test_electron_css_formats() {
    let electron = Electron::new("red", "color", "#ff0000");
    assert_eq!(electron.get_css(), ".red{color:#ff0000}");

    // The organism synthesizes one rule per electron, spaced inside the
    // braces.
    let organism = Organism::new().with_electron(electron);
    assert_eq!(organism.get_css(), ".red{ color: #ff0000 }");
}

#[test]
fn test_electron_redefinition_overwrites() {
    let mut organism = Organism::new();
    organism.insert_electron(&Electron::new("red", "color", "#ff0000"));
    organism.insert_electron(&Electron::new("red", "color", "#aa0000"));
    assert_eq!(organism.electrons.len(), 1);
    assert_eq!(organism.electrons[0].1.value, "#aa0000");
}

#[test]
fn test_molecule_css_substitution() {
    let molecule = Molecule::new("m")
        .with_atom(Atom::new("a"))
        .with_css_rule(CSSRule::new("${a}").with_declaration(CSSDeclaration::new("x", "y")));
    let selector = molecule.get_atom_selector("a").unwrap().clone();
    let css = molecule.get_css();
    assert!(css.contains(&selector));
    assert!(!css.contains("${a}"));
    assert_eq!(css, format!("{}{{x:y;}}", selector));
}

#[test]
fn test_readable_selectors() {
    let molecule = Molecule::new_readable("m").with_atom(Atom::new("a"));
    assert_eq!(molecule.get_atom_selector("a").unwrap(), ".m_a");
}

#[test]
fn test_selector_formula() {
    // The derived selector is `.{molecule}_{atom}_{H}` with `H` the decimal
    // FNV-1a digest of the accumulated content — empty right after the atom
    // is inserted.
    let molecule = Molecule::new("m").with_atom(Atom::new("a"));
    let expected = format!(".m_a_{}", atomic_css::strutil::fnv1a_hash(""));
    assert_eq!(molecule.get_atom_selector("a").unwrap(), &expected);
    assert!(!molecule.has_hashable_content("a"));
}

#[test]
fn test_has_hashable_content() {
    let bare = Molecule::new("m").with_atom(Atom::new("a"));
    assert!(!bare.has_hashable_content("a"));
    assert!(!bare.has_hashable_content("ghost"));

    let touched = bare.with_css_rule(
        CSSRule::new("${a}").with_declaration(CSSDeclaration::new("x", "y")),
    );
    assert!(touched.has_hashable_content("a"));
}

#[test]
fn test_molecule_exports_of_unknown_molecule() {
    let organism = Organism::new();
    assert!(organism.get_molecule_exports("ghost").is_empty());
}

#[test]
fn test_empty_organism_exports() {
    let mut organism = Organism::new();
    organism
        .update_exports()
        .expect("an empty graph is trivially acyclic");
    assert!(organism.get_exports("anything").is_none());
    assert_eq!(organism.get_css(), "");
}

#[test]
fn test_molecule_redefinition_overwrites() {
    let mut organism = Organism::new();
    organism.insert_molecule(&Molecule::new("m").with_atom(Atom::new("a")));
    organism.insert_molecule(&Molecule::new("m").with_atom(Atom::new("b")));
    assert_eq!(organism.molecules.len(), 1);
    assert!(organism.molecules[0].1.get_atom_selector("b").is_some());
}

#[test]
fn test_atom_redefinition_overwrites() {
    let molecule = Molecule::new("m")
        .with_atom(Atom::new("a").with_electrons(vec!["e1"]))
        .with_atom(Atom::new("a").with_electrons(vec!["e2"]));
    assert_eq!(molecule.atoms.len(), 1);
    assert_eq!(
        molecule.get_atom_electrons("a").unwrap(),
        &vec!["e2".to_string()]
    );
}

#[test]
fn test_atom_getters() {
    let molecule = Molecule::new("m").with_atom(
        Atom::new("a")
            .with_electrons(vec!["e1", "e2"])
            .with_imports(vec![("other", "b")]),
    );
    assert_eq!(
        molecule.get_atom_electrons("a").unwrap(),
        &vec!["e1".to_string(), "e2".to_string()]
    );
    assert_eq!(
        molecule.get_atom_imports("a").unwrap(),
        &vec![("other".to_string(), "b".to_string())]
    );
    assert!(molecule.get_atom_electrons("ghost").is_none());
    assert!(molecule.get_atom_imports("ghost").is_none());
    assert!(molecule.get_atom_selector("ghost").is_none());
}
