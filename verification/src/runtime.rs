//! The tree-walking evaluator. It walks the parsed forest once, top to
//! bottom, and mutates one organism as it goes: `electron` and `molecule`
//! forms at the top level; `atom`, `&` and `@` forms inside a molecule;
//! `electrons` and `import` forms inside an atom; nested `&`/`@` forms are
//! evaluated as pure builders and attached only by the outermost form.
//! Unknown form names are deliberately no-ops. Evaluation is fail-fast, and
//! the organism keeps the mutations of the forms that were evaluated before
//! the failing one.

use vstd::prelude::*;

use crate::atom::{Atom, AtomV};
use crate::css::{
    at_rule_css, rule_css, CSSAtRule, CSSAtRuleV, CSSDeclaration, CSSNodeV, CSSRule, CSSRuleV,
};
use crate::electron::{Electron, ElectronV};
use crate::molecule::{
    molecule_init, spec_css_vars_resolved, spec_insert_atom, spec_insert_css, Molecule, MoleculeV,
};
use crate::organism::{
    spec_insert_electron, spec_insert_molecule, Organism, OrganismV,
};
use crate::lexer::Span;
use crate::parser::{clone_node_vec, node_view, parse, sp_parse, Node, NodeV, PErrV};
use crate::strutil::str_eq;

verus! {

broadcast use crate::molecule::molecule_view_fields, crate::parser::lemma_node_view_args;

/// The mathematical value of an evaluation error: its message and the
/// offending argument nodes.
pub ghost struct EvalErrV {
    pub msg: Seq<char>,
    pub args: Seq<NodeV>,
}

/// What running a source text can fail with: a parse error with its span,
/// or an evaluation error with the offending nodes.
#[derive(Debug)]
pub enum RunError {
    Parse(String, Span),
    Eval(String, Vec<Node>),
}

// ---------------------------------------------------------------------------
// The specification evaluator: atoms.
// ---------------------------------------------------------------------------
/// `(electrons name*)`: every argument must be a string; each names one
/// electron the atom wears.
pub open spec fn sev_electrons(a: AtomV, args: Seq<NodeV>, i: int) -> Result<AtomV, EvalErrV>
    decreases args.len() - i,
{
    if i < 0 || i >= args.len() {
        Ok(a)
    } else {
        match args[i] {
            NodeV::Text(name) => sev_electrons(
                AtomV { electrons: a.electrons.push(name), ..a },
                args,
                i + 1,
            ),
            _ => Err(EvalErrV { msg: "Invalid electron"@, args }),
        }
    }
}

/// The atom as `(electrons ...)` leaves it when a non-string argument stops
/// the walk: the names before the offending argument are already appended
/// and retained — partial mutation, no rollback.
pub open spec fn sev_electrons_partial(a: AtomV, args: Seq<NodeV>, i: int) -> AtomV
    decreases args.len() - i,
{
    if i < 0 || i >= args.len() {
        a
    } else {
        match args[i] {
            NodeV::Text(name) => sev_electrons_partial(
                AtomV { electrons: a.electrons.push(name), ..a },
                args,
                i + 1,
            ),
            _ => a,
        }
    }
}

/// `(import molecule atom)`: exactly two strings.
pub open spec fn sev_import(a: AtomV, args: Seq<NodeV>) -> Result<AtomV, EvalErrV> {
    if args.len() == 2 && args[0] is Text && args[1] is Text {
        Ok(AtomV { imports: a.imports.push((args[0]->Text_0, args[1]->Text_0)), ..a })
    } else {
        Err(EvalErrV { msg: "Invalid import"@, args })
    }
}

/// Dispatch of one named form inside an atom; unknown names are no-ops.
pub open spec fn sev_atom_function(a: AtomV, name: Seq<char>, args: Seq<NodeV>) -> Result<
    AtomV,
    EvalErrV,
> {
    if name == "electrons"@ {
        sev_electrons(a, args, 0)
    } else if name == "import"@ {
        sev_import(a, args)
    } else {
        Ok(a)
    }
}

/// The forms `args[i..]` of an atom, in order; nodes that are no function
/// form are ignored.
pub open spec fn sev_atom_forms(a: AtomV, args: Seq<NodeV>, i: int) -> Result<AtomV, EvalErrV>
    decreases args.len() - i,
{
    if i < 0 || i >= args.len() {
        Ok(a)
    } else {
        match args[i] {
            NodeV::Function(name, fargs) => match sev_atom_function(a, name, fargs) {
                Ok(a2) => sev_atom_forms(a2, args, i + 1),
                Err(e) => Err(e),
            },
            _ => sev_atom_forms(a, args, i + 1),
        }
    }
}

/// `(atom name form*)`: builds the atom and inserts it into the molecule.
pub open spec fn sev_atom(m: MoleculeV, args: Seq<NodeV>) -> Result<MoleculeV, EvalErrV> {
    if args.len() >= 1 && args[0] is Text {
        let a0 = AtomV {
            name: args[0]->Text_0,
            electrons: Seq::<Seq<char>>::empty(),
            imports: Seq::<(Seq<char>, Seq<char>)>::empty(),
        };
        match sev_atom_forms(a0, args, 1) {
            Ok(a) => Ok(spec_insert_atom(m, a)),
            Err(e) => Err(e),
        }
    } else {
        Err(EvalErrV { msg: "Invalid atom"@, args })
    }
}

// ---------------------------------------------------------------------------
// The specification evaluator: pure rule builders.
// ---------------------------------------------------------------------------
/// `(& selector body*)` as a pure value, nothing attached anywhere.
pub open spec fn sbuild_rule(args: Seq<NodeV>) -> Result<CSSRuleV, EvalErrV>
    decreases args, args.len() + 1,
{
    if args.len() >= 1 && args[0] is Text {
        srule_children(
            CSSRuleV { selector: args[0]->Text_0, children: Seq::<CSSNodeV>::empty() },
            args,
            1,
        )
    } else {
        Err(EvalErrV { msg: "Invalid rule"@, args })
    }
}

/// The body of a rule: a nested rule or at-rule that fails to build fails
/// the whole form, as does a malformed declaration; nodes that are no
/// function form are ignored.
pub open spec fn srule_children(r: CSSRuleV, args: Seq<NodeV>, i: int) -> Result<
    CSSRuleV,
    EvalErrV,
>
    decreases args, args.len() - i,
{
    if i < 0 || i >= args.len() {
        Ok(r)
    } else {
        match args[i] {
            NodeV::Function(name, fargs) => {
                if name == "@"@ {
                    match sbuild_at_rule(fargs) {
                        Ok(at) => srule_children(
                            CSSRuleV { children: r.children.push(CSSNodeV::AtRule(at)), ..r },
                            args,
                            i + 1,
                        ),
                        Err(e) => Err(e),
                    }
                } else if name == "&"@ {
                    match sbuild_rule(fargs) {
                        Ok(nested) => srule_children(
                            CSSRuleV { children: r.children.push(CSSNodeV::Rule(nested)), ..r },
                            args,
                            i + 1,
                        ),
                        Err(e) => Err(e),
                    }
                } else if fargs.len() == 1 && fargs[0] is Text {
                    srule_children(
                        CSSRuleV {
                            children: r.children.push(
                                CSSNodeV::Declaration(
                                    crate::css::CSSDeclarationV {
                                        property: name,
                                        value: fargs[0]->Text_0,
                                    },
                                ),
                            ),
                            ..r
                        },
                        args,
                        i + 1,
                    )
                } else {
                    Err(EvalErrV { msg: "Invalid declaration"@, args: fargs })
                }
            },
            _ => srule_children(r, args, i + 1),
        }
    }
}

/// `(@ name)`, `(@ name params)` or `(@ name params body*)` as a pure value.
pub open spec fn sbuild_at_rule(args: Seq<NodeV>) -> Result<CSSAtRuleV, EvalErrV>
    decreases args, args.len() + 1,
{
    if args.len() == 1 && args[0] is Text {
        Ok(
            CSSAtRuleV {
                name: args[0]->Text_0,
                params: None,
                children: Seq::<CSSNodeV>::empty(),
            },
        )
    } else if args.len() == 2 && args[0] is Text && args[1] is Text {
        Ok(
            CSSAtRuleV {
                name: args[0]->Text_0,
                params: Some(args[1]->Text_0),
                children: Seq::<CSSNodeV>::empty(),
            },
        )
    } else if args.len() >= 3 && args[0] is Text && args[1] is Text {
        sat_children(
            CSSAtRuleV {
                name: args[0]->Text_0,
                params: Some(args[1]->Text_0),
                children: Seq::<CSSNodeV>::empty(),
            },
            args,
            2,
        )
    } else {
        Err(EvalErrV { msg: "Invalid at rule"@, args })
    }
}

/// The body of a parameterized at-rule: a nested form that fails to build
/// is an error, reported under this level's message; unlike a rule body,
/// a node that is no function form is an error too.
pub open spec fn sat_children(a: CSSAtRuleV, args: Seq<NodeV>, i: int) -> Result<
    CSSAtRuleV,
    EvalErrV,
>
    decreases args, args.len() - i,
{
    if i < 0 || i >= args.len() {
        Ok(a)
    } else {
        match args[i] {
            NodeV::Function(fname, fargs) => {
                if fname == "&"@ {
                    match sbuild_rule(fargs) {
                        Ok(r) => sat_children(
                            CSSAtRuleV { children: a.children.push(CSSNodeV::Rule(r)), ..a },
                            args,
                            i + 1,
                        ),
                        Err(_) => Err(EvalErrV { msg: "Invalid rule"@, args: fargs }),
                    }
                } else if fname == "@"@ {
                    match sbuild_at_rule(fargs) {
                        Ok(nested) => sat_children(
                            CSSAtRuleV { children: a.children.push(CSSNodeV::AtRule(nested)), ..a },
                            args,
                            i + 1,
                        ),
                        Err(_) => Err(EvalErrV { msg: "Invalid at rule"@, args: fargs }),
                    }
                } else if fargs.len() == 1 {
                    if fargs[0] is Text {
                        sat_children(
                            CSSAtRuleV {
                                children: a.children.push(
                                    CSSNodeV::Declaration(
                                        crate::css::CSSDeclarationV {
                                            property: fname,
                                            value: fargs[0]->Text_0,
                                        },
                                    ),
                                ),
                                ..a
                            },
                            args,
                            i + 1,
                        )
                    } else {
                        Err(EvalErrV { msg: "Invalid declaration"@, args: fargs })
                    }
                } else {
                    Err(EvalErrV { msg: "Invalid rule"@, args })
                }
            },
            _ => Err(EvalErrV { msg: "Invalid rule"@, args }),
        }
    }
}

// ---------------------------------------------------------------------------
// The specification evaluator: molecules and the whole document.
// ---------------------------------------------------------------------------
/// Dispatch of one named form inside a molecule; unknown names are no-ops.
pub open spec fn sev_molecule_function(m: MoleculeV, name: Seq<char>, args: Seq<NodeV>) -> Result<
    MoleculeV,
    EvalErrV,
> {
    if name == "atom"@ {
        sev_atom(m, args)
    } else if name == "&"@ {
        match sbuild_rule(args) {
            Ok(r) => Ok(spec_insert_css(m, rule_css(r))),
            Err(e) => Err(e),
        }
    } else if name == "@"@ {
        match sbuild_at_rule(args) {
            Ok(a) => Ok(spec_insert_css(m, at_rule_css(a))),
            Err(e) => Err(e),
        }
    } else {
        Ok(m)
    }
}

/// The forms `args[i..]` of a molecule, in order.
pub open spec fn sev_molecule_forms(m: MoleculeV, args: Seq<NodeV>, i: int) -> Result<
    MoleculeV,
    EvalErrV,
>
    decreases args.len() - i,
{
    if i < 0 || i >= args.len() {
        Ok(m)
    } else {
        match args[i] {
            NodeV::Function(name, fargs) => match sev_molecule_function(m, name, fargs) {
                Ok(m2) => sev_molecule_forms(m2, args, i + 1),
                Err(e) => Err(e),
            },
            _ => sev_molecule_forms(m, args, i + 1),
        }
    }
}

/// `(molecule name form*)`: builds the molecule and inserts it into the
/// organism. A molecule whose CSS still holds a placeholder that names no
/// atom of its own cannot be rendered; rather than fail at rendering time,
/// the evaluation rejects it here.
pub open spec fn sev_molecule(o: OrganismV, args: Seq<NodeV>) -> Result<OrganismV, EvalErrV> {
    if args.len() >= 1 && args[0] is Text {
        match sev_molecule_forms(molecule_init(args[0]->Text_0, false), args, 1) {
            Ok(m) => {
                if spec_css_vars_resolved(m) {
                    Ok(spec_insert_molecule(o, m))
                } else {
                    Err(EvalErrV { msg: "Unresolved atom reference"@, args })
                }
            },
            Err(e) => Err(e),
        }
    } else {
        Err(EvalErrV { msg: "Invalid molecule"@, args })
    }
}

/// `(electron name (property value))`.
pub open spec fn sev_electron(o: OrganismV, args: Seq<NodeV>) -> Result<OrganismV, EvalErrV> {
    if args.len() == 2 && args[0] is Text && args[1] is Function {
        let val = args[1]->Function_1;
        if val.len() >= 1 && val[0] is Text {
            let e = ElectronV {
                name: args[0]->Text_0,
                property: args[1]->Function_0,
                value: val[0]->Text_0,
            };
            Ok(spec_insert_electron(o, e))
        } else {
            Err(EvalErrV { msg: "Expected string value"@, args })
        }
    } else {
        Err(EvalErrV { msg: "Invalid electron"@, args })
    }
}

/// Dispatch of one top-level form; unknown names are no-ops.
pub open spec fn sev_organism_function(o: OrganismV, name: Seq<char>, args: Seq<NodeV>) -> Result<
    OrganismV,
    EvalErrV,
> {
    if name == "electron"@ {
        sev_electron(o, args)
    } else if name == "molecule"@ {
        sev_molecule(o, args)
    } else {
        Ok(o)
    }
}

/// The whole document from form `i` on: the organism as far as evaluation
/// got, and the first error if one stopped it. Mutations made by the forms
/// before the failing one are kept.
pub open spec fn sev_document(o: OrganismV, nodes: Seq<NodeV>, i: int) -> (
    OrganismV,
    Option<EvalErrV>,
)
    decreases nodes.len() - i,
{
    if i < 0 || i >= nodes.len() {
        (o, None)
    } else {
        match nodes[i] {
            NodeV::Function(name, fargs) => match sev_organism_function(o, name, fargs) {
                Ok(o2) => sev_document(o2, nodes, i + 1),
                Err(e) => (o, Some(e)),
            },
            _ => sev_document(o, nodes, i + 1),
        }
    }
}

/// What `Runtime::run` does to the organism: parse, then evaluate the forms
/// in order.
pub open spec fn spec_run(o: OrganismV, src: Seq<char>) -> (OrganismV, Option<Result<
    EvalErrV,
    PErrV,
>>) {
    match sp_parse(src) {
        Err(pe) => (o, Some(Err(pe))),
        Ok(nodes) => match sev_document(o, nodes, 0) {
            (o2, None) => (o2, None),
            (o2, Some(e)) => (o2, Some(Ok(e))),
        },
    }
}

// ---------------------------------------------------------------------------
// The executable evaluator.
// ---------------------------------------------------------------------------
/// Handles `(electrons ...)` inside an atom. On failure the names before
/// the offending argument stay appended: partial mutation, no rollback.
fn handle_electrons(atom: &mut Atom, args: &Vec<Node>) -> (r: Result<(), (String, Vec<Node>)>)
    ensures
        (match sev_electrons(old(atom)@, args.deep_view(), 0) {
            Ok(a2) => r is Ok && final(atom)@ == a2,
            Err(e) => r matches Err(err) && err.0@ == e.msg && err.1.deep_view() == e.args
                && final(atom)@ == sev_electrons_partial(old(atom)@, args.deep_view(), 0),
        }),
{
    let ghost av = args.deep_view();
    let mut i: usize = 0;
    while i < args.len()
        invariant
            i <= args.len(),
            av == args.deep_view(),
            av.len() == args.len(),
            sev_electrons(old(atom)@, av, 0) == sev_electrons(atom@, av, i as int),
            sev_electrons_partial(old(atom)@, av, 0) == sev_electrons_partial(
                atom@,
                av,
                i as int,
            ),
        decreases args.len() - i,
    {
        match &args[i] {
            Node::String(name) => {
                atom.insert_electron(name.as_str());
            },
            _ => {
                let e = clone_node_vec(args);
                proof {
                    assert(e.deep_view() =~= av);
                }
                return Err(("Invalid electron".to_owned(), e));
            },
        }
        i = i + 1;
    }
    Ok(())
}

/// Handles `(import molecule atom)` inside an atom.
fn handle_import(atom: &mut Atom, args: &Vec<Node>) -> (r: Result<(), (String, Vec<Node>)>)
    ensures
        (match sev_import(old(atom)@, args.deep_view()) {
            Ok(a2) => r is Ok && final(atom)@ == a2,
            Err(e) => r matches Err(err) && err.0@ == e.msg && err.1.deep_view() == e.args
                && final(atom)@ == old(atom)@,
        }),
{
    let ghost av = args.deep_view();
    if args.len() == 2 {
        let ok = match (&args[0], &args[1]) {
            (Node::String(molecule), Node::String(imported_atom)) => {
                atom.insert_import(molecule.as_str(), imported_atom.as_str());
                true
            },
            _ => false,
        };
        if ok {
            return Ok(());
        }
    }
    let e = clone_node_vec(args);
    proof {
        assert(e.deep_view() =~= av);
    }
    Err(("Invalid import".to_owned(), e))
}

/// Dispatches one named form inside an atom.
fn call_atom_function(atom: &mut Atom, name: &str, args: &Vec<Node>) -> (r: Result<
    (),
    (String, Vec<Node>),
>)
    ensures
        (match sev_atom_function(old(atom)@, name@, args.deep_view()) {
            Ok(a2) => r is Ok && final(atom)@ == a2,
            Err(e) => r matches Err(err) && err.0@ == e.msg && err.1.deep_view() == e.args,
        }),
{
    if str_eq(name, "electrons") {
        handle_electrons(atom, args)
    } else if str_eq(name, "import") {
        handle_import(atom, args)
    } else {
        Ok(())
    }
}

/// Handles `(atom name form*)` inside a molecule.
fn handle_atom(molecule: &mut Molecule, args: &Vec<Node>) -> (r: Result<(), (String, Vec<Node>)>)
    requires
        old(molecule).wf(),
    ensures
        final(molecule).wf(),
        (match sev_atom(old(molecule)@, args.deep_view()) {
            Ok(m2) => r is Ok && final(molecule)@ == m2,
            Err(e) => r matches Err(err) && err.0@ == e.msg && err.1.deep_view() == e.args
                && final(molecule)@ == old(molecule)@,
        }),
{
    let ghost av = args.deep_view();
    if args.len() >= 1 {
        let name = match &args[0] {
            Node::String(name) => Some(name),
            _ => None,
        };
        match name {
            Some(name) => {
                let mut atom = Atom::new(name.as_str());
                let ghost a0 = atom@;
                let mut i: usize = 1;
                while i < args.len()
                    invariant
                        1 <= i <= args.len(),
                        av == args.deep_view(),
                        av.len() == args.len(),
                        molecule.wf(),
                        molecule@ == old(molecule)@,
                        av[0] is Text,
                        a0 == (AtomV {
                            name: av[0]->Text_0,
                            electrons: Seq::<Seq<char>>::empty(),
                            imports: Seq::<(Seq<char>, Seq<char>)>::empty(),
                        }),
                        sev_atom_forms(a0, av, 1) == sev_atom_forms(atom@, av, i as int),
                    decreases args.len() - i,
                {
                    let ghost ab = atom@;
                    proof {
                        assert(av[i as int] == args@[i as int]@);
                    }
                    match &args[i] {
                        Node::Function(fname, fargs) => {
                            match call_atom_function(&mut atom, fname.as_str(), fargs) {
                                Ok(_) => {},
                                Err(e) => {
                                    return Err(e);
                                },
                            }
                        },
                        _ => {},
                    }
                    proof {
                        assert(sev_atom_forms(ab, av, i as int) == sev_atom_forms(
                            atom@,
                            av,
                            i + 1,
                        ));
                    }
                    i = i + 1;
                }
                molecule.insert_atom(&atom);
                Ok(())
            },
            None => {
                let e = clone_node_vec(args);
                proof {
                    assert(e.deep_view() =~= av);
                }
                Err(("Invalid atom".to_owned(), e))
            },
        }
    } else {
        let e = clone_node_vec(args);
        proof {
            assert(e.deep_view() =~= av);
        }
        Err(("Invalid atom".to_owned(), e))
    }
}

/// Builds `(& selector body*)` as a pure value.
fn build_rule(args: &Vec<Node>) -> (r: Result<CSSRule, (String, Vec<Node>)>)
    ensures
        (match sbuild_rule(args.deep_view()) {
            Ok(rv) => r matches Ok(rule) && rule@ == rv,
            Err(e) => r matches Err(err) && err.0@ == e.msg && err.1.deep_view() == e.args,
        }),
    decreases args,
{
    let ghost av = args.deep_view();
    if args.len() >= 1 {
        let selector = match &args[0] {
            Node::String(selector) => Some(selector),
            _ => None,
        };
        match selector {
            Some(selector) => {
                let mut rule = CSSRule::new(selector.as_str());
                let ghost r0 = rule@;
                proof {
                    assert(r0.children =~= Seq::<CSSNodeV>::empty());
                }
                let mut i: usize = 1;
                while i < args.len()
                    invariant
                        1 <= i <= args.len(),
                        av == args.deep_view(),
                        av.len() == args.len(),
                        av[0] is Text,
                        r0 == (CSSRuleV {
                            selector: av[0]->Text_0,
                            children: Seq::<CSSNodeV>::empty(),
                        }),
                        srule_children(r0, av, 1) == srule_children(rule@, av, i as int),
                    decreases args.len() - i,
                {
                    let ghost rb = rule@;
                    proof {
                        assert(av[i as int] == node_view(args@[i as int]));
                    }
                    match &args[i] {
                        Node::Function(fname, fargs) => {
                            if str_eq(fname.as_str(), "@") {
                                match build_at_rule(fargs) {
                                    Ok(at) => {
                                        rule.insert_at_rule(&at);
                                    },
                                    Err(e) => {
                                        return Err(e);
                                    },
                                }
                            } else if str_eq(fname.as_str(), "&") {
                                match build_rule(fargs) {
                                    Ok(nested) => {
                                        rule.insert_rule(&nested);
                                    },
                                    Err(e) => {
                                        return Err(e);
                                    },
                                }
                            } else {
                                let value = if fargs.len() == 1 {
                                    match &fargs[0] {
                                        Node::String(value) => Some(value),
                                        _ => None,
                                    }
                                } else {
                                    None
                                };
                                match value {
                                    Some(value) => {
                                        rule.insert_declaration(
                                            &CSSDeclaration::new(fname.as_str(), value.as_str()),
                                        );
                                    },
                                    None => {
                                        let e = clone_node_vec(fargs);
                                        proof {
                                            assert(e.deep_view() =~= fargs.deep_view());
                                        }
                                        return Err(("Invalid declaration".to_owned(), e));
                                    },
                                }
                            }
                        },
                        _ => {},
                    }
                    proof {
                        assert(srule_children(rb, av, i as int) == srule_children(
                            rule@,
                            av,
                            i + 1,
                        ));
                    }
                    i = i + 1;
                }
                Ok(rule)
            },
            None => {
                let e = clone_node_vec(args);
                proof {
                    assert(e.deep_view() =~= av);
                }
                Err(("Invalid rule".to_owned(), e))
            },
        }
    } else {
        let e = clone_node_vec(args);
        proof {
            assert(e.deep_view() =~= av);
        }
        Err(("Invalid rule".to_owned(), e))
    }
}

/// Builds `(@ ...)` as a pure value.
fn build_at_rule(args: &Vec<Node>) -> (r: Result<CSSAtRule, (String, Vec<Node>)>)
    ensures
        (match sbuild_at_rule(args.deep_view()) {
            Ok(rv) => r matches Ok(at) && at@ == rv,
            Err(e) => r matches Err(err) && err.0@ == e.msg && err.1.deep_view() == e.args,
        }),
    decreases args,
{
    let ghost av = args.deep_view();
    if args.len() == 1 {
        match &args[0] {
            Node::String(name) => {
                let at = CSSAtRule::new(name.as_str(), None);
                return Ok(at);
            },
            _ => {},
        }
    } else if args.len() == 2 {
        let names = match (&args[0], &args[1]) {
            (Node::String(name), Node::String(params)) => Some((name, params)),
            _ => None,
        };
        match names {
            Some((name, params)) => {
                let at = CSSAtRule::new(name.as_str(), Some(params.as_str()));
                return Ok(at);
            },
            None => {},
        }
    } else if args.len() >= 3 {
        let names = match (&args[0], &args[1]) {
            (Node::String(name), Node::String(params)) => Some((name, params)),
            _ => None,
        };
        match names {
            Some((name, params)) => {
                let mut at = CSSAtRule::new(name.as_str(), Some(params.as_str()));
                let ghost a0 = at@;
                proof {
                    assert(a0.children =~= Seq::<CSSNodeV>::empty());
                }
                let mut i: usize = 2;
                while i < args.len()
                    invariant
                        2 <= i <= args.len(),
                        av == args.deep_view(),
                        av.len() == args.len(),
                        av.len() >= 3,
                        av[0] is Text,
                        av[1] is Text,
                        a0 == (CSSAtRuleV {
                            name: av[0]->Text_0,
                            params: Some(av[1]->Text_0),
                            children: Seq::<CSSNodeV>::empty(),
                        }),
                        sat_children(a0, av, 2) == sat_children(at@, av, i as int),
                    decreases args.len() - i,
                {
                    let step = handle_at_child(&mut at, args, i);
                    match step {
                        Ok(_) => {},
                        Err(e) => {
                            return Err(e);
                        },
                    }
                    i = i + 1;
                }
                return Ok(at);
            },
            None => {},
        }
    }
    let e = clone_node_vec(args);
    proof {
        assert(e.deep_view() =~= av);
    }
    Err(("Invalid at rule".to_owned(), e))
}

/// One body form of a parameterized at-rule.
fn handle_at_child(at: &mut CSSAtRule, args: &Vec<Node>, i: usize) -> (r: Result<
    (),
    (String, Vec<Node>),
>)
    requires
        i < args@.len(),
    ensures
        (match r {
            Ok(_) => sat_children(old(at)@, args.deep_view(), i as int) == sat_children(
                final(at)@,
                args.deep_view(),
                i + 1,
            ),
            Err(err) => sat_children(old(at)@, args.deep_view(), i as int) matches Err(e)
                && err.0@ == e.msg && err.1.deep_view() == e.args,
        }),
    decreases args, args@.len() - i,
{
    let ghost av = args.deep_view();
    proof {
        assert(av[i as int] == node_view(args@[i as int]));
    }
    match &args[i] {
        Node::Function(fname, fargs) => {
            if str_eq(fname.as_str(), "&") {
                match build_rule(fargs) {
                    Ok(rule) => {
                        at.insert_rule(&rule);
                        proof {
                            assert(sat_children(old(at)@, av, i as int) == sat_children(
                                at@,
                                av,
                                i + 1,
                            ));
                        }
                        Ok(())
                    },
                    Err(_) => {
                        let e = clone_node_vec(fargs);
                        proof {
                            assert(e.deep_view() =~= fargs.deep_view());
                        }
                        Err(("Invalid rule".to_owned(), e))
                    },
                }
            } else if str_eq(fname.as_str(), "@") {
                match build_at_rule(fargs) {
                    Ok(nested) => {
                        at.insert_at_rule(&nested);
                        proof {
                            assert(sat_children(old(at)@, av, i as int) == sat_children(
                                at@,
                                av,
                                i + 1,
                            ));
                        }
                        Ok(())
                    },
                    Err(_) => {
                        let e = clone_node_vec(fargs);
                        proof {
                            assert(e.deep_view() =~= fargs.deep_view());
                        }
                        Err(("Invalid at rule".to_owned(), e))
                    },
                }
            } else if fargs.len() == 1 {
                let value = match &fargs[0] {
                    Node::String(value) => Some(value),
                    _ => None,
                };
                match value {
                    Some(value) => {
                        at.insert_declaration(&CSSDeclaration::new(fname.as_str(), value.as_str()));
                        proof {
                            assert(sat_children(old(at)@, av, i as int) == sat_children(
                                at@,
                                av,
                                i + 1,
                            ));
                        }
                        Ok(())
                    },
                    None => {
                        let e = clone_node_vec(fargs);
                        proof {
                            assert(e.deep_view() =~= fargs.deep_view());
                        }
                        Err(("Invalid declaration".to_owned(), e))
                    },
                }
            } else {
                let e = clone_node_vec(args);
                proof {
                    assert(e.deep_view() =~= av);
                }
                Err(("Invalid rule".to_owned(), e))
            }
        },
        _ => {
            let e = clone_node_vec(args);
            proof {
                assert(e.deep_view() =~= av);
            }
            Err(("Invalid rule".to_owned(), e))
        },
    }
}

/// Handles `(& ...)` inside a molecule: builds the rule and attaches it.
fn handle_rule(molecule: &mut Molecule, args: &Vec<Node>) -> (r: Result<(), (String, Vec<Node>)>)
    requires
        old(molecule).wf(),
    ensures
        final(molecule).wf(),
        (match sbuild_rule(args.deep_view()) {
            Ok(rv) => r is Ok && final(molecule)@ == spec_insert_css(old(molecule)@, rule_css(rv)),
            Err(e) => r matches Err(err) && err.0@ == e.msg && err.1.deep_view() == e.args
                && final(molecule)@ == old(molecule)@,
        }),
{
    match build_rule(args) {
        Ok(rule) => {
            molecule.insert_css_rule(&rule);
            Ok(())
        },
        Err(e) => Err(e),
    }
}

/// Handles `(@ ...)` inside a molecule: builds the at-rule and attaches it.
fn handle_at_rule(molecule: &mut Molecule, args: &Vec<Node>) -> (r: Result<
    (),
    (String, Vec<Node>),
>)
    requires
        old(molecule).wf(),
    ensures
        final(molecule).wf(),
        (match sbuild_at_rule(args.deep_view()) {
            Ok(rv) => r is Ok && final(molecule)@ == spec_insert_css(
                old(molecule)@,
                at_rule_css(rv),
            ),
            Err(e) => r matches Err(err) && err.0@ == e.msg && err.1.deep_view() == e.args
                && final(molecule)@ == old(molecule)@,
        }),
{
    match build_at_rule(args) {
        Ok(at) => {
            molecule.insert_css_at_rule(&at);
            Ok(())
        },
        Err(e) => Err(e),
    }
}

/// Dispatches one named form inside a molecule.
fn call_molecule_function(molecule: &mut Molecule, name: &str, args: &Vec<Node>) -> (r: Result<
    (),
    (String, Vec<Node>),
>)
    requires
        old(molecule).wf(),
    ensures
        final(molecule).wf(),
        (match sev_molecule_function(old(molecule)@, name@, args.deep_view()) {
            Ok(m2) => r is Ok && final(molecule)@ == m2,
            Err(e) => r matches Err(err) && err.0@ == e.msg && err.1.deep_view() == e.args,
        }),
{
    if str_eq(name, "atom") {
        handle_atom(molecule, args)
    } else if str_eq(name, "&") {
        handle_rule(molecule, args)
    } else if str_eq(name, "@") {
        handle_at_rule(molecule, args)
    } else {
        Ok(())
    }
}

/// Handles `(electron name (property value))` at the top level.
fn handle_electron(organism: &mut Organism, args: &Vec<Node>) -> (r: Result<
    (),
    (String, Vec<Node>),
>)
    requires
        old(organism).wf(),
    ensures
        final(organism).wf(),
        (match sev_electron(old(organism)@, args.deep_view()) {
            Ok(o2) => r is Ok && final(organism)@ == o2,
            Err(e) => r matches Err(err) && err.0@ == e.msg && err.1.deep_view() == e.args
                && final(organism)@ == old(organism)@,
        }),
{
    let ghost av = args.deep_view();
    if args.len() == 2 {
        let parts = match (&args[0], &args[1]) {
            (Node::String(name), Node::Function(property, val)) => Some((name, property, val)),
            _ => None,
        };
        match parts {
            Some((name, property, val)) => {
                if val.len() >= 1 {
                    let value = match &val[0] {
                        Node::String(value) => Some(value),
                        _ => None,
                    };
                    match value {
                        Some(value) => {
                            let electron = Electron::new(
                                name.as_str(),
                                property.as_str(),
                                value.as_str(),
                            );
                            organism.insert_electron(&electron);
                            return Ok(());
                        },
                        None => {},
                    }
                }
                let e = clone_node_vec(args);
                proof {
                    assert(e.deep_view() =~= av);
                }
                return Err(("Expected string value".to_owned(), e));
            },
            None => {},
        }
    }
    let e = clone_node_vec(args);
    proof {
        assert(e.deep_view() =~= av);
    }
    Err(("Invalid electron".to_owned(), e))
}

/// Handles `(molecule name form*)` at the top level.
fn handle_molecule(organism: &mut Organism, args: &Vec<Node>) -> (r: Result<
    (),
    (String, Vec<Node>),
>)
    requires
        old(organism).wf(),
    ensures
        final(organism).wf(),
        (match sev_molecule(old(organism)@, args.deep_view()) {
            Ok(o2) => r is Ok && final(organism)@ == o2,
            Err(e) => r matches Err(err) && err.0@ == e.msg && err.1.deep_view() == e.args
                && final(organism)@ == old(organism)@,
        }),
{
    let ghost av = args.deep_view();
    if args.len() >= 1 {
        let name = match &args[0] {
            Node::String(name) => Some(name),
            _ => None,
        };
        match name {
            Some(name) => {
                let mut molecule = Molecule::new(name.as_str());
                let ghost m0 = molecule@;
                let mut i: usize = 1;
                while i < args.len()
                    invariant
                        1 <= i <= args.len(),
                        av == args.deep_view(),
                        av.len() == args.len(),
                        molecule.wf(),
                        organism.wf(),
                        organism@ == old(organism)@,
                        av[0] is Text,
                        m0 == molecule_init(av[0]->Text_0, false),
                        sev_molecule_forms(m0, av, 1) == sev_molecule_forms(
                            molecule@,
                            av,
                            i as int,
                        ),
                    decreases args.len() - i,
                {
                    let ghost mb = molecule@;
                    proof {
                        assert(av[i as int] == node_view(args@[i as int]));
                    }
                    match &args[i] {
                        Node::Function(fname, fargs) => {
                            match call_molecule_function(&mut molecule, fname.as_str(), fargs) {
                                Ok(_) => {},
                                Err(e) => {
                                    return Err(e);
                                },
                            }
                        },
                        _ => {},
                    }
                    proof {
                        assert(sev_molecule_forms(mb, av, i as int) == sev_molecule_forms(
                            molecule@,
                            av,
                            i + 1,
                        ));
                    }
                    i = i + 1;
                }
                if molecule.css_vars_resolved() {
                    organism.insert_molecule(&molecule);
                    Ok(())
                } else {
                    let e = clone_node_vec(args);
                    proof {
                        assert(e.deep_view() =~= av);
                    }
                    Err(("Unresolved atom reference".to_owned(), e))
                }
            },
            None => {
                let e = clone_node_vec(args);
                proof {
                    assert(e.deep_view() =~= av);
                }
                Err(("Invalid molecule".to_owned(), e))
            },
        }
    } else {
        let e = clone_node_vec(args);
        proof {
            assert(e.deep_view() =~= av);
        }
        Err(("Invalid molecule".to_owned(), e))
    }
}

/// Dispatches one top-level form.
fn call_organism_function(organism: &mut Organism, name: &str, args: &Vec<Node>) -> (r: Result<
    (),
    (String, Vec<Node>),
>)
    requires
        old(organism).wf(),
    ensures
        final(organism).wf(),
        (match sev_organism_function(old(organism)@, name@, args.deep_view()) {
            Ok(o2) => r is Ok && final(organism)@ == o2,
            Err(e) => r matches Err(err) && err.0@ == e.msg && err.1.deep_view() == e.args
                && final(organism)@ == old(organism)@,
        }),
{
    if str_eq(name, "electron") {
        handle_electron(organism, args)
    } else if str_eq(name, "molecule") {
        handle_molecule(organism, args)
    } else {
        Ok(())
    }
}

/// The evaluator's state: one organism, populated form by form.
pub struct Runtime {
    pub organism: Organism,
}

impl Runtime {
    /// The evaluator's invariant: its organism is well-formed.
    pub open spec fn wf(&self) -> bool {
        self.organism.wf()
    }

    pub fn new() -> (r: Self)
        ensures
            r.wf(),
            r.organism@ == crate::organism::organism_init(),
    {
        Runtime { organism: Organism::new() }
    }

    /// Parses `src` and evaluates its forms in order against this runtime's
    /// organism. The first parse or evaluation error stops the run; the
    /// organism keeps everything the earlier forms built.
    pub fn run(&mut self, src: &str) -> (r: Result<(), RunError>)
        requires
            old(self).wf(),
        ensures
            final(self).wf(),
            ({
                let (o2, failure) = spec_run(old(self).organism@, src@);
                &&& final(self).organism@ == o2
                &&& (match failure {
                    None => r is Ok,
                    Some(Ok(ev)) => r matches Err(RunError::Eval(msg, nodes)) && msg@ == ev.msg
                        && nodes.deep_view() == ev.args,
                    Some(Err(pe)) => r matches Err(RunError::Parse(msg, span)) && msg@ == pe.msg
                        && span.start == pe.start && span.end == pe.end,
                })
            }),
    {
        let ghost o0 = self.organism@;
        let ast = match parse(src) {
            Ok(ast) => ast,
            Err((msg, span)) => {
                return Err(RunError::Parse(msg, span));
            },
        };
        let ghost nodes = ast.deep_view();
        let mut i: usize = 0;
        while i < ast.len()
            invariant
                i <= ast.len(),
                nodes == ast.deep_view(),
                nodes.len() == ast.len(),
                o0 == old(self).organism@,
                (sp_parse(src@) matches Ok(ns) && ns == nodes),
                self.wf(),
                sev_document(o0, nodes, 0) == sev_document(self.organism@, nodes, i as int),
            decreases ast.len() - i,
        {
            let ghost ob = self.organism@;
            proof {
                assert(nodes[i as int] == node_view(ast@[i as int]));
            }
            match &ast[i] {
                Node::Function(name, args) => {
                    match call_organism_function(&mut self.organism, name.as_str(), args) {
                        Ok(_) => {},
                        Err((msg, offending)) => {
                            return Err(RunError::Eval(msg, offending));
                        },
                    }
                },
                _ => {},
            }
            proof {
                assert(sev_document(ob, nodes, i as int) == sev_document(
                    self.organism@,
                    nodes,
                    i + 1,
                ));
            }
            i = i + 1;
        }
        Ok(())
    }
}

} // verus!
