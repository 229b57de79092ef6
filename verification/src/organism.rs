//! The organism is the whole-program registry: every electron, every
//! molecule, the dependency graph between molecules, and the export table
//! resolved in topological order. It is created empty, grows monotonically
//! as source forms are evaluated, and is read at the end for CSS and
//! exports.

use vstd::prelude::*;

use crate::assoc::{
    al_contains, al_find, al_get, al_idx, al_put, al_store, al_unique, lemma_al_idx,
    lemma_al_put, set_add, set_push,
};
use crate::atom::AtomName;
use crate::electron::{Electron, ElectronName, ElectronV};
use crate::molecule::{
    molecule_wf, spec_css_vars_resolved, substitute, Molecule, MoleculeName, MoleculeV,
};

verus! {

broadcast use crate::molecule::molecule_view_fields;

// ---------------------------------------------------------------------------
// The dependency graph, kept in an outside graph library.
// ---------------------------------------------------------------------------
/// The molecule names known to the graph.
pub uninterp spec fn graph_nodes(g: DependencyGraph) -> Set<Seq<char>>;

/// The dependency edges of the graph: `(m, d)` says that molecule `m`
/// depends on molecule `d`.
pub uninterp spec fn graph_edges(g: DependencyGraph) -> Set<(Seq<char>, Seq<char>)>;

/// A directed graph over molecule names. The graph itself lives in
/// `petgraph`, behind this opaque struct; its contents are visible to proofs
/// only through [`graph_nodes`] and [`graph_edges`].
#[verifier::external_body]
pub struct DependencyGraph {
    node_ids: std::collections::HashMap<MoleculeName, petgraph::graph::NodeIndex>,
    graph: petgraph::graph::DiGraph<MoleculeName, ()>,
}

/// A nonempty closed walk along dependency edges.
pub open spec fn is_cycle(edges: Set<(Seq<char>, Seq<char>)>, p: Seq<Seq<char>>) -> bool {
    p.len() > 0 && forall|i: int|
        0 <= i < p.len() ==> #[trigger] edges.contains((p[i], p[(i + 1) % (p.len() as int)]))
}

/// No closed walk exists.
pub open spec fn acyclic(edges: Set<(Seq<char>, Seq<char>)>) -> bool {
    forall|p: Seq<Seq<char>>| !is_cycle(edges, p)
}

/// `order` lists every node exactly once, and every dependency `(m, d)`
/// places `d` before `m`.
pub open spec fn is_topo_order(
    order: Seq<Seq<char>>,
    nodes: Set<Seq<char>>,
    edges: Set<(Seq<char>, Seq<char>)>,
) -> bool {
    &&& forall|i: int| 0 <= i < order.len() ==> nodes.contains(#[trigger] order[i])
    &&& forall|n: Seq<char>| nodes.contains(n) ==> order.contains(n)
    &&& forall|i: int, j: int| 0 <= i < j < order.len() ==> order[i] != order[j]
    &&& forall|m: Seq<char>, d: Seq<char>|
        edges.contains((m, d)) ==> exists|x: int, y: int|
            0 <= x < y < order.len() && order[x] == d && order[y] == m
}

/// The acyclic resolution order: in any topological order of the dependency
/// graph, every edge `(m, d)` — molecule `m` depends on molecule `d` —
/// places `d` strictly before `m`.
pub proof fn lemma_topo_order_places_dependencies_first(
    order: Seq<Seq<char>>,
    nodes: Set<Seq<char>>,
    edges: Set<(Seq<char>, Seq<char>)>,
    m: Seq<char>,
    d: Seq<char>,
)
    requires
        is_topo_order(order, nodes, edges),
        edges.contains((m, d)),
    ensures
        (exists|x: int, y: int| 0 <= x < y < order.len() && order[x] == d && order[y] == m),
{
}

impl DependencyGraph {
    /// Relies on `petgraph::graph::DiGraph::new` (named `with_capacity(0, 0)`
    /// internally): a graph with no nodes and no edges.
    #[verifier::external_body]
    pub fn new() -> (g: Self)
        ensures
            graph_nodes(g) == Set::<Seq<char>>::empty(),
            graph_edges(g) == Set::<(Seq<char>, Seq<char>)>::empty(),
    {
        DependencyGraph {
            node_ids: std::collections::HashMap::new(),
            graph: petgraph::graph::DiGraph::new(),
        }
    }

    /// Relies on `petgraph::graph::Graph::add_node`, which adds one node and
    /// touches no edge; adding a name a second time is skipped here, so the
    /// node set grows by at most this name.
    #[verifier::external_body]
    pub fn add_molecule(&mut self, molecule: &str)
        ensures
            graph_nodes(*final(self)) == graph_nodes(*old(self)).insert(molecule@),
            graph_edges(*final(self)) == graph_edges(*old(self)),
    {
        if !self.node_ids.contains_key(molecule) {
            let id = self.graph.add_node(molecule.to_owned());
            self.node_ids.insert(molecule.to_owned(), id);
        }
    }

    /// Relies on `petgraph::graph::Graph::add_edge` and `add_node`: both
    /// endpoints are added as nodes if missing, and one edge is added. The
    /// edge is stored from `to` towards `from`, so that a topological sort
    /// of the stored graph yields dependencies before their dependents.
    #[verifier::external_body]
    pub fn add_dependency(&mut self, from: &str, to: &str)
        ensures
            graph_nodes(*final(self)) == graph_nodes(*old(self)).insert(from@).insert(to@),
            graph_edges(*final(self)) == graph_edges(*old(self)).insert((from@, to@)),
    {
        self.add_molecule(from);
        self.add_molecule(to);
        let from_id = self.node_ids[from];
        let to_id = self.node_ids[to];
        self.graph.add_edge(to_id, from_id, ());
    }

    /// Relies on `petgraph::algo::toposort`: on an acyclic graph it returns
    /// every node exactly once, each node ordered before its successors in
    /// the stored graph — dependencies first, in our orientation — and on a
    /// cyclic graph (self-loops included) it returns `Err` with a node that
    /// participates in a cycle. Node indices are turned into names by
    /// indexing the graph.
    #[verifier::external_body]
    pub fn get_topological_order(&self) -> (r: Result<Vec<MoleculeName>, MoleculeName>)
        ensures
            (match r {
                Ok(order) => {
                    &&& acyclic(graph_edges(*self))
                    &&& is_topo_order(order.deep_view(), graph_nodes(*self), graph_edges(*self))
                },
                Err(n) => {
                    &&& graph_nodes(*self).contains(n@)
                    &&& exists|p: Seq<Seq<char>>|
                        is_cycle(graph_edges(*self), p) && p.contains(n@)
                },
            }),
    {
        match petgraph::algo::toposort(&self.graph, None) {
            Ok(order) => Ok(order.iter().map(|id| self.graph[*id].clone()).collect()),
            Err(cycle) => Err(self.graph[cycle.node_id()].clone()),
        }
    }
}

// ---------------------------------------------------------------------------
// The organism and its model.
// ---------------------------------------------------------------------------
/// The export table's model: per molecule, per atom, the list of exported
/// class names in resolution order.
pub type ExportsV = Seq<(Seq<char>, Seq<(Seq<char>, Seq<Seq<char>>)>)>;

/// The mathematical value of an [`Organism`].
#[verifier::ext_equal]
pub ghost struct OrganismV {
    pub electrons: Seq<(Seq<char>, ElectronV)>,
    pub molecules: Seq<(Seq<char>, MoleculeV)>,
    pub graph_nodes: Set<Seq<char>>,
    pub graph_edges: Set<(Seq<char>, Seq<char>)>,
    pub exports: ExportsV,
    pub css: Seq<char>,
}

pub struct Organism {
    pub electrons: Vec<(ElectronName, Electron)>,
    pub molecules: Vec<(MoleculeName, Molecule)>,
    dependencies: DependencyGraph,
    exports: Vec<(MoleculeName, Vec<(AtomName, Vec<String>)>)>,
    css: String,
}

/// Export resolution failed on a dependency cycle; the payload names a
/// molecule on the cycle.
#[derive(Debug, PartialEq, Eq)]
pub enum GraphError {
    CyclicDependency(MoleculeName),
}

impl View for Organism {
    type V = OrganismV;

    closed spec fn view(&self) -> OrganismV {
        OrganismV {
            electrons: self.electrons.deep_view(),
            molecules: self.molecules.deep_view(),
            graph_nodes: graph_nodes(self.dependencies),
            graph_edges: graph_edges(self.dependencies),
            exports: self.exports.deep_view(),
            css: self.css@,
        }
    }
}

/// The invariant every organism built through this module's methods keeps:
/// the tables are keyed uniquely, and every stored molecule is itself
/// well-formed.
pub open spec fn organism_wf(o: OrganismV) -> bool {
    &&& al_unique(o.electrons)
    &&& al_unique(o.molecules)
    &&& al_unique(o.exports)
    &&& forall|i: int| 0 <= i < o.molecules.len() ==> molecule_wf((#[trigger] o.molecules[i]).1)
}

/// An organism as `new` returns it: empty in every part.
pub open spec fn organism_init() -> OrganismV {
    OrganismV {
        electrons: Seq::<(Seq<char>, ElectronV)>::empty(),
        molecules: Seq::<(Seq<char>, MoleculeV)>::empty(),
        graph_nodes: Set::<Seq<char>>::empty(),
        graph_edges: Set::<(Seq<char>, Seq<char>)>::empty(),
        exports: Seq::<(Seq<char>, Seq<(Seq<char>, Seq<Seq<char>>)>)>::empty(),
        css: Seq::<char>::empty(),
    }
}

/// The CSS rule synthesized for an electron at the organism level:
/// `.{name}{ {property}: {value} }`.
pub open spec fn electron_rule_css(e: ElectronV) -> Seq<char> {
    "."@ + e.name + "{ "@ + e.property + ": "@ + e.value + " }"@
}

/// What inserting an electron does: it is stored under its name, and its
/// synthesized rule joins the organism's CSS.
pub open spec fn spec_insert_electron(o: OrganismV, e: ElectronV) -> OrganismV {
    OrganismV {
        electrons: al_put(o.electrons, e.name, e),
        css: o.css + electron_rule_css(e),
        ..o
    }
}

/// The molecules that `m` depends on: every molecule named by any import of
/// any of its atoms.
pub open spec fn molecule_dep_targets(m: MoleculeV) -> Set<Seq<char>> {
    Set::new(
        |d: Seq<char>|
            exists|x: int, y: int|
                0 <= x < m.atoms.len() && 0 <= y < m.atoms[x].1.imports.len() && (#[trigger] m.atoms[x].1.imports[y]).0 == d,
    )
}

/// The dependency edges contributed by `m`.
pub open spec fn molecule_dep_edges(m: MoleculeV) -> Set<(Seq<char>, Seq<char>)> {
    Set::new(
        |e: (Seq<char>, Seq<char>)| e.0 == m.name && molecule_dep_targets(m).contains(e.1),
    )
}

/// What inserting a molecule does: it is stored under its name, its fully
/// substituted CSS joins the organism's CSS, its name joins the graph, and
/// its imports add one dependency edge each.
pub open spec fn spec_insert_molecule(o: OrganismV, m: MoleculeV) -> OrganismV {
    OrganismV {
        electrons: o.electrons,
        molecules: al_put(o.molecules, m.name, m),
        graph_nodes: o.graph_nodes.insert(m.name).union(molecule_dep_targets(m)),
        graph_edges: o.graph_edges.union(molecule_dep_edges(m)),
        exports: o.exports,
        css: o.css + substitute(m.css, m.selectors),
    }
}

impl Organism {
    /// The invariant threaded through every method of this type.
    pub open spec fn wf(&self) -> bool {
        organism_wf(self@)
    }

    pub fn new() -> (r: Self)
        ensures
            r.wf(),
            r@ == organism_init(),
    {
        let r = Organism {
            electrons: Vec::new(),
            molecules: Vec::new(),
            dependencies: DependencyGraph::new(),
            exports: Vec::new(),
            css: String::new(),
        };
        proof {
            assert(r@.electrons =~= organism_init().electrons);
            assert(r@.molecules =~= organism_init().molecules);
            assert(r@.exports =~= organism_init().exports);
        }
        r
    }

    pub fn insert_electron(&mut self, electron: &Electron)
        requires
            old(self).wf(),
        ensures
            final(self).wf(),
            final(self)@ == spec_insert_electron(old(self)@, electron@),
    {
        let ghost o0 = self@;
        let e = electron.clone();
        al_store(&mut self.electrons, electron.name.clone().as_str(), e);
        self.css.append(".");
        self.css.append(electron.name.as_str());
        self.css.append("{ ");
        self.css.append(electron.property.as_str());
        self.css.append(": ");
        self.css.append(electron.value.as_str());
        self.css.append(" }");
        proof {
            assert(self@.css =~= o0.css + electron_rule_css(electron@));
            assert(self@ == spec_insert_electron(o0, electron@));
            lemma_al_put(o0.electrons, electron@.name, electron@);
        }
    }

    pub fn insert_molecule(&mut self, molecule: &Molecule)
        requires
            old(self).wf(),
            molecule.wf(),
            spec_css_vars_resolved(molecule@),
        ensures
            final(self).wf(),
            final(self)@ == spec_insert_molecule(old(self)@, molecule@),
    {
        let ghost o0 = self@;
        let ghost mv = molecule@;
        let m = molecule.clone();
        al_store(&mut self.molecules, molecule.name.as_str(), m);
        let css = molecule.get_css();
        self.css.append(css.as_str());
        self.dependencies.add_molecule(molecule.name.as_str());
        proof {
            assert(self@.graph_nodes == o0.graph_nodes.insert(mv.name));
        }
        let ghost base_nodes = o0.graph_nodes.insert(mv.name);
        let mut i: usize = 0;
        while i < molecule.atoms.len()
            invariant
                i <= molecule.atoms.len(),
                mv == molecule@,
                base_nodes == o0.graph_nodes.insert(mv.name),
                self@.electrons == o0.electrons,
                self@.molecules == al_put(o0.molecules, mv.name, mv),
                self@.exports == o0.exports,
                self@.css == o0.css + substitute(mv.css, mv.selectors),
                self@.graph_nodes =~= base_nodes.union(dep_targets_upto(mv, i as int, 0)),
                self@.graph_edges =~= o0.graph_edges.union(dep_edges_upto(mv, i as int, 0)),
            decreases molecule.atoms.len() - i,
        {
            let atom = &molecule.atoms[i].1;
            let mut j: usize = 0;
            while j < atom.imports.len()
                invariant
                    i < molecule.atoms.len(),
                    j <= atom.imports.len(),
                    mv == molecule@,
                    base_nodes == o0.graph_nodes.insert(mv.name),
                    atom@ == mv.atoms[i as int].1,
                    self@.electrons == o0.electrons,
                    self@.molecules == al_put(o0.molecules, mv.name, mv),
                    self@.exports == o0.exports,
                    self@.css == o0.css + substitute(mv.css, mv.selectors),
                    self@.graph_nodes =~= base_nodes.union(dep_targets_upto(mv, i as int, j as int)),
                    self@.graph_edges =~= o0.graph_edges.union(dep_edges_upto(mv, i as int, j as int)),
                decreases atom.imports.len() - j,
            {
                self.dependencies.add_dependency(
                    molecule.name.as_str(),
                    atom.imports[j].0.as_str(),
                );
                proof {
                    let d = atom@.imports[j as int].0;
                    assert(atom.imports@[j as int].0@ == d);
                    assert(molecule.name@ == mv.name);
                    assert(base_nodes.contains(mv.name));
                    assert(dep_targets_upto(mv, i as int, j + 1) =~= dep_targets_upto(
                        mv,
                        i as int,
                        j as int,
                    ).insert(d));
                    lemma_dep_edges_insert(mv, i as int, j as int, d);
                    assert(self@.graph_nodes =~= base_nodes.union(
                        dep_targets_upto(mv, i as int, j as int),
                    ).insert(mv.name).insert(d));
                    assert(self@.graph_nodes =~= base_nodes.union(
                        dep_targets_upto(mv, i as int, j + 1),
                    ));
                    assert(self@.graph_edges =~= o0.graph_edges.union(
                        dep_edges_upto(mv, i as int, j as int),
                    ).insert((mv.name, d)));
                    assert(self@.graph_edges =~= o0.graph_edges.union(
                        dep_edges_upto(mv, i as int, j + 1),
                    ));
                }
                j = j + 1;
            }
            proof {
                assert(dep_targets_upto(mv, i + 1, 0) =~= dep_targets_upto(
                    mv,
                    i as int,
                    mv.atoms[i as int].1.imports.len() as int,
                ));
                assert(dep_edges_upto(mv, i + 1, 0) =~= dep_edges_upto(
                    mv,
                    i as int,
                    mv.atoms[i as int].1.imports.len() as int,
                ));
            }
            i = i + 1;
        }
        proof {
            assert(dep_targets_upto(mv, mv.atoms.len() as int, 0) =~= molecule_dep_targets(mv));
            assert(dep_edges_upto(mv, mv.atoms.len() as int, 0) =~= molecule_dep_edges(mv));
            assert(self@.graph_nodes =~= o0.graph_nodes.insert(mv.name).union(
                molecule_dep_targets(mv),
            ));
            assert(self@.graph_edges =~= o0.graph_edges.union(molecule_dep_edges(mv)));
            assert(self@ =~= spec_insert_molecule(o0, mv));
            molecule.lemma_wf_view();
            lemma_al_put(o0.molecules, mv.name, mv);
            lemma_al_idx(o0.molecules, mv.name);
            let ms = al_put(o0.molecules, mv.name, mv);
            assert forall|x: int| 0 <= x < ms.len() implies molecule_wf(ms[x].1) by {
                if al_contains(o0.molecules, mv.name) {
                    if x != al_idx(o0.molecules, mv.name) {
                        assert(ms[x] == o0.molecules[x]);
                    }
                } else {
                    if x < o0.molecules.len() {
                        assert(ms[x] == o0.molecules[x]);
                    }
                }
            }
            assert(organism_wf(self@));
        }
    }
}

// ---------------------------------------------------------------------------
// Export resolution.
// ---------------------------------------------------------------------------
/// Folds each class of `cs[i..]` into the class list, deduplicated.
pub open spec fn add_all_classes(acc: Seq<Seq<char>>, cs: Seq<Seq<char>>, i: int) -> Seq<Seq<char>>
    decreases cs.len() - i,
{
    if i < 0 || i >= cs.len() {
        acc
    } else {
        add_all_classes(set_add(acc, cs[i]), cs, i + 1)
    }
}

/// Folds an atom's electron names into its class list: each electron is a
/// pre-existing utility class, used under its own name.
pub open spec fn add_electron_classes(
    acc: Seq<Seq<char>>,
    electrons: Seq<Seq<char>>,
    i: int,
) -> Seq<Seq<char>>
    decreases electrons.len() - i,
{
    if i < 0 || i >= electrons.len() {
        acc
    } else {
        add_electron_classes(set_add(acc, electrons[i]), electrons, i + 1)
    }
}

/// Folds the already-resolved export sets of the imported atoms into the
/// class list; an import whose molecule or atom has no entry yet contributes
/// nothing.
pub open spec fn add_import_classes(
    acc: Seq<Seq<char>>,
    exports: ExportsV,
    imports: Seq<(Seq<char>, Seq<char>)>,
    i: int,
) -> Seq<Seq<char>>
    decreases imports.len() - i,
{
    if i < 0 || i >= imports.len() {
        acc
    } else {
        let acc1 = match al_get(exports, imports[i].0) {
            Some(me) => match al_get(me, imports[i].1) {
                Some(classes) => add_all_classes(acc, classes, 0),
                None => acc,
            },
            None => acc,
        };
        add_import_classes(acc1, exports, imports, i + 1)
    }
}

/// The exported class set of one atom: its own derived selector without the
/// leading `.` — only if the atom has accumulated content — then its
/// electrons, then everything inherited through its imports.
pub open spec fn own_class(m: MoleculeV, name: Seq<char>) -> Seq<Seq<char>> {
    match al_get(m.selectors, name) {
        Some(sel) => {
            if (match al_get(m.contents, name) {
                Some(c) => c.len() > 0,
                None => false,
            }) {
                set_add(Seq::<Seq<char>>::empty(), sel.skip(1))
            } else {
                Seq::<Seq<char>>::empty()
            }
        },
        None => Seq::<Seq<char>>::empty(),
    }
}

pub open spec fn spec_atom_classes(
    m: MoleculeV,
    exports: ExportsV,
    name: Seq<char>,
    a: crate::atom::AtomV,
) -> Seq<Seq<char>> {
    let with_electrons = add_electron_classes(own_class(m, name), a.electrons, 0);
    add_import_classes(with_electrons, exports, a.imports, 0)
}

/// Folds the class sets of `m`'s atoms from index `i` on into the per-atom
/// export table.
pub open spec fn spec_exports_fold(
    m: MoleculeV,
    exports: ExportsV,
    acc: Seq<(Seq<char>, Seq<Seq<char>>)>,
    i: int,
) -> Seq<(Seq<char>, Seq<Seq<char>>)>
    decreases m.atoms.len() - i,
{
    if i < 0 || i >= m.atoms.len() {
        acc
    } else {
        let acc1 = al_put(
            acc,
            m.atoms[i].0,
            spec_atom_classes(m, exports, m.atoms[i].0, m.atoms[i].1),
        );
        spec_exports_fold(m, exports, acc1, i + 1)
    }
}

/// The export table computed for one molecule, against the exports resolved
/// so far; an unknown molecule exports nothing.
pub open spec fn spec_molecule_exports(
    molecules: Seq<(Seq<char>, MoleculeV)>,
    exports: ExportsV,
    mol: Seq<char>,
) -> Seq<(Seq<char>, Seq<Seq<char>>)> {
    match al_get(molecules, mol) {
        Some(m) => spec_exports_fold(m, exports, Seq::<(Seq<char>, Seq<Seq<char>>)>::empty(), 0),
        None => Seq::<(Seq<char>, Seq<Seq<char>>)>::empty(),
    }
}

/// The whole export table after visiting `order[i..]`: each visited molecule's
/// exports are computed against the table as it stood when its turn came —
/// sound because dependencies come earlier in the order.
pub open spec fn spec_update_exports(
    molecules: Seq<(Seq<char>, MoleculeV)>,
    exports: ExportsV,
    order: Seq<Seq<char>>,
    i: int,
) -> ExportsV
    decreases order.len() - i,
{
    if i < 0 || i >= order.len() {
        exports
    } else {
        let e1 = al_put(exports, order[i], spec_molecule_exports(molecules, exports, order[i]));
        spec_update_exports(molecules, e1, order, i + 1)
    }
}

impl Organism {
    /// The class contributed by the atom's own derived selector, if it has
    /// accumulated content: the selector without its leading `.`.
    fn own_selector_class(m: &Molecule, name: &str) -> (r: Vec<String>)
        requires
            molecule_wf(m@),
        ensures
            r.deep_view() == own_class(m@, name@),
    {
        let ghost mv = m@;
        let mut classes: Vec<String> = Vec::new();
        proof {
            assert(classes.deep_view() =~= Seq::<Seq<char>>::empty());
        }
        match m.get_atom_selector(name) {
            Some(selector) => {
                if m.has_hashable_content(name) {
                    proof {
                        lemma_al_idx(mv.selectors, name@);
                        reveal_strlit(".");
                        assert(selector@.len() >= 1);
                    }
                    let len = selector.as_str().unicode_len();
                    let stripped = selector.as_str().substring_char(1, len);
                    set_push(&mut classes, stripped);
                    proof {
                        assert(stripped@ =~= selector@.skip(1));
                        assert(classes.deep_view() =~= set_add(
                            Seq::<Seq<char>>::empty(),
                            selector@.skip(1),
                        ));
                    }
                }
            },
            None => {},
        }
        classes
    }

    /// The exported classes of one atom of `m`, resolved against the current
    /// export table.
    fn atom_classes(&self, m: &Molecule, name: &str, atom: &crate::atom::Atom) -> (r: Vec<String>)
        requires
            molecule_wf(m@),
        ensures
            r.deep_view() == spec_atom_classes(m@, self@.exports, name@, atom@),
    {
        let ghost mv = m@;
        let ghost exps = self@.exports;
        let mut classes = Self::own_selector_class(m, name);
        let ghost own = classes.deep_view();
        let mut k: usize = 0;
        while k < atom.electrons.len()
            invariant
                k <= atom.electrons.len(),
                add_electron_classes(own, atom@.electrons, 0) == add_electron_classes(
                    classes.deep_view(),
                    atom@.electrons,
                    k as int,
                ),
            decreases atom.electrons.len() - k,
        {
            set_push(&mut classes, atom.electrons[k].as_str());
            k = k + 1;
        }
        let ghost with_electrons = classes.deep_view();
        proof {
            assert(with_electrons == add_electron_classes(own, atom@.electrons, 0));
        }
        self.add_imported_classes(&mut classes, &atom.imports);
        classes
    }

    /// Folds the already-resolved exports of the imported atoms into
    /// `classes`.
    fn add_imported_classes(&self, classes: &mut Vec<String>, imports: &Vec<(String, AtomName)>)
        ensures
            final(classes).deep_view() == add_import_classes(
                old(classes).deep_view(),
                self@.exports,
                imports.deep_view(),
                0,
            ),
    {
        let ghost exps = self@.exports;
        let ghost iv = imports.deep_view();
        let ghost start = classes.deep_view();
        let mut k2: usize = 0;
        while k2 < imports.len()
            invariant
                k2 <= imports.len(),
                exps == self@.exports,
                iv == imports.deep_view(),
                iv.len() == imports.len(),
                add_import_classes(start, exps, iv, 0) == add_import_classes(
                    classes.deep_view(),
                    exps,
                    iv,
                    k2 as int,
                ),
            decreases imports.len() - k2,
        {
            let ghost cs0 = classes.deep_view();
            let molecule_name = imports[k2].0.as_str();
            let atom_name = imports[k2].1.as_str();
            match al_find(&self.exports, molecule_name) {
                Some(x) => {
                    proof {
                        lemma_al_idx(exps, molecule_name@);
                    }
                    let molecule_exports = &self.exports[x].1;
                    match al_find(molecule_exports, atom_name) {
                        Some(y) => {
                            proof {
                                lemma_al_idx(molecule_exports.deep_view(), atom_name@);
                            }
                            let found = &molecule_exports[y].1;
                            let ghost fv = found.deep_view();
                            let mut z: usize = 0;
                            while z < found.len()
                                invariant
                                    z <= found.len(),
                                    fv == found.deep_view(),
                                    fv.len() == found.len(),
                                    add_all_classes(cs0, fv, 0) == add_all_classes(
                                        classes.deep_view(),
                                        fv,
                                        z as int,
                                    ),
                                decreases found.len() - z,
                            {
                                set_push(classes, found[z].as_str());
                                z = z + 1;
                            }
                            proof {
                                assert(classes.deep_view() == add_all_classes(cs0, fv, 0));
                            }
                        },
                        None => {},
                    }
                },
                None => {},
            }
            proof {
                assert(add_import_classes(cs0, exps, iv, k2 as int) == add_import_classes(
                    classes.deep_view(),
                    exps,
                    iv,
                    k2 + 1,
                ));
            }
            k2 = k2 + 1;
        }
    }

    /// The export table of one molecule, resolved against the current export
    /// table; exports of molecules it imports from must already stand there.
    pub fn get_molecule_exports(&self, molecule: &str) -> (r: Vec<(AtomName, Vec<String>)>)
        requires
            self.wf(),
        ensures
            r.deep_view() == spec_molecule_exports(self@.molecules, self@.exports, molecule@),
    {
        let mut exports: Vec<(AtomName, Vec<String>)> = Vec::new();
        let mi = match al_find(&self.molecules, molecule) {
            Some(x) => x,
            None => {
                proof {
                    assert(exports.deep_view() =~= Seq::<(Seq<char>, Seq<Seq<char>>)>::empty());
                }
                return exports;
            },
        };
        proof {
            lemma_al_idx(self@.molecules, molecule@);
        }
        let m = &self.molecules[mi].1;
        let ghost mv = m@;
        let ghost exps = self@.exports;
        proof {
            assert(al_get(self@.molecules, molecule@) == Some(mv));
            assert(molecule_wf(mv));
            assert(exports.deep_view() =~= Seq::<(Seq<char>, Seq<Seq<char>>)>::empty());
        }
        let mut i: usize = 0;
        while i < m.atoms.len()
            invariant
                i <= m.atoms.len(),
                mv == m@,
                molecule_wf(mv),
                exps == self@.exports,
                self.wf(),
                mv.atoms.len() == m.atoms.len(),
                spec_exports_fold(mv, exps, Seq::<(Seq<char>, Seq<Seq<char>>)>::empty(), 0)
                    == spec_exports_fold(mv, exps, exports.deep_view(), i as int),
            decreases m.atoms.len() - i,
        {
            let ghost acc0 = exports.deep_view();
            let atom_name = m.atoms[i].0.as_str();
            let atom = &m.atoms[i].1;
            proof {
                assert(atom_name@ == mv.atoms[i as int].0);
                assert(atom@ == mv.atoms[i as int].1);
            }
            let classes = self.atom_classes(m, atom_name, atom);
            al_store(&mut exports, atom_name, classes);
            proof {
                assert(spec_exports_fold(mv, exps, acc0, i as int) == spec_exports_fold(
                    mv,
                    exps,
                    exports.deep_view(),
                    i + 1,
                ));
            }
            i = i + 1;
        }
        exports
    }

    /// Resolves the export table: molecules are visited in an order that
    /// puts every dependency before its dependents, so each atom's imports
    /// are looked up in already-final entries. A dependency cycle fails the
    /// whole resolution and leaves the organism unchanged.
    pub fn update_exports(&mut self) -> (r: Result<(), GraphError>)
        requires
            old(self).wf(),
        ensures
            final(self).wf(),
            (match r {
                Ok(_) => {
                    &&& acyclic(old(self)@.graph_edges)
                    &&& exists|order: Seq<Seq<char>>|
                        is_topo_order(order, old(self)@.graph_nodes, old(self)@.graph_edges)
                            && final(self)@ == (OrganismV {
                            exports: spec_update_exports(
                                old(self)@.molecules,
                                old(self)@.exports,
                                order,
                                0,
                            ),
                            ..old(self)@
                        })
                },
                Err(e) => {
                    &&& final(self)@ == old(self)@
                    &&& !acyclic(old(self)@.graph_edges)
                    &&& (e matches GraphError::CyclicDependency(n)
                        && old(self)@.graph_nodes.contains(n@))
                },
            }),
    {
        let ghost o0 = self@;
        let order = match self.dependencies.get_topological_order() {
            Ok(o) => o,
            Err(n) => {
                return Err(GraphError::CyclicDependency(n));
            },
        };
        let ghost gorder = order.deep_view();
        let mut i: usize = 0;
        while i < order.len()
            invariant
                i <= order.len(),
                gorder == order.deep_view(),
                gorder.len() == order.len(),
                self.wf(),
                self@.electrons == o0.electrons,
                self@.molecules == o0.molecules,
                self@.graph_nodes == o0.graph_nodes,
                self@.graph_edges == o0.graph_edges,
                self@.css == o0.css,
                spec_update_exports(o0.molecules, o0.exports, gorder, 0) == spec_update_exports(
                    o0.molecules,
                    self@.exports,
                    gorder,
                    i as int,
                ),
            decreases order.len() - i,
        {
            let ghost e0 = self@.exports;
            let name = order[i].as_str();
            let ex = self.get_molecule_exports(name);
            let ghost exv = ex.deep_view();
            al_store(&mut self.exports, name, ex);
            proof {
                lemma_al_put(e0, name@, exv);
                assert(spec_update_exports(o0.molecules, e0, gorder, i as int)
                    == spec_update_exports(o0.molecules, self@.exports, gorder, i + 1));
            }
            i = i + 1;
        }
        proof {
            let target = OrganismV {
                exports: spec_update_exports(o0.molecules, o0.exports, gorder, 0),
                ..o0
            };
            assert(self@ =~= target);
            assert(is_topo_order(gorder, o0.graph_nodes, o0.graph_edges)
                && self@ == target);
        }
        Ok(())
    }

    /// The resolved export table of one molecule, if `update_exports` has
    /// reached it.
    pub fn get_exports(&self, molecule: &str) -> (r: Option<&Vec<(AtomName, Vec<String>)>>)
        ensures
            (match r {
                Some(e) => al_get(self@.exports, molecule@) == Some(e.deep_view()),
                None => al_get(self@.exports, molecule@) is None,
            }),
    {
        match al_find(&self.exports, molecule) {
            Some(x) => {
                proof {
                    lemma_al_idx(self@.exports, molecule@);
                }
                Some(&self.exports[x].1)
            },
            None => None,
        }
    }

    /// The organism-level CSS accumulated so far: one synthesized rule per
    /// electron and each molecule's substituted CSS, in insertion order.
    pub fn get_css(&self) -> (r: &String)
        ensures
            r@ == self@.css,
    {
        &self.css
    }

    pub fn with_electron(self, electron: Electron) -> (r: Self)
        requires
            self.wf(),
        ensures
            r.wf(),
            r@ == spec_insert_electron(self@, electron@),
    {
        let mut this = self;
        this.insert_electron(&electron);
        this
    }

    pub fn with_molecule(self, molecule: Molecule) -> (r: Self)
        requires
            self.wf(),
            molecule.wf(),
            spec_css_vars_resolved(molecule@),
        ensures
            r.wf(),
            r@ == spec_insert_molecule(self@, molecule@),
    {
        let mut this = self;
        this.insert_molecule(&molecule);
        this
    }

    pub fn with_electrons(self, electrons: Vec<Electron>) -> (r: Self)
        requires
            self.wf(),
        ensures
            r.wf(),
            r@ == spec_insert_electrons(self@, electrons.deep_view(), 0),
    {
        let ghost o0 = self@;
        let ghost vs = electrons.deep_view();
        let mut this = self;
        let mut i: usize = 0;
        while i < electrons.len()
            invariant
                i <= electrons.len(),
                vs == electrons.deep_view(),
                vs.len() == electrons.len(),
                this.wf(),
                spec_insert_electrons(o0, vs, 0) == spec_insert_electrons(this@, vs, i as int),
            decreases electrons.len() - i,
        {
            this.insert_electron(&electrons[i]);
            i = i + 1;
        }
        this
    }

    pub fn with_molecules(self, molecules: Vec<Molecule>) -> (r: Self)
        requires
            self.wf(),
            forall|i: int|
                0 <= i < molecules.len() ==> (#[trigger] molecules[i]).wf()
                    && spec_css_vars_resolved(molecules[i]@),
        ensures
            r.wf(),
            r@ == spec_insert_molecules(self@, molecules.deep_view(), 0),
    {
        let ghost o0 = self@;
        let ghost vs = molecules.deep_view();
        let mut this = self;
        let mut i: usize = 0;
        while i < molecules.len()
            invariant
                i <= molecules.len(),
                vs == molecules.deep_view(),
                vs.len() == molecules.len(),
                (forall|k: int|
                    0 <= k < molecules.len() ==> (#[trigger] molecules[k]).wf()
                        && spec_css_vars_resolved(molecules[k]@)),
                this.wf(),
                spec_insert_molecules(o0, vs, 0) == spec_insert_molecules(this@, vs, i as int),
            decreases molecules.len() - i,
        {
            this.insert_molecule(&molecules[i]);
            i = i + 1;
        }
        this
    }
}

/// Folds `electrons[i..]` into the organism.
pub open spec fn spec_insert_electrons(o: OrganismV, electrons: Seq<ElectronV>, i: int) -> OrganismV
    decreases electrons.len() - i,
{
    if i < 0 || i >= electrons.len() {
        o
    } else {
        spec_insert_electrons(spec_insert_electron(o, electrons[i]), electrons, i + 1)
    }
}

/// Folds `molecules[i..]` into the organism.
pub open spec fn spec_insert_molecules(o: OrganismV, molecules: Seq<MoleculeV>, i: int) -> OrganismV
    decreases molecules.len() - i,
{
    if i < 0 || i >= molecules.len() {
        o
    } else {
        spec_insert_molecules(spec_insert_molecule(o, molecules[i]), molecules, i + 1)
    }
}

/// If one more import target joins the target set, the edge set grows by
/// exactly the corresponding edge.
proof fn lemma_dep_edges_insert(m: MoleculeV, i: int, j: int, d: Seq<char>)
    requires
        dep_targets_upto(m, i, j + 1) == dep_targets_upto(m, i, j).insert(d),
    ensures
        dep_edges_upto(m, i, j + 1) == dep_edges_upto(m, i, j).insert((m.name, d)),
{
    assert forall|e: (Seq<char>, Seq<char>)|
        dep_edges_upto(m, i, j + 1).contains(e) == dep_edges_upto(m, i, j).insert(
            (m.name, d),
        ).contains(e) by {
        if e.0 == m.name && e.1 == d {
            assert(dep_targets_upto(m, i, j + 1).contains(d));
        }
    }
    assert(dep_edges_upto(m, i, j + 1) =~= dep_edges_upto(m, i, j).insert((m.name, d)));
}

/// The dependency targets contributed by the atoms before `i`, plus those of
/// the first `j` imports of atom `i`.
pub open spec fn dep_targets_upto(m: MoleculeV, i: int, j: int) -> Set<Seq<char>> {
    Set::new(
        |d: Seq<char>|
            (exists|x: int, y: int|
                0 <= x < i && x < m.atoms.len() && 0 <= y < m.atoms[x].1.imports.len()
                    && (#[trigger] m.atoms[x].1.imports[y]).0 == d) || (0 <= i < m.atoms.len()
                && exists|y: int|
                0 <= y < j && y < m.atoms[i].1.imports.len() && (#[trigger] m.atoms[i].1.imports[y]).0
                    == d),
    )
}

/// The dependency edges contributed likewise.
pub open spec fn dep_edges_upto(m: MoleculeV, i: int, j: int) -> Set<(Seq<char>, Seq<char>)> {
    Set::new(
        |e: (Seq<char>, Seq<char>)| e.0 == m.name && dep_targets_upto(m, i, j).contains(e.1),
    )
}

} // verus!
