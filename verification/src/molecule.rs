//! A molecule is a named bundle of atoms plus a CSS text with `${atomName}`
//! placeholders. Alongside the atoms it keeps a side table of accumulated
//! "hashable content" per atom, from which each atom's class selector is
//! derived: the selector is recomputed after every append, and placeholders
//! are resolved only at rendering time, against the final selectors.

use vstd::prelude::*;

use crate::assoc::{
    al_contains, al_get, al_idx, al_idx_from, al_put, al_unique, lemma_al_idx,
    lemma_al_idx_first, lemma_al_put, set_add, set_push,
};
use crate::atom::{Atom, AtomName, AtomV};
use crate::css::{at_rule_css, rule_css, CSSAtRule, CSSRule};
use crate::electron::ElectronName;
use crate::strutil::{dec_str, fnv1a, fnv1a_hash, str_eq, u64_to_string};

verus! {

pub type MoleculeName = String;

/// The mathematical value of a [`Molecule`].
pub ghost struct MoleculeV {
    pub name: Seq<char>,
    pub dependencies: Seq<Seq<char>>,
    pub atoms: Seq<(Seq<char>, AtomV)>,
    pub selectors: Seq<(Seq<char>, Seq<char>)>,
    pub contents: Seq<(Seq<char>, Seq<char>)>,
    pub css: Seq<char>,
    pub readable: bool,
}

// ---------------------------------------------------------------------------
// Template placeholders: `${name}` with a non-empty name.
// ---------------------------------------------------------------------------
/// The index of the first `}` at or after `i`, or `-1`.
pub open spec fn close_idx(s: Seq<char>, i: int) -> int
    decreases s.len() - i,
{
    if i < 0 || i >= s.len() {
        -1
    } else if s[i] == '}' {
        i
    } else {
        close_idx(s, i + 1)
    }
}

/// A placeholder `${name}` with non-empty `name` starts at position `i`.
pub open spec fn var_at(s: Seq<char>, i: int) -> bool {
    &&& 0 <= i
    &&& i + 1 < s.len()
    &&& s[i] == '$'
    &&& s[i + 1] == '{'
    &&& close_idx(s, i + 2) > i + 2
}

/// The position of the `}` closing the placeholder at `i`.
pub open spec fn var_close(s: Seq<char>, i: int) -> int {
    close_idx(s, i + 2)
}

/// The name inside the placeholder at `i`.
pub open spec fn var_name(s: Seq<char>, i: int) -> Seq<char> {
    s.subrange(i + 2, var_close(s, i))
}

/// Everything `close_idx` says: where the first `}` is, if anywhere.
pub proof fn lemma_close_idx(s: Seq<char>, i: int)
    requires
        0 <= i <= s.len(),
    ensures
        close_idx(s, i) == -1 ==> forall|j: int| i <= j < s.len() ==> s[j] != '}',
        close_idx(s, i) != -1 ==> {
            let x = close_idx(s, i);
            &&& i <= x < s.len()
            &&& s[x] == '}'
            &&& forall|j: int| i <= j < x ==> s[j] != '}'
        },
    decreases s.len() - i,
{
    if i < s.len() && s[i] != '}' {
        lemma_close_idx(s, i + 1);
    }
}

/// The names of all placeholders of `s` at or after `i`, left to right,
/// including one entry per occurrence when a name repeats.
pub open spec fn template_vars_from(s: Seq<char>, i: int) -> Seq<Seq<char>>
    decreases s.len() - i,
{
    if i < 0 || i >= s.len() {
        Seq::<Seq<char>>::empty()
    } else if var_at(s, i) && i < var_close(s, i) + 1 <= s.len() {
        seq![var_name(s, i)] + template_vars_from(s, var_close(s, i) + 1)
    } else {
        template_vars_from(s, i + 1)
    }
}

/// Every placeholder of `s` is replaced by its entry in `sel`; characters
/// outside placeholders are kept. A placeholder without an entry is the
/// caller's error, excluded by the `requires` of every user of this
/// function, and contributes nothing here.
pub open spec fn substitute_from(
    s: Seq<char>,
    sel: Seq<(Seq<char>, Seq<char>)>,
    i: int,
) -> Seq<char>
    decreases s.len() - i,
{
    if i < 0 || i >= s.len() {
        Seq::<char>::empty()
    } else if var_at(s, i) && i < var_close(s, i) + 1 <= s.len() {
        let replacement = match al_get(sel, var_name(s, i)) {
            Some(v) => v,
            None => Seq::<char>::empty(),
        };
        replacement + substitute_from(s, sel, var_close(s, i) + 1)
    } else {
        seq![s[i]] + substitute_from(s, sel, i + 1)
    }
}

/// The fully substituted text.
pub open spec fn substitute(s: Seq<char>, sel: Seq<(Seq<char>, Seq<char>)>) -> Seq<char> {
    substitute_from(s, sel, 0)
}

// ---------------------------------------------------------------------------
// Selectors.
// ---------------------------------------------------------------------------
/// The class selector derived for an atom: `.{molecule}_{atom}_{hash}`, where
/// the hash is the FNV-1a digest of the atom's accumulated content — or, in
/// readable mode, just `.{molecule}_{atom}`.
pub open spec fn selector_for(
    mol: Seq<char>,
    atom: Seq<char>,
    content: Seq<char>,
    readable: bool,
) -> Seq<char> {
    if readable {
        "."@ + mol + "_"@ + atom
    } else {
        "."@ + mol + "_"@ + atom + "_"@ + dec_str(fnv1a(content) as nat)
    }
}

// ---------------------------------------------------------------------------
// Well-formedness.
// ---------------------------------------------------------------------------
/// The invariant every molecule built through this module's methods keeps:
/// the three side tables are keyed alike, entry for entry, in insertion
/// order; keys are unique; every selector is the derived function of its
/// atom's accumulated content; dependencies hold no duplicates.
pub open spec fn molecule_wf(m: MoleculeV) -> bool {
    &&& al_unique(m.atoms)
    &&& m.contents.len() == m.atoms.len()
    &&& m.selectors.len() == m.atoms.len()
    &&& forall|i: int| 0 <= i < m.atoms.len() ==> (#[trigger] m.contents[i]).0 == m.atoms[i].0
    &&& forall|i: int| 0 <= i < m.atoms.len() ==> (#[trigger] m.selectors[i]).0 == m.atoms[i].0
    &&& forall|i: int|
        0 <= i < m.atoms.len() ==> (#[trigger] m.selectors[i]).1 == selector_for(
            m.name,
            m.selectors[i].0,
            m.contents[i].1,
            m.readable,
        )
    &&& forall|i: int, j: int|
        0 <= i < j < m.dependencies.len() ==> m.dependencies[i] != m.dependencies[j]
}

// ---------------------------------------------------------------------------
// The functional model of each mutation.
// ---------------------------------------------------------------------------
/// Folds the molecules named by `imports[i..]` into the dependency list.
pub open spec fn spec_deps_add_imports(
    deps: Seq<Seq<char>>,
    imports: Seq<(Seq<char>, Seq<char>)>,
    i: int,
) -> Seq<Seq<char>>
    decreases imports.len() - i,
{
    if i < 0 || i >= imports.len() {
        deps
    } else {
        spec_deps_add_imports(set_add(deps, imports[i].0), imports, i + 1)
    }
}

/// What inserting an atom does: the atom is stored under its name, the
/// molecules of its imports join the dependency list, its accumulated
/// content starts from the previous content (or empty), and its selector is
/// recomputed.
pub open spec fn spec_insert_atom(m: MoleculeV, a: AtomV) -> MoleculeV {
    let content = match al_get(m.contents, a.name) {
        Some(c) => c,
        None => Seq::<char>::empty(),
    };
    MoleculeV {
        name: m.name,
        dependencies: spec_deps_add_imports(m.dependencies, a.imports, 0),
        atoms: al_put(m.atoms, a.name, a),
        selectors: al_put(m.selectors, a.name, selector_for(m.name, a.name, content, m.readable)),
        contents: al_put(m.contents, a.name, content),
        css: m.css,
        readable: m.readable,
    }
}

/// Appends `text` to one atom's accumulated content and recomputes its
/// selector.
pub open spec fn spec_touch_atom(m: MoleculeV, name: Seq<char>, text: Seq<char>) -> MoleculeV {
    let c0 = match al_get(m.contents, name) {
        Some(c) => c,
        None => Seq::<char>::empty(),
    };
    let c1 = c0 + text;
    MoleculeV {
        selectors: al_put(m.selectors, name, selector_for(m.name, name, c1, m.readable)),
        contents: al_put(m.contents, name, c1),
        ..m
    }
}

/// Folds `text` into the content of every atom that `vars[i..]` names, one
/// append per occurrence; names that are no atom of this molecule are
/// skipped.
pub open spec fn spec_absorb_vars(
    m: MoleculeV,
    text: Seq<char>,
    vars: Seq<Seq<char>>,
    i: int,
) -> MoleculeV
    decreases vars.len() - i,
{
    if i < 0 || i >= vars.len() {
        m
    } else {
        let m1 = if al_contains(m.atoms, vars[i]) {
            spec_touch_atom(m, vars[i], text)
        } else {
            m
        };
        spec_absorb_vars(m1, text, vars, i + 1)
    }
}

/// What inserting a piece of rendered CSS does: the text joins the
/// molecule's raw CSS, and every atom referenced by a `${...}` placeholder
/// in it absorbs the text into its hashable content.
pub open spec fn spec_insert_css(m: MoleculeV, text: Seq<char>) -> MoleculeV {
    let m1 = MoleculeV { css: m.css + text, ..m };
    spec_absorb_vars(m1, text, template_vars_from(text, 0), 0)
}

/// A molecule as `new` returns it: named, and otherwise empty.
pub open spec fn molecule_init(name: Seq<char>, readable: bool) -> MoleculeV {
    MoleculeV {
        name,
        dependencies: Seq::<Seq<char>>::empty(),
        atoms: Seq::<(Seq<char>, AtomV)>::empty(),
        selectors: Seq::<(Seq<char>, Seq<char>)>::empty(),
        contents: Seq::<(Seq<char>, Seq<char>)>::empty(),
        css: Seq::<char>::empty(),
        readable,
    }
}

/// Folds `atoms[i..]` into the molecule, first to last.
pub open spec fn spec_insert_atoms(m: MoleculeV, atoms: Seq<AtomV>, i: int) -> MoleculeV
    decreases atoms.len() - i,
{
    if i < 0 || i >= atoms.len() {
        m
    } else {
        spec_insert_atoms(spec_insert_atom(m, atoms[i]), atoms, i + 1)
    }
}

/// Folds the rendered text of `rules[i..]` into the molecule.
pub open spec fn spec_insert_css_rules(m: MoleculeV, rules: Seq<crate::css::CSSRuleV>, i: int) -> MoleculeV
    decreases rules.len() - i,
{
    if i < 0 || i >= rules.len() {
        m
    } else {
        spec_insert_css_rules(spec_insert_css(m, rule_css(rules[i])), rules, i + 1)
    }
}

/// Folds the rendered text of `at_rules[i..]` into the molecule.
pub open spec fn spec_insert_css_at_rules(
    m: MoleculeV,
    at_rules: Seq<crate::css::CSSAtRuleV>,
    i: int,
) -> MoleculeV
    decreases at_rules.len() - i,
{
    if i < 0 || i >= at_rules.len() {
        m
    } else {
        spec_insert_css_at_rules(spec_insert_css(m, at_rule_css(at_rules[i])), at_rules, i + 1)
    }
}

// ---------------------------------------------------------------------------
// The executable type.
// ---------------------------------------------------------------------------
/// The per-molecule side table: each atom's current selector and its
/// accumulated hashable content.
pub struct HashedAtoms {
    molecule_name: MoleculeName,
    selectors: Vec<(String, String)>,
    hashable_contents: Vec<(String, String)>,
    readable: bool,
}

pub struct Molecule {
    pub name: MoleculeName,
    pub dependencies: Vec<MoleculeName>,
    pub atoms: Vec<(AtomName, Atom)>,
    pub hashed_atoms: HashedAtoms,
    pub css: String,
}

impl View for Molecule {
    type V = MoleculeV;

    closed spec fn view(&self) -> MoleculeV {
        MoleculeV {
            name: self.name@,
            dependencies: self.dependencies.deep_view(),
            atoms: self.atoms.deep_view(),
            selectors: self.hashed_atoms.selectors.deep_view(),
            contents: self.hashed_atoms.hashable_contents.deep_view(),
            css: self.css@,
            readable: self.hashed_atoms.readable,
        }
    }
}

/// How the view's public parts project from the public fields; the selector
/// and content tables stay behind the view.
pub broadcast proof fn molecule_view_fields(m: &Molecule)
    ensures
        (#[trigger] m@).name == m.name@,
        m@.dependencies == m.dependencies.deep_view(),
        m@.atoms == m.atoms.deep_view(),
        m@.css == m.css@,
{
}

impl Molecule {
    /// The invariant threaded through every method of this type.
    pub closed spec fn wf(&self) -> bool {
        &&& self.hashed_atoms.molecule_name@ == self.name@
        &&& molecule_wf(self@)
    }

    /// A well-formed molecule's view satisfies the open model invariant.
    pub proof fn lemma_wf_view(&self)
        requires
            self.wf(),
        ensures
            molecule_wf(self@),
    {
    }
}

// ---------------------------------------------------------------------------
// Private executable helpers on the association vectors.
// ---------------------------------------------------------------------------
/// Finds the entry with key `k` in a string-keyed pair table.
fn find_pair(v: &Vec<(String, String)>, k: &str) -> (r: Option<usize>)
    ensures
        match r {
            Some(i) => al_contains(v.deep_view(), k@) && i == al_idx(v.deep_view(), k@),
            None => !al_contains(v.deep_view(), k@),
        },
{
    let ghost s = v.deep_view();
    let mut i: usize = 0;
    while i < v.len()
        invariant
            i <= v.len(),
            s == v.deep_view(),
            s.len() == v.len(),
            forall|j: int| 0 <= j < i ==> s[j].0 != k@,
        decreases v.len() - i,
    {
        if str_eq(v[i].0.as_str(), k) {
            proof {
                lemma_al_idx_first(s, k@, i as int);
            }
            return Some(i);
        }
        i = i + 1;
    }
    proof {
        lemma_al_idx(s, k@);
    }
    None
}

/// Finds the atom entry with key `k`.
fn find_atom(v: &Vec<(String, Atom)>, k: &str) -> (r: Option<usize>)
    ensures
        match r {
            Some(i) => al_contains(v.deep_view(), k@) && i == al_idx(v.deep_view(), k@),
            None => !al_contains(v.deep_view(), k@),
        },
{
    let ghost s = v.deep_view();
    let mut i: usize = 0;
    while i < v.len()
        invariant
            i <= v.len(),
            s == v.deep_view(),
            s.len() == v.len(),
            forall|j: int| 0 <= j < i ==> s[j].0 != k@,
        decreases v.len() - i,
    {
        if str_eq(v[i].0.as_str(), k) {
            proof {
                lemma_al_idx_first(s, k@, i as int);
            }
            return Some(i);
        }
        i = i + 1;
    }
    proof {
        lemma_al_idx(s, k@);
    }
    None
}

/// Stores `value` under `k`, overwriting in place or appending.
fn put_pair(v: &mut Vec<(String, String)>, k: &str, value: String)
    ensures
        final(v).deep_view() == al_put(old(v).deep_view(), k@, value@),
{
    let ghost s = old(v).deep_view();
    match find_pair(v, k) {
        Some(i) => {
            proof {
                lemma_al_idx(s, k@);
            }
            v.set(i, (k.to_owned(), value));
            proof {
                assert(v.deep_view() =~= s.update(al_idx(s, k@), (k@, value@)));
            }
        },
        None => {
            v.push((k.to_owned(), value));
            proof {
                assert(v.deep_view() =~= s.push((k@, value@)));
            }
        },
    }
}

/// Stores `atom` under `k`, overwriting in place or appending.
fn put_atom(v: &mut Vec<(String, Atom)>, k: &str, atom: Atom)
    ensures
        final(v).deep_view() == al_put(old(v).deep_view(), k@, atom@),
{
    let ghost s = old(v).deep_view();
    let ghost av = atom@;
    match find_atom(v, k) {
        Some(i) => {
            proof {
                lemma_al_idx(s, k@);
            }
            v.set(i, (k.to_owned(), atom));
            proof {
                assert(v.deep_view() =~= s.update(al_idx(s, k@), (k@, av)));
            }
        },
        None => {
            v.push((k.to_owned(), atom));
            proof {
                assert(v.deep_view() =~= s.push((k@, av)));
            }
        },
    }
}

/// Two tables with the same keys in the same order are found at the same
/// index by a lookup.
proof fn lemma_al_idx_aligned<V1, V2>(
    s1: Seq<(Seq<char>, V1)>,
    s2: Seq<(Seq<char>, V2)>,
    k: Seq<char>,
    i: int,
)
    requires
        s1.len() == s2.len(),
        forall|j: int| 0 <= j < s1.len() ==> (#[trigger] s1[j]).0 == s2[j].0,
        0 <= i <= s1.len(),
    ensures
        al_idx_from(s1, k, i) == al_idx_from(s2, k, i),
    decreases s1.len() - i,
{
    if i < s1.len() && s1[i].0 != k {
        lemma_al_idx_aligned(s1, s2, k, i + 1);
    }
}

/// Builds the selector text for an atom from its parts.
fn compute_selector(mol: &str, atom: &str, content: &str, readable: bool) -> (r: String)
    ensures
        r@ == selector_for(mol@, atom@, content@, readable),
{
    let mut s = String::new();
    s.append(".");
    s.append(mol);
    s.append("_");
    s.append(atom);
    if !readable {
        s.append("_");
        let h = fnv1a_hash(content);
        let d = u64_to_string(h);
        s.append(d.as_str());
    }
    s
}

impl Molecule {
    pub fn new(name: &str) -> (r: Self)
        ensures
            r.wf(),
            r@ == molecule_init(name@, false),
    {
        let r = Molecule {
            name: name.to_owned(),
            dependencies: Vec::new(),
            atoms: Vec::new(),
            hashed_atoms: HashedAtoms {
                molecule_name: name.to_owned(),
                selectors: Vec::new(),
                hashable_contents: Vec::new(),
                readable: false,
            },
            css: String::new(),
        };
        proof {
            assert(r@.dependencies =~= molecule_init(name@, false).dependencies);
            assert(r@.atoms =~= molecule_init(name@, false).atoms);
            assert(r@.selectors =~= molecule_init(name@, false).selectors);
            assert(r@.contents =~= molecule_init(name@, false).contents);
        }
        r
    }

    /// Like `new`, but selectors stay readable: `.{molecule}_{atom}`,
    /// without the content hash, for development builds.
    pub fn new_readable(name: &str) -> (r: Self)
        ensures
            r.wf(),
            r@ == molecule_init(name@, true),
    {
        let mut r = Molecule::new(name);
        r.hashed_atoms.readable = true;
        proof {
            assert(r@ =~= molecule_init(name@, true));
        }
        r
    }

    pub fn insert_atom(&mut self, atom: &Atom)
        requires
            old(self).wf(),
        ensures
            final(self).wf(),
            final(self)@ == spec_insert_atom(old(self)@, atom@),
    {
        let ghost m0 = self@;
        let a = atom.clone();
        put_atom(&mut self.atoms, atom.name.as_str(), a);

        let mut i: usize = 0;
        while i < atom.imports.len()
            invariant
                i <= atom.imports.len(),
                self@.name == m0.name,
                self@.atoms == al_put(m0.atoms, atom@.name, atom@),
                self@.selectors == m0.selectors,
                self@.contents == m0.contents,
                self@.css == m0.css,
                self@.readable == m0.readable,
                self.hashed_atoms.molecule_name@ == old(self).hashed_atoms.molecule_name@,
                spec_deps_add_imports(m0.dependencies, atom@.imports, 0) == spec_deps_add_imports(
                    self@.dependencies,
                    atom@.imports,
                    i as int,
                ),
            decreases atom.imports.len() - i,
        {
            set_push(&mut self.dependencies, atom.imports[i].0.as_str());
            i = i + 1;
        }

        let name = atom.name.clone();
        let c0: String = match find_pair(&self.hashed_atoms.hashable_contents, name.as_str()) {
            Some(j) => {
                proof {
                    lemma_al_idx(self@.contents, name@);
                }
                self.hashed_atoms.hashable_contents[j].1.clone()
            },
            None => String::new(),
        };
        let sel = compute_selector(
            self.hashed_atoms.molecule_name.as_str(),
            name.as_str(),
            c0.as_str(),
            self.hashed_atoms.readable,
        );
        put_pair(&mut self.hashed_atoms.selectors, name.as_str(), sel);
        put_pair(&mut self.hashed_atoms.hashable_contents, name.as_str(), c0);
        proof {
            assert(self@.dependencies == spec_insert_atom(m0, atom@).dependencies);
            assert(self@ == spec_insert_atom(m0, atom@));
            self.lemma_insert_atom_wf(m0, atom@);
        }
    }

    /// The bookkeeping behind `insert_atom` keeps the molecule well-formed.
    proof fn lemma_insert_atom_wf(&self, m0: MoleculeV, a: AtomV)
        requires
            molecule_wf(m0),
            self@ == spec_insert_atom(m0, a),
            self.hashed_atoms.molecule_name@ == m0.name,
        ensures
            self.wf(),
    {
        let m1 = self@;
        let k = a.name;
        let content = match al_get(m0.contents, k) {
            Some(c) => c,
            None => Seq::<char>::empty(),
        };
        let sel = selector_for(m0.name, k, content, m0.readable);
        lemma_al_idx_aligned(m0.atoms, m0.contents, k, 0);
        lemma_al_idx_aligned(m0.atoms, m0.selectors, k, 0);
        lemma_al_idx(m0.atoms, k);
        lemma_al_put(m0.atoms, k, a);
        lemma_deps_add_imports_unique(m0.dependencies, a.imports, 0);
        if al_contains(m0.atoms, k) {
            let x = al_idx(m0.atoms, k);
            assert(m1.atoms == m0.atoms.update(x, (k, a)));
            assert(m1.contents == m0.contents.update(x, (k, content)));
            assert(m1.selectors == m0.selectors.update(x, (k, sel)));
            assert(m0.contents[x].1 == content);
            assert forall|i: int, j: int| 0 <= i < j < m1.atoms.len() implies m1.atoms[i].0
                != m1.atoms[j].0 by {
                assert(m1.atoms[i].0 == m0.atoms[i].0);
                assert(m1.atoms[j].0 == m0.atoms[j].0);
            }
        } else {
            assert(m1.atoms == m0.atoms.push((k, a)));
            assert(m1.contents == m0.contents.push((k, content)));
            assert(m1.selectors == m0.selectors.push((k, sel)));
        }
    }
}

/// Every placeholder of the molecule's raw CSS has a selector entry; only
/// then can the CSS be rendered.
pub open spec fn spec_css_vars_resolved(m: MoleculeV) -> bool {
    forall|j: int|
        0 <= j < template_vars_from(m.css, 0).len() ==> al_contains(
            m.selectors,
            #[trigger] template_vars_from(m.css, 0)[j],
        )
}

/// Decides whether a placeholder starts at position `i` of `text`, and if
/// so, where its closing `}` stands.
fn var_end_at(text: &str, i: usize) -> (r: Option<usize>)
    requires
        i < text@.len(),
    ensures
        (match r {
            Some(j) => var_at(text@, i as int) && var_close(text@, i as int) == j && i + 2 < j
                < text@.len(),
            None => !var_at(text@, i as int),
        }),
{
    let ghost s = text@;
    let len = text.unicode_len();
    if !(text.get_char(i) == '$' && i + 1 < len && text.get_char(i + 1) == '{') {
        return None;
    }
    let mut j: usize = i + 2;
    while j < len && text.get_char(j) != '}'
        invariant
            i + 2 <= j <= len,
            len == s.len(),
            s == text@,
            forall|m: int| i + 2 <= m < j ==> s[m] != '}',
        decreases len - j,
    {
        j = j + 1;
    }
    proof {
        lemma_close_idx(s, i + 2);
        if j < len {
            assert(s[j as int] == '}');
            assert(close_idx(s, i + 2) == j);
        }
    }
    if j < len && j > i + 2 {
        Some(j)
    } else {
        None
    }
}

/// Collects the placeholder names of `text`, in order, duplicates kept.
fn scan_vars(text: &str) -> (r: Vec<String>)
    ensures
        r.deep_view() == template_vars_from(text@, 0),
{
    let ghost s = text@;
    let len = text.unicode_len();
    let mut out: Vec<String> = Vec::new();
    let mut i: usize = 0;
    while i < len
        invariant
            i <= len,
            len == s.len(),
            s == text@,
            template_vars_from(s, 0) =~= out.deep_view() + template_vars_from(s, i as int),
        decreases len - i,
    {
        let ghost out0 = out.deep_view();
        match var_end_at(text, i) {
            Some(j) => {
                let name = text.substring_char(i + 2, j);
                out.push(name.to_owned());
                proof {
                    assert(name@ =~= var_name(s, i as int));
                    assert(out.deep_view() =~= out0.push(var_name(s, i as int)));
                    assert(template_vars_from(s, i as int) == seq![var_name(s, i as int)]
                        + template_vars_from(s, j + 1));
                    assert(template_vars_from(s, 0) =~= out.deep_view() + template_vars_from(
                        s,
                        j + 1,
                    ));
                }
                i = j + 1;
            },
            None => {
                proof {
                    assert(template_vars_from(s, i as int) == template_vars_from(s, i + 1));
                }
                i = i + 1;
            },
        }
    }
    proof {
        assert(template_vars_from(s, len as int) =~= Seq::<Seq<char>>::empty());
        assert(out.deep_view() =~= template_vars_from(s, 0));
    }
    out
}

impl Molecule {
    /// Appends `text` to one atom's hashable content and recomputes its
    /// selector.
    fn touch_atom(&mut self, name: &str, text: &str)
        requires
            old(self).wf(),
            al_contains(old(self)@.atoms, name@),
        ensures
            final(self).wf(),
            final(self)@ == spec_touch_atom(old(self)@, name@, text@),
    {
        let ghost m0 = self@;
        let c0: String = match find_pair(&self.hashed_atoms.hashable_contents, name) {
            Some(j) => {
                proof {
                    lemma_al_idx(m0.contents, name@);
                }
                self.hashed_atoms.hashable_contents[j].1.clone()
            },
            None => String::new(),
        };
        let mut c1 = c0;
        c1.append(text);
        let sel = compute_selector(
            self.hashed_atoms.molecule_name.as_str(),
            name,
            c1.as_str(),
            self.hashed_atoms.readable,
        );
        put_pair(&mut self.hashed_atoms.selectors, name, sel);
        put_pair(&mut self.hashed_atoms.hashable_contents, name, c1);
        proof {
            assert(self@ == spec_touch_atom(m0, name@, text@));
            self.lemma_touch_atom_wf(m0, name@, text@);
        }
    }

    /// The bookkeeping behind `touch_atom` keeps the molecule well-formed.
    proof fn lemma_touch_atom_wf(&self, m0: MoleculeV, k: Seq<char>, text: Seq<char>)
        requires
            molecule_wf(m0),
            al_contains(m0.atoms, k),
            self@ == spec_touch_atom(m0, k, text),
            self.hashed_atoms.molecule_name@ == m0.name,
        ensures
            self.wf(),
    {
        let m1 = self@;
        let c0 = match al_get(m0.contents, k) {
            Some(c) => c,
            None => Seq::<char>::empty(),
        };
        let c1 = c0 + text;
        let sel = selector_for(m0.name, k, c1, m0.readable);
        lemma_al_idx_aligned(m0.atoms, m0.contents, k, 0);
        lemma_al_idx_aligned(m0.atoms, m0.selectors, k, 0);
        lemma_al_idx(m0.atoms, k);
        let x = al_idx(m0.atoms, k);
        assert(m0.contents[x].1 == c0);
        assert(m1.contents == m0.contents.update(x, (k, c1)));
        assert(m1.selectors == m0.selectors.update(x, (k, sel)));
    }

    /// Appends a piece of rendered CSS to the molecule's raw CSS and lets
    /// every atom referenced by a placeholder in it absorb the text.
    fn insert_css_text(&mut self, text: &str)
        requires
            old(self).wf(),
        ensures
            final(self).wf(),
            final(self)@ == spec_insert_css(old(self)@, text@),
    {
        let ghost m0 = self@;
        self.css.append(text);
        let ghost m1 = MoleculeV { css: m0.css + text@, ..m0 };
        proof {
            assert(self@ == m1);
        }
        let vars = scan_vars(text);
        let ghost vs = template_vars_from(text@, 0);
        let mut k: usize = 0;
        while k < vars.len()
            invariant
                k <= vars.len(),
                vars.deep_view() == vs,
                vs.len() == vars.len(),
                self.wf(),
                spec_absorb_vars(m1, text@, vs, 0) == spec_absorb_vars(
                    self@,
                    text@,
                    vs,
                    k as int,
                ),
            decreases vars.len() - k,
        {
            let ghost mk = self@;
            let name = vars[k].as_str();
            proof {
                assert(name@ == vs[k as int]);
            }
            match find_atom(&self.atoms, name) {
                Some(_) => {
                    self.touch_atom(name, text);
                },
                None => {},
            }
            proof {
                assert(spec_absorb_vars(mk, text@, vs, k as int) == spec_absorb_vars(
                    self@,
                    text@,
                    vs,
                    k + 1,
                ));
            }
            k = k + 1;
        }
        proof {
            assert(spec_absorb_vars(self@, text@, vs, vs.len() as int) == self@);
            assert(self@ == spec_insert_css(m0, text@));
        }
    }

    pub fn insert_css_rule(&mut self, css_rule: &CSSRule)
        requires
            old(self).wf(),
        ensures
            final(self).wf(),
            final(self)@ == spec_insert_css(old(self)@, rule_css(css_rule@)),
    {
        let text = css_rule.get_css();
        self.insert_css_text(text.as_str());
    }

    pub fn insert_css_at_rule(&mut self, css_at_rule: &CSSAtRule)
        requires
            old(self).wf(),
        ensures
            final(self).wf(),
            final(self)@ == spec_insert_css(old(self)@, at_rule_css(css_at_rule@)),
    {
        let text = css_at_rule.get_css();
        self.insert_css_text(text.as_str());
    }

    /// Whether every placeholder in the raw CSS names a known selector; only
    /// such a molecule can be rendered by `get_css`.
    pub fn css_vars_resolved(&self) -> (r: bool)
        ensures
            r == spec_css_vars_resolved(self@),
    {
        let vars = scan_vars(self.css.as_str());
        let ghost vs = template_vars_from(self@.css, 0);
        let mut k: usize = 0;
        while k < vars.len()
            invariant
                k <= vars.len(),
                vars.deep_view() == vs,
                vs.len() == vars.len(),
                vs == template_vars_from(self@.css, 0),
                forall|j: int| 0 <= j < k ==> al_contains(self@.selectors, #[trigger] vs[j]),
            decreases vars.len() - k,
        {
            let name = vars[k].as_str();
            match find_pair(&self.hashed_atoms.selectors, name) {
                Some(_) => {},
                None => {
                    proof {
                        assert(!al_contains(self@.selectors, vs[k as int]));
                    }
                    return false;
                },
            }
            k = k + 1;
        }
        true
    }

    /// Renders the molecule's CSS, substituting every placeholder with its
    /// atom's final selector.
    #[verifier::rlimit(60)]
    pub fn get_css(&self) -> (r: String)
        requires
            self.wf(),
            spec_css_vars_resolved(self@),
        ensures
            r@ == substitute(self@.css, self@.selectors),
    {
        let ghost s = self@.css;
        let ghost sel = self@.selectors;
        let ghost vs = template_vars_from(s, 0);
        let len = self.css.as_str().unicode_len();
        let mut out = String::new();
        let mut i: usize = 0;
        let ghost mut consumed: int = 0;
        while i < len
            invariant
                i <= len,
                len == s.len(),
                s == self@.css,
                sel == self@.selectors,
                vs == template_vars_from(s, 0),
                spec_css_vars_resolved(self@),
                0 <= consumed <= vs.len(),
                vs =~= vs.take(consumed) + template_vars_from(s, i as int),
                out@ + substitute_from(s, sel, i as int) =~= substitute_from(s, sel, 0),
            decreases len - i,
        {
            match var_end_at(self.css.as_str(), i) {
                Some(j) => {
                    proof {
                        assert(template_vars_from(s, i as int) == seq![var_name(s, i as int)]
                            + template_vars_from(s, j + 1));
                        assert(consumed < vs.len() && vs[consumed] == var_name(s, i as int)) by {
                            assert(vs =~= vs.take(consumed) + template_vars_from(s, i as int));
                            assert(vs.take(consumed).len() == consumed);
                            assert(template_vars_from(s, i as int)[0] == var_name(s, i as int));
                        }
                        assert(al_contains(sel, var_name(s, i as int)));
                    }
                    let name = self.css.as_str().substring_char(i + 2, j);
                    proof {
                        assert(name@ =~= var_name(s, i as int));
                    }
                    match find_pair(&self.hashed_atoms.selectors, name) {
                        Some(x) => {
                            proof {
                                lemma_al_idx(sel, name@);
                            }
                            out.append(self.hashed_atoms.selectors[x].1.as_str());
                        },
                        None => {
                            proof {
                                assert(false);
                            }
                        },
                    }
                    proof {
                        assert(substitute_from(s, sel, i as int) == (match al_get(
                            sel,
                            var_name(s, i as int),
                        ) {
                            Some(v) => v,
                            None => Seq::<char>::empty(),
                        }) + substitute_from(s, sel, j + 1));
                        assert(out@ + substitute_from(s, sel, j + 1) =~= substitute_from(
                            s,
                            sel,
                            0,
                        ));
                        assert(vs =~= vs.take(consumed + 1) + template_vars_from(s, j + 1)) by {
                            assert(vs =~= vs.take(consumed) + template_vars_from(s, i as int));
                        }
                        consumed = consumed + 1;
                    }
                    i = j + 1;
                },
                None => {
                    proof {
                        assert(template_vars_from(s, i as int) == template_vars_from(s, i + 1));
                        assert(substitute_from(s, sel, i as int) == seq![s[i as int]]
                            + substitute_from(s, sel, i + 1));
                    }
                    let c = self.css.as_str().substring_char(i, i + 1);
                    out.append(c);
                    proof {
                        assert(c@ =~= seq![s[i as int]]);
                        assert(out@ + substitute_from(s, sel, i + 1) =~= substitute_from(
                            s,
                            sel,
                            0,
                        ));
                    }
                    i = i + 1;
                },
            }
        }
        proof {
            assert(substitute_from(s, sel, len as int) =~= Seq::<char>::empty());
            assert(out@ =~= substitute_from(s, sel, 0));
        }
        out
    }

    pub fn get_atom_selector(&self, atom_name: &str) -> (r: Option<&String>)
        ensures
            (match r {
                Some(sel) => al_get(self@.selectors, atom_name@) == Some(sel@),
                None => al_get(self@.selectors, atom_name@) is None,
            }),
    {
        match find_pair(&self.hashed_atoms.selectors, atom_name) {
            Some(i) => {
                proof {
                    lemma_al_idx(self@.selectors, atom_name@);
                }
                Some(&self.hashed_atoms.selectors[i].1)
            },
            None => None,
        }
    }

    pub fn get_atom_imports(&self, atom_name: &str) -> (r: Option<&Vec<(MoleculeName, AtomName)>>)
        ensures
            (match r {
                Some(imports) => al_get(self@.atoms, atom_name@) matches Some(a) && a.imports
                    == imports.deep_view(),
                None => al_get(self@.atoms, atom_name@) is None,
            }),
    {
        match find_atom(&self.atoms, atom_name) {
            Some(i) => {
                proof {
                    lemma_al_idx(self@.atoms, atom_name@);
                }
                Some(&self.atoms[i].1.imports)
            },
            None => None,
        }
    }

    pub fn get_atom_electrons(&self, atom_name: &str) -> (r: Option<&Vec<ElectronName>>)
        ensures
            (match r {
                Some(electrons) => al_get(self@.atoms, atom_name@) matches Some(a) && a.electrons
                    == electrons.deep_view(),
                None => al_get(self@.atoms, atom_name@) is None,
            }),
    {
        match find_atom(&self.atoms, atom_name) {
            Some(i) => {
                proof {
                    lemma_al_idx(self@.atoms, atom_name@);
                }
                Some(&self.atoms[i].1.electrons)
            },
            None => None,
        }
    }

    /// Whether the atom has accumulated any hashable content yet.
    pub fn has_hashable_content(&self, atom_name: &str) -> (r: bool)
        ensures
            r == (match al_get(self@.contents, atom_name@) {
                Some(c) => c.len() > 0,
                None => false,
            }),
    {
        match find_pair(&self.hashed_atoms.hashable_contents, atom_name) {
            Some(i) => {
                proof {
                    lemma_al_idx(self@.contents, atom_name@);
                }
                !self.hashed_atoms.hashable_contents[i].1.as_str().is_empty()
            },
            None => false,
        }
    }

    pub fn with_atom(self, atom: Atom) -> (r: Self)
        requires
            self.wf(),
        ensures
            r.wf(),
            r@ == spec_insert_atom(self@, atom@),
    {
        let mut this = self;
        this.insert_atom(&atom);
        this
    }

    pub fn with_css_rule(self, css_rule: CSSRule) -> (r: Self)
        requires
            self.wf(),
        ensures
            r.wf(),
            r@ == spec_insert_css(self@, rule_css(css_rule@)),
    {
        let mut this = self;
        this.insert_css_rule(&css_rule);
        this
    }

    pub fn with_css_at_rule(self, css_at_rule: CSSAtRule) -> (r: Self)
        requires
            self.wf(),
        ensures
            r.wf(),
            r@ == spec_insert_css(self@, at_rule_css(css_at_rule@)),
    {
        let mut this = self;
        this.insert_css_at_rule(&css_at_rule);
        this
    }

    pub fn with_atoms(self, atoms: Vec<Atom>) -> (r: Self)
        requires
            self.wf(),
        ensures
            r.wf(),
            r@ == spec_insert_atoms(self@, atoms.deep_view(), 0),
    {
        let ghost m0 = self@;
        let ghost vs = atoms.deep_view();
        let mut this = self;
        let mut i: usize = 0;
        while i < atoms.len()
            invariant
                i <= atoms.len(),
                vs == atoms.deep_view(),
                vs.len() == atoms.len(),
                this.wf(),
                spec_insert_atoms(m0, vs, 0) == spec_insert_atoms(this@, vs, i as int),
            decreases atoms.len() - i,
        {
            this.insert_atom(&atoms[i]);
            i = i + 1;
        }
        this
    }

    pub fn with_css_rules(self, css_rules: Vec<CSSRule>) -> (r: Self)
        requires
            self.wf(),
        ensures
            r.wf(),
            r@ == spec_insert_css_rules(self@, css_rules.deep_view(), 0),
    {
        let ghost m0 = self@;
        let ghost vs = css_rules.deep_view();
        let mut this = self;
        let mut i: usize = 0;
        while i < css_rules.len()
            invariant
                i <= css_rules.len(),
                vs == css_rules.deep_view(),
                vs.len() == css_rules.len(),
                this.wf(),
                spec_insert_css_rules(m0, vs, 0) == spec_insert_css_rules(this@, vs, i as int),
            decreases css_rules.len() - i,
        {
            this.insert_css_rule(&css_rules[i]);
            i = i + 1;
        }
        this
    }

    pub fn with_css_at_rules(self, css_at_rules: Vec<CSSAtRule>) -> (r: Self)
        requires
            self.wf(),
        ensures
            r.wf(),
            r@ == spec_insert_css_at_rules(self@, css_at_rules.deep_view(), 0),
    {
        let ghost m0 = self@;
        let ghost vs = css_at_rules.deep_view();
        let mut this = self;
        let mut i: usize = 0;
        while i < css_at_rules.len()
            invariant
                i <= css_at_rules.len(),
                vs == css_at_rules.deep_view(),
                vs.len() == css_at_rules.len(),
                this.wf(),
                spec_insert_css_at_rules(m0, vs, 0) == spec_insert_css_at_rules(
                    this@,
                    vs,
                    i as int,
                ),
            decreases css_at_rules.len() - i,
        {
            this.insert_css_at_rule(&css_at_rules[i]);
            i = i + 1;
        }
        this
    }
}

fn clone_string_vec(v: &Vec<String>) -> (r: Vec<String>)
    ensures
        r.deep_view() == v.deep_view(),
{
    let mut out: Vec<String> = Vec::new();
    let mut i: usize = 0;
    while i < v.len()
        invariant
            i <= v.len(),
            out.deep_view() == v.deep_view().take(i as int),
        decreases v.len() - i,
    {
        let ghost before = out.deep_view();
        out.push(v[i].clone());
        proof {
            assert(out.deep_view() =~= before.push(v.deep_view()[i as int]));
            assert(out.deep_view() =~= v.deep_view().take(i + 1));
        }
        i = i + 1;
    }
    proof {
        assert(out.deep_view() =~= v.deep_view());
    }
    out
}

fn clone_pair_vec(v: &Vec<(String, String)>) -> (r: Vec<(String, String)>)
    ensures
        r.deep_view() == v.deep_view(),
{
    let mut out: Vec<(String, String)> = Vec::new();
    let mut i: usize = 0;
    while i < v.len()
        invariant
            i <= v.len(),
            out.deep_view() == v.deep_view().take(i as int),
        decreases v.len() - i,
    {
        let ghost before = out.deep_view();
        out.push((v[i].0.clone(), v[i].1.clone()));
        proof {
            assert(out.deep_view() =~= before.push(v.deep_view()[i as int]));
            assert(out.deep_view() =~= v.deep_view().take(i + 1));
        }
        i = i + 1;
    }
    proof {
        assert(out.deep_view() =~= v.deep_view());
    }
    out
}

fn clone_atom_vec(v: &Vec<(String, Atom)>) -> (r: Vec<(String, Atom)>)
    ensures
        r.deep_view() == v.deep_view(),
{
    let mut out: Vec<(String, Atom)> = Vec::new();
    let mut i: usize = 0;
    while i < v.len()
        invariant
            i <= v.len(),
            out.deep_view() == v.deep_view().take(i as int),
        decreases v.len() - i,
    {
        let ghost before = out.deep_view();
        out.push((v[i].0.clone(), v[i].1.clone()));
        proof {
            assert(out.deep_view() =~= before.push(v.deep_view()[i as int]));
            assert(out.deep_view() =~= v.deep_view().take(i + 1));
        }
        i = i + 1;
    }
    proof {
        assert(out.deep_view() =~= v.deep_view());
    }
    out
}

impl Clone for Molecule {
    fn clone(&self) -> (r: Self)
        ensures
            r@ == self@,
            self.wf() ==> r.wf(),
    {
        Molecule {
            name: self.name.clone(),
            dependencies: clone_string_vec(&self.dependencies),
            atoms: clone_atom_vec(&self.atoms),
            hashed_atoms: HashedAtoms {
                molecule_name: self.hashed_atoms.molecule_name.clone(),
                selectors: clone_pair_vec(&self.hashed_atoms.selectors),
                hashable_contents: clone_pair_vec(&self.hashed_atoms.hashable_contents),
                readable: self.hashed_atoms.readable,
            },
            css: self.css.clone(),
        }
    }
}

impl DeepView for Molecule {
    type V = MoleculeV;

    open spec fn deep_view(&self) -> MoleculeV {
        self@
    }
}

/// Folding imports into a duplicate-free dependency list keeps it
/// duplicate-free.
proof fn lemma_deps_add_imports_unique(
    deps: Seq<Seq<char>>,
    imports: Seq<(Seq<char>, Seq<char>)>,
    i: int,
)
    requires
        (forall|x: int, y: int| 0 <= x < y < deps.len() ==> deps[x] != deps[y]),
    ensures
        ({
            let d = spec_deps_add_imports(deps, imports, i);
            forall|x: int, y: int| 0 <= x < y < d.len() ==> d[x] != d[y]
        }),
    decreases imports.len() - i,
{
    if 0 <= i < imports.len() {
        let d1 = set_add(deps, imports[i].0);
        if !deps.contains(imports[i].0) {
            assert(forall|x: int| 0 <= x < deps.len() ==> deps[x] != imports[i].0);
            assert(forall|x: int, y: int| 0 <= x < y < d1.len() ==> d1[x] != d1[y]);
        }
        lemma_deps_add_imports_unique(d1, imports, i + 1);
        assert(spec_deps_add_imports(deps, imports, i) == spec_deps_add_imports(
            d1,
            imports,
            i + 1,
        ));
    }
}

} // verus!
