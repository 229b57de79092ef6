//! An atom is a named style target inside a molecule. It aggregates electron
//! names and cross-molecule imports, both held as weak references by name.

use vstd::prelude::*;

use crate::electron::ElectronName;

verus! {

pub type AtomName = String;

/// The mathematical value of an [`Atom`].
pub ghost struct AtomV {
    pub name: Seq<char>,
    pub electrons: Seq<Seq<char>>,
    pub imports: Seq<(Seq<char>, Seq<char>)>,
}

#[derive(Debug)]
pub struct Atom {
    pub name: AtomName,
    pub electrons: Vec<ElectronName>,
    pub imports: Vec<(String, AtomName)>,
}

impl View for Atom {
    type V = AtomV;

    open spec fn view(&self) -> AtomV {
        AtomV {
            name: self.name@,
            electrons: self.electrons.deep_view(),
            imports: self.imports.deep_view(),
        }
    }
}

impl DeepView for Atom {
    type V = AtomV;

    open spec fn deep_view(&self) -> AtomV {
        self@
    }
}

impl Clone for Atom {
    fn clone(&self) -> (r: Self)
        ensures
            r@ == self@,
    {
        let mut electrons: Vec<ElectronName> = Vec::new();
        let mut i: usize = 0;
        while i < self.electrons.len()
            invariant
                i <= self.electrons.len(),
                electrons.deep_view() == self.electrons.deep_view().take(i as int),
            decreases self.electrons.len() - i,
        {
            let ghost before = electrons.deep_view();
            electrons.push(self.electrons[i].clone());
            proof {
                assert(electrons.deep_view() =~= before.push(self.electrons.deep_view()[i as int]));
                assert(electrons.deep_view() =~= self.electrons.deep_view().take(i + 1));
            }
            i = i + 1;
        }
        let mut imports: Vec<(String, AtomName)> = Vec::new();
        let mut j: usize = 0;
        while j < self.imports.len()
            invariant
                j <= self.imports.len(),
                imports.deep_view() == self.imports.deep_view().take(j as int),
            decreases self.imports.len() - j,
        {
            let ghost before = imports.deep_view();
            let (m, a) = (self.imports[j].0.clone(), self.imports[j].1.clone());
            imports.push((m, a));
            proof {
                assert(imports.deep_view() =~= before.push(self.imports.deep_view()[j as int]));
                assert(imports.deep_view() =~= self.imports.deep_view().take(j + 1));
            }
            j = j + 1;
        }
        proof {
            assert(electrons.deep_view() =~= self.electrons.deep_view());
            assert(imports.deep_view() =~= self.imports.deep_view());
        }
        Atom { name: self.name.clone(), electrons, imports }
    }
}

impl Atom {
    pub fn new(name: &str) -> (r: Self)
        ensures
            r@ == (AtomV {
                name: name@,
                electrons: Seq::<Seq<char>>::empty(),
                imports: Seq::<(Seq<char>, Seq<char>)>::empty(),
            }),
    {
        let r = Atom { name: name.to_owned(), electrons: Vec::new(), imports: Vec::new() };
        proof {
            assert(r.electrons.deep_view() =~= Seq::<Seq<char>>::empty());
            assert(r.imports.deep_view() =~= Seq::<(Seq<char>, Seq<char>)>::empty());
        }
        r
    }

    pub fn with_electrons(self, electrons: Vec<&str>) -> (r: Self)
        ensures
            r@.name == self@.name,
            r@.electrons == self@.electrons + electrons.deep_view(),
            r@.imports == self@.imports,
    {
        let mut this = self;
        let mut i: usize = 0;
        while i < electrons.len()
            invariant
                i <= electrons.len(),
                this@.name == self@.name,
                this@.electrons == self@.electrons + electrons.deep_view().take(i as int),
                this@.imports == self@.imports,
            decreases electrons.len() - i,
        {
            let ghost before = this@.electrons;
            this.insert_electron(electrons[i]);
            proof {
                assert(this@.electrons =~= self@.electrons + electrons.deep_view().take(i + 1));
            }
            i = i + 1;
        }
        proof {
            assert(this@.electrons =~= self@.electrons + electrons.deep_view());
        }
        this
    }

    pub fn with_imports(self, imports: Vec<(&str, &str)>) -> (r: Self)
        ensures
            r@.name == self@.name,
            r@.electrons == self@.electrons,
            r@.imports == self@.imports + imports.deep_view(),
    {
        let mut this = self;
        let mut i: usize = 0;
        while i < imports.len()
            invariant
                i <= imports.len(),
                this@.name == self@.name,
                this@.electrons == self@.electrons,
                this@.imports == self@.imports + imports.deep_view().take(i as int),
            decreases imports.len() - i,
        {
            let (molecule, atom) = imports[i];
            this.insert_import(molecule, atom);
            proof {
                assert(this@.imports =~= self@.imports + imports.deep_view().take(i + 1));
            }
            i = i + 1;
        }
        proof {
            assert(this@.imports =~= self@.imports + imports.deep_view());
        }
        this
    }

    pub fn insert_electron(&mut self, electron: &str)
        ensures
            final(self)@.name == old(self)@.name,
            final(self)@.electrons == old(self)@.electrons.push(electron@),
            final(self)@.imports == old(self)@.imports,
    {
        self.electrons.push(electron.to_owned());
        proof {
            assert(self@.electrons =~= old(self)@.electrons.push(electron@));
        }
    }

    pub fn insert_import(&mut self, molecule: &str, atom: &str)
        ensures
            final(self)@.name == old(self)@.name,
            final(self)@.electrons == old(self)@.electrons,
            final(self)@.imports == old(self)@.imports.push((molecule@, atom@)),
    {
        self.imports.push((molecule.to_owned(), atom.to_owned()));
        proof {
            assert(self@.imports =~= old(self)@.imports.push((molecule@, atom@)));
        }
    }
}

} // verus!
