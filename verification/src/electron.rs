//! An electron is one named CSS declaration (property and value), globally
//! addressable by name.

use vstd::prelude::*;

verus! {

pub type ElectronName = String;

/// The mathematical value of an [`Electron`]: three character sequences.
pub ghost struct ElectronV {
    pub name: Seq<char>,
    pub property: Seq<char>,
    pub value: Seq<char>,
}

#[derive(Debug)]
pub struct Electron {
    pub name: ElectronName,
    pub property: String,
    pub value: String,
}

impl View for Electron {
    type V = ElectronV;

    open spec fn view(&self) -> ElectronV {
        ElectronV { name: self.name@, property: self.property@, value: self.value@ }
    }
}

impl DeepView for Electron {
    type V = ElectronV;

    open spec fn deep_view(&self) -> ElectronV {
        self@
    }
}

/// The CSS text of an electron rendered on its own:
/// `.{name}{{property}:{value}}`.
pub open spec fn electron_css(e: ElectronV) -> Seq<char> {
    "."@ + e.name + "{"@ + e.property + ":"@ + e.value + "}"@
}

impl Clone for Electron {
    fn clone(&self) -> (r: Self)
        ensures
            r@ == self@,
    {
        Electron {
            name: self.name.clone(),
            property: self.property.clone(),
            value: self.value.clone(),
        }
    }
}

impl Electron {
    pub fn new(name: &str, property: &str, value: &str) -> (r: Self)
        ensures
            r@ == (ElectronV { name: name@, property: property@, value: value@ }),
    {
        Electron { name: name.to_owned(), property: property.to_owned(), value: value.to_owned() }
    }

    pub fn get_css(&self) -> (r: String)
        ensures
            r@ == electron_css(self@),
    {
        let mut css = String::new();
        css.append(".");
        css.append(self.name.as_str());
        css.append("{");
        css.append(self.property.as_str());
        css.append(":");
        css.append(self.value.as_str());
        css.append("}");
        css
    }
}

} // verus!
