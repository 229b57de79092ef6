//! The CSS rule tree: declarations (property/value leaves), rules with a
//! selector, and at-rules with a name, optional parameters and children.
//! Rendering to text is specified by recursive spec functions.

use vstd::prelude::*;

verus! {

/// The mathematical value of a [`CSSDeclaration`].
pub ghost struct CSSDeclarationV {
    pub property: Seq<char>,
    pub value: Seq<char>,
}

/// The mathematical value of a [`CSSNode`].
pub ghost enum CSSNodeV {
    Rule(CSSRuleV),
    AtRule(CSSAtRuleV),
    Declaration(CSSDeclarationV),
}

/// The mathematical value of a [`CSSRule`].
pub ghost struct CSSRuleV {
    pub selector: Seq<char>,
    pub children: Seq<CSSNodeV>,
}

/// The mathematical value of a [`CSSAtRule`].
pub ghost struct CSSAtRuleV {
    pub name: Seq<char>,
    pub params: Option<Seq<char>>,
    pub children: Seq<CSSNodeV>,
}

#[derive(Debug)]
pub struct CSSDeclaration {
    pub property: String,
    pub value: String,
}

#[derive(Debug)]
pub enum CSSNode {
    CSSRule(CSSRule),
    CSSAtRule(CSSAtRule),
    CSSDeclaration(CSSDeclaration),
}

#[derive(Debug)]
pub struct CSSRule {
    pub selector: String,
    children: Vec<CSSNode>,
}

#[derive(Debug)]
pub struct CSSAtRule {
    pub name: String,
    pub params: Option<String>,
    children: Vec<CSSNode>,
}

pub closed spec fn node_view(n: CSSNode) -> CSSNodeV
    decreases n,
{
    match n {
        CSSNode::CSSRule(r) => CSSNodeV::Rule(rule_view(r)),
        CSSNode::CSSAtRule(a) => CSSNodeV::AtRule(at_rule_view(a)),
        CSSNode::CSSDeclaration(d) => CSSNodeV::Declaration(
            CSSDeclarationV { property: d.property@, value: d.value@ },
        ),
    }
}

pub closed spec fn rule_view(r: CSSRule) -> CSSRuleV
    decreases r,
{
    CSSRuleV {
        selector: r.selector@,
        children: Seq::new(
            r.children@.len(),
            |i: int|
                if 0 <= i < r.children@.len() {
                    node_view(r.children@[i])
                } else {
                    arbitrary()
                },
        ),
    }
}

pub closed spec fn at_rule_view(a: CSSAtRule) -> CSSAtRuleV
    decreases a,
{
    CSSAtRuleV {
        name: a.name@,
        params: match a.params {
            Some(p) => Some(p@),
            None => None,
        },
        children: Seq::new(
            a.children@.len(),
            |i: int|
                if 0 <= i < a.children@.len() {
                    node_view(a.children@[i])
                } else {
                    arbitrary()
                },
        ),
    }
}

impl View for CSSDeclaration {
    type V = CSSDeclarationV;

    open spec fn view(&self) -> CSSDeclarationV {
        CSSDeclarationV { property: self.property@, value: self.value@ }
    }
}

impl View for CSSNode {
    type V = CSSNodeV;

    open spec fn view(&self) -> CSSNodeV {
        node_view(*self)
    }
}

impl View for CSSRule {
    type V = CSSRuleV;

    open spec fn view(&self) -> CSSRuleV {
        rule_view(*self)
    }
}

impl View for CSSAtRule {
    type V = CSSAtRuleV;

    open spec fn view(&self) -> CSSAtRuleV {
        at_rule_view(*self)
    }
}

impl DeepView for CSSRule {
    type V = CSSRuleV;

    open spec fn deep_view(&self) -> CSSRuleV {
        self@
    }
}

impl DeepView for CSSAtRule {
    type V = CSSAtRuleV;

    open spec fn deep_view(&self) -> CSSAtRuleV {
        self@
    }
}

/// The text of one declaration inside a rule body: `{property}:{value};`.
pub open spec fn decl_css(d: CSSDeclarationV) -> Seq<char> {
    d.property + ":"@ + d.value + ";"@
}

/// The text of one child node of a rule body.
pub open spec fn node_css(n: CSSNodeV) -> Seq<char>
    decreases n, 0int,
{
    match n {
        CSSNodeV::Rule(r) => rule_css(r),
        CSSNodeV::AtRule(a) => at_rule_css(a),
        CSSNodeV::Declaration(d) => decl_css(d),
    }
}

/// The concatenated text of the children from index `i` on.
pub open spec fn children_css_from(cs: Seq<CSSNodeV>, i: int) -> Seq<char>
    decreases cs, cs.len() - i,
{
    if 0 <= i < cs.len() {
        node_css(cs[i]) + children_css_from(cs, i + 1)
    } else {
        Seq::<char>::empty()
    }
}

/// The text of a rule: `{selector}{{children}}`.
pub open spec fn rule_css(r: CSSRuleV) -> Seq<char>
    decreases r, 0int,
{
    r.selector + "{"@ + children_css_from(r.children, 0) + "}"@
}

/// The text of an at-rule: `@{name}` then ` {params}` if present, then the
/// children in braces, or a bare `;` if there are none.
pub open spec fn at_rule_css(a: CSSAtRuleV) -> Seq<char>
    decreases a, 0int,
{
    let head = "@"@ + a.name + match a.params {
        Some(p) => " "@ + p,
        None => Seq::<char>::empty(),
    };
    if a.children.len() == 0 {
        head + ";"@
    } else {
        head + "{"@ + children_css_from(a.children, 0) + "}"@
    }
}

impl Clone for CSSDeclaration {
    fn clone(&self) -> (r: Self)
        ensures
            r@ == self@,
    {
        CSSDeclaration { property: self.property.clone(), value: self.value.clone() }
    }
}

fn clone_children(children: &Vec<CSSNode>) -> (r: Vec<CSSNode>)
    ensures
        r@.len() == children@.len(),
        forall|i: int| 0 <= i < r@.len() ==> r@[i]@ == children@[i]@,
    decreases children,
{
    let mut out: Vec<CSSNode> = Vec::new();
    let mut i: usize = 0;
    while i < children.len()
        invariant
            i <= children.len(),
            out@.len() == i,
            forall|j: int| 0 <= j < i ==> out@[j]@ == children@[j]@,
        decreases children.len() - i,
    {
        out.push(children[i].clone());
        i = i + 1;
    }
    out
}

impl Clone for CSSNode {
    fn clone(&self) -> (r: Self)
        ensures
            r@ == self@,
        decreases self,
    {
        match self {
            CSSNode::CSSRule(rule) => CSSNode::CSSRule(rule.clone()),
            CSSNode::CSSAtRule(at_rule) => CSSNode::CSSAtRule(at_rule.clone()),
            CSSNode::CSSDeclaration(d) => CSSNode::CSSDeclaration(d.clone()),
        }
    }
}

impl Clone for CSSRule {
    fn clone(&self) -> (r: Self)
        ensures
            r@ == self@,
        decreases self,
    {
        let children = clone_children(&self.children);
        let r = CSSRule { selector: self.selector.clone(), children };
        proof {
            assert(r@.children =~= self@.children);
        }
        r
    }
}

impl Clone for CSSAtRule {
    fn clone(&self) -> (r: Self)
        ensures
            r@ == self@,
        decreases self,
    {
        let children = clone_children(&self.children);
        let params = match &self.params {
            Some(p) => Some(p.clone()),
            None => None,
        };
        let r = CSSAtRule { name: self.name.clone(), params, children };
        proof {
            assert(r@.children =~= self@.children);
        }
        r
    }
}

impl CSSDeclaration {
    pub fn new(property: &str, value: &str) -> (r: Self)
        ensures
            r@ == (CSSDeclarationV { property: property@, value: value@ }),
    {
        CSSDeclaration { property: property.to_owned(), value: value.to_owned() }
    }
}

/// Renders the concatenation of a list of child nodes.
fn children_css_exec(children: &Vec<CSSNode>, Ghost(cs): Ghost<Seq<CSSNodeV>>) -> (r: String)
    requires
        cs.len() == children@.len(),
        forall|i: int| 0 <= i < cs.len() ==> cs[i] == node_view(children@[i]),
    ensures
        r@ == children_css_from(cs, 0),
    decreases children,
{
    let mut css = String::new();
    let mut i: usize = 0;
    proof {
        assert(css@ + children_css_from(cs, 0) =~= children_css_from(cs, 0));
    }
    while i < children.len()
        invariant
            i <= children.len(),
            cs.len() == children@.len(),
            forall|k: int| 0 <= k < cs.len() ==> cs[k] == node_view(children@[k]),
            css@ + children_css_from(cs, i as int) =~= children_css_from(cs, 0),
        decreases children.len() - i,
    {
        let ghost css0 = css@;
        match &children[i] {
            CSSNode::CSSDeclaration(d) => {
                css.append(d.property.as_str());
                css.append(":");
                css.append(d.value.as_str());
                css.append(";");
                proof {
                    assert(css@ =~= css0 + decl_css(cs[i as int]->Declaration_0));
                }
            },
            CSSNode::CSSAtRule(a) => {
                let child = a.get_css();
                css.append(child.as_str());
            },
            CSSNode::CSSRule(r) => {
                let child = r.get_css();
                css.append(child.as_str());
            },
        }
        proof {
            assert(css@ =~= css0 + node_css(cs[i as int]));
            assert(children_css_from(cs, i as int) == node_css(cs[i as int])
                + children_css_from(cs, i + 1));
            assert(css@ + children_css_from(cs, i + 1) =~= children_css_from(cs, 0));
        }
        i = i + 1;
    }
    css
}

impl CSSRule {
    pub fn new(selector: &str) -> (r: Self)
        ensures
            r@ == (CSSRuleV { selector: selector@, children: Seq::<CSSNodeV>::empty() }),
    {
        let r = CSSRule { selector: selector.to_owned(), children: Vec::new() };
        proof {
            assert(r@.children =~= Seq::<CSSNodeV>::empty());
        }
        r
    }

    /// Renders this rule as `{selector}{{...}}`.
    pub fn get_css(&self) -> (r: String)
        ensures
            r@ == rule_css(self@),
        decreases self,
    {
        let mut css = String::new();
        css.append(self.selector.as_str());
        css.append("{");
        let children = children_css_exec(&self.children, Ghost(self@.children));
        css.append(children.as_str());
        css.append("}");
        proof {
            assert(css@ =~= rule_css(self@));
        }
        css
    }

    pub fn with_declaration(self, declaration: CSSDeclaration) -> (r: Self)
        ensures
            r@.selector == self@.selector,
            r@.children == self@.children.push(CSSNodeV::Declaration(declaration@)),
    {
        let mut this = self;
        this.insert_declaration(&declaration);
        this
    }

    pub fn with_at_rule(self, at_rule: CSSAtRule) -> (r: Self)
        ensures
            r@.selector == self@.selector,
            r@.children == self@.children.push(CSSNodeV::AtRule(at_rule@)),
    {
        let mut this = self;
        this.insert_at_rule(&at_rule);
        this
    }

    pub fn with_rule(self, rule: CSSRule) -> (r: Self)
        ensures
            r@.selector == self@.selector,
            r@.children == self@.children.push(CSSNodeV::Rule(rule@)),
    {
        let mut this = self;
        this.insert_rule(&rule);
        this
    }

    pub fn insert_declaration(&mut self, declaration: &CSSDeclaration)
        ensures
            final(self)@.selector == old(self)@.selector,
            final(self)@.children == old(self)@.children.push(
                CSSNodeV::Declaration(declaration@),
            ),
    {
        self.children.push(CSSNode::CSSDeclaration(declaration.clone()));
        proof {
            assert(self@.children =~= old(self)@.children.push(
                CSSNodeV::Declaration(declaration@),
            ));
        }
    }

    pub fn insert_at_rule(&mut self, at_rule: &CSSAtRule)
        ensures
            final(self)@.selector == old(self)@.selector,
            final(self)@.children == old(self)@.children.push(CSSNodeV::AtRule(at_rule@)),
    {
        self.children.push(CSSNode::CSSAtRule(at_rule.clone()));
        proof {
            assert(self@.children =~= old(self)@.children.push(CSSNodeV::AtRule(at_rule@)));
        }
    }

    pub fn insert_rule(&mut self, rule: &CSSRule)
        ensures
            final(self)@.selector == old(self)@.selector,
            final(self)@.children == old(self)@.children.push(CSSNodeV::Rule(rule@)),
    {
        self.children.push(CSSNode::CSSRule(rule.clone()));
        proof {
            assert(self@.children =~= old(self)@.children.push(CSSNodeV::Rule(rule@)));
        }
    }
}

impl CSSAtRule {
    pub fn new(name: &str, params: Option<&str>) -> (r: Self)
        ensures
            r@.name == name@,
            r@.params == params.deep_view(),
            r@.children == Seq::<CSSNodeV>::empty(),
    {
        let params_owned = match params {
            Some(p) => Some(p.to_owned()),
            None => None,
        };
        let r = CSSAtRule { name: name.to_owned(), params: params_owned, children: Vec::new() };
        proof {
            assert(r@.children =~= Seq::<CSSNodeV>::empty());
        }
        r
    }

    pub fn with_rule(self, rule: CSSRule) -> (r: Self)
        ensures
            r@.name == self@.name,
            r@.params == self@.params,
            r@.children == self@.children.push(CSSNodeV::Rule(rule@)),
    {
        let mut this = self;
        this.insert_rule(&rule);
        this
    }

    pub fn with_at_rule(self, at_rule: CSSAtRule) -> (r: Self)
        ensures
            r@.name == self@.name,
            r@.params == self@.params,
            r@.children == self@.children.push(CSSNodeV::AtRule(at_rule@)),
    {
        let mut this = self;
        this.insert_at_rule(&at_rule);
        this
    }

    pub fn with_declaration(self, declaration: CSSDeclaration) -> (r: Self)
        ensures
            r@.name == self@.name,
            r@.params == self@.params,
            r@.children == self@.children.push(CSSNodeV::Declaration(declaration@)),
    {
        let mut this = self;
        this.insert_declaration(&declaration);
        this
    }

    pub fn insert_rule(&mut self, rule: &CSSRule)
        ensures
            final(self)@.name == old(self)@.name,
            final(self)@.params == old(self)@.params,
            final(self)@.children == old(self)@.children.push(CSSNodeV::Rule(rule@)),
    {
        self.children.push(CSSNode::CSSRule(rule.clone()));
        proof {
            assert(self@.children =~= old(self)@.children.push(CSSNodeV::Rule(rule@)));
        }
    }

    pub fn insert_at_rule(&mut self, at_rule: &CSSAtRule)
        ensures
            final(self)@.name == old(self)@.name,
            final(self)@.params == old(self)@.params,
            final(self)@.children == old(self)@.children.push(CSSNodeV::AtRule(at_rule@)),
    {
        self.children.push(CSSNode::CSSAtRule(at_rule.clone()));
        proof {
            assert(self@.children =~= old(self)@.children.push(CSSNodeV::AtRule(at_rule@)));
        }
    }

    pub fn insert_declaration(&mut self, declaration: &CSSDeclaration)
        ensures
            final(self)@.name == old(self)@.name,
            final(self)@.params == old(self)@.params,
            final(self)@.children == old(self)@.children.push(
                CSSNodeV::Declaration(declaration@),
            ),
    {
        self.children.push(CSSNode::CSSDeclaration(declaration.clone()));
        proof {
            assert(self@.children =~= old(self)@.children.push(
                CSSNodeV::Declaration(declaration@),
            ));
        }
    }

    /// Renders this at-rule as `@{name} {params}{...}`, or with a trailing
    /// `;` instead of braces when it has no children.
    pub fn get_css(&self) -> (r: String)
        ensures
            r@ == at_rule_css(self@),
        decreases self,
    {
        let mut css = String::new();
        css.append("@");
        css.append(self.name.as_str());
        match &self.params {
            Some(p) => {
                css.append(" ");
                css.append(p.as_str());
            },
            None => {},
        }
        if self.children.len() == 0 {
            css.append(";");
            proof {
                assert(self@.children.len() == 0);
                assert(css@ =~= at_rule_css(self@));
            }
        } else {
            css.append("{");
            let children = children_css_exec(&self.children, Ghost(self@.children));
            css.append(children.as_str());
            css.append("}");
            proof {
                assert(self@.children.len() != 0);
                assert(css@ =~= at_rule_css(self@));
            }
        }
        css
    }
}

} // verus!
