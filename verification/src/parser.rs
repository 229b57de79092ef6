//! The recursive-descent parser: a document is a sequence of top-level
//! function forms `'(' identifier node* ')'`, where a node is a string, an
//! identifier, or a nested function form. Parsing is fail-fast: the first
//! error aborts the whole parse, and no partial forest is returned. The
//! parser knows no CSS; `electron`, `&`, `@` are plain identifiers here.

use vstd::prelude::*;

use crate::lexer::{byte_pos, lex_all, next_step, LexStep, Lexer, Span, Token, TokenV};
use crate::lexer::{lemma_skip_trivia, lemma_token_at, skip_trivia};

verus! {

/// The mathematical value of a [`Node`].
#[verifier::ext_equal]
pub ghost enum NodeV {
    Function(Seq<char>, Seq<NodeV>),
    Text(Seq<char>),
    Ident(Seq<char>),
}

#[derive(Debug, PartialEq, Eq)]
pub enum Node {
    Function(String, Vec<Node>),
    String(String),
    Identifier(String),
}

pub open spec fn node_view(n: Node) -> NodeV
    decreases n,
{
    match n {
        Node::Function(name, args) => NodeV::Function(
            name@,
            Seq::new(
                args@.len(),
                |i: int|
                    if 0 <= i < args@.len() {
                        node_view(args@[i])
                    } else {
                        arbitrary()
                    },
            ),
        ),
        Node::String(text) => NodeV::Text(text@),
        Node::Identifier(name) => NodeV::Ident(name@),
    }
}

impl View for Node {
    type V = NodeV;

    open spec fn view(&self) -> NodeV {
        node_view(*self)
    }
}

/// A function node's view carries its name's view and exactly its
/// arguments' views.
pub broadcast proof fn lemma_node_view_args(n: Node)
    ensures
        (#[trigger] node_view(n)) matches NodeV::Function(nm, cs) ==> (n matches Node::Function(
            name,
            args,
        ) && nm == name@ && cs == args.deep_view()),
{
    match n {
        Node::Function(name, args) => {
            assert(node_view(n)->Function_1 =~= args.deep_view());
        },
        Node::String(text) => {},
        Node::Identifier(name) => {},
    }
}

impl DeepView for Node {
    type V = NodeV;

    open spec fn deep_view(&self) -> NodeV {
        self@
    }
}

pub(crate) fn clone_node_vec(v: &Vec<Node>) -> (r: Vec<Node>)
    ensures
        r@.len() == v@.len(),
        forall|i: int| 0 <= i < r@.len() ==> r@[i]@ == v@[i]@,
    decreases v,
{
    let mut out: Vec<Node> = Vec::new();
    let mut i: usize = 0;
    while i < v.len()
        invariant
            i <= v.len(),
            out@.len() == i,
            forall|j: int| 0 <= j < i ==> out@[j]@ == v@[j]@,
        decreases v.len() - i,
    {
        out.push(v[i].clone());
        i = i + 1;
    }
    out
}

impl Clone for Node {
    fn clone(&self) -> (r: Self)
        ensures
            r@ == self@,
        decreases self,
    {
        match self {
            Node::Function(name, args) => {
                let out = clone_node_vec(args);
                let r = Node::Function(name.clone(), out);
                proof {
                    assert(r@ is Function);
                    assert(self@ is Function);
                    assert(r@->Function_0 == name@);
                    assert(self@->Function_0 == name@);
                    assert(r@->Function_1 =~= self@->Function_1);
                    assert(r@ =~= self@);
                }
                r
            },
            Node::String(text) => Node::String(text.clone()),
            Node::Identifier(name) => Node::Identifier(name.clone()),
        }
    }
}

/// The mathematical value of a parse error: its message and its span, in
/// byte offsets into the source text.
pub ghost struct PErrV {
    pub msg: Seq<char>,
    pub start: int,
    pub end: int,
}

// ---------------------------------------------------------------------------
// The specification parser. Positions advance strictly, which the explicit
// bound guards restate so that the recursion visibly terminates; the guards
// always hold, as `lemma_sp_advances` shows.
// ---------------------------------------------------------------------------
/// Parses `'(' functionCall` content from `i`, which stands just after the
/// opening parenthesis: an identifier first, then nodes to the matching
/// `')'`. Returns the node and the position after the `')'`.
pub open spec fn sp_function(s: Seq<char>, i: int) -> Result<(NodeV, int), PErrV>
    decreases s.len() - i, 1int,
{
    match next_step(s, i) {
        LexStep::Tok(t, st, e) => {
            if t matches TokenV::Identifier(name) && i < e <= s.len() {
                sp_body(s, e, t->Identifier_0, Seq::<NodeV>::empty())
            } else {
                Err(
                    PErrV {
                        msg: "Identifier expected"@,
                        start: byte_pos(s, st),
                        end: byte_pos(s, e),
                    },
                )
            }
        },
        LexStep::End => Err(
            PErrV {
                msg: "Identifier expected"@,
                start: byte_pos(s, s.len() as int),
                end: byte_pos(s, s.len() as int),
            },
        ),
        LexStep::Fail(st) => Err(
            PErrV {
                msg: "Identifier expected"@,
                start: byte_pos(s, st),
                end: byte_pos(s, st + 1),
            },
        ),
    }
}

/// Parses the remaining nodes of a function form whose name is `name` and
/// whose nodes so far are `acc`.
pub open spec fn sp_body(s: Seq<char>, i: int, name: Seq<char>, acc: Seq<NodeV>) -> Result<
    (NodeV, int),
    PErrV,
>
    decreases s.len() - i, 0int,
{
    match next_step(s, i) {
        LexStep::End => Err(
            PErrV {
                msg: "Unmatched open parenthesis"@,
                start: byte_pos(s, s.len() as int),
                end: byte_pos(s, s.len() as int),
            },
        ),
        LexStep::Fail(st) => Err(
            PErrV { msg: "Invalid token"@, start: byte_pos(s, st), end: byte_pos(s, st + 1) },
        ),
        LexStep::Tok(t, st, e) => {
            if i < e <= s.len() {
                match t {
                    TokenV::RParen => Ok((NodeV::Function(name, acc), e)),
                    TokenV::Text(text) => sp_body(s, e, name, acc.push(NodeV::Text(text))),
                    TokenV::Identifier(nm) => sp_body(s, e, name, acc.push(NodeV::Ident(nm))),
                    TokenV::LParen => match sp_function(s, e) {
                        Ok((node, e2)) => {
                            if e < e2 <= s.len() {
                                sp_body(s, e2, name, acc.push(node))
                            } else {
                                Err(arbitrary())
                            }
                        },
                        Err(pe) => Err(pe),
                    },
                }
            } else {
                Err(arbitrary())
            }
        },
    }
}

/// Parses the whole document from `i`: top-level forms, each opened by
/// `'('`; any other top-level token is an error.
pub open spec fn sp_document(s: Seq<char>, i: int, acc: Seq<NodeV>) -> Result<Seq<NodeV>, PErrV>
    decreases s.len() - i,
{
    match next_step(s, i) {
        LexStep::End => Ok(acc),
        LexStep::Fail(st) => Err(
            PErrV { msg: "Invalid token"@, start: byte_pos(s, st), end: byte_pos(s, st + 1) },
        ),
        LexStep::Tok(t, st, e) => {
            if t is LParen && i < e <= s.len() {
                match sp_function(s, e) {
                    Ok((node, e2)) => {
                        if e < e2 <= s.len() {
                            sp_document(s, e2, acc.push(node))
                        } else {
                            Err(arbitrary())
                        }
                    },
                    Err(pe) => Err(pe),
                }
            } else if !(t is LParen) {
                Err(PErrV { msg: "Invalid token"@, start: byte_pos(s, st), end: byte_pos(s, e) })
            } else {
                Err(arbitrary())
            }
        },
    }
}

/// The parse of a whole source text.
pub open spec fn sp_parse(s: Seq<char>) -> Result<Seq<NodeV>, PErrV> {
    sp_document(s, 0, Seq::<NodeV>::empty())
}

/// A successful parse of a function form always moves past its closing
/// parenthesis: the bound guards inside the specification parser hold.
pub proof fn lemma_sp_function_advances(s: Seq<char>, i: int)
    requires
        0 <= i <= s.len(),
    ensures
        sp_function(s, i) matches Ok((n, e)) ==> i < e <= s.len(),
    decreases s.len() - i, 1int,
{
    lemma_skip_trivia(s, i);
    lemma_token_at(s, skip_trivia(s, i));
    if let LexStep::Tok(t, st, e) = next_step(s, i) {
        if t matches TokenV::Identifier(name) && i < e <= s.len() {
            lemma_sp_body_advances(s, e, t->Identifier_0, Seq::<NodeV>::empty());
        }
    }
}

/// Likewise for the body of a function form.
pub proof fn lemma_sp_body_advances(s: Seq<char>, i: int, name: Seq<char>, acc: Seq<NodeV>)
    requires
        0 <= i <= s.len(),
    ensures
        sp_body(s, i, name, acc) matches Ok((n, e)) ==> i < e <= s.len(),
    decreases s.len() - i, 0int,
{
    lemma_skip_trivia(s, i);
    lemma_token_at(s, skip_trivia(s, i));
    if let LexStep::Tok(t, st, e) = next_step(s, i) {
        if i < e <= s.len() {
            match t {
                TokenV::RParen => {},
                TokenV::Text(text) => {
                    lemma_sp_body_advances(s, e, name, acc.push(NodeV::Text(text)));
                },
                TokenV::Identifier(nm) => {
                    lemma_sp_body_advances(s, e, name, acc.push(NodeV::Ident(nm)));
                },
                TokenV::LParen => {
                    lemma_sp_function_advances(s, e);
                    if let Ok((node, e2)) = sp_function(s, e) {
                        if e < e2 <= s.len() {
                            lemma_sp_body_advances(s, e2, name, acc.push(node));
                        }
                    }
                },
            }
        }
    }
}

// ---------------------------------------------------------------------------
// The parsing round trip: a parsed forest unparses to exactly the token
// sequence of its source.
// ---------------------------------------------------------------------------
/// The tokens a node was parsed from: a function form is its parentheses,
/// its name and its arguments' tokens; strings and identifiers are one
/// token each.
pub open spec fn node_tokens(n: NodeV) -> Seq<TokenV>
    decreases n, 0int,
{
    match n {
        NodeV::Function(name, args) => seq![TokenV::LParen, TokenV::Identifier(name)]
            + forest_tokens(args, 0) + seq![TokenV::RParen],
        NodeV::Text(text) => seq![TokenV::Text(text)],
        NodeV::Ident(name) => seq![TokenV::Identifier(name)],
    }
}

/// The concatenated tokens of the nodes from index `i` on.
pub open spec fn forest_tokens(ns: Seq<NodeV>, i: int) -> Seq<TokenV>
    decreases ns, ns.len() - i,
{
    if 0 <= i < ns.len() {
        node_tokens(ns[i]) + forest_tokens(ns, i + 1)
    } else {
        Seq::<TokenV>::empty()
    }
}

/// The round trip through a function body: the nodes it adds to `acc`
/// unparse to the tokens between `i` and the matching `)`.
proof fn lemma_body_round_trip(s: Seq<char>, i: int, name: Seq<char>, acc: Seq<NodeV>)
    requires
        0 <= i <= s.len(),
    ensures
        sp_body(s, i, name, acc) matches Ok((node, e)) ==> (node matches NodeV::Function(
            nm,
            all,
        ) && nm == name && acc.len() <= all.len() && all.take(acc.len() as int) == acc && i < e
            <= s.len() && lex_all(s, i) == (match lex_all(s, e) {
            Some(rest) => Some(forest_tokens(all, acc.len() as int) + seq![TokenV::RParen] + rest),
            None => None::<Seq<TokenV>>,
        })),
    decreases s.len() - i, 0int,
{
    lemma_skip_trivia(s, i);
    lemma_token_at(s, skip_trivia(s, i));
    if let LexStep::Tok(t, st, e) = next_step(s, i) {
        if i < e <= s.len() {
            match t {
                TokenV::RParen => {
                    if let Ok((node, e2)) = sp_body(s, i, name, acc) {
                        let all = node->Function_1;
                        assert(all.take(acc.len() as int) =~= acc);
                        assert(forest_tokens(all, acc.len() as int) =~= Seq::<TokenV>::empty());
                        match lex_all(s, e) {
                            Some(rest) => {
                                assert(lex_all(s, i) == Some(seq![TokenV::RParen] + rest));
                                assert(forest_tokens(all, acc.len() as int) + seq![
                                    TokenV::RParen,
                                ] + rest =~= seq![TokenV::RParen] + rest);
                            },
                            None => {},
                        }
                    }
                },
                TokenV::Text(text) => {
                    lemma_body_round_trip(s, e, name, acc.push(NodeV::Text(text)));
                    lemma_body_round_trip_step(s, i, e, name, acc, NodeV::Text(text));
                },
                TokenV::Identifier(nm) => {
                    lemma_body_round_trip(s, e, name, acc.push(NodeV::Ident(nm)));
                    lemma_body_round_trip_step(s, i, e, name, acc, NodeV::Ident(nm));
                },
                TokenV::LParen => {
                    lemma_function_round_trip(s, e);
                    if let Ok((child, e2)) = sp_function(s, e) {
                        if e < e2 <= s.len() {
                            lemma_body_round_trip(s, e2, name, acc.push(child));
                            if let Ok((node, e3)) = sp_body(s, e2, name, acc.push(child)) {
                                let all = node->Function_1;
                                let k = acc.len() as int;
                                assert(all.take(k + 1) == acc.push(child));
                                assert(all.take(k) =~= acc) by {
                                    assert(forall|j: int|
                                        0 <= j < k ==> all.take(k)[j] == all.take(k + 1)[j]);
                                }
                                assert(all[k] == all.take(k + 1)[k]);
                                assert(all[k] == child);
                                match lex_all(s, e3) {
                                    Some(rest) => {
                                        let child_toks = node_tokens(child);
                                        assert(child_toks == seq![
                                            TokenV::LParen,
                                            TokenV::Identifier(child->Function_0),
                                        ] + forest_tokens(child->Function_1, 0) + seq![
                                            TokenV::RParen,
                                        ]);
                                        assert(forest_tokens(all, k) == child_toks
                                            + forest_tokens(all, k + 1));
                                        assert(lex_all(s, i) == (match lex_all(s, e) {
                                            Some(r) => Some(seq![TokenV::LParen] + r),
                                            None => None::<Seq<TokenV>>,
                                        }));
                                        assert(lex_all(s, i) == Some(
                                            seq![TokenV::LParen] + (seq![
                                                TokenV::Identifier(child->Function_0),
                                            ] + forest_tokens(child->Function_1, 0) + seq![
                                                TokenV::RParen,
                                            ] + (forest_tokens(all, k + 1) + seq![
                                                TokenV::RParen,
                                            ] + rest)),
                                        ));
                                        assert(seq![TokenV::LParen] + (seq![
                                            TokenV::Identifier(child->Function_0),
                                        ] + forest_tokens(child->Function_1, 0) + seq![
                                            TokenV::RParen,
                                        ] + (forest_tokens(all, k + 1) + seq![
                                            TokenV::RParen,
                                        ] + rest)) =~= forest_tokens(all, k) + seq![
                                            TokenV::RParen,
                                        ] + rest);
                                    },
                                    None => {},
                                }
                            }
                        }
                    }
                },
            }
        }
    }
}

/// One string or identifier token consumed by a function body extends the
/// accumulated nodes by one and the token trail by one.
proof fn lemma_body_round_trip_step(
    s: Seq<char>,
    i: int,
    e: int,
    name: Seq<char>,
    acc: Seq<NodeV>,
    pushed: NodeV,
)
    requires
        0 <= i <= s.len(),
        0 <= e <= s.len(),
        next_step(s, i) matches LexStep::Tok(t, st, e2) && e2 == e && i < e && (match pushed {
            NodeV::Text(text) => t == TokenV::Text(text),
            NodeV::Ident(nm) => t == TokenV::Identifier(nm),
            _ => false,
        }),
        sp_body(s, i, name, acc) == sp_body(s, e, name, acc.push(pushed)),
        sp_body(s, e, name, acc.push(pushed)) matches Ok((node, efin)) ==> (node matches NodeV::Function(
            nm,
            all,
        ) && nm == name && acc.push(pushed).len() <= all.len() && all.take(acc.len() as int + 1)
            == acc.push(pushed) && e < efin <= s.len() && lex_all(s, e) == (match lex_all(
            s,
            efin,
        ) {
            Some(rest) => Some(forest_tokens(all, acc.len() as int + 1) + seq![TokenV::RParen] + rest),
            None => None::<Seq<TokenV>>,
        })),
    ensures
        sp_body(s, i, name, acc) matches Ok((node, efin)) ==> (node matches NodeV::Function(
            nm,
            all,
        ) && nm == name && acc.len() <= all.len() && all.take(acc.len() as int) == acc && i < efin
            <= s.len() && lex_all(s, i) == (match lex_all(s, efin) {
            Some(rest) => Some(forest_tokens(all, acc.len() as int) + seq![TokenV::RParen] + rest),
            None => None::<Seq<TokenV>>,
        })),
{
    if let Ok((node, efin)) = sp_body(s, i, name, acc) {
        let all = node->Function_1;
        let k = acc.len() as int;
        assert(all.take(k + 1) == acc.push(pushed));
        assert(all.take(k) =~= acc) by {
            assert(forall|j: int| 0 <= j < k ==> all.take(k)[j] == all.take(k + 1)[j]);
        }
        assert(all[k] == all.take(k + 1)[k]);
        assert(node_tokens(all[k]) == (match pushed {
            NodeV::Text(text) => seq![TokenV::Text(text)],
            NodeV::Ident(nm) => seq![TokenV::Identifier(nm)],
            _ => node_tokens(all[k]),
        }));
        assert(forest_tokens(all, k) == node_tokens(all[k]) + forest_tokens(all, k + 1));
        match lex_all(s, efin) {
            Some(rest) => {
                assert(lex_all(s, i) == (match lex_all(s, e) {
                    Some(r) => Some(seq![node_tokens(all[k])[0]] + r),
                    None => None::<Seq<TokenV>>,
                }));
                assert(seq![node_tokens(all[k])[0]] + (forest_tokens(all, k + 1) + seq![
                    TokenV::RParen,
                ] + rest) =~= forest_tokens(all, k) + seq![TokenV::RParen] + rest);
            },
            None => {},
        }
    }
}

/// The round trip through one function form.
proof fn lemma_function_round_trip(s: Seq<char>, i: int)
    requires
        0 <= i <= s.len(),
    ensures
        sp_function(s, i) matches Ok((node, e)) ==> (node is Function && i < e <= s.len()
            && lex_all(s, i) == (match lex_all(s, e) {
            Some(rest) => Some(
                seq![TokenV::Identifier(node->Function_0)] + forest_tokens(node->Function_1, 0)
                    + seq![TokenV::RParen] + rest,
            ),
            None => None::<Seq<TokenV>>,
        })),
    decreases s.len() - i, 1int,
{
    lemma_skip_trivia(s, i);
    lemma_token_at(s, skip_trivia(s, i));
    if let LexStep::Tok(t, st, e) = next_step(s, i) {
        if t matches TokenV::Identifier(name) && i < e <= s.len() {
            lemma_body_round_trip(s, e, t->Identifier_0, Seq::<NodeV>::empty());
            if let Ok((node, e2)) = sp_body(s, e, t->Identifier_0, Seq::<NodeV>::empty()) {
                let all = node->Function_1;
                assert(forest_tokens(all, 0) == forest_tokens(all, Seq::<NodeV>::empty().len() as int));
                match lex_all(s, e2) {
                    Some(rest) => {
                        assert(lex_all(s, i) == (match lex_all(s, e) {
                            Some(r) => Some(seq![t] + r),
                            None => None::<Seq<TokenV>>,
                        }));
                        assert(seq![t] + (forest_tokens(all, 0) + seq![TokenV::RParen] + rest)
                            =~= seq![TokenV::Identifier(node->Function_0)] + forest_tokens(
                            all,
                            0,
                        ) + seq![TokenV::RParen] + rest);
                    },
                    None => {},
                }
            }
        }
    }
}

/// The round trip through the rest of a document.
proof fn lemma_document_round_trip(s: Seq<char>, i: int, acc: Seq<NodeV>)
    requires
        0 <= i <= s.len(),
    ensures
        sp_document(s, i, acc) matches Ok(all) ==> (acc.len() <= all.len() && all.take(
            acc.len() as int,
        ) == acc && lex_all(s, i) == Some(forest_tokens(all, acc.len() as int))),
    decreases s.len() - i,
{
    lemma_skip_trivia(s, i);
    lemma_token_at(s, skip_trivia(s, i));
    match next_step(s, i) {
        LexStep::End => {
            if let Ok(all) = sp_document(s, i, acc) {
                assert(all.take(acc.len() as int) =~= acc);
                assert(forest_tokens(all, acc.len() as int) =~= Seq::<TokenV>::empty());
            }
        },
        LexStep::Fail(_) => {},
        LexStep::Tok(t, st, e) => {
            if t is LParen && i < e <= s.len() {
                lemma_function_round_trip(s, e);
                if let Ok((child, e2)) = sp_function(s, e) {
                    if e < e2 <= s.len() {
                        lemma_document_round_trip(s, e2, acc.push(child));
                        if let Ok(all) = sp_document(s, e2, acc.push(child)) {
                            let k = acc.len() as int;
                            assert(all.take(k + 1) == acc.push(child));
                            assert(all.take(k) =~= acc) by {
                                assert(forall|j: int|
                                    0 <= j < k ==> all.take(k)[j] == all.take(k + 1)[j]);
                            }
                            assert(all[k] == all.take(k + 1)[k]);
                            assert(all[k] == child);
                            assert(forest_tokens(all, k) == node_tokens(child) + forest_tokens(
                                all,
                                k + 1,
                            ));
                            assert(lex_all(s, e2) == Some(forest_tokens(all, k + 1)));
                            assert(lex_all(s, i) == (match lex_all(s, e) {
                                Some(r) => Some(seq![TokenV::LParen] + r),
                                None => None::<Seq<TokenV>>,
                            }));
                            assert(seq![TokenV::LParen] + (seq![
                                TokenV::Identifier(child->Function_0),
                            ] + forest_tokens(child->Function_1, 0) + seq![
                                TokenV::RParen,
                            ] + forest_tokens(all, k + 1)) =~= forest_tokens(all, k));
                        }
                    }
                }
            }
        },
    }
}

/// The parsing round trip: for any source text that parses, the forest's
/// token trail — parentheses, names and arguments of every form, in order —
/// is exactly the token sequence the lexer reads from the text.
pub proof fn lemma_parse_round_trip(s: Seq<char>)
    requires
        sp_parse(s) is Ok,
    ensures
        lex_all(s, 0) == Some(forest_tokens(sp_parse(s)->Ok_0, 0)),
{
    lemma_document_round_trip(s, 0, Seq::<NodeV>::empty());
}

// ---------------------------------------------------------------------------
// The executable parser.
// ---------------------------------------------------------------------------
/// Parses one function form, the opening parenthesis already consumed.
fn parse_function(lexer: &mut Lexer<'_>) -> (r: Result<Node, (String, Span)>)
    requires
        old(lexer).wf(),
    ensures
        final(lexer).wf(),
        final(lexer).src@ == old(lexer).src@,
        (match sp_function(old(lexer).src@, old(lexer).pos as int) {
            Ok((n, e)) => r matches Ok(node) && node@ == n && final(lexer).pos == e,
            Err(pe) => r matches Err(err) && err.0@ == pe.msg && err.1.start == pe.start
                && err.1.end == pe.end,
        }),
    decreases old(lexer).src@.len() - old(lexer).pos,
{
    let ghost s = lexer.src@;
    let ghost i0 = lexer.pos as int;
    proof {
        lemma_skip_trivia(s, i0);
        lemma_token_at(s, skip_trivia(s, i0));
    }
    let id = match lexer.next() {
        Some(Ok(Token::Identifier(name))) => name,
        _ => {
            return Err(("Identifier expected".to_owned(), lexer.span()));
        },
    };
    let ghost name_v = id@;
    let ghost target = sp_function(s, i0);
    let ghost e_id = lexer.pos as int;
    proof {
        assert(target == sp_body(s, e_id, name_v, Seq::<NodeV>::empty()));
    }
    let mut nodes: Vec<Node> = Vec::new();
    proof {
        assert(nodes.deep_view() =~= Seq::<NodeV>::empty());
    }
    loop
        invariant
            lexer.wf(),
            lexer.src@ == s,
            s == old(lexer).src@,
            i0 == old(lexer).pos,
            i0 < lexer.pos <= s.len(),
            id@ == name_v,
            target == sp_body(s, lexer.pos as int, name_v, nodes.deep_view()),
            target == sp_function(s, i0),
        decreases s.len() - lexer.pos,
    {
        let ghost i = lexer.pos as int;
        let ghost acc0 = nodes.deep_view();
        proof {
            lemma_skip_trivia(s, i);
            lemma_token_at(s, skip_trivia(s, i));
        }
        match lexer.next() {
            Some(Ok(Token::RParen)) => {
                let r = Node::Function(id, nodes);
                proof {
                    assert(r@ is Function);
                    assert(r@->Function_0 == name_v);
                    assert(r@->Function_1 =~= acc0);
                    assert(r@ =~= NodeV::Function(name_v, acc0));
                    assert(target == Ok::<(NodeV, int), PErrV>((
                        NodeV::Function(name_v, acc0),
                        lexer.pos as int,
                    )));
                }
                return Ok(r);
            },
            Some(Ok(Token::String(text))) => {
                nodes.push(Node::String(text));
                proof {
                    assert(nodes.deep_view() =~= acc0.push(nodes@[acc0.len() as int]@));
                }
            },
            Some(Ok(Token::Identifier(nm))) => {
                nodes.push(Node::Identifier(nm));
                proof {
                    assert(nodes.deep_view() =~= acc0.push(nodes@[acc0.len() as int]@));
                }
            },
            Some(Ok(Token::LParen)) => {
                proof {
                    lemma_sp_function_advances(s, lexer.pos as int);
                }
                match parse_function(lexer) {
                    Ok(node) => {
                        nodes.push(node);
                        proof {
                            assert(nodes.deep_view() =~= acc0.push(nodes@[acc0.len() as int]@));
                        }
                    },
                    Err(e) => {
                        return Err(e);
                    },
                }
            },
            Some(Err(_)) => {
                return Err(("Invalid token".to_owned(), lexer.span()));
            },
            None => {
                return Err(("Unmatched open parenthesis".to_owned(), lexer.span()));
            },
        }
    }
}

/// Parses a source text into its forest of top-level forms. The first
/// lexical or syntactic error aborts the parse; the error carries its
/// message and the offending span.
pub fn parse(source: &str) -> (r: Result<Vec<Node>, (String, Span)>)
    ensures
        (match sp_parse(source@) {
            Ok(nodes) => r matches Ok(v) && v.deep_view() == nodes,
            Err(pe) => r matches Err(err) && err.0@ == pe.msg && err.1.start == pe.start
                && err.1.end == pe.end,
        }),
{
    let ghost s = source@;
    let mut lexer = Token::lexer(source);
    let mut result: Vec<Node> = Vec::new();
    proof {
        assert(result.deep_view() =~= Seq::<NodeV>::empty());
    }
    loop
        invariant
            lexer.wf(),
            lexer.src@ == s,
            s == source@,
            sp_parse(s) == sp_document(s, lexer.pos as int, result.deep_view()),
        decreases s.len() - lexer.pos,
    {
        let ghost i = lexer.pos as int;
        let ghost acc0 = result.deep_view();
        proof {
            lemma_skip_trivia(s, i);
            lemma_token_at(s, skip_trivia(s, i));
        }
        match lexer.next() {
            None => {
                return Ok(result);
            },
            Some(Ok(Token::LParen)) => {
                proof {
                    lemma_sp_function_advances(s, lexer.pos as int);
                }
                match parse_function(&mut lexer) {
                    Ok(node) => {
                        result.push(node);
                        proof {
                            assert(result.deep_view() =~= acc0.push(
                                result@[acc0.len() as int]@,
                            ));
                        }
                    },
                    Err(e) => {
                        return Err(e);
                    },
                }
            },
            Some(Ok(_)) => {
                return Err(("Invalid token".to_owned(), lexer.span()));
            },
            Some(Err(_)) => {
                return Err(("Invalid token".to_owned(), lexer.span()));
            },
        }
    }
}

} // verus!
