//! The lexer turns source text into parentheses, identifiers and
//! backtick-delimited strings, skipping whitespace and `;` line comments.
//! Tokens are pulled one at a time; the spec functions below say exactly
//! which token starts where.

use vstd::prelude::*;

verus! {

/// A half-open byte range into the source text.
#[derive(Clone, Copy, PartialEq, Eq, Structural, Debug)]
pub struct Span {
    pub start: usize,
    pub end: usize,
}

/// The mathematical value of a [`Token`].
pub ghost enum TokenV {
    LParen,
    RParen,
    Identifier(Seq<char>),
    Text(Seq<char>),
}

#[derive(Debug, PartialEq, Eq)]
pub enum Token {
    LParen,
    RParen,
    Identifier(String),
    String(String),
}

impl View for Token {
    type V = TokenV;

    open spec fn view(&self) -> TokenV {
        match self {
            Token::LParen => TokenV::LParen,
            Token::RParen => TokenV::RParen,
            Token::Identifier(s) => TokenV::Identifier(s@),
            Token::String(s) => TokenV::Text(s@),
        }
    }
}

// ---------------------------------------------------------------------------
// Character classes.
// ---------------------------------------------------------------------------
/// Whitespace skipped between tokens.
pub open spec fn is_space(c: char) -> bool {
    c == ' ' || c == '\t' || c == '\r' || c == '\n' || c == '\u{000C}'
}

/// A comment runs from `;` to the next line break.
pub open spec fn is_newline(c: char) -> bool {
    c == '\r' || c == '\n'
}

/// The first character of an identifier.
pub open spec fn is_ident_start(c: char) -> bool {
    c == '&' || c == '@' || ('a' <= c && c <= 'z') || ('A' <= c && c <= 'Z')
}

/// A following character of an identifier.
pub open spec fn is_ident_cont(c: char) -> bool {
    ('a' <= c && c <= 'z') || ('A' <= c && c <= 'Z') || ('0' <= c && c <= '9') || c == '-'
        || c == '_'
}

// ---------------------------------------------------------------------------
// Where tokens start and end.
// ---------------------------------------------------------------------------
/// The first line break at or after `i`, or `-1`.
pub open spec fn newline_idx(s: Seq<char>, i: int) -> int
    decreases s.len() - i,
{
    if i < 0 || i >= s.len() {
        -1
    } else if is_newline(s[i]) {
        i
    } else {
        newline_idx(s, i + 1)
    }
}

/// The first backtick at or after `i`, or `-1`.
pub open spec fn backtick_idx(s: Seq<char>, i: int) -> int
    decreases s.len() - i,
{
    if i < 0 || i >= s.len() {
        -1
    } else if s[i] == '`' {
        i
    } else {
        backtick_idx(s, i + 1)
    }
}

/// The position right after the identifier characters starting at `i`.
pub open spec fn ident_end(s: Seq<char>, i: int) -> int
    decreases s.len() - i,
{
    if i < 0 || i >= s.len() {
        s.len() as int
    } else if is_ident_cont(s[i]) {
        ident_end(s, i + 1)
    } else {
        i
    }
}

/// The position of the next token at or after `i`: whitespace is skipped,
/// and a `;` comment is skipped through its line break. A comment that
/// reaches the end of the input without a line break is not skipped — the
/// `;` is left to fail as a token, as the grammar demands.
pub open spec fn skip_trivia(s: Seq<char>, i: int) -> int
    decreases s.len() - i,
{
    if i < 0 || i >= s.len() {
        i
    } else if is_space(s[i]) {
        skip_trivia(s, i + 1)
    } else if s[i] == ';' {
        let nl = newline_idx(s, i + 1);
        if i < nl + 1 <= s.len() {
            skip_trivia(s, nl + 1)
        } else {
            i
        }
    } else {
        i
    }
}

/// One step of lexing: what stands at position `j`, `j` being already past
/// all trivia.
pub ghost enum LexStep {
    /// Nothing but trivia remains.
    End,
    /// A token with its span and the position after it.
    Tok(TokenV, int, int),
    /// No token starts at `j`: an unterminated string or a stray character.
    Fail(int),
}

/// The token starting exactly at `j` (no trivia skipped here).
pub open spec fn token_at(s: Seq<char>, j: int) -> LexStep {
    if j < 0 || j >= s.len() {
        LexStep::End
    } else if s[j] == '(' {
        LexStep::Tok(TokenV::LParen, j, j + 1)
    } else if s[j] == ')' {
        LexStep::Tok(TokenV::RParen, j, j + 1)
    } else if s[j] == '`' {
        let k = backtick_idx(s, j + 1);
        if k >= j + 1 {
            LexStep::Tok(TokenV::Text(s.subrange(j + 1, k)), j, k + 1)
        } else {
            LexStep::Fail(j)
        }
    } else if is_ident_start(s[j]) {
        LexStep::Tok(TokenV::Identifier(s.subrange(j, ident_end(s, j + 1))), j, ident_end(s, j + 1))
    } else {
        LexStep::Fail(j)
    }
}

/// What the next pull from position `i` yields.
pub open spec fn next_step(s: Seq<char>, i: int) -> LexStep {
    token_at(s, skip_trivia(s, i))
}

/// The byte offset of character position `i`: the UTF-8 length of the
/// characters before it, reported as `str::len` reports lengths. Spans are
/// byte ranges.
pub open spec fn byte_pos(s: Seq<char>, i: int) -> int {
    (vstd::utf8::encode_utf8(s.subrange(0, i)).len() as usize) as int
}

/// The whole token sequence of `s` from position `i` on, or nothing if
/// lexing fails anywhere. The bound guard restates what `lemma_token_at`
/// proves, so that the recursion visibly terminates.
pub open spec fn lex_all(s: Seq<char>, i: int) -> Option<Seq<TokenV>>
    decreases s.len() - i,
{
    match next_step(s, i) {
        LexStep::End => Some(Seq::<TokenV>::empty()),
        LexStep::Fail(_) => None,
        LexStep::Tok(t, st, e) => {
            if i < e <= s.len() {
                match lex_all(s, e) {
                    Some(rest) => Some(seq![t] + rest),
                    None => None,
                }
            } else {
                None
            }
        },
    }
}

// ---------------------------------------------------------------------------
// Lemmas pinning the scanning functions down.
// ---------------------------------------------------------------------------
pub proof fn lemma_newline_idx(s: Seq<char>, i: int)
    requires
        0 <= i <= s.len(),
    ensures
        newline_idx(s, i) == -1 ==> forall|j: int| i <= j < s.len() ==> !is_newline(s[j]),
        newline_idx(s, i) != -1 ==> {
            let x = newline_idx(s, i);
            &&& i <= x < s.len()
            &&& is_newline(s[x])
            &&& forall|j: int| i <= j < x ==> !is_newline(s[j])
        },
    decreases s.len() - i,
{
    if i < s.len() && !is_newline(s[i]) {
        lemma_newline_idx(s, i + 1);
    }
}

pub proof fn lemma_backtick_idx(s: Seq<char>, i: int)
    requires
        0 <= i <= s.len(),
    ensures
        backtick_idx(s, i) == -1 ==> forall|j: int| i <= j < s.len() ==> s[j] != '`',
        backtick_idx(s, i) != -1 ==> {
            let x = backtick_idx(s, i);
            &&& i <= x < s.len()
            &&& s[x] == '`'
            &&& forall|j: int| i <= j < x ==> s[j] != '`'
        },
    decreases s.len() - i,
{
    if i < s.len() && s[i] != '`' {
        lemma_backtick_idx(s, i + 1);
    }
}

pub proof fn lemma_ident_end(s: Seq<char>, i: int)
    requires
        0 <= i <= s.len(),
    ensures
        ({
            let x = ident_end(s, i);
            &&& i <= x <= s.len()
            &&& forall|j: int| i <= j < x ==> is_ident_cont(s[j])
            &&& (x < s.len() ==> !is_ident_cont(s[x]))
        }),
    decreases s.len() - i,
{
    if i < s.len() && is_ident_cont(s[i]) {
        lemma_ident_end(s, i + 1);
    }
}

/// Skipping trivia never moves backwards nor past the end.
pub proof fn lemma_skip_trivia(s: Seq<char>, i: int)
    requires
        0 <= i <= s.len(),
    ensures
        i <= skip_trivia(s, i) <= s.len(),
    decreases s.len() - i,
{
    if i < s.len() {
        if is_space(s[i]) {
            lemma_skip_trivia(s, i + 1);
        } else if s[i] == ';' {
            lemma_newline_idx(s, i + 1);
            let nl = newline_idx(s, i + 1);
            if i < nl + 1 <= s.len() {
                lemma_skip_trivia(s, nl + 1);
            }
        }
    }
}

/// A token occupies at least one character and ends within the input; a
/// failure points into the input.
pub proof fn lemma_token_at(s: Seq<char>, j: int)
    requires
        0 <= j <= s.len(),
    ensures
        (match token_at(s, j) {
            LexStep::End => j == s.len(),
            LexStep::Tok(t, st, e) => st == j && j < e <= s.len(),
            LexStep::Fail(st) => st == j && j < s.len(),
        }),
{
    if j < s.len() {
        if s[j] == '(' || s[j] == ')' {
        } else if s[j] == '`' {
            lemma_backtick_idx(s, j + 1);
        } else if is_ident_start(s[j]) {
            lemma_ident_end(s, j + 1);
        }
    }
}

// ---------------------------------------------------------------------------
// The executable lexer.
// ---------------------------------------------------------------------------
/// A pull-based lexer over one source text.
pub struct Lexer<'a> {
    pub src: &'a str,
    pub pos: usize,
    pub tok_start: usize,
    pub tok_end: usize,
}

/// Computes the byte offset of character position `i` of `src`.
fn byte_offset(src: &str, i: usize) -> (r: usize)
    requires
        i <= src@.len(),
    ensures
        r == byte_pos(src@, i as int),
{
    src.substring_char(0, i).len()
}

/// Decides `is_ident_cont` on one character.
fn ident_cont_char(c: char) -> (r: bool)
    ensures
        r == is_ident_cont(c),
{
    (c >= 'a' && c <= 'z') || (c >= 'A' && c <= 'Z') || (c >= '0' && c <= '9') || c == '-'
        || c == '_'
}

/// Skips whitespace and comments, per `skip_trivia`.
fn skip_trivia_exec(src: &str, start: usize) -> (r: usize)
    requires
        start <= src@.len(),
    ensures
        r == skip_trivia(src@, start as int),
        start <= r <= src@.len(),
    decreases src@.len() - start,
{
    let ghost s = src@;
    proof {
        lemma_skip_trivia(s, start as int);
    }
    let n = src.unicode_len();
    if start >= n {
        return start;
    }
    let c = src.get_char(start);
    if c == ' ' || c == '\t' || c == '\r' || c == '\n' || c == '\u{000C}' {
        return skip_trivia_exec(src, start + 1);
    }
    if c == ';' {
        let mut j: usize = start + 1;
        while j < n && !(src.get_char(j) == '\r' || src.get_char(j) == '\n')
            invariant
                start + 1 <= j <= n,
                n == s.len(),
                s == src@,
                forall|m: int| start + 1 <= m < j ==> !is_newline(s[m]),
            decreases n - j,
        {
            j = j + 1;
        }
        proof {
            lemma_newline_idx(s, start + 1);
        }
        if j < n {
            proof {
                assert(newline_idx(s, start + 1) == j);
            }
            return skip_trivia_exec(src, j + 1);
        }
        proof {
            assert(newline_idx(s, start + 1) == -1);
        }
        return start;
    }
    start
}

impl Token {
    /// A lexer positioned at the start of `source`.
    pub fn lexer<'a>(source: &'a str) -> (r: Lexer<'a>)
        ensures
            r.src@ == source@,
            r.pos == 0,
            r.tok_start == 0,
            r.tok_end == 0,
    {
        Lexer { src: source, pos: 0, tok_start: 0, tok_end: 0 }
    }
}

impl<'a> Lexer<'a> {
    /// The lexer's position sits inside its source.
    pub open spec fn wf(&self) -> bool {
        self.pos <= self.src@.len()
    }

    /// The span of the last token or error returned by `next`.
    pub fn span(&self) -> (r: Span)
        ensures
            r == (Span { start: self.tok_start, end: self.tok_end }),
    {
        Span { start: self.tok_start, end: self.tok_end }
    }

    /// Pulls the next token: `None` at the end of the input, `Err(())` on a
    /// character sequence that is no token. The span of whatever was pulled
    /// — or of the offending character — is left in `self.span()`.
    pub fn next(&mut self) -> (r: Option<Result<Token, ()>>)
        requires
            old(self).wf(),
        ensures
            final(self).wf(),
            final(self).src == old(self).src,
            (match next_step(old(self).src@, old(self).pos as int) {
                LexStep::End => {
                    &&& r is None
                    &&& final(self).pos == old(self).src@.len()
                    &&& final(self).tok_start == byte_pos(
                        old(self).src@,
                        old(self).src@.len() as int,
                    )
                    &&& final(self).tok_end == final(self).tok_start
                },
                LexStep::Tok(t, st, e) => {
                    &&& r matches Some(res) && res matches Ok(tok) && tok@ == t
                    &&& final(self).pos == e
                    &&& final(self).tok_start == byte_pos(old(self).src@, st)
                    &&& final(self).tok_end == byte_pos(old(self).src@, e)
                },
                LexStep::Fail(st) => {
                    &&& r matches Some(res) && res matches Err(u) && u == ()
                    &&& final(self).pos == st + 1
                    &&& final(self).tok_start == byte_pos(old(self).src@, st)
                    &&& final(self).tok_end == byte_pos(old(self).src@, st + 1)
                },
            }),
    {
        let ghost s = self.src@;
        let n = self.src.unicode_len();
        let j = skip_trivia_exec(self.src, self.pos);
        proof {
            lemma_token_at(s, j as int);
        }
        if j >= n {
            let b = self.src.len();
            proof {
                assert(s.subrange(0, s.len() as int) =~= s);
            }
            self.pos = n;
            self.tok_start = b;
            self.tok_end = b;
            return None;
        }
        let c = self.src.get_char(j);
        if c == '(' {
            self.tok_start = byte_offset(self.src, j);
            self.tok_end = byte_offset(self.src, j + 1);
            self.pos = j + 1;
            return Some(Ok(Token::LParen));
        }
        if c == ')' {
            self.tok_start = byte_offset(self.src, j);
            self.tok_end = byte_offset(self.src, j + 1);
            self.pos = j + 1;
            return Some(Ok(Token::RParen));
        }
        if c == '`' {
            let mut k: usize = j + 1;
            while k < n && self.src.get_char(k) != '`'
                invariant
                    j + 1 <= k <= n,
                    n == s.len(),
                    s == self.src@,
                    forall|m: int| j + 1 <= m < k ==> s[m] != '`',
                decreases n - k,
            {
                k = k + 1;
            }
            proof {
                lemma_backtick_idx(s, j + 1);
            }
            if k < n {
                proof {
                    assert(backtick_idx(s, j + 1) == k);
                }
                let content = self.src.substring_char(j + 1, k);
                self.tok_start = byte_offset(self.src, j);
                self.tok_end = byte_offset(self.src, k + 1);
                self.pos = k + 1;
                return Some(Ok(Token::String(content.to_owned())));
            }
            proof {
                assert(backtick_idx(s, j + 1) == -1);
            }
            self.tok_start = byte_offset(self.src, j);
            self.tok_end = byte_offset(self.src, j + 1);
            self.pos = j + 1;
            return Some(Err(()));
        }
        if c == '&' || c == '@' || (c >= 'a' && c <= 'z') || (c >= 'A' && c <= 'Z') {
            let mut e: usize = j + 1;
            while e < n && ident_cont_char(self.src.get_char(e))
                invariant
                    j + 1 <= e <= n,
                    n == s.len(),
                    s == self.src@,
                    forall|m: int| j + 1 <= m < e ==> is_ident_cont(s[m]),
                decreases n - e,
            {
                e = e + 1;
            }
            proof {
                lemma_ident_end(s, j + 1);
                assert(ident_end(s, j + 1) == e);
            }
            let name = self.src.substring_char(j, e);
            self.tok_start = byte_offset(self.src, j);
            self.tok_end = byte_offset(self.src, e);
            self.pos = e;
            return Some(Ok(Token::Identifier(name.to_owned())));
        }
        self.tok_start = byte_offset(self.src, j);
        self.tok_end = byte_offset(self.src, j + 1);
        self.pos = j + 1;
        Some(Err(()))
    }
}

} // verus!
