//! The tokenizer: script source text to a sequence of tokens.

use vstd::prelude::*;
use vstd::std_specs::iter::IteratorSpec;
use vstd::string::StrSliceExecFns;

verus! {

broadcast use vstd::string::axiom_spec_iter;

/// A lexical unit of a script.
#[derive(Debug, PartialEq, Clone)]
pub enum Token {
    Import,
    From,
    Let,
    For,
    In,
    OpenBrace,
    CloseBrace,
    OpenParen,
    CloseParen,
    Ident(String),
    Comma,
    SemiColon,
    Colon,
    /// `..`
    Concatenate,
    Period,
    /// The text between double quotes, as it stands.
    StringLiteral(String),
    /// The text between slashes, as it stands.
    Regex(String),
    /// `@`
    Directive,
    Equal,
}

pub enum TokenView {
    Import,
    From,
    Let,
    For,
    In,
    OpenBrace,
    CloseBrace,
    OpenParen,
    CloseParen,
    Ident(Seq<char>),
    Comma,
    SemiColon,
    Colon,
    Concatenate,
    Period,
    StringLiteral(Seq<char>),
    Regex(Seq<char>),
    Directive,
    Equal,
}

impl View for Token {
    type V = TokenView;

    open spec fn view(&self) -> TokenView {
        match self {
            Token::Import => TokenView::Import,
            Token::From => TokenView::From,
            Token::Let => TokenView::Let,
            Token::For => TokenView::For,
            Token::In => TokenView::In,
            Token::OpenBrace => TokenView::OpenBrace,
            Token::CloseBrace => TokenView::CloseBrace,
            Token::OpenParen => TokenView::OpenParen,
            Token::CloseParen => TokenView::CloseParen,
            Token::Ident(s) => TokenView::Ident(s@),
            Token::Comma => TokenView::Comma,
            Token::SemiColon => TokenView::SemiColon,
            Token::Colon => TokenView::Colon,
            Token::Concatenate => TokenView::Concatenate,
            Token::Period => TokenView::Period,
            Token::StringLiteral(s) => TokenView::StringLiteral(s@),
            Token::Regex(s) => TokenView::Regex(s@),
            Token::Directive => TokenView::Directive,
            Token::Equal => TokenView::Equal,
        }
    }
}

pub open spec fn tokens_view(ts: Seq<Token>) -> Seq<TokenView> {
    ts.map_values(|t: Token| t@)
}

pub open spec fn is_space(c: char) -> bool {
    c == ' ' || c == '\t' || c == '\n' || c == '\x0C'
}

pub open spec fn is_ident_start(c: char) -> bool {
    ('a' <= c && c <= 'z') || ('A' <= c && c <= 'Z')
}

pub open spec fn is_ident_char(c: char) -> bool {
    is_ident_start(c) || ('0' <= c && c <= '9') || c == '_'
}

/// Where the run of identifier characters that starts at `i` ends.
pub open spec fn word_end(s: Seq<char>, i: int) -> int
    decreases s.len() - i,
{
    if 0 <= i < s.len() && is_ident_char(s[i]) {
        word_end(s, i + 1)
    } else {
        i
    }
}

/// The first position at or after `i` that holds `q`.
pub open spec fn next_char(s: Seq<char>, i: int, q: char) -> Option<int>
    decreases s.len() - i,
{
    if i < 0 || i >= s.len() {
        None
    } else if s[i] == q {
        Some(i)
    } else {
        next_char(s, i + 1, q)
    }
}

/// A word is a keyword or else an identifier.
pub open spec fn word_token(w: Seq<char>) -> TokenView {
    if w == "import"@ {
        TokenView::Import
    } else if w == "from"@ {
        TokenView::From
    } else if w == "let"@ {
        TokenView::Let
    } else if w == "for"@ {
        TokenView::For
    } else if w == "in"@ {
        TokenView::In
    } else {
        TokenView::Ident(w)
    }
}

/// The tokens of one character.
pub open spec fn punctuation(c: char) -> Option<TokenView> {
    if c == '{' {
        Some(TokenView::OpenBrace)
    } else if c == '}' {
        Some(TokenView::CloseBrace)
    } else if c == '(' {
        Some(TokenView::OpenParen)
    } else if c == ')' {
        Some(TokenView::CloseParen)
    } else if c == ',' {
        Some(TokenView::Comma)
    } else if c == ';' {
        Some(TokenView::SemiColon)
    } else if c == ':' {
        Some(TokenView::Colon)
    } else if c == '@' {
        Some(TokenView::Directive)
    } else if c == '=' {
        Some(TokenView::Equal)
    } else {
        None
    }
}

pub open spec fn prepend(t: TokenView, r: Result<Seq<TokenView>, int>) -> Result<Seq<TokenView>, int> {
    match r {
        Ok(ts) => Ok(seq![t] + ts),
        Err(e) => Err(e),
    }
}

pub open spec fn after(ts: Seq<TokenView>, r: Result<Seq<TokenView>, int>) -> Result<Seq<TokenView>, int> {
    match r {
        Ok(rest) => Ok(ts + rest),
        Err(e) => Err(e),
    }
}

/// The tokens of `s` from position `i` on, or the position of the first
/// character that starts no token. Whitespace separates tokens; a word is as
/// long as it can be; `..` is preferred to `.`; a string runs to the next
/// double quote and a regular expression, never empty, to the next slash.
pub open spec fn lex_from(s: Seq<char>, i: int) -> Result<Seq<TokenView>, int>
    decreases s.len() - i,
{
    if i < 0 || i >= s.len() {
        Ok(seq![])
    } else {
        let c = s[i];
        if is_space(c) {
            lex_from(s, i + 1)
        } else if is_ident_start(c) {
            let j = word_end(s, i + 1);
            if j <= i || j > s.len() {
                Err(i)
            } else {
                prepend(word_token(s.subrange(i, j)), lex_from(s, j))
            }
        } else if c == '"' || c == '/' {
            match next_char(s, i + 1, c) {
                Some(j) => if j <= i || j >= s.len() || (c == '/' && j == i + 1) {
                    Err(i)
                } else {
                    let body = s.subrange(i + 1, j);
                    let t = if c == '"' {
                        TokenView::StringLiteral(body)
                    } else {
                        TokenView::Regex(body)
                    };
                    prepend(t, lex_from(s, j + 1))
                },
                None => Err(i),
            }
        } else if c == '.' {
            if i + 1 < s.len() && s[i + 1] == '.' {
                prepend(TokenView::Concatenate, lex_from(s, i + 2))
            } else {
                prepend(TokenView::Period, lex_from(s, i + 1))
            }
        } else {
            match punctuation(c) {
                Some(t) => prepend(t, lex_from(s, i + 1)),
                None => Err(i),
            }
        }
    }
}

pub open spec fn lex_spec(s: Seq<char>) -> Result<Seq<TokenView>, int> {
    lex_from(s, 0)
}

proof fn lemma_after_prepend(ts: Seq<TokenView>, t: TokenView, r: Result<Seq<TokenView>, int>)
    ensures
        after(ts, prepend(t, r)) == after(ts.push(t), r),
{
    match r {
        Ok(x) => assert(ts + (seq![t] + x) =~= ts.push(t) + x),
        Err(_) => {},
    }
}

proof fn lemma_word_end(s: Seq<char>, i: int)
    requires
        0 <= i <= s.len(),
    ensures
        i <= word_end(s, i) <= s.len(),
    decreases s.len() - i,
{
    if i < s.len() && is_ident_char(s[i]) {
        lemma_word_end(s, i + 1);
    }
}

proof fn lemma_next_char(s: Seq<char>, i: int, q: char)
    requires
        0 <= i,
    ensures
        next_char(s, i, q) matches Some(j) ==> i <= j < s.len() && s[j] == q,
    decreases s.len() - i,
{
    if i < s.len() && s[i] != q {
        lemma_next_char(s, i + 1, q);
    }
}

pub(crate) fn char_vec(s: &str) -> (r: Vec<char>)
    ensures
        r@ == s@,
{
    let mut out: Vec<char> = Vec::new();
    for c in it: s.chars()
        invariant
            out@ == it.seq().take(it.index() as int),
    {
        out.push(c);
    }
    out
}

fn is_ident_char_exec(c: char) -> (r: bool)
    ensures
        r == is_ident_char(c),
{
    ('a' <= c && c <= 'z') || ('A' <= c && c <= 'Z') || ('0' <= c && c <= '9') || c == '_'
}

fn word_token_exec(w: String) -> (r: Token)
    ensures
        r@ == word_token(w@),
{
    if w == "import".to_owned() {
        Token::Import
    } else if w == "from".to_owned() {
        Token::From
    } else if w == "let".to_owned() {
        Token::Let
    } else if w == "for".to_owned() {
        Token::For
    } else if w == "in".to_owned() {
        Token::In
    } else {
        Token::Ident(w)
    }
}

fn punctuation_exec(c: char) -> (r: Option<Token>)
    ensures
        match punctuation(c) {
            Some(t) => r is Some && r->Some_0@ == t,
            None => r is None,
        },
{
    if c == '{' {
        Some(Token::OpenBrace)
    } else if c == '}' {
        Some(Token::CloseBrace)
    } else if c == '(' {
        Some(Token::OpenParen)
    } else if c == ')' {
        Some(Token::CloseParen)
    } else if c == ',' {
        Some(Token::Comma)
    } else if c == ';' {
        Some(Token::SemiColon)
    } else if c == ':' {
        Some(Token::Colon)
    } else if c == '@' {
        Some(Token::Directive)
    } else if c == '=' {
        Some(Token::Equal)
    } else {
        None
    }
}

/// The tokens of a script's source, as [`lex_spec`] describes them, or the
/// first character that starts no token.
#[verifier::loop_isolation(false)]
pub fn lex(contents: &str) -> (r: Result<Vec<Token>, String>)
    ensures
        match lex_spec(contents@) {
            Ok(ts) => r is Ok && tokens_view(r->Ok_0@) == ts,
            Err(i) => r is Err && r->Err_0@ == contents@.subrange(i, i + 1),
        },
{
    let chars = char_vec(contents);
    let n = chars.len();
    let ghost s = contents@;
    let mut tokens: Vec<Token> = Vec::new();
    let mut i: usize = 0;
    assert(tokens_view(tokens@) =~= seq![]);
    assert(after(seq![], lex_from(s, 0)) == lex_from(s, 0)) by {
        match lex_from(s, 0) {
            Ok(x) => assert(seq![] + x =~= x),
            Err(_) => {},
        }
    }
    while i < n
        invariant
            i <= n,
            n == s.len(),
            chars@ == s,
            lex_spec(s) == after(tokens_view(tokens@), lex_from(s, i as int)),
        decreases n - i,
    {
        let c = chars[i];
        let ghost before = tokens@;
        if c == ' ' || c == '\t' || c == '\n' || c == '\x0C' {
            i = i + 1;
        } else if ('a' <= c && c <= 'z') || ('A' <= c && c <= 'Z') {
            let mut j: usize = i + 1;
            while j < n && is_ident_char_exec(chars[j])
                invariant
                    i < j <= n,
                    word_end(s, i + 1) == word_end(s, j as int),
                decreases n - j,
            {
                j = j + 1;
            }
            let word = contents.substring_char(i, j).to_owned();
            let t = word_token_exec(word);
            proof {
                lemma_after_prepend(tokens_view(before), t@, lex_from(s, j as int));
            }
            tokens.push(t);
            assert(tokens_view(tokens@) =~= tokens_view(before).push(t@));
            i = j;
        } else if c == '"' || c == '/' {
            let mut j: usize = i + 1;
            while j < n && chars[j] != c
                invariant
                    i < j <= n,
                    next_char(s, i + 1, c) == next_char(s, j as int, c),
                decreases n - j,
            {
                j = j + 1;
            }
            if j == n || (c == '/' && j == i + 1) {
                return Err(contents.substring_char(i, i + 1).to_owned());
            }
            let body = contents.substring_char(i + 1, j).to_owned();
            let t = if c == '"' {
                Token::StringLiteral(body)
            } else {
                Token::Regex(body)
            };
            proof {
                lemma_after_prepend(tokens_view(before), t@, lex_from(s, j + 1));
            }
            tokens.push(t);
            assert(tokens_view(tokens@) =~= tokens_view(before).push(t@));
            i = j + 1;
        } else if c == '.' {
            if i + 1 < n && chars[i + 1] == '.' {
                proof {
                    lemma_after_prepend(tokens_view(before), TokenView::Concatenate, lex_from(s, i + 2));
                }
                tokens.push(Token::Concatenate);
                assert(tokens_view(tokens@) =~= tokens_view(before).push(TokenView::Concatenate));
                i = i + 2;
            } else {
                proof {
                    lemma_after_prepend(tokens_view(before), TokenView::Period, lex_from(s, i + 1));
                }
                tokens.push(Token::Period);
                assert(tokens_view(tokens@) =~= tokens_view(before).push(TokenView::Period));
                i = i + 1;
            }
        } else {
            match punctuation_exec(c) {
                Some(t) => {
                    proof {
                        lemma_after_prepend(tokens_view(before), t@, lex_from(s, i + 1));
                    }
                    tokens.push(t);
                    assert(tokens_view(tokens@) =~= tokens_view(before).push(t@));
                    i = i + 1;
                },
                None => {
                    return Err(contents.substring_char(i, i + 1).to_owned());
                },
            }
        }
    }
    assert(tokens_view(tokens@) + seq![] =~= tokens_view(tokens@));
    Ok(tokens)
}

} // verus!
