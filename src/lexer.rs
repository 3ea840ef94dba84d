use vstd::prelude::*;

verus! {

/// The class of a token.
#[derive(Debug, Clone, Copy, PartialEq, Eq, Structural)]
pub enum TokenKind {
    Alpha,
    Digit,
    True,
    False,
    Let,
    If,
    Else,
    Fn,
    Return,
    LeftParen,
    RightParen,
    LeftCurly,
    RightCurly,
    Comma,
    Semicolon,
    Quote,
    Slash,
    Plus,
    Dash,
    Equal,
    Greater,
    LessThan,
    DoubleEqual,
    WhiteSpace,
    Tab,
    NewLine,
}

/// A token: its class, its bytes, and where it starts and ends in the source
/// (lines and columns count from 1; the end is the position just after it).
#[derive(Debug, Clone, PartialEq)]
pub struct Token {
    pub kind: TokenKind,
    pub lexeme: Vec<u8>,
    pub start_line: usize,
    pub start_col: usize,
    pub end_line: usize,
    pub end_col: usize,
}

pub open spec fn is_alpha(c: u8) -> bool {
    (65 <= c <= 90) || (97 <= c <= 122)
}

pub open spec fn is_digit(c: u8) -> bool {
    48 <= c <= 57
}

pub open spec fn is_alnum(c: u8) -> bool {
    is_alpha(c) || is_digit(c)
}

/// The class of a byte that is a token by itself and is neither a letter nor
/// a digit.
pub open spec fn symbol_kind(c: u8) -> Option<TokenKind> {
    if c == 40 {
        Some(TokenKind::LeftParen)
    } else if c == 41 {
        Some(TokenKind::RightParen)
    } else if c == 123 {
        Some(TokenKind::LeftCurly)
    } else if c == 125 {
        Some(TokenKind::RightCurly)
    } else if c == 44 {
        Some(TokenKind::Comma)
    } else if c == 59 {
        Some(TokenKind::Semicolon)
    } else if c == 34 {
        Some(TokenKind::Quote)
    } else if c == 47 {
        Some(TokenKind::Slash)
    } else if c == 43 {
        Some(TokenKind::Plus)
    } else if c == 45 {
        Some(TokenKind::Dash)
    } else if c == 61 {
        Some(TokenKind::Equal)
    } else if c == 62 {
        Some(TokenKind::Greater)
    } else if c == 60 {
        Some(TokenKind::LessThan)
    } else if c == 32 {
        Some(TokenKind::WhiteSpace)
    } else if c == 9 {
        Some(TokenKind::Tab)
    } else if c == 10 {
        Some(TokenKind::NewLine)
    } else {
        None
    }
}

/// The keywords, with their classes.
pub open spec fn keywords() -> Seq<(Seq<u8>, TokenKind)> {
    seq![
        (seq![102u8, 110u8], TokenKind::Fn),
        (seq![108u8, 101u8, 116u8], TokenKind::Let),
        (seq![105u8, 102u8], TokenKind::If),
        (seq![101u8, 108u8, 115u8, 101u8], TokenKind::Else),
        (seq![114u8, 101u8, 116u8, 117u8, 114u8, 110u8], TokenKind::Return),
        (seq![116u8, 114u8, 117u8, 101u8], TokenKind::True),
        (seq![102u8, 97u8, 108u8, 115u8, 101u8], TokenKind::False),
    ]
}

/// Whether the word `w` stands in `s` at `i` as a whole word: no letter or
/// digit right before or right after it.
pub open spec fn word_at(s: Seq<u8>, i: int, w: Seq<u8>) -> bool {
    &&& 0 <= i
    &&& i + w.len() <= s.len()
    &&& s.subrange(i, i + w.len()) == w
    &&& (i == 0 || !is_alnum(s[i - 1]))
    &&& (i + w.len() == s.len() || !is_alnum(s[i + w.len()]))
}

/// The first keyword, from index `k` of the list on, that stands at `i`.
pub open spec fn keyword_from(s: Seq<u8>, i: int, k: int) -> Option<(TokenKind, nat)>
    decreases keywords().len() - k,
{
    if k < 0 || k >= keywords().len() {
        None
    } else if word_at(s, i, keywords()[k].0) {
        Some((keywords()[k].1, keywords()[k].0.len()))
    } else {
        keyword_from(s, i, k + 1)
    }
}

/// The class and the length of the token that starts at `i`, if the byte
/// there starts one: a keyword standing as a whole word, else a single byte.
pub open spec fn token_at(s: Seq<u8>, i: int) -> Option<(TokenKind, nat)> {
    if !(0 <= i < s.len()) {
        None
    } else if keyword_from(s, i, 0) is Some {
        keyword_from(s, i, 0)
    } else if is_alpha(s[i]) {
        Some((TokenKind::Alpha, 1))
    } else if is_digit(s[i]) {
        Some((TokenKind::Digit, 1))
    } else if symbol_kind(s[i]) is Some {
        Some((symbol_kind(s[i])->Some_0, 1))
    } else {
        None
    }
}

/// The tokens of `s` from `i` on, after those already in `acc`, each as its
/// class and the span of bytes it covers; or the index of the first byte that
/// starts no token.
pub open spec fn lex_from(s: Seq<u8>, i: int, acc: Seq<(TokenKind, int, int)>) -> Result<
    Seq<(TokenKind, int, int)>,
    int,
>
    decreases s.len() - i,
{
    if i < 0 || i >= s.len() {
        Ok(acc)
    } else {
        match token_at(s, i) {
            None => Err(i),
            Some((k, n)) => if n == 0 || i + n > s.len() {
                Err(i)
            } else {
                lex_from(s, i + n, acc.push((k, i, i + n)))
            },
        }
    }
}

/// The tokens of a whole source text.
pub open spec fn lex_spans(s: Seq<u8>) -> Result<Seq<(TokenKind, int, int)>, int> {
    lex_from(s, 0, Seq::empty())
}

/// What the parser reads of each token: its class and its bytes.
pub open spec fn token_texts(t: Seq<Token>) -> Seq<(TokenKind, Seq<u8>)> {
    t.map_values(|x: Token| (x.kind, x.lexeme@))
}

/// The class and the bytes of each token of a whole source text.
pub open spec fn lex_texts(s: Seq<u8>) -> Result<Seq<(TokenKind, Seq<u8>)>, int> {
    match lex_spans(s) {
        Ok(spans) => Ok(
            spans.map_values(|sp: (TokenKind, int, int)| (sp.0, s.subrange(sp.1, sp.2))),
        ),
        Err(i) => Err(i),
    }
}

/// The line of byte index `k`, counting from 1.
pub open spec fn line_at(s: Seq<u8>, k: int) -> int
    decreases k,
{
    if k <= 0 {
        1
    } else {
        line_at(s, k - 1) + if s[k - 1] == 10 {
            1int
        } else {
            0int
        }
    }
}

/// The column of byte index `k`, counting from 1.
pub open spec fn col_at(s: Seq<u8>, k: int) -> int
    decreases k,
{
    if k <= 0 {
        1
    } else if s[k - 1] == 10 {
        1
    } else {
        col_at(s, k - 1) + 1
    }
}

/// Whether `t` is the token of class `span.0` over bytes `span.1 .. span.2`.
pub open spec fn token_spans(s: Seq<u8>, t: Token, span: (TokenKind, int, int)) -> bool {
    &&& t.kind == span.0
    &&& t.lexeme@ == s.subrange(span.1, span.2)
    &&& t.start_line == line_at(s, span.1)
    &&& t.start_col == col_at(s, span.1)
    &&& t.end_line == line_at(s, span.2)
    &&& t.end_col == col_at(s, span.2)
}

proof fn lemma_position_bounds(s: Seq<u8>, k: int)
    requires
        0 <= k <= s.len(),
    ensures
        1 <= line_at(s, k) <= k + 1,
        1 <= col_at(s, k) <= k + 1,
    decreases k,
{
    if k > 0 {
        lemma_position_bounds(s, k - 1);
    }
}

fn symbol_kind_of(c: u8) -> (r: Option<TokenKind>)
    ensures
        r == symbol_kind(c),
{
    if c == 40 {
        Some(TokenKind::LeftParen)
    } else if c == 41 {
        Some(TokenKind::RightParen)
    } else if c == 123 {
        Some(TokenKind::LeftCurly)
    } else if c == 125 {
        Some(TokenKind::RightCurly)
    } else if c == 44 {
        Some(TokenKind::Comma)
    } else if c == 59 {
        Some(TokenKind::Semicolon)
    } else if c == 34 {
        Some(TokenKind::Quote)
    } else if c == 47 {
        Some(TokenKind::Slash)
    } else if c == 43 {
        Some(TokenKind::Plus)
    } else if c == 45 {
        Some(TokenKind::Dash)
    } else if c == 61 {
        Some(TokenKind::Equal)
    } else if c == 62 {
        Some(TokenKind::Greater)
    } else if c == 60 {
        Some(TokenKind::LessThan)
    } else if c == 32 {
        Some(TokenKind::WhiteSpace)
    } else if c == 9 {
        Some(TokenKind::Tab)
    } else if c == 10 {
        Some(TokenKind::NewLine)
    } else {
        None
    }
}

fn alnum(c: u8) -> (r: bool)
    ensures
        r == is_alnum(c),
{
    (65 <= c && c <= 90) || (97 <= c && c <= 122) || (48 <= c && c <= 57)
}

fn word_at_exec(s: &[u8], i: usize, w: &Vec<u8>) -> (r: bool)
    requires
        s@.len() < usize::MAX,
    ensures
        r == word_at(s@, i as int, w@),
{
    if w.len() > s.len() || i > s.len() - w.len() {
        return false;
    }
    let mut k: usize = 0;
    while k < w.len()
        invariant
            i + w@.len() <= s@.len(),
            s@.len() < usize::MAX,
            k <= w@.len(),
            forall|m: int| 0 <= m < k ==> s@[i + m] == w@[m],
        decreases w.len() - k,
    {
        assert(i + k < s@.len());
        if s[i + k] != w[k] {
            proof {
                assert(s@.subrange(i as int, i + w@.len())[k as int] != w@[k as int]);
            }
            return false;
        }
        k = k + 1;
    }
    proof {
        assert(s@.subrange(i as int, i + w@.len()) =~= w@);
    }
    if i > 0 && alnum(s[i - 1]) {
        return false;
    }
    let e = i + w.len();
    !(e < s.len() && alnum(s[e]))
}

fn keyword_list() -> (r: Vec<(Vec<u8>, TokenKind)>)
    ensures
        r@.len() == keywords().len(),
        forall|k: int| 0 <= k < r@.len() ==> #[trigger] r@[k].0@ == keywords()[k].0 && r@[k].1
            == keywords()[k].1,
{
    let r = vec![
        (vec![102u8, 110u8], TokenKind::Fn),
        (vec![108u8, 101u8, 116u8], TokenKind::Let),
        (vec![105u8, 102u8], TokenKind::If),
        (vec![101u8, 108u8, 115u8, 101u8], TokenKind::Else),
        (vec![114u8, 101u8, 116u8, 117u8, 114u8, 110u8], TokenKind::Return),
        (vec![116u8, 114u8, 117u8, 101u8], TokenKind::True),
        (vec![102u8, 97u8, 108u8, 115u8, 101u8], TokenKind::False),
    ];
    proof {
        assert(r@[0].0@ =~= keywords()[0].0);
        assert(r@[1].0@ =~= keywords()[1].0);
        assert(r@[2].0@ =~= keywords()[2].0);
        assert(r@[3].0@ =~= keywords()[3].0);
        assert(r@[4].0@ =~= keywords()[4].0);
        assert(r@[5].0@ =~= keywords()[5].0);
        assert(r@[6].0@ =~= keywords()[6].0);
    }
    r
}

fn token_at_exec(s: &[u8], i: usize, kws: &Vec<(Vec<u8>, TokenKind)>) -> (r: Option<(TokenKind, usize)>)
    requires
        s@.len() < usize::MAX,
        i < s@.len(),
        kws@.len() == keywords().len(),
        forall|k: int| 0 <= k < kws@.len() ==> #[trigger] kws@[k].0@ == keywords()[k].0 && kws@[k].1
            == keywords()[k].1,
    ensures
        match r {
            Some((k, n)) => token_at(s@, i as int) == Some((k, n as nat)),
            None => token_at(s@, i as int) is None,
        },
{
    let mut k: usize = 0;
    while k < kws.len()
        invariant
            k <= kws@.len(),
            s@.len() < usize::MAX,
            kws@.len() == keywords().len(),
            forall|m: int| 0 <= m < kws@.len() ==> #[trigger] kws@[m].0@ == keywords()[m].0 && kws@[m].1
                == keywords()[m].1,
            keyword_from(s@, i as int, 0) == keyword_from(s@, i as int, k as int),
        decreases kws.len() - k,
    {
        if word_at_exec(s, i, &kws[k].0) {
            return Some((kws[k].1, kws[k].0.len()));
        }
        k = k + 1;
    }
    let c = s[i];
    if (65 <= c && c <= 90) || (97 <= c && c <= 122) {
        Some((TokenKind::Alpha, 1))
    } else if 48 <= c && c <= 57 {
        Some((TokenKind::Digit, 1))
    } else {
        match symbol_kind_of(c) {
            Some(k) => Some((k, 1)),
            None => None,
        }
    }
}

/// Splits source bytes into tokens: a keyword that stands as a whole word is
/// one token, and every other byte is a token of its own. Fails with the index
/// of the first byte that starts no token.
pub fn lex(source: &[u8]) -> (r: Result<Vec<Token>, usize>)
    requires
        source@.len() < usize::MAX,
    ensures
        match (r, lex_spans(source@)) {
            (Ok(toks), Ok(spans)) => toks@.len() == spans.len() && forall|k: int|
                0 <= k < spans.len() ==> token_spans(source@, #[trigger] toks@[k], spans[k]),
            (Err(p), Err(q)) => p == q,
            _ => false,
        },
        match r {
            Ok(toks) => lex_texts(source@) == Ok::<Seq<(TokenKind, Seq<u8>)>, int>(token_texts(toks@)),
            Err(p) => lex_texts(source@) == Err::<Seq<(TokenKind, Seq<u8>)>, int>(p as int),
        },
{
    let kws = keyword_list();
    let mut toks: Vec<Token> = Vec::new();
    let ghost mut spans: Seq<(TokenKind, int, int)> = Seq::empty();
    let mut i: usize = 0;
    let mut line: usize = 1;
    let mut col: usize = 1;
    while i < source.len()
        invariant
            i <= source@.len(),
            source@.len() < usize::MAX,
            kws@.len() == keywords().len(),
            forall|k: int| 0 <= k < kws@.len() ==> #[trigger] kws@[k].0@ == keywords()[k].0 && kws@[k].1
                == keywords()[k].1,
            line == line_at(source@, i as int),
            col == col_at(source@, i as int),
            lex_spans(source@) == lex_from(source@, i as int, spans),
            toks@.len() == spans.len(),
            forall|k: int|
                0 <= k < spans.len() ==> token_spans(source@, #[trigger] toks@[k], spans[k]),
        decreases source.len() - i,
    {
        let (kind, n) = match token_at_exec(source, i, &kws) {
            None => {
                return Err(i);
            },
            Some(t) => t,
        };
        if n == 0 || n > source.len() - i {
            return Err(i);
        }
        let ghost s = source@;
        let mut lexeme: Vec<u8> = Vec::new();
        let mut end_line: usize = line;
        let mut end_col: usize = col;
        let mut k: usize = 0;
        while k < n
            invariant
                k <= n,
                i + n <= s.len(),
                s == source@,
                s.len() < usize::MAX,
                lexeme@ == s.subrange(i as int, i + k),
                end_line == line_at(s, i + k),
                end_col == col_at(s, i + k),
            decreases n - k,
        {
            assert(i + k < s.len());
            let c = source[i + k];
            lexeme.push(c);
            proof {
                assert(lexeme@ =~= s.subrange(i as int, i + k + 1));
                lemma_position_bounds(s, i + k + 1);
            }
            if c == 10 {
                end_line = end_line + 1;
                end_col = 1;
            } else {
                end_col = end_col + 1;
            }
            k = k + 1;
        }
        let tok = Token { kind, lexeme, start_line: line, start_col: col, end_line, end_col };
        toks.push(tok);
        proof {
            spans = spans.push((kind, i as int, i + n));
        }
        i = i + n;
        line = end_line;
        col = end_col;
    }
    proof {
        let spans_all = lex_spans(source@)->Ok_0;
        assert(spans_all == spans);
        assert(token_texts(toks@) =~= spans.map_values(
            |sp: (TokenKind, int, int)| (sp.0, source@.subrange(sp.1, sp.2)),
        ));
    }
    Ok(toks)
}

} // verus!
