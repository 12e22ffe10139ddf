use vstd::prelude::*;
use crate::token::{token_view, Token};

verus! {

broadcast use vstd::std_specs::vec::group_vec_axioms;

pub open spec fn tokens_view(ts: Seq<Token>) -> Seq<(int, Seq<char>)> {
    Seq::new(ts.len(), |i: int| token_view(ts[i]))
}

/// A keyword table as words and the views of their tokens.
pub open spec fn table_view(kw: Seq<(String, Token)>) -> Seq<(Seq<char>, (int, Seq<char>))> {
    Seq::new(kw.len(), |i: int| (kw[i].0@, token_view(kw[i].1)))
}

pub open spec fn bare(t: Token) -> (int, Seq<char>) {
    (t.tag(), Seq::empty())
}

/// The words of the language that are no identifiers.
pub open spec fn keyword_table() -> Seq<(Seq<char>, (int, Seq<char>))> {
    seq![
        ("true"@, (5int, "true"@)),
        ("false"@, (5int, "false"@)),
        ("function"@, bare(Token::Function)),
        ("let"@, bare(Token::Let)),
        ("int"@, bare(Token::IntegerType)),
        ("float"@, bare(Token::FloatType)),
        ("string"@, bare(Token::StringType)),
        ("bool"@, bare(Token::BooleanType)),
        ("null"@, bare(Token::NullType)),
        ("array"@, bare(Token::ArrayType)),
        ("if"@, bare(Token::If)),
        ("else"@, bare(Token::Else)),
        ("while"@, bare(Token::While)),
        ("ret"@, bare(Token::Return)),
        ("err"@, bare(Token::Error)),
    ]
}

/// The token of the first entry of `kw` for `word`, if any.
pub open spec fn find_keyword(kw: Seq<(Seq<char>, (int, Seq<char>))>, word: Seq<char>) -> Option<
    (int, Seq<char>),
>
    decreases kw.len(),
{
    if kw.len() == 0 {
        None
    } else if kw[0].0 == word {
        Some(kw[0].1)
    } else {
        find_keyword(kw.drop_first(), word)
    }
}

pub open spec fn is_skippable(c: char) -> bool {
    c == '\n' || c == '\r' || c == '\t' || c == ' '
}

pub open spec fn is_alpha(c: char) -> bool {
    ('a' <= c <= 'z') || ('A' <= c <= 'Z')
}

pub open spec fn is_digit(c: char) -> bool {
    '0' <= c <= '9'
}

/// The end of the run of letters that starts at `p`.
pub open spec fn ident_end(cs: Seq<char>, p: int) -> int
    decreases cs.len() - p,
{
    if 0 <= p < cs.len() && is_alpha(cs[p]) {
        ident_end(cs, p + 1)
    } else {
        p
    }
}

/// The end of the run of digits and dots that starts at `p`.
pub open spec fn number_end(cs: Seq<char>, p: int) -> int
    decreases cs.len() - p,
{
    if 0 <= p < cs.len() && (is_digit(cs[p]) || cs[p] == '.') {
        number_end(cs, p + 1)
    } else {
        p
    }
}

/// The position of the first `"` at or after `p`, or the end.
pub open spec fn string_end(cs: Seq<char>, p: int) -> int
    decreases cs.len() - p,
{
    if 0 <= p < cs.len() && cs[p] != '"' {
        string_end(cs, p + 1)
    } else {
        p
    }
}

/// The token of a one- or two-character symbol at `p`, and its length.
pub open spec fn symbol_at(cs: Seq<char>, p: int) -> ((int, Seq<char>), int) {
    let c = cs[p];
    let next_is = |d: char| p + 1 < cs.len() && cs[p + 1] == d;
    if c == ';' {
        (bare(Token::Semicolon), 1)
    } else if c == ':' {
        (bare(Token::Colon), 1)
    } else if c == ',' {
        (bare(Token::Comma), 1)
    } else if c == '.' {
        (bare(Token::Dot), 1)
    } else if c == '(' {
        (bare(Token::LParent), 1)
    } else if c == ')' {
        (bare(Token::RParent), 1)
    } else if c == '{' {
        (bare(Token::LBrace), 1)
    } else if c == '}' {
        (bare(Token::RBrace), 1)
    } else if c == '[' {
        (bare(Token::LBracket), 1)
    } else if c == ']' {
        (bare(Token::RBracket), 1)
    } else if c == '=' {
        if next_is('=') { (bare(Token::Equal), 2) } else { (bare(Token::Assign), 1) }
    } else if c == '+' {
        (bare(Token::Add), 1)
    } else if c == '-' {
        (bare(Token::Subtract), 1)
    } else if c == '*' {
        (bare(Token::Multiply), 1)
    } else if c == '/' {
        (bare(Token::Divide), 1)
    } else if c == '%' {
        (bare(Token::Modular), 1)
    } else if c == '!' {
        if next_is('=') { (bare(Token::NotEqual), 2) } else { (bare(Token::Invert), 1) }
    } else if c == '&' && next_is('&') {
        (bare(Token::And), 2)
    } else if c == '|' && next_is('|') {
        (bare(Token::Or), 2)
    } else if c == '<' {
        if next_is('=') { (bare(Token::LessThanEqual), 2) } else { (bare(Token::LessThan), 1) }
    } else if c == '>' {
        if next_is('=') {
            (bare(Token::GreaterThanEqual), 2)
        } else {
            (bare(Token::GreaterThan), 1)
        }
    } else {
        (bare(Token::Illegal), 1)
    }
}

/// The tokens of `cs` from position `p` on, with the keyword table `kw`.
pub open spec fn lex_from(cs: Seq<char>, kw: Seq<(Seq<char>, (int, Seq<char>))>, p: int) -> Seq<
    (int, Seq<char>),
>
    decreases cs.len() - p,
{
    if p < 0 || p >= cs.len() {
        Seq::empty()
    } else {
        let c = cs[p];
        if is_skippable(c) {
            lex_from(cs, kw, p + 1)
        } else if is_alpha(c) {
            let q = ident_end(cs, p + 1);
            let word = cs.subrange(p, q);
            let t = match find_keyword(kw, word) {
                Some(t) => t,
                None => (1int, word),
            };
            if p < q <= cs.len() {
                seq![t] + lex_from(cs, kw, q)
            } else {
                Seq::empty()
            }
        } else if is_digit(c) {
            let q = number_end(cs, p + 1);
            let text = cs.subrange(p, q);
            let t = if text.contains('.') {
                (3int, text)
            } else {
                (2int, text)
            };
            if p < q <= cs.len() {
                seq![t] + lex_from(cs, kw, q)
            } else {
                Seq::empty()
            }
        } else if c == '"' {
            let q = string_end(cs, p + 1);
            let t = (4int, cs.subrange(p + 1, q));
            if p < q < cs.len() {
                seq![t] + lex_from(cs, kw, q + 1)
            } else {
                seq![t]
            }
        } else {
            let (t, n) = symbol_at(cs, p);
            seq![t] + lex_from(cs, kw, p + n)
        }
    }
}

pub proof fn lemma_contains_push(s: Seq<char>, a: char, x: char)
    ensures
        s.push(a).contains(x) == (s.contains(x) || a == x),
{
    let t = s.push(a);
    if a == x {
        assert(t[s.len() as int] == x);
    }
    if s.contains(x) {
        let i = choose|i: int| 0 <= i < s.len() && s[i] == x;
        assert(t[i] == x);
    }
    if t.contains(x) && a != x {
        let i = choose|i: int| 0 <= i < t.len() && t[i] == x;
        assert(s[i] == x);
    }
}

/// The keyword table: each word and its token.
pub fn keyword_map() -> (r: Vec<(String, Token)>)
    ensures
        table_view(r@) == keyword_table(),
{
    let mut r: Vec<(String, Token)> = Vec::new();
    r.push((String::from_str("true"), Token::Boolean(String::from_str("true"))));
    r.push((String::from_str("false"), Token::Boolean(String::from_str("false"))));
    r.push((String::from_str("function"), Token::Function));
    r.push((String::from_str("let"), Token::Let));
    r.push((String::from_str("int"), Token::IntegerType));
    r.push((String::from_str("float"), Token::FloatType));
    r.push((String::from_str("string"), Token::StringType));
    r.push((String::from_str("bool"), Token::BooleanType));
    r.push((String::from_str("null"), Token::NullType));
    r.push((String::from_str("array"), Token::ArrayType));
    r.push((String::from_str("if"), Token::If));
    r.push((String::from_str("else"), Token::Else));
    r.push((String::from_str("while"), Token::While));
    r.push((String::from_str("ret"), Token::Return));
    r.push((String::from_str("err"), Token::Error));
    assert(table_view(r@) =~= keyword_table());
    r
}

/// Relies on `char::to_string`, which gives the string of that one character.
#[verifier::external_body]
fn char_string(c: char) -> (r: String)
    ensures
        r@ == seq![c],
{
    c.to_string()
}

fn alpha(c: char) -> (r: bool)
    ensures
        r == is_alpha(c),
{
    ('a' <= c && c <= 'z') || ('A' <= c && c <= 'Z')
}

fn digit(c: char) -> (r: bool)
    ensures
        r == is_digit(c),
{
    '0' <= c && c <= '9'
}

/// Splits program text into tokens.
pub struct Lexer {
    /// The characters of the program.
    pub program: Vec<char>,
    /// The words that are keywords, with their tokens.
    pub keywords: Vec<(String, Token)>,
    source: String,
    position: usize,
}

impl Lexer {
    /// The characters of the program.
    pub closed spec fn chars(&self) -> Seq<char> {
        self.program@
    }

    /// The keyword table in use.
    pub closed spec fn table(&self) -> Seq<(String, Token)> {
        self.keywords@
    }

    pub closed spec fn source_chars(&self) -> Seq<char> {
        self.source@
    }

    /// How many characters have been read.
    pub closed spec fn pos(&self) -> int {
        self.position as int
    }

    pub closed spec fn wf(&self) -> bool {
        self.source_chars() == self.program@ && 0 <= self.pos() <= self.program@.len()
    }

    /// A lexer at the start of `program`, with the keyword table.
    pub fn from_string(program: String) -> (r: Lexer)
        ensures
            r.wf(),
            r.chars() == program@,
            r.pos() == 0,
            table_view(r.table()) == keyword_table(),
    {
        let n = program.as_str().unicode_len();
        let mut chars: Vec<char> = Vec::new();
        let mut i: usize = 0;
        while i < n
            invariant
                n == program@.len(),
                i <= n,
                chars@ == program@.subrange(0, i as int),
            decreases n - i,
        {
            let c = program.as_str().get_char(i);
            chars.push(c);
            i += 1;
            assert(chars@ =~= program@.subrange(0, i as int));
        }
        assert(chars@ =~= program@);
        Lexer { program: chars, keywords: keyword_map(), source: program, position: 0 }
    }

    fn text(&self, from: usize, to: usize) -> (r: String)
        requires
            self.wf(),
            from <= to <= self.chars().len(),
        ensures
            r@ == self.chars().subrange(from as int, to as int),
    {
        String::from_str(self.source.as_str().substring_char(from, to))
    }

    /// The keyword token for `word`, if it is a keyword.
    fn keyword(&self, word: &String) -> (r: Option<Token>)
        ensures
            match r {
                Some(t) => find_keyword(table_view(self.table()), word@) == Some(token_view(t)),
                None => find_keyword(table_view(self.table()), word@) is None,
            },
    {
        let ghost tv = table_view(self.keywords@);
        let mut i: usize = 0;
        assert(tv.subrange(0, tv.len() as int) =~= tv);
        while i < self.keywords.len()
            invariant
                tv == table_view(self.keywords@),
                i <= self.keywords@.len(),
                find_keyword(tv, word@) == find_keyword(tv.subrange(i as int, tv.len() as int), word@),
            decreases self.keywords@.len() - i,
        {
            assert(tv.subrange(i as int, tv.len() as int).drop_first() =~= tv.subrange(
                i + 1,
                tv.len() as int,
            ));
            if self.keywords[i].0 == *word {
                return Some(self.keywords[i].1.duplicate());
            }
            i += 1;
        }
        None
    }

    /// A word whose first letter `c` was just read, followed by the letters
    /// from the current position on: a keyword or an identifier.
    pub fn parse_identifier(&mut self, c: char) -> (r: Token)
        requires
            old(self).wf(),
        ensures
            final(self).wf(),
            final(self).chars() == old(self).chars(),
            final(self).table() == old(self).table(),
            final(self).pos() == ident_end(old(self).chars(), old(self).pos()),
            old(self).pos() <= final(self).pos() <= old(self).chars().len(),
            token_view(r) == match find_keyword(
                table_view(old(self).table()),
                seq![c] + old(self).chars().subrange(old(self).pos(), final(self).pos()),
            ) {
                Some(t) => t,
                None => (1int, seq![c] + old(self).chars().subrange(old(self).pos(), final(self).pos())),
            },
    {
        let start = self.position;
        while self.position < self.program.len() && alpha(self.program[self.position])
            invariant
                self.wf(),
                self.program == old(self).program,
                self.keywords == old(self).keywords,
                self.source == old(self).source,
                self.pos() >= old(self).pos(),
                start == old(self).pos(),
                ident_end(self.program@, old(self).pos()) == ident_end(self.program@, self.pos()),
            decreases self.program@.len() - self.pos(),
        {
            self.position = self.position + 1;
        }
        let word = char_string(c).concat(self.text(start, self.position).as_str());
        match self.keyword(&word) {
            Some(t) => t,
            None => Token::Identifier(word),
        }
    }

    /// A number whose first character `c` was just read, followed by the
    /// digits and dots from the current position on; a float where there is a dot.
    pub fn parse_number(&mut self, c: char) -> (r: Token)
        requires
            old(self).wf(),
        ensures
            final(self).wf(),
            final(self).chars() == old(self).chars(),
            final(self).table() == old(self).table(),
            final(self).pos() == number_end(old(self).chars(), old(self).pos()),
            old(self).pos() <= final(self).pos() <= old(self).chars().len(),
            token_view(r) == ({
                let text = seq![c] + old(self).chars().subrange(old(self).pos(), final(self).pos());
                if text.contains('.') {
                    (3int, text)
                } else {
                    (2int, text)
                }
            }),
    {
        let start = self.position;
        let mut dot = c == '.';
        proof {
            let one = seq![c] + self.program@.subrange(start as int, self.pos());
            assert(one =~= seq![c]);
            if c == '.' {
                assert(one[0] == '.');
            }
        }
        while self.position < self.program.len() && (digit(self.program[self.position])
            || self.program[self.position] == '.')
            invariant
                self.wf(),
                self.program == old(self).program,
                self.keywords == old(self).keywords,
                self.source == old(self).source,
                self.pos() >= old(self).pos(),
                start == old(self).pos(),
                number_end(self.program@, old(self).pos()) == number_end(self.program@, self.pos()),
                dot == (seq![c] + self.program@.subrange(start as int, self.pos())).contains('.'),
            decreases self.program@.len() - self.pos(),
        {
            let ghost before = seq![c] + self.program@.subrange(start as int, self.pos());
            self.position = self.position + 1;
            assert(seq![c] + self.program@.subrange(start as int, self.pos()) =~= before.push(
                self.program@[self.pos() - 1],
            ));
            proof {
                lemma_contains_push(before, self.program@[self.pos() - 1], '.');
            }
            if self.program[self.position - 1] == '.' {
                dot = true;
            }
        }
        let text = char_string(c).concat(self.text(start, self.position).as_str());
        if dot {
            Token::Float(text)
        } else {
            Token::Integer(text)
        }
    }

    /// A string literal whose opening `"` was just read: the characters up to
    /// the closing `"`, which is consumed, or up to the end.
    pub fn parse_string(&mut self) -> (r: Token)
        requires
            old(self).wf(),
        ensures
            final(self).wf(),
            final(self).chars() == old(self).chars(),
            final(self).table() == old(self).table(),
            old(self).pos() <= string_end(old(self).chars(), old(self).pos()) <= old(
                self,
            ).chars().len(),
            token_view(r) == (4int, old(self).chars().subrange(
                old(self).pos(),
                string_end(old(self).chars(), old(self).pos()),
            )),
            final(self).pos() == if string_end(old(self).chars(), old(self).pos())
                < old(self).chars().len() {
                string_end(old(self).chars(), old(self).pos()) + 1
            } else {
                string_end(old(self).chars(), old(self).pos())
            },
    {
        let start = self.position;
        while self.position < self.program.len() && self.program[self.position] != '"'
            invariant
                self.wf(),
                self.program == old(self).program,
                self.keywords == old(self).keywords,
                self.source == old(self).source,
                start == old(self).pos(),
                start <= self.pos(),
                string_end(self.program@, old(self).pos()) == string_end(self.program@, self.pos()),
            decreases self.program@.len() - self.pos(),
        {
            self.position = self.position + 1;
        }
        let text = self.text(start, self.position);
        if self.position < self.program.len() {
            self.position = self.position + 1;
        }
        Token::String(text)
    }

    /// A symbol at the current position; two-character symbols take the next
    /// character too.
    fn symbol(&mut self) -> (r: Token)
        requires
            old(self).wf(),
            old(self).pos() < old(self).chars().len(),
        ensures
            final(self).wf(),
            final(self).chars() == old(self).chars(),
            final(self).table() == old(self).table(),
            token_view(r) == symbol_at(old(self).chars(), old(self).pos()).0,
            final(self).pos() == old(self).pos() + symbol_at(old(self).chars(), old(self).pos()).1,
    {
        let c = self.program[self.position];
        let n = self.program.len();
        let next = if n - self.position > 1 {
            self.program[self.position + 1]
        } else {
            ' '
        };
        let (t, n): (Token, usize) = match c {
            ';' => (Token::Semicolon, 1),
            ':' => (Token::Colon, 1),
            ',' => (Token::Comma, 1),
            '.' => (Token::Dot, 1),
            '(' => (Token::LParent, 1),
            ')' => (Token::RParent, 1),
            '{' => (Token::LBrace, 1),
            '}' => (Token::RBrace, 1),
            '[' => (Token::LBracket, 1),
            ']' => (Token::RBracket, 1),
            '=' => if next == '=' {
                (Token::Equal, 2)
            } else {
                (Token::Assign, 1)
            },
            '+' => (Token::Add, 1),
            '-' => (Token::Subtract, 1),
            '*' => (Token::Multiply, 1),
            '/' => (Token::Divide, 1),
            '%' => (Token::Modular, 1),
            '!' => if next == '=' {
                (Token::NotEqual, 2)
            } else {
                (Token::Invert, 1)
            },
            '&' => if next == '&' {
                (Token::And, 2)
            } else {
                (Token::Illegal, 1)
            },
            '|' => if next == '|' {
                (Token::Or, 2)
            } else {
                (Token::Illegal, 1)
            },
            '<' => if next == '=' {
                (Token::LessThanEqual, 2)
            } else {
                (Token::LessThan, 1)
            },
            '>' => if next == '=' {
                (Token::GreaterThanEqual, 2)
            } else {
                (Token::GreaterThan, 1)
            },
            _ => (Token::Illegal, 1),
        };
        self.position = self.position + n;
        t
    }

    /// All tokens from the current position to the end of the program.
    pub fn lex(&mut self) -> (r: Vec<Token>)
        requires
            old(self).wf(),
        ensures
            tokens_view(r@) == lex_from(
                old(self).chars(),
                table_view(old(self).table()),
                old(self).pos(),
            ),
    {
        let ghost cs = self.program@;
        let ghost kw = table_view(self.keywords@);
        let mut tokens: Vec<Token> = Vec::new();
        assert(tokens_view(tokens@) =~= Seq::<(int, Seq<char>)>::empty());
        assert(lex_from(cs, kw, old(self).pos()) =~= tokens_view(tokens@) + lex_from(cs, kw, self.pos()));
        while self.position < self.program.len()
            invariant
                self.wf(),
                cs == self.program@,
                kw == table_view(self.keywords@),
                lex_from(cs, kw, old(self).pos()) == tokens_view(tokens@) + lex_from(
                    cs,
                    kw,
                    self.pos(),
                ),
            decreases self.program@.len() - self.pos(),
        {
            let ghost p = self.pos();
            let ghost prev = tokens_view(tokens@);
            let c = self.program[self.position];
            if c == '\n' || c == '\r' || c == '\t' || c == ' ' {
                self.position = self.position + 1;
                assert(lex_from(cs, kw, p) == lex_from(cs, kw, self.pos()));
                continue ;
            }
            let t = if alpha(c) {
                self.position = self.position + 1;
                let ghost q0 = self.pos();
                let t = self.parse_identifier(c);
                assert(seq![c] + cs.subrange(q0, self.pos()) =~= cs.subrange(p, self.pos()));
                assert(lex_from(cs, kw, p) == seq![token_view(t)] + lex_from(cs, kw, self.pos()));
                t
            } else if digit(c) {
                self.position = self.position + 1;
                let ghost q0 = self.pos();
                let t = self.parse_number(c);
                assert(seq![c] + cs.subrange(q0, self.pos()) =~= cs.subrange(p, self.pos()));
                assert(lex_from(cs, kw, p) == seq![token_view(t)] + lex_from(cs, kw, self.pos()));
                t
            } else if c == '"' {
                self.position = self.position + 1;
                let t = self.parse_string();
                proof {
                    let q = string_end(cs, p + 1);
                    if q >= cs.len() {
                        assert(lex_from(cs, kw, self.pos()) =~= Seq::<(int, Seq<char>)>::empty());
                        assert(seq![token_view(t)] + lex_from(cs, kw, self.pos()) =~= seq![
                            token_view(t),
                        ]);
                    }
                }
                assert(lex_from(cs, kw, p) == seq![token_view(t)] + lex_from(cs, kw, self.pos()));
                t
            } else {
                let t = self.symbol();
                assert(lex_from(cs, kw, p) == seq![token_view(t)] + lex_from(cs, kw, self.pos()));
                t
            };
            tokens.push(t);
            assert(tokens_view(tokens@) =~= prev.push(token_view(t)));
            assert(prev + lex_from(cs, kw, p) =~= tokens_view(tokens@) + lex_from(cs, kw, self.pos()));
        }
        assert(lex_from(cs, kw, self.pos()) =~= Seq::<(int, Seq<char>)>::empty());
        assert(tokens_view(tokens@) + Seq::<(int, Seq<char>)>::empty() =~= tokens_view(tokens@));
        tokens
    }
}

} // verus!
