use vstd::prelude::*;
use vstd::string::StrSliceExecFns;

verus! {

/// Operators that take no argument.
#[derive(Debug, Clone, Copy, PartialEq, Eq, Structural)]
pub enum LogicFn0 {
    TAUTO,
    FALSO,
}

/// Operators that take one argument.
#[derive(Debug, Clone, Copy, PartialEq, Eq, Structural)]
pub enum LogicFn1 {
    NOT,
}

/// Operators that take two arguments.
#[derive(Debug, Clone, Copy, PartialEq, Eq, Structural)]
pub enum LogicFn2 {
    AND,
    OR,
    IMP,
    EQ,
}

/// The lexical category of one recognised character.
#[derive(Debug, Clone, Copy, PartialEq, Eq, Structural)]
pub enum Symbol {
    Variable { name: char },
    LogicFn0(LogicFn0),
    LogicFn1(LogicFn1),
    LogicFn2(LogicFn2),
    ParenL,
    ParenR,
    Comma,
}

/// A half-open interval `[start, end)` of character positions.
#[derive(Debug, Clone, Copy, PartialEq, Eq, Structural)]
pub struct Range(pub usize, pub usize);

impl Range {
    /// A range is well formed when it is not empty.
    pub open spec fn wf(self) -> bool {
        self.0 < self.1
    }

    pub fn by_pos(start: usize, end: usize) -> (r: Range)
        requires
            start < end,
        ensures
            r == Range(start, end),
            r.wf(),
    {
        Range(start, end)
    }

    pub fn by_size(start: usize, size: usize) -> (r: Range)
        requires
            0 < size,
            start + size <= usize::MAX,
        ensures
            r == Range(start, (start + size) as usize),
            r.wf(),
    {
        Range(start, start + size)
    }

    pub fn start(self) -> (r: usize)
        ensures
            r == self.0,
    {
        let Range(start, _end) = self;
        start
    }

    pub fn end(self) -> (r: usize)
        ensures
            r == self.1,
    {
        let Range(_start, end) = self;
        end
    }
}

/// A recognised symbol together with the range it was read from.
#[derive(Debug, Clone, Copy, PartialEq, Eq, Structural)]
pub struct Token {
    pub symbol: Symbol,
    pub range: Range,
}

impl Token {
    pub fn make(symbol: Symbol, range: Range) -> (t: Token)
        ensures
            t == (Token { symbol, range }),
    {
        Token { symbol, range }
    }
}

/// Why an input could not be tokenized.
#[derive(Debug, Clone, Copy, PartialEq, Eq, Structural)]
pub enum LexError {
    /// The character at `range` belongs to no symbol of the notation.
    InvalidCharacter { ch: char, range: Range },
}

/// The five letters that name variables.
pub open spec fn is_variable_char(c: char) -> bool {
    c == 'p' || c == 'q' || c == 'r' || c == 's' || c == 't'
}

/// The symbol that a single character stands for, if any.
pub open spec fn symbol_of(c: char) -> Option<Symbol> {
    if c == '(' {
        Some(Symbol::ParenL)
    } else if c == ')' {
        Some(Symbol::ParenR)
    } else if c == ',' {
        Some(Symbol::Comma)
    } else if c == '⊤' {
        Some(Symbol::LogicFn0(LogicFn0::TAUTO))
    } else if c == '⊥' {
        Some(Symbol::LogicFn0(LogicFn0::FALSO))
    } else if c == '¬' {
        Some(Symbol::LogicFn1(LogicFn1::NOT))
    } else if c == '∧' {
        Some(Symbol::LogicFn2(LogicFn2::AND))
    } else if c == '∨' {
        Some(Symbol::LogicFn2(LogicFn2::OR))
    } else if c == '→' {
        Some(Symbol::LogicFn2(LogicFn2::IMP))
    } else if c == '↔' {
        Some(Symbol::LogicFn2(LogicFn2::EQ))
    } else if is_variable_char(c) {
        Some(Symbol::Variable { name: c })
    } else {
        None
    }
}

/// The one-character range at position `pos`.
pub open spec fn unit_range(pos: int) -> Range {
    Range(pos as usize, (pos + 1) as usize)
}

/// Every character of `s` stands for a symbol.
pub open spec fn all_symbols(s: Seq<char>) -> bool {
    forall|i: int| 0 <= i < s.len() ==> (#[trigger] symbol_of(s[i])) is Some
}

/// `k` is the position of the first character of `s` that stands for no symbol.
pub open spec fn is_first_invalid(s: Seq<char>, k: int) -> bool {
    &&& 0 <= k < s.len()
    &&& symbol_of(s[k]) is None
    &&& forall|j: int| 0 <= j < k ==> (#[trigger] symbol_of(s[j])) is Some
}

/// What tokenizing `s` yields: one token per character, each over its own
/// position, or the first character that stands for no symbol.
pub open spec fn lexed(s: Seq<char>) -> Result<Seq<Token>, LexError> {
    if all_symbols(s) {
        Ok(Seq::new(s.len(), |i: int| Token { symbol: symbol_of(s[i])->Some_0, range: unit_range(i) }))
    } else {
        let k = choose|k: int| is_first_invalid(s, k);
        Err(LexError::InvalidCharacter { ch: s[k], range: unit_range(k) })
    }
}

/// There is at most one first invalid position.
proof fn lemma_first_invalid_unique(s: Seq<char>, k1: int, k2: int)
    requires
        is_first_invalid(s, k1),
        is_first_invalid(s, k2),
    ensures
        k1 == k2,
{
    if k1 < k2 {
        assert(symbol_of(s[k1]) is Some);
    } else if k2 < k1 {
        assert(symbol_of(s[k2]) is Some);
    }
}

fn is_variable(c: char) -> (r: bool)
    ensures
        r == is_variable_char(c),
{
    c == 'p' || c == 'q' || c == 'r' || c == 's' || c == 't'
}

fn lex_variable(pos: usize, name: char) -> (r: (Symbol, Range))
    requires
        pos < usize::MAX,
    ensures
        r == (Symbol::Variable { name }, unit_range(pos as int)),
{
    (Symbol::Variable { name }, Range::by_size(pos, 1))
}

fn lex_paren_l(pos: usize) -> (r: (Symbol, Range))
    requires
        pos < usize::MAX,
    ensures
        r == (Symbol::ParenL, unit_range(pos as int)),
{
    (Symbol::ParenL, Range::by_size(pos, 1))
}

fn lex_paren_r(pos: usize) -> (r: (Symbol, Range))
    requires
        pos < usize::MAX,
    ensures
        r == (Symbol::ParenR, unit_range(pos as int)),
{
    (Symbol::ParenR, Range::by_size(pos, 1))
}

fn lex_comma(pos: usize) -> (r: (Symbol, Range))
    requires
        pos < usize::MAX,
    ensures
        r == (Symbol::Comma, unit_range(pos as int)),
{
    (Symbol::Comma, Range::by_size(pos, 1))
}

fn lex_tauto(pos: usize) -> (r: (Symbol, Range))
    requires
        pos < usize::MAX,
    ensures
        r == (Symbol::LogicFn0(LogicFn0::TAUTO), unit_range(pos as int)),
{
    (Symbol::LogicFn0(LogicFn0::TAUTO), Range::by_size(pos, 1))
}

fn lex_falso(pos: usize) -> (r: (Symbol, Range))
    requires
        pos < usize::MAX,
    ensures
        r == (Symbol::LogicFn0(LogicFn0::FALSO), unit_range(pos as int)),
{
    (Symbol::LogicFn0(LogicFn0::FALSO), Range::by_size(pos, 1))
}

fn lex_not(pos: usize) -> (r: (Symbol, Range))
    requires
        pos < usize::MAX,
    ensures
        r == (Symbol::LogicFn1(LogicFn1::NOT), unit_range(pos as int)),
{
    (Symbol::LogicFn1(LogicFn1::NOT), Range::by_size(pos, 1))
}

fn lex_and(pos: usize) -> (r: (Symbol, Range))
    requires
        pos < usize::MAX,
    ensures
        r == (Symbol::LogicFn2(LogicFn2::AND), unit_range(pos as int)),
{
    (Symbol::LogicFn2(LogicFn2::AND), Range::by_size(pos, 1))
}

fn lex_or(pos: usize) -> (r: (Symbol, Range))
    requires
        pos < usize::MAX,
    ensures
        r == (Symbol::LogicFn2(LogicFn2::OR), unit_range(pos as int)),
{
    (Symbol::LogicFn2(LogicFn2::OR), Range::by_size(pos, 1))
}

fn lex_imp(pos: usize) -> (r: (Symbol, Range))
    requires
        pos < usize::MAX,
    ensures
        r == (Symbol::LogicFn2(LogicFn2::IMP), unit_range(pos as int)),
{
    (Symbol::LogicFn2(LogicFn2::IMP), Range::by_size(pos, 1))
}

fn lex_eq(pos: usize) -> (r: (Symbol, Range))
    requires
        pos < usize::MAX,
    ensures
        r == (Symbol::LogicFn2(LogicFn2::EQ), unit_range(pos as int)),
{
    (Symbol::LogicFn2(LogicFn2::EQ), Range::by_size(pos, 1))
}

/// Splits `input` into one token per character, left to right; fails at the
/// first character that stands for no symbol.
pub fn tokenize(input: &str) -> (r: Result<Vec<Token>, LexError>)
    ensures
        r is Ok <==> all_symbols(input@),
        r matches Ok(tokens) ==> lexed(input@) == Ok::<Seq<Token>, LexError>(tokens@),
        r matches Err(e) ==> lexed(input@) == Err::<Seq<Token>, LexError>(e),
{
    let n: usize = input.unicode_len();
    let mut tokens: Vec<Token> = vec![];
    let mut pos: usize = 0;
    for c in it: input.chars()
        invariant
            n == input@.len(),
            it.seq() == input@,
            pos == it.index(),
            tokens@.len() == pos,
            forall|j: int| 0 <= j < pos ==> (#[trigger] symbol_of(input@[j])) is Some,
            forall|j: int|
                0 <= j < pos ==> #[trigger] tokens@[j] == (Token {
                    symbol: symbol_of(input@[j])->Some_0,
                    range: unit_range(j),
                }),
    {
        let (symbol, range) = match c {
            '(' => lex_paren_l(pos),
            ')' => lex_paren_r(pos),
            ',' => lex_comma(pos),
            '⊤' => lex_tauto(pos),
            '⊥' => lex_falso(pos),
            '¬' => lex_not(pos),
            '∧' => lex_and(pos),
            '∨' => lex_or(pos),
            '→' => lex_imp(pos),
            '↔' => lex_eq(pos),
            c if is_variable(c) => lex_variable(pos, c),
            c => {
                let e = LexError::InvalidCharacter { ch: c, range: Range::by_size(pos, 1) };
                proof {
                    assert(is_first_invalid(input@, pos as int));
                    let k = choose|k: int| is_first_invalid(input@, k);
                    lemma_first_invalid_unique(input@, pos as int, k);
                }
                return Err(e);
            },
        };
        tokens.push(Token::make(symbol, range));
        pos = range.end();
    }
    proof {
        assert(tokens@ =~= Seq::new(
            input@.len(),
            |i: int| Token { symbol: symbol_of(input@[i])->Some_0, range: unit_range(i) },
        ));
    }
    Ok(tokens)
}

} // verus!
