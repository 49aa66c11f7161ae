//! Properties of tokenization, stated over `lexed`, which `tokenize`'s
//! contract gives exactly.
use vstd::prelude::*;
use crate::tokenizer::{
    is_first_invalid, is_variable_char, lexed, symbol_of, unit_range, LexError, Range, Symbol, Token,
};

verus! {

/// The empty input yields the empty token sequence, not an error.
pub proof fn lemma_empty_input()
    ensures
        lexed(Seq::empty()) == Ok::<Seq<Token>, LexError>(Seq::empty()),
{
    let s = Seq::<char>::empty();
    assert(Seq::new(0, |i: int| Token { symbol: symbol_of(s[i])->Some_0, range: unit_range(i) })
        =~= Seq::<Token>::empty());
}

/// A single variable letter yields exactly one `Variable` token over `[0, 1)`.
pub proof fn lemma_single_variable(c: char)
    requires
        is_variable_char(c),
    ensures
        lexed(seq![c]) == Ok::<Seq<Token>, LexError>(
            seq![Token { symbol: Symbol::Variable { name: c }, range: Range(0, 1) }],
        ),
{
    lemma_single_symbol(c);
}

/// A single character of the symbol table yields exactly one token, of that
/// character's symbol, over `[0, 1)`.
pub proof fn lemma_single_symbol(c: char)
    requires
        symbol_of(c) is Some,
    ensures
        lexed(seq![c]) == Ok::<Seq<Token>, LexError>(
            seq![Token { symbol: symbol_of(c)->Some_0, range: Range(0, 1) }],
        ),
{
    let s = seq![c];
    assert(s[0] == c);
    assert(Seq::new(1, |i: int| Token { symbol: symbol_of(s[i])->Some_0, range: unit_range(i) })
        =~= seq![Token { symbol: symbol_of(c)->Some_0, range: Range(0, 1) }]);
}

/// In a successful tokenization each token's range ends where the next one's
/// starts.
pub proof fn lemma_ranges_contiguous(s: Seq<char>, tokens: Seq<Token>, i: int)
    requires
        lexed(s) == Ok::<Seq<Token>, LexError>(tokens),
        0 <= i,
        i + 1 < tokens.len(),
    ensures
        tokens[i].range.1 == tokens[i + 1].range.0,
{
}

/// Token `i` of a successful tokenization covers exactly position `i`: it
/// starts there and is one character wide.
pub proof fn lemma_token_covers_its_position(s: Seq<char>, tokens: Seq<Token>, i: int)
    requires
        lexed(s) == Ok::<Seq<Token>, LexError>(tokens),
        s.len() <= usize::MAX,
        0 <= i < tokens.len(),
    ensures
        tokens.len() == s.len(),
        tokens[i].range.0 == i,
        tokens[i].range.1 == tokens[i].range.0 + 1,
        tokens[i].range.wf(),
{
}

/// A single character outside the symbol table fails with `InvalidCharacter`
/// carrying that character and the range `[0, 1)`.
pub proof fn lemma_single_invalid(c: char)
    requires
        symbol_of(c) is None,
    ensures
        lexed(seq![c]) == Err::<Seq<Token>, LexError>(
            LexError::InvalidCharacter { ch: c, range: Range(0, 1) },
        ),
{
    let s = seq![c];
    assert(s[0] == c);
    assert(is_first_invalid(s, 0));
    let k = choose|k: int| is_first_invalid(s, k);
    assert(k == 0);
}

} // verus!
