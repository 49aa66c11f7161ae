use logic_tokenizer::tokenizer::{
    tokenize, LexError, LogicFn0, LogicFn1, LogicFn2, Range, Symbol, Token,
};

fn single(symbol: Symbol) -> Vec<Token> {
    vec![Token::make(symbol, Range::by_pos(0, 1))]
}

#[test]
fn empty_input_gives_no_tokens() {
    assert_eq!(tokenize(""), Ok(vec![]));
}

#[test]
fn each_variable_alone() {
    for c in ['p', 'q', 'r', 's', 't'] {
        let input = c.to_string();
        assert_eq!(tokenize(&input), Ok(single(Symbol::Variable { name: c })));
    }
}

#[test]
fn each_fixed_symbol_alone() {
    let table = [
        ("(", Symbol::ParenL),
        (")", Symbol::ParenR),
        (",", Symbol::Comma),
        ("⊤", Symbol::LogicFn0(LogicFn0::TAUTO)),
        ("⊥", Symbol::LogicFn0(LogicFn0::FALSO)),
        ("¬", Symbol::LogicFn1(LogicFn1::NOT)),
        ("∧", Symbol::LogicFn2(LogicFn2::AND)),
        ("∨", Symbol::LogicFn2(LogicFn2::OR)),
        ("→", Symbol::LogicFn2(LogicFn2::IMP)),
        ("↔", Symbol::LogicFn2(LogicFn2::EQ)),
    ];
    for (input, symbol) in table {
        assert_eq!(tokenize(input), Ok(single(symbol)));
    }
}

#[test]
fn invalid_single_characters() {
    for c in ['x', '$', ' ', 'P', 'u', '\n', '∀'] {
        let input = c.to_string();
        assert_eq!(
            tokenize(&input),
            Err(LexError::InvalidCharacter { ch: c, range: Range::by_pos(0, 1) })
        );
    }
}

#[test]
fn nested_expression_has_contiguous_ranges() {
    let actual = tokenize("∨(∧(p,q),r)").expect("must be returned vec");
    let expected = [
        Symbol::LogicFn2(LogicFn2::OR),
        Symbol::ParenL,
        Symbol::LogicFn2(LogicFn2::AND),
        Symbol::ParenL,
        Symbol::Variable { name: 'p' },
        Symbol::Comma,
        Symbol::Variable { name: 'q' },
        Symbol::ParenR,
        Symbol::Comma,
        Symbol::Variable { name: 'r' },
        Symbol::ParenR,
    ];
    assert_eq!(actual.len(), 11);
    for (i, symbol) in expected.iter().enumerate() {
        assert_eq!(actual[i], Token::make(*symbol, Range::by_pos(i, i + 1)));
    }
    for i in 0..actual.len() - 1 {
        assert_eq!(actual[i].range.end(), actual[i + 1].range.start());
    }
}

#[test]
fn invalid_character_inside_expression() {
    assert_eq!(
        tokenize("↔(p,x)"),
        Err(LexError::InvalidCharacter { ch: 'x', range: Range::by_pos(4, 5) })
    );
}

#[test]
fn stops_at_first_invalid_character() {
    assert_eq!(
        tokenize("p x$"),
        Err(LexError::InvalidCharacter { ch: ' ', range: Range::by_pos(1, 2) })
    );
}

#[test]
fn structure_is_not_checked() {
    let actual = tokenize("))¬,").expect("must be returned vec");
    assert_eq!(actual.len(), 4);
    assert_eq!(actual[2], Token::make(Symbol::LogicFn1(LogicFn1::NOT), Range::by_pos(2, 3)));
}

#[test]
fn range_constructors_agree() {
    assert_eq!(Range::by_size(3, 2), Range::by_pos(3, 5));
    assert_eq!(Range::by_size(3, 2).start(), 3);
    assert_eq!(Range::by_size(3, 2).end(), 5);
}
