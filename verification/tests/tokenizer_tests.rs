use slush::tokenizer::{tokens, ShTokenType, Token};

fn tok(lexeme: &str, token_type: ShTokenType) -> Token {
    Token { lexeme: lexeme.to_string(), token_type }
}

#[test]
fn basic_tokens() {
    let reference_string = "| || > >> < [ [[ ] ]] &&&~${}@*";
    let toks = tokens(reference_string).unwrap();
    let good_graces = [
        tok("|", ShTokenType::Pipe),
        tok(" ", ShTokenType::WhiteSpace),
        tok("||", ShTokenType::OrIf),
        tok(" ", ShTokenType::WhiteSpace),
        tok(">", ShTokenType::RedirectOut),
        tok(" ", ShTokenType::WhiteSpace),
        tok(">>", ShTokenType::AppendOut),
        tok(" ", ShTokenType::WhiteSpace),
        tok("<", ShTokenType::RedirectIn),
        tok(" ", ShTokenType::WhiteSpace),
        tok("[", ShTokenType::LeftBracket),
        tok(" ", ShTokenType::WhiteSpace),
        tok("[[", ShTokenType::DoubleLeftBracket),
        tok(" ", ShTokenType::WhiteSpace),
        tok("]", ShTokenType::RightBracket),
        tok(" ", ShTokenType::WhiteSpace),
        tok("]]", ShTokenType::DoubleRightBracket),
        tok(" ", ShTokenType::WhiteSpace),
        tok("&&", ShTokenType::AndIf),
        tok("&", ShTokenType::Control),
        tok("~", ShTokenType::Tilde),
        tok("$", ShTokenType::DollarSign),
        tok("{", ShTokenType::LeftBrace),
        tok("}", ShTokenType::RightBrace),
        tok("@", ShTokenType::AtSign),
        tok("*", ShTokenType::Star),
    ];
    assert!(good_graces.iter().eq(toks.iter()));
}

#[test]
fn wordy_tokes() {
    let reference_string = "if elif else fi while";
    let toks = tokens(reference_string).unwrap();
    let good_graces = [
        tok("if", ShTokenType::If),
        tok(" ", ShTokenType::WhiteSpace),
        tok("elif", ShTokenType::Elif),
        tok(" ", ShTokenType::WhiteSpace),
        tok("else", ShTokenType::Else),
        tok(" ", ShTokenType::WhiteSpace),
        tok("fi", ShTokenType::Fi),
        tok(" ", ShTokenType::WhiteSpace),
        tok("while", ShTokenType::While),
    ];
    assert!(good_graces.iter().eq(toks.iter()));
}

#[test]
fn words_adjacent_to_singles() {
    let reference_string = "if|while{ elif";
    let toks = tokens(reference_string).unwrap();
    let good_graces = [
        tok("if", ShTokenType::If),
        tok("|", ShTokenType::Pipe),
        tok("while", ShTokenType::While),
        tok("{", ShTokenType::LeftBrace),
        tok(" ", ShTokenType::WhiteSpace),
        tok("elif", ShTokenType::Elif),
    ];
    assert!(good_graces.iter().eq(toks.iter()));
}

#[test]
fn tokenizing_twice_is_identical() {
    let line = "echo `which ls` && X=1 cat <in >out";
    let first = tokens(line).unwrap();
    let second = tokens(line).unwrap();
    assert_eq!(first, second);
}

#[test]
fn unterminated_double_quote_is_an_error() {
    assert!(tokens("echo \"oops").is_err());
}

#[test]
fn single_quotes_make_plain_names() {
    let toks = tokens("'a b'").unwrap();
    assert_eq!(toks.len(), 1);
    assert_eq!(toks[0], tok("a b", ShTokenType::Name));
}

#[test]
fn adjacent_quoted_fragments_merge() {
    let toks = tokens("'a'b").unwrap();
    assert_eq!(toks.len(), 1);
    assert_eq!(toks[0], tok("ab", ShTokenType::Name));
}
