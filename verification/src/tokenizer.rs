//! The tokens of the language, and the scanner that cuts source text into
//! them.
//!
//! The source is a sequence of bytes, each taken as the character of that
//! code. Keywords: `var print if else while func return`. A name is a letter
//! followed by letters and digits; an integer is a run of digits. Symbols:
//! `+ * < == = ; ( ) { } ,`. White space separates tokens, and `//` starts a
//! comment that runs to the end of the line. Any other character is a fault.
use vstd::prelude::*;

verus! {

/// `+`
pub const PLUS: u8 = 0x2b;

/// `*`
pub const STAR: u8 = 0x2a;

/// `<`
pub const LESS: u8 = 0x3c;

/// `;`
pub const SEMICOLON: u8 = 0x3b;

/// `(`
pub const LEFT_PAREN: u8 = 0x28;

/// `)`
pub const RIGHT_PAREN: u8 = 0x29;

/// `{`
pub const LEFT_BRACE: u8 = 0x7b;

/// `}`
pub const RIGHT_BRACE: u8 = 0x7d;

/// `,`
pub const COMMA: u8 = 0x2c;

/// `=`
pub const EQUALS: u8 = 0x3d;

/// `/`
pub const SLASH: u8 = 0x2f;

/// The line feed.
pub const LINE_FEED: u8 = 0x0a;

/// `0`
pub const DIGIT_0: u8 = 0x30;

/// `9`
pub const DIGIT_9: u8 = 0x39;

/// `A`
pub const UPPER_A: u8 = 0x41;

/// `Z`
pub const UPPER_Z: u8 = 0x5a;

/// `a`
pub const LOWER_A: u8 = 0x61;

/// `z`
pub const LOWER_Z: u8 = 0x7a;

/// The space.
pub const SPACE: u8 = 0x20;

/// The tabulator.
pub const TAB: u8 = 0x09;

/// The carriage return.
pub const CARRIAGE_RETURN: u8 = 0x0d;

/// The next-line character.
pub const NEXT_LINE: u8 = 0x85;

/// The no-break space.
pub const NO_BREAK_SPACE: u8 = 0xa0;

/// The kinds of token.
#[derive(Copy, Clone, PartialEq, Eq, Debug, Structural)]
pub enum TokenType {
    Var,
    Print,
    If,
    Else,
    While,
    Func,
    Return,
    Name,
    Integer,
    Plus,
    Times,
    Lt,
    Eq,
    Assign,
    Semi,
    Lparen,
    Rparen,
    Lbrace,
    Rbrace,
    Comma,
}

/// A token: its kind and the text it was cut from.
#[derive(PartialEq, Eq, Debug)]
pub struct Token {
    pub token_type: TokenType,
    pub token_str: String,
}

/// What a `Token` stands for.
pub struct TokenView {
    pub token_type: TokenType,
    pub token_str: Seq<char>,
}

impl View for Token {
    type V = TokenView;

    open spec fn view(&self) -> TokenView {
        TokenView { token_type: self.token_type, token_str: self.token_str@ }
    }
}

/// The views of a sequence of tokens, item by item.
pub open spec fn tokens_view(ts: Seq<Token>) -> Seq<TokenView> {
    Seq::new(ts.len(), |i: int| ts[i]@)
}

/// The fault that ends a scan: a character that starts no token.
#[derive(Copy, Clone, PartialEq, Eq, Debug)]
pub enum TokenizeError {
    UnsupportedChar(char),
}

impl Token {
    /// A token of the given kind and text.
    pub fn new(token_type: TokenType, token_str: String) -> (r: Self)
        ensures
            r.token_type == token_type,
            r.token_str == token_str,
    {
        Token { token_type, token_str }
    }
}

/// The token that a character is by itself, if it is one.
pub open spec fn symbol_type(c: u8) -> Option<TokenType> {
    if c == PLUS {
        Some(TokenType::Plus)
    } else if c == STAR {
        Some(TokenType::Times)
    } else if c == LESS {
        Some(TokenType::Lt)
    } else if c == SEMICOLON {
        Some(TokenType::Semi)
    } else if c == LEFT_PAREN {
        Some(TokenType::Lparen)
    } else if c == RIGHT_PAREN {
        Some(TokenType::Rparen)
    } else if c == LEFT_BRACE {
        Some(TokenType::Lbrace)
    } else if c == RIGHT_BRACE {
        Some(TokenType::Rbrace)
    } else if c == COMMA {
        Some(TokenType::Comma)
    } else {
        None
    }
}

/// White space: tab to carriage return, the space, and the next-line and
/// no-break-space characters.
pub open spec fn is_space(c: u8) -> bool {
    (TAB <= c <= CARRIAGE_RETURN) || c == SPACE || c == NEXT_LINE || c == NO_BREAK_SPACE
}

/// A decimal digit.
pub open spec fn is_digit(c: u8) -> bool {
    DIGIT_0 <= c <= DIGIT_9
}

/// A letter of the Latin alphabet, of either case.
pub open spec fn is_letter(c: u8) -> bool {
    (UPPER_A <= c <= UPPER_Z) || (LOWER_A <= c <= LOWER_Z)
}

/// The kind of a word: that of the keyword it is, else `Name`.
pub open spec fn word_type(text: Seq<char>) -> TokenType {
    if text == "var"@ {
        TokenType::Var
    } else if text == "print"@ {
        TokenType::Print
    } else if text == "if"@ {
        TokenType::If
    } else if text == "else"@ {
        TokenType::Else
    } else if text == "while"@ {
        TokenType::While
    } else if text == "func"@ {
        TokenType::Func
    } else if text == "return"@ {
        TokenType::Return
    } else {
        TokenType::Name
    }
}

/// The bytes from `from` up to `to`, as characters.
pub open spec fn text_of(s: Seq<u8>, from: int, to: int) -> Seq<char> {
    Seq::new((to - from) as nat, |i: int| s[from + i] as char)
}

/// The end of the run of digits that holds `from`.
pub open spec fn digits_end(s: Seq<u8>, from: int) -> int
    decreases s.len() - from,
{
    if 0 <= from < s.len() && is_digit(s[from]) {
        digits_end(s, from + 1)
    } else {
        from
    }
}

/// The end of the run of letters and digits that holds `from`.
pub open spec fn word_end(s: Seq<u8>, from: int) -> int
    decreases s.len() - from,
{
    if 0 <= from < s.len() && (is_letter(s[from]) || is_digit(s[from])) {
        word_end(s, from + 1)
    } else {
        from
    }
}

/// The start of the line after the one that holds `from`, or the end of the
/// text where that line is the last.
pub open spec fn line_end(s: Seq<u8>, from: int) -> int
    decreases s.len() - from,
{
    if 0 <= from < s.len() {
        if s[from] == LINE_FEED {
            from + 1
        } else {
            line_end(s, from + 1)
        }
    } else {
        from
    }
}

/// What stands at a place of the text.
pub enum Scan {
    /// A token, which ends before `next`.
    Token { token: TokenView, next: int },
    /// White space or a comment, which ends before `next`.
    Skip { next: int },
    /// A character that starts no token.
    Fault { c: char },
}

/// What stands at `pos`. The longest run is taken: a word or an integer ends
/// where its run of characters ends, and `==` is one token.
pub open spec fn scan(s: Seq<u8>, pos: int) -> Scan
    recommends
        0 <= pos < s.len(),
{
    let c = s[pos];
    if symbol_type(c) is Some {
        Scan::Token {
            token: TokenView { token_type: symbol_type(c)->0, token_str: text_of(s, pos, pos + 1) },
            next: pos + 1,
        }
    } else if is_space(c) {
        Scan::Skip { next: pos + 1 }
    } else if is_digit(c) {
        let end = digits_end(s, pos + 1);
        Scan::Token {
            token: TokenView { token_type: TokenType::Integer, token_str: text_of(s, pos, end) },
            next: end,
        }
    } else if is_letter(c) {
        let end = word_end(s, pos + 1);
        Scan::Token {
            token: TokenView {
                token_type: word_type(text_of(s, pos, end)),
                token_str: text_of(s, pos, end),
            },
            next: end,
        }
    } else if c == EQUALS {
        if pos + 1 < s.len() && s[pos + 1] == EQUALS {
            Scan::Token {
                token: TokenView { token_type: TokenType::Eq, token_str: text_of(s, pos, pos + 2) },
                next: pos + 2,
            }
        } else {
            Scan::Token {
                token: TokenView {
                    token_type: TokenType::Assign,
                    token_str: text_of(s, pos, pos + 1),
                },
                next: pos + 1,
            }
        }
    } else if c == SLASH && pos + 1 < s.len() && s[pos + 1] == SLASH {
        Scan::Skip { next: line_end(s, pos + 2) }
    } else {
        Scan::Fault { c: c as char }
    }
}

/// The place after what stands at `pos`.
pub open spec fn scan_next(s: Seq<u8>, pos: int) -> int {
    match scan(s, pos) {
        Scan::Token { token, next } => next,
        Scan::Skip { next } => next,
        Scan::Fault { c } => pos + 1,
    }
}

/// A run of digits ends at or after its start, within the text, and holds
/// digits only.
pub proof fn lemma_digits_end_bounds(s: Seq<u8>, from: int)
    requires
        0 <= from <= s.len(),
    ensures
        from <= digits_end(s, from) <= s.len(),
        forall|i: int| from <= i < digits_end(s, from) ==> is_digit(#[trigger] s[i]),
    decreases s.len() - from,
{
    if from < s.len() && is_digit(s[from]) {
        lemma_digits_end_bounds(s, from + 1);
    }
}

/// A run of letters and digits ends at or after its start, within the text,
/// and holds letters and digits only.
pub proof fn lemma_word_end_bounds(s: Seq<u8>, from: int)
    requires
        0 <= from <= s.len(),
    ensures
        from <= word_end(s, from) <= s.len(),
        forall|i: int|
            from <= i < word_end(s, from) ==> is_letter(#[trigger] s[i]) || is_digit(s[i]),
    decreases s.len() - from,
{
    if from < s.len() && (is_letter(s[from]) || is_digit(s[from])) {
        lemma_word_end_bounds(s, from + 1);
    }
}

/// A line ends at or after its start and within the text.
pub proof fn lemma_line_end_bounds(s: Seq<u8>, from: int)
    requires
        0 <= from <= s.len(),
    ensures
        from <= line_end(s, from) <= s.len(),
    decreases s.len() - from,
{
    if from < s.len() && s[from] != LINE_FEED {
        lemma_line_end_bounds(s, from + 1);
    }
}

/// Whatever stands at a place of the text ends after that place, and within
/// the text.
pub proof fn lemma_scan_advances(s: Seq<u8>, pos: int)
    requires
        0 <= pos < s.len(),
    ensures
        pos < scan_next(s, pos) <= s.len(),
{
    lemma_digits_end_bounds(s, pos + 1);
    lemma_word_end_bounds(s, pos + 1);
    if pos + 2 <= s.len() {
        lemma_line_end_bounds(s, pos + 2);
    }
}

/// The tokens of the text from `pos` on, or the first character, in the
/// order of the text, that starts no token.
pub open spec fn tokens_from(s: Seq<u8>, pos: int) -> Result<Seq<TokenView>, TokenizeError>
    decreases s.len() - pos,
{
    if 0 <= pos < s.len() {
        proof {
            lemma_scan_advances(s, pos);
        }
        match scan(s, pos) {
            Scan::Token { token, next } => match tokens_from(s, scan_next(s, pos)) {
                Ok(rest) => Ok(seq![token] + rest),
                Err(err) => Err(err),
            },
            Scan::Skip { next } => tokens_from(s, scan_next(s, pos)),
            Scan::Fault { c } => Err(TokenizeError::UnsupportedChar(c)),
        }
    } else {
        Ok(Seq::empty())
    }
}

/// The tokens of a text.
pub open spec fn tokenize_spec(s: Seq<u8>) -> Result<Seq<TokenView>, TokenizeError> {
    tokens_from(s, 0)
}

/// `found`, then what follows.
pub open spec fn after(
    found: Seq<TokenView>,
    rest: Result<Seq<TokenView>, TokenizeError>,
) -> Result<Seq<TokenView>, TokenizeError> {
    match rest {
        Ok(rest) => Ok(found + rest),
        Err(err) => Err(err),
    }
}

/// The bytes from `from` up to `to`, as a string of characters.
fn copy_text(input: &[u8], from: usize, to: usize) -> (r: String)
    requires
        from <= to <= input@.len(),
    ensures
        r@ == text_of(input@, from as int, to as int),
{
    let mut out = String::new();
    let mut i: usize = from;
    while i < to
        invariant
            from <= i <= to <= input@.len(),
            out@ == text_of(input@, from as int, i as int),
        decreases to - i,
    {
        out.push(input[i] as char);
        assert(out@ =~= text_of(input@, from as int, i + 1));
        i += 1;
    }
    out
}

/// Whether a word is the given keyword.
fn is_word(text: &String, word: &str) -> (r: bool)
    ensures
        r == (text@ == word@),
{
    let word = word.to_owned();
    *text == word
}

/// The kind of a word.
fn classify_word(text: &String) -> (r: TokenType)
    ensures
        r == word_type(text@),
{
    if is_word(text, "var") {
        TokenType::Var
    } else if is_word(text, "print") {
        TokenType::Print
    } else if is_word(text, "if") {
        TokenType::If
    } else if is_word(text, "else") {
        TokenType::Else
    } else if is_word(text, "while") {
        TokenType::While
    } else if is_word(text, "func") {
        TokenType::Func
    } else if is_word(text, "return") {
        TokenType::Return
    } else {
        TokenType::Name
    }
}

/// The token that a character is by itself, if it is one.
fn symbol_of(c: u8) -> (r: Option<TokenType>)
    ensures
        r == symbol_type(c),
{
    if c == PLUS {
        Some(TokenType::Plus)
    } else if c == STAR {
        Some(TokenType::Times)
    } else if c == LESS {
        Some(TokenType::Lt)
    } else if c == SEMICOLON {
        Some(TokenType::Semi)
    } else if c == LEFT_PAREN {
        Some(TokenType::Lparen)
    } else if c == RIGHT_PAREN {
        Some(TokenType::Rparen)
    } else if c == LEFT_BRACE {
        Some(TokenType::Lbrace)
    } else if c == RIGHT_BRACE {
        Some(TokenType::Rbrace)
    } else if c == COMMA {
        Some(TokenType::Comma)
    } else {
        None
    }
}

/// Takes the symbol at `pos` as a token.
fn handle_symbol(tokens: &mut Vec<Token>, input: &[u8], pos: usize, token_type: TokenType) -> (next:
    usize)
    requires
        pos < input@.len(),
        symbol_type(input@[pos as int]) == Some(token_type),
    ensures
        next == scan_next(input@, pos as int),
        scan(input@, pos as int) matches Scan::Token { token, .. } && tokens_view(final(tokens)@)
            == tokens_view(old(tokens)@).push(token),
{
    let len: usize = input.len();
    let text = copy_text(input, pos, pos + 1);
    let ghost before = tokens@;
    tokens.push(Token::new(token_type, text));
    assert(tokens_view(tokens@) =~= tokens_view(before).push(tokens@.last()@));
    pos + 1
}

/// Takes `==` or `=` at `pos` as a token.
fn handle_equals(tokens: &mut Vec<Token>, input: &[u8], pos: usize) -> (next: usize)
    requires
        pos < input@.len(),
        input@[pos as int] == EQUALS,
    ensures
        next == scan_next(input@, pos as int),
        scan(input@, pos as int) matches Scan::Token { token, .. } && tokens_view(final(tokens)@)
            == tokens_view(old(tokens)@).push(token),
{
    let ghost before = tokens@;
    let len: usize = input.len();
    if pos + 1 < len && input[pos + 1] == EQUALS {
        let text = copy_text(input, pos, pos + 2);
        tokens.push(Token::new(TokenType::Eq, text));
        assert(tokens_view(tokens@) =~= tokens_view(before).push(tokens@.last()@));
        pos + 2
    } else {
        let text = copy_text(input, pos, pos + 1);
        tokens.push(Token::new(TokenType::Assign, text));
        assert(tokens_view(tokens@) =~= tokens_view(before).push(tokens@.last()@));
        pos + 1
    }
}

/// Takes the run of digits that starts at `pos` as an integer.
fn handle_digit(tokens: &mut Vec<Token>, input: &[u8], pos: usize) -> (next: usize)
    requires
        pos < input@.len(),
        is_digit(input@[pos as int]),
    ensures
        next == scan_next(input@, pos as int),
        scan(input@, pos as int) matches Scan::Token { token, .. } && tokens_view(final(tokens)@)
            == tokens_view(old(tokens)@).push(token),
{
    let ghost before = tokens@;
    let len: usize = input.len();
    let mut end: usize = pos + 1;
    while end < len && input[end] >= DIGIT_0 && input[end] <= DIGIT_9
        invariant
            pos < end <= input@.len(),
            len == input@.len(),
            digits_end(input@, pos + 1) == digits_end(input@, end as int),
        decreases input@.len() - end,
    {
        end += 1;
    }
    let text = copy_text(input, pos, end);
    tokens.push(Token::new(TokenType::Integer, text));
    assert(tokens_view(tokens@) =~= tokens_view(before).push(tokens@.last()@));
    end
}

/// Takes the run of letters and digits that starts at `pos` as a keyword or
/// a name.
fn handle_alphanumeric(tokens: &mut Vec<Token>, input: &[u8], pos: usize) -> (next: usize)
    requires
        pos < input@.len(),
        is_letter(input@[pos as int]),
    ensures
        next == scan_next(input@, pos as int),
        scan(input@, pos as int) matches Scan::Token { token, .. } && tokens_view(final(tokens)@)
            == tokens_view(old(tokens)@).push(token),
{
    let ghost before = tokens@;
    let len: usize = input.len();
    let mut end: usize = pos + 1;
    while end < len && is_alphanumeric(input[end])
        invariant
            pos < end <= input@.len(),
            len == input@.len(),
            word_end(input@, pos + 1) == word_end(input@, end as int),
        decreases input@.len() - end,
    {
        end += 1;
    }
    let text = copy_text(input, pos, end);
    let token_type = classify_word(&text);
    tokens.push(Token::new(token_type, text));
    assert(tokens_view(tokens@) =~= tokens_view(before).push(tokens@.last()@));
    end
}

fn is_alphanumeric(c: u8) -> (r: bool)
    ensures
        r == (is_letter(c) || is_digit(c)),
{
    (c >= UPPER_A && c <= UPPER_Z) || (c >= LOWER_A && c <= LOWER_Z) || (c >= DIGIT_0 && c
        <= DIGIT_9)
}

fn is_whitespace(c: u8) -> (r: bool)
    ensures
        r == is_space(c),
{
    (c >= TAB && c <= CARRIAGE_RETURN) || c == SPACE || c == NEXT_LINE || c == NO_BREAK_SPACE
}

/// The place after the comment that starts at `pos`.
fn skip_comment(input: &[u8], pos: usize) -> (next: usize)
    requires
        pos + 1 < input@.len(),
    ensures
        next == line_end(input@, pos + 2),
        pos < next <= input@.len(),
{
    let len: usize = input.len();
    let mut end: usize = pos + 2;
    proof {
        lemma_line_end_bounds(input@, pos + 2);
    }
    while end < len && input[end] != LINE_FEED
        invariant
            pos + 2 <= end <= input@.len(),
            len == input@.len(),
            line_end(input@, pos + 2) == line_end(input@, end as int),
        decreases input@.len() - end,
    {
        end += 1;
    }
    if end < len {
        end + 1
    } else {
        end
    }
}

/// Cuts a text into its tokens: `Ok` with all of them in the order of the
/// text, or the first character that starts no token.
pub fn tokenize(input: &[u8]) -> (r: Result<Vec<Token>, TokenizeError>)
    ensures
        match r {
            Ok(tokens) => tokenize_spec(input@) == Ok::<Seq<TokenView>, TokenizeError>(
                tokens_view(tokens@),
            ),
            Err(err) => tokenize_spec(input@) == Err::<Seq<TokenView>, TokenizeError>(err),
        },
{
    let mut tokens: Vec<Token> = Vec::new();
    let mut pos: usize = 0;
    assert(tokens_view(tokens@) =~= Seq::empty());
    assert(after(Seq::empty(), tokens_from(input@, 0)) =~= tokens_from(input@, 0)) by {
        match tokens_from(input@, 0) {
            Ok(rest) => {
                assert(Seq::<TokenView>::empty() + rest =~= rest);
            },
            Err(_) => {},
        }
    }
    while pos < input.len()
        invariant
            pos <= input@.len(),
            tokenize_spec(input@) == after(tokens_view(tokens@), tokens_from(input@, pos as int)),
        decreases input@.len() - pos,
    {
        let c = input[pos];
        let ghost found = tokens_view(tokens@);
        proof {
            lemma_scan_advances(input@, pos as int);
        }
        let symbol = symbol_of(c);
        if symbol.is_some() {
            pos = handle_symbol(&mut tokens, input, pos, symbol.unwrap());
        } else if is_whitespace(c) {
            pos = pos + 1;
        } else if c >= DIGIT_0 && c <= DIGIT_9 {
            pos = handle_digit(&mut tokens, input, pos);
        } else if is_alphanumeric(c) {
            pos = handle_alphanumeric(&mut tokens, input, pos);
        } else if c == EQUALS {
            pos = handle_equals(&mut tokens, input, pos);
        } else if c == SLASH && pos + 1 < input.len() && input[pos + 1] == SLASH {
            pos = skip_comment(input, pos);
        } else {
            return Err(TokenizeError::UnsupportedChar(c as char));
        }
        proof {
            match tokens_from(input@, pos as int) {
                Ok(rest) => {
                    if tokens_view(tokens@) != found {
                        assert(found + (seq![tokens_view(tokens@).last()] + rest) =~= tokens_view(
                            tokens@,
                        ) + rest);
                    }
                },
                Err(_) => {},
            }
        }
    }
    assert(tokens_view(tokens@) + Seq::<TokenView>::empty() =~= tokens_view(tokens@));
    Ok(tokens)
}

} // verus!
