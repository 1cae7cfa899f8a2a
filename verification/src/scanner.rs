//! The scanner: turns source text into the ordered token sequence that the
//! translator consumes, defined first as a mathematical function on
//! character sequences and then implemented by executable code proved
//! equal to it.

use vstd::prelude::*;

use crate::numbers::is_digit_char;
use crate::token::{token_models, Token, TokenModel, TokenType};

verus! {

/// Why scanning stopped early.
#[derive(Debug, Clone, Copy, PartialEq, Eq, Structural)]
pub enum ScanErrorKind {
    /// A string literal was still open when the text ran out.
    UnterminatedString,
    /// A character that starts no token.
    UnexpectedCharacter(char),
}

/// A scanning failure: the line it was noticed on and why. The tokens read
/// before it are still handed back, so a caller can choose to keep or
/// discard the partial output.
#[derive(Debug, Clone, PartialEq)]
pub struct ScanError {
    pub line: usize,
    pub kind: ScanErrorKind,
}

/// The mathematical image of a `ScanError`.
pub struct ScanErrorModel {
    pub line: nat,
    pub kind: ScanErrorKind,
}

impl View for ScanError {
    type V = ScanErrorModel;

    open spec fn view(&self) -> ScanErrorModel {
        ScanErrorModel { line: self.line as nat, kind: self.kind }
    }
}

/// The meaning of scanning a piece of text: the tokens it holds, and the
/// failure that stopped scanning early, if one did.
pub struct ScanModel {
    pub toks: Seq<TokenModel>,
    pub err: Option<ScanErrorModel>,
}

/// Whether `c` is blank space that separates tokens.
pub open spec fn is_blank(c: char) -> bool {
    c == ' ' || c == '\r' || c == '\t'
}

/// Whether `c` can start an identifier.
pub open spec fn is_ident_start(c: char) -> bool {
    (97 <= c as u32 <= 122) || (65 <= c as u32 <= 90) || c == '_'
}

/// Whether `c` can continue an identifier: a letter or a digit.
pub open spec fn is_ident_part(c: char) -> bool {
    (97 <= c as u32 <= 122) || (65 <= c as u32 <= 90) || is_digit_char(c)
}

/// The first position at or after `i` whose character ends an identifier.
pub open spec fn ident_end(s: Seq<char>, i: int) -> int
    decreases s.len() - i,
{
    if i < 0 || i >= s.len() {
        s.len() as int
    } else if is_ident_part(s[i]) {
        ident_end(s, i + 1)
    } else {
        i
    }
}

/// The first position at or after `i` whose character is not a digit.
pub open spec fn digits_end(s: Seq<char>, i: int) -> int
    decreases s.len() - i,
{
    if i < 0 || i >= s.len() {
        s.len() as int
    } else if is_digit_char(s[i]) {
        digits_end(s, i + 1)
    } else {
        i
    }
}

/// The first position at or after `i` holding a closing quote, or the
/// length when there is none.
pub open spec fn string_end(s: Seq<char>, i: int) -> int
    decreases s.len() - i,
{
    if i < 0 || i >= s.len() {
        s.len() as int
    } else if s[i] == '"' {
        i
    } else {
        string_end(s, i + 1)
    }
}

/// Digit text with its leading zeros dropped; a run of zeros alone keeps
/// its last one.
pub open spec fn normalize_digits(d: Seq<char>) -> Seq<char>
    decreases d.len(),
{
    if d.len() > 1 && d[0] == '0' {
        normalize_digits(d.drop_first())
    } else {
        d
    }
}

/// The token kind of an identifier: a keyword where the text is one.
pub open spec fn keyword_kind(txt: Seq<char>) -> TokenType {
    if txt == "print"@ {
        TokenType::Print
    } else if txt == "if"@ {
        TokenType::If
    } else if txt == "else"@ {
        TokenType::Else
    } else if txt == "true"@ {
        TokenType::True
    } else if txt == "false"@ {
        TokenType::False
    } else if txt == "let"@ {
        TokenType::Let
    } else if txt == "for"@ {
        TokenType::For
    } else if txt == "in"@ {
        TokenType::In
    } else {
        TokenType::Identifier
    }
}

/// A token model whose lexeme and literal are the same text.
pub open spec fn plain_token(kind: TokenType, txt: Seq<char>, line: nat) -> TokenModel {
    TokenModel { kind, lexeme: txt, literal: txt, line }
}

/// A model with one more token in front.
pub open spec fn with_token(t: TokenModel, m: ScanModel) -> ScanModel {
    ScanModel { toks: seq![t] + m.toks, err: m.err }
}

/// A model that stops with a failure.
pub open spec fn stopped(line: nat, kind: ScanErrorKind) -> ScanModel {
    ScanModel { toks: Seq::empty(), err: Option::Some(ScanErrorModel { line, kind }) }
}

/// The meaning of scanning the text from position `i` on, with `line` as
/// the current line number.
pub open spec fn scan_spec(s: Seq<char>, i: int, line: nat) -> ScanModel
    decreases s.len() - i,
        via scan_spec_decreases
{
    if i < 0 || i >= s.len() {
        ScanModel { toks: Seq::empty(), err: Option::None }
    } else {
        let c = s[i];
        if c == '.' {
            if i + 1 < s.len() && s[i + 1] == '.' {
                if i + 2 < s.len() && s[i + 2] == '=' {
                    with_token(
                        plain_token(TokenType::DotDotEqual, "..="@, line),
                        scan_spec(s, i + 3, line),
                    )
                } else {
                    with_token(
                        plain_token(TokenType::DotDot, ".."@, line),
                        scan_spec(s, i + 2, line),
                    )
                }
            } else {
                with_token(plain_token(TokenType::Dot, "."@, line), scan_spec(s, i + 1, line))
            }
        } else if c == ',' {
            with_token(plain_token(TokenType::Comma, ","@, line), scan_spec(s, i + 1, line))
        } else if c == '(' {
            with_token(plain_token(TokenType::LeftParen, "("@, line), scan_spec(s, i + 1, line))
        } else if c == ')' {
            with_token(plain_token(TokenType::RightParen, ")"@, line), scan_spec(s, i + 1, line))
        } else if c == '[' {
            with_token(
                plain_token(TokenType::LeftBracket, "["@, line),
                scan_spec(s, i + 1, line),
            )
        } else if c == ']' {
            with_token(
                plain_token(TokenType::RightBracket, "]"@, line),
                scan_spec(s, i + 1, line),
            )
        } else if c == '+' {
            with_token(plain_token(TokenType::Plus, "+"@, line), scan_spec(s, i + 1, line))
        } else if c == '-' {
            with_token(plain_token(TokenType::Minus, "-"@, line), scan_spec(s, i + 1, line))
        } else if c == '/' {
            with_token(plain_token(TokenType::Slash, "/"@, line), scan_spec(s, i + 1, line))
        } else if c == '*' {
            with_token(plain_token(TokenType::Star, "*"@, line), scan_spec(s, i + 1, line))
        } else if c == '{' {
            with_token(plain_token(TokenType::LeftBrace, "{"@, line), scan_spec(s, i + 1, line))
        } else if c == '}' {
            with_token(
                plain_token(TokenType::RightBrace, "}"@, line),
                scan_spec(s, i + 1, line),
            )
        } else if c == '<' {
            if i + 1 < s.len() && s[i + 1] == '=' {
                with_token(
                    plain_token(TokenType::LessEqual, "<="@, line),
                    scan_spec(s, i + 2, line),
                )
            } else {
                with_token(plain_token(TokenType::Less, "<"@, line), scan_spec(s, i + 1, line))
            }
        } else if c == '>' {
            if i + 1 < s.len() && s[i + 1] == '=' {
                with_token(
                    plain_token(TokenType::GreaterEqual, ">="@, line),
                    scan_spec(s, i + 2, line),
                )
            } else {
                with_token(
                    plain_token(TokenType::Greater, ">"@, line),
                    scan_spec(s, i + 1, line),
                )
            }
        } else if c == '=' {
            if i + 1 < s.len() && s[i + 1] == '=' {
                with_token(
                    plain_token(TokenType::EqualEqual, ""@, line),
                    scan_spec(s, i + 2, line),
                )
            } else {
                with_token(
                    plain_token(TokenType::Equal, ""@, line),
                    scan_spec(s, i + 1, line),
                )
            }
        } else if c == '\n' {
            with_token(
                plain_token(TokenType::EOL, "\n"@, line + 1),
                scan_spec(s, i + 1, line + 1),
            )
        } else if is_blank(c) {
            scan_spec(s, i + 1, line)
        } else if c == '"' {
            let j = string_end(s, i + 1);
            if j >= s.len() {
                stopped(line, ScanErrorKind::UnterminatedString)
            } else {
                with_token(
                    plain_token(TokenType::String, s.subrange(i + 1, j), line),
                    scan_spec(s, j + 1, line),
                )
            }
        } else if is_ident_start(c) {
            let j = ident_end(s, i + 1);
            let txt = s.subrange(i, j);
            with_token(plain_token(keyword_kind(txt), txt, line), scan_spec(s, j, line))
        } else if is_digit_char(c) {
            let j = digits_end(s, i + 1);
            let txt = normalize_digits(s.subrange(i, j));
            with_token(plain_token(TokenType::Number, txt, line), scan_spec(s, j, line))
        } else if c == '!' {
            if i + 1 < s.len() && s[i + 1] == '=' {
                with_token(
                    plain_token(TokenType::BangEqual, "!="@, line),
                    scan_spec(s, i + 2, line),
                )
            } else {
                with_token(plain_token(TokenType::Bang, "!"@, line), scan_spec(s, i + 1, line))
            }
        } else {
            stopped(line, ScanErrorKind::UnexpectedCharacter(c))
        }
    }
}

/// The scan positions that end a run never lie before its start nor past
/// the end of the text.
pub proof fn lemma_ident_end_bounds(s: Seq<char>, i: int)
    requires
        0 <= i,
    ensures
        (if i < s.len() {
            i
        } else {
            s.len() as int
        }) <= ident_end(s, i) <= s.len(),
    decreases s.len() - i,
{
    if i < s.len() && is_ident_part(s[i]) {
        lemma_ident_end_bounds(s, i + 1);
    }
}

/// The scan positions that end a run never lie before its start nor past
/// the end of the text.
pub proof fn lemma_digits_end_bounds(s: Seq<char>, i: int)
    requires
        0 <= i,
    ensures
        (if i < s.len() {
            i
        } else {
            s.len() as int
        }) <= digits_end(s, i) <= s.len(),
    decreases s.len() - i,
{
    if i < s.len() && is_digit_char(s[i]) {
        lemma_digits_end_bounds(s, i + 1);
    }
}

/// The scan positions that end a run never lie before its start nor past
/// the end of the text.
pub proof fn lemma_string_end_bounds(s: Seq<char>, i: int)
    requires
        0 <= i,
    ensures
        (if i < s.len() {
            i
        } else {
            s.len() as int
        }) <= string_end(s, i) <= s.len(),
    decreases s.len() - i,
{
    if i < s.len() && s[i] != '"' {
        lemma_string_end_bounds(s, i + 1);
    }
}

/// Establishes the bounds that the recursion of `scan_spec` rests on.
#[via_fn]
proof fn scan_spec_decreases(s: Seq<char>, i: int, line: nat) {
    if 0 <= i {
        lemma_ident_end_bounds(s, i + 1);
        lemma_digits_end_bounds(s, i + 1);
        lemma_string_end_bounds(s, i + 1);
    }
}

/// The end of a run is pinned down by the run before it.
pub proof fn lemma_ident_end_at(s: Seq<char>, start: int, j: int)
    requires
        0 <= start <= j <= s.len(),
        forall|x: int| start <= x < j ==> is_ident_part(#[trigger] s[x]),
        j < s.len() ==> !is_ident_part(s[j]),
    ensures
        ident_end(s, start) == j,
    decreases j - start,
{
    if start < j {
        lemma_ident_end_at(s, start + 1, j);
    }
}

/// The end of a run is pinned down by the run before it.
pub proof fn lemma_digits_end_at(s: Seq<char>, start: int, j: int)
    requires
        0 <= start <= j <= s.len(),
        forall|x: int| start <= x < j ==> is_digit_char(#[trigger] s[x]),
        j < s.len() ==> !is_digit_char(s[j]),
    ensures
        digits_end(s, start) == j,
    decreases j - start,
{
    if start < j {
        lemma_digits_end_at(s, start + 1, j);
    }
}

/// The end of a run is pinned down by the run before it.
pub proof fn lemma_string_end_at(s: Seq<char>, start: int, j: int)
    requires
        0 <= start <= j <= s.len(),
        forall|x: int| start <= x < j ==> #[trigger] s[x] != '"',
        j < s.len() ==> s[j] == '"',
    ensures
        string_end(s, start) == j,
    decreases j - start,
{
    if start < j {
        lemma_string_end_at(s, start + 1, j);
    }
}

/// Dropping a stretch of leading zeros, short of the last digit,
/// normalizes the digit text.
proof fn lemma_normalize_run(d: Seq<char>, k: int)
    requires
        d.len() >= 1,
        0 <= k <= d.len() - 1,
        forall|x: int| 0 <= x < k ==> #[trigger] d[x] == '0',
        k < d.len() - 1 ==> d[k] != '0',
    ensures
        normalize_digits(d) == d.subrange(k, d.len() as int),
    decreases k,
{
    if k == 0 {
        assert(d.subrange(0, d.len() as int) =~= d);
    } else {
        lemma_normalize_run(d.drop_first(), k - 1);
        assert(d.drop_first().subrange(k - 1, d.drop_first().len() as int) =~= d.subrange(
            k,
            d.len() as int,
        ));
    }
}

/// Whether the character at `j` is a digit.
fn digit_at(contents: &str, j: usize) -> (r: bool)
    requires
        j < contents@.len(),
    ensures
        r == is_digit_char(contents@[j as int]),
{
    let c = contents.get_char(j);
    '0' <= c && c <= '9'
}

/// Whether the character at `j` can continue an identifier.
fn ident_part_at(contents: &str, j: usize) -> (r: bool)
    requires
        j < contents@.len(),
    ensures
        r == is_ident_part(contents@[j as int]),
{
    let c = contents.get_char(j);
    ('a' <= c && c <= 'z') || ('A' <= c && c <= 'Z') || ('0' <= c && c <= '9')
}

/// One scanning step: taking one token off the front keeps the remaining
/// model consistent.
proof fn lemma_scan_step(
    full: ScanModel,
    prev: Seq<TokenModel>,
    rest0: ScanModel,
    t: TokenModel,
    rest1: ScanModel,
)
    requires
        full.toks == prev + rest0.toks,
        full.err == rest0.err,
        rest0 == with_token(t, rest1),
    ensures
        full.toks == prev.push(t) + rest1.toks,
        full.err == rest1.err,
{
    assert(prev + (seq![t] + rest1.toks) =~= prev.push(t) + rest1.toks);
}

/// The character at a position, with a NUL standing in for the end of the
/// text.
pub open spec fn char_at(s: Seq<char>, i: int) -> char {
    if 0 <= i < s.len() {
        s[i]
    } else {
        '\0'
    }
}

/// The scanner: holds the source text and turns it into tokens.
pub struct Scanner {
    source: String,
}

impl View for Scanner {
    type V = Seq<char>;

    closed spec fn view(&self) -> Seq<char> {
        self.source@
    }
}

impl Scanner {
    /// A scanner over the given source text.
    pub fn new(source: String) -> (r: Scanner)
        ensures
            r@ == source@,
    {
        Scanner { source }
    }

    /// The character at `current`, or NUL at the end of the text.
    pub fn peek(contents: &str, current: usize) -> (c: char)
        ensures
            c == char_at(contents@, current as int),
    {
        if current < contents.unicode_len() {
            contents.get_char(current)
        } else {
            '\0'
        }
    }

    /// Reads the character at `current` and moves past it.
    pub fn advance(contents: &str, current: &mut usize) -> (c: char)
        requires
            *old(current) < contents@.len(),
            *old(current) < usize::MAX,
        ensures
            c == contents@[*old(current) as int],
            *final(current) == *old(current) + 1,
    {
        let c = contents.get_char(*current);
        *current = *current + 1;
        c
    }

    /// Consumes the character at `current` when it is the expected one.
    pub fn next(expected: char, contents: &str, current: &mut usize) -> (r: bool)
        requires
            *old(current) < usize::MAX,
        ensures
            r == (char_at(contents@, *old(current) as int) == expected),
            *final(current) as int == if r {
                *old(current) + 1
            } else {
                *old(current) as int
            },
    {
        if Scanner::peek(contents, *current) == expected {
            *current = *current + 1;
            true
        } else {
            false
        }
    }

    /// Reads a string literal: the text up to the next quote. `current`
    /// starts right after the opening quote and ends right after the
    /// closing one. Text that runs out first is an unterminated string.
    pub fn string(contents: &str, current: &mut usize) -> (r: Result<String, ScanErrorKind>)
        requires
            *old(current) <= contents@.len(),
        ensures
            ({
                let j = string_end(contents@, *old(current) as int);
                match r {
                    Result::Ok(t) => j < contents@.len() && t@ == contents@.subrange(
                        *old(current) as int,
                        j,
                    ) && *final(current) == j + 1,
                    Result::Err(k) => j >= contents@.len() && k
                        == ScanErrorKind::UnterminatedString && *final(current) == contents@.len(),
                }
            }),
    {
        let n = contents.unicode_len();
        let start = *current;
        let mut j: usize = start;
        while j < n && !(contents.get_char(j) == '"')
            invariant
                start <= j <= n,
                n == contents@.len(),
                forall|x: int| start <= x < j ==> #[trigger] contents@[x] != '"',
            decreases n - j,
        {
            j = j + 1;
        }
        proof {
            lemma_string_end_at(contents@, start as int, j as int);
        }
        if j >= n {
            *current = n;
            Result::Err(ScanErrorKind::UnterminatedString)
        } else {
            let lit = contents.substring_char(start, j).to_owned();
            *current = j + 1;
            Result::Ok(lit)
        }
    }

    /// Reads the rest of a number whose first digit sits right before
    /// `current`, and returns its digits with leading zeros dropped.
    pub fn number(contents: &str, current: &mut usize) -> (r: String)
        requires
            1 <= *old(current) <= contents@.len(),
        ensures
            r@ == normalize_digits(
                contents@.subrange(
                    *old(current) - 1,
                    digits_end(contents@, *old(current) as int),
                ),
            ),
            *final(current) == digits_end(contents@, *old(current) as int),
    {
        let n = contents.unicode_len();
        let start = *current - 1;
        let mut j: usize = *current;
        while j < n && digit_at(contents, j)
            invariant
                start + 1 <= j <= n,
                n == contents@.len(),
                forall|x: int| start + 1 <= x < j ==> is_digit_char(#[trigger] contents@[x]),
            decreases n - j,
        {
            j = j + 1;
        }
        proof {
            lemma_digits_end_at(contents@, start as int + 1, j as int);
        }
        let mut k: usize = start;
        while k < j - 1 && contents.get_char(k) == '0'
            invariant
                start <= k <= j - 1,
                j <= n,
                n == contents@.len(),
                start < j,
                forall|x: int| start <= x < k ==> #[trigger] contents@[x] == '0',
            decreases j - k,
        {
            k = k + 1;
        }
        let lexeme = contents.substring_char(k, j).to_owned();
        *current = j;
        proof {
            let d = contents@.subrange(start as int, j as int);
            assert forall|x: int| 0 <= x < k - start implies #[trigger] d[x] == '0' by {
                assert(d[x] == contents@[start + x]);
            }
            if (k as int - start) < d.len() - 1 {
                assert(d[k - start] == contents@[k as int]);
            }
            lemma_normalize_run(d, k as int - start);
            assert(d.subrange(k - start, d.len() as int) =~= contents@.subrange(
                k as int,
                j as int,
            ));
        }
        lexeme
    }

    /// Reads the rest of an identifier whose first character sits right
    /// before `current`.
    pub fn identifier(contents: &str, current: &mut usize) -> (r: String)
        requires
            1 <= *old(current) <= contents@.len(),
        ensures
            r@ == contents@.subrange(
                *old(current) - 1,
                ident_end(contents@, *old(current) as int),
            ),
            *final(current) == ident_end(contents@, *old(current) as int),
    {
        let n = contents.unicode_len();
        let start = *current - 1;
        let mut j: usize = *current;
        while j < n && ident_part_at(contents, j)
            invariant
                start + 1 <= j <= n,
                n == contents@.len(),
                forall|x: int| start + 1 <= x < j ==> is_ident_part(#[trigger] contents@[x]),
            decreases n - j,
        {
            j = j + 1;
        }
        proof {
            lemma_ident_end_at(contents@, start as int + 1, j as int);
        }
        let lexeme = contents.substring_char(start, j).to_owned();
        *current = j;
        lexeme
    }

    /// Scans the whole source text into its tokens, as `scan_spec` says,
    /// starting at line one. On a failure the tokens read before it are
    /// handed back beside it.
    #[verifier::rlimit(100)]
    pub fn scan(self) -> (r: (Vec<Token>, Option<ScanError>))
        requires
            self@.len() < usize::MAX,
        ensures
            ({
                let m = scan_spec(self@, 0, 1);
                &&& token_models(r.0@) == m.toks
                &&& match (r.1, m.err) {
                    (Option::Some(e), Option::Some(me)) => e@ == me,
                    (Option::None, Option::None) => true,
                    _ => false,
                }
            }),
    {
        let source = self.source;
        let contents = source.as_str();
        let ghost sq = contents@;
        let n = contents.unicode_len();
        let mut tokens: Vec<Token> = Vec::new();
        let mut current: usize = 0;
        let mut line: usize = 1;
        let ghost full = scan_spec(sq, 0, 1);
        proof {
            assert(sq == self@);
            assert(full.toks =~= token_models(tokens@) + scan_spec(sq, 0, 1).toks);
        }
        while current < n
            invariant
                current <= n,
                n == sq.len(),
                sq == contents@,
                sq == self@,
                sq.len() < usize::MAX,
                1 <= line,
                line <= current + 1,
                full == scan_spec(sq, 0, 1),
                ({
                    let rest = scan_spec(sq, current as int, line as nat);
                    &&& full.toks == token_models(tokens@) + rest.toks
                    &&& full.err == rest.err
                }),
            decreases n - current,
        {
            let ghost i0 = current as int;
            let ghost line0 = line as nat;
            let ghost rest0 = scan_spec(sq, i0, line0);
            let c = Scanner::advance(contents, &mut current);
            if c == '.' {
                let tok: Token;
                if Scanner::next('.', contents, &mut current) {
                    if Scanner::next('=', contents, &mut current) {
                        tok = Token::new(
                            TokenType::DotDotEqual,
                            String::from_str("..="),
                            String::from_str("..="),
                            line,
                        );
                    } else {
                        tok = Token::new(
                            TokenType::DotDot,
                            String::from_str(".."),
                            String::from_str(".."),
                            line,
                        );
                    }
                } else {
                    tok = Token::new(
                        TokenType::Dot,
                        String::from_str("."),
                        String::from_str("."),
                        line,
                    );
                }
                let ghost prev = tokens@;
                tokens.push(tok);
                proof {
                    crate::translator::lemma_token_models_push(prev, tok);
                    lemma_scan_step(
                        full,
                        token_models(prev),
                        rest0,
                        tok@,
                        scan_spec(sq, current as int, line as nat),
                    );
                }
            } else if c == ',' {
                let tok = Token::new(
                    TokenType::Comma,
                    String::from_str(","),
                    String::from_str(","),
                    line,
                );
                let ghost prev = tokens@;
                tokens.push(tok);
                proof {
                    crate::translator::lemma_token_models_push(prev, tok);
                    lemma_scan_step(
                        full,
                        token_models(prev),
                        rest0,
                        tok@,
                        scan_spec(sq, current as int, line as nat),
                    );
                }
            } else if c == '(' {
                let tok = Token::new(
                    TokenType::LeftParen,
                    String::from_str("("),
                    String::from_str("("),
                    line,
                );
                let ghost prev = tokens@;
                tokens.push(tok);
                proof {
                    crate::translator::lemma_token_models_push(prev, tok);
                    lemma_scan_step(
                        full,
                        token_models(prev),
                        rest0,
                        tok@,
                        scan_spec(sq, current as int, line as nat),
                    );
                }
            } else if c == ')' {
                let tok = Token::new(
                    TokenType::RightParen,
                    String::from_str(")"),
                    String::from_str(")"),
                    line,
                );
                let ghost prev = tokens@;
                tokens.push(tok);
                proof {
                    crate::translator::lemma_token_models_push(prev, tok);
                    lemma_scan_step(
                        full,
                        token_models(prev),
                        rest0,
                        tok@,
                        scan_spec(sq, current as int, line as nat),
                    );
                }
            } else if c == '[' {
                let tok = Token::new(
                    TokenType::LeftBracket,
                    String::from_str("["),
                    String::from_str("["),
                    line,
                );
                let ghost prev = tokens@;
                tokens.push(tok);
                proof {
                    crate::translator::lemma_token_models_push(prev, tok);
                    lemma_scan_step(
                        full,
                        token_models(prev),
                        rest0,
                        tok@,
                        scan_spec(sq, current as int, line as nat),
                    );
                }
            } else if c == ']' {
                let tok = Token::new(
                    TokenType::RightBracket,
                    String::from_str("]"),
                    String::from_str("]"),
                    line,
                );
                let ghost prev = tokens@;
                tokens.push(tok);
                proof {
                    crate::translator::lemma_token_models_push(prev, tok);
                    lemma_scan_step(
                        full,
                        token_models(prev),
                        rest0,
                        tok@,
                        scan_spec(sq, current as int, line as nat),
                    );
                }
            } else if c == '+' {
                let tok = Token::new(
                    TokenType::Plus,
                    String::from_str("+"),
                    String::from_str("+"),
                    line,
                );
                let ghost prev = tokens@;
                tokens.push(tok);
                proof {
                    crate::translator::lemma_token_models_push(prev, tok);
                    lemma_scan_step(
                        full,
                        token_models(prev),
                        rest0,
                        tok@,
                        scan_spec(sq, current as int, line as nat),
                    );
                }
            } else if c == '-' {
                let tok = Token::new(
                    TokenType::Minus,
                    String::from_str("-"),
                    String::from_str("-"),
                    line,
                );
                let ghost prev = tokens@;
                tokens.push(tok);
                proof {
                    crate::translator::lemma_token_models_push(prev, tok);
                    lemma_scan_step(
                        full,
                        token_models(prev),
                        rest0,
                        tok@,
                        scan_spec(sq, current as int, line as nat),
                    );
                }
            } else if c == '/' {
                let tok = Token::new(
                    TokenType::Slash,
                    String::from_str("/"),
                    String::from_str("/"),
                    line,
                );
                let ghost prev = tokens@;
                tokens.push(tok);
                proof {
                    crate::translator::lemma_token_models_push(prev, tok);
                    lemma_scan_step(
                        full,
                        token_models(prev),
                        rest0,
                        tok@,
                        scan_spec(sq, current as int, line as nat),
                    );
                }
            } else if c == '*' {
                let tok = Token::new(
                    TokenType::Star,
                    String::from_str("*"),
                    String::from_str("*"),
                    line,
                );
                let ghost prev = tokens@;
                tokens.push(tok);
                proof {
                    crate::translator::lemma_token_models_push(prev, tok);
                    lemma_scan_step(
                        full,
                        token_models(prev),
                        rest0,
                        tok@,
                        scan_spec(sq, current as int, line as nat),
                    );
                }
            } else if c == '{' {
                let tok = Token::new(
                    TokenType::LeftBrace,
                    String::from_str("{"),
                    String::from_str("{"),
                    line,
                );
                let ghost prev = tokens@;
                tokens.push(tok);
                proof {
                    crate::translator::lemma_token_models_push(prev, tok);
                    lemma_scan_step(
                        full,
                        token_models(prev),
                        rest0,
                        tok@,
                        scan_spec(sq, current as int, line as nat),
                    );
                }
            } else if c == '}' {
                let tok = Token::new(
                    TokenType::RightBrace,
                    String::from_str("}"),
                    String::from_str("}"),
                    line,
                );
                let ghost prev = tokens@;
                tokens.push(tok);
                proof {
                    crate::translator::lemma_token_models_push(prev, tok);
                    lemma_scan_step(
                        full,
                        token_models(prev),
                        rest0,
                        tok@,
                        scan_spec(sq, current as int, line as nat),
                    );
                }
            } else if c == '<' {
                let tok: Token;
                if Scanner::next('=', contents, &mut current) {
                    tok = Token::new(
                        TokenType::LessEqual,
                        String::from_str("<="),
                        String::from_str("<="),
                        line,
                    );
                } else {
                    tok = Token::new(
                        TokenType::Less,
                        String::from_str("<"),
                        String::from_str("<"),
                        line,
                    );
                }
                let ghost prev = tokens@;
                tokens.push(tok);
                proof {
                    crate::translator::lemma_token_models_push(prev, tok);
                    lemma_scan_step(
                        full,
                        token_models(prev),
                        rest0,
                        tok@,
                        scan_spec(sq, current as int, line as nat),
                    );
                }
            } else if c == '>' {
                let tok: Token;
                if Scanner::next('=', contents, &mut current) {
                    tok = Token::new(
                        TokenType::GreaterEqual,
                        String::from_str(">="),
                        String::from_str(">="),
                        line,
                    );
                } else {
                    tok = Token::new(
                        TokenType::Greater,
                        String::from_str(">"),
                        String::from_str(">"),
                        line,
                    );
                }
                let ghost prev = tokens@;
                tokens.push(tok);
                proof {
                    crate::translator::lemma_token_models_push(prev, tok);
                    lemma_scan_step(
                        full,
                        token_models(prev),
                        rest0,
                        tok@,
                        scan_spec(sq, current as int, line as nat),
                    );
                }
            } else if c == '=' {
                let tok: Token;
                if Scanner::next('=', contents, &mut current) {
                    tok = Token::new(
                        TokenType::EqualEqual,
                        String::from_str(""),
                        String::from_str(""),
                        line,
                    );
                } else {
                    tok = Token::new(
                        TokenType::Equal,
                        String::from_str(""),
                        String::from_str(""),
                        line,
                    );
                }
                let ghost prev = tokens@;
                tokens.push(tok);
                proof {
                    crate::translator::lemma_token_models_push(prev, tok);
                    lemma_scan_step(
                        full,
                        token_models(prev),
                        rest0,
                        tok@,
                        scan_spec(sq, current as int, line as nat),
                    );
                }
            } else if c == '\n' {
                line = line + 1;
                let tok = Token::new(
                    TokenType::EOL,
                    String::from_str("\n"),
                    String::from_str("\n"),
                    line,
                );
                let ghost prev = tokens@;
                tokens.push(tok);
                proof {
                    crate::translator::lemma_token_models_push(prev, tok);
                    lemma_scan_step(
                        full,
                        token_models(prev),
                        rest0,
                        tok@,
                        scan_spec(sq, current as int, line as nat),
                    );
                }
            } else if c == ' ' || c == '\r' || c == '\t' {
            } else if c == '"' {
                proof {
                    lemma_string_end_bounds(sq, i0 + 1);
                }
                match Scanner::string(contents, &mut current) {
                    Result::Ok(lit) => {
                        let ghost litm = lit@;
                        let tok = Token::new(TokenType::String, lit.clone(), lit, line);
                        let ghost prev = tokens@;
                        tokens.push(tok);
                        proof {
                            crate::translator::lemma_token_models_push(prev, tok);
                            lemma_scan_step(
                                full,
                                token_models(prev),
                                rest0,
                                tok@,
                                scan_spec(sq, current as int, line as nat),
                            );
                        }
                    },
                    Result::Err(kind) => {
                        proof {
                            assert(full.toks =~= token_models(tokens@));
                        }
                        return (tokens, Option::Some(ScanError { line, kind }));
                    },
                }
            } else if ('a' <= c && c <= 'z') || ('A' <= c && c <= 'Z') || c == '_' {
                proof {
                    lemma_ident_end_bounds(sq, i0 + 1);
                }
                let id = Scanner::identifier(contents, &mut current);
                let kind = Scanner::keyword(id.as_str());
                let ghost idm = id@;
                let tok = Token::new(kind, id.clone(), id, line);
                let ghost prev = tokens@;
                tokens.push(tok);
                proof {
                    crate::translator::lemma_token_models_push(prev, tok);
                    lemma_scan_step(
                        full,
                        token_models(prev),
                        rest0,
                        tok@,
                        scan_spec(sq, current as int, line as nat),
                    );
                }
            } else if '0' <= c && c <= '9' {
                proof {
                    lemma_digits_end_bounds(sq, i0 + 1);
                }
                let num = Scanner::number(contents, &mut current);
                let ghost numm = num@;
                let tok = Token::new(TokenType::Number, num.clone(), num, line);
                let ghost prev = tokens@;
                tokens.push(tok);
                proof {
                    crate::translator::lemma_token_models_push(prev, tok);
                    lemma_scan_step(
                        full,
                        token_models(prev),
                        rest0,
                        tok@,
                        scan_spec(sq, current as int, line as nat),
                    );
                }
            } else if c == '!' {
                let tok: Token;
                if Scanner::next('=', contents, &mut current) {
                    tok = Token::new(
                        TokenType::BangEqual,
                        String::from_str("!="),
                        String::from_str("!="),
                        line,
                    );
                } else {
                    tok = Token::new(
                        TokenType::Bang,
                        String::from_str("!"),
                        String::from_str("!"),
                        line,
                    );
                }
                let ghost prev = tokens@;
                tokens.push(tok);
                proof {
                    crate::translator::lemma_token_models_push(prev, tok);
                    lemma_scan_step(
                        full,
                        token_models(prev),
                        rest0,
                        tok@,
                        scan_spec(sq, current as int, line as nat),
                    );
                }
            } else {
                proof {
                    assert(full.toks =~= token_models(tokens@));
                }
                return (
                    tokens,
                    Option::Some(
                        ScanError { line, kind: ScanErrorKind::UnexpectedCharacter(c) },
                    ),
                );
            }
        }
        proof {
            assert(full.toks =~= token_models(tokens@));
        }
        (tokens, Option::None)
    }

    /// The token kind of an identifier: a keyword where the text is one.
    pub fn keyword(identifier: &str) -> (r: TokenType)
        ensures
            r == keyword_kind(identifier@),
    {
        let id = identifier.to_owned();
        if id == String::from_str("print") {
            TokenType::Print
        } else if id == String::from_str("if") {
            TokenType::If
        } else if id == String::from_str("else") {
            TokenType::Else
        } else if id == String::from_str("true") {
            TokenType::True
        } else if id == String::from_str("false") {
            TokenType::False
        } else if id == String::from_str("let") {
            TokenType::Let
        } else if id == String::from_str("for") {
            TokenType::For
        } else if id == String::from_str("in") {
            TokenType::In
        } else {
            TokenType::Identifier
        }
    }
}

} // verus!
