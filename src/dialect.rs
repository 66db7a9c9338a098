//! The dialect's surface syntax: calls `name(arg, ...)`, integers, strings,
//! booleans, arrays `[..]` and objects `{key: value, ..}`.
//!
//! Parsing runs in two stages, a tokenizer over characters and a recursive
//! descent over tokens; each has an exact specification below.

use vstd::prelude::*;

verus! {

/// A parsed dialect expression.
#[derive(Debug)]
pub enum Ast {
    Call(String, Vec<Ast>),
    Int(u64),
    String(String),
    Boolean(bool),
    Array(Vec<Ast>),
    /// Entries in order of first appearance of their key; a repeated key
    /// keeps its first place and takes the last value.
    Object(Vec<(String, Ast)>),
}

/// The mathematical value of an expression.
pub enum AstView {
    Call(Seq<char>, Seq<AstView>),
    Int(u64),
    Str(Seq<char>),
    Boolean(bool),
    Array(Seq<AstView>),
    Object(Seq<(Seq<char>, AstView)>),
}

/// The values of a sequence of expressions.
pub open spec fn views(s: Seq<Ast>) -> Seq<AstView>
    decreases s,
{
    if s.len() == 0 {
        Seq::empty()
    } else {
        views(s.drop_last()).push(s.last().view())
    }
}

/// The values of a sequence of object entries.
pub open spec fn entry_views(s: Seq<(String, Ast)>) -> Seq<(Seq<char>, AstView)>
    decreases s,
{
    if s.len() == 0 {
        Seq::empty()
    } else {
        entry_views(s.drop_last()).push((s.last().0@, s.last().1.view()))
    }
}

impl Ast {
    /// The mathematical value of this expression.
    pub open spec fn view(&self) -> AstView
        decreases self,
    {
        match self {
            Ast::Call(name, args) => AstView::Call(name@, views(args@)),
            Ast::Int(n) => AstView::Int(*n),
            Ast::String(s) => AstView::Str(s@),
            Ast::Boolean(b) => AstView::Boolean(*b),
            Ast::Array(items) => AstView::Array(views(items@)),
            Ast::Object(entries) => AstView::Object(entry_views(entries@)),
        }
    }
}

/// Why parsing failed.
#[derive(Debug, Clone, Copy, PartialEq, Eq, Structural)]
pub enum ParseError {
    /// The text does not split into tokens: an unexpected character, an
    /// unterminated string or escape, an unknown escape, or an integer
    /// beyond the 64-bit range.
    Lexical,
    /// The tokens do not form an expression.
    Syntax,
    /// A whole expression is followed by more tokens.
    TrailingInput,
}

/// A token, as the parser sees it.
pub enum Tok {
    Ident(Seq<char>),
    Int(u64),
    Bool(bool),
    Str(Seq<char>),
    Sym(char),
}

enum Token {
    Ident(String),
    Integer(u64),
    Boolean(bool),
    Str(String),
    Sym(char),
}

impl Token {
    spec fn view(&self) -> Tok {
        match self {
            Token::Ident(s) => Tok::Ident(s@),
            Token::Integer(n) => Tok::Int(*n),
            Token::Boolean(b) => Tok::Bool(*b),
            Token::Str(s) => Tok::Str(s@),
            Token::Sym(c) => Tok::Sym(*c),
        }
    }
}

spec fn token_views(s: Seq<Token>) -> Seq<Tok> {
    s.map_values(|t: Token| t.view())
}

/// An ASCII decimal digit.
pub open spec fn is_digit(c: char) -> bool {
    '0' <= c && c <= '9'
}

/// One of the punctuation symbols of the syntax.
pub open spec fn is_symbol(c: char) -> bool {
    c == '[' || c == ']' || c == '{' || c == '}' || c == '(' || c == ')' || c == ',' || c == ':'
}

/// The end of the run of positions from `i` on where `flags` holds.
pub open spec fn run_end(flags: Seq<bool>, i: int) -> int
    decreases flags.len() - i,
{
    if 0 <= i < flags.len() && flags[i] {
        run_end(flags, i + 1)
    } else {
        i
    }
}

/// The value of a string of decimal digits.
pub open spec fn digits_value(s: Seq<char>) -> nat
    decreases s.len(),
{
    if s.len() == 0 {
        0
    } else {
        digits_value(s.drop_last()) * 10 + digit_of(s.last())
    }
}

/// The value of a decimal digit character.
pub open spec fn digit_of(c: char) -> nat {
    if c == '1' {
        1
    } else if c == '2' {
        2
    } else if c == '3' {
        3
    } else if c == '4' {
        4
    } else if c == '5' {
        5
    } else if c == '6' {
        6
    } else if c == '7' {
        7
    } else if c == '8' {
        8
    } else if c == '9' {
        9
    } else {
        0
    }
}

/// The character that an escape `\c` stands for.
pub open spec fn escaped(c: char) -> Option<char> {
    if c == 'n' {
        Some('\n')
    } else if c == 't' {
        Some('\t')
    } else if c == 'r' {
        Some('\r')
    } else if c == '"' || c == '\'' || c == '\\' {
        Some(c)
    } else {
        None
    }
}

/// The rest of a string literal closed by `quote`, read from `j` on with
/// `acc` read so far: its content and the position after the closing quote.
pub open spec fn string_rest(cs: Seq<char>, quote: char, j: int, acc: Seq<char>) -> Option<
    (Seq<char>, int),
>
    decreases cs.len() - j,
{
    if j < 0 || j >= cs.len() {
        None
    } else if cs[j] == quote {
        Some((acc, j + 1))
    } else if cs[j] == '\\' {
        if j + 1 >= cs.len() {
            None
        } else {
            match escaped(cs[j + 1]) {
                Some(e) => string_rest(cs, quote, j + 2, acc.push(e)),
                None => None,
            }
        }
    } else {
        string_rest(cs, quote, j + 1, acc.push(cs[j]))
    }
}

/// A word's token: the booleans, or an identifier.
pub open spec fn word_token(w: Seq<char>) -> Tok {
    if w == "true"@ {
        Tok::Bool(true)
    } else if w == "false"@ {
        Tok::Bool(false)
    } else {
        Tok::Ident(w)
    }
}

/// `t` before the tokens of `rest`, if there are any.
pub open spec fn prepend(t: Tok, rest: Option<Seq<Tok>>) -> Option<Seq<Tok>> {
    match rest {
        Some(r) => Some(seq![t] + r),
        None => None,
    }
}

/// Digit flags of a text.
pub open spec fn digit_flags(cs: Seq<char>) -> Seq<bool> {
    Seq::new(cs.len(), |i: int| is_digit(cs[i]))
}

pub proof fn lemma_run_end(flags: Seq<bool>, i: int)
    requires
        0 <= i <= flags.len(),
    ensures
        i <= run_end(flags, i) <= flags.len(),
        forall|j: int| i <= j < run_end(flags, i) ==> flags[j],
        run_end(flags, i) < flags.len() ==> !flags[run_end(flags, i)],
        i < flags.len() && flags[i] ==> i < run_end(flags, i),
    decreases flags.len() - i,
{
    if i < flags.len() && flags[i] {
        lemma_run_end(flags, i + 1);
    }
}

pub proof fn lemma_string_rest(cs: Seq<char>, quote: char, j: int, acc: Seq<char>)
    ensures
        string_rest(cs, quote, j, acc) matches Some((_, k)) ==> j < k <= cs.len(),
    decreases cs.len() - j,
{
    if 0 <= j < cs.len() && cs[j] != quote {
        if cs[j] == '\\' {
            if j + 1 < cs.len() {
                if let Some(e) = escaped(cs[j + 1]) {
                    lemma_string_rest(cs, quote, j + 2, acc.push(e));
                }
            }
        } else {
            lemma_string_rest(cs, quote, j + 1, acc.push(cs[j]));
        }
    }
}

/// The tokens of `cs` from position `i` on; `None` when it does not split
/// into tokens. `alpha` and `ws` say which characters are alphabetic and
/// which are whitespace.
pub open spec fn lex_from(cs: Seq<char>, alpha: Seq<bool>, ws: Seq<bool>, i: int) -> Option<
    Seq<Tok>,
>
    decreases cs.len() + alpha.len() - i,
{
    if i < 0 || i >= cs.len() {
        Some(Seq::empty())
    } else {
        let c = cs[i];
        if is_digit(c) {
            let k = run_end(digit_flags(cs), i);
            proof {
                lemma_run_end(digit_flags(cs), i);
            }
            let n = digits_value(cs.subrange(i, k));
            if n > u64::MAX {
                None
            } else {
                prepend(Tok::Int(n as u64), lex_from(cs, alpha, ws, k))
            }
        } else if i < alpha.len() && alpha[i] {
            let k = run_end(alpha, i);
            proof {
                lemma_run_end(alpha, i);
            }
            prepend(word_token(cs.subrange(i, k)), lex_from(cs, alpha, ws, k))
        } else if i < ws.len() && ws[i] {
            lex_from(cs, alpha, ws, i + 1)
        } else if c == '"' || c == '\'' {
            proof {
                lemma_string_rest(cs, c, i + 1, Seq::empty());
            }
            match string_rest(cs, c, i + 1, Seq::empty()) {
                Some((s, k)) => prepend(Tok::Str(s), lex_from(cs, alpha, ws, k)),
                None => None,
            }
        } else if is_symbol(c) {
            prepend(Tok::Sym(c), lex_from(cs, alpha, ws, i + 1))
        } else {
            None
        }
    }
}

/// `v` before the values of `rest`, if there are any.
pub open spec fn cons_items(v: AstView, rest: Option<(Seq<AstView>, int)>) -> Option<
    (Seq<AstView>, int),
> {
    match rest {
        Some((vs, p)) => Some((seq![v] + vs, p)),
        None => None,
    }
}

/// An object's entries with `(k, v)` added: a present key takes the new
/// value in place, a new key goes last.
pub open spec fn upsert(es: Seq<(Seq<char>, AstView)>, k: Seq<char>, v: AstView) -> Seq<
    (Seq<char>, AstView),
> {
    if exists|i: int| 0 <= i < es.len() && es[i].0 == k {
        let i = choose|i: int| 0 <= i < es.len() && es[i].0 == k;
        es.update(i, (k, v))
    } else {
        es.push((k, v))
    }
}

/// Whether the token at `p` is the symbol `c`.
pub open spec fn sym_at(toks: Seq<Tok>, p: int, c: char) -> bool {
    0 <= p < toks.len() && toks[p] == Tok::Sym(c)
}

/// Past an optional comma at `p`.
pub open spec fn skip_comma(toks: Seq<Tok>, p: int) -> int {
    if sym_at(toks, p, ',') {
        p + 1
    } else {
        p
    }
}

/// The key of an object entry: a string or an identifier.
pub open spec fn key_of(t: Tok) -> Option<Seq<char>> {
    match t {
        Tok::Str(s) => Some(s),
        Tok::Ident(s) => Some(s),
        _ => None,
    }
}

/// One expression from token `p` on, and the position after it.
pub open spec fn parse_value(toks: Seq<Tok>, p: int) -> Option<(AstView, int)>
    decreases toks.len() - p, 0int,
{
    if p < 0 || p >= toks.len() {
        None
    } else {
        match toks[p] {
            Tok::Int(n) => Some((AstView::Int(n), p + 1)),
            Tok::Bool(b) => Some((AstView::Boolean(b), p + 1)),
            Tok::Str(s) => Some((AstView::Str(s), p + 1)),
            Tok::Ident(name) => if sym_at(toks, p + 1, '(') {
                match parse_items(toks, p + 2, ')') {
                    Some((args, q)) => Some((AstView::Call(name, args), q)),
                    None => None,
                }
            } else {
                None
            },
            Tok::Sym(c) => if c == '[' {
                match parse_items(toks, p + 1, ']') {
                    Some((items, q)) => Some((AstView::Array(items), q)),
                    None => None,
                }
            } else if c == '{' {
                match parse_entries(toks, p + 1, Seq::empty()) {
                    Some((es, q)) => Some((AstView::Object(es), q)),
                    None => None,
                }
            } else {
                None
            },
        }
    }
}

/// Comma-separated expressions from `p` on up to the closing symbol, and
/// the position after it.
pub open spec fn parse_items(toks: Seq<Tok>, p: int, close: char) -> Option<(Seq<AstView>, int)>
    decreases toks.len() - p, 1int,
{
    if p < 0 || p > toks.len() {
        None
    } else if sym_at(toks, p, close) {
        Some((Seq::empty(), p + 1))
    } else {
        match parse_value(toks, p) {
            Some((v, q)) => if q <= p || q > toks.len() {
                None
            } else {
                cons_items(v, parse_items(toks, skip_comma(toks, q), close))
            },
            None => None,
        }
    }
}

/// Object entries `key: value` from `p` on, added to `es`, up to the
/// closing brace, and the position after it.
pub open spec fn parse_entries(toks: Seq<Tok>, p: int, es: Seq<(Seq<char>, AstView)>) -> Option<
    (Seq<(Seq<char>, AstView)>, int),
>
    decreases toks.len() - p, 1int,
{
    if p < 0 || p > toks.len() {
        None
    } else if sym_at(toks, p, '}') {
        Some((es, p + 1))
    } else if p >= toks.len() {
        None
    } else {
        match key_of(toks[p]) {
            Some(k) => if sym_at(toks, p + 1, ':') {
                match parse_value(toks, p + 2) {
                    Some((v, q)) => if q <= p || q > toks.len() {
                        None
                    } else {
                        parse_entries(toks, skip_comma(toks, q), upsert(es, k, v))
                    },
                    None => None,
                }
            } else {
                None
            },
            None => None,
        }
    }
}

/// The result of parsing the text `cs`, given which of its characters are
/// alphabetic and which are whitespace.
pub open spec fn parse_spec(cs: Seq<char>, alpha: Seq<bool>, ws: Seq<bool>) -> Result<
    AstView,
    ParseError,
> {
    match lex_from(cs, alpha, ws, 0) {
        None => Err(ParseError::Lexical),
        Some(toks) => match parse_value(toks, 0) {
            None => Err(ParseError::Syntax),
            Some((v, q)) => if q < toks.len() {
                Err(ParseError::TrailingInput)
            } else {
                Ok(v)
            },
        },
    }
}

/// The value a parse result stands for.
pub open spec fn result_view(r: Result<Ast, ParseError>) -> Result<AstView, ParseError> {
    match r {
        Ok(a) => Ok(a.view()),
        Err(e) => Err(e),
    }
}

/// Whether `c` is alphabetic, as `char::is_alphabetic` decides it.
pub uninterp spec fn alphabetic(c: char) -> bool;

/// Whether `c` is whitespace, as `char::is_whitespace` decides it.
pub uninterp spec fn whitespace(c: char) -> bool;

/// Relies on char::is_alphabetic: the Unicode Alphabetic property.
#[verifier::external_body]
fn is_alphabetic(c: char) -> (r: bool)
    ensures
        r == alphabetic(c),
{
    c.is_alphabetic()
}

/// Relies on char::is_whitespace: the Unicode White_Space property.
#[verifier::external_body]
fn is_whitespace(c: char) -> (r: bool)
    ensures
        r == whitespace(c),
{
    c.is_whitespace()
}

/// The tokens before `rest`, if there are any.
pub open spec fn prefixed(p: Seq<Tok>, rest: Option<Seq<Tok>>) -> Option<Seq<Tok>> {
    match rest {
        Some(r) => Some(p + r),
        None => None,
    }
}

/// The values before those of `rest`, if there are any.
pub open spec fn prefixed_items(p: Seq<AstView>, rest: Option<(Seq<AstView>, int)>) -> Option<
    (Seq<AstView>, int),
> {
    match rest {
        Some((vs, q)) => Some((p + vs, q)),
        None => None,
    }
}

proof fn lemma_entry_views(s: Seq<(String, Ast)>)
    ensures
        entry_views(s).len() == s.len(),
        forall|i: int|
            0 <= i < s.len() ==> #[trigger] entry_views(s)[i] == (s[i].0@, s[i].1.view()),
    decreases s.len(),
{
    if s.len() > 0 {
        lemma_entry_views(s.drop_last());
    }
}

/// No key occurs twice among the entries.
pub open spec fn distinct_keys(es: Seq<(Seq<char>, AstView)>) -> bool {
    forall|i: int, j: int| 0 <= i < j < es.len() ==> es[i].0 != es[j].0
}

/// The end of the run of positions from `start` on where `flags` holds.
fn take_chars(flags: &Vec<bool>, start: usize) -> (end: usize)
    requires
        start <= flags@.len(),
    ensures
        end == run_end(flags@, start as int),
        start <= end <= flags@.len(),
{
    proof {
        lemma_run_end(flags@, start as int);
    }
    let mut end = start;
    while end < flags.len() && flags[end]
        invariant
            start <= end <= flags@.len(),
            run_end(flags@, start as int) == run_end(flags@, end as int),
        decreases flags@.len() - end,
    {
        end = end + 1;
    }
    end
}

fn text_of(cs: &Vec<char>, from: usize, to: usize) -> (r: String)
    requires
        from <= to <= cs@.len(),
    ensures
        r@ == cs@.subrange(from as int, to as int),
{
    let mut r = String::new();
    let mut j = from;
    while j < to
        invariant
            from <= j <= to <= cs@.len(),
            r@ == cs@.subrange(from as int, j as int),
        decreases to - j,
    {
        crate::text::push_char(&mut r, cs[j]);
        proof {
            assert(r@ =~= cs@.subrange(from as int, j + 1));
        }
        j = j + 1;
    }
    r
}

fn digit_value(c: char) -> (d: u64)
    ensures
        d as nat == digit_of(c),
        d <= 9,
{
    match c {
        '1' => 1,
        '2' => 2,
        '3' => 3,
        '4' => 4,
        '5' => 5,
        '6' => 6,
        '7' => 7,
        '8' => 8,
        '9' => 9,
        _ => 0,
    }
}

fn symbol(c: char) -> (r: bool)
    ensures
        r == is_symbol(c),
{
    c == '[' || c == ']' || c == '{' || c == '}' || c == '(' || c == ')' || c == ',' || c == ':'
}

fn escape(c: char) -> (r: Option<char>)
    ensures
        r == escaped(c),
{
    if c == 'n' {
        Some('\n')
    } else if c == 't' {
        Some('\t')
    } else if c == 'r' {
        Some('\r')
    } else if c == '"' || c == '\'' || c == '\\' {
        Some(c)
    } else {
        None
    }
}

/// Reads a string literal whose opening quote is at `start`.
fn string_literal(cs: &Vec<char>, start: usize) -> (r: Option<(String, usize)>)
    requires
        start < cs@.len(),
    ensures
        r is None ==> string_rest(cs@, cs@[start as int], start + 1, Seq::empty()) is None,
        r matches Some((s, k)) ==> string_rest(cs@, cs@[start as int], start + 1, Seq::empty())
            == Some((s@, k as int)),
{
    let quote = cs[start];
    let n = cs.len();
    let mut acc = String::new();
    let mut j = start + 1;
    while j < n
        invariant
            n == cs@.len(),
            start < j <= n + 1,
            quote == cs@[start as int],
            string_rest(cs@, quote, start + 1, Seq::empty()) == string_rest(cs@, quote, j as int, acc@),
        decreases n + 1 - j,
    {
        let c = cs[j];
        if c == quote {
            return Some((acc, j + 1));
        }
        if c == '\\' {
            if j + 1 >= n {
                return None;
            }
            match escape(cs[j + 1]) {
                Some(e) => {
                    crate::text::push_char(&mut acc, e);
                    j = j + 2;
                },
                None => {
                    return None;
                },
            }
        } else {
            crate::text::push_char(&mut acc, c);
            j = j + 1;
        }
    }
    None
}

/// Splits the text `cs` into tokens; `alpha` and `ws` flag its alphabetic
/// and whitespace characters.
fn tokenize(cs: &Vec<char>, alpha: &Vec<bool>, ws: &Vec<bool>) -> (r: Option<Vec<Token>>)
    requires
        alpha@.len() == cs@.len(),
        ws@.len() == cs@.len(),
    ensures
        r is None ==> lex_from(cs@, alpha@, ws@, 0) is None,
        r matches Some(t) ==> lex_from(cs@, alpha@, ws@, 0) == Some(token_views(t@)),
{
    let n = cs.len();
    let mut digits: Vec<bool> = Vec::new();
    let mut d: usize = 0;
    while d < n
        invariant
            n == cs@.len(),
            d <= n,
            digits@ == digit_flags(cs@).subrange(0, d as int),
        decreases n - d,
    {
        digits.push('0' <= cs[d] && cs[d] <= '9');
        proof {
            assert(digits@ =~= digit_flags(cs@).subrange(0, d + 1));
        }
        d = d + 1;
    }
    assert(digits@ =~= digit_flags(cs@));
    let mut toks: Vec<Token> = Vec::new();
    let mut i: usize = 0;
    while i < n
        invariant
            n == cs@.len(),
            alpha@.len() == n,
            ws@.len() == n,
            digits@ == digit_flags(cs@),
            i <= n,
            lex_from(cs@, alpha@, ws@, 0) == prefixed(token_views(toks@), lex_from(cs@, alpha@, ws@, i as int)),
        decreases n - i,
    {
        let c = cs[i];
        let ghost before = toks@;
        let ghost rest = lex_from(cs@, alpha@, ws@, i as int);
        if '0' <= c && c <= '9' {
            let k = take_chars(&digits, i);
            proof {
                lemma_run_end(digit_flags(cs@), i as int);
            }
            let mut value: u64 = 0;
            let mut overflow = false;
            let mut j = i;
            while j < k
                invariant
                    i <= j <= k <= n,
                    n == cs@.len(),
                    k as int == run_end(digit_flags(cs@), i as int),
                    forall|m: int| i <= m < k ==> #[trigger] digit_flags(cs@)[m],
                    !overflow ==> value as nat == digits_value(cs@.subrange(i as int, j as int)),
                    overflow ==> digits_value(cs@.subrange(i as int, j as int)) > u64::MAX,
                decreases k - j,
            {
                let dv = digit_value(cs[j]);
                proof {
                    assert(digit_flags(cs@)[j as int]);
                    assert(cs@.subrange(i as int, j + 1).drop_last() =~= cs@.subrange(i as int, j as int));
                }
                if !overflow {
                    if value > (u64::MAX - dv) / 10 {
                        overflow = true;
                        proof {
                            assert(value * 10 + dv > u64::MAX) by (nonlinear_arith)
                                requires value > (u64::MAX - dv) / 10, dv <= 9;
                        }
                    } else {
                        proof {
                            assert(value * 10 + dv <= u64::MAX) by (nonlinear_arith)
                                requires value <= (u64::MAX - dv) / 10, dv <= 9;
                        }
                        value = value * 10 + dv;
                    }
                }
                j = j + 1;
            }
            if overflow {
                return None;
            }
            toks.push(Token::Integer(value));
            proof {
                assert(token_views(toks@) =~= token_views(before) + seq![Tok::Int(value)]);
            }
            i = k;
        } else if alpha[i] {
            let k = take_chars(alpha, i);
            proof {
                lemma_run_end(alpha@, i as int);
            }
            let w = text_of(cs, i, k);
            let t = if crate::text::same_text(w.as_str(), "true") {
                Token::Boolean(true)
            } else if crate::text::same_text(w.as_str(), "false") {
                Token::Boolean(false)
            } else {
                Token::Ident(w)
            };
            toks.push(t);
            proof {
                assert(token_views(toks@) =~= token_views(before) + seq![word_token(cs@.subrange(i as int, k as int))]);
            }
            i = k;
        } else if ws[i] {
            i = i + 1;
        } else if c == '"' || c == '\'' {
            match string_literal(cs, i) {
                None => {
                    return None;
                },
                Some((s, k)) => {
                    proof {
                        lemma_string_rest(cs@, c, i + 1, Seq::empty());
                    }
                    toks.push(Token::Str(s));
                    proof {
                        assert(token_views(toks@) =~= token_views(before) + seq![Tok::Str(s@)]);
                    }
                    i = k;
                },
            }
        } else if symbol(c) {
            toks.push(Token::Sym(c));
            proof {
                assert(token_views(toks@) =~= token_views(before) + seq![Tok::Sym(c)]);
            }
            i = i + 1;
        } else {
            return None;
        }
        proof {
            if let Some(r) = rest {
                if let Some(r2) = lex_from(cs@, alpha@, ws@, i as int) {
                    assert(token_views(before) + r =~= token_views(toks@) + r2);
                }
            }
        }
    }
    assert(token_views(toks@) + Seq::<Tok>::empty() =~= token_views(toks@));
    Some(toks)
}

fn is_sym_at(toks: &Vec<Token>, p: usize, c: char) -> (r: bool)
    ensures
        r == sym_at(token_views(toks@), p as int, c),
        token_views(toks@).len() == toks@.len(),
        toks@.len() <= usize::MAX,
        r ==> p < toks@.len(),
{
    let n = toks.len();
    if p < n {
        match &toks[p] {
            Token::Sym(d) => *d == c,
            _ => false,
        }
    } else {
        false
    }
}

/// Parses one expression from token `p` on; returns it with the position
/// after it.
fn parse_ast(toks: &Vec<Token>, p: usize) -> (r: Option<(Ast, usize)>)
    ensures
        r is None ==> parse_value(token_views(toks@), p as int) is None,
        r matches Some((a, q)) ==> parse_value(token_views(toks@), p as int) == Some((a.view(), q as int))
            && p < q <= toks@.len(),
    decreases toks@.len() - p, 0int,
{
    let ghost tv = token_views(toks@);
    if p >= toks.len() {
        return None;
    }
    match &toks[p] {
        Token::Integer(n) => Some((Ast::Int(*n), p + 1)),
        Token::Boolean(b) => Some((Ast::Boolean(*b), p + 1)),
        Token::Str(s) => Some((Ast::String(s.clone()), p + 1)),
        Token::Ident(name) => {
            if !is_sym_at(toks, p + 1, '(') {
                return None;
            }
            match parse_list(toks, p + 2, ')') {
                Some((args, q)) => {
                    let name = name.clone();
                    Some((Ast::Call(name, args), q))
                },
                None => None,
            }
        },
        Token::Sym(c) => {
            if *c == '[' {
                match parse_list(toks, p + 1, ']') {
                    Some((items, q)) => Some((Ast::Array(items), q)),
                    None => None,
                }
            } else if *c == '{' {
                match parse_object(toks, p + 1) {
                    Some((entries, q)) => Some((Ast::Object(entries), q)),
                    None => None,
                }
            } else {
                None
            }
        },
    }
}

/// Parses comma-separated expressions from `p` on up to `close`.
fn parse_list(toks: &Vec<Token>, p: usize, close: char) -> (r: Option<(Vec<Ast>, usize)>)
    requires
        0 < p <= toks@.len(),
    ensures
        r is None ==> parse_items(token_views(toks@), p as int, close) is None,
        r matches Some((items, q)) ==> parse_items(token_views(toks@), p as int, close)
            == Some((views(items@), q as int)) && p < q <= toks@.len(),
    decreases toks@.len() - p, 1int,
{
    let ghost tv = token_views(toks@);
    let mut items: Vec<Ast> = Vec::new();
    let mut q = p;
    while !is_sym_at(toks, q, close)
        invariant
            p <= q <= toks@.len(),
            tv == token_views(toks@),
            parse_items(tv, p as int, close) == prefixed_items(views(items@), parse_items(tv, q as int, close)),
        decreases toks@.len() - q,
    {
        match parse_ast(toks, q) {
            None => {
                return None;
            },
            Some((a, q1)) => {
                let ghost old_items = items@;
                items.push(a);
                let q2 = if is_sym_at(toks, q1, ',') { q1 + 1 } else { q1 };
                proof {
                    assert(items@.drop_last() =~= old_items);
                    if let Some((vs, e)) = parse_items(tv, q2 as int, close) {
                        assert(views(old_items) + (seq![a.view()] + vs) =~= views(items@) + vs);
                    }
                }
                q = q2;
            },
        }
    }
    proof {
        assert(views(items@) + Seq::<AstView>::empty() =~= views(items@));
    }
    Some((items, q + 1))
}

/// Adds `(k, v)` to object entries with distinct keys.
fn upsert_entry(entries: &mut Vec<(String, Ast)>, k: String, v: Ast)
    requires
        distinct_keys(entry_views(old(entries)@)),
    ensures
        distinct_keys(entry_views(final(entries)@)),
        entry_views(final(entries)@) == upsert(entry_views(old(entries)@), k@, v.view()),
{
    proof {
        lemma_entry_views(entries@);
    }
    let ghost es = entry_views(entries@);
    let mut i: usize = 0;
    while i < entries.len()
        invariant
            i <= entries@.len(),
            es == entry_views(entries@),
            entries@ == old(entries)@,
            distinct_keys(es),
            es.len() == entries@.len(),
            forall|j: int| 0 <= j < i ==> es[j].0 != k@,
            forall|j: int| 0 <= j < entries@.len() ==> #[trigger] es[j] == (entries@[j].0@, entries@[j].1.view()),
        decreases entries@.len() - i,
    {
        if entries[i].0 == k {
            proof {
                assert(es[i as int].0 == k@);
            }
            entries.set(i, (k, v));
            proof {
                lemma_entry_views(entries@);
                assert(0 <= i < es.len() && es[i as int].0 == k@);
                assert(exists|c: int| 0 <= c < es.len() && es[c].0 == k@);
                let c = choose|c: int| 0 <= c < es.len() && es[c].0 == k@;
                if c != i {
                    if c < i {
                        assert(es[c].0 != es[i as int].0);
                    } else {
                        assert(es[i as int].0 != es[c].0);
                    }
                }
                assert(entry_views(entries@) =~= es.update(i as int, (k@, v.view())));
                assert(upsert(es, k@, v.view()) == es.update(c, (k@, v.view())));
            }
            return;
        }
        i = i + 1;
    }
    entries.push((k, v));
    proof {
        lemma_entry_views(entries@);
        assert(entry_views(entries@) =~= es.push((k@, v.view())));
        assert(!(exists|c: int| 0 <= c < es.len() && es[c].0 == k@));
    }
}

/// Parses object entries from `p` on up to the closing brace.
fn parse_object(toks: &Vec<Token>, p: usize) -> (r: Option<(Vec<(String, Ast)>, usize)>)
    requires
        0 < p <= toks@.len(),
    ensures
        r is None ==> parse_entries(token_views(toks@), p as int, Seq::empty()) is None,
        r matches Some((es, q)) ==> parse_entries(token_views(toks@), p as int, Seq::empty())
            == Some((entry_views(es@), q as int)) && p < q <= toks@.len(),
    decreases toks@.len() - p, 1int,
{
    let ghost tv = token_views(toks@);
    let mut entries: Vec<(String, Ast)> = Vec::new();
    let mut q = p;
    proof {
        assert(entry_views(entries@) =~= Seq::<(Seq<char>, AstView)>::empty());
    }
    while !is_sym_at(toks, q, '}')
        invariant
            p <= q <= toks@.len(),
            tv == token_views(toks@),
            distinct_keys(entry_views(entries@)),
            parse_entries(tv, p as int, Seq::empty()) == parse_entries(tv, q as int, entry_views(entries@)),
        decreases toks@.len() - q,
    {
        if q >= toks.len() {
            return None;
        }
        let key = match &toks[q] {
            Token::Str(s) => s.clone(),
            Token::Ident(s) => s.clone(),
            _ => {
                return None;
            },
        };
        if !is_sym_at(toks, q + 1, ':') {
            return None;
        }
        match parse_ast(toks, q + 2) {
            None => {
                return None;
            },
            Some((v, q1)) => {
                upsert_entry(&mut entries, key, v);
                q = if is_sym_at(toks, q1, ',') { q1 + 1 } else { q1 };
            },
        }
    }
    Some((entries, q + 1))
}

/// Parses the text `cs`, whose alphabetic and whitespace characters are
/// flagged in `alpha` and `ws`.
pub fn parse_chars(cs: &Vec<char>, alpha: &Vec<bool>, ws: &Vec<bool>) -> (r: Result<Ast, ParseError>)
    requires
        alpha@.len() == cs@.len(),
        ws@.len() == cs@.len(),
    ensures
        result_view(r) == parse_spec(cs@, alpha@, ws@),
{
    match tokenize(cs, alpha, ws) {
        None => Err(ParseError::Lexical),
        Some(toks) => match parse_ast(&toks, 0) {
            None => Err(ParseError::Syntax),
            Some((a, q)) => if q < toks.len() {
                Err(ParseError::TrailingInput)
            } else {
                Ok(a)
            },
        },
    }
}

/// The alphabetic flags of a text.
pub open spec fn alpha_flags(s: Seq<char>) -> Seq<bool> {
    s.map_values(|c: char| alphabetic(c))
}

/// The whitespace flags of a text.
pub open spec fn ws_flags(s: Seq<char>) -> Seq<bool> {
    s.map_values(|c: char| whitespace(c))
}

/// Parses a dialect expression.
pub fn parse(input: &str) -> (r: Result<Ast, ParseError>)
    ensures
        result_view(r) == parse_spec(input@, alpha_flags(input@), ws_flags(input@)),
{
    let n = input.unicode_len();
    let mut cs: Vec<char> = Vec::new();
    let mut alpha: Vec<bool> = Vec::new();
    let mut ws: Vec<bool> = Vec::new();
    let mut i: usize = 0;
    while i < n
        invariant
            n == input@.len(),
            i <= n,
            cs@ == input@.subrange(0, i as int),
            alpha@ == alpha_flags(input@).subrange(0, i as int),
            ws@ == ws_flags(input@).subrange(0, i as int),
        decreases n - i,
    {
        let c = input.get_char(i);
        cs.push(c);
        alpha.push(is_alphabetic(c));
        ws.push(is_whitespace(c));
        proof {
            assert(cs@ =~= input@.subrange(0, i + 1));
            assert(alpha@ =~= alpha_flags(input@).subrange(0, i + 1));
            assert(ws@ =~= ws_flags(input@).subrange(0, i + 1));
        }
        i = i + 1;
    }
    proof {
        assert(cs@ =~= input@);
        assert(alpha@ =~= alpha_flags(input@));
        assert(ws@ =~= ws_flags(input@));
    }
    parse_chars(&cs, &alpha, &ws)
}

} // verus!
