use vstd::prelude::*;
use crate::tokens::{Comparison, Keywords, TokenTypes, TokenView, lemma_tokens_view, tokens_view};

verus! {

pub open spec fn is_digit(c: char) -> bool {
    '0' <= c && c <= '9'
}

pub open spec fn is_ident_char(c: char) -> bool {
    ('a' <= c && c <= 'z') || ('A' <= c && c <= 'Z') || c == '_'
}

/// Characters that separate tokens and produce none.
pub open spec fn is_blank(c: char) -> bool {
    c == ' ' || c == '\r' || c == '\n' || c == '\0'
}

/// The end of the run of digits that starts at `i`.
pub open spec fn digit_run_end(s: Seq<char>, i: int) -> int
    decreases s.len() - i,
{
    if 0 <= i < s.len() && is_digit(s[i]) {
        digit_run_end(s, i + 1)
    } else {
        i
    }
}

/// The end of the run of identifier characters that starts at `i`.
pub open spec fn ident_run_end(s: Seq<char>, i: int) -> int
    decreases s.len() - i,
{
    if 0 <= i < s.len() && is_ident_char(s[i]) {
        ident_run_end(s, i + 1)
    } else {
        i
    }
}

/// The first position at or after `i` that holds `c`, or the length of `s`.
pub open spec fn find_char(s: Seq<char>, i: int, c: char) -> int
    decreases s.len() - i,
{
    if 0 <= i < s.len() && s[i] != c {
        find_char(s, i + 1, c)
    } else {
        i
    }
}

/// The decimal value of a run of digits.
pub open spec fn digits_value(d: Seq<char>) -> int
    decreases d.len(),
{
    if d.len() == 0 {
        0
    } else {
        digits_value(d.drop_last()) * 10 + (d.last() as int - '0' as int)
    }
}

/// The keyword spelled by `w`, if any.
pub open spec fn keyword_of(w: Seq<char>) -> Option<Keywords> {
    if w == "var"@ {
        Some(Keywords::Var)
    } else if w == "const"@ {
        Some(Keywords::Const)
    } else if w == "if"@ {
        Some(Keywords::If)
    } else if w == "else"@ {
        Some(Keywords::Else)
    } else if w == "while"@ {
        Some(Keywords::While)
    } else if w == "return"@ {
        Some(Keywords::Return)
    } else if w == "fn"@ {
        Some(Keywords::Function)
    } else if w == "true"@ {
        Some(Keywords::True)
    } else if w == "false"@ {
        Some(Keywords::False)
    } else if w == "class"@ {
        Some(Keywords::Class)
    } else {
        None
    }
}

/// Whether position `i` of `s` holds `c`.
pub open spec fn char_at_is(s: Seq<char>, i: int, c: char) -> bool {
    0 <= i < s.len() && s[i] == c
}

/// A lead character that pairs with a following `=`: the token for the pair
/// and the token for the lead alone.
pub open spec fn with_equals(lead: char) -> (TokenView, TokenView) {
    if lead == '=' {
        (TokenView::Compare(Comparison::Equal), TokenView::Operator('='))
    } else if lead == '<' {
        (TokenView::Compare(Comparison::LessE), TokenView::Compare(Comparison::Less))
    } else if lead == '>' {
        (TokenView::Compare(Comparison::GreaterE), TokenView::Compare(Comparison::Greater))
    } else if lead == '!' {
        (TokenView::Compare(Comparison::NotEqual), TokenView::Bang)
    } else {
        (TokenView::CompoundOperator(lead), TokenView::Operator(lead))
    }
}

pub open spec fn pairs_with_equals(c: char) -> bool {
    c == '=' || c == '<' || c == '>' || c == '!' || c == '+' || c == '-' || c == '*' || c == '/'
}

/// The token that a numeric lexeme starting at `i` yields, and where it ends.
pub open spec fn scan_number(s: Seq<char>, i: int) -> (Option<TokenView>, int) {
    let j = digit_run_end(s, i);
    if char_at_is(s, j, '.') && j + 1 < s.len() && is_digit(s[j + 1]) {
        let k = digit_run_end(s, j + 1);
        (Some(TokenView::NumbersFloat(s.subrange(i, k))), k)
    } else {
        let v = digits_value(s.subrange(i, j));
        if v <= i32::MAX {
            (Some(TokenView::NumbersInt(v as i32)), j)
        } else {
            (Some(TokenView::Illegal), j)
        }
    }
}

/// One step of the scanner at position `i`: the token produced (none for a
/// blank) and the position where scanning resumes.
pub open spec fn scan(s: Seq<char>, i: int) -> (Option<TokenView>, int) {
    let c = s[i];
    if is_blank(c) {
        (None, i + 1)
    } else if pairs_with_equals(c) {
        if char_at_is(s, i + 1, '=') {
            (Some(with_equals(c).0), i + 2)
        } else {
            (Some(with_equals(c).1), i + 1)
        }
    } else if c == '(' || c == ')' {
        (Some(TokenView::Operator(c)), i + 1)
    } else if c == '{' || c == '}' || c == '[' || c == ']' {
        (Some(TokenView::Delim(c)), i + 1)
    } else if c == ',' {
        (Some(TokenView::Comma), i + 1)
    } else if c == ':' {
        (Some(TokenView::Colon), i + 1)
    } else if c == ';' {
        (Some(TokenView::Semicolon), i + 1)
    } else if c == '#' {
        (Some(TokenView::Comment), find_char(s, i + 1, '\n'))
    } else if c == '"' {
        let k = find_char(s, i + 1, '"');
        if k < s.len() {
            (Some(TokenView::Strings(s.subrange(i + 1, k))), k + 1)
        } else {
            (Some(TokenView::Illegal), k)
        }
    } else if is_digit(c) {
        scan_number(s, i)
    } else if is_ident_char(c) {
        let j = ident_run_end(s, i);
        let w = s.subrange(i, j);
        match keyword_of(w) {
            Some(k) => (Some(TokenView::Keywords(k)), j),
            None => (Some(TokenView::Identifier(w)), j),
        }
    } else {
        (Some(TokenView::Illegal), i + 1)
    }
}

pub proof fn lemma_digit_run_end(s: Seq<char>, i: int)
    requires
        0 <= i <= s.len(),
    ensures
        i <= digit_run_end(s, i) <= s.len(),
        forall|k: int| i <= k < digit_run_end(s, i) ==> is_digit(#[trigger] s[k]),
        digit_run_end(s, i) < s.len() ==> !is_digit(s[digit_run_end(s, i)]),
    decreases s.len() - i,
{
    if i < s.len() && is_digit(s[i]) {
        lemma_digit_run_end(s, i + 1);
    }
}

pub proof fn lemma_ident_run_end(s: Seq<char>, i: int)
    requires
        0 <= i <= s.len(),
    ensures
        i <= ident_run_end(s, i) <= s.len(),
        ident_run_end(s, i) < s.len() ==> !is_ident_char(s[ident_run_end(s, i)]),
    decreases s.len() - i,
{
    if i < s.len() && is_ident_char(s[i]) {
        lemma_ident_run_end(s, i + 1);
    }
}

pub proof fn lemma_find_char(s: Seq<char>, i: int, c: char)
    requires
        0 <= i <= s.len(),
    ensures
        i <= find_char(s, i, c) <= s.len(),
        find_char(s, i, c) < s.len() ==> s[find_char(s, i, c)] == c,
        forall|k: int| i <= k < find_char(s, i, c) ==> #[trigger] s[k] != c,
    decreases s.len() - i,
{
    if i < s.len() && s[i] != c {
        lemma_find_char(s, i + 1, c);
    }
}

/// Scanning always moves forward and stays within the text.
pub proof fn lemma_scan_advances(s: Seq<char>, i: int)
    requires
        0 <= i < s.len(),
    ensures
        i < scan(s, i).1 <= s.len(),
{
    lemma_digit_run_end(s, i);
    lemma_ident_run_end(s, i);
    lemma_find_char(s, i + 1, '\n');
    lemma_find_char(s, i + 1, '"');
    let j = digit_run_end(s, i);
    if 0 <= j + 1 <= s.len() {
        lemma_digit_run_end(s, j + 1);
    }
}

/// The tokens of `s` from position `i` on, ending with `EndOfLine`.
pub open spec fn lex_from(s: Seq<char>, i: int) -> Seq<TokenView>
    decreases s.len() - i,
{
    if i < 0 || i >= s.len() {
        seq![TokenView::EndOfLine]
    } else {
        proof {
            lemma_scan_advances(s, i);
        }
        let (t, j) = scan(s, i);
        match t {
            Some(t) => seq![t] + lex_from(s, j),
            None => lex_from(s, j),
        }
    }
}

/// The tokens of a whole source text.
pub open spec fn lex(s: Seq<char>) -> Seq<TokenView> {
    lex_from(s, 0)
}

/// Every source text lexes to a finite token sequence whose last token is
/// `EndOfLine`, and no earlier token is `EndOfLine`.
pub proof fn lemma_lex_ends_with_end_of_line(s: Seq<char>, i: int)
    ensures
        lex_from(s, i).len() >= 1,
        lex_from(s, i).last() == TokenView::EndOfLine,
        forall|k: int| 0 <= k < lex_from(s, i).len() - 1 ==> lex_from(s, i)[k] != TokenView::EndOfLine,
    decreases s.len() - i,
{
    if 0 <= i < s.len() {
        lemma_scan_advances(s, i);
        let (t, j) = scan(s, i);
        lemma_lex_ends_with_end_of_line(s, j);
        lemma_scan_not_end_of_line(s, i);
        let rest = lex_from(s, j);
        match t {
            Some(t) => {
                assert forall|k: int| 0 <= k < lex_from(s, i).len() - 1 implies lex_from(s, i)[k]
                    != TokenView::EndOfLine by {
                    if k > 0 {
                        assert(lex_from(s, i)[k] == rest[k - 1]);
                    }
                }
            },
            None => {},
        }
    }
}

/// The scanner itself never yields `EndOfLine`.
pub proof fn lemma_scan_not_end_of_line(s: Seq<char>, i: int)
    requires
        0 <= i < s.len(),
    ensures
        scan(s, i).0 != Some(TokenView::EndOfLine),
{
}

pub open spec fn opt_token_view(o: Option<TokenTypes>) -> Option<TokenView> {
    match o {
        Some(t) => Some(t@),
        None => None,
    }
}

/// Whether two texts are the same character sequence.
pub fn same_text(s: &str, w: &str) -> (r: bool)
    ensures
        r == (s@ == w@),
{
    let n = s.unicode_len();
    let m = w.unicode_len();
    if n != m {
        return false;
    }
    let mut k: usize = 0;
    while k < n
        invariant
            n == s@.len(),
            m == w@.len(),
            n == m,
            k <= n,
            forall|t: int| 0 <= t < k ==> s@[t] == w@[t],
        decreases n - k,
    {
        if s.get_char(k) != w.get_char(k) {
            return false;
        }
        k += 1;
    }
    assert(s@ =~= w@);
    true
}

/// The keyword spelled by `w`, if any.
fn keyword_lookup(w: &str) -> (r: Option<Keywords>)
    ensures
        r == keyword_of(w@),
{
    if same_text(w, "var") {
        Some(Keywords::Var)
    } else if same_text(w, "const") {
        Some(Keywords::Const)
    } else if same_text(w, "if") {
        Some(Keywords::If)
    } else if same_text(w, "else") {
        Some(Keywords::Else)
    } else if same_text(w, "while") {
        Some(Keywords::While)
    } else if same_text(w, "return") {
        Some(Keywords::Return)
    } else if same_text(w, "fn") {
        Some(Keywords::Function)
    } else if same_text(w, "true") {
        Some(Keywords::True)
    } else if same_text(w, "false") {
        Some(Keywords::False)
    } else if same_text(w, "class") {
        Some(Keywords::Class)
    } else {
        None
    }
}

/// The characters of `text`, one per element.
fn chars_of(text: &str) -> (r: Vec<char>)
    ensures
        r@ == text@,
{
    let n = text.unicode_len();
    let mut out: Vec<char> = Vec::new();
    let mut k: usize = 0;
    while k < n
        invariant
            n == text@.len(),
            k <= n,
            out@ == text@.subrange(0, k as int),
        decreases n - k,
    {
        out.push(text.get_char(k));
        k += 1;
        assert(out@ =~= text@.subrange(0, k as int));
    }
    assert(out@ =~= text@);
    out
}

pub fn is_ignored(chr: char) -> (r: bool)
    ensures
        r == is_blank(chr),
{
    chr == ' ' || chr == '\r' || chr == '\n' || chr == '\0'
}

pub fn is_valid_number(chr: char) -> (r: bool)
    ensures
        r == is_digit(chr),
{
    '0' <= chr && chr <= '9'
}

pub fn is_valid_identifier(chr: char) -> (r: bool)
    ensures
        r == is_ident_char(chr),
{
    ('a' <= chr && chr <= 'z') || ('A' <= chr && chr <= 'Z') || chr == '_'
}

fn digit_end(chars: &Vec<char>, i: usize) -> (r: usize)
    requires
        i <= chars.len(),
    ensures
        r == digit_run_end(chars@, i as int),
{
    let mut k = i;
    while k < chars.len() && is_valid_number(chars[k])
        invariant
            i <= k <= chars.len(),
            digit_run_end(chars@, k as int) == digit_run_end(chars@, i as int),
        decreases chars.len() - k,
    {
        k += 1;
    }
    k
}

fn ident_end(chars: &Vec<char>, i: usize) -> (r: usize)
    requires
        i <= chars.len(),
    ensures
        r == ident_run_end(chars@, i as int),
{
    let mut k = i;
    while k < chars.len() && is_valid_identifier(chars[k])
        invariant
            i <= k <= chars.len(),
            ident_run_end(chars@, k as int) == ident_run_end(chars@, i as int),
        decreases chars.len() - k,
    {
        k += 1;
    }
    k
}

fn find_from(chars: &Vec<char>, i: usize, c: char) -> (r: usize)
    requires
        i <= chars.len(),
    ensures
        r == find_char(chars@, i as int, c),
{
    let mut k = i;
    while k < chars.len() && chars[k] != c
        invariant
            i <= k <= chars.len(),
            find_char(chars@, k as int, c) == find_char(chars@, i as int, c),
        decreases chars.len() - k,
    {
        k += 1;
    }
    k
}

/// The value of the digits in `i..j`, when it fits an `i32`.
fn number_value(chars: &Vec<char>, i: usize, j: usize) -> (r: Option<i32>)
    requires
        i <= j <= chars.len(),
        forall|k: int| i <= k < j ==> is_digit(#[trigger] chars@[k]),
    ensures
        digits_value(chars@.subrange(i as int, j as int)) <= i32::MAX ==> r == Some(
            digits_value(chars@.subrange(i as int, j as int)) as i32,
        ),
        digits_value(chars@.subrange(i as int, j as int)) > i32::MAX ==> r is None,
{
    let mut v: u64 = 0;
    let mut k = i;
    while k < j
        invariant
            i <= k <= j <= chars.len(),
            forall|t: int| i <= t < j ==> is_digit(#[trigger] chars@[t]),
            v <= 10 * (i32::MAX as u64) + 9,
            v <= i32::MAX ==> v == digits_value(chars@.subrange(i as int, k as int)),
            v > i32::MAX ==> digits_value(chars@.subrange(i as int, k as int)) > i32::MAX,
        decreases j - k,
    {
        let ghost before = chars@.subrange(i as int, k as int);
        assert(chars@.subrange(i as int, k + 1).drop_last() =~= before);
        assert(is_digit(chars@[k as int]));
        let d = (chars[k] as u32 - '0' as u32) as u64;
        if v <= i32::MAX as u64 {
            v = v * 10 + d;
        } else {
            assert(digits_value(before) >= 0) by {
                lemma_digits_value_nonneg(before);
            }
        }
        k += 1;
    }
    if v <= i32::MAX as u64 {
        Some(v as i32)
    } else {
        None
    }
}

pub proof fn lemma_digits_value_nonneg(d: Seq<char>)
    requires
        forall|k: int| 0 <= k < d.len() ==> is_digit(#[trigger] d[k]),
    ensures
        digits_value(d) >= 0,
    decreases d.len(),
{
    if d.len() > 0 {
        assert(is_digit(d[d.len() - 1]));
        lemma_digits_value_nonneg(d.drop_last());
    }
}

/// The text of positions `i..j`, as an owned string.
fn slice_text(text: &str, i: usize, j: usize) -> (r: String)
    requires
        i <= j <= text@.len(),
    ensures
        r@ == text@.subrange(i as int, j as int),
{
    String::from_str(text.substring_char(i, j))
}

/// The token for a lead character that pairs with a following `=`.
fn equals_token(lead: char, paired: bool) -> (r: TokenTypes)
    requires
        pairs_with_equals(lead),
    ensures
        r@ == (if paired { with_equals(lead).0 } else { with_equals(lead).1 }),
{
    if lead == '=' {
        if paired { TokenTypes::Compare(Comparison::Equal) } else { TokenTypes::Operator('=') }
    } else if lead == '<' {
        if paired { TokenTypes::Compare(Comparison::LessE) } else { TokenTypes::Compare(Comparison::Less) }
    } else if lead == '>' {
        if paired {
            TokenTypes::Compare(Comparison::GreaterE)
        } else {
            TokenTypes::Compare(Comparison::Greater)
        }
    } else if lead == '!' {
        if paired { TokenTypes::Compare(Comparison::NotEqual) } else { TokenTypes::Bang }
    } else {
        if paired { TokenTypes::CompoundOperator(lead) } else { TokenTypes::Operator(lead) }
    }
}

/// One scanner step at `i`: the token (none for a blank) and the resume position.
fn scan_token(text: &str, chars: &Vec<char>, i: usize) -> (r: (Option<TokenTypes>, usize))
    requires
        chars@ == text@,
        i < chars.len(),
    ensures
        opt_token_view(r.0) == scan(chars@, i as int).0,
        r.1 == scan(chars@, i as int).1,
{
    let ghost s = chars@;
    let c = chars[i];
    let n = chars.len();
    if is_ignored(c) {
        (None, i + 1)
    } else if c == '=' || c == '<' || c == '>' || c == '!' || c == '+' || c == '-' || c == '*'
        || c == '/' {
        if i + 1 < n && chars[i + 1] == '=' {
            (Some(equals_token(c, true)), i + 2)
        } else {
            (Some(equals_token(c, false)), i + 1)
        }
    } else if c == '(' || c == ')' {
        (Some(TokenTypes::Operator(c)), i + 1)
    } else if c == '{' || c == '}' || c == '[' || c == ']' {
        (Some(TokenTypes::Delim(c)), i + 1)
    } else if c == ',' {
        (Some(TokenTypes::Comma), i + 1)
    } else if c == ':' {
        (Some(TokenTypes::Colon), i + 1)
    } else if c == ';' {
        (Some(TokenTypes::Semicolon), i + 1)
    } else if c == '#' {
        (Some(TokenTypes::Comment), find_from(chars, i + 1, '\n'))
    } else if c == '"' {
        let k = find_from(chars, i + 1, '"');
        proof {
            lemma_find_char(s, i + 1, '"');
        }
        if k < n {
            (Some(TokenTypes::Strings(slice_text(text, i + 1, k))), k + 1)
        } else {
            (Some(TokenTypes::Illegal), k)
        }
    } else if is_valid_number(c) {
        let j = digit_end(chars, i);
        proof {
            lemma_digit_run_end(s, i as int);
        }
        if j < n && chars[j] == '.' && j + 1 < n && is_valid_number(chars[j + 1]) {
            let k = digit_end(chars, j + 1);
            proof {
                lemma_digit_run_end(s, j + 1);
            }
            (Some(TokenTypes::NumbersFloat(slice_text(text, i, k))), k)
        } else {
            match number_value(chars, i, j) {
                Some(v) => (Some(TokenTypes::NumbersInt(v)), j),
                None => (Some(TokenTypes::Illegal), j),
            }
        }
    } else if is_valid_identifier(c) {
        let j = ident_end(chars, i);
        proof {
            lemma_ident_run_end(s, i as int);
        }
        let w = slice_text(text, i, j);
        match keyword_lookup(w.as_str()) {
            Some(k) => (Some(TokenTypes::Keywords(k)), j),
            None => (Some(TokenTypes::Identifier(w)), j),
        }
    } else {
        (Some(TokenTypes::Illegal), i + 1)
    }
}

fn read_token(text: &str, chars: &Vec<char>) -> (r: Vec<TokenTypes>)
    requires
        chars@ == text@,
    ensures
        tokens_view(r@) == lex(text@),
{
    let ghost s = chars@;
    let mut out: Vec<TokenTypes> = Vec::new();
    let mut i: usize = 0;
    proof {
        lemma_tokens_view(out@);
    }
    assert(tokens_view(out@) =~= Seq::<TokenView>::empty());
    while i < chars.len()
        invariant
            s == chars@,
            chars@ == text@,
            i <= chars.len(),
            tokens_view(out@) + lex_from(s, i as int) == lex(s),
        decreases chars.len() - i,
    {
        let (t, j) = scan_token(text, chars, i);
        proof {
            lemma_scan_advances(s, i as int);
        }
        let ghost before = tokens_view(out@);
        match t {
            Some(t) => {
                let ghost tv = t@;
                let ghost prev = out@;
                out.push(t);
                proof {
                    lemma_tokens_view(prev);
                    lemma_tokens_view(out@);
                }
                assert(tokens_view(out@) =~= before.push(tv));
                assert(before + lex_from(s, i as int) =~= tokens_view(out@) + lex_from(s, j as int));
            },
            None => {},
        }
        i = j;
    }
    let ghost before = tokens_view(out@);
    let ghost prev = out@;
    out.push(TokenTypes::EndOfLine);
    proof {
        lemma_tokens_view(prev);
        lemma_tokens_view(out@);
    }
    assert(tokens_view(out@) =~= before.push(TokenView::EndOfLine));
    assert(tokens_view(out@) =~= lex(s));
    out
}

/// Splits a source text into tokens. The result is exactly `lex` of the
/// text; in particular it is never empty and ends with `EndOfLine`.
pub fn get_keywords(read_text: &String) -> (r: Vec<TokenTypes>)
    ensures
        tokens_view(r@) == lex(read_text@),
        r@.len() >= 1,
        r@.last()@ == TokenView::EndOfLine,
{
    let text = read_text.as_str();
    let chars = chars_of(text);
    let r = read_token(text, &chars);
    proof {
        lemma_lex_ends_with_end_of_line(read_text@, 0);
        lemma_tokens_view(r@);
        assert(tokens_view(r@).len() == r@.len());
        assert(tokens_view(r@)[r@.len() - 1] == r@.last()@);
    }
    r
}

} // verus!
