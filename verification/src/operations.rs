//! The image-operations script: a sequence of statements such as
//! `blur 10; fliph; resize 100 200`, each an operation name followed by its
//! arguments. Statements may be separated by `;`; whitespace separates words.

use vstd::prelude::*;
use crate::numeric::{all_digits, digit_prefix_len, is_digit, is_float_text, spec_parse_signed, spec_parse_unsigned};
use crate::text::{chars_equal, copy_chars, string_of};

verus! {

// ---------------------------------------------------------------------------
// Tokens
// ---------------------------------------------------------------------------

pub open spec fn is_space(c: char) -> bool {
    c == ' ' || c == '\t' || c == '\n' || c == '\r'
}

pub open spec fn is_word_char(c: char) -> bool {
    !is_space(c) && c != ';'
}

/// A token of a script, as a mathematical value.
pub enum TokenView {
    Semi,
    Word(Seq<char>),
}

/// A token of a script: a statement separator `;` or a word.
pub enum Token {
    Semi,
    Word(Vec<char>),
}

impl View for Token {
    type V = TokenView;

    open spec fn view(&self) -> TokenView {
        match self {
            Token::Semi => TokenView::Semi,
            Token::Word(w) => TokenView::Word(w@),
        }
    }
}

pub open spec fn tokens_view(ts: Seq<Token>) -> Seq<TokenView> {
    ts.map_values(|t: Token| t@)
}

/// The length of the word that starts `s`.
pub open spec fn word_len(s: Seq<char>) -> nat
    decreases s.len(),
{
    if s.len() > 0 && is_word_char(s[0]) {
        1 + word_len(s.drop_first())
    } else {
        0
    }
}

pub proof fn lemma_word_len(s: Seq<char>)
    ensures
        word_len(s) <= s.len(),
        s.len() > 0 && is_word_char(s[0]) ==> word_len(s) >= 1,
        forall|i: int| 0 <= i < word_len(s) ==> is_word_char(#[trigger] s[i]),
        word_len(s) < s.len() ==> !is_word_char(s[word_len(s) as int]),
    decreases s.len(),
{
    if s.len() > 0 && is_word_char(s[0]) {
        lemma_word_len(s.drop_first());
        assert forall|i: int| 0 <= i < word_len(s) implies is_word_char(#[trigger] s[i]) by {
            if i > 0 {
                assert(s[i] == s.drop_first()[i - 1]);
            }
        }
        if word_len(s) < s.len() {
            assert(s[word_len(s) as int] == s.drop_first()[word_len(s.drop_first()) as int]);
        }
    }
}

/// The tokens of a script: whitespace separates words, `;` is a token of its
/// own, and a word is a maximal run of other characters.
pub open spec fn tokens(s: Seq<char>) -> Seq<TokenView>
    decreases s.len(),
{
    if s.len() == 0 {
        seq![]
    } else if is_space(s[0]) {
        tokens(s.drop_first())
    } else if s[0] == ';' {
        seq![TokenView::Semi] + tokens(s.drop_first())
    } else {
        proof {
            lemma_word_len(s);
        }
        seq![TokenView::Word(s.take(word_len(s) as int))] + tokens(s.skip(word_len(s) as int))
    }
}

/// Splits a script into its tokens.
pub fn tokenize(cs: &Vec<char>) -> (ts: Vec<Token>)
    ensures
        tokens_view(ts@) == tokens(cs@),
{
    let mut ts: Vec<Token> = Vec::new();
    let mut i: usize = 0;
    assert(cs@.skip(0) == cs@);
    while i < cs.len()
        invariant
            i <= cs.len(),
            tokens_view(ts@) + tokens(cs@.skip(i as int)) == tokens(cs@),
        decreases cs.len() - i,
    {
        let ghost rest = cs@.skip(i as int);
        let c = cs[i];
        assert(rest[0] == c);
        if c == ' ' || c == '\t' || c == '\n' || c == '\r' {
            assert(rest.drop_first() == cs@.skip(i + 1));
            i += 1;
        } else if c == ';' {
            assert(rest.drop_first() == cs@.skip(i + 1));
            ts.push(Token::Semi);
            assert(tokens_view(ts@) == tokens_view(ts@.drop_last()).push(TokenView::Semi));
            i += 1;
        } else {
            let mut j = i;
            let mut w: Vec<char> = Vec::new();
            while j < cs.len() && cs[j] != ';' && cs[j] != ' ' && cs[j] != '\t' && cs[j] != '\n'
                && cs[j] != '\r'
                invariant
                    i <= j <= cs.len(),
                    rest == cs@.skip(i as int),
                    w@ == cs@.subrange(i as int, j as int),
                    word_len(rest) == (j - i) + word_len(cs@.skip(j as int)),
                decreases cs.len() - j,
            {
                assert(cs@.skip(j as int).drop_first() == cs@.skip(j + 1));
                w.push(cs[j]);
                assert(w@ == cs@.subrange(i as int, j + 1));
                j += 1;
            }
            assert(word_len(cs@.skip(j as int)) == 0);
            assert(rest.take(word_len(rest) as int) == w@);
            assert(rest.skip(word_len(rest) as int) == cs@.skip(j as int));
            let ghost wv = w@;
            ts.push(Token::Word(w));
            assert(tokens_view(ts@) == tokens_view(ts@.drop_last()).push(TokenView::Word(wv)));
            i = j;
        }
    }
    assert(cs@.skip(cs.len() as int) == Seq::<char>::empty());
    ts
}


// ---------------------------------------------------------------------------
// Statements
// ---------------------------------------------------------------------------

/// The operations that a script can name.
#[derive(Clone, Copy, Debug, PartialEq, Eq, Structural)]
pub enum ScriptOp {
    Blur,
    Brighten,
    Contrast,
    Filter3x3,
    FlipHorizontal,
    FlipVertical,
    GrayScale,
    HueRotate,
    Invert,
    Resize,
    Rotate90,
    Rotate180,
    Rotate270,
    Unsharpen,
}

/// The word by which a script names each operation.
pub open spec fn script_op_name(op: ScriptOp) -> Seq<char> {
    match op {
        ScriptOp::Blur => seq!['b', 'l', 'u', 'r'],
        ScriptOp::Brighten => seq!['b', 'r', 'i', 'g', 'h', 't', 'e', 'n'],
        ScriptOp::Contrast => seq!['c', 'o', 'n', 't', 'r', 'a', 's', 't'],
        ScriptOp::Filter3x3 => seq!['f', 'i', 'l', 't', 'e', 'r', '3', 'x', '3'],
        ScriptOp::FlipHorizontal => seq!['f', 'l', 'i', 'p', 'h'],
        ScriptOp::FlipVertical => seq!['f', 'l', 'i', 'p', 'v'],
        ScriptOp::GrayScale => seq!['g', 'r', 'a', 'y', 's', 'c', 'a', 'l', 'e'],
        ScriptOp::HueRotate => seq!['h', 'u', 'e', 'r', 'o', 't', 'a', 't', 'e'],
        ScriptOp::Invert => seq!['i', 'n', 'v', 'e', 'r', 't'],
        ScriptOp::Resize => seq!['r', 'e', 's', 'i', 'z', 'e'],
        ScriptOp::Rotate90 => seq!['r', 'o', 't', 'a', 't', 'e', '9', '0'],
        ScriptOp::Rotate180 => seq!['r', 'o', 't', 'a', 't', 'e', '1', '8', '0'],
        ScriptOp::Rotate270 => seq!['r', 'o', 't', 'a', 't', 'e', '2', '7', '0'],
        ScriptOp::Unsharpen => seq!['u', 'n', 's', 'h', 'a', 'r', 'p', 'e', 'n'],
    }
}

/// The operation a word names, if any.
pub open spec fn op_of_name(w: Seq<char>) -> Option<ScriptOp> {
    if w == script_op_name(ScriptOp::Blur) {
        Some(ScriptOp::Blur)
    } else if w == script_op_name(ScriptOp::Brighten) {
        Some(ScriptOp::Brighten)
    } else if w == script_op_name(ScriptOp::Contrast) {
        Some(ScriptOp::Contrast)
    } else if w == script_op_name(ScriptOp::Filter3x3) {
        Some(ScriptOp::Filter3x3)
    } else if w == script_op_name(ScriptOp::FlipHorizontal) {
        Some(ScriptOp::FlipHorizontal)
    } else if w == script_op_name(ScriptOp::FlipVertical) {
        Some(ScriptOp::FlipVertical)
    } else if w == script_op_name(ScriptOp::GrayScale) {
        Some(ScriptOp::GrayScale)
    } else if w == script_op_name(ScriptOp::HueRotate) {
        Some(ScriptOp::HueRotate)
    } else if w == script_op_name(ScriptOp::Invert) {
        Some(ScriptOp::Invert)
    } else if w == script_op_name(ScriptOp::Resize) {
        Some(ScriptOp::Resize)
    } else if w == script_op_name(ScriptOp::Rotate90) {
        Some(ScriptOp::Rotate90)
    } else if w == script_op_name(ScriptOp::Rotate180) {
        Some(ScriptOp::Rotate180)
    } else if w == script_op_name(ScriptOp::Rotate270) {
        Some(ScriptOp::Rotate270)
    } else if w == script_op_name(ScriptOp::Unsharpen) {
        Some(ScriptOp::Unsharpen)
    } else {
        None
    }
}

/// The lexical kinds of operation arguments.
#[derive(Clone, Copy, Debug, PartialEq, Eq, Structural)]
pub enum ArgKind {
    /// `-`? digits, then optionally `.` and digits: a 32-bit float.
    Fp,
    /// `-`? digits: a 32-bit signed integer.
    Int,
    /// digits: a 32-bit unsigned integer.
    Uint,
}

pub open spec fn is_script_uint(w: Seq<char>) -> bool {
    w.len() > 0 && all_digits(w)
}

pub open spec fn is_script_int(w: Seq<char>) -> bool {
    let b = if w.len() > 0 && w[0] == '-' { w.drop_first() } else { w };
    b.len() > 0 && all_digits(b)
}

pub open spec fn is_script_fp(w: Seq<char>) -> bool {
    let b = if w.len() > 0 && w[0] == '-' { w.drop_first() } else { w };
    let i = digit_prefix_len(b);
    let rest = b.skip(i as int);
    i >= 1 && (rest.len() == 0 || (rest[0] == '.' && rest.len() >= 2 && all_digits(
        rest.drop_first(),
    )))
}

pub open spec fn lexeme_ok(k: ArgKind, w: Seq<char>) -> bool {
    match k {
        ArgKind::Fp => is_script_fp(w),
        ArgKind::Int => is_script_int(w),
        ArgKind::Uint => is_script_uint(w),
    }
}

/// The arguments each operation takes, in order (`filter3x3` in its form
/// without `|` separators).
pub open spec fn op_signature(op: ScriptOp) -> Seq<ArgKind> {
    match op {
        ScriptOp::Blur => seq![ArgKind::Fp],
        ScriptOp::Brighten => seq![ArgKind::Int],
        ScriptOp::Contrast => seq![ArgKind::Fp],
        ScriptOp::Filter3x3 => Seq::new(9, |i: int| ArgKind::Fp),
        ScriptOp::HueRotate => seq![ArgKind::Int],
        ScriptOp::Resize => seq![ArgKind::Uint, ArgKind::Uint],
        ScriptOp::Unsharpen => seq![ArgKind::Fp, ArgKind::Int],
        _ => seq![],
    }
}

pub open spec fn word_at(ts: Seq<TokenView>, i: int) -> Option<Seq<char>> {
    if 0 <= i < ts.len() {
        match ts[i] {
            TokenView::Word(w) => Some(w),
            TokenView::Semi => None,
        }
    } else {
        None
    }
}

pub open spec fn word_of(o: Option<Seq<char>>) -> Seq<char> {
    match o {
        Some(w) => w,
        None => seq![],
    }
}

pub open spec fn is_bar(ts: Seq<TokenView>, i: int) -> bool {
    word_at(ts, i) == Some(seq!['|'])
}

/// Argument positions (relative to the operation's name) of the plain form.
pub open spec fn plain_positions(n: nat) -> Seq<int> {
    Seq::new(n, |k: int| k + 1)
}

/// Argument positions of `filter3x3 a b c | d e f | g h i`.
pub open spec fn separated_positions() -> Seq<int> {
    seq![1, 2, 3, 5, 6, 7, 9, 10, 11]
}

pub open spec fn args_ok(ts: Seq<TokenView>, pos: Seq<int>, kinds: Seq<ArgKind>) -> bool {
    &&& pos.len() == kinds.len()
    &&& forall|k: int|
        0 <= k < pos.len() ==> (#[trigger] word_at(ts, pos[k]) matches Some(w) && lexeme_ok(
            kinds[k],
            w,
        ))
}

pub open spec fn words_at(ts: Seq<TokenView>, pos: Seq<int>) -> Seq<Seq<char>> {
    pos.map_values(|i: int| word_of(word_at(ts, i)))
}

/// A statement of a script, as a mathematical value.
pub struct StatementView {
    pub op: ScriptOp,
    pub args: Seq<Seq<char>>,
}

/// A statement of a script: an operation and the words of its arguments.
/// Each argument word has the lexical shape its position needs.
pub struct ScriptStatement {
    op: ScriptOp,
    args: Vec<Vec<char>>,
}

/// A statement is well formed when its arguments fit its operation.
pub open spec fn statement_well_formed(st: StatementView) -> bool {
    &&& st.args.len() == op_signature(st.op).len()
    &&& forall|k: int|
        0 <= k < st.args.len() ==> lexeme_ok(op_signature(st.op)[k], #[trigger] st.args[k])
}

impl View for ScriptStatement {
    type V = StatementView;

    closed spec fn view(&self) -> StatementView {
        StatementView { op: self.op, args: self.args@.map_values(|a: Vec<char>| a@) }
    }
}

impl ScriptStatement {
    #[verifier::type_invariant]
    closed spec fn well_formed(self) -> bool {
        statement_well_formed(self@)
    }

    /// Every statement is well formed.
    pub fn check_well_formed(&self)
        ensures
            statement_well_formed(self@),
    {
        proof {
            use_type_invariant(self);
        }
    }

    /// The operation of the statement.
    pub fn op(&self) -> (r: ScriptOp)
        ensures
            r == self@.op,
    {
        self.op
    }

    /// The number of arguments of the statement.
    pub fn arg_count(&self) -> (r: usize)
        ensures
            r == self@.args.len(),
    {
        self.args.len()
    }

    /// The word of argument `i`.
    pub fn arg(&self, i: usize) -> (r: &Vec<char>)
        requires
            i < self@.args.len(),
        ensures
            r@ == self@.args[i as int],
    {
        &self.args[i]
    }
}

pub open spec fn statements_view(ss: Seq<ScriptStatement>) -> Seq<StatementView> {
    ss.map_values(|s: ScriptStatement| s@)
}

/// Whether the statement at the front of `ts` uses the `|`-separated form.
pub open spec fn uses_separators(ts: Seq<TokenView>, op: ScriptOp) -> bool {
    op == ScriptOp::Filter3x3 && is_bar(ts, 4) && is_bar(ts, 8)
}

pub open spec fn arg_positions(ts: Seq<TokenView>, op: ScriptOp) -> Seq<int> {
    if uses_separators(ts, op) {
        separated_positions()
    } else {
        plain_positions(op_signature(op).len())
    }
}

pub open spec fn consumed(ts: Seq<TokenView>, op: ScriptOp) -> nat {
    if uses_separators(ts, op) {
        12
    } else {
        op_signature(op).len() + 1
    }
}

/// The statement at the front of `ts` and the number of tokens it spans.
pub open spec fn parse_statement(ts: Seq<TokenView>) -> Option<(StatementView, nat)> {
    match word_at(ts, 0) {
        None => None,
        Some(name) => match op_of_name(name) {
            None => None,
            Some(op) => if args_ok(ts, arg_positions(ts, op), op_signature(op)) {
                Some(
                    (
                        StatementView { op, args: words_at(ts, arg_positions(ts, op)) },
                        consumed(ts, op),
                    ),
                )
            } else {
                None
            },
        },
    }
}

pub proof fn lemma_parse_statement_len(ts: Seq<TokenView>)
    ensures
        parse_statement(ts) matches Some((st, n)) ==> 1 <= n <= ts.len(),
{
    if let Some((st, n)) = parse_statement(ts) {
        let op = st.op;
        let pos = arg_positions(ts, op);
        if uses_separators(ts, op) {
            assert(pos[8] == 11);
            assert(word_at(ts, pos[8]) is Some);
        } else {
            let k = op_signature(op).len();
            if k > 0 {
                assert(pos[k - 1] == k);
                assert(word_at(ts, pos[k - 1]) is Some);
            } else {
                assert(word_at(ts, 0) is Some);
            }
        }
    }
}

/// Skips one `;` at the front of `ts`, if there is one.
pub open spec fn skip_separator(ts: Seq<TokenView>) -> Seq<TokenView> {
    if ts.len() > 0 && ts[0] == TokenView::Semi {
        ts.drop_first()
    } else {
        ts
    }
}

/// The statements of a token sequence: statements one after the other, each
/// optionally followed by one `;`.
pub open spec fn parse_program(ts: Seq<TokenView>) -> Option<Seq<StatementView>>
    decreases ts.len(),
{
    if ts.len() == 0 {
        Some(seq![])
    } else {
        match parse_statement(ts) {
            None => None,
            Some((st, n)) => {
                proof {
                    lemma_parse_statement_len(ts);
                }
                match parse_program(skip_separator(ts.skip(n as int))) {
                    None => None,
                    Some(rest) => Some(seq![st] + rest),
                }
            },
        }
    }
}


fn script_op_name_exec(op: ScriptOp) -> (r: Vec<char>)
    ensures
        r@ == script_op_name(op),
{
    match op {
        ScriptOp::Blur => vec!['b', 'l', 'u', 'r'],
        ScriptOp::Brighten => vec!['b', 'r', 'i', 'g', 'h', 't', 'e', 'n'],
        ScriptOp::Contrast => vec!['c', 'o', 'n', 't', 'r', 'a', 's', 't'],
        ScriptOp::Filter3x3 => vec!['f', 'i', 'l', 't', 'e', 'r', '3', 'x', '3'],
        ScriptOp::FlipHorizontal => vec!['f', 'l', 'i', 'p', 'h'],
        ScriptOp::FlipVertical => vec!['f', 'l', 'i', 'p', 'v'],
        ScriptOp::GrayScale => vec!['g', 'r', 'a', 'y', 's', 'c', 'a', 'l', 'e'],
        ScriptOp::HueRotate => vec!['h', 'u', 'e', 'r', 'o', 't', 'a', 't', 'e'],
        ScriptOp::Invert => vec!['i', 'n', 'v', 'e', 'r', 't'],
        ScriptOp::Resize => vec!['r', 'e', 's', 'i', 'z', 'e'],
        ScriptOp::Rotate90 => vec!['r', 'o', 't', 'a', 't', 'e', '9', '0'],
        ScriptOp::Rotate180 => vec!['r', 'o', 't', 'a', 't', 'e', '1', '8', '0'],
        ScriptOp::Rotate270 => vec!['r', 'o', 't', 'a', 't', 'e', '2', '7', '0'],
        ScriptOp::Unsharpen => vec!['u', 'n', 's', 'h', 'a', 'r', 'p', 'e', 'n'],
    }
}


fn op_from_word(w: &Vec<char>) -> (r: Option<ScriptOp>)
    ensures
        r == op_of_name(w@),
{
    if chars_equal(w, &script_op_name_exec(ScriptOp::Blur)) {
        Some(ScriptOp::Blur)
    } else if chars_equal(w, &script_op_name_exec(ScriptOp::Brighten)) {
        Some(ScriptOp::Brighten)
    } else if chars_equal(w, &script_op_name_exec(ScriptOp::Contrast)) {
        Some(ScriptOp::Contrast)
    } else if chars_equal(w, &script_op_name_exec(ScriptOp::Filter3x3)) {
        Some(ScriptOp::Filter3x3)
    } else if chars_equal(w, &script_op_name_exec(ScriptOp::FlipHorizontal)) {
        Some(ScriptOp::FlipHorizontal)
    } else if chars_equal(w, &script_op_name_exec(ScriptOp::FlipVertical)) {
        Some(ScriptOp::FlipVertical)
    } else if chars_equal(w, &script_op_name_exec(ScriptOp::GrayScale)) {
        Some(ScriptOp::GrayScale)
    } else if chars_equal(w, &script_op_name_exec(ScriptOp::HueRotate)) {
        Some(ScriptOp::HueRotate)
    } else if chars_equal(w, &script_op_name_exec(ScriptOp::Invert)) {
        Some(ScriptOp::Invert)
    } else if chars_equal(w, &script_op_name_exec(ScriptOp::Resize)) {
        Some(ScriptOp::Resize)
    } else if chars_equal(w, &script_op_name_exec(ScriptOp::Rotate90)) {
        Some(ScriptOp::Rotate90)
    } else if chars_equal(w, &script_op_name_exec(ScriptOp::Rotate180)) {
        Some(ScriptOp::Rotate180)
    } else if chars_equal(w, &script_op_name_exec(ScriptOp::Rotate270)) {
        Some(ScriptOp::Rotate270)
    } else if chars_equal(w, &script_op_name_exec(ScriptOp::Unsharpen)) {
        Some(ScriptOp::Unsharpen)
    } else {
        None
    }
}

/// Whether a word has the lexical shape that an argument of kind `k` needs.
pub fn lexeme_matches(k: ArgKind, w: &Vec<char>) -> (r: bool)
    ensures
        r == lexeme_ok(k, w@),
{
    let start: usize = if w.len() > 0 && w[0] == '-' { 1 } else { 0 };
    let ghost b = if w@.len() > 0 && w@[0] == '-' { w@.drop_first() } else { w@ };
    assert(b == w@.skip(start as int));
    assert(w@.skip(0) == w@);
    match k {
        ArgKind::Uint => w.len() > 0 && crate::numeric::all_digits_from(w, 0),
        ArgKind::Int => start < w.len() && crate::numeric::all_digits_from(w, start),
        ArgKind::Fp => {
            let i = crate::numeric::digit_run_len(w, start);
            let p = start + i;
            assert(b.skip(i as int) == w@.skip(p as int));
            assert(p < w.len() ==> w@.skip(p as int).drop_first() == w@.skip(p + 1));
            i >= 1 && (p == w.len() || (w[p] == '.' && w.len() - p >= 2
                && crate::numeric::all_digits_from(w, p + 1)))
        },
    }
}

proof fn lemma_word_at_skip(tv: Seq<TokenView>, pos: int, k: int)
    requires
        0 <= pos <= tv.len(),
        0 <= k,
    ensures
        word_at(tv.skip(pos), k) == word_at(tv, pos + k),
{
}

fn word_at_exec(ts: &Vec<Token>, i: usize) -> (r: Option<&Vec<char>>)
    ensures
        r matches Some(w) ==> word_at(tokens_view(ts@), i as int) == Some(w@),
        r is None ==> word_at(tokens_view(ts@), i as int) is None,
{
    if i < ts.len() {
        match &ts[i] {
            Token::Word(w) => Some(w),
            Token::Semi => None,
        }
    } else {
        None
    }
}

fn is_bar_at(ts: &Vec<Token>, i: usize) -> (r: bool)
    ensures
        r == (word_at(tokens_view(ts@), i as int) == Some(seq!['|'])),
{
    match word_at_exec(ts, i) {
        Some(w) => {
            let r = w.len() == 1 && w[0] == '|';
            assert(r ==> w@ =~= seq!['|']);
            r
        },
        None => false,
    }
}

/// The positions and kinds of the arguments of `op`.
fn layout(op: ScriptOp, separated: bool) -> (r: (Vec<usize>, Vec<ArgKind>))
    requires
        separated ==> op == ScriptOp::Filter3x3,
    ensures
        r.0@.len() == (if separated {
            separated_positions()
        } else {
            plain_positions(op_signature(op).len())
        }).len(),
        forall|i: int|
            0 <= i < r.0@.len() ==> r.0@[i] as int == (if separated {
                separated_positions()
            } else {
                plain_positions(op_signature(op).len())
            })[i],
        r.1@ == op_signature(op),
{
    let kinds: Vec<ArgKind> = match op {
        ScriptOp::Blur => vec![ArgKind::Fp],
        ScriptOp::Brighten => vec![ArgKind::Int],
        ScriptOp::Contrast => vec![ArgKind::Fp],
        ScriptOp::Filter3x3 => vec![
            ArgKind::Fp,
            ArgKind::Fp,
            ArgKind::Fp,
            ArgKind::Fp,
            ArgKind::Fp,
            ArgKind::Fp,
            ArgKind::Fp,
            ArgKind::Fp,
            ArgKind::Fp,
        ],
        ScriptOp::HueRotate => vec![ArgKind::Int],
        ScriptOp::Resize => vec![ArgKind::Uint, ArgKind::Uint],
        ScriptOp::Unsharpen => vec![ArgKind::Fp, ArgKind::Int],
        _ => vec![],
    };
    assert(kinds@ =~= op_signature(op));
    if separated {
        let pos: Vec<usize> = vec![1, 2, 3, 5, 6, 7, 9, 10, 11];
        assert(pos@ =~= seq![1usize, 2, 3, 5, 6, 7, 9, 10, 11]);
        (pos, kinds)
    } else {
        let mut pos: Vec<usize> = Vec::new();
        let mut k: usize = 0;
        while k < kinds.len()
            invariant
                k <= kinds.len(),
                kinds.len() <= 9,
                pos@.len() == k,
                forall|i: int| 0 <= i < k ==> pos@[i] as int == i + 1,
            decreases kinds.len() - k,
        {
            pos.push(k + 1);
            k += 1;
        }
        (pos, kinds)
    }
}

/// The statement that starts at token `pos`, and the number of tokens it spans.
pub fn parse_statement_at(ts: &Vec<Token>, pos: usize) -> (r: Option<(ScriptStatement, usize)>)
    requires
        pos <= ts.len(),
    ensures
        r matches Some((st, n)) ==> parse_statement(tokens_view(ts@).skip(pos as int)) == Some(
            (st@, n as nat),
        ),
        r is None ==> parse_statement(tokens_view(ts@).skip(pos as int)) is None,
{
    let ghost tv = tokens_view(ts@).skip(pos as int);
    proof {
        lemma_word_at_skip(tokens_view(ts@), pos as int, 0);
        lemma_word_at_skip(tokens_view(ts@), pos as int, 4);
        lemma_word_at_skip(tokens_view(ts@), pos as int, 8);
    }
    let name = match word_at_exec(ts, pos) {
        None => return None,
        Some(w) => w,
    };
    let op = match op_from_word(name) {
        None => return None,
        Some(op) => op,
    };
    let separated = op == ScriptOp::Filter3x3 && ts.len() - pos > 8 && is_bar_at(ts, pos + 4)
        && is_bar_at(ts, pos + 8);
    assert(separated == uses_separators(tv, op));
    let (positions, kinds) = layout(op, separated);
    let ghost spos = arg_positions(tv, op);
    assert(positions@.len() == spos.len());
    let mut args: Vec<Vec<char>> = Vec::new();
    let mut k: usize = 0;
    while k < positions.len()
        invariant
            pos <= ts.len(),
            tv == tokens_view(ts@).skip(pos as int),
            word_at(tv, 0) == Some(name@),
            op_of_name(name@) == Some(op),
            spos == arg_positions(tv, op),
            positions@.len() == spos.len(),
            forall|i: int| 0 <= i < positions@.len() ==> positions@[i] as int == spos[i],
            kinds@ == op_signature(op),
            positions.len() == kinds.len(),
            k <= positions.len(),
            forall|j: int|
                0 <= j < k ==> (#[trigger] word_at(tv, spos[j]) matches Some(w) && lexeme_ok(
                    kinds@[j],
                    w,
                )),
            args@.map_values(|a: Vec<char>| a@) =~= words_at(tv, spos).take(k as int),
        decreases positions.len() - k,
    {
        let off = positions[k];
        assert(spos[k as int] == off as int);
        if off >= ts.len() - pos {
            assert(word_at(tv, spos[k as int]) is None);
            assert(!args_ok(tv, spos, op_signature(op)));
            return None;
        }
        proof {
            lemma_word_at_skip(tokens_view(ts@), pos as int, off as int);
        }
        match word_at_exec(ts, pos + off) {
            None => {
                assert(!args_ok(tv, spos, op_signature(op)));
                return None;
            },
            Some(w) => {
                if !lexeme_matches(kinds[k], w) {
                    assert(!args_ok(tv, spos, op_signature(op)));
                    return None;
                }
                let ghost wv = w@;
                let ghost before = args@.map_values(|a: Vec<char>| a@);
                args.push(copy_chars(w));
                assert(words_at(tv, spos)[k as int] == wv);
                assert(args@.map_values(|a: Vec<char>| a@) =~= before.push(wv));
                assert(words_at(tv, spos).take(k + 1) =~= words_at(tv, spos).take(k as int).push(
                    wv,
                ));
            },
        }
        k += 1;
    }
    assert(words_at(tv, spos).take(k as int) =~= words_at(tv, spos));
    let n: usize = if separated { 12 } else { kinds.len() + 1 };
    proof {
        assert(args@.map_values(|a: Vec<char>| a@) =~= words_at(tv, spos));
        assert forall|j: int| 0 <= j < spos.len() implies lexeme_ok(
            op_signature(op)[j],
            #[trigger] words_at(tv, spos)[j],
        ) by {
            assert(word_at(tv, spos[j]) is Some);
        }
    }
    let st = ScriptStatement { op, args };
    assert(st@.args =~= words_at(tv, spos));
    Some((st, n))
}


proof fn lemma_statements_view_push(ss: Seq<ScriptStatement>, st: ScriptStatement)
    ensures
        statements_view(ss.push(st)) == statements_view(ss).push(st@),
{
    assert(statements_view(ss.push(st)) =~= statements_view(ss).push(st@));
}

/// The statements of a token sequence (see [`parse_program`]).
pub fn parse_tokens(ts: &Vec<Token>) -> (r: Option<Vec<ScriptStatement>>)
    ensures
        r matches Some(ss) ==> parse_program(tokens_view(ts@)) == Some(statements_view(ss@)),
        r is None ==> parse_program(tokens_view(ts@)) is None,
{
    let ghost tv = tokens_view(ts@);
    let mut out: Vec<ScriptStatement> = Vec::new();
    let mut pos: usize = 0;
    assert(tv.skip(0) == tv);
    while pos < ts.len()
        invariant
            pos <= ts.len(),
            tv == tokens_view(ts@),
            parse_program(tv) == match parse_program(tv.skip(pos as int)) {
                Some(rest) => Some(statements_view(out@) + rest),
                None => None::<Seq<StatementView>>,
            },
        decreases ts.len() - pos,
    {
        let ghost here = tv.skip(pos as int);
        match parse_statement_at(ts, pos) {
            None => {
                return None;
            },
            Some((st, n)) => {
                proof {
                    lemma_parse_statement_len(here);
                    lemma_statements_view_push(out@, st);
                }
                let ghost stv = st@;
                out.push(st);
                let mut next = pos + n;
                assert(here.skip(n as int) == tv.skip(next as int));
                if next < ts.len() {
                    match &ts[next] {
                        Token::Semi => {
                            assert(tv.skip(next as int).drop_first() == tv.skip(next + 1));
                            next = next + 1;
                        },
                        Token::Word(_) => {},
                    }
                }
                assert(skip_separator(here.skip(n as int)) == tv.skip(next as int));
                assert(seq![stv] + (Seq::<StatementView>::empty()) == seq![stv]);
                assert forall|rest: Seq<StatementView>|
                    #![auto]
                    true implies statements_view(out@.drop_last()) + (seq![stv] + rest)
                    == statements_view(out@) + rest by {
                    assert(statements_view(out@) == statements_view(out@.drop_last()).push(stv));
                    assert(statements_view(out@.drop_last()) + (seq![stv] + rest) =~= statements_view(
                        out@,
                    ) + rest);
                }
                pos = next;
            },
        }
    }
    assert(tv.skip(pos as int) == Seq::<TokenView>::empty());
    assert(statements_view(out@) + Seq::<StatementView>::empty() == statements_view(out@));
    Some(out)
}

/// The message of a script that breaks the grammar.
pub open spec fn syntax_error_message() -> Seq<char> {
    "Unable to parse sic image operations script: the script does not follow the grammar"@
}

/// Checks a script against the grammar and returns its statements with the
/// words of their arguments.
pub fn parse_syntax(script: &str) -> (r: Result<Vec<ScriptStatement>, String>)
    ensures
        r matches Ok(ss) ==> parse_program(tokens(script@)) == Some(statements_view(ss@)),
        r matches Err(e) ==> parse_program(tokens(script@)) is None && e@
            == syntax_error_message(),
{
    let cs = crate::text::chars_of(script);
    let ts = tokenize(&cs);
    match parse_tokens(&ts) {
        Some(ss) => Ok(ss),
        None => Err(String::from_str(
            "Unable to parse sic image operations script: the script does not follow the grammar",
        )),
    }
}


// ---------------------------------------------------------------------------
// Operations
// ---------------------------------------------------------------------------

/// A number in the form that std's `f32::from_str` accepts, kept as written.
/// Turning it into an `f32` is left to the caller.
pub struct FloatLit {
    text: String,
}

impl View for FloatLit {
    type V = Seq<char>;

    closed spec fn view(&self) -> Seq<char> {
        self.text@
    }
}

impl FloatLit {
    #[verifier::type_invariant]
    closed spec fn valid(self) -> bool {
        is_float_text(self.text@)
    }

    /// Every literal is accepted by std's `f32::from_str`.
    pub fn check_valid(&self)
        ensures
            is_float_text(self@),
    {
        proof {
            use_type_invariant(self);
        }
    }

    /// The literal of `cs`, when std's `f32::from_str` accepts it.
    pub fn from_chars(cs: &Vec<char>) -> (r: Option<FloatLit>)
        ensures
            r is Some <==> is_float_text(cs@),
            r matches Some(f) ==> f@ == cs@,
    {
        if crate::numeric::is_float_literal(cs) {
            Some(FloatLit { text: string_of(cs) })
        } else {
            None
        }
    }

    /// The literal of `s`, when std's `f32::from_str` accepts it.
    pub fn parse(s: &str) -> (r: Option<FloatLit>)
        ensures
            r is Some <==> is_float_text(s@),
            r matches Some(f) ==> f@ == s@,
    {
        let cs = crate::text::chars_of(s);
        FloatLit::from_chars(&cs)
    }

    /// The literal as it was written.
    pub fn as_str(&self) -> (r: &str)
        ensures
            r@ == self@,
    {
        self.text.as_str()
    }
}

/// Whether a crop from the top-left corner (lx, ly) to the bottom-right
/// corner (rx, ry) fits an image of `width` by `height` pixels: the corners
/// are in order and lie within the image.
pub open spec fn crop_fits(lx: u32, ly: u32, rx: u32, ry: u32, width: u32, height: u32) -> bool {
    lx <= rx && ly <= ry && rx <= width && ry <= height
}

pub open spec fn crop_selection_message() -> Seq<char> {
    "The crop selection does not fit the image."@
}

/// The region a crop takes of an image of `width` by `height` pixels, as
/// its top-left corner and its width and height; a selection that does not
/// fit (see [`crop_fits`]) is an error.
pub fn crop_region(lx: u32, ly: u32, rx: u32, ry: u32, width: u32, height: u32) -> (r: Result<(u32, u32, u32, u32), String>)
    ensures
        crop_fits(lx, ly, rx, ry, width, height) ==> (r matches Ok((x, y, w, h)) && x == lx && y == ly
            && w == rx - lx && h == ry - ly),
        !crop_fits(lx, ly, rx, ry, width, height) ==> (r matches Err(e) && e@ == crop_selection_message()),
{
    if lx <= rx && ly <= ry && rx <= width && ry <= height {
        Ok((lx, ly, rx - lx, ry - ly))
    } else {
        Err(String::from_str("The crop selection does not fit the image."))
    }
}

/// Applies an operation of type `O` to a value (such as an image buffer),
/// giving a `T` or an error `E`. What an operation does to pixels is up to
/// the implementation.
pub trait ApplyOperation<O, T, E> {
    fn apply_operation(&self, operation: &O) -> Result<T, E>;
}

/// An image operation with its arguments.
pub enum Operation {
    Blur(FloatLit),
    Brighten(i32),
    Contrast(FloatLit),
    Crop(u32, u32, u32, u32),
    Filter3x3(Vec<FloatLit>),
    FlipHorizontal,
    FlipVertical,
    GrayScale,
    HueRotate(i32),
    Invert,
    Resize(u32, u32),
    Rotate90,
    Rotate180,
    Rotate270,
    Unsharpen(FloatLit, i32),
}

/// An image operation, as a mathematical value (floats by their literals).
pub enum OperationView {
    Blur(Seq<char>),
    Brighten(i32),
    Contrast(Seq<char>),
    Crop(u32, u32, u32, u32),
    Filter3x3(Seq<Seq<char>>),
    FlipHorizontal,
    FlipVertical,
    GrayScale,
    HueRotate(i32),
    Invert,
    Resize(u32, u32),
    Rotate90,
    Rotate180,
    Rotate270,
    Unsharpen(Seq<char>, i32),
}

impl View for Operation {
    type V = OperationView;

    open spec fn view(&self) -> OperationView {
        match self {
            Operation::Blur(f) => OperationView::Blur(f@),
            Operation::Brighten(v) => OperationView::Brighten(*v),
            Operation::Contrast(f) => OperationView::Contrast(f@),
            Operation::Crop(a, b, c, d) => OperationView::Crop(*a, *b, *c, *d),
            Operation::Filter3x3(fs) => OperationView::Filter3x3(
                fs@.map_values(|f: FloatLit| f@),
            ),
            Operation::FlipHorizontal => OperationView::FlipHorizontal,
            Operation::FlipVertical => OperationView::FlipVertical,
            Operation::GrayScale => OperationView::GrayScale,
            Operation::HueRotate(v) => OperationView::HueRotate(*v),
            Operation::Invert => OperationView::Invert,
            Operation::Resize(x, y) => OperationView::Resize(*x, *y),
            Operation::Rotate90 => OperationView::Rotate90,
            Operation::Rotate180 => OperationView::Rotate180,
            Operation::Rotate270 => OperationView::Rotate270,
            Operation::Unsharpen(f, v) => OperationView::Unsharpen(f@, *v),
        }
    }
}

pub open spec fn operations_view(os: Seq<Operation>) -> Seq<OperationView> {
    os.map_values(|o: Operation| o@)
}

/// std's message for an integer that does not fit: too small when the
/// literal is negative, too large otherwise.
pub open spec fn int_overflow_message(w: Seq<char>) -> Seq<char> {
    if w.len() > 0 && w[0] == '-' {
        "number too small to fit in target type"@
    } else {
        "number too large to fit in target type"@
    }
}

pub open spec fn convert_i32(w: Seq<char>) -> Result<i32, Seq<char>> {
    match spec_parse_signed(w, i32::MAX as nat) {
        Some(v) => Ok(v as i32),
        None => Err(int_overflow_message(w)),
    }
}

pub open spec fn convert_u32(w: Seq<char>) -> Result<u32, Seq<char>> {
    match spec_parse_unsigned(w, u32::MAX as nat) {
        Some(v) => Ok(v as u32),
        None => Err(int_overflow_message(w)),
    }
}

/// The operation a well-formed statement stands for, or the message of the
/// first argument that does not fit its integer type.
pub open spec fn convert_statement(st: StatementView) -> Result<OperationView, Seq<char>> {
    match st.op {
        ScriptOp::Blur => Ok(OperationView::Blur(st.args[0])),
        ScriptOp::Brighten => match convert_i32(st.args[0]) {
            Ok(v) => Ok(OperationView::Brighten(v)),
            Err(e) => Err(e),
        },
        ScriptOp::Contrast => Ok(OperationView::Contrast(st.args[0])),
        ScriptOp::Filter3x3 => Ok(OperationView::Filter3x3(st.args)),
        ScriptOp::FlipHorizontal => Ok(OperationView::FlipHorizontal),
        ScriptOp::FlipVertical => Ok(OperationView::FlipVertical),
        ScriptOp::GrayScale => Ok(OperationView::GrayScale),
        ScriptOp::HueRotate => match convert_i32(st.args[0]) {
            Ok(v) => Ok(OperationView::HueRotate(v)),
            Err(e) => Err(e),
        },
        ScriptOp::Invert => Ok(OperationView::Invert),
        ScriptOp::Resize => match (convert_u32(st.args[0]), convert_u32(st.args[1])) {
            (Ok(x), Ok(y)) => Ok(OperationView::Resize(x, y)),
            (Err(e), _) => Err(e),
            (Ok(_), Err(e)) => Err(e),
        },
        ScriptOp::Rotate90 => Ok(OperationView::Rotate90),
        ScriptOp::Rotate180 => Ok(OperationView::Rotate180),
        ScriptOp::Rotate270 => Ok(OperationView::Rotate270),
        ScriptOp::Unsharpen => match convert_i32(st.args[1]) {
            Ok(v) => Ok(OperationView::Unsharpen(st.args[0], v)),
            Err(e) => Err(e),
        },
    }
}

/// The operations of a statement sequence, or the message of the first
/// statement that cannot be converted.
pub open spec fn convert_all(ss: Seq<StatementView>) -> Result<Seq<OperationView>, Seq<char>>
    decreases ss.len(),
{
    if ss.len() == 0 {
        Ok(seq![])
    } else {
        match convert_statement(ss[0]) {
            Err(e) => Err(e),
            Ok(o) => match convert_all(ss.drop_first()) {
                Ok(os) => Ok(seq![o] + os),
                Err(e) => Err(e),
            },
        }
    }
}

proof fn lemma_script_fp_is_float(w: Seq<char>)
    requires
        is_script_fp(w),
    ensures
        is_float_text(w),
{
    let b = if w.len() > 0 && w[0] == '-' { w.drop_first() } else { w };
    let i = digit_prefix_len(b);
    let rest = b.skip(i as int);
    if w.len() > 0 && w[0] == '+' {
        assert(!is_digit(b[0]));
        assert(digit_prefix_len(b) == 0);
    }
    if rest.len() > 0 {
        let frac = rest.drop_first();
        crate::numeric::lemma_all_digits_prefix_len(frac);
        assert(frac.skip(digit_prefix_len(frac) as int) =~= Seq::<char>::empty());
    }
}

fn int_error(w: &Vec<char>) -> (e: String)
    ensures
        e@ == int_overflow_message(w@),
{
    if w.len() > 0 && w[0] == '-' {
        String::from_str("number too small to fit in target type")
    } else {
        String::from_str("number too large to fit in target type")
    }
}

fn convert_i32_exec(w: &Vec<char>) -> (r: Result<i32, String>)
    ensures
        match (r, convert_i32(w@)) {
            (Ok(a), Ok(b)) => a == b,
            (Err(a), Err(b)) => a@ == b,
            _ => false,
        },
{
    match crate::numeric::parse_i32(w) {
        Some(v) => Ok(v),
        None => Err(int_error(w)),
    }
}

fn convert_u32_exec(w: &Vec<char>) -> (r: Result<u32, String>)
    ensures
        match (r, convert_u32(w@)) {
            (Ok(a), Ok(b)) => a == b,
            (Err(a), Err(b)) => a@ == b,
            _ => false,
        },
{
    match crate::numeric::parse_u32(w) {
        Some(v) => Ok(v),
        None => Err(int_error(w)),
    }
}

fn fp_arg(st: &ScriptStatement, i: usize) -> (r: FloatLit)
    requires
        i < st@.args.len(),
        op_signature(st@.op)[i as int] == ArgKind::Fp,
    ensures
        r@ == st@.args[i as int],
{
    st.check_well_formed();
    proof {
        lemma_script_fp_is_float(st@.args[i as int]);
    }
    let w = st.arg(i);
    FloatLit { text: string_of(w) }
}

/// The operation a statement stands for (see [`convert_statement`]).
pub fn convert_statement_exec(st: &ScriptStatement) -> (r: Result<Operation, String>)
    ensures
        match (r, convert_statement(st@)) {
            (Ok(a), Ok(b)) => a@ == b,
            (Err(a), Err(b)) => a@ == b,
            _ => false,
        },
{
    st.check_well_formed();
    match st.op() {
        ScriptOp::Blur => Ok(Operation::Blur(fp_arg(st, 0))),
        ScriptOp::Brighten => match convert_i32_exec(st.arg(0)) {
            Ok(v) => Ok(Operation::Brighten(v)),
            Err(e) => Err(e),
        },
        ScriptOp::Contrast => Ok(Operation::Contrast(fp_arg(st, 0))),
        ScriptOp::Filter3x3 => {
            let mut fs: Vec<FloatLit> = Vec::new();
            let mut i: usize = 0;
            while i < 9
                invariant
                    i <= 9,
                    st@.op == ScriptOp::Filter3x3,
                    st@.args.len() == 9,
                    fs@.map_values(|f: FloatLit| f@) =~= st@.args.take(i as int),
                decreases 9 - i,
            {
                let f = fp_arg(st, i);
                let ghost fv = f@;
                let ghost before = fs@.map_values(|f: FloatLit| f@);
                fs.push(f);
                assert(fs@.map_values(|f: FloatLit| f@) =~= before.push(fv));
                assert(st@.args.take(i + 1) =~= st@.args.take(i as int).push(fv));
                i += 1;
            }
            assert(st@.args.take(9) =~= st@.args);
            Ok(Operation::Filter3x3(fs))
        },
        ScriptOp::FlipHorizontal => Ok(Operation::FlipHorizontal),
        ScriptOp::FlipVertical => Ok(Operation::FlipVertical),
        ScriptOp::GrayScale => Ok(Operation::GrayScale),
        ScriptOp::HueRotate => match convert_i32_exec(st.arg(0)) {
            Ok(v) => Ok(Operation::HueRotate(v)),
            Err(e) => Err(e),
        },
        ScriptOp::Invert => Ok(Operation::Invert),
        ScriptOp::Resize => {
            let x = convert_u32_exec(st.arg(0));
            let y = convert_u32_exec(st.arg(1));
            match (x, y) {
                (Ok(x), Ok(y)) => Ok(Operation::Resize(x, y)),
                (Err(e), _) => Err(e),
                (Ok(_), Err(e)) => Err(e),
            }
        },
        ScriptOp::Rotate90 => Ok(Operation::Rotate90),
        ScriptOp::Rotate180 => Ok(Operation::Rotate180),
        ScriptOp::Rotate270 => Ok(Operation::Rotate270),
        ScriptOp::Unsharpen => {
            let f = fp_arg(st, 0);
            match convert_i32_exec(st.arg(1)) {
                Ok(v) => Ok(Operation::Unsharpen(f, v)),
                Err(e) => Err(e),
            }
        },
    }
}

/// The operations of a statement sequence, or the message of the first
/// statement whose integer argument does not fit (see [`convert_all`]).
pub fn parse_image_operations(ss: &Vec<ScriptStatement>) -> (r: Result<Vec<Operation>, String>)
    ensures
        match (r, convert_all(statements_view(ss@))) {
            (Ok(a), Ok(b)) => operations_view(a@) == b,
            (Err(a), Err(b)) => a@ == b,
            _ => false,
        },
{
    let ghost sv = statements_view(ss@);
    let mut out: Vec<Operation> = Vec::new();
    let mut i: usize = 0;
    assert(sv.skip(0) == sv);
    while i < ss.len()
        invariant
            i <= ss.len(),
            sv == statements_view(ss@),
            convert_all(sv) == match convert_all(sv.skip(i as int)) {
                Ok(rest) => Ok(operations_view(out@) + rest),
                Err(e) => Err::<Seq<OperationView>, Seq<char>>(e),
            },
        decreases ss.len() - i,
    {
        assert(sv.skip(i as int)[0] == ss@[i as int]@);
        assert(sv.skip(i as int).drop_first() == sv.skip(i + 1));
        match convert_statement_exec(&ss[i]) {
            Err(e) => {
                return Err(e);
            },
            Ok(o) => {
                let ghost ov = o@;
                let ghost before = operations_view(out@);
                out.push(o);
                assert(operations_view(out@) =~= before.push(ov));
                assert forall|rest: Seq<OperationView>|
                    #![auto]
                    true implies before + (seq![ov] + rest) == operations_view(out@) + rest by {
                    assert(before + (seq![ov] + rest) =~= operations_view(out@) + rest);
                }
            },
        }
        i += 1;
    }
    assert(sv.skip(i as int) == Seq::<StatementView>::empty());
    assert(operations_view(out@) + Seq::<OperationView>::empty() =~= operations_view(out@));
    Ok(out)
}

/// The operations of an image-operations script.
pub open spec fn spec_parse_script(s: Seq<char>) -> Result<Seq<OperationView>, Seq<char>> {
    match parse_program(tokens(s)) {
        None => Err(syntax_error_message()),
        Some(ss) => convert_all(ss),
    }
}

/// The script word of an operation that takes no arguments (none for the
/// others).
pub open spec fn nullary_word(o: OperationView) -> Option<Seq<char>> {
    match o {
        OperationView::FlipHorizontal => Some(seq!['f', 'l', 'i', 'p', 'h']),
        OperationView::FlipVertical => Some(seq!['f', 'l', 'i', 'p', 'v']),
        OperationView::GrayScale => Some(seq!['g', 'r', 'a', 'y', 's', 'c', 'a', 'l', 'e']),
        OperationView::Invert => Some(seq!['i', 'n', 'v', 'e', 'r', 't']),
        OperationView::Rotate90 => Some(seq!['r', 'o', 't', 'a', 't', 'e', '9', '0']),
        OperationView::Rotate180 => Some(seq!['r', 'o', 't', 'a', 't', 'e', '1', '8', '0']),
        OperationView::Rotate270 => Some(seq!['r', 'o', 't', 'a', 't', 'e', '2', '7', '0']),
        _ => None,
    }
}

/// A script of operations without arguments: their words, each followed by
/// `;`.
pub open spec fn nullary_script(ops: Seq<OperationView>) -> Seq<char>
    decreases ops.len(),
{
    if ops.len() == 0 {
        seq![]
    } else {
        word_of(nullary_word(ops[0])) + seq![';'] + nullary_script(ops.drop_first())
    }
}

proof fn lemma_word_len_prefix(w: Seq<char>, t: Seq<char>)
    requires
        forall|i: int| 0 <= i < w.len() ==> is_word_char(#[trigger] w[i]),
        t.len() > 0 ==> !is_word_char(t[0]),
    ensures
        word_len(w + t) == w.len(),
    decreases w.len(),
{
    if w.len() == 0 {
        assert(w + t =~= t);
    } else {
        assert((w + t).drop_first() =~= w.drop_first() + t);
        assert((w + t)[0] == w[0]);
        assert forall|i: int| 0 <= i < w.drop_first().len() implies is_word_char(#[trigger] w.drop_first()[i]) by {
            assert(w.drop_first()[i] == w[i + 1]);
        }
        lemma_word_len_prefix(w.drop_first(), t);
    }
}

proof fn lemma_tokens_word_semi(w: Seq<char>, rest: Seq<char>)
    requires
        w.len() > 0,
        forall|i: int| 0 <= i < w.len() ==> is_word_char(#[trigger] w[i]),
    ensures
        tokens(w + seq![';'] + rest) == seq![TokenView::Word(w), TokenView::Semi] + tokens(rest),
{
    let s = w + seq![';'] + rest;
    let t = seq![';'] + rest;
    assert(s =~= w + t);
    lemma_word_len_prefix(w, t);
    assert(s[0] == w[0]);
    assert(s.take(w.len() as int) =~= w);
    assert(s.skip(w.len() as int) =~= t);
    assert(t.drop_first() =~= rest);
    assert(tokens(t) == seq![TokenView::Semi] + tokens(rest));
    assert(tokens(s) == seq![TokenView::Word(w)] + tokens(t));
    assert(seq![TokenView::Word(w)] + (seq![TokenView::Semi] + tokens(rest)) =~= seq![
        TokenView::Word(w),
        TokenView::Semi,
    ] + tokens(rest));
}

proof fn lemma_nullary_statement(o: OperationView, rest: Seq<TokenView>)
    requires
        nullary_word(o) is Some,
    ensures
        ({
            let ts = seq![TokenView::Word(word_of(nullary_word(o))), TokenView::Semi] + rest;
            parse_statement(ts) matches Some((st, n)) && n == 1 && convert_statement(st) == Ok::<
                OperationView,
                Seq<char>,
            >(o)
        }),
{
    let w = word_of(nullary_word(o));
    let ts = seq![TokenView::Word(w), TokenView::Semi] + rest;
    assert(ts[0] == TokenView::Word(w));
    assert(word_at(ts, 0) == Some(w));
    let sop = match o {
        OperationView::FlipHorizontal => ScriptOp::FlipHorizontal,
        OperationView::FlipVertical => ScriptOp::FlipVertical,
        OperationView::GrayScale => ScriptOp::GrayScale,
        OperationView::Invert => ScriptOp::Invert,
        OperationView::Rotate90 => ScriptOp::Rotate90,
        OperationView::Rotate180 => ScriptOp::Rotate180,
        _ => ScriptOp::Rotate270,
    };
    assert(w == script_op_name(sop));
    assert(w.len() >= 5);
    assert(w != script_op_name(ScriptOp::Blur));
    assert(w != script_op_name(ScriptOp::Brighten) && w != script_op_name(ScriptOp::Contrast)) by {
        assert(script_op_name(ScriptOp::Brighten)[0] == 'b');
        assert(script_op_name(ScriptOp::Contrast)[0] == 'c');
        if w.len() == 8 {
            assert(w[0] == 'r');
        }
    }
    assert(w != script_op_name(ScriptOp::Filter3x3) && w != script_op_name(ScriptOp::HueRotate)
        && w != script_op_name(ScriptOp::Unsharpen)) by {
        assert(script_op_name(ScriptOp::Filter3x3)[1] == 'i');
        assert(script_op_name(ScriptOp::HueRotate)[0] == 'h');
        assert(script_op_name(ScriptOp::Unsharpen)[0] == 'u');
        if w.len() == 9 {
            assert(w[0] == 'g' || w[0] == 'r');
            assert(w[1] == 'r' || w[1] == 'o');
        }
    }
    assert(w != script_op_name(ScriptOp::Resize)) by {
        assert(script_op_name(ScriptOp::Resize)[1] == 'e');
        if w.len() == 6 {
            assert(w[0] == 'i');
        }
    }
    assert(script_op_name(ScriptOp::FlipHorizontal)[4] == 'h');
    assert(script_op_name(ScriptOp::FlipVertical)[4] == 'v');
    assert(script_op_name(ScriptOp::Rotate90)[6] == '9');
    assert(script_op_name(ScriptOp::Rotate180)[6] == '1');
    assert(script_op_name(ScriptOp::Rotate270)[6] == '2');
    assert(script_op_name(ScriptOp::GrayScale)[0] == 'g');
    assert(script_op_name(ScriptOp::Invert)[0] == 'i');
    assert(w[0] == script_op_name(sop)[0]);
    assert(w.len() > 6 ==> w[6] == script_op_name(sop)[6]);
    assert(w.len() == 5 ==> w[4] == script_op_name(sop)[4]);
    assert(op_of_name(w) == Some(sop));
    assert(op_signature(sop) =~= Seq::<ArgKind>::empty());
    assert(!uses_separators(ts, sop));
    assert(arg_positions(ts, sop) =~= Seq::<int>::empty());
    assert(args_ok(ts, arg_positions(ts, sop), op_signature(sop)));
}

/// A script of operations without arguments gives exactly those
/// operations, in order: each word names the operation of that name.
pub proof fn lemma_nullary_script_parses(ops: Seq<OperationView>)
    requires
        forall|i: int| 0 <= i < ops.len() ==> (#[trigger] nullary_word(ops[i])) is Some,
    ensures
        spec_parse_script(nullary_script(ops)) == Ok::<Seq<OperationView>, Seq<char>>(ops),
    decreases ops.len(),
{
    lemma_nullary_program(ops);
}

proof fn lemma_nullary_program(ops: Seq<OperationView>)
    requires
        forall|i: int| 0 <= i < ops.len() ==> (#[trigger] nullary_word(ops[i])) is Some,
    ensures
        parse_program(tokens(nullary_script(ops))) matches Some(ss) && convert_all(ss) == Ok::<
            Seq<OperationView>,
            Seq<char>,
        >(ops),
    decreases ops.len(),
{
    if ops.len() == 0 {
        assert(tokens(nullary_script(ops)) =~= Seq::<TokenView>::empty());
        assert(ops =~= Seq::<OperationView>::empty());
        assert(parse_program(Seq::<TokenView>::empty()) == Some(Seq::<StatementView>::empty()));
        assert(convert_all(Seq::<StatementView>::empty()) == Ok::<Seq<OperationView>, Seq<char>>(ops));
    } else {
        let o = ops[0];
        assert(nullary_word(ops[0]) is Some);
        let w = word_of(nullary_word(o));
        let rest = ops.drop_first();
        assert forall|i: int| 0 <= i < rest.len() implies (#[trigger] nullary_word(rest[i])) is Some by {
            assert(rest[i] == ops[i + 1]);
            assert(nullary_word(ops[i + 1]) is Some);
        }
        lemma_nullary_program(rest);
        let tr = tokens(nullary_script(rest));
        assert forall|i: int| 0 <= i < w.len() implies is_word_char(#[trigger] w[i]) by {
            assert(w[i] != ' ' && w[i] != ';');
        }
        lemma_tokens_word_semi(w, nullary_script(rest));
        let ts = tokens(nullary_script(ops));
        assert(ts == seq![TokenView::Word(w), TokenView::Semi] + tr);
        lemma_nullary_statement(o, tr);
        let (st, n) = parse_statement(ts).unwrap();
        assert(ts.skip(1) =~= seq![TokenView::Semi] + tr);
        assert(skip_separator(ts.skip(1)) =~= tr);
        let ss = parse_program(tr).unwrap();
        assert(parse_program(ts) == Some(seq![st] + ss));
        assert((seq![st] + ss)[0] == st);
        assert((seq![st] + ss).drop_first() =~= ss);
        assert(convert_statement(st) == Ok::<OperationView, Seq<char>>(o));
        assert(convert_all(ss) == Ok::<Seq<OperationView>, Seq<char>>(rest));
        assert(convert_all(seq![st] + ss) == Ok::<Seq<OperationView>, Seq<char>>(seq![o] + rest));
        assert(seq![o] + rest =~= ops);
    }
}

/// Parses an image-operations script into its operations.
pub fn parse_script(script: &str) -> (r: Result<Vec<Operation>, String>)
    ensures
        match (r, spec_parse_script(script@)) {
            (Ok(a), Ok(b)) => operations_view(a@) == b,
            (Err(a), Err(b)) => a@ == b,
            _ => false,
        },
{
    match parse_syntax(script) {
        Err(e) => Err(e),
        Ok(ss) => parse_image_operations(&ss),
    }
}

} // verus!
