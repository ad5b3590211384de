//! The written form of programs.
//!
//! A program is written as expressions with white space between them:
//!
//! - a number: an optional sign, digits, and optionally a point and more
//!   digits;
//! - a text: any characters between two single or two double quotes, the
//!   quote itself left out;
//! - a word: letters and underscores;
//! - a block: expressions between braces, with white space or commas between
//!   them, at least one.
//!
//! The parser hands out a tree in which a number is still the text that it
//! was written as: what binary64 number that text stands for is for the host
//! to say.

use vstd::prelude::*;

verus! {

/// A piece of syntax.
#[derive(Debug, PartialEq)]
pub enum Syntax {
    /// A number, as it was written.
    Number(String),
    /// A text, without its quotes.
    Text(String),
    /// A word's name.
    Word(String),
    /// A block's expressions.
    Block(Vec<Syntax>),
}

/// The mathematical model of a [`Syntax`].
pub enum SyntaxView {
    Number(Seq<char>),
    Text(Seq<char>),
    Word(Seq<char>),
    Block(Seq<SyntaxView>),
}

/// The model of a tree.
pub open spec fn syntax_view(t: Syntax) -> SyntaxView
    decreases t,
{
    match t {
        Syntax::Number(s) => SyntaxView::Number(s@),
        Syntax::Text(s) => SyntaxView::Text(s@),
        Syntax::Word(s) => SyntaxView::Word(s@),
        Syntax::Block(items) => SyntaxView::Block(forest_view(items@)),
    }
}

/// The models of a sequence of trees, in the same order.
pub open spec fn forest_view(ts: Seq<Syntax>) -> Seq<SyntaxView>
    decreases ts,
{
    if ts.len() == 0 {
        Seq::empty()
    } else {
        forest_view(ts.drop_last()).push(syntax_view(ts.last()))
    }
}

impl View for Syntax {
    type V = SyntaxView;

    open spec fn view(&self) -> SyntaxView {
        syntax_view(*self)
    }
}

/// Where the input stops being a program: the index of the character, or the
/// length of the input where more was expected.
#[derive(Debug, Clone, Copy, PartialEq, Eq, Structural)]
pub struct ParseErr {
    pub at: usize,
}

/// Is `c` a letter? This is the Unicode property Alphabetic, as the standard
/// library knows it.
pub uninterp spec fn alphabetic(c: char) -> bool;

/// Calls `char::is_alphabetic` of the standard library, which says whether a
/// character has the Unicode property Alphabetic. Not proved: that the answer
/// depends on the character alone. Nothing more is claimed of it.
#[verifier::external_body]
fn is_alphabetic(c: char) -> (r: bool)
    ensures
        r == alphabetic(c),
{
    c.is_alphabetic()
}

/// Calls `String::push` of the standard library. Not proved: that the string
/// afterwards is the string before with `c` at its end, which is what the
/// method is documented to do.
#[verifier::external_body]
fn push_char(s: &mut String, c: char)
    ensures
        final(s)@ == old(s)@.push(c),
{
    s.push(c);
}

/// A class of characters.
#[derive(Debug, Clone, Copy, PartialEq, Eq, Structural)]
pub enum Class {
    /// White space: space, tab, line feed, carriage return.
    Space,
    /// White space and the comma.
    SpaceOrComma,
    /// The ten digits.
    Digit,
    /// Letters and the underscore.
    Letter,
    /// Every character but this one.
    Except(char),
}

impl Class {
    /// Is `c` of this class?
    pub open spec fn holds(self, c: char) -> bool {
        match self {
            Class::Space => c == ' ' || c == '\t' || c == '\n' || c == '\r',
            Class::SpaceOrComma => c == ' ' || c == '\t' || c == '\n' || c == '\r' || c == ',',
            Class::Digit => '0' <= c && c <= '9',
            Class::Letter => alphabetic(c) || c == '_',
            Class::Except(q) => c != q,
        }
    }

    /// Is `c` of this class?
    pub fn test(self, c: char) -> (r: bool)
        ensures
            r == self.holds(c),
    {
        match self {
            Class::Space => c == ' ' || c == '\t' || c == '\n' || c == '\r',
            Class::SpaceOrComma => c == ' ' || c == '\t' || c == '\n' || c == '\r' || c == ',',
            Class::Digit => '0' <= c && c <= '9',
            Class::Letter => c == '_' || is_alphabetic(c),
            Class::Except(q) => c != q,
        }
    }
}

/// What separates expressions: white space, and in a block the comma too.
pub open spec fn blank(in_block: bool) -> Class {
    if in_block {
        Class::SpaceOrComma
    } else {
        Class::Space
    }
}

/// The end of the longest run of characters of one class that starts at `i`.
pub open spec fn run_end(s: Seq<char>, i: int, class: Class) -> int
    decreases s.len() - i,
{
    if 0 <= i < s.len() && class.holds(s[i]) {
        run_end(s, i + 1, class)
    } else {
        i
    }
}

/// A run ends at or after its start, and within the input; every character
/// of it is of the class, and the character behind it is not.
pub proof fn lemma_run_end(s: Seq<char>, i: int, class: Class)
    requires
        0 <= i <= s.len(),
    ensures
        i <= run_end(s, i, class) <= s.len(),
        forall|k: int| i <= k < run_end(s, i, class) ==> class.holds(#[trigger] s[k]),
        run_end(s, i, class) < s.len() ==> !class.holds(s[run_end(s, i, class)]),
    decreases s.len() - i,
{
    if i < s.len() && class.holds(s[i]) {
        lemma_run_end(s, i + 1, class);
    }
}

/// The end of the number that starts at `i`, or where a digit is missing.
pub open spec fn number_end(s: Seq<char>, i: int) -> Result<int, int> {
    let start = if 0 <= i < s.len() && (s[i] == '-' || s[i] == '+') {
        i + 1
    } else {
        i
    };
    let whole = run_end(s, start, Class::Digit);
    if whole == start {
        Err(start)
    } else if whole < s.len() && s[whole] == '.' {
        let fraction = run_end(s, whole + 1, Class::Digit);
        if fraction == whole + 1 {
            Err(fraction)
        } else {
            Ok(fraction)
        }
    } else {
        Ok(whole)
    }
}

/// The expression that starts at `i` and where it ends, or where the input
/// stops being one. What an expression is shows in its first character: a
/// quote starts a text, which goes to the next quote of the same kind; a
/// brace starts a block; a digit or a sign starts a number; a letter or an
/// underscore starts a word.
pub open spec fn expr_at(s: Seq<char>, i: int) -> Result<(SyntaxView, int), int>
    decreases s.len() - i, 0int,
{
    if !(0 <= i < s.len()) {
        Err(i)
    } else if s[i] == '\'' || s[i] == '"' {
        let close = run_end(s, i + 1, Class::Except(s[i]));
        if close < s.len() {
            Ok((SyntaxView::Text(s.subrange(i + 1, close)), close + 1))
        } else {
            Err(i)
        }
    } else if s[i] == '{' {
        match items_at(s, i + 1, true) {
            Ok((items, j)) => if items.len() == 0 || !(j < s.len()) {
                Err(j)
            } else {
                Ok((SyntaxView::Block(items), j + 1))
            },
            Err(at) => Err(at),
        }
    } else if Class::Digit.holds(s[i]) || s[i] == '-' || s[i] == '+' {
        match number_end(s, i) {
            Ok(j) => Ok((SyntaxView::Number(s.subrange(i, j)), j)),
            Err(at) => Err(at),
        }
    } else if Class::Letter.holds(s[i]) {
        Ok(
            (
                SyntaxView::Word(s.subrange(i, run_end(s, i, Class::Letter))),
                run_end(s, i, Class::Letter),
            ),
        )
    } else {
        Err(i)
    }
}

/// The expressions from `i` on, up to the end of the input or to a closing
/// brace, and where they end. Behind an expression stands a separator, a
/// closing brace, or nothing. (An expression is never empty, so the rule
/// always moves on: see [`law_parse_positions`].)
pub open spec fn items_at(s: Seq<char>, i: int, in_block: bool) -> Result<
    (Seq<SyntaxView>, int),
    int,
>
    decreases s.len() - i, 1int,
{
    if !(0 <= i <= s.len()) {
        Err(i)
    } else {
        let j = run_end(s, i, blank(in_block));
        proof {
            lemma_run_end(s, i, blank(in_block));
        }
        if j >= s.len() || s[j] == '}' {
            Ok((Seq::empty(), j))
        } else {
            match expr_at(s, j) {
                Err(at) => Err(at),
                Ok((e, k)) => if !(j < k <= s.len()) || (k < s.len() && s[k] != '}' && !blank(
                    in_block,
                ).holds(s[k])) {
                    Err(k)
                } else {
                    match items_at(s, k, in_block) {
                        Ok((rest, end)) => Ok((seq![e] + rest, end)),
                        Err(at) => Err(at),
                    }
                },
            }
        }
    }
}

/// The program that `s` is the written form of, or where `s` stops being
/// one. A program holds one expression at least, and no closing brace
/// without its opening one.
pub open spec fn program_of(s: Seq<char>) -> Result<Seq<SyntaxView>, int> {
    match items_at(s, 0, false) {
        Ok((items, end)) => if end < s.len() || items.len() == 0 {
            Err(end)
        } else {
            Ok(items)
        },
        Err(at) => Err(at),
    }
}

/// An expression is not empty and ends within the input, and an error is
/// within the input or at its end. The same holds of a sequence of
/// expressions, which may be empty.
pub proof fn law_parse_positions(s: Seq<char>, i: int, in_block: bool)
    requires
        0 <= i <= s.len(),
    ensures
        expr_at(s, i) matches Ok((_, end)) ==> i < end <= s.len(),
        expr_at(s, i) matches Err(at) ==> i <= at <= s.len(),
        items_at(s, i, in_block) matches Ok((_, end)) ==> i <= end <= s.len(),
        items_at(s, i, in_block) matches Err(at) ==> i <= at <= s.len(),
    decreases s.len() - i, 2int,
{
    lemma_items_positions(s, i, in_block);
    lemma_expr_positions(s, i);
}

proof fn lemma_expr_positions(s: Seq<char>, i: int)
    requires
        0 <= i <= s.len(),
    ensures
        expr_at(s, i) matches Ok((_, end)) ==> i < end <= s.len(),
        expr_at(s, i) matches Err(at) ==> i <= at <= s.len(),
    decreases s.len() - i, 0int,
{
    if i < s.len() {
        lemma_run_end(s, i + 1, Class::Except(s[i]));
        lemma_run_end(s, i + 1, Class::Digit);
        lemma_run_end(s, i + 1, Class::Letter);
        lemma_run_end(s, i, Class::Digit);
        if s[i] == '{' {
            lemma_items_positions(s, i + 1, true);
        }
        let whole = run_end(s, i, Class::Digit);
        let signed = run_end(s, i + 1, Class::Digit);
        if whole + 1 <= s.len() {
            lemma_run_end(s, whole + 1, Class::Digit);
        }
        if signed + 1 <= s.len() {
            lemma_run_end(s, signed + 1, Class::Digit);
        }
    }
}

proof fn lemma_items_positions(s: Seq<char>, i: int, in_block: bool)
    requires
        0 <= i <= s.len(),
    ensures
        items_at(s, i, in_block) matches Ok((_, end)) ==> i <= end <= s.len(),
        items_at(s, i, in_block) matches Err(at) ==> i <= at <= s.len(),
    decreases s.len() - i, 1int,
{
    let j = run_end(s, i, blank(in_block));
    lemma_run_end(s, i, blank(in_block));
    if j < s.len() && s[j] != '}' {
        lemma_expr_positions(s, j);
        if let Ok((e, k)) = expr_at(s, j) {
            if j < k <= s.len() {
                lemma_items_positions(s, k, in_block);
            }
        }
    }
}

/// Is `w` the written form of a number: an optional sign, digits, and
/// optionally a point and more digits?
pub open spec fn is_number(w: Seq<char>) -> bool {
    number_end(w, 0) == Ok::<int, int>(w.len() as int)
}

/// Is `w` the written form of a word: letters and underscores, one at least?
pub open spec fn is_word(w: Seq<char>) -> bool {
    w.len() > 0 && forall|i: int| 0 <= i < w.len() ==> Class::Letter.holds(#[trigger] w[i])
}

/// Is every number in the tree written as a number is and every word as a
/// word is, and does every block hold an expression?
pub open spec fn well_formed(t: SyntaxView) -> bool
    decreases t,
{
    match t {
        SyntaxView::Number(w) => is_number(w),
        SyntaxView::Word(w) => is_word(w),
        SyntaxView::Text(_) => true,
        SyntaxView::Block(items) => items.len() > 0 && forall|i: int|
            0 <= i < items.len() ==> well_formed(#[trigger] items[i]),
    }
}

/// A run in a part of the input ends where the run in the whole input ends,
/// or at the end of the part if that comes first.
proof fn lemma_run_end_in_part(s: Seq<char>, i: int, j: int, k: int, class: Class)
    requires
        0 <= i <= k <= j <= s.len(),
    ensures
        run_end(s.subrange(i, j), k - i, class) == if run_end(s, k, class) < j {
            run_end(s, k, class) - i
        } else {
            j - i
        },
    decreases j - k,
{
    let w = s.subrange(i, j);
    if k < j {
        assert(w[k - i] == s[k]);
        if class.holds(s[k]) {
            lemma_run_end_in_part(s, i, j, k + 1, class);
        }
    } else {
        lemma_run_end(s, k, class);
    }
}

/// What the parser takes for a number is written as a number is.
proof fn lemma_number_is_number(s: Seq<char>, i: int)
    requires
        0 <= i < s.len(),
        number_end(s, i) is Ok,
    ensures
        i < number_end(s, i)->Ok_0 <= s.len(),
        is_number(s.subrange(i, number_end(s, i)->Ok_0)),
{
    let j = number_end(s, i)->Ok_0;
    let start = if s[i] == '-' || s[i] == '+' {
        i + 1
    } else {
        i
    };
    let whole = run_end(s, start, Class::Digit);
    lemma_run_end(s, start, Class::Digit);
    if whole < s.len() {
        lemma_run_end(s, whole + 1, Class::Digit);
    }
    let w = s.subrange(i, j);
    assert(w[0] == s[i]);
    lemma_run_end_in_part(s, i, j, start, Class::Digit);
    if whole < j {
        assert(w[whole - i] == s[whole]);
        lemma_run_end_in_part(s, i, j, whole + 1, Class::Digit);
    }
}

/// Every tree that the parser hands out is well formed: a host that gives
/// each written number its value finds every one of them written as a number
/// is.
pub proof fn law_parsed_is_well_formed(s: Seq<char>, i: int, in_block: bool)
    requires
        0 <= i <= s.len(),
    ensures
        expr_at(s, i) matches Ok((t, _)) ==> well_formed(t),
        items_at(s, i, in_block) matches Ok((ts, _)) ==> forall|k: int|
            0 <= k < ts.len() ==> well_formed(#[trigger] ts[k]),
        i == 0 ==> (program_of(s) matches Ok(ts) ==> ts.len() > 0 && forall|k: int|
            0 <= k < ts.len() ==> well_formed(#[trigger] ts[k])),
{
    lemma_expr_well_formed(s, i);
    lemma_items_well_formed(s, i, in_block);
    lemma_items_well_formed(s, i, false);
}

proof fn lemma_expr_well_formed(s: Seq<char>, i: int)
    requires
        0 <= i <= s.len(),
    ensures
        expr_at(s, i) matches Ok((t, _)) ==> well_formed(t),
    decreases s.len() - i, 0int,
{
    if i < s.len() {
        if s[i] == '\'' || s[i] == '"' {
        } else if s[i] == '{' {
            lemma_items_well_formed(s, i + 1, true);
        } else if Class::Digit.holds(s[i]) || s[i] == '-' || s[i] == '+' {
            if number_end(s, i) is Ok {
                lemma_number_is_number(s, i);
            }
        } else if Class::Letter.holds(s[i]) {
            lemma_run_end(s, i, Class::Letter);
            lemma_run_end(s, i + 1, Class::Letter);
        }
    }
}

proof fn lemma_items_well_formed(s: Seq<char>, i: int, in_block: bool)
    requires
        0 <= i <= s.len(),
    ensures
        items_at(s, i, in_block) matches Ok((ts, _)) ==> forall|k: int|
            0 <= k < ts.len() ==> well_formed(#[trigger] ts[k]),
    decreases s.len() - i, 1int,
{
    let j = run_end(s, i, blank(in_block));
    lemma_run_end(s, i, blank(in_block));
    if j < s.len() && s[j] != '}' {
        lemma_expr_well_formed(s, j);
        if let Ok((e, k)) = expr_at(s, j) {
            if j < k <= s.len() {
                lemma_items_well_formed(s, k, in_block);
            }
        }
    }
}

/// Pushing a tree on a sequence pushes its model on the sequence's model.
pub proof fn lemma_forest_view_push(ts: Seq<Syntax>, t: Syntax)
    ensures
        forest_view(ts.push(t)) == forest_view(ts).push(t@),
{
    assert(ts.push(t).drop_last() =~= ts);
}

/// A result of the items rule with `front` put before its expressions.
pub open spec fn after(front: Seq<SyntaxView>, r: Result<(Seq<SyntaxView>, int), int>) -> Result<
    (Seq<SyntaxView>, int),
    int,
> {
    match r {
        Ok((rest, end)) => Ok((front + rest, end)),
        Err(at) => Err(at),
    }
}

/// The result of parsing one expression, by its model.
pub open spec fn one_outcome(r: Result<(Syntax, usize), ParseErr>) -> Result<
    (SyntaxView, int),
    int,
> {
    match r {
        Ok((t, end)) => Ok((t@, end as int)),
        Err(e) => Err(e.at as int),
    }
}

/// The result of parsing a sequence of expressions, by its model.
pub open spec fn many_outcome(r: Result<(Vec<Syntax>, usize), ParseErr>) -> Result<
    (Seq<SyntaxView>, int),
    int,
> {
    match r {
        Ok((ts, end)) => Ok((forest_view(ts@), end as int)),
        Err(e) => Err(e.at as int),
    }
}

/// The result of parsing a program, by its model.
pub open spec fn program_outcome(r: Result<Vec<Syntax>, ParseErr>) -> Result<
    Seq<SyntaxView>,
    int,
> {
    match r {
        Ok(ts) => Ok(forest_view(ts@)),
        Err(e) => Err(e.at as int),
    }
}

/// The characters of a string.
pub fn to_chars(input: &str) -> (v: Vec<char>)
    ensures
        v@ == input@,
{
    let mut v: Vec<char> = Vec::new();
    for c in it: input.chars()
        invariant
            v@ == input@.subrange(0, it.index() as int),
            it.seq() == input@,
    {
        v.push(c);
    }
    v
}

/// The end of the longest run of characters of one class that starts at `i`.
fn scan(s: &Vec<char>, i: usize, class: Class) -> (j: usize)
    requires
        i <= s.len(),
    ensures
        j == run_end(s@, i as int, class),
        i <= j <= s.len(),
{
    let mut j: usize = i;
    while j < s.len() && class.test(s[j])
        invariant
            i <= j <= s.len(),
            run_end(s@, i as int, class) == run_end(s@, j as int, class),
        decreases s.len() - j,
    {
        j += 1;
    }
    j
}

/// The characters from `from` up to `to`, as a string.
fn collect(s: &Vec<char>, from: usize, to: usize) -> (r: String)
    requires
        from <= to <= s.len(),
    ensures
        r@ == s@.subrange(from as int, to as int),
{
    let mut r = String::new();
    let mut k: usize = from;
    while k < to
        invariant
            from <= k <= to <= s.len(),
            r@ == s@.subrange(from as int, k as int),
        decreases to - k,
    {
        push_char(&mut r, s[k]);
        assert(r@ =~= s@.subrange(from as int, k + 1));
        k += 1;
    }
    r
}

/// The end of the number that starts at `i`.
fn scan_number(s: &Vec<char>, i: usize) -> (r: Result<usize, ParseErr>)
    requires
        i < s.len(),
    ensures
        match r {
            Ok(j) => number_end(s@, i as int) == Ok::<int, int>(j as int) && i < j <= s.len(),
            Err(e) => number_end(s@, i as int) == Err::<int, int>(e.at as int) && e.at <= s.len(),
        },
{
    let start: usize = if s[i] == '-' || s[i] == '+' {
        i + 1
    } else {
        i
    };
    let whole = scan(s, start, Class::Digit);
    if whole == start {
        return Err(ParseErr { at: start });
    }
    if whole < s.len() && s[whole] == '.' {
        let fraction = scan(s, whole + 1, Class::Digit);
        if fraction == whole + 1 {
            Err(ParseErr { at: fraction })
        } else {
            Ok(fraction)
        }
    } else {
        Ok(whole)
    }
}

/// Parses the expression that starts at `i`.
fn parse_expr(s: &Vec<char>, i: usize) -> (r: Result<(Syntax, usize), ParseErr>)
    requires
        i < s.len(),
    ensures
        one_outcome(r) == expr_at(s@, i as int),
        r matches Ok((_, end)) ==> i < end <= s.len(),
        r matches Err(e) ==> e.at <= s.len(),
    decreases s.len() - i, 0nat,
{
    let c = s[i];
    if c == '\'' || c == '"' {
        let close = scan(s, i + 1, Class::Except(c));
        if close < s.len() {
            Ok((Syntax::Text(collect(s, i + 1, close)), close + 1))
        } else {
            Err(ParseErr { at: i })
        }
    } else if c == '{' {
        let (items, j) = parse_items(s, i + 1, true)?;
        if items.len() == 0 || j >= s.len() {
            Err(ParseErr { at: j })
        } else {
            Ok((Syntax::Block(items), j + 1))
        }
    } else if Class::Digit.test(c) || c == '-' || c == '+' {
        let j = scan_number(s, i)?;
        Ok((Syntax::Number(collect(s, i, j)), j))
    } else if Class::Letter.test(c) {
        let j = scan(s, i, Class::Letter);
        proof {
            lemma_run_end(s@, i + 1, Class::Letter);
        }
        Ok((Syntax::Word(collect(s, i, j)), j))
    } else {
        Err(ParseErr { at: i })
    }
}

/// Parses the expressions from `i` on, up to the end of the input or to a
/// closing brace.
fn parse_items(s: &Vec<char>, i: usize, in_block: bool) -> (r: Result<
    (Vec<Syntax>, usize),
    ParseErr,
>)
    requires
        i <= s.len(),
    ensures
        many_outcome(r) == items_at(s@, i as int, in_block),
        r matches Ok((_, end)) ==> i <= end <= s.len(),
        r matches Err(e) ==> e.at <= s.len(),
    decreases s.len() - i, 1nat,
{
    let sep = if in_block {
        Class::SpaceOrComma
    } else {
        Class::Space
    };
    let mut items: Vec<Syntax> = Vec::new();
    let mut k: usize = i;
    assert(after(forest_view(items@), items_at(s@, k as int, in_block)) == items_at(
        s@,
        i as int,
        in_block,
    )) by {
        let r = items_at(s@, k as int, in_block);
        if let Ok((rest, end)) = r {
            assert(Seq::<SyntaxView>::empty() + rest =~= rest);
        }
    }
    loop
        invariant
            i <= k <= s.len(),
            sep == blank(in_block),
            after(forest_view(items@), items_at(s@, k as int, in_block)) == items_at(
                s@,
                i as int,
                in_block,
            ),
        decreases s.len() - k,
    {
        let j = scan(s, k, sep);
        if j >= s.len() || s[j] == '}' {
            assert(forest_view(items@) + Seq::<SyntaxView>::empty() =~= forest_view(items@));
            return Ok((items, j));
        }
        let (e, end) = parse_expr(s, j)?;
        if end < s.len() && s[end] != '}' && !sep.test(s[end]) {
            return Err(ParseErr { at: end });
        }
        proof {
            lemma_forest_view_push(items@, e);
            let front = forest_view(items@);
            let r = items_at(s@, end as int, in_block);
            if let Ok((rest, stop)) = r {
                assert(front.push(e@) + rest =~= front + (seq![e@] + rest));
            }
        }
        items.push(e);
        k = end;
    }
}

/// Parses a program.
///
/// An error says where the input stops being a program: at which character,
/// counted from the first as `0`, or at the length of the input where more
/// was expected.
pub fn full_parse(input: &str) -> (r: Result<Vec<Syntax>, ParseErr>)
    ensures
        program_outcome(r) == program_of(input@),
{
    let s = to_chars(input);
    let (items, end) = parse_items(&s, 0, false)?;
    if end < s.len() || items.len() == 0 {
        Err(ParseErr { at: end })
    } else {
        Ok(items)
    }
}

} // verus!
