//! A reader for EDN (extensible data notation), the text format of the data tables.
//!
//! Accepted: `nil`, `true`, `false`, integers (`i64`), decimal/exponent numbers (kept as
//! their source text), strings with the escapes `\n \t \r \" \\`, keywords (`:name`,
//! `:ns/name`), symbols, vectors `[...]`, lists `(...)` and maps `{...}`. Commas are
//! whitespace and `;` starts a comment that runs to the end of the line. Tagged
//! literals, sets, characters and discards (`#...`, `\c`) are not accepted.
//!
//! A map keeps its entries in source order; looking a key up finds its last entry.

use vstd::prelude::*;

use crate::text::{chars_of, str_eq, string_from_chars};

verus! {

/// An EDN value.
#[derive(Debug, PartialEq)]
pub enum EdnValue {
    Nil,
    Bool(bool),
    Int(i64),
    /// A number with a fraction or an exponent, as written in the source.
    Float(String),
    Str(String),
    /// A keyword's name, without the leading `:`.
    Keyword(String),
    Symbol(String),
    Vector(Vec<EdnValue>),
    List(Vec<EdnValue>),
    /// Map entries in source order.
    Mapping(Vec<(EdnValue, EdnValue)>),
}

/// Mathematical value of an [`EdnValue`].
pub enum EdnView {
    Nil,
    Bool(bool),
    Int(i64),
    Float(Seq<char>),
    Str(Seq<char>),
    Keyword(Seq<char>),
    Symbol(Seq<char>),
    Vector(Seq<EdnView>),
    List(Seq<EdnView>),
    Mapping(Seq<(EdnView, EdnView)>),
}

/// The mathematical value of an EDN value.
pub open spec fn edn_view(e: EdnValue) -> EdnView
    decreases e,
{
    match e {
        EdnValue::Nil => EdnView::Nil,
        EdnValue::Bool(b) => EdnView::Bool(b),
        EdnValue::Int(i) => EdnView::Int(i),
        EdnValue::Float(t) => EdnView::Float(t@),
        EdnValue::Str(t) => EdnView::Str(t@),
        EdnValue::Keyword(t) => EdnView::Keyword(t@),
        EdnValue::Symbol(t) => EdnView::Symbol(t@),
        EdnValue::Vector(v) => EdnView::Vector(
            Seq::new(
                v@.len(),
                |i: int|
                    if 0 <= i < v@.len() {
                        edn_view(v@[i])
                    } else {
                        EdnView::Nil
                    },
            ),
        ),
        EdnValue::List(v) => EdnView::List(
            Seq::new(
                v@.len(),
                |i: int|
                    if 0 <= i < v@.len() {
                        edn_view(v@[i])
                    } else {
                        EdnView::Nil
                    },
            ),
        ),
        EdnValue::Mapping(v) => EdnView::Mapping(
            Seq::new(
                v@.len(),
                |i: int|
                    if 0 <= i < v@.len() {
                        (edn_view(v@[i].0), edn_view(v@[i].1))
                    } else {
                        (EdnView::Nil, EdnView::Nil)
                    },
            ),
        ),
    }
}

impl View for EdnValue {
    type V = EdnView;

    open spec fn view(&self) -> EdnView {
        edn_view(*self)
    }
}

/// Views of a sequence of values.
pub open spec fn views(v: Seq<EdnValue>) -> Seq<EdnView> {
    Seq::new(v.len(), |i: int| v[i]@)
}

/// Views of a sequence of map entries.
pub open spec fn entry_views(v: Seq<(EdnValue, EdnValue)>) -> Seq<(EdnView, EdnView)> {
    Seq::new(v.len(), |i: int| (v[i].0@, v[i].1@))
}

/// The maps among the items of a table, in order; items of any other kind are skipped.
pub open spec fn maps_of(items: Seq<EdnView>) -> Seq<Seq<(EdnView, EdnView)>>
    decreases items.len(),
{
    if items.len() == 0 {
        Seq::empty()
    } else {
        let rest = maps_of(items.drop_last());
        match items.last() {
            EdnView::Mapping(es) => rest.push(es),
            _ => rest,
        }
    }
}

/// A map lookup finds the value of the last entry whose key is the keyword, as a later
/// entry replaces an earlier one; it finds nothing exactly when no key is that keyword.
pub proof fn lemma_lookup_last_entry(es: Seq<(EdnView, EdnView)>, key: Seq<char>)
    ensures
        lookup(es, key) is None <==> (forall|i: int|
            0 <= i < es.len() ==> #[trigger] es[i].0 != EdnView::Keyword(key)),
        lookup(es, key) matches Some(v) ==> exists|i: int|
            0 <= i < es.len() && #[trigger] es[i] == (EdnView::Keyword(key), v) && (forall|j: int|
                i < j < es.len() ==> #[trigger] es[j].0 != EdnView::Keyword(key)),
    decreases es.len(),
{
    if es.len() > 0 {
        let prev = es.drop_last();
        lemma_lookup_last_entry(prev, key);
        let last = es.len() - 1;
        if es.last().0 == EdnView::Keyword(key) {
            assert(es[last] == (EdnView::Keyword(key), es.last().1));
        } else {
            assert forall|i: int| 0 <= i < prev.len() implies #[trigger] es[i] == prev[i] by {}
            if lookup(prev, key) is None {
                assert forall|i: int| 0 <= i < es.len() implies #[trigger] es[i].0
                    != EdnView::Keyword(key) by {
                    if i < last {
                        assert(es[i] == prev[i]);
                    }
                }
            } else {
                let v = lookup(prev, key)->0;
                let i = choose|i: int|
                    0 <= i < prev.len() && #[trigger] prev[i] == (EdnView::Keyword(key), v) && (
                    forall|j: int| i < j < prev.len() ==> #[trigger] prev[j].0 != EdnView::Keyword(
                        key,
                    ));
                assert(es[i] == prev[i]);
                assert forall|j: int| i < j < es.len() implies #[trigger] es[j].0 != EdnView::Keyword(
                    key,
                ) by {
                    if j < last {
                        assert(es[j] == prev[j]);
                    }
                }
                assert(prev[i].0 == EdnView::Keyword(key));
            }
        }
    }
}

// ---------------------------------------------------------------------------
// The grammar, as spec functions over the characters of the source.
// ---------------------------------------------------------------------------

/// Whitespace (commas included).
pub open spec fn is_ws(c: char) -> bool {
    c == ' ' || c == '\t' || c == '\n' || c == '\r' || c == ','
}

/// Characters that end a token.
pub open spec fn is_delim(c: char) -> bool {
    is_ws(c) || c == '(' || c == ')' || c == '[' || c == ']' || c == '{' || c == '}' || c == '"'
        || c == ';'
}

pub open spec fn is_digit(c: char) -> bool {
    '0' <= c && c <= '9'
}

/// Position of the first character at or after `p` that is neither whitespace nor in a
/// comment (`in_comment`: `p` lies inside a comment).
pub open spec fn skip_from(s: Seq<char>, p: int, in_comment: bool) -> int
    decreases s.len() - p,
{
    if p < 0 || p >= s.len() {
        p
    } else if in_comment {
        skip_from(s, p + 1, s[p] != '\n')
    } else if is_ws(s[p]) {
        skip_from(s, p + 1, false)
    } else if s[p] == ';' {
        skip_from(s, p + 1, true)
    } else {
        p
    }
}

/// Position of the first character at or after `p` outside whitespace and comments.
pub open spec fn skip_ws(s: Seq<char>, p: int) -> int {
    skip_from(s, p, false)
}

/// End of the token starting at `p`.
pub open spec fn token_end(s: Seq<char>, p: int) -> int
    decreases s.len() - p,
{
    if p < 0 || p >= s.len() || is_delim(s[p]) {
        p
    } else {
        token_end(s, p + 1)
    }
}

/// The character an escape `\c` stands for inside a string.
pub open spec fn escaped(c: char) -> Option<char> {
    if c == 'n' {
        Some('\n')
    } else if c == 't' {
        Some('\t')
    } else if c == 'r' {
        Some('\r')
    } else if c == '"' {
        Some('"')
    } else if c == '\\' {
        Some('\\')
    } else {
        None
    }
}

/// The contents of the string whose body starts at `p` (just past the opening quote),
/// and the position just past the closing quote.
pub open spec fn string_body(s: Seq<char>, p: int) -> Option<(Seq<char>, int)>
    decreases s.len() - p,
{
    if p < 0 || p >= s.len() {
        None
    } else if s[p] == '"' {
        Some((Seq::empty(), p + 1))
    } else if s[p] == '\\' {
        if p + 1 >= s.len() {
            None
        } else {
            match escaped(s[p + 1]) {
                None => None,
                Some(c) => match string_body(s, p + 2) {
                    None => None,
                    Some((t, e)) => Some((seq![c] + t, e)),
                },
            }
        }
    } else {
        match string_body(s, p + 1) {
            None => None,
            Some((t, e)) => Some((seq![s[p]] + t, e)),
        }
    }
}

/// Value of a string of decimal digits.
pub open spec fn digits_value(d: Seq<char>) -> nat
    decreases d.len(),
{
    if d.len() == 0 {
        0
    } else {
        10 * digits_value(d.drop_last()) + ((d.last() as int) - ('0' as int)) as nat
    }
}

/// The token looks like a number: a digit, or a sign followed by a digit.
pub open spec fn starts_number(t: Seq<char>) -> bool {
    t.len() > 0 && (is_digit(t[0]) || ((t[0] == '+' || t[0] == '-') && t.len() > 1 && is_digit(
        t[1],
    )))
}

/// The digits of a number token (its sign removed).
pub open spec fn unsigned_part(t: Seq<char>) -> Seq<char> {
    if t.len() > 0 && (t[0] == '+' || t[0] == '-') {
        t.drop_first()
    } else {
        t
    }
}

/// An integer token: an optional sign, then digits only.
pub open spec fn is_int_text(t: Seq<char>) -> bool {
    starts_number(t) && forall|i: int|
        0 <= i < unsigned_part(t).len() ==> is_digit(#[trigger] unsigned_part(t)[i])
}

/// A decimal/exponent number token: digits, `.`, `e`, `E`, `+` and `-` only.
pub open spec fn is_float_text(t: Seq<char>) -> bool {
    starts_number(t) && forall|i: int|
        0 <= i < t.len() ==> (is_digit(#[trigger] t[i]) || t[i] == '.' || t[i] == 'e' || t[i]
            == 'E' || t[i] == '+' || t[i] == '-')
}

/// Value of an integer token, if it fits in an `i64`.
pub open spec fn int_value(t: Seq<char>) -> Option<i64> {
    let m = digits_value(unsigned_part(t));
    if t[0] == '-' {
        if m <= 0x8000_0000_0000_0000 {
            Some((-m) as i64)
        } else {
            None
        }
    } else {
        if m < 0x8000_0000_0000_0000 {
            Some(m as i64)
        } else {
            None
        }
    }
}

/// The value a bare token stands for.
pub open spec fn token_value(t: Seq<char>) -> Option<EdnView> {
    if t == seq!['n', 'i', 'l'] {
        Some(EdnView::Nil)
    } else if t == seq!['t', 'r', 'u', 'e'] {
        Some(EdnView::Bool(true))
    } else if t == seq!['f', 'a', 'l', 's', 'e'] {
        Some(EdnView::Bool(false))
    } else if starts_number(t) {
        if is_int_text(t) {
            match int_value(t) {
                Some(i) => Some(EdnView::Int(i)),
                None => None,
            }
        } else if is_float_text(t) {
            Some(EdnView::Float(t))
        } else {
            None
        }
    } else {
        Some(EdnView::Symbol(t))
    }
}

/// The value starting exactly at `q`, and the position just past it.
pub open spec fn value_at(s: Seq<char>, q: int) -> Option<(EdnView, int)>
    decreases s.len() - q, 0int,
{
    if q < 0 || q >= s.len() {
        None
    } else {
        let c = s[q];
        if c == '{' {
            match entries_from(s, q + 1) {
                None => None,
                Some((es, e)) => Some((EdnView::Mapping(es), e)),
            }
        } else if c == '[' {
            match items_from(s, q + 1, ']') {
                None => None,
                Some((vs, e)) => Some((EdnView::Vector(vs), e)),
            }
        } else if c == '(' {
            match items_from(s, q + 1, ')') {
                None => None,
                Some((vs, e)) => Some((EdnView::List(vs), e)),
            }
        } else if c == '"' {
            match string_body(s, q + 1) {
                None => None,
                Some((t, e)) => Some((EdnView::Str(t), e)),
            }
        } else if c == ':' {
            let e = token_end(s, q + 1);
            if e == q + 1 {
                None
            } else {
                Some((EdnView::Keyword(s.subrange(q + 1, e)), e))
            }
        } else if c == ')' || c == ']' || c == '}' || c == '#' || c == '\\' || is_delim(c) {
            None
        } else {
            let e = token_end(s, q);
            match token_value(s.subrange(q, e)) {
                None => None,
                Some(v) => Some((v, e)),
            }
        }
    }
}

/// The values from `p` up to the closing `close`, and the position just past it.
pub open spec fn items_from(s: Seq<char>, p: int, close: char) -> Option<(Seq<EdnView>, int)>
    decreases s.len() - p, 1int,
{
    let q = skip_ws(s, p);
    if p < 0 || q < p || q >= s.len() {
        None
    } else if s[q] == close {
        Some((Seq::empty(), q + 1))
    } else {
        match value_at(s, q) {
            None => None,
            Some((v, r)) => if r <= q || r > s.len() {
                None
            } else {
                match items_from(s, r, close) {
                    None => None,
                    Some((vs, e)) => Some((seq![v] + vs, e)),
                }
            },
        }
    }
}

/// The key/value entries from `p` up to the closing `}`, and the position just past it.
pub open spec fn entries_from(s: Seq<char>, p: int) -> Option<(Seq<(EdnView, EdnView)>, int)>
    decreases s.len() - p, 1int,
{
    let q = skip_ws(s, p);
    if p < 0 || q < p || q >= s.len() {
        None
    } else if s[q] == '}' {
        Some((Seq::empty(), q + 1))
    } else {
        match value_at(s, q) {
            None => None,
            Some((k, r)) => if r <= q || r > s.len() {
                None
            } else {
                let q2 = skip_ws(s, r);
                if q2 < r || q2 >= s.len() || s[q2] == '}' {
                    None
                } else {
                    match value_at(s, q2) {
                        None => None,
                        Some((v, r2)) => if r2 <= q2 || r2 > s.len() {
                            None
                        } else {
                            match entries_from(s, r2) {
                                None => None,
                                Some((es, e)) => Some((seq![(k, v)] + es, e)),
                            }
                        },
                    }
                }
            },
        }
    }
}

/// The single value an EDN source holds (surrounded by whitespace and comments only).
pub open spec fn parse_spec(s: Seq<char>) -> Option<EdnView> {
    match value_at(s, skip_ws(s, 0)) {
        None => None,
        Some((v, e)) => if skip_ws(s, e) == s.len() {
            Some(v)
        } else {
            None
        },
    }
}

/// The entries of the map an EDN source holds, or `None` when it holds no map.
pub open spec fn root_map_spec(s: Seq<char>) -> Option<Seq<(EdnView, EdnView)>> {
    match parse_spec(s) {
        Some(EdnView::Mapping(es)) => Some(es),
        _ => None,
    }
}

/// The view of an optional value.
pub open spec fn opt_view(v: Option<&EdnValue>) -> Option<EdnView> {
    match v {
        Some(x) => Some(x@),
        None => None,
    }
}

/// The text of a string field; `""` when missing or not a string.
pub open spec fn str_field(v: Option<EdnView>) -> Seq<char> {
    match v {
        Some(EdnView::Str(t)) => t,
        _ => Seq::empty(),
    }
}

/// The text of a string field; `None` when missing or not a string.
pub open spec fn opt_str_field(v: Option<EdnView>) -> Option<Seq<char>> {
    match v {
        Some(EdnView::Str(t)) => Some(t),
        _ => None,
    }
}

/// The name of a keyword field; `""` when missing or not a keyword.
pub open spec fn keyword_field(v: Option<EdnView>) -> Seq<char> {
    match v {
        Some(EdnView::Keyword(k)) => k,
        _ => Seq::empty(),
    }
}

/// A numeric field as read: an integer, the text of a decimal number, or nothing usable.
#[derive(Debug, Clone, PartialEq, Eq)]
pub enum NumField {
    /// Missing, or not a number.
    Absent,
    Int(i64),
    /// A number with a fraction or an exponent, as written.
    Decimal(String),
}

/// Mathematical value of a [`NumField`].
pub enum NumFieldView {
    Absent,
    Int(i64),
    Decimal(Seq<char>),
}

impl View for NumField {
    type V = NumFieldView;

    open spec fn view(&self) -> NumFieldView {
        match self {
            NumField::Absent => NumFieldView::Absent,
            NumField::Int(i) => NumFieldView::Int(*i),
            NumField::Decimal(t) => NumFieldView::Decimal(t@),
        }
    }
}

/// The numeric content of a field.
pub open spec fn num_field_of(v: Option<EdnView>) -> NumFieldView {
    match v {
        Some(EdnView::Int(i)) => NumFieldView::Int(i),
        Some(EdnView::Float(t)) => NumFieldView::Decimal(t),
        _ => NumFieldView::Absent,
    }
}

/// Why a named table could not be read from a source.
#[derive(Debug, Clone, Copy, PartialEq, Eq, Structural)]
pub enum TableError {
    /// The source does not hold a map.
    NotAMap,
    /// The map has no entry for the key, or its value has the wrong shape.
    Missing,
}

/// The vector stored under the keyword `key` in the map a source holds.
pub open spec fn vector_table_spec(s: Seq<char>, key: Seq<char>) -> Result<Seq<EdnView>, TableError> {
    match root_map_spec(s) {
        None => Err(TableError::NotAMap),
        Some(root) => match lookup(root, key) {
            Some(EdnView::Vector(items)) => Ok(items),
            _ => Err(TableError::Missing),
        },
    }
}

/// The map stored under the keyword `key` in the map a source holds.
pub open spec fn map_table_spec(s: Seq<char>, key: Seq<char>) -> Result<
    Seq<(EdnView, EdnView)>,
    TableError,
> {
    match root_map_spec(s) {
        None => Err(TableError::NotAMap),
        Some(root) => match lookup(root, key) {
            Some(EdnView::Mapping(es)) => Ok(es),
            _ => Err(TableError::Missing),
        },
    }
}

/// The value of the last entry of `es` whose key is the keyword `key`.
pub open spec fn lookup(es: Seq<(EdnView, EdnView)>, key: Seq<char>) -> Option<EdnView>
    decreases es.len(),
{
    if es.len() == 0 {
        None
    } else if es.last().0 == EdnView::Keyword(key) {
        Some(es.last().1)
    } else {
        lookup(es.drop_last(), key)
    }
}

// ---------------------------------------------------------------------------
// Facts about the grammar.
// ---------------------------------------------------------------------------

proof fn lemma_skip_from_bounds(s: Seq<char>, p: int, in_comment: bool)
    requires
        0 <= p <= s.len(),
    ensures
        p <= skip_from(s, p, in_comment) <= s.len(),
    decreases s.len() - p,
{
    if p < s.len() {
        if in_comment {
            lemma_skip_from_bounds(s, p + 1, s[p] != '\n');
        } else if is_ws(s[p]) {
            lemma_skip_from_bounds(s, p + 1, false);
        } else if s[p] == ';' {
            lemma_skip_from_bounds(s, p + 1, true);
        }
    }
}

proof fn lemma_token_end_bounds(s: Seq<char>, p: int)
    requires
        0 <= p <= s.len(),
    ensures
        p <= token_end(s, p) <= s.len(),
        p < s.len() && !is_delim(s[p]) ==> p < token_end(s, p),
    decreases s.len() - p,
{
    if p < s.len() && !is_delim(s[p]) {
        lemma_token_end_bounds(s, p + 1);
    }
}

proof fn lemma_string_body_bounds(s: Seq<char>, p: int)
    requires
        string_body(s, p) is Some,
    ensures
        p < string_body(s, p).unwrap().1 <= s.len(),
    decreases s.len() - p,
{
    if s[p] == '"' {
    } else if s[p] == '\\' {
        lemma_string_body_bounds(s, p + 2);
    } else {
        lemma_string_body_bounds(s, p + 1);
    }
}

proof fn lemma_items_bounds(s: Seq<char>, p: int, close: char)
    requires
        items_from(s, p, close) is Some,
    ensures
        p < items_from(s, p, close).unwrap().1 <= s.len(),
    decreases s.len() - p,
{
    let q = skip_ws(s, p);
    if s[q] != close {
        let (v, r) = value_at(s, q).unwrap();
        lemma_items_bounds(s, r, close);
    }
}

proof fn lemma_entries_bounds(s: Seq<char>, p: int)
    requires
        entries_from(s, p) is Some,
    ensures
        p < entries_from(s, p).unwrap().1 <= s.len(),
    decreases s.len() - p,
{
    let q = skip_ws(s, p);
    if s[q] != '}' {
        let (k, r) = value_at(s, q).unwrap();
        let q2 = skip_ws(s, r);
        let (v, r2) = value_at(s, q2).unwrap();
        lemma_entries_bounds(s, r2);
    }
}

/// A value spans at least one character and ends inside the source.
proof fn lemma_value_bounds(s: Seq<char>, q: int)
    requires
        value_at(s, q) is Some,
    ensures
        q < value_at(s, q).unwrap().1 <= s.len(),
{
    let c = s[q];
    if c == '{' {
        lemma_entries_bounds(s, q + 1);
    } else if c == '[' {
        lemma_items_bounds(s, q + 1, ']');
    } else if c == '(' {
        lemma_items_bounds(s, q + 1, ')');
    } else if c == '"' {
        lemma_string_body_bounds(s, q + 1);
    } else if c == ':' {
        lemma_token_end_bounds(s, q + 1);
    } else {
        lemma_token_end_bounds(s, q);
    }
}

proof fn lemma_digits_monotone(d: Seq<char>, i: int, j: int)
    requires
        0 <= i <= j <= d.len(),
        forall|k: int| 0 <= k < d.len() ==> is_digit(#[trigger] d[k]),
    ensures
        digits_value(d.take(i)) <= digits_value(d.take(j)),
    decreases j - i,
{
    if i < j {
        lemma_digits_monotone(d, i, j - 1);
        assert(d.take(j).drop_last() =~= d.take(j - 1));
    }
}

// ---------------------------------------------------------------------------
// The reader.
// ---------------------------------------------------------------------------

/// Prepends `a` to the values of a parse result.
pub open spec fn prepend<T>(a: Seq<T>, r: Option<(Seq<T>, int)>) -> Option<(Seq<T>, int)> {
    match r {
        Some((vs, e)) => Some((a + vs, e)),
        None => None,
    }
}

fn skip_ws_exec(s: &[char], p: usize) -> (q: usize)
    requires
        p <= s@.len(),
    ensures
        q as int == skip_ws(s@, p as int),
        p <= q <= s@.len(),
{
    let mut pos = p;
    let mut in_comment = false;
    while pos < s.len()
        invariant
            p <= pos <= s@.len(),
            skip_ws(s@, p as int) == skip_from(s@, pos as int, in_comment),
        decreases s@.len() - pos,
    {
        let c = s[pos];
        if in_comment {
            in_comment = c != '\n';
        } else if c == ' ' || c == '\t' || c == '\n' || c == '\r' || c == ',' {
        } else if c == ';' {
            in_comment = true;
        } else {
            return pos;
        }
        pos = pos + 1;
    }
    pos
}

fn token_end_exec(s: &[char], p: usize) -> (e: usize)
    requires
        p <= s@.len(),
    ensures
        e as int == token_end(s@, p as int),
        p <= e <= s@.len(),
{
    let mut pos = p;
    while pos < s.len()
        invariant
            p <= pos <= s@.len(),
            token_end(s@, p as int) == token_end(s@, pos as int),
        decreases s@.len() - pos,
    {
        let c = s[pos];
        if c == ' ' || c == '\t' || c == '\n' || c == '\r' || c == ',' || c == '(' || c == ')'
            || c == '[' || c == ']' || c == '{' || c == '}' || c == '"' || c == ';' {
            return pos;
        }
        pos = pos + 1;
    }
    pos
}

fn string_body_exec(s: &[char], p: usize) -> (r: Option<(Vec<char>, usize)>)
    requires
        p <= s@.len(),
    ensures
        match r {
            Some((t, e)) => string_body(s@, p as int) == Some((t@, e as int)),
            None => string_body(s@, p as int) is None,
        },
{
    let mut acc: Vec<char> = Vec::new();
    let mut pos = p;
    assert(acc@ + Seq::<char>::empty() =~= acc@);
    while pos < s.len()
        invariant
            p <= pos <= s@.len(),
            string_body(s@, p as int) == prepend(acc@, string_body(s@, pos as int)),
        decreases s@.len() - pos,
    {
        let c = s[pos];
        if c == '"' {
            assert(acc@ + Seq::<char>::empty() =~= acc@);
            return Some((acc, pos + 1));
        } else if c == '\\' {
            if pos + 1 >= s.len() {
                return None;
            }
            let d = s[pos + 1];
            let x = if d == 'n' {
                '\n'
            } else if d == 't' {
                '\t'
            } else if d == 'r' {
                '\r'
            } else if d == '"' {
                '"'
            } else if d == '\\' {
                '\\'
            } else {
                return None;
            };
            let ghost old_acc = acc@;
            acc.push(x);
            proof {
                match string_body(s@, pos + 2) {
                    Some((t, e)) => {
                        assert(old_acc + (seq![x] + t) =~= acc@ + t);
                    },
                    None => {},
                }
            }
            pos = pos + 2;
        } else {
            let ghost old_acc = acc@;
            acc.push(c);
            proof {
                match string_body(s@, pos + 1) {
                    Some((t, e)) => {
                        assert(old_acc + (seq![c] + t) =~= acc@ + t);
                    },
                    None => {},
                }
            }
            pos = pos + 1;
        }
    }
    None
}

fn is_digit_exec(c: char) -> (r: bool)
    ensures
        r == is_digit(c),
{
    '0' <= c && c <= '9'
}

/// Value of the integer token `s[q..e]`.
fn int_token(s: &[char], q: usize, e: usize) -> (r: Option<i64>)
    requires
        q < e <= s@.len(),
        is_int_text(s@.subrange(q as int, e as int)),
    ensures
        r == int_value(s@.subrange(q as int, e as int)),
{
    let ghost t = s@.subrange(q as int, e as int);
    assert(t[0] == s@[q as int]);
    let neg = s[q] == '-';
    let start = if s[q] == '+' || s[q] == '-' {
        q + 1
    } else {
        q
    };
    let ghost d = s@.subrange(start as int, e as int);
    assert(unsigned_part(t) =~= d);
    let mut acc: u128 = 0;
    let mut i = start;
    assert(d.take(0) =~= Seq::<char>::empty());
    while i < e
        invariant
            q <= start <= i <= e <= s@.len(),
            d == s@.subrange(start as int, e as int),
            unsigned_part(s@.subrange(q as int, e as int)) == d,
            forall|k: int| 0 <= k < d.len() ==> is_digit(#[trigger] d[k]),
            acc == digits_value(d.take(i - start)),
            acc <= 0x8000_0000_0000_0000,
        decreases e - i,
    {
        let c = s[i];
        assert(c == d[i - start]);
        assert(is_digit(c));
        let digit = (c as u32 - '0' as u32) as u128;
        assert(digit == (c as int) - ('0' as int));
        assert(d.take(i - start + 1).drop_last() =~= d.take(i - start));
        assert(d.take(i - start + 1).last() == c);
        assert(digits_value(d.take(i - start + 1)) == 10 * digits_value(d.take(i - start)) + digit);
        acc = acc * 10 + digit;
        i = i + 1;
        if acc > 0x8000_0000_0000_0000 {
            proof {
                lemma_digits_monotone(d, i - start, d.len() as int);
                assert(d.take(d.len() as int) =~= d);
            }
            return None;
        }
    }
    assert(d.take(e - start) =~= d);
    if neg {
        let m = acc as i128;
        Some((0 - m) as i64)
    } else if acc < 0x8000_0000_0000_0000 {
        Some(acc as i64)
    } else {
        None
    }
}

/// The value the bare token `s[q..e]` stands for.
fn token_value_exec(s: &[char], q: usize, e: usize) -> (r: Option<EdnValue>)
    requires
        q < e <= s@.len(),
    ensures
        match r {
            Some(v) => token_value(s@.subrange(q as int, e as int)) == Some(v@),
            None => token_value(s@.subrange(q as int, e as int)) is None,
        },
{
    let ghost t = s@.subrange(q as int, e as int);
    let n = e - q;
    if n == 3 && s[q] == 'n' && s[q + 1] == 'i' && s[q + 2] == 'l' {
        assert(t =~= seq!['n', 'i', 'l']);
        return Some(EdnValue::Nil);
    }
    if n == 4 && s[q] == 't' && s[q + 1] == 'r' && s[q + 2] == 'u' && s[q + 3] == 'e' {
        assert(t =~= seq!['t', 'r', 'u', 'e']);
        assert(t != seq!['n', 'i', 'l']);
        return Some(EdnValue::Bool(true));
    }
    if n == 5 && s[q] == 'f' && s[q + 1] == 'a' && s[q + 2] == 'l' && s[q + 3] == 's' && s[q + 4]
        == 'e' {
        assert(t =~= seq!['f', 'a', 'l', 's', 'e']);
        assert(t != seq!['n', 'i', 'l']);
        assert(t != seq!['t', 'r', 'u', 'e']);
        return Some(EdnValue::Bool(false));
    }
    assert(t != seq!['n', 'i', 'l']) by {
        if t == seq!['n', 'i', 'l'] {
            assert(t[0] == s@[q as int] && t[1] == s@[q + 1] && t[2] == s@[q + 2]);
        }
    }
    assert(t != seq!['t', 'r', 'u', 'e']) by {
        if t == seq!['t', 'r', 'u', 'e'] {
            assert(t[0] == s@[q as int] && t[1] == s@[q + 1] && t[2] == s@[q + 2] && t[3] == s@[q
                + 3]);
        }
    }
    assert(t != seq!['f', 'a', 'l', 's', 'e']) by {
        if t == seq!['f', 'a', 'l', 's', 'e'] {
            assert(t[0] == s@[q as int] && t[1] == s@[q + 1] && t[2] == s@[q + 2] && t[3] == s@[q
                + 3] && t[4] == s@[q + 4]);
        }
    }
    let c0 = s[q];
    assert(c0 == t[0]);
    let number = is_digit_exec(c0) || ((c0 == '+' || c0 == '-') && n > 1 && is_digit_exec(
        s[q + 1],
    ));
    if !number {
        return Some(EdnValue::Symbol(string_from_chars(&s[q..e])));
    }
    assert(n > 1 ==> t[1] == s@[q + 1]);
    // An integer: optional sign, then digits only.
    let start = if c0 == '+' || c0 == '-' {
        q + 1
    } else {
        q
    };
    assert(unsigned_part(t) =~= s@.subrange(start as int, e as int));
    let mut all_digits = true;
    let mut i = start;
    while i < e
        invariant
            q <= start <= i <= e <= s@.len(),
            unsigned_part(t) == s@.subrange(start as int, e as int),
            all_digits <==> forall|k: int| start <= k < i ==> is_digit(#[trigger] s@[k]),
        decreases e - i,
    {
        if !is_digit_exec(s[i]) {
            all_digits = false;
        }
        i = i + 1;
    }
    assert(all_digits <==> forall|k: int|
        0 <= k < unsigned_part(t).len() ==> is_digit(#[trigger] unsigned_part(t)[k])) by {
        if !all_digits {
            let k = choose|k: int| start <= k < e && !is_digit(#[trigger] s@[k]);
            assert(unsigned_part(t)[k - start] == s@[k]);
        }
    }
    if all_digits {
        return match int_token(s, q, e) {
            Some(v) => Some(EdnValue::Int(v)),
            None => None,
        };
    }
    // A decimal/exponent number.
    let mut ok = true;
    let mut j = q;
    while j < e
        invariant
            q <= j <= e <= s@.len(),
            t == s@.subrange(q as int, e as int),
            ok <==> forall|k: int|
                q <= k < j ==> (is_digit(#[trigger] s@[k]) || s@[k] == '.' || s@[k] == 'e'
                    || s@[k] == 'E' || s@[k] == '+' || s@[k] == '-'),
        decreases e - j,
    {
        let c = s[j];
        if !(is_digit_exec(c) || c == '.' || c == 'e' || c == 'E' || c == '+' || c == '-') {
            ok = false;
        }
        j = j + 1;
    }
    assert(ok <==> is_float_text(t)) by {
        if !ok {
            let k = choose|k: int|
                q <= k < e && !(is_digit(#[trigger] s@[k]) || s@[k] == '.' || s@[k] == 'e'
                    || s@[k] == 'E' || s@[k] == '+' || s@[k] == '-');
            assert(t[k - q] == s@[k]);
        } else {
            assert forall|i: int| 0 <= i < t.len() implies (is_digit(#[trigger] t[i]) || t[i]
                == '.' || t[i] == 'e' || t[i] == 'E' || t[i] == '+' || t[i] == '-') by {
                assert(t[i] == s@[q + i]);
            }
        }
    }
    if ok {
        Some(EdnValue::Float(string_from_chars(&s[q..e])))
    } else {
        None
    }
}

proof fn lemma_views_push(a: Seq<EdnValue>, v: EdnValue)
    ensures
        views(a.push(v)) == views(a).push(v@),
{
    assert(views(a.push(v)) =~= views(a).push(v@));
}

/// The value starting exactly at `q`, and the position just past it.
fn value_at_exec(s: &[char], q: usize) -> (r: Option<(EdnValue, usize)>)
    requires
        q <= s@.len(),
    ensures
        match r {
            Some((v, e)) => value_at(s@, q as int) == Some((v@, e as int)),
            None => value_at(s@, q as int) is None,
        },
    decreases s@.len() - q, 0int,
{
    if q >= s.len() {
        return None;
    }
    let c = s[q];
    if c == '{' {
        match entries_exec(s, q + 1) {
            None => None,
            Some((es, e)) => {
                let ghost w = Seq::new(
                    es@.len(),
                    |i: int|
                        if 0 <= i < es@.len() {
                            (edn_view(es@[i].0), edn_view(es@[i].1))
                        } else {
                            (EdnView::Nil, EdnView::Nil)
                        },
                );
                assert forall|i: int| 0 <= i < es@.len() implies #[trigger] entry_views(es@)[i] == w[i] by {
                    assert(entry_views(es@)[i] == (es@[i].0@, es@[i].1@));
                }
                assert(entry_views(es@) =~= w);
                let v = EdnValue::Mapping(es);
                assert(v@ is Mapping);
                assert(v@->Mapping_0 =~= w);
                assert(value_at(s@, q as int) == Some((v@, e as int)));
                Some((v, e))
            },
        }
    } else if c == '[' || c == '(' {
        let close = if c == '[' {
            ']'
        } else {
            ')'
        };
        match items_exec(s, q + 1, close) {
            None => None,
            Some((vs, e)) => {
                let ghost w = Seq::new(
                    vs@.len(),
                    |i: int|
                        if 0 <= i < vs@.len() {
                            edn_view(vs@[i])
                        } else {
                            EdnView::Nil
                        },
                );
                assert(views(vs@) =~= w);
                if c == '[' {
                    let v = EdnValue::Vector(vs);
                    assert(v@ is Vector);
                    assert(v@->Vector_0 =~= w);
                    assert(value_at(s@, q as int) == Some((v@, e as int)));
                    Some((v, e))
                } else {
                    let v = EdnValue::List(vs);
                    assert(v@ is List);
                    assert(v@->List_0 =~= w);
                    assert(value_at(s@, q as int) == Some((v@, e as int)));
                    Some((v, e))
                }
            },
        }
    } else if c == '"' {
        match string_body_exec(s, q + 1) {
            None => None,
            Some((t, e)) => Some((EdnValue::Str(string_from_chars(t.as_slice())), e)),
        }
    } else if c == ':' {
        let e = token_end_exec(s, q + 1);
        if e == q + 1 {
            None
        } else {
            Some((EdnValue::Keyword(string_from_chars(&s[q + 1..e])), e))
        }
    } else if c == ')' || c == ']' || c == '}' || c == '#' || c == '\\' || c == ' ' || c == '\t'
        || c == '\n' || c == '\r' || c == ',' || c == ';' {
        None
    } else {
        let e = token_end_exec(s, q);
        proof {
            lemma_token_end_bounds(s@, q as int);
        }
        match token_value_exec(s, q, e) {
            None => None,
            Some(v) => Some((v, e)),
        }
    }
}

/// The values from `p` up to the closing `close`.
fn items_exec(s: &[char], p: usize, close: char) -> (r: Option<(Vec<EdnValue>, usize)>)
    requires
        p <= s@.len(),
    ensures
        match r {
            Some((vs, e)) => items_from(s@, p as int, close) == Some((views(vs@), e as int)),
            None => items_from(s@, p as int, close) is None,
        },
    decreases s@.len() - p, 1int,
{
    let mut acc: Vec<EdnValue> = Vec::new();
    let mut pos = p;
    assert(views(acc@) =~= Seq::<EdnView>::empty());
    assert(prepend(Seq::<EdnView>::empty(), items_from(s@, p as int, close)) =~= items_from(
        s@,
        p as int,
        close,
    )) by {
        match items_from(s@, p as int, close) {
            Some((vs, e)) => {
                assert(Seq::<EdnView>::empty() + vs =~= vs);
            },
            None => {},
        }
    }
    loop
        invariant
            p <= pos <= s@.len(),
            items_from(s@, p as int, close) == prepend(views(acc@), items_from(s@, pos as int, close)),
        decreases s@.len() - pos,
    {
        let q = skip_ws_exec(s, pos);
        if q >= s.len() {
            return None;
        }
        if s[q] == close {
            assert(views(acc@) + Seq::<EdnView>::empty() =~= views(acc@));
            return Some((acc, q + 1));
        }
        match value_at_exec(s, q) {
            None => {
                return None;
            },
            Some((v, r)) => {
                proof {
                    lemma_value_bounds(s@, q as int);
                }
                let ghost old_acc = acc@;
                let ghost old_views = views(acc@);
                acc.push(v);
                proof {
                    lemma_views_push(old_acc, v);
                }
                proof {
                    match items_from(s@, r as int, close) {
                        Some((vs, e)) => {
                            assert(old_views + (seq![v@] + vs) =~= old_views.push(v@) + vs);
                        },
                        None => {},
                    }
                }
                pos = r;
            },
        }
    }
}

/// The key/value entries from `p` up to the closing `}`.
fn entries_exec(s: &[char], p: usize) -> (r: Option<(Vec<(EdnValue, EdnValue)>, usize)>)
    requires
        p <= s@.len(),
    ensures
        match r {
            Some((es, e)) => entries_from(s@, p as int) == Some((entry_views(es@), e as int)),
            None => entries_from(s@, p as int) is None,
        },
    decreases s@.len() - p, 1int,
{
    let mut acc: Vec<(EdnValue, EdnValue)> = Vec::new();
    let mut pos = p;
    assert(entry_views(acc@) =~= Seq::<(EdnView, EdnView)>::empty());
    assert(prepend(Seq::<(EdnView, EdnView)>::empty(), entries_from(s@, p as int))
        =~= entries_from(s@, p as int)) by {
        match entries_from(s@, p as int) {
            Some((vs, e)) => {
                assert(Seq::<(EdnView, EdnView)>::empty() + vs =~= vs);
            },
            None => {},
        }
    }
    loop
        invariant
            p <= pos <= s@.len(),
            entries_from(s@, p as int) == prepend(entry_views(acc@), entries_from(s@, pos as int)),
        decreases s@.len() - pos,
    {
        let q = skip_ws_exec(s, pos);
        if q >= s.len() {
            return None;
        }
        if s[q] == '}' {
            assert(entry_views(acc@) + Seq::<(EdnView, EdnView)>::empty() =~= entry_views(acc@));
            return Some((acc, q + 1));
        }
        let (k, r) = match value_at_exec(s, q) {
            None => {
                return None;
            },
            Some(x) => x,
        };
        proof {
            lemma_value_bounds(s@, q as int);
        }
        let q2 = skip_ws_exec(s, r);
        if q2 >= s.len() || s[q2] == '}' {
            return None;
        }
        let (v, r2) = match value_at_exec(s, q2) {
            None => {
                return None;
            },
            Some(x) => x,
        };
        proof {
            lemma_value_bounds(s@, q2 as int);
        }
        let ghost old_views = entry_views(acc@);
        let ghost kv = (k@, v@);
        acc.push((k, v));
        proof {
            assert(entry_views(acc@) =~= old_views.push(kv));
            match entries_from(s@, r2 as int) {
                Some((es, e)) => {
                    assert(old_views + (seq![kv] + es) =~= old_views.push(kv) + es);
                },
                None => {},
            }
        }
        pos = r2;
    }
}

proof fn lemma_vector_view(v: Vec<EdnValue>)
    ensures
        EdnValue::Vector(v)@ == EdnView::Vector(views(v@)),
        EdnValue::List(v)@ == EdnView::List(views(v@)),
{
    let x = EdnValue::Vector(v)@;
    let y = EdnValue::List(v)@;
    assert(x->Vector_0 =~= views(v@));
    assert(y->List_0 =~= views(v@));
}

pub(crate) proof fn lemma_mapping_view(v: Vec<(EdnValue, EdnValue)>)
    ensures
        EdnValue::Mapping(v)@ == EdnView::Mapping(entry_views(v@)),
{
    let x = EdnValue::Mapping(v)@;
    assert forall|i: int| 0 <= i < v@.len() implies #[trigger] x->Mapping_0[i] == entry_views(
        v@,
    )[i] by {
        assert(entry_views(v@)[i] == (v@[i].0@, v@[i].1@));
    }
    assert(x->Mapping_0 =~= entry_views(v@));
}

/// Reads the single value an EDN source holds.
pub fn parse_edn(src: &str) -> (r: Option<EdnValue>)
    ensures
        match r {
            Some(v) => parse_spec(src@) == Some(v@),
            None => parse_spec(src@) is None,
        },
{
    let cs = chars_of(src);
    let s = cs.as_slice();
    let q = skip_ws_exec(s, 0);
    match value_at_exec(s, q) {
        None => None,
        Some((v, e)) => {
            proof {
                lemma_value_bounds(s@, q as int);
            }
            if skip_ws_exec(s, e) == s.len() {
                Some(v)
            } else {
                None
            }
        },
    }
}

/// The entries of the map an EDN source holds; `None` when the source is malformed or
/// holds something other than a map.
pub fn root_map(src: &str) -> (r: Option<Vec<(EdnValue, EdnValue)>>)
    ensures
        match r {
            Some(es) => root_map_spec(src@) == Some(entry_views(es@)),
            None => root_map_spec(src@) is None,
        },
{
    match parse_edn(src) {
        Some(EdnValue::Mapping(es)) => {
            proof {
                lemma_mapping_view(es);
            }
            Some(es)
        },
        _ => None,
    }
}

proof fn lemma_lookup_take(es: Seq<(EdnView, EdnView)>, i: int, key: Seq<char>)
    requires
        0 < i <= es.len(),
    ensures
        lookup(es.take(i), key) == (if es[i - 1].0 == EdnView::Keyword(key) {
            Some(es[i - 1].1)
        } else {
            lookup(es.take(i - 1), key)
        }),
{
    assert(es.take(i).drop_last() =~= es.take(i - 1));
}

/// Index of the last entry of `m` whose key is the keyword `key`.
pub fn last_key_index(m: &[(EdnValue, EdnValue)], key: &str) -> (r: Option<usize>)
    ensures
        match r {
            Some(i) => i < m@.len() && lookup(entry_views(m@), key@) == Some(m@[i as int].1@),
            None => lookup(entry_views(m@), key@) is None,
        },
{
    let ghost es = entry_views(m@);
    let mut i = m.len();
    assert(es.take(m@.len() as int) =~= es);
    while i > 0
        invariant
            i <= m@.len(),
            es == entry_views(m@),
            lookup(es, key@) == lookup(es.take(i as int), key@),
        decreases i,
    {
        proof {
            lemma_lookup_take(es, i as int, key@);
        }
        let is_key = match &m[i - 1].0 {
            EdnValue::Keyword(k) => str_eq(k.as_str(), key),
            _ => false,
        };
        assert(es[i - 1] == (m@[i - 1].0@, m@[i - 1].1@));
        if is_key {
            return Some(i - 1);
        }
        i = i - 1;
    }
    assert(es.take(0) =~= Seq::<(EdnView, EdnView)>::empty());
    None
}

/// The value of the last entry of `m` whose key is the keyword `key`.
pub fn mget<'a>(m: &'a [(EdnValue, EdnValue)], key: &str) -> (r: Option<&'a EdnValue>)
    ensures
        match r {
            Some(v) => lookup(entry_views(m@), key@) == Some(v@),
            None => lookup(entry_views(m@), key@) is None,
        },
{
    match last_key_index(m, key) {
        Some(i) => Some(&m[i].1),
        None => None,
    }
}

/// The name of a keyword, without the leading `:`.
pub fn kw_key(v: &EdnValue) -> (r: Option<String>)
    ensures
        match r {
            Some(k) => v@ == EdnView::Keyword(k@),
            None => !(v@ is Keyword),
        },
{
    match v {
        EdnValue::Keyword(k) => Some(k.clone()),
        _ => None,
    }
}

/// Reads a string field (see [`str_field`]).
pub fn string_field(v: Option<&EdnValue>) -> (r: String)
    ensures
        r@ == str_field(opt_view(v)),
{
    match v {
        Some(EdnValue::Str(t)) => t.clone(),
        _ => String::new(),
    }
}

/// Reads an optional string field (see [`opt_str_field`]).
pub fn optional_string_field(v: Option<&EdnValue>) -> (r: Option<String>)
    ensures
        match r {
            Some(t) => opt_str_field(opt_view(v)) == Some(t@),
            None => opt_str_field(opt_view(v)) is None,
        },
{
    match v {
        Some(EdnValue::Str(t)) => Some(t.clone()),
        _ => None,
    }
}

/// Reads a keyword field (see [`keyword_field`]).
pub fn keyword_name_field(v: Option<&EdnValue>) -> (r: String)
    ensures
        r@ == keyword_field(opt_view(v)),
{
    match v {
        Some(EdnValue::Keyword(k)) => k.clone(),
        _ => String::new(),
    }
}

/// Reads a numeric field (see [`num_field_of`]).
pub fn num_field(v: Option<&EdnValue>) -> (r: NumField)
    ensures
        r@ == num_field_of(opt_view(v)),
{
    match v {
        Some(EdnValue::Int(i)) => NumField::Int(*i),
        Some(EdnValue::Float(t)) => NumField::Decimal(t.clone()),
        _ => NumField::Absent,
    }
}

impl EdnValue {
    /// The text of a string.
    pub fn as_str(&self) -> (r: Option<&str>)
        ensures
            match r {
                Some(t) => self@ == EdnView::Str(t@),
                None => !(self@ is Str),
            },
    {
        match self {
            EdnValue::Str(t) => Some(t.as_str()),
            _ => None,
        }
    }

    /// The value of an integer.
    pub fn as_integer(&self) -> (r: Option<i64>)
        ensures
            match r {
                Some(i) => self@ == EdnView::Int(i),
                None => !(self@ is Int),
            },
    {
        match self {
            EdnValue::Int(i) => Some(*i),
            _ => None,
        }
    }

    /// The elements of a vector.
    pub fn as_vector(&self) -> (r: Option<&[EdnValue]>)
        ensures
            match r {
                Some(xs) => self@ == EdnView::Vector(views(xs@)),
                None => !(self@ is Vector),
            },
    {
        match self {
            EdnValue::Vector(xs) => {
                proof {
                    lemma_vector_view(*xs);
                }
                Some(xs.as_slice())
            },
            _ => None,
        }
    }

    /// The entries of a map.
    pub fn as_map(&self) -> (r: Option<&[(EdnValue, EdnValue)]>)
        ensures
            match r {
                Some(es) => self@ == EdnView::Mapping(entry_views(es@)),
                None => !(self@ is Mapping),
            },
    {
        match self {
            EdnValue::Mapping(es) => {
                proof {
                    lemma_mapping_view(*es);
                }
                Some(es.as_slice())
            },
            _ => None,
        }
    }
}

/// The vector stored under the keyword `key` in the map `src` holds.
pub fn vector_table(src: &str, key: &str) -> (r: Result<Vec<EdnValue>, TableError>)
    ensures
        match r {
            Ok(items) => vector_table_spec(src@, key@) == Ok::<Seq<EdnView>, TableError>(
                views(items@),
            ),
            Err(e) => vector_table_spec(src@, key@) == Err::<Seq<EdnView>, TableError>(e),
        },
{
    let mut root = match root_map(src) {
        Some(es) => es,
        None => return Err(TableError::NotAMap),
    };
    let i = match last_key_index(root.as_slice(), key) {
        Some(i) => i,
        None => return Err(TableError::Missing),
    };
    let (_, v) = root.remove(i);
    match v {
        EdnValue::Vector(items) => {
            proof {
                lemma_vector_view(items);
            }
            Ok(items)
        },
        _ => Err(TableError::Missing),
    }
}

/// The map stored under the keyword `key` in the map `src` holds.
pub fn map_table(src: &str, key: &str) -> (r: Result<Vec<(EdnValue, EdnValue)>, TableError>)
    ensures
        match r {
            Ok(es) => map_table_spec(src@, key@) == Ok::<Seq<(EdnView, EdnView)>, TableError>(
                entry_views(es@),
            ),
            Err(e) => map_table_spec(src@, key@) == Err::<Seq<(EdnView, EdnView)>, TableError>(e),
        },
{
    let mut root = match root_map(src) {
        Some(es) => es,
        None => return Err(TableError::NotAMap),
    };
    let i = match last_key_index(root.as_slice(), key) {
        Some(i) => i,
        None => return Err(TableError::Missing),
    };
    let (_, v) = root.remove(i);
    match v {
        EdnValue::Mapping(es) => {
            proof {
                lemma_mapping_view(es);
            }
            Ok(es)
        },
        _ => Err(TableError::Missing),
    }
}

} // verus!
