use vstd::prelude::*;

use crate::download::str_eq;

verus! {

// ------------------------------------------------------------------
// The generic document model.
//
// The configuration file is a flat JSON document: an object whose member
// values are scalars (unsigned integers, booleans, strings, null) or objects
// of scalars. Loading parses a file generically into this model first, so
// schema migration can inspect fields before committing to the current
// schema.
// ------------------------------------------------------------------

/// A scalar member value.
#[derive(Clone, Debug)]
pub enum JsonAtom {
    Num(u64),
    Bool(bool),
    Str(String),
    Null,
}

/// A top-level member value: a scalar, or a flat object of scalars.
#[derive(Clone, Debug)]
pub enum JsonValue {
    Atom(JsonAtom),
    Obj(Vec<(String, JsonAtom)>),
}

/// A parsed document: the top-level members in file order.
#[derive(Clone, Debug)]
pub struct JsonDoc {
    pub entries: Vec<(String, JsonValue)>,
}

/// The mathematical value of a `JsonAtom`.
pub ghost enum AtomModel {
    Num(u64),
    Bool(bool),
    Str(Seq<char>),
    Null,
}

/// The mathematical value of a `JsonValue`.
pub ghost enum ValueModel {
    Atom(AtomModel),
    Obj(Seq<(Seq<char>, AtomModel)>),
}

pub open spec fn atom_model(a: JsonAtom) -> AtomModel {
    match a {
        JsonAtom::Num(n) => AtomModel::Num(n),
        JsonAtom::Bool(b) => AtomModel::Bool(b),
        JsonAtom::Str(s) => AtomModel::Str(s@),
        JsonAtom::Null => AtomModel::Null,
    }
}

pub open spec fn obj_model(es: Seq<(String, JsonAtom)>) -> Seq<(Seq<char>, AtomModel)> {
    es.map(|i: int, e: (String, JsonAtom)| (e.0@, atom_model(e.1)))
}

pub open spec fn value_model(v: JsonValue) -> ValueModel {
    match v {
        JsonValue::Atom(a) => ValueModel::Atom(atom_model(a)),
        JsonValue::Obj(es) => ValueModel::Obj(obj_model(es@)),
    }
}

pub open spec fn doc_entries_model(es: Seq<(String, JsonValue)>) -> Seq<(Seq<char>, ValueModel)> {
    es.map(|i: int, e: (String, JsonValue)| (e.0@, value_model(e.1)))
}

pub open spec fn doc_model(d: JsonDoc) -> Seq<(Seq<char>, ValueModel)> {
    doc_entries_model(d.entries@)
}

// ------------------------------------------------------------------
// Character classes.
// ------------------------------------------------------------------

pub open spec fn spec_is_ws(c: char) -> bool {
    c == ' ' || c == '\n' || c == '\t' || c == '\r'
}

pub open spec fn spec_is_digit(c: char) -> bool {
    c == '0' || c == '1' || c == '2' || c == '3' || c == '4' || c == '5' || c == '6' || c == '7'
        || c == '8' || c == '9'
}

pub open spec fn digit_val(c: char) -> u64 {
    if c == '0' {
        0
    } else if c == '1' {
        1
    } else if c == '2' {
        2
    } else if c == '3' {
        3
    } else if c == '4' {
        4
    } else if c == '5' {
        5
    } else if c == '6' {
        6
    } else if c == '7' {
        7
    } else if c == '8' {
        8
    } else {
        9
    }
}

pub open spec fn digit_char(n: u64) -> char {
    if n == 0 {
        '0'
    } else if n == 1 {
        '1'
    } else if n == 2 {
        '2'
    } else if n == 3 {
        '3'
    } else if n == 4 {
        '4'
    } else if n == 5 {
        '5'
    } else if n == 6 {
        '6'
    } else if n == 7 {
        '7'
    } else if n == 8 {
        '8'
    } else {
        '9'
    }
}

/// The string escapes the parser accepts, and what they stand for.
pub open spec fn spec_is_escape(c: char) -> bool {
    c == '"' || c == '\\' || c == '/' || c == 'n' || c == 't' || c == 'r'
}

pub open spec fn unescape(c: char) -> char {
    if c == 'n' {
        '\n'
    } else if c == 't' {
        '\t'
    } else if c == 'r' {
        '\r'
    } else {
        c
    }
}

// ------------------------------------------------------------------
// The parser, as a total mathematical function over character sequences.
// Each function takes a position and returns the parsed value and the
// position after it, or `None` where the input is not in the grammar.
// ------------------------------------------------------------------

pub open spec fn skip_ws(s: Seq<char>, i: int) -> int
    decreases s.len() - i,
{
    if 0 <= i < s.len() && spec_is_ws(s[i]) {
        skip_ws(s, i + 1)
    } else {
        i
    }
}

pub proof fn lemma_skip_ws_bounds(s: Seq<char>, i: int)
    ensures
        skip_ws(s, i) >= i,
        i <= s.len() ==> skip_ws(s, i) <= s.len(),
        0 <= i && skip_ws(s, i) < s.len() ==> !spec_is_ws(s[skip_ws(s, i)]),
    decreases s.len() - i,
{
    if 0 <= i < s.len() && spec_is_ws(s[i]) {
        lemma_skip_ws_bounds(s, i + 1);
    }
}

/// Parse the rest of a string literal, after the opening quote.
pub open spec fn parse_str_rest(s: Seq<char>, i: int) -> Option<(Seq<char>, int)>
    decreases s.len() - i,
{
    if 0 <= i < s.len() {
        if s[i] == '"' {
            Option::Some((Seq::<char>::empty(), i + 1))
        } else if s[i] == '\\' {
            if i + 1 < s.len() && spec_is_escape(s[i + 1]) {
                match parse_str_rest(s, i + 2) {
                    Option::Some((t, j)) => Option::Some((seq![unescape(s[i + 1])] + t, j)),
                    Option::None => Option::None,
                }
            } else {
                Option::None
            }
        } else {
            match parse_str_rest(s, i + 1) {
                Option::Some((t, j)) => Option::Some((seq![s[i]] + t, j)),
                Option::None => Option::None,
            }
        }
    } else {
        Option::None
    }
}

pub proof fn lemma_parse_str_rest_bounds(s: Seq<char>, i: int)
    ensures
        match parse_str_rest(s, i) {
            Option::Some((t, j)) => i < j <= s.len(),
            Option::None => true,
        },
    decreases s.len() - i,
{
    if 0 <= i < s.len() {
        if s[i] == '"' {
        } else if s[i] == '\\' {
            if i + 1 < s.len() && spec_is_escape(s[i + 1]) {
                lemma_parse_str_rest_bounds(s, i + 2);
            }
        } else {
            lemma_parse_str_rest_bounds(s, i + 1);
        }
    }
}

/// Parse a string literal at `i` (opening quote included).
pub open spec fn parse_string(s: Seq<char>, i: int) -> Option<(Seq<char>, int)> {
    if 0 <= i < s.len() && s[i] == '"' {
        parse_str_rest(s, i + 1)
    } else {
        Option::None
    }
}

pub proof fn lemma_parse_string_bounds(s: Seq<char>, i: int)
    ensures
        match parse_string(s, i) {
            Option::Some((t, j)) => i < j <= s.len(),
            Option::None => true,
        },
{
    if 0 <= i < s.len() && s[i] == '"' {
        lemma_parse_str_rest_bounds(s, i + 1);
    }
}

/// Fold decimal digits into a value, rejecting overflow past `u64::MAX`.
pub open spec fn parse_digits(s: Seq<char>, i: int, acc: u64) -> Option<(u64, int)>
    decreases s.len() - i,
{
    if 0 <= i < s.len() && spec_is_digit(s[i]) {
        if acc as int * 10 + digit_val(s[i]) as int <= u64::MAX as int {
            parse_digits(s, i + 1, (acc * 10 + digit_val(s[i])) as u64)
        } else {
            Option::None
        }
    } else {
        Option::Some((acc, i))
    }
}

pub proof fn lemma_parse_digits_bounds(s: Seq<char>, i: int, acc: u64)
    requires
        0 <= i <= s.len(),
    ensures
        match parse_digits(s, i, acc) {
            Option::Some((v, j)) => i <= j <= s.len(),
            Option::None => true,
        },
    decreases s.len() - i,
{
    if 0 <= i < s.len() && spec_is_digit(s[i]) {
        if acc as int * 10 + digit_val(s[i]) as int <= u64::MAX as int {
            lemma_parse_digits_bounds(s, i + 1, (acc * 10 + digit_val(s[i])) as u64);
        }
    }
}

/// Parse an unsigned decimal number (at least one digit).
pub open spec fn parse_number(s: Seq<char>, i: int) -> Option<(u64, int)> {
    if 0 <= i < s.len() && spec_is_digit(s[i]) {
        parse_digits(s, i, 0)
    } else {
        Option::None
    }
}

pub proof fn lemma_parse_number_bounds(s: Seq<char>, i: int)
    ensures
        match parse_number(s, i) {
            Option::Some((v, j)) => i < j <= s.len(),
            Option::None => true,
        },
{
    if 0 <= i < s.len() && spec_is_digit(s[i]) {
        lemma_parse_digits_bounds(s, i + 1, digit_val(s[i]));
    }
}

/// Parse a scalar: a string, a number, `true`, `false` or `null`.
pub open spec fn parse_atom(s: Seq<char>, i: int) -> Option<(AtomModel, int)> {
    if 0 <= i < s.len() {
        if s[i] == '"' {
            match parse_string(s, i) {
                Option::Some((t, j)) => Option::Some((AtomModel::Str(t), j)),
                Option::None => Option::None,
            }
        } else if spec_is_digit(s[i]) {
            match parse_number(s, i) {
                Option::Some((n, j)) => Option::Some((AtomModel::Num(n), j)),
                Option::None => Option::None,
            }
        } else if s[i] == 't' {
            if i + 4 <= s.len() && s[i + 1] == 'r' && s[i + 2] == 'u' && s[i + 3] == 'e' {
                Option::Some((AtomModel::Bool(true), i + 4))
            } else {
                Option::None
            }
        } else if s[i] == 'f' {
            if i + 5 <= s.len() && s[i + 1] == 'a' && s[i + 2] == 'l' && s[i + 3] == 's' && s[i + 4]
                == 'e' {
                Option::Some((AtomModel::Bool(false), i + 5))
            } else {
                Option::None
            }
        } else if s[i] == 'n' {
            if i + 4 <= s.len() && s[i + 1] == 'u' && s[i + 2] == 'l' && s[i + 3] == 'l' {
                Option::Some((AtomModel::Null, i + 4))
            } else {
                Option::None
            }
        } else {
            Option::None
        }
    } else {
        Option::None
    }
}

pub proof fn lemma_parse_atom_bounds(s: Seq<char>, i: int)
    ensures
        match parse_atom(s, i) {
            Option::Some((a, j)) => i < j <= s.len(),
            Option::None => true,
        },
{
    if 0 <= i < s.len() {
        if s[i] == '"' {
            lemma_parse_string_bounds(s, i);
        } else if spec_is_digit(s[i]) {
            lemma_parse_number_bounds(s, i);
        }
    }
}

/// Parse the members of an inner (scalar-valued) object, starting at the
/// first key, up to and including the closing brace.
pub open spec fn parse_obj_members(s: Seq<char>, i: int) -> Option<
    (Seq<(Seq<char>, AtomModel)>, int),
>
    decreases s.len() - i,
{
    match parse_string(s, i) {
        Option::None => Option::None,
        Option::Some((k, j)) => {
            let j2 = skip_ws(s, j);
            if j2 < s.len() && s[j2] == ':' {
                let j3 = skip_ws(s, j2 + 1);
                match parse_atom(s, j3) {
                    Option::None => Option::None,
                    Option::Some((a, j4)) => {
                        let j5 = skip_ws(s, j4);
                        if j5 < s.len() && s[j5] == ',' {
                            let j6 = skip_ws(s, j5 + 1);
                            proof {
                                lemma_parse_string_bounds(s, i);
                                lemma_skip_ws_bounds(s, j);
                                lemma_skip_ws_bounds(s, j2 + 1);
                                lemma_parse_atom_bounds(s, j3);
                                lemma_skip_ws_bounds(s, j4);
                                lemma_skip_ws_bounds(s, j5 + 1);
                            }
                            match parse_obj_members(s, j6) {
                                Option::Some((rest, j7)) => Option::Some(
                                    (seq![(k, a)] + rest, j7),
                                ),
                                Option::None => Option::None,
                            }
                        } else if j5 < s.len() && s[j5] == '}' {
                            Option::Some((seq![(k, a)], j5 + 1))
                        } else {
                            Option::None
                        }
                    },
                }
            } else {
                Option::None
            }
        },
    }
}

pub proof fn lemma_parse_obj_members_bounds(s: Seq<char>, i: int)
    ensures
        match parse_obj_members(s, i) {
            Option::Some((v, j)) => i < j <= s.len(),
            Option::None => true,
        },
    decreases s.len() - i,
{
    match parse_string(s, i) {
        Option::None => {},
        Option::Some((k, j)) => {
            lemma_parse_string_bounds(s, i);
            let j2 = skip_ws(s, j);
            lemma_skip_ws_bounds(s, j);
            if j2 < s.len() && s[j2] == ':' {
                let j3 = skip_ws(s, j2 + 1);
                lemma_skip_ws_bounds(s, j2 + 1);
                match parse_atom(s, j3) {
                    Option::None => {},
                    Option::Some((a, j4)) => {
                        lemma_parse_atom_bounds(s, j3);
                        let j5 = skip_ws(s, j4);
                        lemma_skip_ws_bounds(s, j4);
                        if j5 < s.len() && s[j5] == ',' {
                            let j6 = skip_ws(s, j5 + 1);
                            lemma_skip_ws_bounds(s, j5 + 1);
                            lemma_parse_obj_members_bounds(s, j6);
                        }
                    },
                }
            }
        },
    }
}

/// Parse an inner object at its opening brace.
pub open spec fn parse_inner_obj(s: Seq<char>, i: int) -> Option<
    (Seq<(Seq<char>, AtomModel)>, int),
> {
    if 0 <= i < s.len() && s[i] == '{' {
        let j = skip_ws(s, i + 1);
        if j < s.len() && s[j] == '}' {
            Option::Some((Seq::empty(), j + 1))
        } else {
            parse_obj_members(s, j)
        }
    } else {
        Option::None
    }
}

pub proof fn lemma_parse_inner_obj_bounds(s: Seq<char>, i: int)
    ensures
        match parse_inner_obj(s, i) {
            Option::Some((v, j)) => i < j <= s.len(),
            Option::None => true,
        },
{
    if 0 <= i < s.len() && s[i] == '{' {
        lemma_skip_ws_bounds(s, i + 1);
        lemma_parse_obj_members_bounds(s, skip_ws(s, i + 1));
    }
}

/// Parse a top-level member value: an inner object or a scalar.
pub open spec fn parse_value(s: Seq<char>, i: int) -> Option<(ValueModel, int)> {
    if 0 <= i < s.len() && s[i] == '{' {
        match parse_inner_obj(s, i) {
            Option::Some((es, j)) => Option::Some((ValueModel::Obj(es), j)),
            Option::None => Option::None,
        }
    } else {
        match parse_atom(s, i) {
            Option::Some((a, j)) => Option::Some((ValueModel::Atom(a), j)),
            Option::None => Option::None,
        }
    }
}

pub proof fn lemma_parse_value_bounds(s: Seq<char>, i: int)
    ensures
        match parse_value(s, i) {
            Option::Some((v, j)) => i < j <= s.len(),
            Option::None => true,
        },
{
    lemma_parse_inner_obj_bounds(s, i);
    lemma_parse_atom_bounds(s, i);
}

/// Parse the top-level members, starting at the first key, up to and
/// including the document's closing brace.
pub open spec fn parse_doc_members(s: Seq<char>, i: int) -> Option<
    (Seq<(Seq<char>, ValueModel)>, int),
>
    decreases s.len() - i,
{
    match parse_string(s, i) {
        Option::None => Option::None,
        Option::Some((k, j)) => {
            let j2 = skip_ws(s, j);
            if j2 < s.len() && s[j2] == ':' {
                let j3 = skip_ws(s, j2 + 1);
                match parse_value(s, j3) {
                    Option::None => Option::None,
                    Option::Some((v, j4)) => {
                        let j5 = skip_ws(s, j4);
                        if j5 < s.len() && s[j5] == ',' {
                            let j6 = skip_ws(s, j5 + 1);
                            proof {
                                lemma_parse_string_bounds(s, i);
                                lemma_skip_ws_bounds(s, j);
                                lemma_skip_ws_bounds(s, j2 + 1);
                                lemma_parse_value_bounds(s, j3);
                                lemma_skip_ws_bounds(s, j4);
                                lemma_skip_ws_bounds(s, j5 + 1);
                            }
                            match parse_doc_members(s, j6) {
                                Option::Some((rest, j7)) => Option::Some(
                                    (seq![(k, v)] + rest, j7),
                                ),
                                Option::None => Option::None,
                            }
                        } else if j5 < s.len() && s[j5] == '}' {
                            Option::Some((seq![(k, v)], j5 + 1))
                        } else {
                            Option::None
                        }
                    },
                }
            } else {
                Option::None
            }
        },
    }
}

pub proof fn lemma_parse_doc_members_bounds(s: Seq<char>, i: int)
    ensures
        match parse_doc_members(s, i) {
            Option::Some((v, j)) => i < j <= s.len(),
            Option::None => true,
        },
    decreases s.len() - i,
{
    match parse_string(s, i) {
        Option::None => {},
        Option::Some((k, j)) => {
            lemma_parse_string_bounds(s, i);
            let j2 = skip_ws(s, j);
            lemma_skip_ws_bounds(s, j);
            if j2 < s.len() && s[j2] == ':' {
                let j3 = skip_ws(s, j2 + 1);
                lemma_skip_ws_bounds(s, j2 + 1);
                match parse_value(s, j3) {
                    Option::None => {},
                    Option::Some((v, j4)) => {
                        lemma_parse_value_bounds(s, j3);
                        let j5 = skip_ws(s, j4);
                        lemma_skip_ws_bounds(s, j4);
                        if j5 < s.len() && s[j5] == ',' {
                            let j6 = skip_ws(s, j5 + 1);
                            lemma_skip_ws_bounds(s, j5 + 1);
                            lemma_parse_doc_members_bounds(s, j6);
                        }
                    },
                }
            }
        },
    }
}

/// Parse a whole document: one top-level object and nothing but trailing
/// whitespace after it.
pub open spec fn parse_json_doc(s: Seq<char>) -> Option<Seq<(Seq<char>, ValueModel)>> {
    let i0 = skip_ws(s, 0);
    if i0 < s.len() && s[i0] == '{' {
        let j = skip_ws(s, i0 + 1);
        if j < s.len() && s[j] == '}' {
            if skip_ws(s, j + 1) == s.len() {
                Option::Some(Seq::empty())
            } else {
                Option::None
            }
        } else {
            match parse_doc_members(s, j) {
                Option::Some((es, e)) => if skip_ws(s, e) == s.len() {
                    Option::Some(es)
                } else {
                    Option::None
                },
                Option::None => Option::None,
            }
        }
    } else {
        Option::None
    }
}

// ------------------------------------------------------------------
// The serializer, as a mathematical function: the canonical pretty-printed
// form of a document, with two-space indentation.
// ------------------------------------------------------------------

pub open spec fn escape_char_rep(c: char) -> Seq<char> {
    if c == '"' || c == '\\' {
        seq!['\\', c]
    } else {
        seq![c]
    }
}

pub open spec fn escape_str(s: Seq<char>) -> Seq<char>
    decreases s.len(),
{
    if s.len() == 0 {
        Seq::empty()
    } else {
        escape_char_rep(s[0]) + escape_str(s.drop_first())
    }
}

/// A quoted string literal.
pub open spec fn quote(s: Seq<char>) -> Seq<char> {
    seq!['"'] + escape_str(s) + seq!['"']
}

/// The decimal representation of a number, most significant digit first.
pub open spec fn dec_rep(n: u64) -> Seq<char>
    decreases n,
{
    if n < 10 {
        seq![digit_char(n)]
    } else {
        dec_rep(n / 10) + seq![digit_char(n % 10)]
    }
}

pub open spec fn ser_atom(a: AtomModel) -> Seq<char> {
    match a {
        AtomModel::Num(n) => dec_rep(n),
        AtomModel::Bool(b) => if b {
            seq!['t', 'r', 'u', 'e']
        } else {
            seq!['f', 'a', 'l', 's', 'e']
        },
        AtomModel::Str(s) => quote(s),
        AtomModel::Null => seq!['n', 'u', 'l', 'l'],
    }
}

pub open spec fn ser_obj_entries(es: Seq<(Seq<char>, AtomModel)>) -> Seq<char>
    decreases es.len(),
{
    if es.len() == 0 {
        Seq::empty()
    } else {
        let item = seq![' ', ' ', ' ', ' '] + quote(es[0].0) + seq![':', ' '] + ser_atom(es[0].1);
        if es.len() == 1 {
            item
        } else {
            item + seq![',', '\n'] + ser_obj_entries(es.drop_first())
        }
    }
}

pub open spec fn ser_obj(es: Seq<(Seq<char>, AtomModel)>) -> Seq<char> {
    if es.len() == 0 {
        seq!['{', '}']
    } else {
        seq!['{', '\n'] + ser_obj_entries(es) + seq!['\n', ' ', ' ', '}']
    }
}

pub open spec fn ser_value(v: ValueModel) -> Seq<char> {
    match v {
        ValueModel::Atom(a) => ser_atom(a),
        ValueModel::Obj(es) => ser_obj(es),
    }
}

pub open spec fn ser_doc_entries(es: Seq<(Seq<char>, ValueModel)>) -> Seq<char>
    decreases es.len(),
{
    if es.len() == 0 {
        Seq::empty()
    } else {
        let item = seq![' ', ' '] + quote(es[0].0) + seq![':', ' '] + ser_value(es[0].1);
        if es.len() == 1 {
            item
        } else {
            item + seq![',', '\n'] + ser_doc_entries(es.drop_first())
        }
    }
}

/// The canonical text of a whole document.
pub open spec fn ser_doc(es: Seq<(Seq<char>, ValueModel)>) -> Seq<char> {
    if es.len() == 0 {
        seq!['{', '}']
    } else {
        seq!['{', '\n'] + ser_doc_entries(es) + seq!['\n', '}']
    }
}

// ------------------------------------------------------------------
// Bridges between strings and character vectors.
// ------------------------------------------------------------------

/// Relies on `String: FromIterator<char>` (via `Iterator::collect`): the
/// collected string holds exactly the vector's characters, in order.
#[verifier::external_body]
pub fn chars_to_string(v: &Vec<char>) -> (r: String)
    ensures
        r@ == v@,
{
    v.iter().collect()
}

/// Relies on `Iterator::collect` over `str::chars`: the collected vector
/// holds exactly the string's characters, in order.
#[verifier::external_body]
pub fn str_to_chars(s: &str) -> (r: Vec<char>)
    ensures
        r@ == s@,
{
    s.chars().collect()
}

// ------------------------------------------------------------------
// The executable serializer.
// ------------------------------------------------------------------

fn exec_digit_char(n: u64) -> (c: char)
    ensures
        c == digit_char(n),
{
    if n == 0 {
        '0'
    } else if n == 1 {
        '1'
    } else if n == 2 {
        '2'
    } else if n == 3 {
        '3'
    } else if n == 4 {
        '4'
    } else if n == 5 {
        '5'
    } else if n == 6 {
        '6'
    } else if n == 7 {
        '7'
    } else if n == 8 {
        '8'
    } else {
        '9'
    }
}

proof fn lemma_escape_str_concat(a: Seq<char>, b: Seq<char>)
    ensures
        escape_str(a + b) == escape_str(a) + escape_str(b),
    decreases a.len(),
{
    if a.len() == 0 {
        assert(a + b =~= b);
        assert(escape_str(a) + escape_str(b) =~= escape_str(b));
    } else {
        assert((a + b).drop_first() =~= a.drop_first() + b);
        lemma_escape_str_concat(a.drop_first(), b);
        assert(escape_char_rep((a + b)[0]) + (escape_str(a.drop_first()) + escape_str(b)) =~= (
        escape_char_rep(a[0]) + escape_str(a.drop_first())) + escape_str(b));
    }
}

fn emit_num(out: &mut Vec<char>, n: u64)
    ensures
        final(out)@ == old(out)@ + dec_rep(n),
    decreases n,
{
    if n < 10 {
        out.push(exec_digit_char(n));
        proof {
            assert(out@ =~= old(out)@ + dec_rep(n));
        }
    } else {
        emit_num(out, n / 10);
        out.push(exec_digit_char(n % 10));
        proof {
            assert(out@ =~= old(out)@ + dec_rep(n));
        }
    }
}

fn emit_quoted(out: &mut Vec<char>, s: &String)
    ensures
        final(out)@ == old(out)@ + quote(s@),
{
    let n = s.as_str().unicode_len();
    out.push('"');
    let mut i: usize = 0;
    while i < n
        invariant
            i <= n,
            n == s@.len(),
            out@ == old(out)@ + seq!['"'] + escape_str(s@.take(i as int)),
        decreases n - i,
    {
        let c = s.as_str().get_char(i);
        if c == '"' || c == '\\' {
            out.push('\\');
        }
        out.push(c);
        proof {
            assert(s@.take(i + 1 as int) =~= s@.take(i as int) + seq![s@[i as int]]);
            lemma_escape_str_concat(s@.take(i as int), seq![s@[i as int]]);
            assert(escape_str(seq![s@[i as int]]) =~= escape_char_rep(s@[i as int])) by {
                let t = seq![s@[i as int]];
                assert(t.drop_first() =~= Seq::<char>::empty());
                assert(escape_str(t.drop_first()) == Seq::<char>::empty());
                assert(escape_char_rep(t[0]) + Seq::<char>::empty() =~= escape_char_rep(t[0]));
            }
            assert(out@ =~= old(out)@ + seq!['"'] + escape_str(s@.take(i + 1 as int)));
        }
        i += 1;
    }
    out.push('"');
    proof {
        assert(s@.take(n as int) =~= s@);
        assert(out@ =~= old(out)@ + quote(s@));
    }
}

fn emit_atom(out: &mut Vec<char>, a: &JsonAtom)
    ensures
        final(out)@ == old(out)@ + ser_atom(atom_model(*a)),
{
    match a {
        JsonAtom::Num(n) => {
            emit_num(out, *n);
        },
        JsonAtom::Bool(b) => {
            if *b {
                out.push('t');
                out.push('r');
                out.push('u');
                out.push('e');
            } else {
                out.push('f');
                out.push('a');
                out.push('l');
                out.push('s');
                out.push('e');
            }
            proof {
                assert(out@ =~= old(out)@ + ser_atom(atom_model(*a)));
            }
        },
        JsonAtom::Str(s) => {
            emit_quoted(out, s);
        },
        JsonAtom::Null => {
            out.push('n');
            out.push('u');
            out.push('l');
            out.push('l');
            proof {
                assert(out@ =~= old(out)@ + ser_atom(atom_model(*a)));
            }
        },
    }
}

fn emit_obj_entries(out: &mut Vec<char>, es: &Vec<(String, JsonAtom)>, i: usize)
    requires
        i < es@.len(),
    ensures
        final(out)@ == old(out)@ + ser_obj_entries(obj_model(es@).skip(i as int)),
    decreases es@.len() - i,
{
    let ghost m = obj_model(es@).skip(i as int);
    out.push(' ');
    out.push(' ');
    out.push(' ');
    out.push(' ');
    emit_quoted(out, &es[i].0);
    out.push(':');
    out.push(' ');
    emit_atom(out, &es[i].1);
    proof {
        assert(m[0] == obj_model(es@)[i as int]);
    }
    let n = es.len();
    if i + 1 < n {
        out.push(',');
        out.push('\n');
        emit_obj_entries(out, es, i + 1);
        proof {
            assert(m.drop_first() =~= obj_model(es@).skip(i + 1 as int));
            assert(out@ =~= old(out)@ + ser_obj_entries(m));
        }
    } else {
        proof {
            assert(m.len() == 1);
            assert(out@ =~= old(out)@ + ser_obj_entries(m));
        }
    }
}

fn emit_value(out: &mut Vec<char>, v: &JsonValue)
    ensures
        final(out)@ == old(out)@ + ser_value(value_model(*v)),
{
    match v {
        JsonValue::Atom(a) => {
            emit_atom(out, a);
        },
        JsonValue::Obj(es) => {
            if es.len() == 0 {
                out.push('{');
                out.push('}');
                proof {
                    assert(obj_model(es@).len() == 0);
                    assert(out@ =~= old(out)@ + ser_value(value_model(*v)));
                }
            } else {
                out.push('{');
                out.push('\n');
                emit_obj_entries(out, es, 0);
                out.push('\n');
                out.push(' ');
                out.push(' ');
                out.push('}');
                proof {
                    assert(obj_model(es@).skip(0) =~= obj_model(es@));
                    assert(out@ =~= old(out)@ + ser_value(value_model(*v)));
                }
            }
        },
    }
}

fn emit_doc_entries(out: &mut Vec<char>, es: &Vec<(String, JsonValue)>, i: usize)
    requires
        i < es@.len(),
    ensures
        final(out)@ == old(out)@ + ser_doc_entries(doc_entries_model(es@).skip(i as int)),
    decreases es@.len() - i,
{
    let ghost m = doc_entries_model(es@).skip(i as int);
    out.push(' ');
    out.push(' ');
    emit_quoted(out, &es[i].0);
    out.push(':');
    out.push(' ');
    emit_value(out, &es[i].1);
    proof {
        assert(m[0] == doc_entries_model(es@)[i as int]);
    }
    let n = es.len();
    if i + 1 < n {
        out.push(',');
        out.push('\n');
        emit_doc_entries(out, es, i + 1);
        proof {
            assert(m.drop_first() =~= doc_entries_model(es@).skip(i + 1 as int));
            assert(out@ =~= old(out)@ + ser_doc_entries(m));
        }
    } else {
        proof {
            assert(m.len() == 1);
            assert(out@ =~= old(out)@ + ser_doc_entries(m));
        }
    }
}

/// Serialize a document to its canonical pretty-printed text.
pub fn doc_to_string(d: &JsonDoc) -> (r: String)
    ensures
        r@ == ser_doc(doc_model(*d)),
{
    let mut out: Vec<char> = Vec::new();
    if d.entries.len() == 0 {
        out.push('{');
        out.push('}');
        proof {
            assert(doc_model(*d).len() == 0);
            assert(out@ =~= ser_doc(doc_model(*d)));
        }
    } else {
        out.push('{');
        out.push('\n');
        emit_doc_entries(&mut out, &d.entries, 0);
        out.push('\n');
        out.push('}');
        proof {
            assert(doc_entries_model(d.entries@).skip(0) =~= doc_model(*d));
            assert(out@ =~= ser_doc(doc_model(*d)));
        }
    }
    chars_to_string(&out)
}


// ------------------------------------------------------------------
// The executable parser. Each function mirrors its mathematical
// counterpart and is proved to return exactly what it returns.
// ------------------------------------------------------------------

fn exec_digit_val(c: char) -> (r: u64)
    ensures
        r == digit_val(c),
{
    if c == '0' {
        0
    } else if c == '1' {
        1
    } else if c == '2' {
        2
    } else if c == '3' {
        3
    } else if c == '4' {
        4
    } else if c == '5' {
        5
    } else if c == '6' {
        6
    } else if c == '7' {
        7
    } else if c == '8' {
        8
    } else {
        9
    }
}

fn exec_is_digit(c: char) -> (r: bool)
    ensures
        r == spec_is_digit(c),
{
    c == '0' || c == '1' || c == '2' || c == '3' || c == '4' || c == '5' || c == '6' || c == '7'
        || c == '8' || c == '9'
}

fn p_skip_ws(s: &Vec<char>, i: usize) -> (r: usize)
    requires
        i <= s@.len(),
    ensures
        r as int == skip_ws(s@, i as int),
        i <= r <= s@.len(),
    decreases s@.len() - i,
{
    if i < s.len() {
        let c = s[i];
        if c == ' ' || c == '\n' || c == '\t' || c == '\r' {
            p_skip_ws(s, i + 1)
        } else {
            i
        }
    } else {
        i
    }
}

fn p_str_rest(s: &Vec<char>, i: usize) -> (r: Option<(Vec<char>, usize)>)
    requires
        i <= s@.len(),
    ensures
        match r {
            Option::Some(p) => parse_str_rest(s@, i as int) == Option::Some((p.0@, p.1 as int))
                && i < p.1 <= s@.len(),
            Option::None => parse_str_rest(s@, i as int) is None,
        },
    decreases s@.len() - i,
{
    if i < s.len() {
        let c = s[i];
        if c == '"' {
            let t: Vec<char> = Vec::new();
            proof {
                assert(t@ =~= Seq::<char>::empty());
            }
            Some((t, i + 1))
        } else if c == '\\' {
            if i + 1 < s.len() {
                let e = s[i + 1];
                if e == '"' || e == '\\' || e == '/' || e == 'n' || e == 't' || e == 'r' {
                    let u = if e == 'n' {
                        '\n'
                    } else if e == 't' {
                        '\t'
                    } else if e == 'r' {
                        '\r'
                    } else {
                        e
                    };
                    if let Some(p) = p_str_rest(s, i + 2) {
                        let (mut t, j) = p;
                        let ghost t0 = t@;
                        t.insert(0, u);
                        proof {
                            assert(t@ =~= seq![unescape(s@[i + 1 as int])] + t0);
                        }
                        Some((t, j))
                    } else {
                        None
                    }
                } else {
                    None
                }
            } else {
                None
            }
        } else {
            if let Some(p) = p_str_rest(s, i + 1) {
                let (mut t, j) = p;
                let ghost t0 = t@;
                t.insert(0, c);
                proof {
                    assert(t@ =~= seq![s@[i as int]] + t0);
                }
                Some((t, j))
            } else {
                None
            }
        }
    } else {
        None
    }
}

fn p_string(s: &Vec<char>, i: usize) -> (r: Option<(Vec<char>, usize)>)
    requires
        i <= s@.len(),
    ensures
        match r {
            Option::Some(p) => parse_string(s@, i as int) == Option::Some((p.0@, p.1 as int)) && i
                < p.1 <= s@.len(),
            Option::None => parse_string(s@, i as int) is None,
        },
{
    if i < s.len() {
        let c = s[i];
        if c == '"' {
            p_str_rest(s, i + 1)
        } else {
            None
        }
    } else {
        None
    }
}

fn p_digits(s: &Vec<char>, i: usize, acc: u64) -> (r: Option<(u64, usize)>)
    requires
        i <= s@.len(),
    ensures
        match r {
            Option::Some(p) => parse_digits(s@, i as int, acc) == Option::Some((p.0, p.1 as int))
                && i <= p.1 <= s@.len(),
            Option::None => parse_digits(s@, i as int, acc) is None,
        },
    decreases s@.len() - i,
{
    if i < s.len() && exec_is_digit(s[i]) {
        let d = exec_digit_val(s[i]);
        let wide = acc as u128 * 10 + d as u128;
        if wide <= u64::MAX as u128 {
            p_digits(s, i + 1, wide as u64)
        } else {
            None
        }
    } else {
        Some((acc, i))
    }
}

fn p_number(s: &Vec<char>, i: usize) -> (r: Option<(u64, usize)>)
    requires
        i <= s@.len(),
    ensures
        match r {
            Option::Some(p) => parse_number(s@, i as int) == Option::Some((p.0, p.1 as int)) && i
                < p.1 <= s@.len(),
            Option::None => parse_number(s@, i as int) is None,
        },
{
    if i < s.len() && exec_is_digit(s[i]) {
        proof {
            lemma_parse_number_bounds(s@, i as int);
        }
        p_digits(s, i, 0)
    } else {
        None
    }
}

fn p_atom(s: &Vec<char>, i: usize) -> (r: Option<(JsonAtom, usize)>)
    requires
        i <= s@.len(),
    ensures
        match r {
            Option::Some(p) => parse_atom(s@, i as int) == Option::Some(
                (atom_model(p.0), p.1 as int),
            ) && i < p.1 <= s@.len(),
            Option::None => parse_atom(s@, i as int) is None,
        },
{
    let n = s.len();
    if i < n {
        let c = s[i];
        if c == '"' {
            if let Some(p) = p_string(s, i) {
                let (t, j) = p;
                Some((JsonAtom::Str(chars_to_string(&t)), j))
            } else {
                None
            }
        } else if exec_is_digit(c) {
            if let Some(p) = p_number(s, i) {
                Some((JsonAtom::Num(p.0), p.1))
            } else {
                None
            }
        } else if c == 't' {
            if n - i >= 4 && s[i + 1] == 'r' && s[i + 2] == 'u' && s[i + 3] == 'e' {
                Some((JsonAtom::Bool(true), i + 4))
            } else {
                None
            }
        } else if c == 'f' {
            if n - i >= 5 && s[i + 1] == 'a' && s[i + 2] == 'l' && s[i + 3] == 's' && s[i + 4]
                == 'e' {
                Some((JsonAtom::Bool(false), i + 5))
            } else {
                None
            }
        } else if c == 'n' {
            if n - i >= 4 && s[i + 1] == 'u' && s[i + 2] == 'l' && s[i + 3] == 'l' {
                Some((JsonAtom::Null, i + 4))
            } else {
                None
            }
        } else {
            None
        }
    } else {
        None
    }
}

proof fn lemma_obj_model_insert0(v: Seq<(String, JsonAtom)>, e: (String, JsonAtom))
    ensures
        obj_model(v.insert(0, e)) =~= seq![(e.0@, atom_model(e.1))] + obj_model(v),
{
    let l = v.insert(0, e);
    assert forall|x: int| 0 <= x < obj_model(l).len() implies obj_model(l)[x] == (seq![
        (e.0@, atom_model(e.1)),
    ] + obj_model(v))[x] by {
        if x > 0 {
            assert(l[x] == v[x - 1]);
        }
    }
}

proof fn lemma_doc_entries_model_insert0(v: Seq<(String, JsonValue)>, e: (String, JsonValue))
    ensures
        doc_entries_model(v.insert(0, e)) =~= seq![(e.0@, value_model(e.1))] + doc_entries_model(
            v,
        ),
{
    let l = v.insert(0, e);
    assert forall|x: int| 0 <= x < doc_entries_model(l).len() implies doc_entries_model(l)[x] == (
    seq![(e.0@, value_model(e.1))] + doc_entries_model(v))[x] by {
        if x > 0 {
            assert(l[x] == v[x - 1]);
        }
    }
}

fn p_obj_members(s: &Vec<char>, i: usize) -> (r: Option<(Vec<(String, JsonAtom)>, usize)>)
    requires
        i <= s@.len(),
    ensures
        match r {
            Option::Some(p) => parse_obj_members(s@, i as int) == Option::Some(
                (obj_model(p.0@), p.1 as int),
            ) && i < p.1 <= s@.len(),
            Option::None => parse_obj_members(s@, i as int) is None,
        },
    decreases s@.len() - i,
{
    let n = s.len();
    if let Some(kp) = p_string(s, i) {
        let (k, j) = kp;
        let j2 = p_skip_ws(s, j);
        if j2 < n && s[j2] == ':' {
            let j3 = p_skip_ws(s, j2 + 1);
            if let Some(ap) = p_atom(s, j3) {
                let (a, j4) = ap;
                let j5 = p_skip_ws(s, j4);
                if j5 < n && s[j5] == ',' {
                    let j6 = p_skip_ws(s, j5 + 1);
                    if let Some(rp) = p_obj_members(s, j6) {
                        let (mut rest, j7) = rp;
                        let ghost rest0 = rest@;
                        let ks = chars_to_string(&k);
                        rest.insert(0, (ks, a));
                        proof {
                            lemma_obj_model_insert0(rest0, (ks, a));
                            assert(obj_model(rest@) =~= seq![(k@, atom_model(a))] + obj_model(
                                rest0,
                            ));
                        }
                        Some((rest, j7))
                    } else {
                        None
                    }
                } else if j5 < n && s[j5] == '}' {
                    let ks = chars_to_string(&k);
                    let mut one: Vec<(String, JsonAtom)> = Vec::new();
                    one.push((ks, a));
                    proof {
                        assert(obj_model(one@) =~= seq![(k@, atom_model(a))]);
                    }
                    Some((one, j5 + 1))
                } else {
                    None
                }
            } else {
                None
            }
        } else {
            None
        }
    } else {
        None
    }
}

fn p_inner_obj(s: &Vec<char>, i: usize) -> (r: Option<(Vec<(String, JsonAtom)>, usize)>)
    requires
        i <= s@.len(),
    ensures
        match r {
            Option::Some(p) => parse_inner_obj(s@, i as int) == Option::Some(
                (obj_model(p.0@), p.1 as int),
            ) && i < p.1 <= s@.len(),
            Option::None => parse_inner_obj(s@, i as int) is None,
        },
{
    let n = s.len();
    if i < n && s[i] == '{' {
        let j = p_skip_ws(s, i + 1);
        if j < n && s[j] == '}' {
            let empty: Vec<(String, JsonAtom)> = Vec::new();
            proof {
                assert(obj_model(empty@) =~= Seq::<(Seq<char>, AtomModel)>::empty());
            }
            Some((empty, j + 1))
        } else {
            p_obj_members(s, j)
        }
    } else {
        None
    }
}

fn p_value(s: &Vec<char>, i: usize) -> (r: Option<(JsonValue, usize)>)
    requires
        i <= s@.len(),
    ensures
        match r {
            Option::Some(p) => parse_value(s@, i as int) == Option::Some(
                (value_model(p.0), p.1 as int),
            ) && i < p.1 <= s@.len(),
            Option::None => parse_value(s@, i as int) is None,
        },
{
    let n = s.len();
    if i < n && s[i] == '{' {
        if let Some(p) = p_inner_obj(s, i) {
            Some((JsonValue::Obj(p.0), p.1))
        } else {
            None
        }
    } else {
        if let Some(p) = p_atom(s, i) {
            Some((JsonValue::Atom(p.0), p.1))
        } else {
            None
        }
    }
}

fn p_doc_members(s: &Vec<char>, i: usize) -> (r: Option<(Vec<(String, JsonValue)>, usize)>)
    requires
        i <= s@.len(),
    ensures
        match r {
            Option::Some(p) => parse_doc_members(s@, i as int) == Option::Some(
                (doc_entries_model(p.0@), p.1 as int),
            ) && i < p.1 <= s@.len(),
            Option::None => parse_doc_members(s@, i as int) is None,
        },
    decreases s@.len() - i,
{
    let n = s.len();
    if let Some(kp) = p_string(s, i) {
        let (k, j) = kp;
        let j2 = p_skip_ws(s, j);
        if j2 < n && s[j2] == ':' {
            let j3 = p_skip_ws(s, j2 + 1);
            if let Some(vp) = p_value(s, j3) {
                let (v, j4) = vp;
                let j5 = p_skip_ws(s, j4);
                if j5 < n && s[j5] == ',' {
                    let j6 = p_skip_ws(s, j5 + 1);
                    if let Some(rp) = p_doc_members(s, j6) {
                        let (mut rest, j7) = rp;
                        let ghost rest0 = rest@;
                        let ks = chars_to_string(&k);
                        rest.insert(0, (ks, v));
                        proof {
                            lemma_doc_entries_model_insert0(rest0, (ks, v));
                            assert(doc_entries_model(rest@) =~= seq![(k@, value_model(v))]
                                + doc_entries_model(rest0));
                        }
                        Some((rest, j7))
                    } else {
                        None
                    }
                } else if j5 < n && s[j5] == '}' {
                    let ks = chars_to_string(&k);
                    let mut one: Vec<(String, JsonValue)> = Vec::new();
                    one.push((ks, v));
                    proof {
                        assert(doc_entries_model(one@) =~= seq![(k@, value_model(v))]);
                    }
                    Some((one, j5 + 1))
                } else {
                    None
                }
            } else {
                None
            }
        } else {
            None
        }
    } else {
        None
    }
}

/// Parse a document from its text. Returns `None` exactly where the text is
/// not in the configuration file's grammar.
pub fn parse_document(s: &str) -> (r: Option<JsonDoc>)
    ensures
        match r {
            Option::Some(d) => parse_json_doc(s@) == Option::Some(doc_model(d)),
            Option::None => parse_json_doc(s@) is None,
        },
{
    let cs = str_to_chars(s);
    let n = cs.len();
    let i0 = p_skip_ws(&cs, 0);
    if i0 < n && cs[i0] == '{' {
        let j = p_skip_ws(&cs, i0 + 1);
        if j < n && cs[j] == '}' {
            let e = p_skip_ws(&cs, j + 1);
            if e == n {
                let d = JsonDoc { entries: Vec::new() };
                proof {
                    assert(doc_model(d) =~= Seq::<(Seq<char>, ValueModel)>::empty());
                }
                Some(d)
            } else {
                None
            }
        } else {
            if let Some(p) = p_doc_members(&cs, j) {
                let (es, e) = p;
                let e2 = p_skip_ws(&cs, e);
                if e2 == n {
                    Some(JsonDoc { entries: es })
                } else {
                    None
                }
            } else {
                None
            }
        }
    } else {
        None
    }
}

// ------------------------------------------------------------------
// Round trip: parsing the canonical text of a document yields the
// document back. The lemmas below walk the emitted text.
// ------------------------------------------------------------------

/// The characters of `e` stand in `s` starting at `i`.
pub open spec fn occurs_at(s: Seq<char>, i: int, e: Seq<char>) -> bool {
    &&& 0 <= i
    &&& i + e.len() <= s.len()
    &&& forall|k: int| 0 <= k < e.len() ==> s[i + k] == e[k]
}

proof fn lemma_occurs_index(s: Seq<char>, i: int, e: Seq<char>, k: int)
    requires
        occurs_at(s, i, e),
        0 <= k < e.len(),
    ensures
        s[i + k] == e[k],
{
}

proof fn lemma_occurs_shift(s: Seq<char>, i: int, e: Seq<char>, a: int, b: int)
    requires
        occurs_at(s, i, e),
        0 <= a <= b <= e.len(),
    ensures
        occurs_at(s, i + a, e.subrange(a, b)),
{
    assert forall|k: int| 0 <= k < b - a implies s[i + a + k] == e.subrange(a, b)[k] by {
        assert(s[i + (a + k)] == e[a + k]);
    }
}

proof fn lemma_occurs_concat(s: Seq<char>, i: int, a: Seq<char>, b: Seq<char>)
    requires
        occurs_at(s, i, a + b),
    ensures
        occurs_at(s, i, a),
        occurs_at(s, i + a.len(), b),
{
    assert forall|k: int| 0 <= k < a.len() implies s[i + k] == a[k] by {
        assert((a + b)[k] == a[k]);
    }
    assert forall|k: int| 0 <= k < b.len() implies s[i + a.len() + k] == b[k] by {
        assert(s[i + (a.len() + k)] == (a + b)[a.len() + k]);
        assert((a + b)[a.len() + k] == b[k]);
    }
}

proof fn lemma_skip_ws_exact(s: Seq<char>, i: int, w: Seq<char>)
    requires
        occurs_at(s, i, w),
        forall|k: int| 0 <= k < w.len() ==> spec_is_ws(w[k]),
        i + w.len() == s.len() || !spec_is_ws(s[i + w.len()]),
    ensures
        skip_ws(s, i) == i + w.len(),
    decreases w.len(),
{
    if w.len() == 0 {
    } else {
        lemma_occurs_index(s, i, w, 0);
        assert(spec_is_ws(s[i]));
        assert(w =~= seq![w[0]] + w.drop_first());
        lemma_occurs_concat(s, i, seq![w[0]], w.drop_first());
        lemma_skip_ws_exact(s, i + 1, w.drop_first());
    }
}

proof fn lemma_parse_str_rest_exact(s: Seq<char>, i: int, v: Seq<char>)
    requires
        occurs_at(s, i, escape_str(v) + seq!['"']),
    ensures
        parse_str_rest(s, i) == Option::Some((v, i + escape_str(v).len() + 1)),
    decreases v.len(),
{
    let e = escape_str(v) + seq!['"'];
    if v.len() == 0 {
        lemma_occurs_index(s, i, e, 0);
        assert(e[0] == '"');
        assert(s[i] == '"');
    } else {
        let c = v[0];
        let v1 = v.drop_first();
        assert(escape_str(v) == escape_char_rep(c) + escape_str(v1));
        assert(e =~= escape_char_rep(c) + (escape_str(v1) + seq!['"']));
        lemma_occurs_concat(s, i, escape_char_rep(c), escape_str(v1) + seq!['"']);
        if c == '"' || c == '\\' {
            assert(escape_char_rep(c) =~= seq!['\\', c]);
            lemma_occurs_index(s, i, escape_char_rep(c), 0);
            lemma_occurs_index(s, i, escape_char_rep(c), 1);
            assert(s[i] == '\\');
            assert(s[i + 1] == c);
            assert(spec_is_escape(c));
            assert(unescape(c) == c);
            lemma_parse_str_rest_exact(s, i + 2, v1);
            assert(seq![c] + v1 =~= v);
        } else {
            assert(escape_char_rep(c) =~= seq![c]);
            lemma_occurs_index(s, i, escape_char_rep(c), 0);
            assert(s[i] == c);
            lemma_parse_str_rest_exact(s, i + 1, v1);
            assert(seq![c] + v1 =~= v);
        }
    }
}

proof fn lemma_parse_string_exact(s: Seq<char>, i: int, v: Seq<char>)
    requires
        occurs_at(s, i, quote(v)),
    ensures
        parse_string(s, i) == Option::Some((v, i + quote(v).len())),
{
    assert(quote(v) =~= seq!['"'] + (escape_str(v) + seq!['"']));
    lemma_occurs_concat(s, i, seq!['"'], escape_str(v) + seq!['"']);
    lemma_occurs_index(s, i, seq!['"'], 0);
    assert(s[i] == '"');
    lemma_parse_str_rest_exact(s, i + 1, v);
}

proof fn lemma_digit_char_val(n: u64)
    requires
        n < 10,
    ensures
        spec_is_digit(digit_char(n)),
        digit_val(digit_char(n)) == n,
{
}

proof fn lemma_parse_number_exact(s: Seq<char>, i: int, n: u64)
    requires
        n <= 100,
        occurs_at(s, i, dec_rep(n)),
        i + dec_rep(n).len() == s.len() || !spec_is_digit(s[i + dec_rep(n).len()]),
    ensures
        parse_number(s, i) == Option::Some((n, i + dec_rep(n).len())),
{
    let e = dec_rep(n);
    if n < 10 {
        assert(e =~= seq![digit_char(n)]);
        lemma_digit_char_val(n);
        lemma_occurs_index(s, i, e, 0);
        assert(s[i] == digit_char(n));
        assert(parse_digits(s, i, 0) == parse_digits(s, i + 1, n));
        assert(parse_digits(s, i + 1, n) == Option::Some((n, i + 1)));
    } else if n < 100 {
        let hi = n / 10;
        let lo = n % 10;
        assert(hi < 10 && lo < 10);
        assert(dec_rep(hi) =~= seq![digit_char(hi)]);
        assert(e =~= seq![digit_char(hi), digit_char(lo)]);
        lemma_digit_char_val(hi);
        lemma_digit_char_val(lo);
        lemma_occurs_index(s, i, e, 0);
        lemma_occurs_index(s, i, e, 1);
        assert(s[i] == digit_char(hi));
        assert(s[i + 1] == digit_char(lo));
        assert(hi * 10 + lo == n);
        assert(parse_digits(s, i, 0) == parse_digits(s, i + 1, hi));
        assert(parse_digits(s, i + 1, hi) == parse_digits(s, i + 2, n));
        assert(parse_digits(s, i + 2, n) == Option::Some((n, i + 2)));
    } else {
        assert(n == 100);
        assert(dec_rep(1) =~= seq!['1']);
        assert(dec_rep(10) =~= seq!['1', '0']);
        assert(e =~= seq!['1', '0', '0']);
        lemma_occurs_index(s, i, e, 0);
        lemma_occurs_index(s, i, e, 1);
        lemma_occurs_index(s, i, e, 2);
        assert(s[i] == '1' && s[i + 1] == '0' && s[i + 2] == '0');
        assert(parse_digits(s, i, 0) == parse_digits(s, i + 1, 1));
        assert(parse_digits(s, i + 1, 1) == parse_digits(s, i + 2, 10));
        assert(parse_digits(s, i + 2, 10) == parse_digits(s, i + 3, 100));
        assert(parse_digits(s, i + 3, 100) == Option::Some((100u64, i + 3)));
    }
}

/// Whether every number in an atom is a volume-sized one; the round trip is
/// stated for such documents.
pub open spec fn wf_atom_m(a: AtomModel) -> bool {
    match a {
        AtomModel::Num(n) => n <= 100,
        _ => true,
    }
}

pub open spec fn wf_obj_m(es: Seq<(Seq<char>, AtomModel)>) -> bool {
    forall|x: int| 0 <= x < es.len() ==> wf_atom_m(#[trigger] es[x].1)
}

pub open spec fn wf_value_m(v: ValueModel) -> bool {
    match v {
        ValueModel::Atom(a) => wf_atom_m(a),
        ValueModel::Obj(es) => wf_obj_m(es),
    }
}

pub open spec fn wf_doc_m(es: Seq<(Seq<char>, ValueModel)>) -> bool {
    forall|x: int| 0 <= x < es.len() ==> wf_value_m(#[trigger] es[x].1)
}

proof fn lemma_dec_rep_first(n: u64)
    ensures
        dec_rep(n).len() >= 1,
        spec_is_digit(dec_rep(n)[0]),
    decreases n,
{
    if n < 10 {
        lemma_digit_char_val(n);
    } else {
        lemma_dec_rep_first(n / 10);
        assert(dec_rep(n)[0] == dec_rep(n / 10)[0]);
    }
}

proof fn lemma_ser_atom_first(a: AtomModel)
    ensures
        ser_atom(a).len() >= 1,
        !spec_is_ws(ser_atom(a)[0]),
        ser_atom(a)[0] != '{',
{
    match a {
        AtomModel::Num(n) => {
            lemma_dec_rep_first(n);
        },
        AtomModel::Bool(b) => {},
        AtomModel::Str(v) => {
            assert(ser_atom(a)[0] == '"');
        },
        AtomModel::Null => {},
    }
}

proof fn lemma_parse_atom_exact(s: Seq<char>, i: int, a: AtomModel)
    requires
        wf_atom_m(a),
        occurs_at(s, i, ser_atom(a)),
        i + ser_atom(a).len() == s.len() || !spec_is_digit(s[i + ser_atom(a).len()]),
    ensures
        parse_atom(s, i) == Option::Some((a, i + ser_atom(a).len())),
{
    let e = ser_atom(a);
    match a {
        AtomModel::Num(n) => {
            lemma_dec_rep_first(n);
            lemma_occurs_index(s, i, e, 0);
            assert(s[i] == dec_rep(n)[0]);
            lemma_parse_number_exact(s, i, n);
            assert(s[i] != '"');
        },
        AtomModel::Bool(b) => {
            if b {
                lemma_occurs_index(s, i, e, 0);
                lemma_occurs_index(s, i, e, 1);
                lemma_occurs_index(s, i, e, 2);
                lemma_occurs_index(s, i, e, 3);
                assert(s[i] == 't' && s[i + 1] == 'r' && s[i + 2] == 'u' && s[i + 3] == 'e');
            } else {
                lemma_occurs_index(s, i, e, 0);
                lemma_occurs_index(s, i, e, 1);
                lemma_occurs_index(s, i, e, 2);
                lemma_occurs_index(s, i, e, 3);
                lemma_occurs_index(s, i, e, 4);
                assert(s[i] == 'f' && s[i + 1] == 'a' && s[i + 2] == 'l' && s[i + 3] == 's' && s[i
                    + 4] == 'e');
            }
        },
        AtomModel::Str(v) => {
            assert(e == quote(v));
            lemma_occurs_index(s, i, e, 0);
            assert(quote(v)[0] == '"');
            assert(s[i] == '"');
            lemma_parse_string_exact(s, i, v);
        },
        AtomModel::Null => {
            lemma_occurs_index(s, i, e, 0);
            lemma_occurs_index(s, i, e, 1);
            lemma_occurs_index(s, i, e, 2);
            lemma_occurs_index(s, i, e, 3);
            assert(s[i] == 'n' && s[i + 1] == 'u' && s[i + 2] == 'l' && s[i + 3] == 'l');
        },
    }
}

/// The text of an inner object's members from the first key to the closing
/// brace, as the parser walks it.
pub open spec fn obj_tail_emission(es: Seq<(Seq<char>, AtomModel)>) -> Seq<char>
    decreases es.len(),
{
    if es.len() == 0 {
        Seq::empty()
    } else {
        let head = quote(es[0].0) + seq![':', ' '] + ser_atom(es[0].1);
        if es.len() == 1 {
            head + seq!['\n', ' ', ' ', '}']
        } else {
            head + seq![',', '\n', ' ', ' ', ' ', ' '] + obj_tail_emission(es.drop_first())
        }
    }
}

proof fn lemma_ser_obj_tail(es: Seq<(Seq<char>, AtomModel)>)
    requires
        es.len() >= 1,
    ensures
        ser_obj_entries(es) + seq!['\n', ' ', ' ', '}'] == seq![' ', ' ', ' ', ' ']
            + obj_tail_emission(es),
    decreases es.len(),
{
    let close = seq!['\n', ' ', ' ', '}'];
    let ind = seq![' ', ' ', ' ', ' '];
    let head = quote(es[0].0) + seq![':', ' '] + ser_atom(es[0].1);
    let item = ind + quote(es[0].0) + seq![':', ' '] + ser_atom(es[0].1);
    assert(item =~= ind + head);
    if es.len() == 1 {
        assert(ser_obj_entries(es) == item);
        assert(obj_tail_emission(es) == head + close);
        assert((ind + head) + close =~= ind + (head + close));
    } else {
        let d = es.drop_first();
        lemma_ser_obj_tail(d);
        assert(ser_obj_entries(es) == item + seq![',', '\n'] + ser_obj_entries(d));
        assert(ser_obj_entries(es) + close =~= ind + (head + (seq![',', '\n'] + (ser_obj_entries(d)
            + close))));
        assert(ser_obj_entries(d) + close == ind + obj_tail_emission(d));
        assert(head + (seq![',', '\n'] + (ind + obj_tail_emission(d))) =~= head + seq![',', '\n', ' ', ' ', ' ', ' '] + obj_tail_emission(d));
        assert(obj_tail_emission(es) == head + seq![',', '\n', ' ', ' ', ' ', ' ']
            + obj_tail_emission(d));
        assert(ind + (head + seq![',', '\n', ' ', ' ', ' ', ' '] + obj_tail_emission(d)) =~= ind
            + obj_tail_emission(es));
    }
}

#[verifier::rlimit(50)]
proof fn lemma_parse_obj_members_exact(s: Seq<char>, i: int, es: Seq<(Seq<char>, AtomModel)>)
    requires
        es.len() >= 1,
        wf_obj_m(es),
        occurs_at(s, i, obj_tail_emission(es)),
    ensures
        parse_obj_members(s, i) == Option::Some((es, i + obj_tail_emission(es).len())),
    decreases es.len(),
{
    let k = es[0].0;
    let a = es[0].1;
    let q = quote(k);
    let sa = ser_atom(a);
    let t = obj_tail_emission(es);
    let rest: Seq<char> = if es.len() == 1 {
        seq!['\n', ' ', ' ', '}']
    } else {
        seq![',', '\n', ' ', ' ', ' ', ' '] + obj_tail_emission(es.drop_first())
    };
    assert(t =~= q + (seq![':', ' '] + (sa + rest)));
    lemma_occurs_concat(s, i, q, seq![':', ' '] + (sa + rest));
    lemma_occurs_concat(s, i + q.len(), seq![':', ' '], sa + rest);
    lemma_occurs_concat(s, i + q.len() + 2, sa, rest);
    lemma_parse_string_exact(s, i, k);
    let j = i + q.len();
    lemma_occurs_index(s, j, seq![':', ' '], 0);
    lemma_occurs_index(s, j, seq![':', ' '], 1);
    assert(s[j] == ':');
    assert(skip_ws(s, j) == j);
    lemma_ser_atom_first(a);
    let j3 = j + 2;
    lemma_occurs_index(s, j3, sa, 0);
    assert(s[j3] == sa[0]);
    assert(occurs_at(s, j + 1, seq![' '])) by {
        lemma_occurs_shift(s, j, seq![':', ' '], 1, 2);
        assert(seq![':', ' '].subrange(1, 2) =~= seq![' ']);
    }
    lemma_skip_ws_exact(s, j + 1, seq![' ']);
    assert(wf_atom_m(a));
    lemma_occurs_index(s, j3 + sa.len(), rest, 0);
    assert(s[j3 + sa.len()] == rest[0]);
    assert(!spec_is_digit(rest[0]));
    lemma_parse_atom_exact(s, j3, a);
    let j4 = j3 + sa.len();
    if es.len() == 1 {
        lemma_occurs_index(s, j4, rest, 0);
        lemma_occurs_index(s, j4, rest, 1);
        lemma_occurs_index(s, j4, rest, 2);
        lemma_occurs_index(s, j4, rest, 3);
        assert(s[j4] == '\n' && s[j4 + 1] == ' ' && s[j4 + 2] == ' ' && s[j4 + 3] == '}');
        assert(occurs_at(s, j4, seq!['\n', ' ', ' '])) by {
            lemma_occurs_shift(s, j4, rest, 0, 3);
            assert(rest.subrange(0, 3) =~= seq!['\n', ' ', ' ']);
        }
        lemma_skip_ws_exact(s, j4, seq!['\n', ' ', ' ']);
        let j5 = j4 + 3;
        assert(s[j5] == '}');
        assert(seq![(k, a)] =~= es);
        assert(parse_obj_members(s, i) == Option::Some((es, j5 + 1)));
        assert(j5 + 1 == i + t.len());
    } else {
        let tail = obj_tail_emission(es.drop_first());
        lemma_occurs_concat(s, j4, seq![',', '\n', ' ', ' ', ' ', ' '], tail);
        lemma_occurs_index(s, j4, seq![',', '\n', ' ', ' ', ' ', ' '], 0);
        assert(s[j4] == ',');
        assert(skip_ws(s, j4) == j4);
        let j6 = j4 + 6;
        assert(es.drop_first().len() >= 1);
        assert(tail[0] == '"') by {
            let h2 = quote(es.drop_first()[0].0) + seq![':', ' '] + ser_atom(es.drop_first()[0].1);
            assert(tail[0] == h2[0]);
            assert(h2[0] == quote(es.drop_first()[0].0)[0]);
            assert(quote(es.drop_first()[0].0)[0] == '"');
        }
        lemma_occurs_index(s, j6, tail, 0);
        assert(s[j6] == '"');
        assert(occurs_at(s, j4 + 1, seq!['\n', ' ', ' ', ' ', ' '])) by {
            lemma_occurs_shift(s, j4, seq![',', '\n', ' ', ' ', ' ', ' '], 1, 6);
            assert(seq![',', '\n', ' ', ' ', ' ', ' '].subrange(1, 6) =~= seq!['\n', ' ', ' ', ' ', ' ']);
        }
        lemma_skip_ws_exact(s, j4 + 1, seq!['\n', ' ', ' ', ' ', ' ']);
        assert(wf_obj_m(es.drop_first())) by {
            assert(forall|x: int| 0 <= x < es.drop_first().len() ==> #[trigger] es.drop_first()[x]
                == es[x + 1]);
        }
        lemma_parse_obj_members_exact(s, j6, es.drop_first());
        assert(seq![(k, a)] + es.drop_first() =~= es);
        assert(parse_obj_members(s, i) == Option::Some((es, j6 + tail.len())));
        assert(j6 + tail.len() == i + t.len());
    }
}

proof fn lemma_parse_inner_obj_exact(s: Seq<char>, i: int, es: Seq<(Seq<char>, AtomModel)>)
    requires
        wf_obj_m(es),
        occurs_at(s, i, ser_obj(es)),
    ensures
        parse_inner_obj(s, i) == Option::Some((es, i + ser_obj(es).len())),
{
    if es.len() == 0 {
        assert(ser_obj(es) =~= seq!['{', '}']);
        lemma_occurs_index(s, i, ser_obj(es), 0);
        lemma_occurs_index(s, i, ser_obj(es), 1);
        assert(s[i] == '{');
        assert(s[i + 1] == '}');
        assert(skip_ws(s, i + 1) == i + 1);
    } else {
        lemma_ser_obj_tail(es);
        let t = obj_tail_emission(es);
        assert(ser_obj(es) =~= seq!['{', '\n'] + (ser_obj_entries(es) + seq!['\n', ' ', ' ', '}']));
        assert(ser_obj(es) =~= seq!['{', '\n'] + (seq![' ', ' ', ' ', ' '] + t));
        assert(ser_obj(es) =~= seq!['{', '\n', ' ', ' ', ' ', ' '] + t);
        lemma_occurs_concat(s, i, seq!['{', '\n', ' ', ' ', ' ', ' '], t);
        lemma_occurs_index(s, i, seq!['{', '\n', ' ', ' ', ' ', ' '], 0);
        assert(s[i] == '{');
        assert(t[0] == '"') by {
            let h = quote(es[0].0) + seq![':', ' '] + ser_atom(es[0].1);
            assert(t[0] == h[0]);
            assert(h[0] == quote(es[0].0)[0]);
            assert(quote(es[0].0)[0] == '"');
        }
        lemma_occurs_index(s, i + 6, t, 0);
        assert(s[i + 6] == '"');
        assert(occurs_at(s, i + 1, seq!['\n', ' ', ' ', ' ', ' '])) by {
            lemma_occurs_shift(s, i, seq!['{', '\n', ' ', ' ', ' ', ' '], 1, 6);
            assert(seq!['{', '\n', ' ', ' ', ' ', ' '].subrange(1, 6) =~= seq!['\n', ' ', ' ', ' ', ' ']);
        }
        lemma_skip_ws_exact(s, i + 1, seq!['\n', ' ', ' ', ' ', ' ']);
        lemma_parse_obj_members_exact(s, i + 6, es);
        assert(i + 6 + t.len() == i + ser_obj(es).len());
    }
}

proof fn lemma_ser_value_first(v: ValueModel)
    ensures
        ser_value(v).len() >= 1,
        !spec_is_ws(ser_value(v)[0]),
        v matches ValueModel::Obj(_) ==> ser_value(v)[0] == '{',
        v matches ValueModel::Atom(_) ==> ser_value(v)[0] != '{',
{
    match v {
        ValueModel::Atom(a) => {
            lemma_ser_atom_first(a);
        },
        ValueModel::Obj(es) => {
            assert(ser_value(v)[0] == '{');
        },
    }
}

proof fn lemma_parse_value_exact(s: Seq<char>, i: int, v: ValueModel)
    requires
        wf_value_m(v),
        occurs_at(s, i, ser_value(v)),
        i + ser_value(v).len() == s.len() || !spec_is_digit(s[i + ser_value(v).len()]),
    ensures
        parse_value(s, i) == Option::Some((v, i + ser_value(v).len())),
{
    lemma_ser_value_first(v);
    lemma_occurs_index(s, i, ser_value(v), 0);
    assert(s[i] == ser_value(v)[0]);
    match v {
        ValueModel::Atom(a) => {
            lemma_parse_atom_exact(s, i, a);
        },
        ValueModel::Obj(es) => {
            lemma_parse_inner_obj_exact(s, i, es);
        },
    }
}

/// The text of the top-level members from the first key to the document's
/// closing brace, as the parser walks it.
pub open spec fn doc_tail_emission(es: Seq<(Seq<char>, ValueModel)>) -> Seq<char>
    decreases es.len(),
{
    if es.len() == 0 {
        Seq::empty()
    } else {
        let head = quote(es[0].0) + seq![':', ' '] + ser_value(es[0].1);
        if es.len() == 1 {
            head + seq!['\n', '}']
        } else {
            head + seq![',', '\n', ' ', ' '] + doc_tail_emission(es.drop_first())
        }
    }
}

proof fn lemma_ser_doc_tail(es: Seq<(Seq<char>, ValueModel)>)
    requires
        es.len() >= 1,
    ensures
        ser_doc_entries(es) + seq!['\n', '}'] == seq![' ', ' '] + doc_tail_emission(es),
    decreases es.len(),
{
    let close = seq!['\n', '}'];
    let ind = seq![' ', ' '];
    let head = quote(es[0].0) + seq![':', ' '] + ser_value(es[0].1);
    let item = ind + quote(es[0].0) + seq![':', ' '] + ser_value(es[0].1);
    assert(item =~= ind + head);
    if es.len() == 1 {
        assert(ser_doc_entries(es) == item);
        assert(doc_tail_emission(es) == head + close);
        assert((ind + head) + close =~= ind + (head + close));
    } else {
        let d = es.drop_first();
        lemma_ser_doc_tail(d);
        assert(ser_doc_entries(es) == item + seq![',', '\n'] + ser_doc_entries(d));
        assert(ser_doc_entries(es) + close =~= ind + (head + (seq![',', '\n'] + (ser_doc_entries(d)
            + close))));
        assert(ser_doc_entries(d) + close == ind + doc_tail_emission(d));
        assert(head + (seq![',', '\n'] + (ind + doc_tail_emission(d))) =~= head + seq![',', '\n', ' ', ' '] + doc_tail_emission(d));
        assert(doc_tail_emission(es) == head + seq![',', '\n', ' ', ' '] + doc_tail_emission(d));
        assert(ind + (head + seq![',', '\n', ' ', ' '] + doc_tail_emission(d)) =~= ind
            + doc_tail_emission(es));
    }
}

#[verifier::rlimit(50)]
proof fn lemma_parse_doc_members_exact(s: Seq<char>, i: int, es: Seq<(Seq<char>, ValueModel)>)
    requires
        es.len() >= 1,
        wf_doc_m(es),
        occurs_at(s, i, doc_tail_emission(es)),
    ensures
        parse_doc_members(s, i) == Option::Some((es, i + doc_tail_emission(es).len())),
    decreases es.len(),
{
    let k = es[0].0;
    let v = es[0].1;
    let q = quote(k);
    let sv = ser_value(v);
    let t = doc_tail_emission(es);
    let rest: Seq<char> = if es.len() == 1 {
        seq!['\n', '}']
    } else {
        seq![',', '\n', ' ', ' '] + doc_tail_emission(es.drop_first())
    };
    assert(t =~= q + (seq![':', ' '] + (sv + rest)));
    lemma_occurs_concat(s, i, q, seq![':', ' '] + (sv + rest));
    lemma_occurs_concat(s, i + q.len(), seq![':', ' '], sv + rest);
    lemma_occurs_concat(s, i + q.len() + 2, sv, rest);
    lemma_parse_string_exact(s, i, k);
    let j = i + q.len();
    lemma_occurs_index(s, j, seq![':', ' '], 0);
    lemma_occurs_index(s, j, seq![':', ' '], 1);
    assert(s[j] == ':');
    assert(skip_ws(s, j) == j);
    lemma_ser_value_first(v);
    let j3 = j + 2;
    lemma_occurs_index(s, j3, sv, 0);
    assert(s[j3] == sv[0]);
    assert(occurs_at(s, j + 1, seq![' '])) by {
        lemma_occurs_shift(s, j, seq![':', ' '], 1, 2);
        assert(seq![':', ' '].subrange(1, 2) =~= seq![' ']);
    }
    lemma_skip_ws_exact(s, j + 1, seq![' ']);
    lemma_occurs_index(s, j3 + sv.len(), rest, 0);
    assert(s[j3 + sv.len()] == rest[0]);
    assert(!spec_is_digit(rest[0]));
    lemma_parse_value_exact(s, j3, v);
    let j4 = j3 + sv.len();
    if es.len() == 1 {
        lemma_occurs_index(s, j4, rest, 0);
        lemma_occurs_index(s, j4, rest, 1);
        assert(s[j4] == '\n' && s[j4 + 1] == '}');
        assert(occurs_at(s, j4, seq!['\n'])) by {
            lemma_occurs_shift(s, j4, rest, 0, 1);
            assert(rest.subrange(0, 1) =~= seq!['\n']);
        }
        lemma_skip_ws_exact(s, j4, seq!['\n']);
        let j5 = j4 + 1;
        assert(s[j5] == '}');
        assert(seq![(k, v)] =~= es);
        assert(parse_doc_members(s, i) == Option::Some((es, j5 + 1)));
        assert(j5 + 1 == i + t.len());
    } else {
        let tail = doc_tail_emission(es.drop_first());
        lemma_occurs_concat(s, j4, seq![',', '\n', ' ', ' '], tail);
        lemma_occurs_index(s, j4, seq![',', '\n', ' ', ' '], 0);
        assert(s[j4] == ',');
        assert(skip_ws(s, j4) == j4);
        let j6 = j4 + 4;
        assert(es.drop_first().len() >= 1);
        assert(tail[0] == '"') by {
            let h2 = quote(es.drop_first()[0].0) + seq![':', ' '] + ser_value(es.drop_first()[0].1);
            assert(tail[0] == h2[0]);
            assert(h2[0] == quote(es.drop_first()[0].0)[0]);
            assert(quote(es.drop_first()[0].0)[0] == '"');
        }
        lemma_occurs_index(s, j6, tail, 0);
        assert(s[j6] == '"');
        assert(occurs_at(s, j4 + 1, seq!['\n', ' ', ' '])) by {
            lemma_occurs_shift(s, j4, seq![',', '\n', ' ', ' '], 1, 4);
            assert(seq![',', '\n', ' ', ' '].subrange(1, 4) =~= seq!['\n', ' ', ' ']);
        }
        lemma_skip_ws_exact(s, j4 + 1, seq!['\n', ' ', ' ']);
        assert(wf_doc_m(es.drop_first())) by {
            assert(forall|x: int| 0 <= x < es.drop_first().len() ==> #[trigger] es.drop_first()[x]
                == es[x + 1]);
        }
        lemma_parse_doc_members_exact(s, j6, es.drop_first());
        assert(seq![(k, v)] + es.drop_first() =~= es);
        assert(parse_doc_members(s, i) == Option::Some((es, j6 + tail.len())));
        assert(j6 + tail.len() == i + t.len());
    }
}

/// Round trip: the canonical text of any document whose numbers are
/// volume-sized parses back to exactly that document.
#[verifier::rlimit(100)]
proof fn lemma_doc_round_trip_nonempty(es: Seq<(Seq<char>, ValueModel)>)
    requires
        wf_doc_m(es),
        es.len() >= 1,
    ensures
        parse_json_doc(ser_doc(es)) == Option::Some(es),
{
    let s = ser_doc(es);
    assert(occurs_at(s, 0, s));
    lemma_ser_doc_tail(es);
    let t = doc_tail_emission(es);
    assert(s =~= seq!['{', '\n'] + (ser_doc_entries(es) + seq!['\n', '}']));
    assert(s =~= seq!['{', '\n'] + (seq![' ', ' '] + t));
    assert(s =~= seq!['{', '\n', ' ', ' '] + t);
    lemma_occurs_concat(s, 0, seq!['{', '\n', ' ', ' '], t);
    lemma_occurs_index(s, 0, seq!['{', '\n', ' ', ' '], 0);
    assert(s[0] == '{');
    assert(skip_ws(s, 0) == 0);
    assert(t[0] == '"') by {
        let h = quote(es[0].0) + seq![':', ' '] + ser_value(es[0].1);
        assert(t[0] == h[0]);
        assert(h[0] == quote(es[0].0)[0]);
        assert(quote(es[0].0)[0] == '"');
    }
    lemma_occurs_index(s, 4, t, 0);
    assert(s[4] == '"');
    assert(occurs_at(s, 1, seq!['\n', ' ', ' '])) by {
        lemma_occurs_shift(s, 0, seq!['{', '\n', ' ', ' '], 1, 4);
        assert(seq!['{', '\n', ' ', ' '].subrange(1, 4) =~= seq!['\n', ' ', ' ']);
    }
    lemma_skip_ws_exact(s, 1, seq!['\n', ' ', ' ']);
    lemma_parse_doc_members_exact(s, 4, es);
    assert(4 + t.len() == s.len());
    assert(skip_ws(s, s.len() as int) == s.len());
}

/// Round trip: the canonical text of any document whose numbers are
/// volume-sized parses back to exactly that document.
pub proof fn lemma_doc_round_trip(es: Seq<(Seq<char>, ValueModel)>)
    requires
        wf_doc_m(es),
    ensures
        parse_json_doc(ser_doc(es)) == Option::Some(es),
{
    let s = ser_doc(es);
    if es.len() == 0 {
        assert(occurs_at(s, 0, s));
        assert(s =~= seq!['{', '}']);
        assert(s[0] == '{' && s[1] == '}');
        assert(skip_ws(s, 0) == 0);
        assert(skip_ws(s, 1) == 1);
        assert(skip_ws(s, 2) == 2);
    } else {
        lemma_doc_round_trip_nonempty(es);
    }
}

// ------------------------------------------------------------------
// Looking members up by key (first occurrence wins).
// ------------------------------------------------------------------

pub open spec fn doc_get(es: Seq<(Seq<char>, ValueModel)>, k: Seq<char>) -> Option<ValueModel>
    decreases es.len(),
{
    if es.len() == 0 {
        Option::None
    } else if es[0].0 == k {
        Option::Some(es[0].1)
    } else {
        doc_get(es.drop_first(), k)
    }
}

pub open spec fn obj_get(es: Seq<(Seq<char>, AtomModel)>, k: Seq<char>) -> Option<AtomModel>
    decreases es.len(),
{
    if es.len() == 0 {
        Option::None
    } else if es[0].0 == k {
        Option::Some(es[0].1)
    } else {
        obj_get(es.drop_first(), k)
    }
}

/// Find a top-level member by key.
pub fn doc_find<'a>(d: &'a JsonDoc, k: &str) -> (r: Option<&'a JsonValue>)
    ensures
        match r {
            Option::Some(v) => doc_get(doc_model(*d), k@) == Option::Some(value_model(*v)),
            Option::None => doc_get(doc_model(*d), k@) is None,
        },
{
    let n = d.entries.len();
    let ghost m = doc_model(*d);
    proof {
        assert(m.skip(0) =~= m);
    }
    let mut i: usize = 0;
    while i < n
        invariant
            i <= n,
            n == d.entries@.len(),
            m == doc_model(*d),
            doc_get(m, k@) == doc_get(m.skip(i as int), k@),
            forall|x: int| 0 <= x < m.len() ==> #[trigger] m[x] == (d.entries@[x].0@, value_model(
                d.entries@[x].1,
            )),
        decreases n - i,
    {
        if str_eq(d.entries[i].0.as_str(), k) {
            proof {
                assert(m.skip(i as int)[0] == m[i as int]);
            }
            return Some(&d.entries[i].1);
        }
        proof {
            assert(m.skip(i as int)[0] == m[i as int]);
            assert(m.skip(i as int).drop_first() =~= m.skip(i + 1 as int));
        }
        i += 1;
    }
    proof {
        assert(m.skip(n as int) =~= Seq::<(Seq<char>, ValueModel)>::empty());
    }
    None
}

/// Find an inner object's member by key.
pub fn obj_find<'a>(es: &'a Vec<(String, JsonAtom)>, k: &str) -> (r: Option<&'a JsonAtom>)
    ensures
        match r {
            Option::Some(a) => obj_get(obj_model(es@), k@) == Option::Some(atom_model(*a)),
            Option::None => obj_get(obj_model(es@), k@) is None,
        },
{
    let n = es.len();
    let ghost m = obj_model(es@);
    proof {
        assert(m.skip(0) =~= m);
    }
    let mut i: usize = 0;
    while i < n
        invariant
            i <= n,
            n == es@.len(),
            m == obj_model(es@),
            obj_get(m, k@) == obj_get(m.skip(i as int), k@),
            forall|x: int| 0 <= x < m.len() ==> #[trigger] m[x] == (es@[x].0@, atom_model(
                es@[x].1,
            )),
        decreases n - i,
    {
        if str_eq(es[i].0.as_str(), k) {
            proof {
                assert(m.skip(i as int)[0] == m[i as int]);
            }
            return Some(&es[i].1);
        }
        proof {
            assert(m.skip(i as int)[0] == m[i as int]);
            assert(m.skip(i as int).drop_first() =~= m.skip(i + 1 as int));
        }
        i += 1;
    }
    proof {
        assert(m.skip(n as int) =~= Seq::<(Seq<char>, AtomModel)>::empty());
    }
    None
}

} // verus!
