//! A small JSON reader for the service's documents.
//!
//! The grammar is the JSON subset the service actually emits: objects,
//! arrays, plain strings (no escape sequences), numbers (kept as raw
//! text, so fractional values pass through unread), booleans and null.
//! Unknown fields survive parsing untouched and are simply never
//! consulted, so additively evolving documents keep parsing.
//!
//! The functions mirror a spec-level parser (`sp_value` and friends)
//! clause for clause, which makes the whole pipeline a mathematical
//! function of the input text: parsing the same text twice gives the
//! same tree.

use vstd::prelude::*;
use vstd::string::StrSliceExecFns;
use vstd::string::StringExecFns;

verus! {

broadcast use vstd::seq::group_seq_axioms, vstd::std_specs::vec::group_vec_axioms;

/// One parsed JSON value.  Numbers keep their raw text; callers that
/// need an integer convert explicitly, and values that are never
/// consulted need no numeric reading at all.
#[derive(Debug, PartialEq, Eq)]
pub enum JsonValue {
    Null,
    Bool(bool),
    Num(String),
    Str(String),
    Arr(Vec<JsonValue>),
    Obj(Vec<(String, JsonValue)>),
}

/// The mathematical shape of a parsed JSON value.
pub enum JsonModel {
    Null,
    Bool(bool),
    Num(Seq<char>),
    Str(Seq<char>),
    Arr(Seq<JsonModel>),
    Obj(Seq<(Seq<char>, JsonModel)>),
}

/// The models of the elements of an array, in order.
pub open spec fn sp_arr_model(items: Seq<JsonValue>) -> Seq<JsonModel>
    decreases items,
{
    if items.len() == 0 {
        Seq::empty()
    } else {
        seq![items.first().model()] + sp_arr_model(items.drop_first())
    }
}

/// The models of the members of an object, keys in document order.
pub open spec fn sp_obj_model(members: Seq<(String, JsonValue)>) -> Seq<(Seq<char>, JsonModel)>
    decreases members,
{
    if members.len() == 0 {
        Seq::empty()
    } else {
        seq![(members.first().0@, members.first().1.model())]
            + sp_obj_model(members.drop_first())
    }
}

impl JsonValue {
    /// The mathematical value of this tree.
    pub open spec fn model(self) -> JsonModel
        decreases self,
    {
        match self {
            JsonValue::Null => JsonModel::Null,
            JsonValue::Bool(b) => JsonModel::Bool(b),
            JsonValue::Num(t) => JsonModel::Num(t@),
            JsonValue::Str(t) => JsonModel::Str(t@),
            JsonValue::Arr(items) => JsonModel::Arr(sp_arr_model(items@)),
            JsonValue::Obj(members) => JsonModel::Obj(sp_obj_model(members@)),
        }
    }
}

/// JSON insignificant whitespace.
pub open spec fn sp_is_ws(c: char) -> bool {
    c == ' ' || c == '\t' || c == '\n' || c == '\r'
}

/// An ASCII decimal digit.
pub open spec fn sp_is_digit(c: char) -> bool {
    0x30 <= (c as u32) && (c as u32) <= 0x39
}

/// The first index at or after `i` holding no whitespace.
pub open spec fn sp_ws(s: Seq<char>, i: int) -> int
    decreases s.len() - i,
{
    if 0 <= i && i < s.len() && sp_is_ws(s[i]) {
        sp_ws(s, i + 1)
    } else {
        i
    }
}

/// The index of the closing quote of string content starting at `i`;
/// `None` on a control character, a backslash, or a missing quote.
pub open spec fn sp_str_end(s: Seq<char>, i: int) -> Option<int>
    decreases s.len() - i,
{
    if !(0 <= i && i < s.len()) {
        None
    } else if s[i] == '"' {
        Some(i)
    } else if s[i] == '\\' || (s[i] as u32) < 0x20 {
        None
    } else {
        sp_str_end(s, i + 1)
    }
}

/// The end of the digit run starting at `i`.
pub open spec fn sp_digits_end(s: Seq<char>, i: int) -> int
    decreases s.len() - i,
{
    if 0 <= i && i < s.len() && sp_is_digit(s[i]) {
        sp_digits_end(s, i + 1)
    } else {
        i
    }
}

/// A string token at `i`: its content and the index after the closing
/// quote.
pub open spec fn sp_string(s: Seq<char>, i: int) -> Option<(Seq<char>, int)> {
    if 0 <= i && i < s.len() && s[i] == '"' {
        match sp_str_end(s, i + 1) {
            Some(e) => Some((s.subrange(i + 1, e), e + 1)),
            None => None,
        }
    } else {
        None
    }
}

/// A number token at `i`, kept as raw text: optional minus, an integer
/// part, an optional fraction, an optional exponent.
pub open spec fn sp_number(s: Seq<char>, i: int) -> Option<(Seq<char>, int)> {
    let j: int = if 0 <= i && i < s.len() && s[i] == '-' {
        i + 1
    } else {
        i
    };
    let k: int = sp_digits_end(s, j);
    if k == j {
        None
    } else {
        match sp_frac_end(s, k) {
            Some(k2) => match sp_exp_end(s, k2) {
                Some(k3) => Some((s.subrange(i, k3), k3)),
                None => None,
            },
            None => None,
        }
    }
}

/// The end of an optional fraction part at `k`.
pub open spec fn sp_frac_end(s: Seq<char>, k: int) -> Option<int> {
    if 0 <= k && k < s.len() && s[k] == '.' {
        let k3: int = sp_digits_end(s, k + 1);
        if k3 == k + 1 {
            None
        } else {
            Some(k3)
        }
    } else {
        Some(k)
    }
}

/// The end of an optional exponent part at `k`.
pub open spec fn sp_exp_end(s: Seq<char>, k: int) -> Option<int> {
    if 0 <= k && k < s.len() && (s[k] == 'e' || s[k] == 'E') {
        let j: int = if k + 1 < s.len() && (s[k + 1] == '+' || s[k + 1] == '-') {
            k + 2
        } else {
            k + 1
        };
        let k3: int = sp_digits_end(s, j);
        if k3 == j {
            None
        } else {
            Some(k3)
        }
    } else {
        Some(k)
    }
}

/// One JSON value starting at `i0` (leading whitespace allowed), with
/// the index just after it.  `f` is recursion fuel; one unit is spent
/// per nesting level and per collection element, so any input of length
/// `n` parses within fuel `n + 1`.
pub open spec fn sp_value(s: Seq<char>, i0: int, f: nat) -> Option<(JsonModel, int)>
    decreases f, 0nat,
{
    if f == 0 {
        None
    } else {
        let i: int = sp_ws(s, i0);
        if !(0 <= i && i < s.len()) {
            None
        } else if s[i] == '{' {
            let j: int = sp_ws(s, i + 1);
            if j < s.len() && s[j] == '}' {
                Some((JsonModel::Obj(Seq::empty()), j + 1))
            } else {
                match sp_members(s, j, (f - 1) as nat) {
                    Some((ms, k)) => Some((JsonModel::Obj(ms), k)),
                    None => None,
                }
            }
        } else if s[i] == '[' {
            let j: int = sp_ws(s, i + 1);
            if j < s.len() && s[j] == ']' {
                Some((JsonModel::Arr(Seq::empty()), j + 1))
            } else {
                match sp_items(s, j, (f - 1) as nat) {
                    Some((vs, k)) => Some((JsonModel::Arr(vs), k)),
                    None => None,
                }
            }
        } else if s[i] == '"' {
            match sp_string(s, i) {
                Some((t, k)) => Some((JsonModel::Str(t), k)),
                None => None,
            }
        } else if s[i] == 't' {
            if i + 4 <= s.len() && s[i + 1] == 'r' && s[i + 2] == 'u' && s[i + 3] == 'e' {
                Some((JsonModel::Bool(true), i + 4))
            } else {
                None
            }
        } else if s[i] == 'f' {
            if i + 5 <= s.len() && s[i + 1] == 'a' && s[i + 2] == 'l' && s[i + 3] == 's'
                && s[i + 4] == 'e' {
                Some((JsonModel::Bool(false), i + 5))
            } else {
                None
            }
        } else if s[i] == 'n' {
            if i + 4 <= s.len() && s[i + 1] == 'u' && s[i + 2] == 'l' && s[i + 3] == 'l' {
                Some((JsonModel::Null, i + 4))
            } else {
                None
            }
        } else if s[i] == '-' || sp_is_digit(s[i]) {
            match sp_number(s, i) {
                Some((t, k)) => Some((JsonModel::Num(t), k)),
                None => None,
            }
        } else {
            None
        }
    }
}

/// The elements of a non-empty array from `i` up to its `]`.
pub open spec fn sp_items(s: Seq<char>, i: int, f: nat) -> Option<(Seq<JsonModel>, int)>
    decreases f, 1nat,
{
    if f == 0 {
        None
    } else {
        match sp_value(s, i, f) {
            Some((v, k)) => {
                let k2: int = sp_ws(s, k);
                if 0 <= k2 && k2 < s.len() && s[k2] == ',' {
                    match sp_items(s, k2 + 1, (f - 1) as nat) {
                        Some((rest, k3)) => Some((seq![v] + rest, k3)),
                        None => None,
                    }
                } else if 0 <= k2 && k2 < s.len() && s[k2] == ']' {
                    Some((seq![v], k2 + 1))
                } else {
                    None
                }
            },
            None => None,
        }
    }
}

/// The members of a non-empty object from `i` (whitespace already
/// skipped) up to its `}`.
pub open spec fn sp_members(s: Seq<char>, i: int, f: nat)
    -> Option<(Seq<(Seq<char>, JsonModel)>, int)>
    decreases f, 1nat,
{
    if f == 0 {
        None
    } else {
        match sp_string(s, i) {
            Some((key, j)) => {
                let j2: int = sp_ws(s, j);
                if 0 <= j2 && j2 < s.len() && s[j2] == ':' {
                    match sp_value(s, j2 + 1, f) {
                        Some((v, k)) => {
                            let k2: int = sp_ws(s, k);
                            if 0 <= k2 && k2 < s.len() && s[k2] == ',' {
                                let j3: int = sp_ws(s, k2 + 1);
                                match sp_members(s, j3, (f - 1) as nat) {
                                    Some((rest, k3)) => Some((seq![(key, v)] + rest, k3)),
                                    None => None,
                                }
                            } else if 0 <= k2 && k2 < s.len() && s[k2] == '}' {
                                Some((seq![(key, v)], k2 + 1))
                            } else {
                                None
                            }
                        },
                        None => None,
                    }
                } else {
                    None
                }
            },
            None => None,
        }
    }
}

/// A complete document: one value with only whitespace after it.
pub open spec fn sp_parse(s: Seq<char>) -> Option<JsonModel> {
    match sp_value(s, 0, (s.len() + 1) as nat) {
        Some((v, k)) => if sp_ws(s, k) == s.len() {
            Some(v)
        } else {
            None
        },
        None => None,
    }
}

proof fn lemma_arr_model_prepend(v: JsonValue, rest: Seq<JsonValue>)
    ensures
        sp_arr_model(seq![v] + rest) == seq![v.model()] + sp_arr_model(rest),
{
    let s = seq![v] + rest;
    assert(s.first() == v);
    assert(s.drop_first() =~= rest);
}

proof fn lemma_obj_model_prepend(key: String, v: JsonValue, rest: Seq<(String, JsonValue)>)
    ensures
        sp_obj_model(seq![(key, v)] + rest)
            == seq![(key@, v.model())] + sp_obj_model(rest),
{
    let s = seq![(key, v)] + rest;
    assert(s.first() == (key, v));
    assert(s.drop_first() =~= rest);
}

/// `sp_obj_model` maps the members pointwise.
pub proof fn lemma_obj_model_index(members: Seq<(String, JsonValue)>)
    ensures
        sp_obj_model(members).len() == members.len(),
        forall|i: int| 0 <= i < members.len()
            ==> #[trigger] sp_obj_model(members)[i]
                == (members[i].0@, members[i].1.model()),
    decreases members,
{
    if members.len() > 0 {
        lemma_obj_model_index(members.drop_first());
        assert forall|i: int| 0 <= i < members.len()
            implies #[trigger] sp_obj_model(members)[i]
                == (members[i].0@, members[i].1.model()) by {
            if i > 0 {
                assert(sp_obj_model(members)[i]
                    == sp_obj_model(members.drop_first())[i - 1]);
            }
        }
    }
}

/// `sp_arr_model` maps the elements pointwise.
pub proof fn lemma_arr_model_index(items: Seq<JsonValue>)
    ensures
        sp_arr_model(items).len() == items.len(),
        forall|i: int| 0 <= i < items.len()
            ==> #[trigger] sp_arr_model(items)[i] == items[i].model(),
    decreases items,
{
    if items.len() > 0 {
        lemma_arr_model_index(items.drop_first());
        assert forall|i: int| 0 <= i < items.len()
            implies #[trigger] sp_arr_model(items)[i] == items[i].model() by {
            if i > 0 {
                assert(sp_arr_model(items)[i] == sp_arr_model(items.drop_first())[i - 1]);
            }
        }
    }
}

/// Skip insignificant whitespace from `i`.
fn skip_ws(s: &str, n: usize, i: usize) -> (r: usize)
    requires
        n == s@.len(),
        i <= n,
    ensures
        i <= r <= n,
        r as int == sp_ws(s@, i as int),
{
    let mut j: usize = i;
    while j < n
        invariant
            i <= j <= n,
            n == s@.len(),
            sp_ws(s@, i as int) == sp_ws(s@, j as int),
        decreases n - j,
    {
        let c: char = s.get_char(j);
        if !(c == ' ' || c == '\t' || c == '\n' || c == '\r') {
            return j;
        }
        j += 1;
    }
    j
}

/// Lex a string token at `i`; mirrors `sp_string`.
fn p_string(s: &str, n: usize, i: usize) -> (r: Option<(String, usize)>)
    requires
        n == s@.len(),
        i <= n,
    ensures
        match r {
            Some(p) => sp_string(s@, i as int) == Some((p.0@, p.1 as int)) && i < p.1 <= n,
            None => sp_string(s@, i as int) is None,
        },
{
    if i >= n || s.get_char(i) != '"' {
        return None;
    }
    let mut j: usize = i + 1;
    while j < n
        invariant
            i + 1 <= j <= n,
            n == s@.len(),
            i < n,
            s@[i as int] == '"',
            sp_str_end(s@, i + 1) == sp_str_end(s@, j as int),
        decreases n - j,
    {
        let c: char = s.get_char(j);
        if c == '"' {
            let content: &str = s.substring_char(i + 1, j);
            let t: String = String::from_str(content);
            return Some((t, j + 1));
        }
        if c == '\\' || (c as u32) < 0x20 {
            return None;
        }
        j += 1;
    }
    None
}

/// The end of the digit run at `i`; mirrors `sp_digits_end`.
fn digits_end(s: &str, n: usize, i: usize) -> (r: usize)
    requires
        n == s@.len(),
        i <= n,
    ensures
        i <= r <= n,
        r as int == sp_digits_end(s@, i as int),
{
    let mut j: usize = i;
    while j < n
        invariant
            i <= j <= n,
            n == s@.len(),
            sp_digits_end(s@, i as int) == sp_digits_end(s@, j as int),
        decreases n - j,
    {
        let u: u32 = s.get_char(j) as u32;
        if !(0x30 <= u && u <= 0x39) {
            return j;
        }
        j += 1;
    }
    j
}

/// Lex a number token at `i`, kept as raw text; mirrors `sp_number`.
fn p_number(s: &str, n: usize, i: usize) -> (r: Option<(String, usize)>)
    requires
        n == s@.len(),
        i < n,
    ensures
        match r {
            Some(p) => sp_number(s@, i as int) == Some((p.0@, p.1 as int)) && i < p.1 <= n,
            None => sp_number(s@, i as int) is None,
        },
{
    let j: usize = if s.get_char(i) == '-' { i + 1 } else { i };
    let k: usize = digits_end(s, n, j);
    if k == j {
        return None;
    }
    let mut k2: usize = k;
    if k < n && s.get_char(k) == '.' {
        let k3: usize = digits_end(s, n, k + 1);
        if k3 == k + 1 {
            return None;
        }
        k2 = k3;
    }
    let mut kk: usize = k2;
    if k2 < n && (s.get_char(k2) == 'e' || s.get_char(k2) == 'E') {
        let j2: usize = if k2 + 1 < n && (s.get_char(k2 + 1) == '+' || s.get_char(k2 + 1) == '-') {
            k2 + 2
        } else {
            k2 + 1
        };
        let k3: usize = digits_end(s, n, j2);
        if k3 == j2 {
            return None;
        }
        kk = k3;
    }
    let t: String = String::from_str(s.substring_char(i, kk));
    Some((t, kk))
}

/// Parse one value at `i0`; mirrors `sp_value`.
fn p_value(s: &str, n: usize, i0: usize, f: usize) -> (r: Option<(JsonValue, usize)>)
    requires
        n == s@.len(),
        i0 <= n,
    ensures
        match r {
            Some(p) => sp_value(s@, i0 as int, f as nat) == Some((p.0.model(), p.1 as int))
                && p.1 <= n,
            None => sp_value(s@, i0 as int, f as nat) is None,
        },
    decreases f, 0int,
{
    if f == 0 {
        return None;
    }
    let i: usize = skip_ws(s, n, i0);
    if i >= n {
        return None;
    }
    let c: char = s.get_char(i);
    if c == '{' {
        let j: usize = skip_ws(s, n, i + 1);
        if j < n && s.get_char(j) == '}' {
            let items: Vec<(String, JsonValue)> = Vec::new();
            proof {
                assert(sp_obj_model(items@) =~= Seq::<(Seq<char>, JsonModel)>::empty());
            }
            return Some((JsonValue::Obj(items), j + 1));
        }
        match p_members(s, n, j, f - 1) {
            Some(p) => Some((JsonValue::Obj(p.0), p.1)),
            None => None,
        }
    } else if c == '[' {
        let j: usize = skip_ws(s, n, i + 1);
        if j < n && s.get_char(j) == ']' {
            let items: Vec<JsonValue> = Vec::new();
            proof {
                assert(sp_arr_model(items@) =~= Seq::<JsonModel>::empty());
            }
            return Some((JsonValue::Arr(items), j + 1));
        }
        match p_items(s, n, j, f - 1) {
            Some(p) => Some((JsonValue::Arr(p.0), p.1)),
            None => None,
        }
    } else if c == '"' {
        match p_string(s, n, i) {
            Some(p) => Some((JsonValue::Str(p.0), p.1)),
            None => None,
        }
    } else if c == 't' {
        if n - i >= 4 && s.get_char(i + 1) == 'r' && s.get_char(i + 2) == 'u'
            && s.get_char(i + 3) == 'e' {
            Some((JsonValue::Bool(true), i + 4))
        } else {
            None
        }
    } else if c == 'f' {
        if n - i >= 5 && s.get_char(i + 1) == 'a' && s.get_char(i + 2) == 'l'
            && s.get_char(i + 3) == 's' && s.get_char(i + 4) == 'e' {
            Some((JsonValue::Bool(false), i + 5))
        } else {
            None
        }
    } else if c == 'n' {
        if n - i >= 4 && s.get_char(i + 1) == 'u' && s.get_char(i + 2) == 'l'
            && s.get_char(i + 3) == 'l' {
            Some((JsonValue::Null, i + 4))
        } else {
            None
        }
    } else if c == '-' || (0x30 <= c as u32 && c as u32 <= 0x39) {
        match p_number(s, n, i) {
            Some(p) => Some((JsonValue::Num(p.0), p.1)),
            None => None,
        }
    } else {
        None
    }
}

/// Parse the elements of a non-empty array; mirrors `sp_items`.
fn p_items(s: &str, n: usize, i: usize, f: usize) -> (r: Option<(Vec<JsonValue>, usize)>)
    requires
        n == s@.len(),
        i <= n,
    ensures
        match r {
            Some(p) => sp_items(s@, i as int, f as nat)
                == Some((sp_arr_model(p.0@), p.1 as int)) && p.1 <= n,
            None => sp_items(s@, i as int, f as nat) is None,
        },
    decreases f, 1int,
{
    if f == 0 {
        return None;
    }
    match p_value(s, n, i, f) {
        Some(pv) => {
            let (v, k): (JsonValue, usize) = pv;
            let k2: usize = skip_ws(s, n, k);
            if k2 < n && s.get_char(k2) == ',' {
                match p_items(s, n, k2 + 1, f - 1) {
                    Some(pr) => {
                        let (mut rest, k3): (Vec<JsonValue>, usize) = pr;
                        let ghost r0: Seq<JsonValue> = rest@;
                        rest.insert(0, v);
                        proof {
                            assert(rest@ =~= seq![rest@[0]] + r0);
                            lemma_arr_model_prepend(rest@[0], r0);
                        }
                        Some((rest, k3))
                    },
                    None => None,
                }
            } else if k2 < n && s.get_char(k2) == ']' {
                let ghost vm: JsonModel = v.model();
                let mut items: Vec<JsonValue> = Vec::new();
                items.push(v);
                proof {
                    assert(items@ =~= seq![items@[0]] + Seq::<JsonValue>::empty());
                    lemma_arr_model_prepend(items@[0], Seq::<JsonValue>::empty());
                    assert(sp_arr_model(items@) =~= seq![vm]);
                }
                Some((items, k2 + 1))
            } else {
                None
            }
        },
        None => None,
    }
}

/// Parse the members of a non-empty object; mirrors `sp_members`.
fn p_members(s: &str, n: usize, i: usize, f: usize)
    -> (r: Option<(Vec<(String, JsonValue)>, usize)>)
    requires
        n == s@.len(),
        i <= n,
    ensures
        match r {
            Some(p) => sp_members(s@, i as int, f as nat)
                == Some((sp_obj_model(p.0@), p.1 as int)) && p.1 <= n,
            None => sp_members(s@, i as int, f as nat) is None,
        },
    decreases f, 1int,
{
    if f == 0 {
        return None;
    }
    match p_string(s, n, i) {
        Some(pk) => {
            let (key, j): (String, usize) = pk;
            let j2: usize = skip_ws(s, n, j);
            if j2 < n && s.get_char(j2) == ':' {
                match p_value(s, n, j2 + 1, f) {
                    Some(pv) => {
                        let (v, k): (JsonValue, usize) = pv;
                        let k2: usize = skip_ws(s, n, k);
                        if k2 < n && s.get_char(k2) == ',' {
                            let j3: usize = skip_ws(s, n, k2 + 1);
                            match p_members(s, n, j3, f - 1) {
                                Some(pr) => {
                                    let (mut rest, k3): (Vec<(String, JsonValue)>, usize) = pr;
                                    let ghost r0: Seq<(String, JsonValue)> = rest@;
                                    rest.insert(0, (key, v));
                                    proof {
                                        assert(rest@ =~= seq![rest@[0]] + r0);
                                        lemma_obj_model_prepend(rest@[0].0, rest@[0].1, r0);
                                    }
                                    Some((rest, k3))
                                },
                                None => None,
                            }
                        } else if k2 < n && s.get_char(k2) == '}' {
                            let ghost km: Seq<char> = key@;
                            let ghost vm: JsonModel = v.model();
                            let mut members: Vec<(String, JsonValue)> = Vec::new();
                            members.push((key, v));
                            proof {
                                assert(members@ =~= seq![members@[0]]
                                    + Seq::<(String, JsonValue)>::empty());
                                lemma_obj_model_prepend(members@[0].0, members@[0].1,
                                    Seq::<(String, JsonValue)>::empty());
                                assert(sp_obj_model(members@) =~= seq![(km, vm)]);
                            }
                            Some((members, k2 + 1))
                        } else {
                            None
                        }
                    },
                    None => None,
                }
            } else {
                None
            }
        },
        None => None,
    }
}

impl JsonValue {
    /// Parse a complete JSON document: one value with only whitespace
    /// after it.
    pub fn parse(text: &str) -> (r: Option<JsonValue>)
        requires
            text@.len() < usize::MAX,
        ensures
            match r {
                Some(j) => sp_parse(text@) == Some(j.model()),
                None => sp_parse(text@) is None,
            },
    {
        let n: usize = text.unicode_len();
        match p_value(text, n, 0, n + 1) {
            Some(p) => {
                if skip_ws(text, n, p.1) == n {
                    Some(p.0)
                } else {
                    None
                }
            },
            None => None,
        }
    }
}

/// Character-for-character string comparison.
pub fn str_eq(a: &str, b: &str) -> (r: bool)
    ensures
        r == (a@ == b@),
{
    let na: usize = a.unicode_len();
    let nb: usize = b.unicode_len();
    if na != nb {
        return false;
    }
    let mut i: usize = 0;
    while i < na
        invariant
            na == a@.len(),
            na == b@.len(),
            0 <= i <= na,
            forall|j: int| 0 <= j < i ==> a@[j] == b@[j],
        decreases na - i,
    {
        if a.get_char(i) != b.get_char(i) {
            return false;
        }
        i += 1;
    }
    proof {
        assert(a@ =~= b@);
    }
    true
}

/// The first member under `key`, reading members in document order.
pub open spec fn sp_lookup(ms: Seq<(Seq<char>, JsonModel)>, key: Seq<char>) -> Option<JsonModel>
    decreases ms.len(),
{
    if ms.len() == 0 {
        None
    } else if ms.first().0 == key {
        Some(ms.first().1)
    } else {
        sp_lookup(ms.drop_first(), key)
    }
}

/// The member under `key` when the model is an object.
pub open spec fn sp_get(m: JsonModel, key: Seq<char>) -> Option<JsonModel> {
    match m {
        JsonModel::Obj(ms) => sp_lookup(ms, key),
        _ => None,
    }
}

/// The string member under `key`.
pub open spec fn sp_get_str(m: JsonModel, key: Seq<char>) -> Option<Seq<char>> {
    match sp_get(m, key) {
        Some(JsonModel::Str(t)) => Some(t),
        _ => None,
    }
}

/// The raw text of the number member under `key`.
pub open spec fn sp_get_num(m: JsonModel, key: Seq<char>) -> Option<Seq<char>> {
    match sp_get(m, key) {
        Some(JsonModel::Num(t)) => Some(t),
        _ => None,
    }
}

/// The boolean member under `key`.
pub open spec fn sp_get_bool(m: JsonModel, key: Seq<char>) -> Option<bool> {
    match sp_get(m, key) {
        Some(JsonModel::Bool(b)) => Some(b),
        _ => None,
    }
}

/// The array member under `key`.
pub open spec fn sp_get_arr(m: JsonModel, key: Seq<char>) -> Option<Seq<JsonModel>> {
    match sp_get(m, key) {
        Some(JsonModel::Arr(items)) => Some(items),
        _ => None,
    }
}

/// The unsigned reading of raw number text: digits only, below `2^64`.
pub open spec fn sp_u64_of(t: Seq<char>) -> Option<int> {
    match crate::felt::sp_digits_val(t, 10) {
        Some(v) => if v < 0x10000000000000000 {
            Some(v)
        } else {
            None
        },
        None => None,
    }
}

/// The `u64` member under `key`: a number member whose text is a plain
/// digit run below `2^64`.
pub open spec fn sp_get_u64(m: JsonModel, key: Seq<char>) -> Option<int> {
    match sp_get_num(m, key) {
        Some(t) => sp_u64_of(t),
        None => None,
    }
}

/// Read a `u64` from plain digit text.
pub fn parse_u64(t: &str) -> (r: Option<u64>)
    ensures
        match r {
            Some(x) => sp_u64_of(t@) == Some(x as int),
            None => sp_u64_of(t@) is None,
        },
{
    let n: usize = t.unicode_len();
    if n == 0 {
        return None;
    }
    let mut acc: u64 = 0;
    let mut i: usize = 0;
    while i < n
        invariant
            0 <= i <= n,
            n == t@.len(),
            n >= 1,
            i > 0 ==> crate::felt::sp_digits_val(t@.take(i as int), 10) == Some(acc as int),
            i == 0 ==> acc == 0,
        decreases n - i,
    {
        let c: char = t.get_char(i);
        let u: u32 = c as u32;
        if !(0x30 <= u && u <= 0x39) {
            proof {
                crate::felt::lemma_invalid_digit(t@, 10, i as int);
            }
            return None;
        }
        let d: u64 = (u - 0x30) as u64;
        let big: u128 = (acc as u128) * 10 + (d as u128);
        proof {
            if i > 0 {
                assert(t@.take(i + 1).drop_last() =~= t@.take(i as int));
                assert(t@.take(i + 1).last() == t@[i as int]);
            } else {
                assert(t@.take(1).len() == 1);
                assert(t@.take(1)[0] == t@[0]);
            }
            assert(crate::felt::sp_digits_val(t@.take(i + 1), 10)
                == Some(acc * 10 + d));
        }
        if big > 0xFFFF_FFFF_FFFF_FFFFu128 {
            proof {
                if crate::felt::sp_digits_val(t@, 10) is Some {
                    crate::felt::lemma_digits_prefix_le(t@, 10, i + 1);
                }
            }
            return None;
        }
        acc = big as u64;
        i += 1;
    }
    proof {
        assert(t@.take(n as int) =~= t@);
    }
    Some(acc)
}

impl JsonValue {
    /// The value under `key` when `self` is an object, reading members
    /// in document order.
    pub fn get<'a>(&'a self, key: &str) -> (r: Option<&'a JsonValue>)
        ensures
            match r {
                Some(v) => sp_get(self.model(), key@) == Some(v.model()),
                None => sp_get(self.model(), key@) is None,
            },
    {
        match self {
            JsonValue::Obj(members) => {
                proof {
                    lemma_obj_model_index(members@);
                    assert(sp_obj_model(members@).skip(0) =~= sp_obj_model(members@));
                }
                let mut i: usize = 0;
                while i < members.len()
                    invariant
                        0 <= i <= members@.len(),
                        self == JsonValue::Obj(*members),
                        sp_obj_model(members@).len() == members@.len(),
                        forall|j: int| 0 <= j < members@.len()
                            ==> #[trigger] sp_obj_model(members@)[j]
                                == (members@[j].0@, members@[j].1.model()),
                        sp_lookup(sp_obj_model(members@), key@)
                            == sp_lookup(sp_obj_model(members@).skip(i as int), key@),
                    decreases members@.len() - i,
                {
                    proof {
                        assert(sp_obj_model(members@).skip(i as int).first()
                            == sp_obj_model(members@)[i as int]);
                        assert(sp_obj_model(members@).skip(i as int).drop_first()
                            =~= sp_obj_model(members@).skip(i + 1));
                    }
                    if str_eq(members[i].0.as_str(), key) {
                        return Some(&members[i].1);
                    }
                    i += 1;
                }
                proof {
                    assert(sp_obj_model(members@).skip(members@.len() as int).len() == 0);
                }
                None
            },
            _ => None,
        }
    }

    /// The string member under `key`, when present with string type.
    pub fn get_str<'a>(&'a self, key: &str) -> (r: Option<&'a String>)
        ensures
            match r {
                Some(t) => sp_get_str(self.model(), key@) == Some(t@),
                None => sp_get_str(self.model(), key@) is None,
            },
    {
        match self.get(key) {
            Some(JsonValue::Str(t)) => Some(t),
            _ => None,
        }
    }

    /// The raw number member under `key`, when present with number type.
    pub fn get_num<'a>(&'a self, key: &str) -> (r: Option<&'a String>)
        ensures
            match r {
                Some(t) => sp_get_num(self.model(), key@) == Some(t@),
                None => sp_get_num(self.model(), key@) is None,
            },
    {
        match self.get(key) {
            Some(JsonValue::Num(t)) => Some(t),
            _ => None,
        }
    }

    /// The boolean member under `key`, when present with boolean type.
    pub fn get_bool(&self, key: &str) -> (r: Option<bool>)
        ensures
            match r {
                Some(b) => sp_get_bool(self.model(), key@) == Some(b),
                None => sp_get_bool(self.model(), key@) is None,
            },
    {
        match self.get(key) {
            Some(JsonValue::Bool(b)) => Some(*b),
            _ => None,
        }
    }

    /// The array member under `key`, when present with array type.
    pub fn get_arr<'a>(&'a self, key: &str) -> (r: Option<&'a Vec<JsonValue>>)
        ensures
            match r {
                Some(items) => sp_get_arr(self.model(), key@) == Some(sp_arr_model(items@)),
                None => sp_get_arr(self.model(), key@) is None,
            },
    {
        match self.get(key) {
            Some(JsonValue::Arr(items)) => Some(items),
            _ => None,
        }
    }

    /// The `u64` member under `key`: a number whose text is a plain
    /// digit run below `2^64`.
    pub fn get_u64(&self, key: &str) -> (r: Option<u64>)
        ensures
            match r {
                Some(x) => sp_get_u64(self.model(), key@) == Some(x as int),
                None => sp_get_u64(self.model(), key@) is None,
            },
    {
        match self.get_num(key) {
            Some(t) => parse_u64(t.as_str()),
            None => None,
        }
    }
}

} // verus!
