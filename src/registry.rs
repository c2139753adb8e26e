use vstd::prelude::*;
use vstd::string::{StrSliceExecFns, StringExecFns};
use crate::pascal_case::{NON_ASCII_INPUT, all_ascii, pascal_case, to_pascal_case};
use crate::tokens::{Delimiter, text_is};

verus! {

/// A top-level token of the registry attribute or of the item it is applied
/// to; a group is opaque and known by its delimiter.
#[derive(Clone, Debug, PartialEq, Eq)]
pub enum RegistryToken {
    Ident(String),
    Punct(char),
    /// A literal, with its source text.
    Literal(String),
    /// A group, with its delimiter and whether it holds no tokens.
    Group(Delimiter, bool),
}

/// Why a registry declaration or its list of identifiers is rejected; `at` is
/// the position of the offending token.
#[derive(Clone, Copy, Debug, PartialEq, Eq, Structural)]
pub enum RegistryError {
    /// The item is not an empty enum named `Ids`; `at` is its `enum` keyword.
    MalformedDeclaration { at: Option<usize> },
    NotAStringLiteral { at: usize },
    EmptyLiteral { at: usize },
    DuplicatedLiteral { at: usize },
    NonAsciiLiteral { at: usize },
    ExpectedComma { at: usize },
    UnexpectedToken { at: usize },
}

/// The message of the error for a literal that is not a string literal.
pub const NOT_A_STRING_LITERAL: &'static str = "Literal must be a string literal";

pub open spec fn error_message(e: RegistryError) -> Seq<char> {
    match e {
        RegistryError::MalformedDeclaration { .. } => "Expected an enum formed with the token tree `enum Ids {{}}`."@,
        RegistryError::NotAStringLiteral { .. } => NOT_A_STRING_LITERAL@,
        RegistryError::EmptyLiteral { .. } => "String literals in the attribute cannot be empty."@,
        RegistryError::DuplicatedLiteral { .. } => "Duplicated string literal found."@,
        RegistryError::NonAsciiLiteral { .. } => NON_ASCII_INPUT@,
        RegistryError::ExpectedComma { .. } => "Expected a comma between string literals in the attribute."@,
        RegistryError::UnexpectedToken { .. } => "Expected only string literals and commas in the attribute."@,
    }
}

impl RegistryError {
    /// The message that the compile error shows.
    pub fn message(&self) -> (r: &'static str)
        ensures
            r@ == error_message(*self),
    {
        match self {
            RegistryError::MalformedDeclaration { .. } => "Expected an enum formed with the token tree `enum Ids {{}}`.",
            RegistryError::NotAStringLiteral { .. } => NOT_A_STRING_LITERAL,
            RegistryError::EmptyLiteral { .. } => "String literals in the attribute cannot be empty.",
            RegistryError::DuplicatedLiteral { .. } => "Duplicated string literal found.",
            RegistryError::NonAsciiLiteral { .. } => NON_ASCII_INPUT,
            RegistryError::ExpectedComma { .. } => "Expected a comma between string literals in the attribute.",
            RegistryError::UnexpectedToken { .. } => "Expected only string literals and commas in the attribute.",
        }
    }

    /// The position of the token that the error points at, if any.
    pub fn position(&self) -> (r: Option<usize>)
        ensures
            r == match *self {
                RegistryError::MalformedDeclaration { at } => at,
                RegistryError::NotAStringLiteral { at } => Some(at),
                RegistryError::EmptyLiteral { at } => Some(at),
                RegistryError::DuplicatedLiteral { at } => Some(at),
                RegistryError::NonAsciiLiteral { at } => Some(at),
                RegistryError::ExpectedComma { at } => Some(at),
                RegistryError::UnexpectedToken { at } => Some(at),
            },
    {
        match self {
            RegistryError::MalformedDeclaration { at } => *at,
            RegistryError::NotAStringLiteral { at } => Some(*at),
            RegistryError::EmptyLiteral { at } => Some(*at),
            RegistryError::DuplicatedLiteral { at } => Some(*at),
            RegistryError::NonAsciiLiteral { at } => Some(*at),
            RegistryError::ExpectedComma { at } => Some(*at),
            RegistryError::UnexpectedToken { at } => Some(*at),
        }
    }
}

/// The number of `#` characters in a row from position `i`.
pub open spec fn hash_run(s: Seq<char>, i: int) -> nat
    decreases s.len() - i,
{
    if 0 <= i < s.len() && s[i] == '#' {
        1 + hash_run(s, i + 1)
    } else {
        0
    }
}

/// The length of a string literal's prefix (`r`, `cr`, `c` or none), and
/// whether the literal is raw.
pub open spec fn literal_prefix(s: Seq<char>) -> (int, bool) {
    if s.len() >= 1 && s[0] == 'r' {
        (1, true)
    } else if s.len() >= 2 && s[0] == 'c' && s[1] == 'r' {
        (2, true)
    } else if s.len() >= 1 && s[0] == 'c' {
        (1, false)
    } else {
        (0, false)
    }
}

/// The text between the quotes of a string literal's source text: plain
/// (`"..."`), C string (`c"..."`), or raw with any number of hashes
/// (`r#"..."#`, `cr"..."`). Any other text has none.
pub open spec fn literal_value(s: Seq<char>) -> Option<Seq<char>> {
    let (p, raw) = literal_prefix(s);
    let h: int = if raw {
        hash_run(s, p) as int
    } else {
        0
    };
    let n = s.len() as int;
    if n >= p + 2 * h + 2 && s[p + h] == '"' && s[n - h - 1] == '"' && forall|k: int|
        n - h <= k < n ==> #[trigger] s[k] == '#' {
        Some(s.subrange(p + h + 1, n - h - 1))
    } else {
        None
    }
}

/// The value of a string literal, from its source text.
pub fn value_from_literal_str(literal_str: &str) -> (r: Result<&str, &'static str>)
    ensures
        literal_value(literal_str@) is Some ==> r is Ok && r->Ok_0@ == literal_value(
            literal_str@,
        )->0,
        literal_value(literal_str@) is None ==> r is Err && r->Err_0@ == NOT_A_STRING_LITERAL@,
{
    let ghost s = literal_str@;
    let n = literal_str.unicode_len();
    let c0 = if n >= 1 { literal_str.get_char(0) } else { ' ' };
    let c1 = if n >= 2 { literal_str.get_char(1) } else { ' ' };
    let (p, raw): (usize, bool) = if n >= 1 && c0 == 'r' {
        (1, true)
    } else if n >= 2 && c0 == 'c' && c1 == 'r' {
        (2, true)
    } else if n >= 1 && c0 == 'c' {
        (1, false)
    } else {
        (0, false)
    };
    assert((p as int, raw) == literal_prefix(s));
    let mut j: usize = p;
    if raw {
        while j < n && literal_str.get_char(j) == '#'
            invariant
                s == literal_str@,
                n == s.len(),
                p <= j <= n,
                hash_run(s, p as int) == (j - p) + hash_run(s, j as int),
            decreases n - j,
        {
            j = j + 1;
        }
    }
    let h: usize = j - p;
    assert(h == if raw { hash_run(s, p as int) as int } else { 0 });
    if n - j < 2 || n - j - 2 < h {
        return Err(NOT_A_STRING_LITERAL);
    }
    if literal_str.get_char(j) != '"' || literal_str.get_char(n - h - 1) != '"' {
        return Err(NOT_A_STRING_LITERAL);
    }
    let mut k: usize = n - h;
    while k < n
        invariant
            s == literal_str@,
            n == s.len(),
            h <= n,
            (p as int, raw) == literal_prefix(s),
            h == if raw { hash_run(s, p as int) as int } else { 0 },
            n - h <= k <= n,
            forall|m: int| n - h <= m < k ==> s[m] == '#',
        decreases n - k,
    {
        if literal_str.get_char(k) != '#' {
            assert(!(s[k as int] == '#'));
            return Err(NOT_A_STRING_LITERAL);
        }
        k = k + 1;
    }
    Ok(literal_str.substring_char(j + 1, n - h - 1))
}

/// One token of the attribute's list, read after the values `vals` that
/// came before it, at position `at`.
pub open spec fn attr_step(vals: Seq<Seq<char>>, tok: RegistryToken, at: int) -> Result<
    Seq<Seq<char>>,
    RegistryError,
> {
    match tok {
        RegistryToken::Literal(text) => match literal_value(text@) {
            None => Err(RegistryError::NotAStringLiteral { at: at as usize }),
            Some(v) => {
                if v.len() == 0 {
                    Err(RegistryError::EmptyLiteral { at: at as usize })
                } else if vals.contains(v) {
                    Err(RegistryError::DuplicatedLiteral { at: at as usize })
                } else if !all_ascii(v) {
                    Err(RegistryError::NonAsciiLiteral { at: at as usize })
                } else {
                    Ok(vals.push(v))
                }
            },
        },
        RegistryToken::Punct(c) => {
            if c == ',' {
                Ok(vals)
            } else {
                Err(RegistryError::ExpectedComma { at: at as usize })
            }
        },
        _ => Err(RegistryError::UnexpectedToken { at: at as usize }),
    }
}

/// The identifier values of the attribute's tokens, in order, or the error of
/// the first token that is rejected.
pub open spec fn attr_values(toks: Seq<RegistryToken>) -> Result<Seq<Seq<char>>, RegistryError>
    decreases toks.len(),
{
    if toks.len() == 0 {
        Ok(Seq::empty())
    } else {
        match attr_values(toks.drop_last()) {
            Err(e) => Err(e),
            Ok(vals) => attr_step(vals, toks.last(), toks.len() - 1),
        }
    }
}

fn contains_value(ids: &Vec<String>, value: &str) -> (r: bool)
    ensures
        r == ids@.map_values(|s: String| s@).contains(value@),
{
    let ghost vals = ids@.map_values(|s: String| s@);
    let mut i: usize = 0;
    while i < ids.len()
        invariant
            0 <= i <= ids@.len(),
            vals == ids@.map_values(|s: String| s@),
            forall|j: int| 0 <= j < i ==> vals[j] != value@,
        decreases ids@.len() - i,
    {
        if text_is(ids[i].as_str(), value) {
            assert(vals[i as int] == value@);
            return true;
        }
        i = i + 1;
    }
    false
}

/// The identifier values listed in the registry attribute, with the variant
/// name of each, in the order of the list.
pub fn parse_ids_attribute(attr: &Vec<RegistryToken>) -> (r: Result<Vec<IdsVariant>, RegistryError>)
    ensures
        attr_values(attr@) is Err ==> r == Err::<Vec<IdsVariant>, RegistryError>(
            attr_values(attr@)->Err_0,
        ),
        attr_values(attr@) is Ok ==> r is Ok && variants_of(r->Ok_0@, attr_values(attr@)->Ok_0),
{
    let mut ids: Vec<String> = Vec::new();
    let mut variants: Vec<IdsVariant> = Vec::new();
    let mut i: usize = 0;
    assert(ids@.map_values(|s: String| s@) =~= Seq::<Seq<char>>::empty());
    assert(attr@.subrange(0, 0) =~= Seq::<RegistryToken>::empty());
    while i < attr.len()
        invariant
            0 <= i <= attr@.len(),
            attr_values(attr@.subrange(0, i as int)) == Ok::<Seq<Seq<char>>, RegistryError>(
                ids@.map_values(|s: String| s@),
            ),
            variants_of(variants@, ids@.map_values(|s: String| s@)),
        decreases attr@.len() - i,
    {
        let ghost vals = ids@.map_values(|s: String| s@);
        proof {
            assert(attr@.subrange(0, i + 1).drop_last() =~= attr@.subrange(0, i as int));
        }
        match &attr[i] {
            RegistryToken::Literal(text) => {
                let value = match value_from_literal_str(text.as_str()) {
                    Ok(v) => v,
                    Err(_) => {
                        proof { lemma_attr_error_stays(attr@, i as int + 1); }
                        return Err(RegistryError::NotAStringLiteral { at: i });
                    },
                };
                if value.unicode_len() == 0 {
                    proof { lemma_attr_error_stays(attr@, i as int + 1); }
                    return Err(RegistryError::EmptyLiteral { at: i });
                }
                if contains_value(&ids, value) {
                    proof { lemma_attr_error_stays(attr@, i as int + 1); }
                    return Err(RegistryError::DuplicatedLiteral { at: i });
                }
                let name = match to_pascal_case(value) {
                    Ok(name) => name,
                    Err(_) => {
                        proof { lemma_attr_error_stays(attr@, i as int + 1); }
                        return Err(RegistryError::NonAsciiLiteral { at: i });
                    },
                };
                let value = String::from_str(value);
                variants.push(IdsVariant { name, value: value.clone() });
                ids.push(value);
                proof {
                    assert(ids@.map_values(|s: String| s@) =~= vals.push(value@));
                }
            },
            RegistryToken::Punct(c) => {
                if *c != ',' {
                    proof { lemma_attr_error_stays(attr@, i as int + 1); }
                    return Err(RegistryError::ExpectedComma { at: i });
                }
            },
            _ => {
                proof { lemma_attr_error_stays(attr@, i as int + 1); }
                return Err(RegistryError::UnexpectedToken { at: i });
            },
        }
        i = i + 1;
    }
    assert(attr@.subrange(0, attr@.len() as int) =~= attr@);
    Ok(variants)
}

/// Once a prefix of the attribute is rejected, the whole attribute is
/// rejected with the same error.
proof fn lemma_attr_error_stays(toks: Seq<RegistryToken>, n: int)
    requires
        0 <= n <= toks.len(),
        attr_values(toks.subrange(0, n)) is Err,
    ensures
        attr_values(toks) == attr_values(toks.subrange(0, n)),
    decreases toks.len() - n,
{
    if n < toks.len() {
        assert(toks.subrange(0, n + 1).drop_last() =~= toks.subrange(0, n));
        lemma_attr_error_stays(toks, n + 1);
    } else {
        assert(toks.subrange(0, n) =~= toks);
    }
}

/// The value of a token that is a string literal.
pub open spec fn token_value(t: RegistryToken) -> Option<Seq<char>> {
    match t {
        RegistryToken::Literal(text) => literal_value(text@),
        _ => None,
    }
}

/// The values of the string-literal tokens, in order.
pub open spec fn listed_values(toks: Seq<RegistryToken>) -> Seq<Seq<char>>
    decreases toks.len(),
{
    if toks.len() == 0 {
        Seq::empty()
    } else {
        match token_value(toks.last()) {
            Some(v) => listed_values(toks.drop_last()).push(v),
            None => listed_values(toks.drop_last()),
        }
    }
}

/// An empty list of identifiers is accepted and gives no values.
pub proof fn lemma_empty_list_accepted(attr: Seq<RegistryToken>)
    requires
        attr.len() == 0,
    ensures
        attr_values(attr) == Ok::<Seq<Seq<char>>, RegistryError>(Seq::empty()),
{
}

proof fn lemma_value_recorded(toks: Seq<RegistryToken>, n: int, i: int)
    requires
        0 <= i < n <= toks.len(),
        attr_values(toks.subrange(0, n)) is Ok,
        token_value(toks[i]) is Some,
    ensures
        attr_values(toks.subrange(0, n))->Ok_0.contains(token_value(toks[i])->0),
    decreases n,
{
    let v = token_value(toks[i])->0;
    assert(toks.subrange(0, n).drop_last() =~= toks.subrange(0, n - 1));
    assert(toks.subrange(0, n).last() == toks[n - 1]);
    if n == i + 1 {
        let vals = attr_values(toks.subrange(0, n - 1))->Ok_0;
        assert(attr_values(toks.subrange(0, n))->Ok_0 == vals.push(v));
        assert(vals.push(v)[vals.len() as int] == v);
    } else {
        lemma_value_recorded(toks, n - 1, i);
        let vals = attr_values(toks.subrange(0, n - 1))->Ok_0;
        let k = choose|k: int| 0 <= k < vals.len() && vals[k] == v;
        let after = attr_values(toks.subrange(0, n))->Ok_0;
        assert(after == vals || after == vals.push(token_value(toks[n - 1])->0));
        assert(after[k] == v);
    }
}

/// A list in which two string literals have the same value is rejected.
pub proof fn lemma_duplicate_rejected(attr: Seq<RegistryToken>, i: int, j: int)
    requires
        0 <= i < j < attr.len(),
        token_value(attr[i]) is Some,
        token_value(attr[i]) == token_value(attr[j]),
    ensures
        attr_values(attr) is Err,
{
    assert(attr.subrange(0, j + 1).drop_last() =~= attr.subrange(0, j));
    assert(attr.subrange(0, j + 1).last() == attr[j]);
    if attr_values(attr.subrange(0, j)) is Ok {
        lemma_value_recorded(attr, j, i);
    }
    lemma_attr_error_stays(attr, j + 1);
}

/// Every token is a comma or a string literal with a non-empty ASCII value,
/// and no two literals have the same value.
pub open spec fn is_valid_list(toks: Seq<RegistryToken>) -> bool {
    &&& forall|i: int|
        0 <= i < toks.len() ==> #[trigger] toks[i] == RegistryToken::Punct(',') || {
            &&& token_value(toks[i]) is Some
            &&& token_value(toks[i])->0.len() > 0
            &&& all_ascii(token_value(toks[i])->0)
        }
    &&& forall|i: int, j: int|
        0 <= i < j < toks.len() && token_value(toks[i]) is Some ==> #[trigger] token_value(toks[i])
            != #[trigger] token_value(toks[j])
}

proof fn lemma_listed_from(toks: Seq<RegistryToken>, v: Seq<char>)
    requires
        listed_values(toks).contains(v),
    ensures
        exists|i: int| 0 <= i < toks.len() && token_value(toks[i]) == Some(v),
    decreases toks.len(),
{
    let prev = toks.drop_last();
    if listed_values(prev).contains(v) {
        lemma_listed_from(prev, v);
        let i = choose|i: int| 0 <= i < prev.len() && token_value(prev[i]) == Some(v);
        assert(toks[i] == prev[i]);
    } else {
        let k = choose|k: int| 0 <= k < listed_values(toks).len() && listed_values(toks)[k] == v;
        assert(token_value(toks.last()) == Some(v));
    }
}

proof fn lemma_valid_prefix(toks: Seq<RegistryToken>, n: int)
    requires
        is_valid_list(toks),
        0 <= n <= toks.len(),
    ensures
        attr_values(toks.subrange(0, n)) == Ok::<Seq<Seq<char>>, RegistryError>(
            listed_values(toks.subrange(0, n)),
        ),
    decreases n,
{
    if n > 0 {
        let prefix = toks.subrange(0, n);
        assert(prefix.drop_last() =~= toks.subrange(0, n - 1));
        assert(prefix.last() == toks[n - 1]);
        lemma_valid_prefix(toks, n - 1);
        let vals = listed_values(toks.subrange(0, n - 1));
        if toks[n - 1] != RegistryToken::Punct(',') {
            let v = token_value(toks[n - 1])->0;
            if vals.contains(v) {
                lemma_listed_from(toks.subrange(0, n - 1), v);
                let pre = toks.subrange(0, n - 1);
                let i = choose|i: int| 0 <= i < pre.len() && token_value(#[trigger] pre[i]) == Some(v);
                assert(pre[i] == toks[i]);
                assert(token_value(toks[i]) != token_value(toks[n - 1]));
            }
        }
    } else {
        assert(toks.subrange(0, 0) =~= Seq::<RegistryToken>::empty());
    }
}

/// In a list whose tokens before position `j` are valid, a string literal at
/// `j` with the value of an earlier literal is rejected as a duplicate at `j`.
pub proof fn lemma_duplicate_rejected_at(attr: Seq<RegistryToken>, i: int, j: int)
    requires
        0 <= i < j < attr.len(),
        is_valid_list(attr.subrange(0, j)),
        token_value(attr[i]) is Some,
        token_value(attr[i]) == token_value(attr[j]),
    ensures
        attr_values(attr) == Err::<Seq<Seq<char>>, RegistryError>(
            RegistryError::DuplicatedLiteral { at: j as usize },
        ),
{
    let pre = attr.subrange(0, j);
    lemma_valid_prefix(pre, j);
    assert(pre.subrange(0, j) =~= pre);
    assert(pre[i] == attr[i]);
    lemma_value_recorded(attr, j, i);
    assert(attr.subrange(0, j + 1).drop_last() =~= pre);
    assert(attr.subrange(0, j + 1).last() == attr[j]);
    lemma_attr_error_stays(attr, j + 1);
}

/// A valid list is accepted, with the values of its literals in the order of
/// the list.
pub proof fn lemma_valid_list_accepted(attr: Seq<RegistryToken>)
    requires
        is_valid_list(attr),
    ensures
        attr_values(attr) == Ok::<Seq<Seq<char>>, RegistryError>(listed_values(attr)),
{
    lemma_valid_prefix(attr, attr.len() as int);
    assert(attr.subrange(0, attr.len() as int) =~= attr);
}

/// A variant of the generated `Ids` enum: its name and the identifier it
/// stands for.
#[derive(Clone, Debug, PartialEq, Eq)]
pub struct IdsVariant {
    pub name: String,
    pub value: String,
}

/// The variants hold the values, in order, each named by its pascal case.
pub open spec fn variants_of(variants: Seq<IdsVariant>, vals: Seq<Seq<char>>) -> bool {
    &&& variants.len() == vals.len()
    &&& forall|k: int|
        0 <= k < vals.len() ==> (#[trigger] variants[k]).value@ == vals[k] && variants[k].name@
            == pascal_case(vals[k])
}

pub open spec fn is_word(t: RegistryToken, name: Seq<char>) -> bool {
    match t {
        RegistryToken::Ident(s) => s@ == name,
        _ => false,
    }
}

/// The position of the first `enum` keyword from `i` on.
pub open spec fn first_enum_from(item: Seq<RegistryToken>, i: int) -> Option<int>
    decreases item.len() - i,
{
    if i < 0 || i >= item.len() {
        None
    } else if is_word(item[i], "enum"@) {
        Some(i)
    } else {
        first_enum_from(item, i + 1)
    }
}

/// How many tokens the visibility takes: `pub`, then a parenthesized
/// restriction such as `(crate)`, both optional.
pub open spec fn visibility_len(item: Seq<RegistryToken>) -> int {
    if item.len() >= 1 && is_word(item[0], "pub"@) {
        if item.len() >= 2 && item[1] is Group && item[1]->Group_0 == Delimiter::Parenthesis {
            2
        } else {
            1
        }
    } else {
        0
    }
}

/// Whether the item is exactly an empty enum named `Ids` after its visibility.
pub open spec fn is_ids_declaration(item: Seq<RegistryToken>) -> bool {
    let v = visibility_len(item);
    &&& item.len() == v + 3
    &&& is_word(item[v], "enum"@)
    &&& is_word(item[v + 1], "Ids"@)
    &&& item[v + 2] == RegistryToken::Group(Delimiter::Brace, true)
}

/// The positions of the tokens that make the enum's visibility, or, for an
/// item that is not exactly an empty enum named `Ids`, the error. That error
/// points at the `enum` keyword, else at the item's first token.
pub open spec fn declaration_visibility(item: Seq<RegistryToken>) -> Result<Seq<usize>, RegistryError> {
    if is_ids_declaration(item) {
        Ok(Seq::new(visibility_len(item) as nat, |i: int| i as usize))
    } else {
        Err(
            RegistryError::MalformedDeclaration {
                at: match first_enum_from(item, 0) {
                    Some(e) => Some(e as usize),
                    None => if item.len() > 0 {
                        Some(0)
                    } else {
                        None
                    },
                },
            },
        )
    }
}

fn token_is_word(t: &RegistryToken, name: &str) -> (r: bool)
    ensures
        r == is_word(*t, name@),
{
    match t {
        RegistryToken::Ident(s) => text_is(s.as_str(), name),
        _ => false,
    }
}

/// Checks that the item is exactly an empty enum named `Ids`, and finds the
/// tokens of its visibility.
pub fn check_ids_declaration(item: &Vec<RegistryToken>) -> (r: Result<Vec<usize>, RegistryError>)
    ensures
        declaration_visibility(item@) is Ok ==> r is Ok && r->Ok_0@ == declaration_visibility(
            item@,
        )->Ok_0,
        declaration_visibility(item@) is Err ==> r == Err::<Vec<usize>, RegistryError>(
            declaration_visibility(item@)->Err_0,
        ),
{
    let n = item.len();
    let mut visibility: Vec<usize> = Vec::new();
    if n >= 1 && token_is_word(&item[0], "pub") {
        visibility.push(0);
        if n >= 2 {
            match &item[1] {
                RegistryToken::Group(Delimiter::Parenthesis, _) => visibility.push(1),
                _ => {},
            }
        }
    }
    let v = visibility.len();
    assert(v == visibility_len(item@));
    let well_formed = n == v + 3 && token_is_word(&item[v], "enum") && token_is_word(
        &item[v + 1],
        "Ids",
    ) && match &item[v + 2] {
        RegistryToken::Group(Delimiter::Brace, true) => true,
        _ => false,
    };
    if well_formed {
        assert(visibility@ =~= declaration_visibility(item@)->Ok_0);
        return Ok(visibility);
    }
    let mut e: usize = 0;
    while e < n && !token_is_word(&item[e], "enum")
        invariant
            n == item@.len(),
            0 <= e <= n,
            first_enum_from(item@, 0) == first_enum_from(item@, e as int),
        decreases n - e,
    {
        e = e + 1;
    }
    let at = if e < n {
        Some(e)
    } else if n > 0 {
        Some(0)
    } else {
        None
    };
    Err(RegistryError::MalformedDeclaration { at })
}

/// Two generations from the same list of values give the same variants, with
/// the same names, in the same order.
pub proof fn lemma_variants_deterministic(
    first: Seq<IdsVariant>,
    second: Seq<IdsVariant>,
    vals: Seq<Seq<char>>,
)
    requires
        variants_of(first, vals),
        variants_of(second, vals),
    ensures
        first.len() == second.len(),
        forall|k: int|
            0 <= k < first.len() ==> (#[trigger] first[k]).name@ == second[k].name@
                && first[k].value@ == second[k].value@,
{
    assert forall|k: int| 0 <= k < first.len() implies (#[trigger] first[k]).name@
        == second[k].name@ && first[k].value@ == second[k].value@ by {
        assert(first[k].name@ == pascal_case(vals[k]));
        assert(second[k].name@ == pascal_case(vals[k]));
    }
}

/// What the registry attribute generates: the visibility of the `Ids` enum
/// and of its accessor, as positions of the item's tokens, and its variants in
/// the order of the list.
#[derive(Clone, Debug, PartialEq, Eq)]
pub struct IdsEnum {
    pub visibility: Vec<usize>,
    pub variants: Vec<IdsVariant>,
}

/// Validates the registry attribute's list of identifiers and the item it is
/// applied to, and gives what is to be generated. The item is checked first.
pub fn leptos_unique_ids(attr: &Vec<RegistryToken>, item: &Vec<RegistryToken>) -> (r: Result<
    IdsEnum,
    RegistryError,
>)
    ensures
        declaration_visibility(item@) is Err ==> r == Err::<IdsEnum, RegistryError>(
            declaration_visibility(item@)->Err_0,
        ),
        declaration_visibility(item@) is Ok && attr_values(attr@) is Err ==> r == Err::<
            IdsEnum,
            RegistryError,
        >(attr_values(attr@)->Err_0),
        declaration_visibility(item@) is Ok && attr_values(attr@) is Ok ==> {
            &&& r is Ok
            &&& r->Ok_0.visibility@ == declaration_visibility(item@)->Ok_0
            &&& variants_of(r->Ok_0.variants@, attr_values(attr@)->Ok_0)
        },
{
    let visibility = match check_ids_declaration(item) {
        Ok(v) => v,
        Err(e) => return Err(e),
    };
    let variants = match parse_ids_attribute(attr) {
        Ok(v) => v,
        Err(e) => return Err(e),
    };
    Ok(IdsEnum { visibility, variants })
}

} // verus!
