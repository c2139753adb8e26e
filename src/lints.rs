use vstd::prelude::*;
use crate::helpers::{
    ViewMacroCallIdAttributeValueIter, id_attribute_values, is_leptos_view_macro_call,
    is_view_macro_call,
};
use crate::tokens::{MacCall, Span, TokenTree, is_ident_named, is_str_literal, tree_span};

verus! {

/// The two rules on `id` attribute values.
#[derive(Clone, Copy, Debug, PartialEq, Eq, Structural)]
pub enum Lint {
    /// A string literal passed as an `id` attribute value.
    LiteralAsIdAttributeValue,
    /// A value that is neither a string literal nor an `Ids` variant.
    TtAsIdAttributeValue,
}

/// How severe a diagnostic is.
#[derive(Clone, Copy, Debug, PartialEq, Eq, Structural)]
pub enum Level {
    Warn,
}

/// A warning of one rule at one place.
#[derive(Clone, Copy, Debug, PartialEq, Eq, Structural)]
pub struct Diagnostic {
    pub lint: Lint,
    pub span: Span,
}

pub open spec fn lint_message(lint: Lint) -> Seq<char> {
    match lint {
        Lint::LiteralAsIdAttributeValue => "literal string passed as id attribute value"@,
        Lint::TtAsIdAttributeValue => "token tree that is not `Ids` enum passed as id attribute value"@,
    }
}

pub open spec fn lint_help(lint: Lint) -> Seq<char> {
    match lint {
        Lint::LiteralAsIdAttributeValue => "for further information visit https://github.com/mondeja/leptos-unique-ids/tree/main/lints/literal_as_id_attribute_value#readme"@,
        Lint::TtAsIdAttributeValue => "for further information visit https://github.com/mondeja/leptos-unique-ids/tree/main/lints/tt_as_id_attribute_value#readme"@,
    }
}

impl Lint {
    /// The lint's name.
    pub fn name(&self) -> (r: &'static str)
        ensures
            *self is LiteralAsIdAttributeValue ==> r@ == "literal_as_id_attribute_value"@,
            *self is TtAsIdAttributeValue ==> r@ == "tt_as_id_attribute_value"@,
    {
        match self {
            Lint::LiteralAsIdAttributeValue => "literal_as_id_attribute_value",
            Lint::TtAsIdAttributeValue => "tt_as_id_attribute_value",
        }
    }

    /// The level at which the lint reports.
    pub fn level(&self) -> (r: Level)
        ensures
            r == Level::Warn,
    {
        Level::Warn
    }

    /// The fixed message of the lint's diagnostics.
    pub fn message(&self) -> (r: &'static str)
        ensures
            r@ == lint_message(*self),
    {
        match self {
            Lint::LiteralAsIdAttributeValue => "literal string passed as id attribute value",
            Lint::TtAsIdAttributeValue => "token tree that is not `Ids` enum passed as id attribute value",
        }
    }

    /// The fixed help text of the lint's diagnostics, with a link to the
    /// lint's documentation.
    pub fn help(&self) -> (r: &'static str)
        ensures
            r@ == lint_help(*self),
    {
        match self {
            Lint::LiteralAsIdAttributeValue => "for further information visit https://github.com/mondeja/leptos-unique-ids/tree/main/lints/literal_as_id_attribute_value#readme",
            Lint::TtAsIdAttributeValue => "for further information visit https://github.com/mondeja/leptos-unique-ids/tree/main/lints/tt_as_id_attribute_value#readme",
        }
    }
}

/// Whether a rule reports an `id` attribute value.
pub open spec fn flags(lint: Lint, value: TokenTree) -> bool {
    match lint {
        Lint::LiteralAsIdAttributeValue => is_str_literal(value),
        Lint::TtAsIdAttributeValue => !is_ident_named(value, "Ids"@) && !is_str_literal(value),
    }
}

/// The diagnostics of a rule on the values at `positions`, in order.
pub open spec fn diagnostics_at(lint: Lint, toks: Seq<TokenTree>, positions: Seq<int>) -> Seq<
    Diagnostic,
>
    decreases positions.len(),
{
    if positions.len() == 0 {
        Seq::empty()
    } else {
        let before = diagnostics_at(lint, toks, positions.drop_last());
        let value = toks[positions.last()];
        if flags(lint, value) {
            before.push(Diagnostic { lint, span: tree_span(value) })
        } else {
            before
        }
    }
}

/// The diagnostics of a rule on a macro call: none unless it is a `view!`
/// call, else one for each flagged `id` attribute value, in source order.
pub open spec fn lint_diagnostics(lint: Lint, call: MacCall) -> Seq<Diagnostic> {
    if is_view_macro_call(call) {
        diagnostics_at(lint, call.tokens@, id_attribute_values(call.tokens@))
    } else {
        Seq::empty()
    }
}

/// Neither rule reports anything on a macro call that is not a `view!` call.
pub proof fn lemma_no_diagnostics_outside_view(call: MacCall)
    requires
        !is_view_macro_call(call),
    ensures
        lint_diagnostics(Lint::LiteralAsIdAttributeValue, call).len() == 0,
        lint_diagnostics(Lint::TtAsIdAttributeValue, call).len() == 0,
{
}

fn check_view_macro_call(lint: Lint, macro_call: &MacCall, diagnostics: &mut Vec<Diagnostic>)
    ensures
        final(diagnostics)@ == old(diagnostics)@ + lint_diagnostics(lint, *macro_call),
{
    if !is_leptos_view_macro_call(macro_call) {
        assert(old(diagnostics)@ + Seq::empty() =~= old(diagnostics)@);
        return;
    }
    let ghost all = id_attribute_values(macro_call.tokens@);
    let ghost start = diagnostics@;
    let ghost mut seen: Seq<int> = Seq::empty();
    let mut values = ViewMacroCallIdAttributeValueIter::new(macro_call);
    assert(start + diagnostics_at(lint, macro_call.tokens@, seen) =~= start);
    loop
        invariant
            start == old(diagnostics)@,
            is_view_macro_call(*macro_call),
            all == id_attribute_values(macro_call.tokens@),
            values.wf(),
            values.tokens() == macro_call.tokens@,
            all == seen + values.pending(),
            diagnostics@ == start + diagnostics_at(lint, macro_call.tokens@, seen),
        decreases values.pending().len(),
    {
        let ghost before = values.pending();
        match values.next() {
            None => {
                assert(all =~= seen + before);
                assert(all =~= seen);
                return;
            },
            Some(value) => {
                let ghost pos = before[0];
                proof {
                    assert(seen.push(pos).drop_last() =~= seen);
                    assert(all =~= seen.push(pos) + values.pending());
                }
                let flagged = match lint {
                    Lint::LiteralAsIdAttributeValue => value.is_str_literal(),
                    Lint::TtAsIdAttributeValue => !value.is_ident("Ids") && !value.is_str_literal(),
                };
                if flagged {
                    diagnostics.push(Diagnostic { lint, span: value.span() });
                }
                proof {
                    seen = seen.push(pos);
                }
            },
        }
    }
}

/// Check for literals passed to id attribute values.
pub struct LiteralAsIdAttributeValue;

impl LiteralAsIdAttributeValue {
    /// Reports each string literal bound to an `id` attribute of a `view!`
    /// call.
    pub fn check_mac(&mut self, macro_call: &MacCall, diagnostics: &mut Vec<Diagnostic>)
        ensures
            final(diagnostics)@ == old(diagnostics)@ + lint_diagnostics(
                Lint::LiteralAsIdAttributeValue,
                *macro_call,
            ),
    {
        check_view_macro_call(Lint::LiteralAsIdAttributeValue, macro_call, diagnostics)
    }
}

/// Check for token trees passed as id attribute values (except for `Ids` enum
/// variants).
pub struct TtAsIdAttributeValue;

impl TtAsIdAttributeValue {
    /// Reports each value bound to an `id` attribute of a `view!` call that is
    /// neither a string literal nor led by the identifier `Ids`.
    pub fn check_mac(&mut self, macro_call: &MacCall, diagnostics: &mut Vec<Diagnostic>)
        ensures
            final(diagnostics)@ == old(diagnostics)@ + lint_diagnostics(
                Lint::TtAsIdAttributeValue,
                *macro_call,
            ),
    {
        check_view_macro_call(Lint::TtAsIdAttributeValue, macro_call, diagnostics)
    }
}

} // verus!
