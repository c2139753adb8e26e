use vstd::prelude::*;
use crate::tokens::{MacCall, TokenTree, is_ident_named, is_punct};

verus! {

/// Whether the last segment of the call's path is exactly `view`.
pub open spec fn is_view_macro_call(call: MacCall) -> bool {
    call.path@.len() > 0 && call.path@.last()@ == "view"@
}

/// Given a macro call, return if it is a `view!` macro call.
pub fn is_leptos_view_macro_call(macro_call: &MacCall) -> (r: bool)
    ensures
        r == is_view_macro_call(*macro_call),
{
    let n = macro_call.path.len();
    if n == 0 {
        false
    } else {
        crate::tokens::text_is(macro_call.path[n - 1].as_str(), "view")
    }
}

/// The state of the scan for `id` attribute values.
#[derive(Clone, Copy, Debug, PartialEq, Eq, Structural)]
pub enum ScanState {
    /// Looking for an `id` identifier.
    Scanning,
    /// The previous node was an `id` identifier.
    SeenIdentifier,
}

pub open spec fn state_rank(state: ScanState) -> nat {
    match state {
        ScanState::Scanning => 0,
        ScanState::SeenIdentifier => 1,
    }
}

/// The positions of the `id` attribute values that a scan finds from
/// position `pos` in state `state`. In `Scanning`, an `id` identifier moves to
/// `SeenIdentifier` and any other node is passed over. In `SeenIdentifier`, a
/// `=` makes the node after it a value, and the scan goes on after that value;
/// any other node is looked at again in `Scanning`.
pub open spec fn scan_from(toks: Seq<TokenTree>, pos: int, state: ScanState) -> Seq<int>
    decreases toks.len() - pos, state_rank(state),
{
    if pos < 0 || pos >= toks.len() {
        Seq::empty()
    } else {
        match state {
            ScanState::Scanning => {
                if is_ident_named(toks[pos], "id"@) {
                    scan_from(toks, pos + 1, ScanState::SeenIdentifier)
                } else {
                    scan_from(toks, pos + 1, ScanState::Scanning)
                }
            },
            ScanState::SeenIdentifier => {
                if is_punct(toks[pos], '=') {
                    if pos + 1 < toks.len() {
                        seq![pos + 1] + scan_from(toks, pos + 2, ScanState::Scanning)
                    } else {
                        Seq::empty()
                    }
                } else {
                    scan_from(toks, pos, ScanState::Scanning)
                }
            },
        }
    }
}

/// The positions, in order, of the nodes bound to an `id` attribute in a
/// top-level token sequence.
pub open spec fn id_attribute_values(toks: Seq<TokenTree>) -> Seq<int> {
    scan_from(toks, 0, ScanState::Scanning)
}

/// Whether no `id` identifier in the sequence is directly followed by `=`.
pub open spec fn no_id_followed_by_eq(toks: Seq<TokenTree>) -> bool {
    forall|i: int|
        0 <= i && i + 1 < toks.len() ==> !(#[trigger] is_ident_named(toks[i], "id"@) && is_punct(
            toks[i + 1],
            '=',
        ))
}

proof fn lemma_scan_from_without_binding(toks: Seq<TokenTree>, pos: int, state: ScanState)
    requires
        no_id_followed_by_eq(toks),
        0 <= pos,
        state is SeenIdentifier ==> 1 <= pos && is_ident_named(toks[pos - 1], "id"@),
    ensures
        scan_from(toks, pos, state).len() == 0,
    decreases toks.len() - pos, state_rank(state),
{
    if pos < toks.len() {
        match state {
            ScanState::Scanning => {
                if is_ident_named(toks[pos], "id"@) {
                    lemma_scan_from_without_binding(toks, pos + 1, ScanState::SeenIdentifier);
                } else {
                    lemma_scan_from_without_binding(toks, pos + 1, ScanState::Scanning);
                }
            },
            ScanState::SeenIdentifier => {
                assert(!is_punct(toks[pos], '='));
                lemma_scan_from_without_binding(toks, pos, ScanState::Scanning);
            },
        }
    }
}

/// A token sequence in which no `id` identifier is directly followed by `=`
/// has no `id` attribute values.
pub proof fn lemma_no_binding_no_values(toks: Seq<TokenTree>)
    requires
        no_id_followed_by_eq(toks),
    ensures
        id_attribute_values(toks).len() == 0,
{
    lemma_scan_from_without_binding(toks, 0, ScanState::Scanning);
}

/// Scanning two macro calls with the same argument tokens finds the same
/// values in the same order, whatever their paths.
pub proof fn lemma_scan_deterministic(first: MacCall, second: MacCall)
    requires
        first.tokens@ == second.tokens@,
    ensures
        id_attribute_values(first.tokens@) == id_attribute_values(second.tokens@),
{
}

/// Iterator for id attribute values in macro calls
pub struct ViewMacroCallIdAttributeValueIter<'a> {
    tokens: &'a Vec<TokenTree>,
    pos: usize,
    parser_state: ScanState,
}

impl<'a> ViewMacroCallIdAttributeValueIter<'a> {
    /// The tokens being scanned.
    pub closed spec fn tokens(&self) -> Seq<TokenTree> {
        self.tokens@
    }

    /// The positions of the values that are still to come.
    pub closed spec fn pending(&self) -> Seq<int> {
        scan_from(self.tokens@, self.pos as int, self.parser_state)
    }

    pub closed spec fn wf(&self) -> bool {
        self.pos <= self.tokens@.len()
    }

    /// A fresh scan of the call's top-level argument tokens.
    pub fn new(macro_call: &'a MacCall) -> (r: Self)
        ensures
            r.wf(),
            r.tokens() == macro_call.tokens@,
            r.pending() == id_attribute_values(macro_call.tokens@),
    {
        ViewMacroCallIdAttributeValueIter {
            tokens: &macro_call.tokens,
            pos: 0,
            parser_state: ScanState::Scanning,
        }
    }

    /// The next value bound to an `id` attribute, in source order.
    pub fn next(&mut self) -> (r: Option<&'a TokenTree>)
        requires
            old(self).wf(),
        ensures
            final(self).wf(),
            final(self).tokens() == old(self).tokens(),
            old(self).pending().len() == 0 ==> r is None && final(self).pending().len() == 0,
            old(self).pending().len() > 0 ==> {
                &&& r is Some
                &&& 0 <= old(self).pending()[0] < old(self).tokens().len()
                &&& *r->0 == old(self).tokens()[old(self).pending()[0]]
                &&& final(self).pending() == old(self).pending().drop_first()
            },
    {
        let ghost start = self.pending();
        let n = self.tokens.len();
        loop
            invariant
                n == self.tokens@.len(),
                self.tokens == old(self).tokens,
                self.wf(),
                self.pending() == start,
                start == old(self).pending(),
            decreases n - self.pos, state_rank(self.parser_state),
        {
            if self.pos >= n {
                return None;
            }
            let token = &self.tokens[self.pos];
            match self.parser_state {
                ScanState::Scanning => {
                    if token.is_ident("id") {
                        self.parser_state = ScanState::SeenIdentifier;
                    }
                    self.pos = self.pos + 1;
                },
                ScanState::SeenIdentifier => {
                    if token.is_punct('=') {
                        self.parser_state = ScanState::Scanning;
                        if self.pos + 1 < n {
                            let value = &self.tokens[self.pos + 1];
                            self.pos = self.pos + 2;
                            assert(start.drop_first() =~= self.pending());
                            return Some(value);
                        } else {
                            self.pos = n;
                            return None;
                        }
                    } else {
                        self.parser_state = ScanState::Scanning;
                    }
                },
            }
        }
    }
}

} // verus!
