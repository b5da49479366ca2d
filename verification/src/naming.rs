//! The local names that the generated function binds its selected values to.

use vstd::prelude::*;
use vstd::string::StringExecFns;

verus! {

/// The local name of a field: a fixed prefix, then the field's identifier.
pub open spec fn local_name(field: Seq<char>) -> Seq<char> {
    "conditionally_select_new_"@ + field
}

/// The character is a bracket of one of the three kinds.
pub open spec fn is_bracket(c: char) -> bool {
    c == '(' || c == ')' || c == '[' || c == ']' || c == '{' || c == '}'
}

/// The text holds no bracket.
pub open spec fn bracket_free(text: Seq<char>) -> bool {
    forall|i: int| 0 <= i < text.len() ==> !is_bracket(#[trigger] text[i])
}

/// Tells whether the text holds no bracket.
pub fn has_no_bracket(text: &str) -> (free: bool)
    ensures
        free == bracket_free(text@),
{
    let len = text.unicode_len();
    let mut i: usize = 0;
    while i < len
        invariant
            i <= len,
            len == text@.len(),
            forall|j: int| 0 <= j < i ==> !is_bracket(#[trigger] text@[j]),
        decreases len - i,
    {
        let c = text.get_char(i);
        if c == '(' || c == ')' || c == '[' || c == ']' || c == '{' || c == '}' {
            assert(is_bracket(text@[i as int]));
            return false;
        }
        i += 1;
    }
    true
}

/// Calls `syn::parse_str::<syn::Ident>` and hands back whether it succeeded.
/// Nothing is claimed of the answer: the lexer behind the call is chosen per
/// process, so the same text may be answered differently elsewhere. Texts
/// with brackets are left out, because the call nests once per level of
/// brackets and may not return on a deep nesting.
#[verifier::external_body]
pub(crate) fn is_identifier(text: &str) -> (ok: bool)
    requires
        bracket_free(text@),
{
    syn::parse_str::<syn::Ident>(text).is_ok()
}

/// Builds the local name of a field.
pub fn local_name_of(field: &String) -> (local: String)
    ensures
        local@ == local_name(field@),
{
    String::from_str("conditionally_select_new_").concat(field.as_str())
}

/// Different fields have different local names.
pub proof fn law_local_names_are_distinct(x: Seq<char>, y: Seq<char>)
    requires
        local_name(x) == local_name(y),
    ensures
        x == y,
{
    let prefix = "conditionally_select_new_"@;
    assert((prefix + x).subrange(prefix.len() as int, (prefix + x).len() as int) =~= x);
    assert((prefix + y).subrange(prefix.len() as int, (prefix + y).len() as int) =~= y);
}

/// No local name is one of the names that the generated function uses for
/// its parameters and for the variables of its loops.
pub proof fn law_local_names_avoid_the_parameters(field: Seq<char>)
    ensures
        local_name(field) != "cs"@,
        local_name(field) != "flag"@,
        local_name(field) != "a"@,
        local_name(field) != "b"@,
        local_name(field) != "c"@,
        local_name(field) != "this"@,
        local_name(field) != "other"@,
{
    reveal_strlit("conditionally_select_new_");
    reveal_strlit("cs");
    reveal_strlit("flag");
    reveal_strlit("a");
    reveal_strlit("b");
    reveal_strlit("c");
    reveal_strlit("this");
    reveal_strlit("other");
    assert(local_name(field).len() >= 25);
}

} // verus!
