//! The code generator: one C function with a `switch` over the enumerators.

use crate::grammar::{Declaration, Failure};
use crate::parser::{CEnum, EnumError};
use vstd::prelude::*;
use vstd::string::*;

verus! {

/// The lowercase form of a text.
pub uninterp spec fn lowercase_of(text: Seq<char>) -> Seq<char>;

/// Calls `str::to_lowercase` of the standard library, which lowers every
/// character as Unicode defines it. Nothing is claimed of the result but that
/// it is the same for the same text: it is `lowercase_of` of the text.
#[verifier::external_body]
fn to_lowercase(text: &str) -> (lower: String)
    ensures
        lower@ == lowercase_of(text@),
{
    text.to_lowercase()
}

/// The name under which a declaration is rendered: the alias where there is
/// one, the tag where there is none.
pub open spec fn display_name(decl: Declaration) -> Seq<char> {
    if decl.alias.len() == 0 {
        decl.tag
    } else {
        decl.alias
    }
}

/// The `case` line of one enumerator.
pub open spec fn case_line(variant: Seq<char>) -> Seq<char> {
    "        case "@ + variant + ": return \""@ + variant + "\";\n"@
}

/// The `case` lines of all enumerators, in their order.
pub open spec fn case_lines(variants: Seq<Seq<char>>) -> Seq<char> {
    variants.map_values(|variant: Seq<char>| case_line(variant)).flatten()
}

/// The function `show_<function_suffix>`, which takes an `enum_name` and has
/// one `case` for each of `variants`. Any other value gives the empty string.
/// The text ends with the closing brace.
pub open spec fn function_text(
    function_suffix: Seq<char>,
    enum_name: Seq<char>,
    variants: Seq<Seq<char>>,
) -> Seq<char> {
    "const char *show_"@ + function_suffix + "("@ + enum_name + " self) {\n"@
        + "    switch (self) {\n"@ + case_lines(variants) + "        default: return \"\";\n"@
        + "    }\n}"@
}

/// What a declaration renders to: the function named by its display name in
/// lowercase, over the display name as the type. A declaration without a name
/// renders to nothing.
pub open spec fn rendered(decl: Declaration) -> Result<Seq<char>, Failure> {
    if display_name(decl).len() == 0 {
        Err(Failure::NoName)
    } else {
        Ok(function_text(lowercase_of(display_name(decl)), display_name(decl), decl.variants))
    }
}

/// Without an alias the tag names both the function and its parameter's
/// type: the function in lowercase, the type as the tag was written.
pub proof fn lemma_tag_names_function(decl: Declaration)
    requires
        decl.alias.len() == 0,
        decl.tag.len() > 0,
    ensures
        rendered(decl) == Ok::<Seq<char>, Failure>(
            function_text(lowercase_of(decl.tag), decl.tag, decl.variants),
        ),
{
}

/// Writes the function `show_<function_suffix>` over the type `enum_name`,
/// with one `case` for each of `variants`.
pub fn write_function(function_suffix: &str, enum_name: &str, variants: &[String]) -> (text: String)
    ensures
        text@ == function_text(function_suffix@, enum_name@, variants.deep_view()),
{
    let mut text = String::new();
    text.append("const char *show_");
    text.append(function_suffix);
    text.append("(");
    text.append(enum_name);
    text.append(" self) {\n");
    text.append("    switch (self) {\n");
    let ghost head = text@;
    let ghost lines = variants.deep_view().map_values(|variant: Seq<char>| case_line(variant));
    let mut i: usize = 0;
    assert(lines.take(0) =~= Seq::<Seq<char>>::empty());
    assert(text@ =~= head + lines.take(0).flatten());
    while i < variants.len()
        invariant
            i <= variants@.len(),
            lines == variants.deep_view().map_values(|variant: Seq<char>| case_line(variant)),
            text@ == head + lines.take(i as int).flatten(),
        decreases variants@.len() - i,
    {
        let ghost before = text@;
        let variant = variants[i].as_str();
        text.append("        case ");
        text.append(variant);
        text.append(": return \"");
        text.append(variant);
        text.append("\";\n");
        proof {
            assert(variant@ == variants.deep_view()[i as int]);
            assert(text@ =~= before + case_line(variant@));
            assert(lines.take(i + 1) =~= lines.take(i as int).push(lines[i as int]));
            lines.take(i as int).lemma_flatten_push(lines[i as int]);
        }
        i += 1;
    }
    assert(lines.take(i as int) =~= lines);
    text.append("        default: return \"\";\n");
    text.append("    }\n}");
    text
}

impl CEnum {
    /// The name under which the declaration is rendered: the alias where
    /// there is one, the tag where there is none.
    pub fn display_name(&self) -> (name: &str)
        ensures
            name@ == display_name(self@),
    {
        if self.alias().is_empty() {
            self.tag()
        } else {
            self.alias()
        }
    }

    /// Renders the declaration as a C function that gives each enumerator's
    /// name. A declaration with neither a tag nor an alias cannot be named and
    /// is refused.
    pub fn render(&self) -> (r: Result<String, EnumError>)
        ensures
            match r {
                Ok(text) => rendered(self@) == Ok::<Seq<char>, Failure>(text@),
                Err(e) => rendered(self@) == Err::<Seq<char>, Failure>(e@),
            },
    {
        let name = self.display_name();
        if name.is_empty() {
            Err(EnumError::EmptyDisplayName)
        } else {
            let lower = to_lowercase(name);
            Ok(write_function(lower.as_str(), name, self.variants()))
        }
    }
}

} // verus!
