//! The shape of a rendered `<turbo-stream>` fragment.
//!
//! A fragment is the opening tag with its attributes in ascending key order,
//! a `<template>` element holding the content verbatim, and the two closing
//! tags. These functions are the single description of that shape; every
//! builder's contract ends in [`fragment_text`].

use vstd::prelude::*;

use crate::escape::escape_text;

verus! {

/// One rendered attribute: a space, the key, `="`, the escaped value, `"`.
pub open spec fn attr_text(p: (Seq<char>, Seq<char>)) -> Seq<char> {
    " "@ + p.0 + "=\""@ + escape_text(p.1) + "\""@
}

/// All attributes rendered in the order of the list.
pub open spec fn attrs_text(attrs: Seq<(Seq<char>, Seq<char>)>) -> Seq<char>
    decreases attrs.len(),
{
    if attrs.len() == 0 {
        Seq::empty()
    } else {
        attr_text(attrs[0]) + attrs_text(attrs.drop_first())
    }
}

/// Everything of the fragment that comes before the content.
pub open spec fn fragment_prologue(attrs: Seq<(Seq<char>, Seq<char>)>) -> Seq<char> {
    "<turbo-stream"@ + attrs_text(attrs) + ">"@ + "<template>"@
}

/// The whole fragment: prologue, content verbatim, closing tags.
pub open spec fn fragment_text(attrs: Seq<(Seq<char>, Seq<char>)>, content: Seq<char>) -> Seq<
    char,
> {
    fragment_prologue(attrs) + content + "</template></turbo-stream>"@
}

/// Rendering one more attribute on the right extends the rendered text on the
/// right.
pub proof fn lemma_attrs_text_push(s: Seq<(Seq<char>, Seq<char>)>, p: (Seq<char>, Seq<char>))
    ensures
        attrs_text(s.push(p)) == attrs_text(s) + attr_text(p),
    decreases s.len(),
{
    reveal_with_fuel(attrs_text, 2);
    if s.len() == 0 {
        assert(s.push(p)[0] == p);
        assert(s.push(p).drop_first() =~= Seq::<(Seq<char>, Seq<char>)>::empty());
        assert(attrs_text(s.push(p)) =~= attrs_text(s) + attr_text(p));
    } else {
        lemma_attrs_text_push(s.drop_first(), p);
        assert(s.push(p).drop_first() =~= s.drop_first().push(p));
        assert(attrs_text(s.push(p)) =~= attrs_text(s) + attr_text(p));
    }
}

/// The view of the empty string literal, as builders with no content use it.
pub proof fn lemma_empty_text()
    ensures
        ""@ == Seq::<char>::empty(),
{
    reveal_strlit("");
    assert(""@ =~= Seq::<char>::empty());
}

/// Determinism: the fragment is a function of the attribute list and the
/// content alone, so two renderings of equal inputs are byte-identical. Every
/// builder's contract equates its result with `fragment_text` of its
/// arguments, so the same holds of every builder.
pub proof fn lemma_fragment_deterministic(
    attrs1: Seq<(Seq<char>, Seq<char>)>,
    content1: Seq<char>,
    attrs2: Seq<(Seq<char>, Seq<char>)>,
    content2: Seq<char>,
)
    requires
        attrs1 == attrs2,
        content1 == content2,
    ensures
        fragment_text(attrs1, content1) == fragment_text(attrs2, content2),
{
}

/// Content passthrough: the characters of the fragment between `<template>`
/// and `</template>` are the content, exactly and unescaped.
pub proof fn lemma_content_passthrough(attrs: Seq<(Seq<char>, Seq<char>)>, content: Seq<char>)
    ensures
        fragment_text(attrs, content).subrange(
            fragment_prologue(attrs).len() as int,
            fragment_prologue(attrs).len() + content.len() as int,
        ) == content,
{
    assert(fragment_text(attrs, content).subrange(
        fragment_prologue(attrs).len() as int,
        fragment_prologue(attrs).len() + content.len() as int,
    ) =~= content);
}

/// The no-attribute case: with an empty attribute list the fragment is the
/// bare tags around the content, with no space before `>`.
pub proof fn lemma_fragment_no_attributes(content: Seq<char>)
    ensures
        fragment_text(Seq::empty(), content) == "<turbo-stream><template>"@ + content
            + "</template></turbo-stream>"@,
{
    reveal_strlit("<turbo-stream");
    reveal_strlit(">");
    reveal_strlit("<template>");
    reveal_strlit("<turbo-stream><template>");
    assert(attrs_text(Seq::empty()) =~= Seq::<char>::empty());
    assert(fragment_text(Seq::empty(), content) =~= "<turbo-stream><template>"@ + content
        + "</template></turbo-stream>"@);
}

} // verus!
