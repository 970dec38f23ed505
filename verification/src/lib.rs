//! Builders for `<turbo-stream>` HTML fragments.
//!
//! A fragment asks a Hotwire Turbo client to apply one DOM mutation, named by
//! an `action` attribute and addressed by a `target` or `targets` attribute.
//! The engine here assembles an attribute mapping plus inner content into one
//! canonical string: attributes are emitted in ascending key order with their
//! values escaped for a double-quoted attribute context, while the content
//! between `<template>` and `</template>` passes through verbatim — it is
//! trusted, pre-rendered HTML by design.

pub mod attrs;
pub mod escape;
pub mod fragment;
pub mod power;
pub mod response;
pub mod stream;

use vstd::prelude::*;

use crate::attrs::{insert_sorted, lemma_insert_chain1, lex_lt, Attributes};
use crate::fragment::fragment_text;

verus! {

/// The list built by inserting a `target` selector and then the action name.
pub(crate) proof fn lemma_target_pair(action: Seq<char>, target: Seq<char>)
    ensures
        insert_sorted(insert_sorted(Seq::empty(), "target"@, target), "action"@, action)
            == seq![("action"@, action), ("target"@, target)],
{
    reveal_strlit("action");
    reveal_strlit("target");
    assert(lex_lt("action"@, "target"@));
    lemma_insert_chain1("action"@, action, "target"@, target);
}

/// The list built by inserting a `targets` selector and then the action name.
pub(crate) proof fn lemma_targets_pair(action: Seq<char>, targets: Seq<char>)
    ensures
        insert_sorted(insert_sorted(Seq::empty(), "targets"@, targets), "action"@, action)
            == seq![("action"@, action), ("targets"@, targets)],
{
    reveal_strlit("action");
    reveal_strlit("targets");
    assert(lex_lt("action"@, "targets"@));
    lemma_insert_chain1("action"@, action, "targets"@, targets);
}

/// The Tag Engine: renders the attribute mapping and the inner content as one
/// canonical fragment. Attribute values are escaped; the content is not.
pub fn turbo_stream_tag(attributes: Attributes, content: &str) -> (res: String)
    ensures
        res@ == fragment_text(attributes@, content@),
{
    let mut out = String::new();
    out.append("<turbo-stream");
    let n = attributes.len();
    proof {
        assert(attributes@.take(0) =~= Seq::<(Seq<char>, Seq<char>)>::empty());
        assert(out@ =~= "<turbo-stream"@ + crate::fragment::attrs_text(attributes@.take(0)));
    }
    let mut i: usize = 0;
    while i < n
        invariant
            i <= n,
            n == attributes@.len(),
            out@ == "<turbo-stream"@ + crate::fragment::attrs_text(attributes@.take(i as int)),
        decreases n - i,
    {
        proof {
            assert(attributes@.take(i as int + 1) =~= attributes@.take(i as int).push(
                attributes@[i as int],
            ));
            crate::fragment::lemma_attrs_text_push(
                attributes@.take(i as int),
                attributes@[i as int],
            );
        }
        out.append(" ");
        out.append(attributes.key_at(i));
        out.append("=\"");
        let escaped = crate::escape::escape_attribute(attributes.value_at(i));
        out.append(escaped.as_str());
        out.append("\"");
        proof {
            assert(out@ =~= "<turbo-stream"@ + crate::fragment::attrs_text(
                attributes@.take(i as int + 1),
            ));
        }
        i = i + 1;
    }
    out.append(">");
    out.append("<template>");
    out.append(content);
    out.append("</template></turbo-stream>");
    proof {
        assert(attributes@.take(n as int) =~= attributes@);
        assert(out@ =~= fragment_text(attributes@, content@));
    }
    out
}

/// Adds `action` under the key `action` and renders.
pub fn turbo_stream_action(action: &str, attributes: Attributes, content: &str) -> (res: String)
    requires
        attributes.wf(),
    ensures
        res@ == fragment_text(insert_sorted(attributes@, "action"@, action@), content@),
{
    let mut attributes = attributes;
    attributes.insert("action", action);
    turbo_stream_tag(attributes, content)
}

/// Adds the single-element selector under the key `target`, then the action,
/// and renders.
pub fn turbo_stream_target(
    action: &str,
    target: &str,
    attributes: Attributes,
    content: &str,
) -> (res: String)
    requires
        attributes.wf(),
    ensures
        res@ == fragment_text(
            insert_sorted(insert_sorted(attributes@, "target"@, target@), "action"@, action@),
            content@,
        ),
{
    let mut attributes = attributes;
    attributes.insert("target", target);
    turbo_stream_action(action, attributes, content)
}

/// Adds the multi-element selector under the key `targets`, then the action,
/// and renders.
pub fn turbo_stream_target_all(
    action: &str,
    targets: &str,
    attributes: Attributes,
    content: &str,
) -> (res: String)
    requires
        attributes.wf(),
    ensures
        res@ == fragment_text(
            insert_sorted(insert_sorted(attributes@, "targets"@, targets@), "action"@, action@),
            content@,
        ),
{
    let mut attributes = attributes;
    attributes.insert("targets", targets);
    turbo_stream_action(action, attributes, content)
}

} // verus!
