//! The standard stream actions: seven DOM mutations, each in a singular
//! `target` form and a multi-element `targets` form.
//!
//! Every builder puts exactly the action name and one targeting key into a
//! fresh attribute mapping and delegates to the Tag Engine; `remove` and
//! `remove_all` carry no content.

use vstd::prelude::*;

use crate::attrs::Attributes;
use crate::fragment::{fragment_text, lemma_empty_text};
use crate::{lemma_target_pair, lemma_targets_pair};

verus! {

/// Removes the element identified by `target` from the document.
pub fn remove(target: &str) -> (res: String)
    ensures
        res@ == fragment_text(seq![("action"@, "remove"@), ("target"@, target@)], Seq::empty()),
{
    let res = crate::turbo_stream_target("remove", target, Attributes::new(), "");
    proof {
        lemma_target_pair("remove"@, target@);
        lemma_empty_text();
    }
    res
}

/// Removes the elements selected by `targets` from the document.
pub fn remove_all(targets: &str) -> (res: String)
    ensures
        res@ == fragment_text(seq![("action"@, "remove"@), ("targets"@, targets@)], Seq::empty()),
{
    let res = crate::turbo_stream_target_all("remove", targets, Attributes::new(), "");
    proof {
        lemma_targets_pair("remove"@, targets@);
        lemma_empty_text();
    }
    res
}

/// Replaces the element identified by `target` with `content`.
pub fn replace(target: &str, content: &str) -> (res: String)
    ensures
        res@ == fragment_text(seq![("action"@, "replace"@), ("target"@, target@)], content@),
{
    let res = crate::turbo_stream_target("replace", target, Attributes::new(), content);
    proof {
        lemma_target_pair("replace"@, target@);
    }
    res
}

/// Replaces the elements selected by `targets` with `content`.
pub fn replace_all(targets: &str, content: &str) -> (res: String)
    ensures
        res@ == fragment_text(seq![("action"@, "replace"@), ("targets"@, targets@)], content@),
{
    let res = crate::turbo_stream_target_all("replace", targets, Attributes::new(), content);
    proof {
        lemma_targets_pair("replace"@, targets@);
    }
    res
}

/// Inserts `content` before the element identified by `target`.
pub fn before(target: &str, content: &str) -> (res: String)
    ensures
        res@ == fragment_text(seq![("action"@, "before"@), ("target"@, target@)], content@),
{
    let res = crate::turbo_stream_target("before", target, Attributes::new(), content);
    proof {
        lemma_target_pair("before"@, target@);
    }
    res
}

/// Inserts `content` before each element selected by `targets`.
pub fn before_all(targets: &str, content: &str) -> (res: String)
    ensures
        res@ == fragment_text(seq![("action"@, "before"@), ("targets"@, targets@)], content@),
{
    let res = crate::turbo_stream_target_all("before", targets, Attributes::new(), content);
    proof {
        lemma_targets_pair("before"@, targets@);
    }
    res
}

/// Inserts `content` after the element identified by `target`.
pub fn after(target: &str, content: &str) -> (res: String)
    ensures
        res@ == fragment_text(seq![("action"@, "after"@), ("target"@, target@)], content@),
{
    let res = crate::turbo_stream_target("after", target, Attributes::new(), content);
    proof {
        lemma_target_pair("after"@, target@);
    }
    res
}

/// Inserts `content` after each element selected by `targets`.
pub fn after_all(targets: &str, content: &str) -> (res: String)
    ensures
        res@ == fragment_text(seq![("action"@, "after"@), ("targets"@, targets@)], content@),
{
    let res = crate::turbo_stream_target_all("after", targets, Attributes::new(), content);
    proof {
        lemma_targets_pair("after"@, targets@);
    }
    res
}

/// Updates the content of the element identified by `target` with `content`.
pub fn update(target: &str, content: &str) -> (res: String)
    ensures
        res@ == fragment_text(seq![("action"@, "update"@), ("target"@, target@)], content@),
{
    let res = crate::turbo_stream_target("update", target, Attributes::new(), content);
    proof {
        lemma_target_pair("update"@, target@);
    }
    res
}

/// Updates the content of each element selected by `targets` with `content`.
pub fn update_all(targets: &str, content: &str) -> (res: String)
    ensures
        res@ == fragment_text(seq![("action"@, "update"@), ("targets"@, targets@)], content@),
{
    let res = crate::turbo_stream_target_all("update", targets, Attributes::new(), content);
    proof {
        lemma_targets_pair("update"@, targets@);
    }
    res
}

/// Appends `content` to the element identified by `target`.
pub fn append(target: &str, content: &str) -> (res: String)
    ensures
        res@ == fragment_text(seq![("action"@, "append"@), ("target"@, target@)], content@),
{
    let res = crate::turbo_stream_target("append", target, Attributes::new(), content);
    proof {
        lemma_target_pair("append"@, target@);
    }
    res
}

/// Appends `content` to each element selected by `targets`.
pub fn append_all(targets: &str, content: &str) -> (res: String)
    ensures
        res@ == fragment_text(seq![("action"@, "append"@), ("targets"@, targets@)], content@),
{
    let res = crate::turbo_stream_target_all("append", targets, Attributes::new(), content);
    proof {
        lemma_targets_pair("append"@, targets@);
    }
    res
}

/// Prepends `content` to the element identified by `target`.
pub fn prepend(target: &str, content: &str) -> (res: String)
    ensures
        res@ == fragment_text(seq![("action"@, "prepend"@), ("target"@, target@)], content@),
{
    let res = crate::turbo_stream_target("prepend", target, Attributes::new(), content);
    proof {
        lemma_target_pair("prepend"@, target@);
    }
    res
}

/// Prepends `content` to each element selected by `targets`.
pub fn prepend_all(targets: &str, content: &str) -> (res: String)
    ensures
        res@ == fragment_text(seq![("action"@, "prepend"@), ("targets"@, targets@)], content@),
{
    let res = crate::turbo_stream_target_all("prepend", targets, Attributes::new(), content);
    proof {
        lemma_targets_pair("prepend"@, targets@);
    }
    res
}

} // verus!
