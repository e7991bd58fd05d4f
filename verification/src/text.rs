//! Small operations on text, stated over the characters that a string holds.
use vstd::prelude::*;

verus! {

/// What is left of `text` behind `prefix`, or `None` where `text` does not begin with it.
pub open spec fn without_prefix(text: Seq<char>, prefix: Seq<char>) -> Option<Seq<char>> {
    if prefix.is_prefix_of(text) {
        Some(text.skip(prefix.len() as int))
    } else {
        None
    }
}

/// Whether `text` begins with `prefix`.
pub fn starts_with(text: &str, prefix: &str) -> (found: bool)
    ensures
        found == prefix@.is_prefix_of(text@),
{
    let text_len: usize = text.unicode_len();
    let prefix_len: usize = prefix.unicode_len();
    if text_len < prefix_len {
        return false;
    }
    let mut i: usize = 0;
    while i < prefix_len
        invariant
            i <= prefix_len,
            prefix_len == prefix@.len(),
            prefix_len <= text@.len(),
            forall|j: int| 0 <= j < i ==> prefix@[j] == text@[j],
        decreases prefix_len - i,
    {
        if text.get_char(i) != prefix.get_char(i) {
            assert(text@.subrange(0, prefix@.len() as int)[i as int] == text@[i as int]);
            return false;
        }
        i = i + 1;
    }
    true
}

/// The part of `text` behind `prefix`, where `text` begins with it.
pub fn strip_prefix<'a>(text: &'a str, prefix: &str) -> (rest: Option<&'a str>)
    ensures
        match rest {
            Some(rest) => without_prefix(text@, prefix@) == Some(rest@),
            None => without_prefix(text@, prefix@) is None,
        },
{
    if starts_with(text, prefix) {
        let rest = text.substring_char(prefix.unicode_len(), text.unicode_len());
        assert(rest@ =~= text@.skip(prefix@.len() as int));
        Some(rest)
    } else {
        None
    }
}

/// `head` followed by `tail`.
pub fn join(head: &str, tail: &str) -> (joined: String)
    ensures
        joined@ == head@ + tail@,
{
    head.to_owned().concat(tail)
}

/// What is stripped and what is left make up the text, and nothing is left only of a text that
/// is not made up so.
pub proof fn law_strip_undoes_join(text: &str, prefix: &str, rest: Option<&str>, tail: Seq<char>)
    requires
        call_ensures(strip_prefix, (text, prefix), rest),
    ensures
        text@ == prefix@ + tail <==> (rest matches Some(rest) && rest@ == tail),
{
    if text@ == prefix@ + tail {
        assert(text@.subrange(0, prefix@.len() as int) =~= prefix@);
        assert(text@.skip(prefix@.len() as int) =~= tail);
    }
    if prefix@.is_prefix_of(text@) {
        assert(prefix@ + text@.skip(prefix@.len() as int) =~= text@);
    }
}

/// A text begins with a prefix exactly where some tail makes it up with the prefix.
pub proof fn law_starts_with_some_tail(text: &str, prefix: &str, found: bool)
    requires
        call_ensures(starts_with, (text, prefix), found),
    ensures
        found <==> exists|tail: Seq<char>| text@ == #[trigger] (prefix@ + tail),
{
    if prefix@.is_prefix_of(text@) {
        assert(prefix@ + text@.skip(prefix@.len() as int) =~= text@);
    }
    if exists|tail: Seq<char>| text@ == #[trigger] (prefix@ + tail) {
        let tail = choose|tail: Seq<char>| text@ == #[trigger] (prefix@ + tail);
        assert(text@.subrange(0, prefix@.len() as int) =~= prefix@);
    }
}

/// Two texts that are joined stand behind one another, whole.
pub proof fn law_join_keeps_both(head: &str, tail: &str, joined: String)
    requires
        call_ensures(join, (head, tail), joined),
    ensures
        joined@.len() == head@.len() + tail@.len(),
        forall|i: int| 0 <= i < head@.len() ==> joined@[i] == head@[i],
        forall|i: int| 0 <= i < tail@.len() ==> joined@[head@.len() + i] == #[trigger] tail@[i],
{
}

} // verus!
