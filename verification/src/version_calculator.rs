//! Classifies a batch of commit messages by the version bump it requires.
//!
//! Every message is inspected: one whose text begins with the
//! breaking-change prefix `"breaking"` demands a major bump, one that
//! begins with the feature prefix `"feat"` demands a minor bump, and every
//! other message (whatever its prefix, or none) demands only a patch bump.
//! The highest demand wins; an empty batch yields `Patch`.

use vstd::prelude::*;
use vstd::string::StrSliceExecFns;
use crate::version_type::VersionType;

verus! {

/// `p` is a prefix of `s`.
pub open spec fn has_prefix(s: Seq<char>, p: Seq<char>) -> bool {
    p.len() <= s.len() && s.subrange(0, p.len() as int) == p
}

/// A message that marks an incompatible change.
pub open spec fn is_breaking_message(m: Seq<char>) -> bool {
    has_prefix(m, "breaking"@)
}

/// A message that marks a backward-compatible addition.
pub open spec fn is_feature_message(m: Seq<char>) -> bool {
    has_prefix(m, "feat"@)
}

/// The bump category a batch of messages requires: `Major` when any
/// message is breaking, else `Minor` when any message is a feature, else
/// `Patch`.
pub open spec fn spec_classify(msgs: Seq<Seq<char>>) -> VersionType {
    if exists|k: int| 0 <= k < msgs.len() && is_breaking_message(#[trigger] msgs[k]) {
        VersionType::Major
    } else if exists|k: int| 0 <= k < msgs.len() && is_feature_message(#[trigger] msgs[k]) {
        VersionType::Minor
    } else {
        VersionType::Patch
    }
}

/// No message is at once breaking and a feature: the two prefixes start
/// with different characters.
proof fn lemma_prefixes_disjoint(m: Seq<char>)
    ensures
        !(is_breaking_message(m) && is_feature_message(m)),
{
    reveal_strlit("breaking");
    reveal_strlit("feat");
    if is_breaking_message(m) && is_feature_message(m) {
        assert(m.subrange(0, "breaking"@.len() as int)[0] == 'b');
        assert(m.subrange(0, "feat"@.len() as int)[0] == 'f');
        assert(m[0] == 'b' && m[0] == 'f');
    }
}

/// Whether `p` is a prefix of `s`, comparing character by character.
fn starts_with_prefix(s: &str, p: &str) -> (r: bool)
    ensures
        r == has_prefix(s@, p@),
{
    let sl = s.unicode_len();
    let pl = p.unicode_len();
    if pl > sl {
        return false;
    }
    let mut i: usize = 0;
    while i < pl
        invariant
            i <= pl,
            pl <= sl,
            pl as nat == p@.len(),
            sl as nat == s@.len(),
            forall|m: int| 0 <= m < i as int ==> s@[m] == p@[m],
        decreases pl - i,
    {
        if s.get_char(i) != p.get_char(i) {
            proof {
                assert(s@.subrange(0, pl as int)[i as int] == s@[i as int]);
            }
            return false;
        }
        i = i + 1;
    }
    proof {
        assert(s@.subrange(0, pl as int) =~= p@);
    }
    true
}

/// A batch that contains, anywhere, a message satisfying `p` keeps such a
/// message under any reordering: rearranging a batch preserves which
/// message texts occur in it.
proof fn lemma_multiset_preserves_exists(
    m1: Seq<Seq<char>>,
    m2: Seq<Seq<char>>,
    p: spec_fn(Seq<char>) -> bool,
)
    requires
        m1.to_multiset() == m2.to_multiset(),
        exists|k: int| 0 <= k < m1.len() && p(#[trigger] m1[k]),
    ensures
        exists|k: int| 0 <= k < m2.len() && p(#[trigger] m2[k]),
{
    broadcast use vstd::seq_lib::group_to_multiset_ensures;

    let k = choose|k: int| 0 <= k < m1.len() && p(#[trigger] m1[k]);
    let x = m1[k];
    assert(m1.contains(x));
    assert(m1.to_multiset().count(x) > 0);
    assert(m2.to_multiset().count(x) > 0);
    assert(m2.contains(x));
    let j = choose|j: int| 0 <= j < m2.len() && m2[j] == x;
    assert(p(m2[j]));
}

/// Order independence: two batches with the same messages, in whatever
/// order (and with the same repetitions), classify alike.
pub proof fn lemma_classify_order_independent(m1: Seq<Seq<char>>, m2: Seq<Seq<char>>)
    requires
        m1.to_multiset() == m2.to_multiset(),
    ensures
        spec_classify(m1) == spec_classify(m2),
{
    if exists|k: int| 0 <= k < m1.len() && is_breaking_message(#[trigger] m1[k]) {
        lemma_multiset_preserves_exists(m1, m2, |m: Seq<char>| is_breaking_message(m));
    }
    if exists|k: int| 0 <= k < m2.len() && is_breaking_message(#[trigger] m2[k]) {
        lemma_multiset_preserves_exists(m2, m1, |m: Seq<char>| is_breaking_message(m));
    }
    if exists|k: int| 0 <= k < m1.len() && is_feature_message(#[trigger] m1[k]) {
        lemma_multiset_preserves_exists(m1, m2, |m: Seq<char>| is_feature_message(m));
    }
    if exists|k: int| 0 <= k < m2.len() && is_feature_message(#[trigger] m2[k]) {
        lemma_multiset_preserves_exists(m2, m1, |m: Seq<char>| is_feature_message(m));
    }
}

/// Severity wins: a batch holding even one breaking-change message
/// classifies as `Major`, however many feature or patch messages stand
/// beside it.
pub proof fn lemma_classify_severity_wins(msgs: Seq<Seq<char>>, k: int)
    requires
        0 <= k < msgs.len(),
        is_breaking_message(msgs[k]),
    ensures
        spec_classify(msgs) == VersionType::Major,
{
}

/// The empty batch classifies as `Patch`, the minimal bump.
pub proof fn lemma_classify_empty()
    ensures
        spec_classify(Seq::<Seq<char>>::empty()) == VersionType::Patch,
{
}

/// Decides the bump category for a batch of commit messages. Scans every
/// message, counting those with the breaking-change prefix and those with
/// the feature prefix, and resolves by severity: any breaking change
/// forces `Major`, else any feature forces `Minor`, else `Patch`. The
/// empty batch yields `Patch`.
pub fn calculate_version_type(commit_messages: &Vec<String>) -> (r: VersionType)
    ensures
        r == spec_classify(commit_messages.deep_view()),
{
    let ghost msgs = commit_messages.deep_view();
    let mut num_major: usize = 0;
    let mut num_minor: usize = 0;
    let mut num_patch: usize = 0;
    let mut idx: usize = 0;
    while idx < commit_messages.len()
        invariant
            msgs == commit_messages.deep_view(),
            msgs.len() == commit_messages@.len(),
            idx <= commit_messages@.len(),
            (num_major > 0) <==> exists|k: int|
                0 <= k < idx as int && is_breaking_message(#[trigger] msgs[k]),
            (num_minor > 0) <==> exists|k: int|
                0 <= k < idx as int && is_feature_message(#[trigger] msgs[k]),
            num_major <= idx,
            num_minor <= idx,
            num_patch <= idx,
        decreases commit_messages@.len() - idx as nat,
    {
        let message = &commit_messages[idx];
        proof {
            assert(msgs[idx as int] == message@);
            lemma_prefixes_disjoint(message@);
        }
        if starts_with_prefix(message.as_str(), "breaking") {
            num_major = num_major + 1;
        } else if starts_with_prefix(message.as_str(), "feat") {
            num_minor = num_minor + 1;
        } else {
            num_patch = num_patch + 1;
        }
        idx = idx + 1;
    }
    if num_major > 0 {
        VersionType::Major
    } else if num_minor > 0 {
        VersionType::Minor
    } else {
        VersionType::Patch
    }
}

} // verus!
