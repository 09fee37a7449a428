//! Reading the dead-letter target out of a queue's redrive policy.
use vstd::prelude::*;

use crate::text::same_text;

verus! {

/// The member of a redrive policy that names the dead-letter queue.
pub open spec fn target_member() -> Seq<char> {
    "deadLetterTargetArn"@
}

/// The top-level members of a JSON text, each with the text it holds if it is a string.
/// `None` where the text is not JSON; no members where it is JSON but not an object.
pub uninterp spec fn json_members(text: Seq<char>) -> Option<Seq<(Seq<char>, Option<Seq<char>>)>>;

pub open spec fn text_view(text: Option<String>) -> Option<Seq<char>> {
    match text {
        Some(t) => Some(t@),
        None => None,
    }
}

pub open spec fn members_view(members: Seq<(String, Option<String>)>) -> Seq<
    (Seq<char>, Option<Seq<char>>),
> {
    members.map_values(|m: (String, Option<String>)| (m.0@, text_view(m.1)))
}

/// Calls `serde_json::from_str` for a `serde_json::Value` and hands out the members of the
/// object it gives, a member that is no string without a value. Trusted: that the outcome
/// depends on the text alone. Nothing is said about which texts are JSON or what they hold.
#[verifier::external_body]
fn parse_json_members(text: &str) -> (members: Option<Vec<(String, Option<String>)>>)
    ensures
        match members {
            Some(m) => json_members(text@) == Some(members_view(m@)),
            None => json_members(text@) is None,
        },
{
    match serde_json::from_str::<serde_json::Value>(text) {
        Ok(value) => Some(
            value.as_object().into_iter().flatten().map(
                |(key, member)| (key.clone(), member.as_str().map(str::to_string)),
            ).collect(),
        ),
        Err(_) => None,
    }
}

/// The text of the first member called `key`; `None` if there is none or it is no string.
pub open spec fn member_text(
    members: Seq<(Seq<char>, Option<Seq<char>>)>,
    key: Seq<char>,
) -> Option<Seq<char>>
    decreases members.len(),
{
    if members.len() == 0 {
        None
    } else if members[0].0 == key {
        members[0].1
    } else {
        member_text(members.drop_first(), key)
    }
}

/// The dead-letter target among the members of a redrive policy, unless it is empty.
pub open spec fn target_of(members: Seq<(Seq<char>, Option<Seq<char>>)>) -> Option<Seq<char>> {
    match member_text(members, target_member()) {
        Some(arn) => if arn.len() == 0 {
            None
        } else {
            Some(arn)
        },
        None => None,
    }
}

/// The dead-letter target of a redrive policy given by its text.
pub open spec fn policy_target(policy: Seq<char>) -> Option<Seq<char>> {
    match json_members(policy) {
        Some(members) => target_of(members),
        None => None,
    }
}

/// Picks the dead-letter target out of the members of a redrive policy.
pub fn dead_letter_arn_of_members(members: &Vec<(String, Option<String>)>) -> (arn: Option<String>)
    ensures
        text_view(arn) == target_of(members_view(members@)),
        forall|i: int|
            0 <= i < members@.len() && (#[trigger] members@[i]).0@ == "deadLetterTargetArn"@ && (
            forall|j: int| 0 <= j < i ==> (#[trigger] members@[j]).0@ != "deadLetterTargetArn"@)
                ==> match members@[i].1 {
                Some(text) => if text@.len() > 0 {
                    arn matches Some(a) && a@ == text@
                } else {
                    arn is None
                },
                None => arn is None,
            },
        (forall|i: int|
            0 <= i < members@.len() ==> (#[trigger] members@[i]).0@ != "deadLetterTargetArn"@)
            ==> arn is None,
{
    let arn = pick_target(members);
    let ghost all = members_view(members@);
    proof {
        assert forall|k: int| 0 <= k < members@.len() implies (#[trigger] all[k]).0
            == members@[k].0@ by {}
        if exists|k: int|
            0 <= k < members@.len() && (#[trigger] members@[k]).0@ == "deadLetterTargetArn"@ {
        } else {
            law_no_target_member_no_target(all);
        }
        assert forall|k: int|
            0 <= k < members@.len() && (#[trigger] members@[k]).0@ == "deadLetterTargetArn"@ && (
            forall|j: int|
                0 <= j < k ==> (#[trigger] members@[j]).0@
                    != "deadLetterTargetArn"@) implies member_text(all, target_member())
            == text_view(members@[k].1) by {
            assert forall|j: int| 0 <= j < k implies (#[trigger] all[j]).0 != target_member() by {
                assert(members@[j].0@ != "deadLetterTargetArn"@);
            }
            assert(all[k].0 == target_member());
            lemma_member_text_at(all, k);
        }
    }
    arn
}

fn pick_target(members: &Vec<(String, Option<String>)>) -> (arn: Option<String>)
    ensures
        text_view(arn) == target_of(members_view(members@)),
{
    let ghost all = members_view(members@);
    let mut i: usize = 0;
    assert(all.skip(0) =~= all);
    while i < members.len()
        invariant
            i <= members.len(),
            all == members_view(members@),
            member_text(all, target_member()) == member_text(all.skip(i as int), target_member()),
        decreases members.len() - i,
    {
        if same_text(members[i].0.as_str(), "deadLetterTargetArn") {
            assert(all.skip(i as int)[0] == all[i as int]);
            return match &members[i].1 {
                Some(arn) => if arn.as_str().is_empty() {
                    None
                } else {
                    Some(arn.clone())
                },
                None => None,
            };
        }
        assert(all.skip(i as int)[0] == all[i as int]);
        assert(all.skip(i as int).drop_first() =~= all.skip(i + 1));
        i = i + 1;
    }
    None
}

/// The `deadLetterTargetArn` of a `RedrivePolicy` attribute value: `None` if the value is
/// not JSON or has no such member, or if the member is no string or is empty.
pub fn dead_letter_arn_from_redrive_policy(policy_json: &str) -> (arn: Option<String>)
    ensures
        text_view(arn) == policy_target(policy_json@),
        arn matches Some(a) ==> policy_target(policy_json@) == Some(a@),
        arn is None ==> policy_target(policy_json@) is None,
{
    match parse_json_members(policy_json) {
        Some(members) => dead_letter_arn_of_members(&members),
        None => None,
    }
}

/// The first member called `deadLetterTargetArn` decides, whatever the other members are or
/// hold: a text that is not empty is the target, and anything else is none. `first` is its
/// place.
pub proof fn law_first_target_member_decides(
    members: Seq<(Seq<char>, Option<Seq<char>>)>,
    first: int,
)
    requires
        0 <= first < members.len(),
        members[first].0 == "deadLetterTargetArn"@,
        forall|j: int| 0 <= j < first ==> (#[trigger] members[j]).0 != "deadLetterTargetArn"@,
    ensures
        members[first].1 matches Some(text) ==> text.len() > 0 ==> target_of(members) == Some(
            text,
        ),
        members[first].1 matches Some(text) ==> text.len() == 0 ==> target_of(members) is None,
        members[first].1 is None ==> target_of(members) is None,
{
    lemma_member_text_at(members, first);
}

/// Where no member is called `deadLetterTargetArn`, there is no target.
pub proof fn law_no_target_member_no_target(members: Seq<(Seq<char>, Option<Seq<char>>)>)
    requires
        forall|j: int|
            0 <= j < members.len() ==> (#[trigger] members[j]).0 != "deadLetterTargetArn"@,
    ensures
        target_of(members) is None,
    decreases members.len(),
{
    if members.len() > 0 {
        assert(members[0].0 != "deadLetterTargetArn"@);
        assert forall|j: int| 0 <= j < members.len() - 1 implies (
        #[trigger] members.drop_first()[j]).0 != "deadLetterTargetArn"@ by {
            assert(members[j + 1].0 != "deadLetterTargetArn"@);
        }
        law_no_target_member_no_target(members.drop_first());
    }
}

/// A policy's target is that of the members that its text has, and a text that is not JSON has
/// none.
pub proof fn law_policy_target_is_that_of_its_members(policy: Seq<char>)
    ensures
        json_members(policy) is None ==> policy_target(policy) is None,
        json_members(policy) matches Some(members) ==> policy_target(policy) == target_of(
            members,
        ),
{
}

/// The view of the members keeps their number, their order, their names and their texts.
pub proof fn law_members_are_seen_as_they_are(members: Seq<(String, Option<String>)>, i: int)
    requires
        0 <= i < members.len(),
    ensures
        members_view(members).len() == members.len(),
        members_view(members)[i].0 == members[i].0@,
        members[i].1 matches Some(text) ==> members_view(members)[i].1 == Some(text@),
        members[i].1 is None ==> members_view(members)[i].1 is None,
{
}

proof fn lemma_member_text_at(members: Seq<(Seq<char>, Option<Seq<char>>)>, first: int)
    requires
        0 <= first < members.len(),
        members[first].0 == target_member(),
        forall|j: int| 0 <= j < first ==> (#[trigger] members[j]).0 != target_member(),
    ensures
        member_text(members, target_member()) == members[first].1,
    decreases members.len(),
{
    if first > 0 {
        assert(members[0].0 != target_member());
        assert forall|j: int| 0 <= j < first - 1 implies (#[trigger] members.drop_first()[j]).0
            != target_member() by {
            assert(members[j + 1].0 != target_member());
        }
        lemma_member_text_at(members.drop_first(), first - 1);
    }
}

/// The view of an optional text is that text, if there is one.
pub proof fn law_optional_text_is_seen_as_it_is(text: Option<String>)
    ensures
        text matches Some(t) ==> text_view(text) == Some(t@),
        text is None ==> text_view(text) is None,
{
}

} // verus!
