//! Queue resource names.
use vstd::prelude::*;

use crate::text::{is_split, join, law_split_is_unique, same_text, split, views};

verus! {

/// `arn` reads `arn:<partition>:sqs:<region>:<account>:<name>`, with no colon inside a
/// field and neither the account nor the name empty.
pub open spec fn is_queue_arn(
    arn: Seq<char>,
    partition: Seq<char>,
    region: Seq<char>,
    account: Seq<char>,
    name: Seq<char>,
) -> bool {
    &&& arn == join(seq!["arn"@, partition, "sqs"@, region, account, name], ':')
    &&& !partition.contains(':')
    &&& !region.contains(':')
    &&& !account.contains(':')
    &&& !name.contains(':')
    &&& account.len() > 0
    &&& name.len() > 0
}

/// `arn` is the ARN of the queue `name` of `account`, in some partition and region.
pub open spec fn names_queue(arn: Seq<char>, account: Seq<char>, name: Seq<char>) -> bool {
    exists|partition: Seq<char>, region: Seq<char>|
        is_queue_arn(arn, partition, region, account, name)
}

proof fn lemma_arn_is_split(
    arn: Seq<char>,
    partition: Seq<char>,
    region: Seq<char>,
    account: Seq<char>,
    name: Seq<char>,
)
    requires
        is_queue_arn(arn, partition, region, account, name),
    ensures
        is_split(arn, ':', seq!["arn"@, partition, "sqs"@, region, account, name]),
{
    reveal_strlit("arn");
    reveal_strlit("sqs");
}

/// Splits an SQS queue ARN into its account id and its queue name. Anything else, an
/// ARN of another service or with an empty account or name included, is refused.
pub fn parse_queue_arn(arn: &str) -> (parsed: Option<(String, String)>)
    ensures
        parsed matches Some((account, name)) ==> names_queue(arn@, account@, name@),
        parsed is None ==> forall|account: Seq<char>, name: Seq<char>|
            !names_queue(arn@, account, name),
{
    let parts = split(arn, ':');
    let ghost fields = views(parts@);
    proof {
        assert forall|
            partition: Seq<char>,
            region: Seq<char>,
            account: Seq<char>,
            name: Seq<char>,
        |
            is_queue_arn(arn@, partition, region, account, name) implies fields == seq![
            "arn"@,
            partition,
            "sqs"@,
            region,
            account,
            name,
        ] by {
            lemma_arn_is_split(arn@, partition, region, account, name);
            law_split_is_unique(
                arn@,
                ':',
                fields,
                seq!["arn"@, partition, "sqs"@, region, account, name],
            );
        }
    }
    if parts.len() != 6 || !same_text(parts[0].as_str(), "arn") || !same_text(
        parts[2].as_str(),
        "sqs",
    ) {
        return None;
    }
    if parts[4].as_str().is_empty() || parts[5].as_str().is_empty() {
        return None;
    }
    let account = parts[4].clone();
    let name = parts[5].clone();
    proof {
        assert(fields =~= seq!["arn"@, fields[1], "sqs"@, fields[3], fields[4], fields[5]]);
        assert(is_queue_arn(arn@, fields[1], fields[3], account@, name@));
    }
    Some((account, name))
}

/// A queue ARN names one account and one queue.
pub proof fn law_queue_arn_names_one_queue(
    arn: Seq<char>,
    account: Seq<char>,
    name: Seq<char>,
    other_account: Seq<char>,
    other_name: Seq<char>,
)
    requires
        names_queue(arn, account, name),
        names_queue(arn, other_account, other_name),
    ensures
        account == other_account,
        name == other_name,
{
    let (partition, region) = choose|partition: Seq<char>, region: Seq<char>|
        is_queue_arn(arn, partition, region, account, name);
    let (other_partition, other_region) = choose|partition: Seq<char>, region: Seq<char>|
        is_queue_arn(arn, partition, region, other_account, other_name);
    lemma_arn_is_split(arn, partition, region, account, name);
    lemma_arn_is_split(arn, other_partition, other_region, other_account, other_name);
    let a = seq!["arn"@, partition, "sqs"@, region, account, name];
    let b = seq!["arn"@, other_partition, "sqs"@, other_region, other_account, other_name];
    law_split_is_unique(arn, ':', a, b);
    assert(a[4] == b[4] && a[5] == b[5]);
}

/// What it takes to name a queue, written out: the text reads
/// `arn:<partition>:sqs:<region>:<account>:<name>`, with no colon in any of the four, and
/// neither the account nor the name is empty.
pub proof fn law_queue_arn_written_out(arn: Seq<char>, account: Seq<char>, name: Seq<char>)
    ensures
        names_queue(arn, account, name) <==> (account.len() > 0 && name.len() > 0
            && !account.contains(':') && !name.contains(':') && exists|
            partition: Seq<char>,
            region: Seq<char>,
        |
            #![trigger partition.contains(':'), region.contains(':')]
            !partition.contains(':') && !region.contains(':') && arn == "arn:"@ + partition
                + ":sqs:"@ + region + ":"@ + account + ":"@ + name),
{
    if names_queue(arn, account, name) {
        let (partition, region) = choose|partition: Seq<char>, region: Seq<char>|
            is_queue_arn(arn, partition, region, account, name);
        lemma_joined_arn(partition, region, account, name);
        assert(!partition.contains(':') && !region.contains(':'));
    }
    if account.len() > 0 && name.len() > 0 && !account.contains(':') && !name.contains(':')
        && exists|partition: Seq<char>, region: Seq<char>|
        #![trigger partition.contains(':'), region.contains(':')]
        !partition.contains(':') && !region.contains(':') && arn == "arn:"@ + partition + ":sqs:"@
            + region + ":"@ + account + ":"@ + name {
        let (partition, region) = choose|partition: Seq<char>, region: Seq<char>|
            #![trigger partition.contains(':'), region.contains(':')]
            !partition.contains(':') && !region.contains(':') && arn == "arn:"@ + partition
                + ":sqs:"@ + region + ":"@ + account + ":"@ + name;
        lemma_joined_arn(partition, region, account, name);
        assert(is_queue_arn(arn, partition, region, account, name));
    }
}

proof fn lemma_joined_arn(
    partition: Seq<char>,
    region: Seq<char>,
    account: Seq<char>,
    name: Seq<char>,
)
    ensures
        join(seq!["arn"@, partition, "sqs"@, region, account, name], ':') == "arn:"@ + partition
            + ":sqs:"@ + region + ":"@ + account + ":"@ + name,
{
    reveal_strlit("arn");
    reveal_strlit("sqs");
    reveal_strlit("arn:");
    reveal_strlit(":sqs:");
    reveal_strlit(":");
    let one = seq!["arn"@];
    let two = one.push(partition);
    let three = two.push("sqs"@);
    let four = three.push(region);
    let five = four.push(account);
    let six = five.push(name);
    assert(six =~= seq!["arn"@, partition, "sqs"@, region, account, name]);
    assert(six.drop_last() =~= five);
    assert(five.drop_last() =~= four);
    assert(four.drop_last() =~= three);
    assert(three.drop_last() =~= two);
    assert(two.drop_last() =~= one);
    assert(join(one, ':') == "arn"@);
    assert(join(two, ':') == "arn"@.push(':') + partition);
    assert(join(three, ':') == join(two, ':').push(':') + "sqs"@);
    assert(join(four, ':') == join(three, ':').push(':') + region);
    assert(join(five, ':') == join(four, ':').push(':') + account);
    assert(join(six, ':') == join(five, ':').push(':') + name);
    assert(join(six, ':') =~= "arn:"@ + partition + ":sqs:"@ + region + ":"@ + account + ":"@
        + name);
}

} // verus!
