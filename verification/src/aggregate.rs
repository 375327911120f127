//! The content aggregator: per unit, the trimmed slide text of every topic
//! in declaration order, each preceded by a horizontal-rule marker, and the
//! bulleted objective and summary lists accumulated across the topics.
use vstd::prelude::*;
use vstd::string::StringExecFns;
use crate::textops::{trim, trim_spec};
use crate::types::LoadedTopic;

verus! {

/// The bulleted form of a list: each item trimmed, prefixed with a dash
/// and a space, and ended with a newline, in item order.
pub open spec fn bullet_list_spec(items: Seq<String>) -> Seq<char>
    decreases items.len(),
{
    if items.len() == 0 {
        Seq::empty()
    } else {
        bullet_list_spec(items.drop_last()) + "- "@ + trim_spec(items.last()@) + "\n"@
    }
}

/// The aggregated slide content of a unit: for every topic in declaration
/// order, a horizontal-rule marker, the topic's trimmed slide text, and a
/// closing newline.
pub open spec fn content_agg_spec(topics: Seq<LoadedTopic>) -> Seq<char>
    decreases topics.len(),
{
    if topics.len() == 0 {
        Seq::empty()
    } else {
        content_agg_spec(topics.drop_last()) + "---\n\n"@ + trim_spec(topics.last().slides@)
            + "\n"@
    }
}

/// The aggregated objectives list of a unit, topic by topic.
pub open spec fn objectives_agg_spec(topics: Seq<LoadedTopic>) -> Seq<char>
    decreases topics.len(),
{
    if topics.len() == 0 {
        Seq::empty()
    } else {
        objectives_agg_spec(topics.drop_last()) + bullet_list_spec(
            topics.last().topic.data.objectives@,
        )
    }
}

/// The aggregated summary list of a unit, topic by topic.
pub open spec fn summary_agg_spec(topics: Seq<LoadedTopic>) -> Seq<char>
    decreases topics.len(),
{
    if topics.len() == 0 {
        Seq::empty()
    } else {
        summary_agg_spec(topics.drop_last()) + bullet_list_spec(topics.last().topic.data.summary@)
    }
}

/// The three unit-scoped aggregates.
pub struct UnitAggregate {
    pub content: String,
    pub objectives: String,
    pub summary: String,
}

fn push_bullets(out: &mut String, items: &Vec<String>)
    ensures
        final(out)@ == old(out)@ + bullet_list_spec(items@),
{
    proof {
        assert(items@.subrange(0, 0) =~= Seq::<String>::empty());
        assert(out@ + bullet_list_spec(items@.subrange(0, 0)) =~= out@);
    }
    let n = items.len();
    let mut i: usize = 0;
    while i < n
        invariant
            0 <= i <= n,
            n == items@.len(),
            out@ == old(out)@ + bullet_list_spec(items@.subrange(0, i as int)),
        decreases n - i,
    {
        out.append("- ");
        let trimmed = trim(items[i].as_str());
        out.append(trimmed.as_str());
        out.append("\n");
        proof {
            assert(items@.subrange(0, i + 1).drop_last() =~= items@.subrange(0, i as int));
            assert(items@.subrange(0, i + 1).last() == items@[i as int]);
        }
        i = i + 1;
    }
    proof {
        assert(items@.subrange(0, n as int) =~= items@);
    }
}

/// Builds the three aggregates of a unit from its loaded topics.
pub fn aggregate_topics(topics: &Vec<LoadedTopic>) -> (r: UnitAggregate)
    ensures
        r.content@ == content_agg_spec(topics@),
        r.objectives@ == objectives_agg_spec(topics@),
        r.summary@ == summary_agg_spec(topics@),
{
    let mut content = String::new();
    let mut objectives = String::new();
    let mut summary = String::new();
    proof {
        assert(topics@.subrange(0, 0) =~= Seq::<LoadedTopic>::empty());
    }
    let n = topics.len();
    let mut i: usize = 0;
    while i < n
        invariant
            0 <= i <= n,
            n == topics@.len(),
            content@ == content_agg_spec(topics@.subrange(0, i as int)),
            objectives@ == objectives_agg_spec(topics@.subrange(0, i as int)),
            summary@ == summary_agg_spec(topics@.subrange(0, i as int)),
        decreases n - i,
    {
        let t = &topics[i];
        content.append("---\n\n");
        let trimmed = trim(t.slides.as_str());
        content.append(trimmed.as_str());
        content.append("\n");
        push_bullets(&mut objectives, &t.topic.data.objectives);
        push_bullets(&mut summary, &t.topic.data.summary);
        proof {
            assert(topics@.subrange(0, i + 1).drop_last() =~= topics@.subrange(0, i as int));
            assert(topics@.subrange(0, i + 1).last() == topics@[i as int]);
        }
        i = i + 1;
    }
    proof {
        assert(topics@.subrange(0, n as int) =~= topics@);
    }
    UnitAggregate { content, objectives, summary }
}

} // verus!
