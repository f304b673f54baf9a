//! The corpus aggregator: the texts of every accepted thread file beneath a
//! chosen folder, in walk order, parsed and concatenated into one flat
//! message corpus.  One file failing to parse aborts the whole aggregation:
//! a schema mismatch means the whole corpus may be suspect.
use vstd::prelude::*;

use crate::messages::{spec_thread_text, views_of, Message, MessageFileParser, MessageV};
use crate::MagicError;

verus! {

/// All messages of all files, in file order and in-file order, or nothing
/// where any file fails to parse.
pub open spec fn spec_aggregate(ts: Seq<Seq<char>>) -> Option<Seq<MessageV>>
    decreases ts.len(),
{
    if ts.len() == 0 {
        Some(Seq::empty())
    } else {
        match spec_thread_text(ts[0]) {
            None => None,
            Some(th) => match spec_aggregate(ts.drop_first()) {
                None => None,
                Some(rest) => Some(th.messages + rest),
            },
        }
    }
}

/// Aggregate the messages of the given file texts, which stand in the walk
/// order of their source files.  All-or-nothing: the first file that fails
/// to parse aborts the whole call with its error.
pub fn get_all_messages(texts: &Vec<String>) -> (r: Result<Vec<Message>, MagicError>)
    ensures
        match r {
            Ok(v) => spec_aggregate(texts.deep_view()) == Some(views_of(v@)),
            Err(e) => spec_aggregate(texts.deep_view()) is None && e is Generic,
        },
{
    proof {
        assert forall|b: int| 0 <= b < texts@.len() implies #[trigger] texts.deep_view()[b]
            == texts@[b]@ by {
            assert(texts.deep_view()[b] == texts@[b].deep_view());
        }
    }
    let n = texts.len();
    let mut out: Vec<Message> = Vec::new();
    let mut i: usize = 0;
    proof {
        assert(texts.deep_view().skip(0) =~= texts.deep_view());
        assert(views_of(out@) =~= Seq::<MessageV>::empty());
    }
    while i < n
        invariant
            i <= n,
            n == texts@.len(),
            texts.deep_view().len() == texts@.len(),
            forall|b: int| 0 <= b < texts@.len() ==> #[trigger] texts.deep_view()[b] == texts@[b]@,
            match spec_aggregate(texts.deep_view().skip(i as int)) {
                Some(rest) => spec_aggregate(texts.deep_view()) == Some(views_of(out@) + rest),
                None => spec_aggregate(texts.deep_view()) is None,
            },
        decreases n - i,
    {
        proof {
            assert(texts.deep_view().skip(i as int)[0] == texts.deep_view()[i as int]);
            assert(texts.deep_view().skip(i as int).drop_first() =~= texts.deep_view().skip(
                i as int + 1,
            ));
        }
        match MessageFileParser::parse_text(texts[i].as_str()) {
            Err(e) => {
                return Err(e);
            },
            Ok(mut parsed) => {
                let ghost out0 = out@;
                let ghost th = parsed@;
                out.append(&mut parsed.messages);
                proof {
                    assert(views_of(out@) =~= views_of(out0) + th.messages);
                    if spec_aggregate(texts.deep_view().skip(i as int + 1)) is Some {
                        let rest = spec_aggregate(texts.deep_view().skip(i as int + 1))->0;
                        assert(views_of(out0) + (th.messages + rest) =~= views_of(out@) + rest);
                    }
                }
            },
        }
        i += 1;
    }
    proof {
        assert(texts.deep_view().skip(n as int).len() == 0);
        if spec_aggregate(texts.deep_view()) is Some {
            assert(views_of(out@) + Seq::<MessageV>::empty() =~= views_of(out@));
        }
    }
    Ok(out)
}

/// Aggregation ordering: where every file parses, the corpus is exactly the
/// per-file message sequences concatenated in walk order, each file's own
/// message order preserved.
pub proof fn lemma_aggregate_order(ts: Seq<Seq<char>>)
    requires
        forall|i: int| 0 <= i < ts.len() ==> (#[trigger] spec_thread_text(ts[i])) is Some,
    ensures
        spec_aggregate(ts) == Some(
            Seq::new(ts.len(), |i: int| spec_thread_text(ts[i])->0.messages).flatten(),
        ),
    decreases ts.len(),
{
    let m = Seq::new(ts.len(), |i: int| spec_thread_text(ts[i])->0.messages);
    if ts.len() == 0 {
        assert(m.flatten() =~= Seq::<MessageV>::empty());
    } else {
        assert(spec_thread_text(ts[0]) is Some);
        assert forall|i: int| 0 <= i < ts.drop_first().len() implies (#[trigger] spec_thread_text(
            ts.drop_first()[i],
        )) is Some by {
            assert(ts.drop_first()[i] == ts[i + 1]);
        }
        lemma_aggregate_order(ts.drop_first());
        let m2 = Seq::new(
            ts.drop_first().len(),
            |i: int| spec_thread_text(ts.drop_first()[i])->0.messages,
        );
        assert(m.drop_first() =~= m2);
        assert(m.first() == spec_thread_text(ts[0])->0.messages);
        assert(m.flatten() == m.first() + m.drop_first().flatten());
    }
}

/// Aggregation is fatal on the first parse failure: where any one file fails
/// to parse, the whole aggregation yields no corpus at all.
pub proof fn lemma_aggregate_abort(ts: Seq<Seq<char>>, i: int)
    requires
        0 <= i < ts.len(),
        spec_thread_text(ts[i]) is None,
    ensures
        spec_aggregate(ts) is None,
    decreases ts.len(),
{
    if i == 0 {
    } else {
        assert(ts.drop_first()[i - 1] == ts[i]);
        lemma_aggregate_abort(ts.drop_first(), i - 1);
    }
}

} // verus!
