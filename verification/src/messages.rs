//! The data model: stored messages, new (incoming) messages, and the
//! optional time range that a listing request may carry.

use vstd::prelude::*;

verus! {

/// A stored record: who wrote it, what it says, and the timestamp the
/// store assigned when it was written.
#[derive(Debug)]
pub struct Message {
    pub username: String,
    pub message: String,
    pub timestamp: i64,
}

/// The mathematical value of a [`Message`].
pub struct MessageModel {
    pub username: Seq<char>,
    pub message: Seq<char>,
    pub timestamp: int,
}

impl View for Message {
    type V = MessageModel;

    open spec fn view(&self) -> MessageModel {
        MessageModel {
            username: self.username@,
            message: self.message@,
            timestamp: self.timestamp as int,
        }
    }
}

impl Clone for Message {
    fn clone(&self) -> (r: Self)
        ensures
            r@ == self@,
    {
        Message {
            username: self.username.clone(),
            message: self.message.clone(),
            timestamp: self.timestamp,
        }
    }
}

/// A message to be stored: the store itself assigns the timestamp later.
#[derive(Debug)]
pub struct NewMessage {
    pub username: String,
    pub message: String,
}

/// Optional exclusive bounds on the timestamps a listing should include;
/// either bound may be absent, independently of the other.
#[derive(Clone, Copy, Debug)]
pub struct TimeRange {
    pub before: Option<i64>,
    pub after: Option<i64>,
}

/// Whether a timestamp falls inside the range: strictly below `before`
/// (when present) and strictly above `after` (when present).
pub open spec fn in_range(tr: TimeRange, ts: int) -> bool {
    &&& match tr.before {
        Some(b) => ts < b,
        None => true,
    }
    &&& match tr.after {
        Some(a) => ts > a,
        None => true,
    }
}

/// The values of a sequence of messages, in order.
pub open spec fn models_of(s: Seq<Message>) -> Seq<MessageModel> {
    s.map_values(|m: Message| m@)
}

/// A range with no bounds keeps every message.
pub proof fn lemma_unbounded_range_keeps_all(ms: Seq<MessageModel>)
    ensures
        ms.filter(
            |mv: MessageModel|
                in_range(TimeRange { before: None, after: None }, mv.timestamp),
        ) == ms,
    decreases ms.len(),
{
    reveal(Seq::filter);
    let pred = |mv: MessageModel| in_range(TimeRange { before: None, after: None }, mv.timestamp);
    if ms.len() == 0 {
        assert(ms.filter(pred) =~= ms);
    } else {
        lemma_unbounded_range_keeps_all(ms.drop_last());
        assert(pred(ms.last()));
        assert(ms.filter(pred) =~= ms.drop_last() + seq![ms.last()]);
        assert(ms.drop_last() + seq![ms.last()] =~= ms);
    }
}

/// Keep exactly the messages whose timestamp lies in the range, in their
/// original order.
pub fn filter_messages(msgs: &Vec<Message>, tr: &TimeRange) -> (r: Vec<Message>)
    ensures
        models_of(r@) == models_of(msgs@).filter(|mv: MessageModel| in_range(*tr, mv.timestamp)),
{
    let ghost pred = |mv: MessageModel| in_range(*tr, mv.timestamp);
    let ghost all = models_of(msgs@);
    let mut r: Vec<Message> = Vec::new();
    let mut i: usize = 0;
    proof {
        assert(all.subrange(0, 0) =~= Seq::<MessageModel>::empty());
        reveal(Seq::filter);
        assert(models_of(r@) =~= all.subrange(0, 0).filter(pred));
    }
    while i < msgs.len()
        invariant
            i <= msgs@.len(),
            all == models_of(msgs@),
            pred == (|mv: MessageModel| in_range(*tr, mv.timestamp)),
            models_of(r@) == all.subrange(0, i as int).filter(pred),
        decreases msgs@.len() - i,
    {
        let ghost prev = all.subrange(0, i as int);
        let ghost cur = all.subrange(0, i as int + 1);
        proof {
            assert(cur.drop_last() =~= prev);
            assert(cur.last() == msgs@[i as int]@);
            reveal(Seq::filter);
        }
        let m = &msgs[i];
        let keep = match (m.timestamp, tr.before) {
            (ts, Some(b)) => ts < b,
            _ => true,
        } && match (m.timestamp, tr.after) {
            (ts, Some(a)) => ts > a,
            _ => true,
        };
        if keep {
            r.push(m.clone());
            proof {
                assert(models_of(r@) =~= cur.filter(pred));
            }
        } else {
            proof {
                assert(models_of(r@) =~= cur.filter(pred));
            }
        }
        i += 1;
    }
    proof {
        assert(all.subrange(0, msgs@.len() as int) =~= all);
    }
    r
}

} // verus!
