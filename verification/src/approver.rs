//! Tool approvals answered through inline keyboard buttons: the callback
//! data the buttons carry, the table of approvals still waiting for a
//! reply, and the steps of one approval.

use vstd::prelude::*;
use vstd::string::*;
use crate::text::{lower_text, piece_starts, same_text, split_on, to_lowercase};

verus! {

broadcast use vstd::string::group_string_axioms;

/// What the user tapped in response to an approval prompt.
/// Callback `data` strings have the shape `tool:<verb>:<req_id>`.
#[derive(Debug, Clone, Copy, PartialEq, Eq, Structural)]
pub enum ApprovalReply {
    Allow,
    AllowForSession,
    Deny,
    DenyForSession,
    /// User tapped something we can't classify.
    Unrecognised,
}

/// The reply a (lowercased) verb stands for.
pub open spec fn verb_reply(verb: Seq<char>) -> ApprovalReply {
    if verb == "allow"@ || verb == "approve"@ || verb == "yes"@ {
        ApprovalReply::Allow
    } else if verb == "allow_session"@ || verb == "allow session"@ {
        ApprovalReply::AllowForSession
    } else if verb == "deny"@ || verb == "reject"@ || verb == "no"@ {
        ApprovalReply::Deny
    } else if verb == "session"@ {
        ApprovalReply::DenyForSession
    } else {
        ApprovalReply::Unrecognised
    }
}

/// The verb and request id that callback data carries, by the number of
/// `:`-separated pieces: `tool:<verb>:<id>`, `<verb>:<id>` or `<verb>`.
/// Any other shape carries neither.
pub open spec fn callback_fields(data: Seq<char>) -> (Option<Seq<char>>, Option<Seq<char>>) {
    let p = split_on(data, ':');
    if p.len() == 3 && p[0] == "tool"@ {
        (Some(p[1]), Some(p[2]))
    } else if p.len() == 2 {
        (Some(p[0]), Some(p[1]))
    } else if p.len() == 1 {
        (Some(p[0]), None)
    } else {
        (None, None)
    }
}

/// The reply that callback data stands for: its verb, lowercased, looked
/// up in `verb_reply`.
pub open spec fn callback_reply(data: Seq<char>) -> ApprovalReply {
    match callback_fields(data).0 {
        Some(verb) => verb_reply(lower_text(verb)),
        None => ApprovalReply::Unrecognised,
    }
}

/// The text of an optional string.
pub open spec fn opt_text(s: Option<String>) -> Option<Seq<char>> {
    match s {
        Some(x) => Some(x@),
        None => None,
    }
}

impl ApprovalReply {
    /// Classify a verb that is already lowercase.
    pub fn classify_verb(verb: &str) -> (r: Self)
        ensures
            r == verb_reply(verb@),
    {
        if same_text(verb, "allow") || same_text(verb, "approve") || same_text(verb, "yes") {
            ApprovalReply::Allow
        } else if same_text(verb, "allow_session") || same_text(verb, "allow session") {
            ApprovalReply::AllowForSession
        } else if same_text(verb, "deny") || same_text(verb, "reject") || same_text(verb, "no") {
            ApprovalReply::Deny
        } else if same_text(verb, "session") {
            ApprovalReply::DenyForSession
        } else {
            ApprovalReply::Unrecognised
        }
    }

    /// Parse a callback `data` field. Shape is `tool:<verb>:<request_id>`.
    pub fn parse_callback_data(data: &str) -> (r: (Self, Option<String>))
        ensures
            r.0 == callback_reply(data@),
            opt_text(r.1) == callback_fields(data@).1,
    {
        let starts = piece_starts(data, ':');
        let n = data.unicode_len();
        let count = starts.len();
        proof {
            crate::text::lemma_split_on_nonempty(data@, ':');
        }
        if count == 3 {
            let head = data.substring_char(starts[0], starts[1] - 1);
            if same_text(head, "tool") {
                let verb = data.substring_char(starts[1], starts[2] - 1);
                let req = data.substring_char(starts[2], n);
                let lowered = to_lowercase(verb);
                return (Self::classify_verb(lowered.as_str()), Some(String::from_str(req)));
            } else {
                return (ApprovalReply::Unrecognised, None);
            }
        } else if count == 2 {
            let verb = data.substring_char(starts[0], starts[1] - 1);
            let req = data.substring_char(starts[1], n);
            let lowered = to_lowercase(verb);
            (Self::classify_verb(lowered.as_str()), Some(String::from_str(req)))
        } else if count == 1 {
            let verb = data.substring_char(starts[0], n);
            let lowered = to_lowercase(verb);
            (Self::classify_verb(lowered.as_str()), None)
        } else {
            (ApprovalReply::Unrecognised, None)
        }
    }
}


/// The map that a list of (id, value) entries stands for; a later entry
/// for an id wins over an earlier one.
pub open spec fn entries_map<T>(s: Seq<(String, T)>) -> Map<Seq<char>, T>
    decreases s.len(),
{
    if s.len() == 0 {
        Map::empty()
    } else {
        entries_map(s.drop_last()).insert(s.last().0@, s.last().1)
    }
}

/// No id occurs twice among the entries.
pub open spec fn unique_ids<T>(s: Seq<(String, T)>) -> bool {
    forall|i: int, j: int| 0 <= i < j < s.len() ==> s[i].0@ != s[j].0@
}

/// The text of each id in a list.
pub open spec fn id_texts(s: Seq<String>) -> Seq<Seq<char>> {
    s.map_values(|x: String| x@)
}

proof fn lemma_entries_map_dom<T>(s: Seq<(String, T)>)
    ensures
        forall|k: Seq<char>|
            #[trigger] entries_map(s).dom().contains(k) <==> exists|i: int| 0 <= i < s.len() && s[i].0@ == k,
    decreases s.len(),
{
    if s.len() > 0 {
        lemma_entries_map_dom(s.drop_last());
        assert forall|k: Seq<char>| #[trigger] entries_map(s).dom().contains(k) implies exists|i: int|
            0 <= i < s.len() && s[i].0@ == k by {
            if k != s.last().0@ {
                assert(entries_map(s.drop_last()).dom().contains(k));
                let i = choose|i: int| 0 <= i < s.drop_last().len() && s.drop_last()[i].0@ == k;
                assert(s[i].0@ == k);
            } else {
                assert(s[s.len() - 1].0@ == k);
            }
        }
        assert forall|k: Seq<char>| (exists|i: int| 0 <= i < s.len() && s[i].0@ == k) implies #[trigger] entries_map(
            s,
        ).dom().contains(k) by {
            let i = choose|i: int| 0 <= i < s.len() && s[i].0@ == k;
            if i < s.len() - 1 {
                assert(s.drop_last()[i].0@ == k);
                assert(entries_map(s.drop_last()).dom().contains(k));
            }
        }
    }
}

proof fn lemma_entries_map_value<T>(s: Seq<(String, T)>, i: int)
    requires
        unique_ids(s),
        0 <= i < s.len(),
    ensures
        entries_map(s).dom().contains(s[i].0@),
        entries_map(s)[s[i].0@] == s[i].1,
    decreases s.len(),
{
    lemma_entries_map_dom(s);
    if i < s.len() - 1 {
        lemma_entries_map_value(s.drop_last(), i);
        assert(s.drop_last()[i] == s[i]);
    }
}

proof fn lemma_entries_map_remove<T>(s: Seq<(String, T)>, i: int)
    requires
        unique_ids(s),
        0 <= i < s.len(),
    ensures
        entries_map(s.remove(i)) =~= entries_map(s).remove(s[i].0@),
        unique_ids(s.remove(i)),
    decreases s.len(),
{
    let r = s.remove(i);
    assert(unique_ids(r)) by {
        assert forall|a: int, b: int| 0 <= a < b < r.len() implies r[a].0@ != r[b].0@ by {
            let a2 = if a < i { a } else { a + 1 };
            let b2 = if b < i { b } else { b + 1 };
            assert(r[a] == s[a2]);
            assert(r[b] == s[b2]);
        }
    }
    if i == s.len() - 1 {
        assert(r =~= s.drop_last());
        lemma_entries_map_dom(s.drop_last());
        assert(!entries_map(s.drop_last()).dom().contains(s[i].0@)) by {
            if entries_map(s.drop_last()).dom().contains(s[i].0@) {
                let j = choose|j: int| 0 <= j < s.drop_last().len() && s.drop_last()[j].0@ == s[i].0@;
                assert(s[j].0@ == s[i].0@);
            }
        }
    } else {
        let d = s.drop_last();
        assert(unique_ids(d));
        lemma_entries_map_remove(d, i);
        assert(r =~= d.remove(i).push(s.last()));
        assert(r.drop_last() =~= d.remove(i));
        assert(s.last().0@ != s[i].0@);
    }
}

proof fn lemma_entries_map_update<T>(s: Seq<(String, T)>, i: int, e: (String, T))
    requires
        unique_ids(s),
        0 <= i < s.len(),
        e.0@ == s[i].0@,
    ensures
        entries_map(s.update(i, e)) =~= entries_map(s).insert(e.0@, e.1),
        unique_ids(s.update(i, e)),
    decreases s.len(),
{
    let u = s.update(i, e);
    assert(unique_ids(u)) by {
        assert forall|a: int, b: int| 0 <= a < b < u.len() implies u[a].0@ != u[b].0@ by {
            assert(u[a].0@ == s[a].0@);
            assert(u[b].0@ == s[b].0@);
        }
    }
    if i == s.len() - 1 {
        assert(u.drop_last() =~= s.drop_last());
    } else {
        let d = s.drop_last();
        lemma_entries_map_update(d, i, e);
        assert(u.drop_last() =~= d.update(i, e));
        assert(s.last().0@ != e.0@);
    }
}

/// Holds of every id other than `id`.
pub open spec fn other_than(id: Seq<char>) -> spec_fn(Seq<char>) -> bool {
    |o: Seq<char>| o != id
}

proof fn lemma_filter_push(s: Seq<Seq<char>>, x: Seq<char>, pred: spec_fn(Seq<char>) -> bool)
    ensures
        s.push(x).filter(pred) == if pred(x) {
            s.filter(pred).push(x)
        } else {
            s.filter(pred)
        },
{
    reveal(Seq::filter);
    assert(s.push(x).drop_last() =~= s);
}

/// Keeping every id other than `id` keeps a list that never held `id`.
proof fn lemma_filter_absent(s: Seq<Seq<char>>, id: Seq<char>)
    requires
        !s.contains(id),
    ensures
        s.filter(other_than(id)) == s,
    decreases s.len(),
{
    reveal(Seq::filter);
    if s.len() > 0 {
        assert(!s.drop_last().contains(id)) by {
            if s.drop_last().contains(id) {
                let i = choose|i: int| 0 <= i < s.drop_last().len() && s.drop_last()[i] == id;
                assert(s[i] == id);
            }
        }
        lemma_filter_absent(s.drop_last(), id);
        assert(s[s.len() - 1] != id);
        assert(s.drop_last().push(s.last()) =~= s);
    }
}

/// Approval requests waiting for a reply, keyed by request id, each with
/// the value that answers it (the channel back to the waiting approval).
/// The entries and the registration order agree: every id occurs once
/// among the entries, and the ids in the order are exactly the pending ones.
pub open spec fn tables_agree<T>(entries: Seq<(String, T)>, order: Seq<String>) -> bool {
    &&& unique_ids(entries)
    &&& forall|k: Seq<char>| #[trigger] id_texts(order).contains(k) <==> entries_map(entries).dom().contains(k)
}

/// Position of the entry for `id`, if there is one.
fn find_entry<T>(entries: &Vec<(String, T)>, id: &str) -> (r: Option<usize>)
    ensures
        match r {
            Some(i) => i < entries@.len() && entries@[i as int].0@ == id@,
            None => forall|i: int| 0 <= i < entries@.len() ==> entries@[i].0@ != id@,
        },
{
    let mut i: usize = 0;
    while i < entries.len()
        invariant
            i <= entries@.len(),
            forall|j: int| 0 <= j < i ==> entries@[j].0@ != id@,
        decreases entries@.len() - i,
    {
        if same_text(entries[i].0.as_str(), id) {
            return Some(i);
        }
        i = i + 1;
    }
    None
}

fn insert_entry<T>(entries: &mut Vec<(String, T)>, order: &mut Vec<String>, id: String, value: T)
    requires
        tables_agree(old(entries)@, old(order)@),
    ensures
        tables_agree(final(entries)@, final(order)@),
        entries_map(final(entries)@) == entries_map(old(entries)@).insert(id@, value),
        id_texts(final(order)@) == id_texts(old(order)@).push(id@),
{
    let ghost old_order = id_texts(order@);
    let found = find_entry(entries, id.as_str());
    let key = id.clone();
    match found {
        Some(i) => {
            proof {
                lemma_entries_map_update(entries@, i as int, (key, value));
            }
            entries.set(i, (key, value));
        }
        None => {
            entries.push((key, value));
            proof {
                assert(entries@.drop_last() =~= old(entries)@);
                assert(unique_ids(entries@)) by {
                    assert forall|a: int, b: int| 0 <= a < b < entries@.len() implies entries@[a].0@
                        != entries@[b].0@ by {
                        if b == entries@.len() - 1 {
                            assert(old(entries)@[a] == entries@[a]);
                        } else {
                            assert(old(entries)@[a] == entries@[a]);
                            assert(old(entries)@[b] == entries@[b]);
                        }
                    }
                }
            }
        }
    }
    order.push(id);
    proof {
        assert(id_texts(order@) =~= old_order.push(id@));
        assert forall|k: Seq<char>| #[trigger] id_texts(order@).contains(k) <==> entries_map(entries@).dom().contains(k) by {
            if id_texts(order@).contains(k) && k != id@ {
                let j = choose|j: int| 0 <= j < id_texts(order@).len() && id_texts(order@)[j] == k;
                assert(old_order[j] == k);
            }
            if old_order.contains(k) {
                let j = choose|j: int| 0 <= j < old_order.len() && old_order[j] == k;
                assert(id_texts(order@)[j] == k);
            }
            if k == id@ {
                assert(id_texts(order@)[id_texts(order@).len() - 1] == k);
            }
        }
    }
}

fn take_entry<T>(entries: &mut Vec<(String, T)>, order: &mut Vec<String>, id: &str) -> (r: Option<T>)
    requires
        tables_agree(old(entries)@, old(order)@),
    ensures
        tables_agree(final(entries)@, final(order)@),
        entries_map(old(entries)@).dom().contains(id@) ==> {
            &&& r == Some(entries_map(old(entries)@)[id@])
            &&& entries_map(final(entries)@) == entries_map(old(entries)@).remove(id@)
            &&& id_texts(final(order)@) == id_texts(old(order)@).filter(other_than(id@))
        },
        !entries_map(old(entries)@).dom().contains(id@) ==> {
            &&& r.is_none()
            &&& entries_map(final(entries)@) == entries_map(old(entries)@)
            &&& id_texts(final(order)@) == id_texts(old(order)@)
        },
{
    proof {
        lemma_entries_map_dom(entries@);
    }
    match find_entry(entries, id) {
        None => None,
        Some(i) => {
            proof {
                lemma_entries_map_value(entries@, i as int);
                lemma_entries_map_remove(entries@, i as int);
            }
            let (_key, value) = entries.remove(i);
            let ghost pred = other_than(id@);
            let ghost old_order = id_texts(old(order)@);
            let mut kept: Vec<String> = Vec::new();
            let mut j: usize = 0;
            proof {
                reveal(Seq::filter);
                assert(old_order.take(0) =~= Seq::<Seq<char>>::empty());
                assert(id_texts(kept@) =~= Seq::<Seq<char>>::empty());
            }
            while j < order.len()
                invariant
                    j <= order@.len(),
                    id_texts(order@) == old_order,
                    pred == other_than(id@),
                    id_texts(kept@) == old_order.take(j as int).filter(pred),
                decreases order@.len() - j,
            {
                let ghost before = id_texts(kept@);
                proof {
                    lemma_filter_push(old_order.take(j as int), old_order[j as int], pred);
                    assert(old_order.take(j + 1) =~= old_order.take(j as int).push(old_order[j as int]));
                    assert(old_order[j as int] == order@[j as int]@);
                }
                if !same_text(order[j].as_str(), id) {
                    kept.push(order[j].clone());
                    proof {
                        assert(id_texts(kept@) =~= before.push(old_order[j as int]));
                    }
                }
                j = j + 1;
            }
            proof {
                assert(old_order.take(j as int) =~= old_order);
            }
            *order = kept;
            proof {
                let o2 = id_texts(order@);
                broadcast use vstd::seq_lib::group_filter_ensures;
                assert forall|k: Seq<char>| #[trigger] o2.contains(k) <==> entries_map(entries@).dom().contains(k) by {
                    if o2.contains(k) {
                        let a = choose|a: int| 0 <= a < o2.len() && o2[a] == k;
                        assert(pred(o2[a]));
                        old_order.lemma_filter_contains_rev(pred, k);
                    }
                    if entries_map(entries@).dom().contains(k) {
                        assert(entries_map(old(entries)@).dom().contains(k));
                        assert(old_order.contains(k));
                        let a = choose|a: int| 0 <= a < old_order.len() && old_order[a] == k;
                        old_order.lemma_filter_contains(pred, a);
                    }
                }
            }
            Some(value)
        }
    }
}

/// Approval requests waiting for a reply, keyed by request id, each with
/// the value that answers it (the channel back to the waiting approval).
pub struct Pending<T> {
    /// In-flight approval requests: one entry per request id.
    entries: Vec<(String, T)>,
    /// Request ids in the order they were registered.
    order: Vec<String>,
}

impl<T> Pending<T> {
    /// Pending requests by id.
    pub closed spec fn map(&self) -> Map<Seq<char>, T> {
        entries_map(self.entries@)
    }

    /// Registered request ids, oldest first.
    pub closed spec fn order(&self) -> Seq<Seq<char>> {
        id_texts(self.order@)
    }

    /// The registration order holds exactly the pending ids.
    pub open spec fn order_matches(&self) -> bool {
        forall|k: Seq<char>| #[trigger] self.order().contains(k) <==> self.map().dom().contains(k)
    }

    /// Every id occurs once among the entries, and the ids in `order` are
    /// exactly the pending ones.
    #[verifier::type_invariant]
    closed spec fn wf(self) -> bool {
        tables_agree(self.entries@, self.order@)
    }

    /// No request pending.
    pub fn new() -> (r: Self)
        ensures
            r.map() == Map::<Seq<char>, T>::empty(),
            r.order() == Seq::<Seq<char>>::empty(),
            r.order_matches(),
    {
        proof {
            assert(id_texts(Seq::<String>::empty()) =~= Seq::<Seq<char>>::empty());
        }
        Pending { entries: Vec::new(), order: Vec::new() }
    }

    /// True when at least one request waits for a reply.
    pub fn has_any(&self) -> (r: bool)
        ensures
            r == !self.map().is_empty(),
    {
        proof {
            use_type_invariant(self);
            lemma_entries_map_dom(self.entries@);
            if self.entries@.len() > 0 {
                assert(self.map().dom().contains(self.entries@[0].0@));
            } else {
                assert(self.map() =~= Map::<Seq<char>, T>::empty());
            }
        }
        self.entries.len() != 0
    }

    /// Register `value` under `id`: it replaces any earlier value for that
    /// id, and `id` is appended to the registration order.
    pub fn insert(&mut self, id: String, value: T)
        ensures
            final(self).map() == old(self).map().insert(id@, value),
            final(self).order() == old(self).order().push(id@),
            final(self).order_matches(),
    {
        proof {
            use_type_invariant(&*self);
        }
        let mut current = Pending::new();
        std::mem::swap(self, &mut current);
        let Pending { mut entries, mut order } = current;
        insert_entry(&mut entries, &mut order, id, value);
        *self = Pending { entries, order };
        proof {
            use_type_invariant(&*self);
        }
    }

    /// Remove and return the value registered under `id`; every occurrence
    /// of `id` leaves the registration order. Unknown ids change nothing.
    pub fn take_by_id(&mut self, id: &str) -> (r: Option<T>)
        ensures
            old(self).map().dom().contains(id@) ==> {
                &&& r == Some(old(self).map()[id@])
                &&& final(self).map() == old(self).map().remove(id@)
                &&& final(self).order() == old(self).order().filter(other_than(id@))
            },
            !old(self).map().dom().contains(id@) ==> {
                &&& r.is_none()
                &&& final(self).map() == old(self).map()
                &&& final(self).order() == old(self).order()
            },
            final(self).order() == old(self).order().filter(other_than(id@)),
            final(self).order_matches(),
    {
        proof {
            use_type_invariant(&*self);
            if !self.map().dom().contains(id@) {
                lemma_filter_absent(self.order(), id@);
            }
        }
        let mut current = Pending::new();
        std::mem::swap(self, &mut current);
        let Pending { mut entries, mut order } = current;
        let r = take_entry(&mut entries, &mut order, id);
        *self = Pending { entries, order };
        proof {
            use_type_invariant(&*self);
        }
        r
    }
}

/// The answer to a tool approval request.
#[derive(Debug, Clone, Copy, PartialEq, Eq, Structural)]
pub enum ApprovalDecision {
    Allow,
    AllowForSession,
    Deny,
}

/// The decision a reply stands for; an unrecognised reply decides nothing.
/// Denying for the session denies this request.
pub open spec fn reply_decision(reply: ApprovalReply) -> Option<ApprovalDecision> {
    match reply {
        ApprovalReply::Allow => Some(ApprovalDecision::Allow),
        ApprovalReply::AllowForSession => Some(ApprovalDecision::AllowForSession),
        ApprovalReply::Deny => Some(ApprovalDecision::Deny),
        ApprovalReply::DenyForSession => Some(ApprovalDecision::Deny),
        ApprovalReply::Unrecognised => None,
    }
}

impl ApprovalReply {
    /// The decision this reply stands for.
    pub fn decision(self) -> (r: Option<ApprovalDecision>)
        ensures
            r == reply_decision(self),
    {
        match self {
            ApprovalReply::Allow => Some(ApprovalDecision::Allow),
            ApprovalReply::AllowForSession => Some(ApprovalDecision::AllowForSession),
            ApprovalReply::Deny => Some(ApprovalDecision::Deny),
            ApprovalReply::DenyForSession => Some(ApprovalDecision::Deny),
            ApprovalReply::Unrecognised => None,
        }
    }
}

/// The decision and request id that callback data resolves, when it
/// carries both.
pub open spec fn callback_target(data: Seq<char>) -> Option<(ApprovalDecision, Seq<char>)> {
    match (reply_decision(callback_reply(data)), callback_fields(data).1) {
        (Some(d), Some(id)) => Some((d, id)),
        _ => None,
    }
}

/// What resolving callback data does to a table of pending requests: the
/// decision and the value registered for the request it names, which
/// leaves the table; nothing, and the table unchanged, when the data
/// carries no id or no recognised verb or names no pending request.
pub open spec fn resolve_result<T>(m: Map<Seq<char>, T>, data: Seq<char>) -> (
    Option<(ApprovalDecision, T)>,
    Map<Seq<char>, T>,
) {
    match callback_target(data) {
        Some((d, id)) => if m.dom().contains(id) {
            (Some((d, m[id])), m.remove(id))
        } else {
            (None, m)
        },
        None => (None, m),
    }
}

impl<T> Pending<T> {
    /// Resolve the pending approval that callback data names: the decision
    /// and the value registered for it, which leaves the table. Data that
    /// carries no id or no recognised verb, or names no pending request,
    /// resolves nothing and changes nothing.
    pub fn resolve_callback(&mut self, callback_data: &str) -> (r: Option<(ApprovalDecision, T)>)
        ensures
            (r, final(self).map()) == resolve_result(old(self).map(), callback_data@),
            final(self).order_matches(),
            match callback_target(callback_data@) {
                Some((d, id)) if old(self).map().dom().contains(id) => final(self).order() == old(
                    self,
                ).order().filter(other_than(id)),
                _ => final(self).order() == old(self).order(),
            },
    {
        proof {
            use_type_invariant(&*self);
        }
        let (reply, req_id) = ApprovalReply::parse_callback_data(callback_data);
        let req_id = match req_id {
            Some(id) => id,
            None => return None,
        };
        let decision = match reply.decision() {
            Some(d) => d,
            None => return None,
        };
        match self.take_by_id(req_id.as_str()) {
            Some(value) => Some((decision, value)),
            None => None,
        }
    }
}

/// A tool approval request: the tool and its input as JSON text.
#[derive(Debug, Clone)]
pub struct ApprovalRequest {
    pub tool_name: String,
    pub input_json: String,
}

/// How many characters of a tool's input the prompt shows.
pub const INPUT_PREVIEW_CHARS: usize = 200;

/// The first `INPUT_PREVIEW_CHARS` characters of the input.
pub open spec fn input_preview(input: Seq<char>) -> Seq<char> {
    if input.len() <= INPUT_PREVIEW_CHARS {
        input
    } else {
        input.take(INPUT_PREVIEW_CHARS as int)
    }
}

/// The prompt asking the user to approve a tool call.
pub open spec fn prompt_text(tool: Seq<char>, input: Seq<char>) -> Seq<char> {
    let preview = input_preview(input);
    "\u{1F527} **Tool Approval Required**\n\n"@ + "**Tool:** `"@ + tool + "`\n"@ + (if preview.len() > 0 {
        "**Input:** `"@ + preview + "`\n\n"@
    } else {
        Seq::<char>::empty()
    }) + "Tap a button below to approve or deny."@
}

/// Build a human-readable prompt for a tool approval request.
pub fn build_prompt(req: &ApprovalRequest) -> (r: String)
    ensures
        r@ == prompt_text(req.tool_name@, req.input_json@),
{
    let input = req.input_json.as_str();
    let n = input.unicode_len();
    let end = if n <= INPUT_PREVIEW_CHARS { n } else { INPUT_PREVIEW_CHARS };
    let preview = input.substring_char(0, end);
    proof {
        if n <= INPUT_PREVIEW_CHARS {
            assert(input@.subrange(0, n as int) =~= input@);
        }
    }
    let mut prompt = String::from_str("\u{1F527} **Tool Approval Required**\n\n");
    prompt.append("**Tool:** `");
    prompt.append(req.tool_name.as_str());
    prompt.append("`\n");
    if !preview.is_empty() {
        prompt.append("**Input:** `");
        prompt.append(preview);
        prompt.append("`\n\n");
    }
    prompt.append("Tap a button below to approve or deny.");
    proof {
        let head = "\u{1F527} **Tool Approval Required**\n\n"@ + "**Tool:** `"@ + req.tool_name@ + "`\n"@;
        if preview@.len() > 0 {
            assert(head + "**Input:** `"@ + preview@ + "`\n\n"@ =~= head + ("**Input:** `"@ + preview@ + "`\n\n"@));
        } else {
            assert(head =~= head + Seq::<char>::empty());
        }
    }
    prompt
}

/// The callback data of the button for `verb` on the prompt for request `id`.
pub open spec fn button_data(verb: Seq<char>, id: Seq<char>) -> Seq<char> {
    "tool:"@ + verb + ":"@ + id
}

/// `b` shows `text` and answers `verb` for request `id`.
pub open spec fn is_button(b: crate::protocol::InlineKeyboardButton, text: Seq<char>, verb: Seq<char>, id: Seq<char>) -> bool {
    &&& b.text@ == text
    &&& opt_text(b.callback_data) == Some(button_data(verb, id))
    &&& b.url.is_none()
}

/// The keyboard of an approval prompt for request `id`: Approve and Allow
/// Session on the first row, Deny on the second, Deny for Session on the
/// third.
pub open spec fn is_approval_keyboard(k: crate::protocol::InlineKeyboardMarkup, id: Seq<char>) -> bool {
    let rows = k.inline_keyboard@;
    &&& rows.len() == 3
    &&& rows[0]@.len() == 2
    &&& rows[1]@.len() == 1
    &&& rows[2]@.len() == 1
    &&& is_button(rows[0]@[0], "\u{2705} Approve"@, "allow"@, id)
    &&& is_button(rows[0]@[1], "\u{2705}\u{2705} Allow Session"@, "allow_session"@, id)
    &&& is_button(rows[1]@[0], "\u{1F6AB} Deny"@, "deny"@, id)
    &&& is_button(rows[2]@[0], "\u{23F8} Deny for Session"@, "session"@, id)
}

fn approval_button(text: &str, verb: &str, request_id: &str) -> (b: crate::protocol::InlineKeyboardButton)
    ensures
        is_button(b, text@, verb@, request_id@),
{
    let mut data = String::from_str("tool:");
    data.append(verb);
    data.append(":");
    data.append(request_id);
    crate::protocol::InlineKeyboardButton {
        text: String::from_str(text),
        callback_data: Some(data),
        url: None,
    }
}

/// Build the inline keyboard of an approval prompt.
pub fn build_buttons(request_id: &str) -> (r: crate::protocol::InlineKeyboardMarkup)
    ensures
        is_approval_keyboard(r, request_id@),
{
    let mut first = Vec::new();
    first.push(approval_button("\u{2705} Approve", "allow", request_id));
    first.push(approval_button("\u{2705}\u{2705} Allow Session", "allow_session", request_id));
    let mut second = Vec::new();
    second.push(approval_button("\u{1F6AB} Deny", "deny", request_id));
    let mut third = Vec::new();
    third.push(approval_button("\u{23F8} Deny for Session", "session", request_id));
    let mut rows = Vec::new();
    rows.push(first);
    rows.push(second);
    rows.push(third);
    crate::protocol::InlineKeyboardMarkup { inline_keyboard: rows }
}


/// A character of the hyphenated lowercase form of a UUID.
pub open spec fn is_uuid_char(c: char) -> bool {
    ('0' <= c && c <= '9') || ('a' <= c && c <= 'f') || c == '-'
}

/// Calls `uuid::Uuid::new_v4` and formats the id with `to_string`: 36
/// characters, lowercase hex digits and hyphens. Which id comes out is
/// random.
#[verifier::external_body]
fn new_request_id() -> (r: String)
    ensures
        r@.len() == 36,
        forall|i: int| 0 <= i < r@.len() ==> is_uuid_char(#[trigger] r@[i]),
{
    uuid::Uuid::new_v4().to_string()
}

/// The `sendMessage` request carrying the approval prompt for `req` to
/// `chat_id`, in Markdown, with the approval keyboard for `request_id`.
pub open spec fn is_prompt_request(
    m: crate::protocol::SendMessageRequest,
    chat_id: i64,
    req: ApprovalRequest,
    request_id: Seq<char>,
) -> bool {
    &&& m.chat_id == chat_id
    &&& m.text@ == prompt_text(req.tool_name@, req.input_json@)
    &&& opt_text(m.parse_mode) == Some("Markdown"@)
    &&& m.reply_markup matches Some(k) && is_approval_keyboard(k, request_id)
}

/// The approval prompt for `req`, sent to `chat_id`.
pub fn approval_prompt(req: &ApprovalRequest, request_id: &str, chat_id: i64) -> (r: crate::protocol::SendMessageRequest)
    ensures
        is_prompt_request(r, chat_id, *req, request_id@),
{
    crate::protocol::SendMessageRequest {
        chat_id,
        text: build_prompt(req),
        parse_mode: Some(String::from_str("Markdown")),
        reply_markup: Some(build_buttons(request_id)),
    }
}

/// The notice that an approval for `tool` timed out.
pub open spec fn timeout_notice_text(tool: Seq<char>) -> Seq<char> {
    "\u{23F0} Approval for `"@ + tool + "` timed out; auto-denied."@
}

/// The `sendMessage` request telling `chat_id` that the approval for
/// `tool_name` timed out.
pub fn timeout_notice(tool_name: &str, chat_id: i64) -> (r: crate::protocol::SendMessageRequest)
    ensures
        r.chat_id == chat_id,
        r.text@ == timeout_notice_text(tool_name@),
        opt_text(r.parse_mode) == Some("Markdown"@),
        r.reply_markup.is_none(),
{
    let mut text = String::from_str("\u{23F0} Approval for `");
    text.append(tool_name);
    text.append("` timed out; auto-denied.");
    crate::protocol::SendMessageRequest {
        chat_id,
        text,
        parse_mode: Some(String::from_str("Markdown")),
        reply_markup: None,
    }
}

/// Where one approval stands.
#[derive(Debug, Clone, Copy, PartialEq, Eq, Structural)]
pub enum ApprovalStage {
    /// Registered in the pending table; no prompt yet.
    Registered,
    /// The prompt is being sent.
    Prompting,
    /// The prompt went out; waiting for the reply or the timeout.
    Waiting,
    /// Finished with this decision.
    Decided(ApprovalDecision),
}

/// What the caller does next for an approval.
#[derive(Debug, Clone)]
pub enum ApprovalStep {
    /// Send this prompt, then report whether it went out.
    SendPrompt(crate::protocol::SendMessageRequest),
    /// Wait for the reply, up to the timeout, then report the outcome.
    AwaitReply,
    /// Send the timeout notice (`timeout_notice`) to the chat, if one can
    /// be found; the approval is denied.
    NotifyTimeout,
    /// The approval is over with this decision.
    Finish(ApprovalDecision),
}

/// How waiting for the reply ended.
#[derive(Debug, Clone, Copy, PartialEq, Eq, Structural)]
pub enum WaitOutcome {
    /// The reply came with this decision.
    Replied(ApprovalDecision),
    /// The reply channel closed without a decision.
    Closed,
    /// No reply within the timeout.
    TimedOut,
}

/// One tool approval: its request id, what it asks, and its stage.
pub struct ApprovalFlow {
    request_id: String,
    request: ApprovalRequest,
    stage: ApprovalStage,
}

impl ApprovalFlow {
    pub closed spec fn id(&self) -> Seq<char> {
        self.request_id@
    }

    pub closed spec fn req(&self) -> ApprovalRequest {
        self.request
    }

    pub closed spec fn stage(&self) -> ApprovalStage {
        self.stage
    }

    /// The request id, to be sent along with the prompt.
    pub fn request_id(&self) -> (r: &str)
        ensures
            r@ == self.id(),
    {
        self.request_id.as_str()
    }

    /// The request this approval asks about.
    pub fn request(&self) -> (r: &ApprovalRequest)
        ensures
            *r == self.req(),
    {
        &self.request
    }

    /// Where this approval stands.
    pub fn current_stage(&self) -> (r: ApprovalStage)
        ensures
            r == self.stage(),
    {
        self.stage
    }

    /// Start an approval: a fresh request id, under which `reply_to` is
    /// registered as pending.
    pub fn begin<T>(pending: &mut Pending<T>, reply_to: T, request: ApprovalRequest) -> (flow: Self)
        requires
        ensures
            flow.stage() == ApprovalStage::Registered,
            flow.req() == request,
            flow.id().len() == 36,
            forall|i: int| 0 <= i < flow.id().len() ==> is_uuid_char(#[trigger] flow.id()[i]),
            final(pending).map() == old(pending).map().insert(flow.id(), reply_to),
            final(pending).order() == old(pending).order().push(flow.id()),
    {
        let request_id = new_request_id();
        pending.insert(request_id.clone(), reply_to);
        ApprovalFlow { request_id, request, stage: ApprovalStage::Registered }
    }

    /// The chat the prompt goes to, if one could be found (a client is
    /// connected, the config loaded and it names an authorized chat). With
    /// none, the approval is denied at once and its request leaves the
    /// pending table, since nothing will wait for a reply.
    pub fn on_prompt_target<T>(&mut self, pending: &mut Pending<T>, chat_id: Option<i64>) -> (step: ApprovalStep)
        requires
            old(self).stage() == ApprovalStage::Registered,
        ensures
            final(self).id() == old(self).id(),
            final(self).req() == old(self).req(),
            match chat_id {
                Some(c) => {
                    &&& final(self).stage() == ApprovalStage::Prompting
                    &&& step matches ApprovalStep::SendPrompt(m) && is_prompt_request(
                        m,
                        c,
                        old(self).req(),
                        old(self).id(),
                    )
                    &&& final(pending).map() == old(pending).map()
                    &&& final(pending).order() == old(pending).order()
                },
                None => {
                    &&& final(self).stage() == ApprovalStage::Decided(ApprovalDecision::Deny)
                    &&& step == ApprovalStep::Finish(ApprovalDecision::Deny)
                    &&& final(pending).map() == old(pending).map().remove(old(self).id())
                    &&& final(pending).order() == old(pending).order().filter(other_than(old(self).id()))
                },
            },
    {
        match chat_id {
            Some(c) => {
                let m = approval_prompt(&self.request, self.request_id.as_str(), c);
                self.stage = ApprovalStage::Prompting;
                ApprovalStep::SendPrompt(m)
            },
            None => {
                let _ = pending.take_by_id(self.request_id.as_str());
                self.stage = ApprovalStage::Decided(ApprovalDecision::Deny);
                ApprovalStep::Finish(ApprovalDecision::Deny)
            },
        }
    }

    /// Whether the prompt went out. If it did not, the request leaves the
    /// pending table and is denied.
    pub fn on_prompt_sent<T>(&mut self, pending: &mut Pending<T>, sent: bool) -> (step: ApprovalStep)
        requires
            old(self).stage() == ApprovalStage::Prompting,
        ensures
            final(self).id() == old(self).id(),
            final(self).req() == old(self).req(),
            sent ==> {
                &&& final(self).stage() == ApprovalStage::Waiting
                &&& step == ApprovalStep::AwaitReply
                &&& final(pending).map() == old(pending).map()
                &&& final(pending).order() == old(pending).order()
            },
            !sent ==> {
                &&& final(self).stage() == ApprovalStage::Decided(ApprovalDecision::Deny)
                &&& step == ApprovalStep::Finish(ApprovalDecision::Deny)
                &&& final(pending).map() == old(pending).map().remove(old(self).id())
                &&& final(pending).order() == old(pending).order().filter(other_than(old(self).id()))
            },
    {
        if sent {
            self.stage = ApprovalStage::Waiting;
            ApprovalStep::AwaitReply
        } else {
            let _ = pending.take_by_id(self.request_id.as_str());
            self.stage = ApprovalStage::Decided(ApprovalDecision::Deny);
            ApprovalStep::Finish(ApprovalDecision::Deny)
        }
    }

    /// How waiting ended. A reply decides; a closed channel or a timeout
    /// denies, and a timeout also asks for the timeout notice. Whatever the
    /// outcome, the request leaves the pending table (so a late reply
    /// resolves nothing).
    pub fn on_wait_outcome<T>(&mut self, pending: &mut Pending<T>, outcome: WaitOutcome) -> (step: ApprovalStep)
        requires
            old(self).stage() == ApprovalStage::Waiting,
        ensures
            final(self).id() == old(self).id(),
            final(self).req() == old(self).req(),
            final(pending).map() == old(pending).map().remove(old(self).id()),
            final(pending).order() == old(pending).order().filter(other_than(old(self).id())),
            match outcome {
                WaitOutcome::Replied(d) => {
                    &&& final(self).stage() == ApprovalStage::Decided(d)
                    &&& step == ApprovalStep::Finish(d)
                },
                WaitOutcome::Closed => {
                    &&& final(self).stage() == ApprovalStage::Decided(ApprovalDecision::Deny)
                    &&& step == ApprovalStep::Finish(ApprovalDecision::Deny)
                },
                WaitOutcome::TimedOut => {
                    &&& final(self).stage() == ApprovalStage::Decided(ApprovalDecision::Deny)
                    &&& step == ApprovalStep::NotifyTimeout
                },
            },
    {
        let _ = pending.take_by_id(self.request_id.as_str());
        match outcome {
            WaitOutcome::Replied(d) => {
                self.stage = ApprovalStage::Decided(d);
                ApprovalStep::Finish(d)
            },
            WaitOutcome::Closed => {
                self.stage = ApprovalStage::Decided(ApprovalDecision::Deny);
                ApprovalStep::Finish(ApprovalDecision::Deny)
            },
            WaitOutcome::TimedOut => {
                self.stage = ApprovalStage::Decided(ApprovalDecision::Deny);
                ApprovalStep::NotifyTimeout
            },
        }
    }
}


proof fn lemma_button_fields(verb: Seq<char>, id: Seq<char>)
    requires
        !verb.contains(':'),
        !id.contains(':'),
    ensures
        callback_fields(button_data(verb, id)) == (Some(verb), Some(id)),
{
    reveal_strlit("tool:");
    reveal_strlit("tool");
    reveal_strlit(":");
    let data = button_data(verb, id);
    assert(data =~= "tool"@ + seq![':'] + (verb + seq![':'] + id));
    assert(!"tool"@.contains(':')) by {
        if "tool"@.contains(':') {
            let i = choose|i: int| 0 <= i < "tool"@.len() && "tool"@[i] == ':';
        }
    }
    crate::text::lemma_split_on_join("tool"@, verb + seq![':'] + id, ':');
    crate::text::lemma_split_on_join(verb, id, ':');
    crate::text::lemma_split_on_single("tool"@, ':');
    crate::text::lemma_split_on_single(verb, ':');
    crate::text::lemma_split_on_single(id, ':');
    let p = split_on(data, ':');
    assert(p =~= seq!["tool"@, verb, id]);
}

proof fn lemma_lower_word(w: Seq<char>)
    requires
        forall|i: int| 0 <= i < w.len() ==> (('a' <= #[trigger] w[i] && w[i] <= 'z') || w[i] == '_' || w[i] == ' '),
    ensures
        lower_text(w) == w,
        !w.contains(':'),
{
    assert(vstd::utf8::is_ascii_chars(w));
    assert(w.map_values(|c: char| crate::text::ascii_lower_char(c)) =~= w);
}

/// Law: the callback data of every button on an approval prompt for
/// request `id` (an id without `:`, as every generated id is) parses back
/// to that request and to the decision the button is labelled with:
/// Approve allows, Allow Session allows for the session, Deny and Deny for
/// Session deny.
pub proof fn law_button_data_round_trip(id: Seq<char>)
    requires
        !id.contains(':'),
    ensures
        callback_target(button_data("allow"@, id)) == Some((ApprovalDecision::Allow, id)),
        callback_target(button_data("allow_session"@, id)) == Some((ApprovalDecision::AllowForSession, id)),
        callback_target(button_data("deny"@, id)) == Some((ApprovalDecision::Deny, id)),
        callback_target(button_data("session"@, id)) == Some((ApprovalDecision::Deny, id)),
        callback_reply(button_data("session"@, id)) == ApprovalReply::DenyForSession,
{
    reveal_strlit("allow");
    reveal_strlit("approve");
    reveal_strlit("yes");
    reveal_strlit("allow_session");
    reveal_strlit("allow session");
    reveal_strlit("deny");
    reveal_strlit("reject");
    reveal_strlit("no");
    reveal_strlit("session");
    lemma_lower_word("allow"@);
    lemma_lower_word("allow_session"@);
    lemma_lower_word("deny"@);
    lemma_lower_word("session"@);
    lemma_button_fields("allow"@, id);
    lemma_button_fields("allow_session"@, id);
    lemma_button_fields("deny"@, id);
    lemma_button_fields("session"@, id);
    assert("session"@ != "approve"@) by {
        assert("session"@[0] != "approve"@[0]);
    }
}

/// Law: a generated request id (made of UUID characters) holds no `:`, so
/// the buttons of its prompt round-trip (`law_button_data_round_trip`).
pub proof fn law_generated_ids_have_no_separator(id: Seq<char>)
    requires
        forall|i: int| 0 <= i < id.len() ==> is_uuid_char(#[trigger] id[i]),
    ensures
        !id.contains(':'),
{
    if id.contains(':') {
        let i = choose|i: int| 0 <= i < id.len() && id[i] == ':';
        assert(is_uuid_char(id[i]));
    }
}


/// Law: the reply depends only on the verb, never on the shape that
/// carried it. For every verb and request id without `:`, the short form
/// `<verb>:<id>` and the full form `tool:<verb>:<id>` both carry that verb
/// and that id, and both stand for the reply the lowercased verb names in
/// the verb table; a bare `<verb>` carries the verb and no id.
pub proof fn law_reply_depends_only_on_verb(verb: Seq<char>, id: Seq<char>)
    requires
        !verb.contains(':'),
        !id.contains(':'),
    ensures
        callback_fields(verb + seq![':'] + id) == (Some(verb), Some(id)),
        callback_fields(button_data(verb, id)) == (Some(verb), Some(id)),
        callback_fields(verb) == (Some(verb), None::<Seq<char>>),
        callback_reply(verb + seq![':'] + id) == verb_reply(lower_text(verb)),
        callback_reply(button_data(verb, id)) == verb_reply(lower_text(verb)),
        callback_reply(verb) == verb_reply(lower_text(verb)),
{
    crate::text::lemma_split_on_join(verb, id, ':');
    crate::text::lemma_split_on_single(verb, ':');
    crate::text::lemma_split_on_single(id, ':');
    assert(split_on(verb + seq![':'] + id, ':') =~= seq![verb, id]);
    lemma_button_fields(verb, id);
}

/// Law: every synonym of the verb table, in any of the three shapes and
/// with any request id without `:`, stands for its reply: `allow`,
/// `approve`, `yes` allow; `allow_session`, `allow session` allow for the
/// session; `deny`, `reject`, `no` deny; `session` denies for the session.
pub proof fn law_verb_synonyms(id: Seq<char>)
    requires
        !id.contains(':'),
    ensures
        forall|w: Seq<char>|
            (w == "allow"@ || w == "approve"@ || w == "yes"@) ==> callback_reply(#[trigger] (w + seq![':'] + id))
                == ApprovalReply::Allow && callback_reply(button_data(w, id)) == ApprovalReply::Allow
                && callback_reply(w) == ApprovalReply::Allow,
        forall|w: Seq<char>|
            (w == "allow_session"@ || w == "allow session"@) ==> callback_reply(#[trigger] (w + seq![':'] + id))
                == ApprovalReply::AllowForSession && callback_reply(button_data(w, id))
                == ApprovalReply::AllowForSession && callback_reply(w) == ApprovalReply::AllowForSession,
        forall|w: Seq<char>|
            (w == "deny"@ || w == "reject"@ || w == "no"@) ==> callback_reply(#[trigger] (w + seq![':'] + id))
                == ApprovalReply::Deny && callback_reply(button_data(w, id)) == ApprovalReply::Deny
                && callback_reply(w) == ApprovalReply::Deny,
        callback_reply("session"@ + seq![':'] + id) == ApprovalReply::DenyForSession,
        callback_reply(button_data("session"@, id)) == ApprovalReply::DenyForSession,
        callback_reply("session"@) == ApprovalReply::DenyForSession,
{
    reveal_strlit("allow");
    reveal_strlit("approve");
    reveal_strlit("yes");
    reveal_strlit("allow_session");
    reveal_strlit("allow session");
    reveal_strlit("deny");
    reveal_strlit("reject");
    reveal_strlit("no");
    reveal_strlit("session");
    lemma_lower_word("allow"@);
    lemma_lower_word("approve"@);
    lemma_lower_word("yes"@);
    lemma_lower_word("allow_session"@);
    lemma_lower_word("allow session"@);
    lemma_lower_word("deny"@);
    lemma_lower_word("reject"@);
    lemma_lower_word("no"@);
    lemma_lower_word("session"@);
    law_reply_depends_only_on_verb("allow"@, id);
    law_reply_depends_only_on_verb("approve"@, id);
    law_reply_depends_only_on_verb("yes"@, id);
    law_reply_depends_only_on_verb("allow_session"@, id);
    law_reply_depends_only_on_verb("allow session"@, id);
    law_reply_depends_only_on_verb("deny"@, id);
    law_reply_depends_only_on_verb("reject"@, id);
    law_reply_depends_only_on_verb("no"@, id);
    law_reply_depends_only_on_verb("session"@, id);
    assert("session"@ != "approve"@) by {
        assert("session"@[0] != "approve"@[0]);
    }
    assert("reject"@ != "allow"@) by {
        assert("reject"@[0] != "allow"@[0]);
    }
    assert("allow_session"@ != "allow session"@) by {
        assert("allow_session"@[5] != "allow session"@[5]);
    }
}

/// Law: the preview is the beginning of the input: its first
/// min(length, 200) characters, each equal to the input's character at
/// the same place.
pub proof fn law_preview_is_input_prefix(input: Seq<char>)
    ensures
        input_preview(input).len() == if input.len() <= 200 { input.len() } else { 200 },
        forall|i: int| 0 <= i < input_preview(input).len() ==> #[trigger] input_preview(input)[i] == input[i],
{
}

/// Law: the prompt for a tool call with a non-empty input shows, right
/// after the tool line, `**Input:** ` and a backquote followed by the
/// input's first min(length, 200) characters.
pub proof fn law_prompt_shows_input(tool: Seq<char>, input: Seq<char>)
    requires
        input.len() > 0,
    ensures
        ({
            let p: int = if input.len() <= 200 { input.len() as int } else { 200 };
            let head = "\u{1F527} **Tool Approval Required**\n\n"@ + "**Tool:** `"@ + tool + "`\n"@;
            let shown = "**Input:** `"@ + input.take(p) + "`\n\n"@;
            &&& prompt_text(tool, input).take(head.len() as int) == head
            &&& prompt_text(tool, input).subrange(head.len() as int, (head.len() + shown.len()) as int) == shown
        }),
{
    let p: int = if input.len() <= 200 { input.len() as int } else { 200 };
    let head = "\u{1F527} **Tool Approval Required**\n\n"@ + "**Tool:** `"@ + tool + "`\n"@;
    let shown = "**Input:** `"@ + input.take(p) + "`\n\n"@;
    let tail = "Tap a button below to approve or deny."@;
    assert(input_preview(input) =~= input.take(p));
    assert(input_preview(input).len() > 0);
    assert(prompt_text(tool, input) == head + shown + tail);
    assert((head + shown + tail).take(head.len() as int) =~= head);
    assert((head + shown + tail).subrange(head.len() as int, (head.len() + shown.len()) as int) =~= shown);
}

/// Law: the prompt sent for a request is the prompt of that same request:
/// when its input is not empty, the sent text shows `**Input:** ` and a
/// backquote followed by the input's first min(length, 200) characters,
/// right after the tool line naming the request's tool.
pub proof fn law_sent_prompt_shows_request(
    m: crate::protocol::SendMessageRequest,
    chat_id: i64,
    req: ApprovalRequest,
    id: Seq<char>,
)
    requires
        is_prompt_request(m, chat_id, req, id),
        req.input_json@.len() > 0,
    ensures
        ({
            let input = req.input_json@;
            let p: int = if input.len() <= 200 { input.len() as int } else { 200 };
            let head = "\u{1F527} **Tool Approval Required**\n\n"@ + "**Tool:** `"@ + req.tool_name@ + "`\n"@;
            let shown = "**Input:** `"@ + input.take(p) + "`\n\n"@;
            &&& m.chat_id == chat_id
            &&& m.text@.take(head.len() as int) == head
            &&& m.text@.subrange(head.len() as int, (head.len() + shown.len()) as int) == shown
        }),
{
    law_prompt_shows_input(req.tool_name@, req.input_json@);
}

/// Law: pressing a button of the prompt for a pending request `id` decides
/// it with the button's decision, hands back what was registered for it,
/// and takes the request out of the table.
pub proof fn law_button_press_resolves<T>(m: Map<Seq<char>, T>, id: Seq<char>, reply_to: T)
    requires
        !id.contains(':'),
    ensures
        resolve_result(m.insert(id, reply_to), button_data("allow"@, id)) == (
            Some((ApprovalDecision::Allow, reply_to)),
            m.insert(id, reply_to).remove(id),
        ),
        resolve_result(m.insert(id, reply_to), button_data("allow_session"@, id)) == (
            Some((ApprovalDecision::AllowForSession, reply_to)),
            m.insert(id, reply_to).remove(id),
        ),
        resolve_result(m.insert(id, reply_to), button_data("deny"@, id)) == (
            Some((ApprovalDecision::Deny, reply_to)),
            m.insert(id, reply_to).remove(id),
        ),
        resolve_result(m.insert(id, reply_to), button_data("session"@, id)) == (
            Some((ApprovalDecision::Deny, reply_to)),
            m.insert(id, reply_to).remove(id),
        ),
{
    law_button_data_round_trip(id);
}

/// Law: a request is resolved at most once; resolving the same callback
/// data a second time resolves nothing and changes nothing.
pub proof fn law_resolve_once<T>(m: Map<Seq<char>, T>, data: Seq<char>)
    ensures
        resolve_result(resolve_result(m, data).1, data).0.is_none(),
        resolve_result(resolve_result(m, data).1, data).1 == resolve_result(m, data).1,
{
}

/// Law: once request `id` has left the table (its prompt failed or it timed
/// out), a late reply naming it resolves nothing and changes nothing.
pub proof fn law_late_reply_resolves_nothing<T>(m: Map<Seq<char>, T>, id: Seq<char>, data: Seq<char>)
    requires
        callback_target(data) matches Some((_, i)) && i == id,
    ensures
        resolve_result(m.remove(id), data) == (None::<(ApprovalDecision, T)>, m.remove(id)),
{
}

/// Law: when the only request of an approval is withdrawn (its approval
/// was decided, whichever way), nothing is left pending: `has_pending`
/// goes back to false.
pub proof fn law_decided_approval_leaves_nothing_pending<T>(id: Seq<char>, reply_to: T)
    ensures
        Map::<Seq<char>, T>::empty().insert(id, reply_to).remove(id).is_empty(),
{
    assert(Map::<Seq<char>, T>::empty().insert(id, reply_to).remove(id) =~= Map::<Seq<char>, T>::empty());
}

/// Law: a registered request is pending until it is taken out.
pub proof fn law_registered_is_pending<T>(m: Map<Seq<char>, T>, id: Seq<char>, reply_to: T)
    ensures
        !m.insert(id, reply_to).is_empty(),
        m.insert(id, reply_to).dom().contains(id),
        !m.insert(id, reply_to).remove(id).dom().contains(id),
{
    assert(m.insert(id, reply_to).dom().contains(id));
}

} // verus!
