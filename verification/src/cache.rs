//! The answer cache: each queried name maps to the last successful
//! reply for it, gated at read time by the stored TTL.
//!
//! TTL policy: the TTL is treated as a static property of the stored
//! reply, checked at read time — an entry whose first answer carries a
//! positive TTL stays valid on every later read, and one stored with a
//! zero TTL is never returned. No insertion timestamp is kept and no
//! countdown happens; a deployment that needs real expiry should wrap
//! the cache and evict on a clock of its own.

use vstd::prelude::*;
use crate::message::{Message, MessageView};

verus! {

/// A queried name together with the reply message stored for it.
pub struct DnsQuery {
    pub dns_name: String,
    pub message: Message,
}

/// The mathematical value of a `DnsQuery`.
pub struct DnsQueryView {
    pub dns_name: Seq<char>,
    pub message: MessageView,
}

impl View for DnsQuery {
    type V = DnsQueryView;

    open spec fn view(&self) -> DnsQueryView {
        DnsQueryView { dns_name: self.dns_name@, message: self.message@ }
    }
}

impl Clone for DnsQuery {
    fn clone(&self) -> (r: Self)
        ensures
            r@ == self@,
    {
        DnsQuery { dns_name: self.dns_name.clone(), message: self.message.clone() }
    }
}

/// The entry stored under `name`: the first slot whose key matches,
/// or nothing.
pub open spec fn stored_query(entries: Seq<(String, DnsQuery)>, name: Seq<char>) -> Option<
    DnsQuery,
>
    decreases entries.len(),
{
    if entries.len() == 0 {
        None
    } else if entries[0].0@ == name {
        Some(entries[0].1)
    } else {
        stored_query(entries.drop_first(), name)
    }
}

/// Replacing the slot at the first occurrence of a key changes only
/// that key's entry.
proof fn lemma_stored_query_update(
    entries: Seq<(String, DnsQuery)>,
    i: int,
    slot: (String, DnsQuery),
    name: Seq<char>,
)
    requires
        0 <= i < entries.len(),
        entries[i].0@ == slot.0@,
        forall|j: int| 0 <= j < i ==> entries[j].0@ != slot.0@,
    ensures
        stored_query(entries.update(i, slot), name) == (if name == slot.0@ {
            Some(slot.1)
        } else {
            stored_query(entries, name)
        }),
    decreases i,
{
    if i == 0 {
        assert(entries.update(0, slot)[0] == slot);
        assert(entries.update(0, slot).drop_first() =~= entries.drop_first());
    } else {
        assert(entries.update(i, slot)[0] == entries[0]);
        assert(entries.update(i, slot).drop_first() =~= entries.drop_first().update(i - 1, slot));
        assert forall|j: int| 0 <= j < i - 1 implies entries.drop_first()[j].0@ != slot.0@ by {
            assert(entries.drop_first()[j] == entries[j + 1]);
        }
        lemma_stored_query_update(entries.drop_first(), i - 1, slot, name);
    }
}

/// Appending a slot with a fresh key changes only that key's entry.
proof fn lemma_stored_query_push(
    entries: Seq<(String, DnsQuery)>,
    slot: (String, DnsQuery),
    name: Seq<char>,
)
    ensures
        stored_query(entries.push(slot), name) == (match stored_query(entries, name) {
            Some(q) => Some(q),
            None => if slot.0@ == name {
                Some(slot.1)
            } else {
                None
            },
        }),
    decreases entries.len(),
{
    if entries.len() == 0 {
        assert(entries.push(slot)[0] == slot);
        assert(entries.push(slot).drop_first() =~= Seq::<(String, DnsQuery)>::empty());
        assert(stored_query(Seq::<(String, DnsQuery)>::empty(), name) is None);
        assert(stored_query(entries, name) is None);
    } else {
        assert(entries.push(slot)[0] == entries[0]);
        assert(entries.push(slot).drop_first() =~= entries.drop_first().push(slot));
        lemma_stored_query_push(entries.drop_first(), slot, name);
        assert(stored_query(entries.push(slot), name) == (if entries[0].0@ == name {
            Some(entries[0].1)
        } else {
            stored_query(entries.drop_first().push(slot), name)
        }));
        assert(stored_query(entries, name) == (if entries[0].0@ == name {
            Some(entries[0].1)
        } else {
            stored_query(entries.drop_first(), name)
        }));
    }
}

/// A name with no matching slot has no entry.
proof fn lemma_stored_query_none(entries: Seq<(String, DnsQuery)>, name: Seq<char>)
    requires
        forall|j: int| 0 <= j < entries.len() ==> entries[j].0@ != name,
    ensures
        stored_query(entries, name) is None,
    decreases entries.len(),
{
    if entries.len() > 0 {
        assert forall|j: int| 0 <= j < entries.len() - 1 implies entries.drop_first()[j].0@
            != name by {
            assert(entries.drop_first()[j] == entries[j + 1]);
        }
        lemma_stored_query_none(entries.drop_first(), name);
    }
}

/// The answer cache, keyed by queried name. Entries are overwritten on
/// every successful answer and read back TTL-gated.
pub struct DnsCache {
    pub entries: Vec<(String, DnsQuery)>,
}

impl DnsCache {
    /// An empty cache: no name has an entry.
    pub fn new() -> (r: DnsCache)
        ensures
            forall|name: Seq<char>| stored_query(r.entries@, name) is None,
    {
        DnsCache { entries: Vec::new() }
    }

    /// Returns the entry stored under `name` only if its message has a
    /// first answer whose TTL is greater than zero; otherwise nothing.
    pub fn get(&self, name: &String) -> (r: Option<DnsQuery>)
        ensures
            ({
                let st = stored_query(self.entries@, name@);
                match st {
                    None => r is None,
                    Some(q) => if q.message.answers@.len() > 0 && q.message.answers@[0].ttl > 0 {
                        match r {
                            Some(rq) => rq@ == q@,
                            None => false,
                        }
                    } else {
                        r is None
                    },
                }
            }),
    {
        let ghost entries = self.entries@;
        proof {
            assert(entries.skip(0) =~= entries);
        }
        let mut i: usize = 0;
        while i < self.entries.len()
            invariant
                entries == self.entries@,
                i <= entries.len(),
                stored_query(entries, name@) == stored_query(entries.skip(i as int), name@),
            decreases entries.len() - i,
        {
            let hit = self.entries[i].0 == *name;
            if hit {
                proof {
                    assert(entries.skip(i as int)[0] == entries[i as int]);
                }
                let q = &self.entries[i].1;
                if q.message.answers.len() > 0 && q.message.answers[0].ttl > 0 {
                    return Some(q.clone());
                }
                return None;
            }
            proof {
                assert(entries.skip(i as int)[0] == entries[i as int]);
                assert(entries.skip(i as int).drop_first() =~= entries.skip(i + 1));
            }
            i = i + 1;
        }
        proof {
            assert(entries.skip(entries.len() as int) =~= Seq::<(String, DnsQuery)>::empty());
        }
        None
    }

    /// Stores `msg` under `name`, unconditionally replacing any prior
    /// entry for that name and leaving every other name's entry as it
    /// was.
    pub fn set(&mut self, name: &str, msg: &DnsQuery)
        ensures
            stored_query(final(self).entries@, name@) matches Some(q) && q@ == msg@,
            forall|other: Seq<char>|
                other != name@ ==> stored_query(final(self).entries@, other) == stored_query(
                    old(self).entries@,
                    other,
                ),
    {
        let key: String = name.to_owned();
        let stored = msg.clone();
        let mut i: usize = 0;
        let mut found: bool = false;
        let mut found_at: usize = 0;
        while i < self.entries.len()
            invariant_except_break
                self == old(self),
                key@ == name@,
                i <= self.entries@.len(),
                !found,
                forall|j: int| 0 <= j < i ==> self.entries@[j].0@ != name@,
            ensures
                self == old(self),
                key@ == name@,
                found ==> found_at < self.entries@.len() && self.entries@[
                    found_at as int
                ].0@ == name@ && (forall|j: int|
                    0 <= j < found_at ==> self.entries@[j].0@ != name@),
                !found ==> forall|j: int|
                    0 <= j < self.entries@.len() ==> self.entries@[j].0@ != name@,
            decreases self.entries@.len() - i,
        {
            if self.entries[i].0 == key {
                found = true;
                found_at = i;
                break ;
            }
            i = i + 1;
        }
        if found {
            let ghost old_entries = self.entries@;
            let slot = (key, stored);
            proof {
                lemma_stored_query_update(old_entries, found_at as int, slot, name@);
                assert forall|other: Seq<char>| other != name@ implies stored_query(
                    old_entries.update(found_at as int, slot),
                    other,
                ) == stored_query(old_entries, other) by {
                    lemma_stored_query_update(old_entries, found_at as int, slot, other);
                }
            }
            self.entries[found_at] = slot;
        } else {
            let ghost old_entries = self.entries@;
            let slot = (key, stored);
            proof {
                lemma_stored_query_none(old_entries, name@);
                lemma_stored_query_push(old_entries, slot, name@);
                assert forall|other: Seq<char>| other != name@ implies stored_query(
                    old_entries.push(slot),
                    other,
                ) == stored_query(old_entries, other) by {
                    lemma_stored_query_push(old_entries, slot, other);
                }
            }
            self.entries.push(slot);
        }
    }
}

} // verus!
