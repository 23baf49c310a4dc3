use vstd::prelude::*;

use crate::error::{is_error, ApiError, ApiResult, ErrorKind};
use crate::ids::{is_hyphenated_uuid, new_uuid_text};
use crate::text::str_eq;

verus! {

/// How long a ticket stays valid: 60 seconds.
pub const TICKET_TTL_MILLIS: i64 = 60000;

/// A one-time ticket: its key, what it grants, and when it expires
/// (milliseconds since the Unix epoch).
#[derive(Debug)]
pub struct Ticket<T> {
    pub key: String,
    pub value: T,
    pub expires_at: i64,
}

/// The short-lived tickets that attach a websocket to a terminal, a VNC
/// session or a command log. A ticket is used at most once and only before
/// it expires.
#[derive(Debug)]
pub struct TicketStore<T> {
    pub entries: Vec<Ticket<T>>,
}

/// Holds when the store holds a ticket with key `key`, value `value` and
/// expiry `expires_at`.
pub open spec fn holds<T>(entries: Seq<Ticket<T>>, key: Seq<char>, value: T, expires_at: i64) -> bool {
    exists|i: int|
        0 <= i < entries.len() && (#[trigger] entries[i]).key@ == key && entries[i].value == value
            && entries[i].expires_at == expires_at
}

/// Holds when the store holds a ticket with key `key` that is still valid at
/// `now`.
pub open spec fn live<T>(entries: Seq<Ticket<T>>, key: Seq<char>, now: i64) -> bool {
    exists|i: int|
        0 <= i < entries.len() && (#[trigger] entries[i]).key@ == key && entries[i].expires_at > now
}

/// Holds when the store holds a ticket with key `key` that grants `value`
/// and is still valid at `now`.
pub open spec fn grants<T>(entries: Seq<Ticket<T>>, key: Seq<char>, value: T, now: i64) -> bool {
    exists|i: int|
        0 <= i < entries.len() && (#[trigger] entries[i]).key@ == key && entries[i].value == value
            && entries[i].expires_at > now
}

/// No two tickets share a key.
pub open spec fn keys_unique<T>(entries: Seq<Ticket<T>>) -> bool {
    forall|i: int, j: int|
        0 <= i < entries.len() && 0 <= j < entries.len() && i != j ==> (#[trigger] entries[i]).key@
            != (#[trigger] entries[j]).key@
}

/// Removing a ticket keeps the keys unique.
pub proof fn lemma_remove_keeps_unique<T>(s: Seq<Ticket<T>>, i: int)
    requires
        keys_unique(s),
        0 <= i < s.len(),
    ensures
        keys_unique(s.remove(i)),
        forall|k: Seq<char>, v: T, e: i64|
            holds(s.remove(i), k, v, e) <==> (holds(s, k, v, e) && !(k == s[i].key@ && v == s[i].value
                && e == s[i].expires_at)),
{
    let r = s.remove(i);
    assert forall|a: int, b: int|
        0 <= a < r.len() && 0 <= b < r.len() && a != b implies (#[trigger] r[a]).key@
        != (#[trigger] r[b]).key@ by {
        let sa = if a < i { a } else { a + 1 };
        let sb = if b < i { b } else { b + 1 };
        assert(r[a] == s[sa]);
        assert(r[b] == s[sb]);
    }
    assert forall|k: Seq<char>, v: T, e: i64|
        holds(r, k, v, e) <==> (holds(s, k, v, e) && !(k == s[i].key@ && v == s[i].value && e
            == s[i].expires_at)) by {
        if holds(r, k, v, e) {
            let a = choose|a: int|
                0 <= a < r.len() && (#[trigger] r[a]).key@ == k && r[a].value == v && r[a].expires_at
                    == e;
            let sa = if a < i { a } else { a + 1 };
            assert(r[a] == s[sa]);
            assert(sa != i);
            assert(s[sa].key@ != s[i].key@);
        }
        if holds(s, k, v, e) && !(k == s[i].key@ && v == s[i].value && e == s[i].expires_at) {
            let a = choose|a: int|
                0 <= a < s.len() && (#[trigger] s[a]).key@ == k && s[a].value == v && s[a].expires_at
                    == e;
            assert(a != i);
            let ra = if a < i { a } else { a - 1 };
            assert(r[ra] == s[a]);
        }
    }
}

impl<T> TicketStore<T> {
    pub open spec fn wf(&self) -> bool {
        keys_unique(self.entries@)
    }

    /// An empty store.
    pub fn new() -> (s: Self)
        ensures
            s.wf(),
            s.entries@.len() == 0,
    {
        TicketStore { entries: Vec::new() }
    }

    /// The position of the ticket with key `key`.
    fn position(&self, key: &str) -> (r: Option<usize>)
        ensures
            match r {
                Some(i) => i < self.entries@.len() && self.entries@[i as int].key@ == key@,
                None => forall|i: int|
                    0 <= i < self.entries@.len() ==> (#[trigger] self.entries@[i]).key@ != key@,
            },
    {
        let mut i: usize = 0;
        while i < self.entries.len()
            invariant
                i <= self.entries@.len(),
                forall|j: int| 0 <= j < i ==> (#[trigger] self.entries@[j]).key@ != key@,
            decreases self.entries.len() - i,
        {
            if str_eq(self.entries[i].key.as_str(), key) {
                return Some(i);
            }
            i = i + 1;
        }
        None
    }

    /// Stores a ticket; a ticket with the same key is replaced.
    pub fn issue(&mut self, key: String, value: T, expires_at: i64)
        requires
            old(self).wf(),
        ensures
            final(self).wf(),
            holds(final(self).entries@, key@, value, expires_at),
            forall|k: Seq<char>, v: T, e: i64|
                k != key@ ==> (holds(final(self).entries@, k, v, e) <==> holds(
                    old(self).entries@,
                    k,
                    v,
                    e,
                )),
    {
        let ghost before = self.entries@;
        match self.position(key.as_str()) {
            Some(i) => {
                proof {
                    lemma_remove_keeps_unique(before, i as int);
                }
                let _ = self.entries.remove(i);
            },
            None => {},
        }
        let ghost mid = self.entries@;
        assert(forall|j: int| 0 <= j < mid.len() ==> (#[trigger] mid[j]).key@ != key@) by {
            assert forall|j: int| 0 <= j < mid.len() implies (#[trigger] mid[j]).key@ != key@ by {
                if mid.len() < before.len() {
                    let i = choose|i: int| 0 <= i < before.len() && before[i].key@ == key@ && mid
                        == before.remove(i);
                    let sj = if j < i { j } else { j + 1 };
                    assert(mid[j] == before[sj]);
                    assert(sj != i);
                }
            }
        }
        self.entries.push(Ticket { key, value, expires_at });
        proof {
            let fin = self.entries@;
            assert(fin == mid.push(fin.last()));
            assert(fin[mid.len() as int].key@ == key@);
            assert forall|a: int, b: int|
                0 <= a < fin.len() && 0 <= b < fin.len() && a != b implies (#[trigger] fin[a]).key@
                != (#[trigger] fin[b]).key@ by {
                if a < mid.len() && b < mid.len() {
                    assert(fin[a] == mid[a] && fin[b] == mid[b]);
                } else if a < mid.len() {
                    assert(fin[a] == mid[a]);
                } else if b < mid.len() {
                    assert(fin[b] == mid[b]);
                }
            }
            assert(holds(fin, key@, value, expires_at)) by {
                assert(fin[mid.len() as int].value == value);
            }
            assert forall|k: Seq<char>, v: T, e: i64|
                k != key@ implies (holds(fin, k, v, e) <==> holds(mid, k, v, e)) by {
                if holds(fin, k, v, e) {
                    let a = choose|a: int|
                        0 <= a < fin.len() && (#[trigger] fin[a]).key@ == k && fin[a].value == v
                            && fin[a].expires_at == e;
                    assert(a < mid.len());
                    assert(fin[a] == mid[a]);
                }
                if holds(mid, k, v, e) {
                    let a = choose|a: int|
                        0 <= a < mid.len() && (#[trigger] mid[a]).key@ == k && mid[a].value == v
                            && mid[a].expires_at == e;
                    assert(fin[a] == mid[a]);
                }
            }
        }
    }

    /// Issues a ticket under a fresh random key, valid for
    /// `TICKET_TTL_MILLIS` after `now`; gives the key and the expiry.
    pub fn issue_fresh(&mut self, value: T, now: i64) -> (r: (String, i64))
        requires
            old(self).wf(),
            now <= i64::MAX - TICKET_TTL_MILLIS,
        ensures
            final(self).wf(),
            is_hyphenated_uuid(r.0@),
            r.1 == now + TICKET_TTL_MILLIS,
            holds(final(self).entries@, r.0@, value, r.1),
            forall|k: Seq<char>, v: T, e: i64|
                k != r.0@ ==> (holds(final(self).entries@, k, v, e) <==> holds(
                    old(self).entries@,
                    k,
                    v,
                    e,
                )),
    {
        let key = new_uuid_text();
        let expires_at = now + TICKET_TTL_MILLIS;
        let answer = key.clone();
        self.issue(key, value, expires_at);
        (answer, expires_at)
    }

    /// Drops every ticket that has expired at `now`.
    pub fn purge_expired(&mut self, now: i64)
        requires
            old(self).wf(),
        ensures
            final(self).wf(),
            forall|k: Seq<char>, v: T, e: i64|
                holds(final(self).entries@, k, v, e) <==> (holds(old(self).entries@, k, v, e) && e
                    > now),
    {
        let ghost before = self.entries@;
        let mut j = self.entries.len();
        while j > 0
            invariant
                j <= self.entries@.len(),
                keys_unique(self.entries@),
                forall|a: int| j <= a < self.entries@.len() ==> (#[trigger] self.entries@[a]).expires_at > now,
                forall|k: Seq<char>, v: T, e: i64|
                    (holds(self.entries@, k, v, e) && (e > now || exists|a: int|
                        0 <= a < j && (#[trigger] self.entries@[a]).key@ == k && self.entries@[a].value
                            == v && self.entries@[a].expires_at == e)) <==> (holds(before, k, v, e)
                        && (e > now || exists|a: int|
                        0 <= a < j && (#[trigger] self.entries@[a]).key@ == k && self.entries@[a].value
                            == v && self.entries@[a].expires_at == e)),
            decreases j,
        {
            j = j - 1;
            if self.entries[j].expires_at <= now {
                let ghost cur = self.entries@;
                proof {
                    lemma_remove_keeps_unique(cur, j as int);
                }
                let _ = self.entries.remove(j);
                proof {
                    let fin = self.entries@;
                    assert forall|a: int| j <= a < fin.len() implies (#[trigger] fin[a]).expires_at > now by {
                        assert(fin[a] == cur[a + 1]);
                    }
                    assert forall|a: int| 0 <= a < j implies #[trigger] fin[a] == cur[a] by {}
                }
            }
        }
        proof {
            let fin = self.entries@;
            assert forall|k: Seq<char>, v: T, e: i64|
                holds(fin, k, v, e) <==> (holds(before, k, v, e) && e > now) by {
                if holds(fin, k, v, e) {
                    let a = choose|a: int|
                        0 <= a < fin.len() && (#[trigger] fin[a]).key@ == k && fin[a].value == v
                            && fin[a].expires_at == e;
                    assert(fin[a].expires_at > now);
                }
            }
        }
    }

    /// Uses the ticket `key` at `now`: expired tickets are dropped first;
    /// then the ticket is removed and what it grants is returned, or the
    /// unauthorized error `message` when there is no such live ticket.
    #[verifier::spinoff_prover]
    #[verifier::rlimit(40)]
    pub fn consume(&mut self, key: &str, now: i64, message: &str) -> (r: ApiResult<T>)
        requires
            old(self).wf(),
        ensures
            final(self).wf(),
            r is Ok <==> live(old(self).entries@, key@, now),
            r matches Ok(v) ==> grants(old(self).entries@, key@, v, now),
            r matches Err(e) ==> is_error(e, ErrorKind::Unauthorized, message@),
            forall|k: Seq<char>, v: T, e: i64|
                holds(final(self).entries@, k, v, e) <==> (holds(old(self).entries@, k, v, e) && e
                    > now && k != key@),
    {
        let ghost before = self.entries@;
        self.purge_expired(now);
        let ghost mid = self.entries@;
        match self.position(key) {
            None => {
                proof {
                    if live(before, key@, now) {
                        let a = choose|a: int|
                            0 <= a < before.len() && (#[trigger] before[a]).key@ == key@
                                && before[a].expires_at > now;
                        assert(holds(before, key@, before[a].value, before[a].expires_at));
                        assert(holds(mid, key@, before[a].value, before[a].expires_at));
                        let m = choose|m: int|
                            0 <= m < mid.len() && (#[trigger] mid[m]).key@ == key@ && mid[m].value
                                == before[a].value && mid[m].expires_at == before[a].expires_at;
                        assert(mid[m].key@ != key@);
                    }
                    assert forall|k: Seq<char>, v: T, e: i64|
                        holds(mid, k, v, e) <==> (holds(before, k, v, e) && e > now && k != key@) by {
                        if holds(mid, k, v, e) {
                            let m = choose|m: int|
                                0 <= m < mid.len() && (#[trigger] mid[m]).key@ == k && mid[m].value == v
                                    && mid[m].expires_at == e;
                            assert(mid[m].key@ != key@);
                        }
                    }
                }
                Err(ApiError::unauthorized(message))
            },
            Some(i) => {
                proof {
                    lemma_remove_keeps_unique(mid, i as int);
                }
                let t = self.entries.remove(i);
                proof {
                    assert(mid[i as int] == t);
                    assert(holds(mid, key@, t.value, t.expires_at));
                    assert(t.expires_at > now && holds(before, key@, t.value, t.expires_at));
                    assert(live(before, key@, now)) by {
                        let a = choose|a: int|
                            0 <= a < before.len() && (#[trigger] before[a]).key@ == key@ && before[a].value
                                == t.value && before[a].expires_at == t.expires_at;
                    }
                    // Keys are unique, so no other ticket of `mid` has this key.
                    assert forall|k: Seq<char>, v: T, e: i64|
                        holds(self.entries@, k, v, e) implies k != key@ by {
                        let fin = self.entries@;
                        let a = choose|a: int|
                            0 <= a < fin.len() && (#[trigger] fin[a]).key@ == k && fin[a].value == v
                                && fin[a].expires_at == e;
                        let sa = if a < i { a } else { a + 1 };
                        assert(fin[a] == mid[sa]);
                        assert(sa != i);
                    }
                    assert forall|k: Seq<char>, v: T, e: i64|
                        holds(self.entries@, k, v, e) <==> (holds(before, k, v, e) && e > now && k
                            != key@) by {
                        if k != key@ {
                            assert(!(k == mid[i as int].key@));
                        }
                    }
                }
                let value = t.value;
                assert(grants(before, key@, value, now)) by {
                    let a = choose|a: int|
                        0 <= a < before.len() && (#[trigger] before[a]).key@ == key@ && before[a].value
                            == t.value && before[a].expires_at == t.expires_at;
                    assert(before[a].expires_at > now);
                }
                Ok(value)
            },
        }
    }
}

/// Law: a ticket grants access once: after it is consumed, consuming it
/// again fails, whatever the time.
pub proof fn law_ticket_is_single_use<T>(before: Seq<Ticket<T>>, after: Seq<Ticket<T>>, key: Seq<char>, now: i64, later: i64)
    requires
        forall|k: Seq<char>, v: T, e: i64|
            holds(after, k, v, e) <==> (holds(before, k, v, e) && e > now && k != key),
    ensures
        !live(after, key, later),
{
    if live(after, key, later) {
        let a = choose|a: int| 0 <= a < after.len() && (#[trigger] after[a]).key@ == key && after[a].expires_at > later;
        assert(holds(after, key, after[a].value, after[a].expires_at));
    }
}

/// Law: a ticket issued with expiry `expires_at` can be consumed at any
/// time before it, and at none after it.
pub proof fn law_ticket_valid_until_expiry<T>(entries: Seq<Ticket<T>>, key: Seq<char>, value: T, expires_at: i64, now: i64)
    requires
        keys_unique(entries),
        holds(entries, key, value, expires_at),
    ensures
        live(entries, key, now) <==> now < expires_at,
{
    let a = choose|a: int|
        0 <= a < entries.len() && (#[trigger] entries[a]).key@ == key && entries[a].value == value
            && entries[a].expires_at == expires_at;
    if live(entries, key, now) {
        let b = choose|b: int| 0 <= b < entries.len() && (#[trigger] entries[b]).key@ == key && entries[b].expires_at > now;
        assert(a == b);
    }
}

} // verus!
