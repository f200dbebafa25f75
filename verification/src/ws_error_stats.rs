//! WebSocket error counts, grouped by endpoint, URL, kind, close code and message.
use vstd::prelude::*;

verus! {

/// Kinds of WebSocket errors.
#[derive(Debug, Clone, Copy, PartialEq, Eq, Structural, Hash)]
pub enum WsErrKind {
    /// TLS, TCP or HTTP upgrade failure.
    Handshake,
    /// Send or receive failure on an open connection.
    Stream,
    /// No message within the heartbeat timeout.
    HeartbeatTimeout,
    /// The server closed the connection (with a close code).
    ServerClose,
    /// No reply within the match timeout (request-response mode).
    MatchTimeout,
    /// Rendering, serialisation or other internal failure.
    Internal,
}

/// One class of WebSocket errors.  Two keys name the same class when all but
/// the host agree (the host only follows from the URL).
#[derive(Debug, Clone)]
pub struct WsErrKey {
    pub name: String,
    pub url: String,
    pub host: String,
    pub kind: WsErrKind,
    pub close_code: u16,
    pub msg: String,
}

/// Whether two keys name the same class of errors (everything but the host agrees).
pub open spec fn same_error(a: WsErrKey, b: WsErrKey) -> bool {
    &&& a.name@ == b.name@
    &&& a.url@ == b.url@
    &&& a.kind == b.kind
    &&& a.close_code == b.close_code
    &&& a.msg@ == b.msg@
}

impl PartialEq for WsErrKey {
    fn eq(&self, other: &Self) -> (r: bool) {
        self.name == other.name && self.url == other.url && self.kind == other.kind
            && self.close_code == other.close_code && self.msg == other.msg
    }
}

impl vstd::std_specs::cmp::PartialEqSpecImpl for WsErrKey {
    open spec fn obeys_eq_spec() -> bool {
        true
    }

    open spec fn eq_spec(&self, other: &WsErrKey) -> bool {
        same_error(*self, *other)
    }
}

impl WsErrKey {
    /// A copy of the key.
    pub fn duplicate(&self) -> (r: WsErrKey)
        ensures
            r == *self,
    {
        WsErrKey {
            name: self.name.clone(),
            url: self.url.clone(),
            host: self.host.clone(),
            kind: self.kind,
            close_code: self.close_code,
            msg: self.msg.clone(),
        }
    }
}

/// The index of the first entry at or after `i` whose key names the class of `key`.
pub open spec fn find_error(entries: Seq<(WsErrKey, u32)>, key: WsErrKey, i: int) -> Option<int>
    decreases entries.len() - i,
{
    if i < 0 || i >= entries.len() {
        None
    } else if same_error(entries[i].0, key) {
        Some(i)
    } else {
        find_error(entries, key, i + 1)
    }
}

/// How many errors of the class of `key` the entries count.
pub open spec fn error_count(entries: Seq<(WsErrKey, u32)>, key: WsErrKey) -> nat {
    match find_error(entries, key, 0) {
        Some(i) => entries[i].1 as nat,
        None => 0,
    }
}

/// No class of errors has two entries.
pub open spec fn distinct_classes(entries: Seq<(WsErrKey, u32)>) -> bool {
    forall|i: int, j: int|
        0 <= i < j < entries.len() ==> !same_error(#[trigger] entries[i].0, #[trigger] entries[j].0)
}

/// The entries that counting one more error of the class of `key` gives: the
/// class's count goes up by one, or a new entry with count one is added last.
pub open spec fn count_one_more(entries: Seq<(WsErrKey, u32)>, key: WsErrKey) -> Seq<(WsErrKey, u32)> {
    match find_error(entries, key, 0) {
        Some(i) => entries.update(i, (entries[i].0, (entries[i].1 + 1) as u32)),
        None => entries.push((key, 1u32)),
    }
}

/// `find_error` finds the first matching entry, and nothing before it matches.
pub proof fn lemma_find_error(entries: Seq<(WsErrKey, u32)>, key: WsErrKey, i: int)
    requires
        0 <= i,
    ensures
        match find_error(entries, key, i) {
            Some(j) => i <= j < entries.len() && same_error(entries[j].0, key) && forall|m: int|
                i <= m < j ==> !same_error(#[trigger] entries[m].0, key),
            None => forall|m: int| i <= m < entries.len() ==> !same_error(#[trigger] entries[m].0, key),
        },
    decreases entries.len() - i,
{
    if i < entries.len() && !same_error(entries[i].0, key) {
        lemma_find_error(entries, key, i + 1);
    }
}

/// Counted WebSocket errors, one entry per class of errors.
pub struct WsErrorStats {
    entries: Vec<(WsErrKey, u32)>,
}

impl WsErrorStats {
    /// The entries: each class of errors seen with its count, in the order first seen.
    pub closed spec fn entries_view(&self) -> Seq<(WsErrKey, u32)> {
        self.entries@
    }

    /// No counts yet.
    pub fn new() -> (s: Self)
        ensures
            s.entries_view() == Seq::<(WsErrKey, u32)>::empty(),
    {
        WsErrorStats { entries: Vec::new() }
    }

    /// Counts one more error of the class that the arguments name.
    pub fn increment(
        &mut self,
        name: String,
        url: String,
        host: String,
        kind: WsErrKind,
        close_code: u16,
        msg: String,
    )
        requires
            error_count(old(self).entries_view(), WsErrKey { name, url, host, kind, close_code, msg })
                < u32::MAX,
        ensures
            final(self).entries_view() == count_one_more(
                old(self).entries_view(),
                WsErrKey { name, url, host, kind, close_code, msg },
            ),
    {
        let key = WsErrKey { name, url, host, kind, close_code, msg };
        let ghost before = self.entries@;
        let n = self.entries.len();
        let mut found: Option<usize> = None;
        let mut i: usize = 0;
        while i < n
            invariant_except_break
                found is None,
                find_error(before, key, 0) == find_error(before, key, i as int),
            invariant
                n == self.entries@.len(),
                self.entries@ == before,
                i <= n,
            ensures
                match found {
                    Some(j) => j < n && find_error(before, key, 0) == Some(j as int),
                    None => find_error(before, key, 0) is None,
                },
            decreases n - i,
        {
            if self.entries[i].0 == key {
                found = Some(i);
                proof {
                    assert(find_error(before, key, i as int) == Some(i as int));
                }
                break;
            }
            i = i + 1;
        }
        match found {
            Some(i) => {
                let stored = self.entries[i].0.duplicate();
                let count = self.entries[i].1;
                self.entries.set(i, (stored, count + 1));
                proof {
                    assert(self.entries@ == count_one_more(before, key));
                }
            },
            None => {
                self.entries.push((key, 1));
            },
        }
    }

    /// How many errors of the class of `key` were counted.
    pub fn count_of(&self, key: &WsErrKey) -> (r: u32)
        ensures
            r == error_count(self.entries_view(), *key),
    {
        let n = self.entries.len();
        let mut i: usize = 0;
        while i < n
            invariant
                n == self.entries@.len(),
                i <= n,
                find_error(self.entries@, *key, 0) == find_error(self.entries@, *key, i as int),
            decreases n - i,
        {
            if self.entries[i].0 == *key {
                return self.entries[i].1;
            }
            i = i + 1;
        }
        0
    }

    /// A copy of the entries.
    pub fn snapshot(&self) -> (r: Vec<(WsErrKey, u32)>)
        ensures
            r@ == self.entries_view(),
    {
        let mut r: Vec<(WsErrKey, u32)> = Vec::new();
        let n = self.entries.len();
        for i in 0..n
            invariant
                n == self.entries@.len(),
                r@ == self.entries@.take(i as int),
        {
            let key = self.entries[i].0.duplicate();
            r.push((key, self.entries[i].1));
            proof {
                assert(r@ =~= self.entries@.take(i + 1));
            }
        }
        proof {
            assert(self.entries@.take(n as int) =~= self.entries@);
        }
        r
    }
}

/// Counting one more error of a class keeps the classes distinct, raises that
/// class's count by one and leaves every other class's count as it was.
pub proof fn law_increment_counts_one(
    entries: Seq<(WsErrKey, u32)>,
    key: WsErrKey,
    other: WsErrKey,
)
    requires
        distinct_classes(entries),
        error_count(entries, key) < u32::MAX,
    ensures
        distinct_classes(count_one_more(entries, key)),
        error_count(count_one_more(entries, key), key) == error_count(entries, key) + 1,
        !same_error(other, key) ==> error_count(count_one_more(entries, key), other)
            == error_count(entries, other),
{
    let after = count_one_more(entries, key);
    lemma_find_error(entries, key, 0);
    lemma_find_error(entries, other, 0);
    lemma_find_error(after, key, 0);
    lemma_find_error(after, other, 0);
    match find_error(entries, key, 0) {
        Some(i) => {
            assert(after[i].0 == entries[i].0);
            assert forall|a: int, b: int| 0 <= a < b < after.len() implies !same_error(
                #[trigger] after[a].0,
                #[trigger] after[b].0,
            ) by {
                assert(after[a].0 == entries[a].0);
                assert(after[b].0 == entries[b].0);
            }
            if !same_error(other, key) {
                match find_error(entries, other, 0) {
                    Some(j) => {
                        assert(j != i);
                        assert(after[j] == entries[j]);
                    },
                    None => {
                        assert(!same_error(after[i].0, other));
                    },
                }
            }
        },
        None => {
            assert forall|a: int, b: int| 0 <= a < b < after.len() implies !same_error(
                #[trigger] after[a].0,
                #[trigger] after[b].0,
            ) by {
                if b == entries.len() {
                    assert(after[a].0 == entries[a].0);
                } else {
                    assert(after[a].0 == entries[a].0);
                    assert(after[b].0 == entries[b].0);
                }
            }
            assert(after[entries.len() as int].0 == key);
            if !same_error(other, key) {
                match find_error(entries, other, 0) {
                    Some(j) => {
                        assert(after[j] == entries[j]);
                    },
                    None => {
                        assert(!same_error(after[entries.len() as int].0, other));
                    },
                }
            }
        },
    }
}

} // verus!
