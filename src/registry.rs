//! The provider registry: an immutable mapping from provider key to the
//! handler that verifies and parses that provider's webhooks.
use std::sync::Arc;
use vstd::prelude::*;

use crate::keyed::{keyed_map, lemma_keyed_map_keys, lemma_keyed_map_value, unique_keys};
use crate::model::{InboundMessage, SmsError};

verus! {

/// Header list as received: ordered (name, value) pairs, duplicates kept.
pub type Headers = Vec<(String, String)>;

/// Provider-agnostic inbound webhook interface, implemented by each vendor.
pub trait InboundWebhook {
    /// Stable provider key, e.g. "plivo".
    fn provider(&self) -> &'static str;

    /// Parse the incoming payload (headers and raw body) into a normalized message.
    fn parse_inbound(&self, headers: &Headers, body: &[u8]) -> Result<InboundMessage, SmsError>;

    /// Optional signature verification (none by default).
    fn verify(&self, headers: &Headers, body: &[u8]) -> Result<(), SmsError> {
        Ok(())
    }
}

proof fn lemma_same_keys_same_map<H>(a: Seq<(String, Arc<H>)>, b: Seq<(String, Arc<H>)>)
    requires
        a.len() == b.len(),
        forall|j: int| 0 <= j < a.len() ==> (#[trigger] a[j]).0@ == b[j].0@ && a[j].1 == b[j].1,
    ensures
        keyed_map(a) == keyed_map(b),
        unique_keys(b) ==> unique_keys(a),
    decreases a.len(),
{
    if a.len() > 0 {
        lemma_same_keys_same_map(a.drop_last(), b.drop_last());
    }
    assert forall|x: int, y: int| unique_keys(b) && 0 <= x < y < a.len() implies a[x].0@ != a[y].0@ by {
        assert(a[x].0@ == b[x].0@ && a[y].0@ == b[y].0@);
    }
}

/// Registry of inbound handlers keyed by their provider key.
///
/// A registry is a snapshot: `with` builds a new one and leaves the handlers
/// of the old one where they are.
pub struct InboundRegistry<H> {
    entries: Vec<(String, Arc<H>)>,
}

impl<H> InboundRegistry<H> {
    /// No key occurs twice.
    pub closed spec fn wf(&self) -> bool {
        unique_keys(self.entries@)
    }

    /// The mapping from provider key to handler.
    pub closed spec fn view(&self) -> Map<Seq<char>, Arc<H>> {
        keyed_map(self.entries@)
    }
}

impl<H: InboundWebhook> InboundRegistry<H> {
    pub fn new() -> (r: Self)
        ensures
            r.wf(),
            r@ == Map::<Seq<char>, Arc<H>>::empty(),
    {
        InboundRegistry { entries: Vec::new() }
    }

    /// A new registry holding `hook` under the key its `provider` gives, in
    /// place of any handler that was registered under that key.
    pub fn with(self, hook: Arc<H>) -> (r: Self)
        requires
            self.wf(),
        ensures
            r.wf(),
            exists|key: Seq<char>| r@ == self@.insert(key, hook),
    {
        let key = hook.provider();
        self.with_key(key, hook)
    }

    /// A new registry holding `hook` under `key`, in place of any handler
    /// that was registered under that key.
    pub fn with_key(self, key: &str, hook: Arc<H>) -> (r: Self)
        requires
            self.wf(),
        ensures
            r.wf(),
            r@ == self@.insert(key@, hook),
    {
        let name = String::from_str(key);
        let n = self.entries.len();
        let mut out: Vec<(String, Arc<H>)> = Vec::new();
        let mut i: usize = 0;
        while i < n
            invariant
                self.wf(),
                n == self.entries@.len(),
                i <= n,
                name@ == key@,
                keyed_map(out@) == keyed_map(self.entries@.subrange(0, i as int)).remove(name@),
                forall|j: int| 0 <= j < out@.len() ==> #[trigger] out@[j].0@ != name@,
                forall|j: int|
                    0 <= j < out@.len() ==> exists|m: int|
                        0 <= m < i && #[trigger] out@[j].0@ == self.entries@[m].0@,
                forall|a: int, b: int| 0 <= a < b < out@.len() ==> out@[a].0@ != out@[b].0@,
            decreases n - i,
        {
            let entry_key = &self.entries[i].0;
            let entry_hook = &self.entries[i].1;
            let ghost prev = self.entries@.subrange(0, i as int);
            let ghost next = self.entries@.subrange(0, i + 1);
            assert(next.drop_last() =~= prev);
            if *entry_key != name {
                let ghost old_out = out@;
                let k = entry_key.clone();
                let h = entry_hook.clone();
                out.push((k, h));
                assert(out@.drop_last() =~= old_out);
                assert(keyed_map(out@) =~= keyed_map(next).remove(name@));
                assert forall|a: int, b: int| 0 <= a < b < out@.len() implies out@[a].0@
                    != out@[b].0@ by {
                    if b == out@.len() - 1 {
                        let m = choose|m: int| 0 <= m < i && old_out[a].0@ == self.entries@[m].0@;
                        assert(self.entries@[m].0@ != self.entries@[i as int].0@);
                    }
                }
                assert forall|j: int| 0 <= j < out@.len() implies exists|m: int|
                    0 <= m < i + 1 && #[trigger] out@[j].0@ == self.entries@[m].0@ by {
                    if j == out@.len() - 1 {
                        assert(out@[j].0@ == self.entries@[i as int].0@);
                    } else {
                        assert(out@[j] == old_out[j]);
                    }
                }
            } else {
                assert(keyed_map(next).remove(name@) =~= keyed_map(prev).remove(name@));
            }
            i = i + 1;
        }
        assert(self.entries@.subrange(0, n as int) =~= self.entries@);
        let ghost before = out@;
        out.push((name, hook));
        assert(out@.drop_last() =~= before);
        assert(keyed_map(out@) =~= self@.insert(key@, hook));
        InboundRegistry { entries: out }
    }

    /// The handler registered under `provider`, if any.
    pub fn get(&self, provider: &str) -> (r: Option<Arc<H>>)
        requires
            self.wf(),
        ensures
            match r {
                Some(h) => self@.contains_key(provider@) && h == self@[provider@],
                None => !self@.contains_key(provider@),
            },
    {
        let key = String::from_str(provider);
        let n = self.entries.len();
        let mut i: usize = 0;
        while i < n
            invariant
                self.wf(),
                n == self.entries@.len(),
                i <= n,
                key@ == provider@,
                forall|j: int| 0 <= j < i ==> #[trigger] self.entries@[j].0@ != key@,
            decreases n - i,
        {
            if self.entries[i].0 == key {
                proof {
                    lemma_keyed_map_value(self.entries@, i as int);
                }
                return Some(self.entries[i].1.clone());
            }
            i = i + 1;
        }
        proof {
            lemma_keyed_map_keys(self.entries@, provider@);
        }
        None
    }
}

impl<H> Clone for InboundRegistry<H> {
    /// A snapshot copy: the same handlers under the same keys.
    fn clone(&self) -> (r: Self)
        ensures
            r@ == self@,
            self.wf() ==> r.wf(),
    {
        let n = self.entries.len();
        let mut out: Vec<(String, Arc<H>)> = Vec::new();
        let mut i: usize = 0;
        while i < n
            invariant
                n == self.entries@.len(),
                i <= n,
                out@.len() == i,
                forall|j: int|
                    0 <= j < i ==> (#[trigger] out@[j]).0@ == self.entries@[j].0@ && out@[j].1
                        == self.entries@[j].1,
            decreases n - i,
        {
            let k = self.entries[i].0.clone();
            let h = self.entries[i].1.clone();
            out.push((k, h));
            i = i + 1;
        }
        proof {
            lemma_same_keys_same_map(out@, self.entries@);
        }
        InboundRegistry { entries: out }
    }
}

impl<H: InboundWebhook> Default for InboundRegistry<H> {
    fn default() -> (r: Self)
        ensures
            r.wf(),
            r@ == Map::<Seq<char>, Arc<H>>::empty(),
    {
        InboundRegistry::new()
    }
}

/// Registering a handler under a key that is taken gives a snapshot in which
/// the key resolves to the new handler alone and every other key as before;
/// the snapshot it was built from is a value of its own and keeps resolving
/// the key to the handler it held.
pub proof fn lemma_with_replaces<H: InboundWebhook>(
    before: InboundRegistry<H>,
    after: InboundRegistry<H>,
    key: Seq<char>,
    hook: Arc<H>,
)
    requires
        before.wf(),
        after@ == before@.insert(key, hook),
    ensures
        after@.contains_key(key),
        after@[key] == hook,
        forall|k: Seq<char>|
            k != key ==> (#[trigger] after@.contains_key(k) == before@.contains_key(k) && (
            before@.contains_key(k) ==> after@[k] == before@[k])),
{
}

} // verus!
