//! The sink selector: a registry of named sinks with one active selection.
//!
//! Sinks are registered once, under unique names, before events flow;
//! afterwards only the active selection changes. Dispatching a batch
//! forwards it whole, in order, to the sink the selection names; with no
//! selection, or a selection that names no registered sink, the batch is
//! dropped and every sink is left untouched.

use vstd::prelude::*;

use crate::events::InputEvent;
use crate::sink::Sink;

verus! {

/// True when `k` is the name of some registered sink.
pub open spec fn has_key<S>(sinks: Seq<(String, S)>, k: Seq<char>) -> bool {
    exists|i: int| 0 <= i < sinks.len() && sinks[i].0@ == k
}

/// The position of the sink registered under `k`.
pub open spec fn index_of_key<S>(sinks: Seq<(String, S)>, k: Seq<char>) -> int {
    choose|i: int| 0 <= i < sinks.len() && sinks[i].0@ == k
}

/// No two registered sinks share a name.
pub open spec fn distinct_keys<S>(sinks: Seq<(String, S)>) -> bool {
    forall|a: int, b: int| 0 <= a < b < sinks.len() ==> sinks[a].0@ != sinks[b].0@
}

/// What dispatching one batch does to the registry: the selected sink, if
/// any is selected and registered, absorbs the batch by its own
/// `post_emit`; every other sink, and the registry layout, is unchanged.
pub open spec fn dispatch_post<S: Sink>(
    pre_sinks: Seq<(String, S)>,
    active: Option<Seq<char>>,
    batch: Seq<InputEvent>,
    post_sinks: Seq<(String, S)>,
) -> bool {
    match active {
        Some(k) => if has_key(pre_sinks, k) {
            let i = index_of_key(pre_sinks, k);
            &&& post_sinks.len() == pre_sinks.len()
            &&& (forall|j: int|
                0 <= j < pre_sinks.len() && j != i ==> post_sinks[j] == pre_sinks[j])
            &&& post_sinks[i].0 == pre_sinks[i].0
            &&& S::post_emit(pre_sinks[i].1, batch, post_sinks[i].1)
        } else {
            post_sinks == pre_sinks
        },
        None => post_sinks == pre_sinks,
    }
}

/// A registry of named sinks with at most one active selection.
pub struct SinkSelector<S> {
    /// The registered sinks, in registration order, with their names.
    pub sinks: Vec<(String, S)>,
    /// The name of the sink that currently receives dispatched batches.
    pub active: Option<String>,
}

impl<S: Sink> SinkSelector<S> {
    /// Registered names are unique and every sink is well formed.
    pub open spec fn wf(self) -> bool {
        &&& distinct_keys(self.sinks@)
        &&& (forall|i: int| 0 <= i < self.sinks@.len() ==> self.sinks@[i].1.inv())
    }

    /// The active selection as a name, if one was ever set.
    pub open spec fn active_key(self) -> Option<Seq<char>> {
        match self.active {
            Some(k) => Some(k@),
            None => None,
        }
    }

    /// True when a sink is registered under `k`.
    pub open spec fn has_sink(self, k: Seq<char>) -> bool {
        has_key(self.sinks@, k)
    }

    /// An empty selector: no sinks, no selection.
    pub fn new() -> (r: SinkSelector<S>)
        ensures
            r.sinks@ == Seq::<(String, S)>::empty(),
            r.active is None,
            r.wf(),
    {
        SinkSelector { sinks: Vec::new(), active: None }
    }

    /// Register a sink under a new, unused name. Registering over an
    /// existing name is a startup-time programming error, which callers
    /// rule out up front.
    pub fn add_sink(&mut self, key: String, sink: S)
        requires
            old(self).wf(),
            !old(self).has_sink(key@),
            sink.inv(),
        ensures
            final(self).sinks@ == old(self).sinks@.push((key, sink)),
            final(self).active == old(self).active,
            final(self).wf(),
    {
        self.sinks.push((key, sink));
        proof {
            let post = self.sinks@;
            let pre = old(self).sinks@;
            assert forall|a: int, b: int| 0 <= a < b < post.len() implies post[a].0@
                != post[b].0@ by {
                if b < pre.len() {
                } else {
                    assert(post[b].0@ == key@);
                    assert(!has_key(pre, key@));
                    assert(post[a] == pre[a]);
                }
            }
        }
    }

    /// Make `key` the active selection. No check that a sink of that name
    /// exists: activating an unregistered name is a call-site logic
    /// error, and dispatch will simply drop batches until corrected.
    pub fn activate(&mut self, key: String)
        ensures
            final(self).active == Some(key),
            final(self).sinks == old(self).sinks,
    {
        self.active = Some(key);
    }
}

impl<S: Sink> Default for SinkSelector<S> {
    /// Same as [`SinkSelector::new`].
    fn default() -> (r: SinkSelector<S>)
        ensures
            r.sinks@ == Seq::<(String, S)>::empty(),
            r.active is None,
            r.wf(),
    {
        SinkSelector::new()
    }
}

impl<S: Sink> Sink for SinkSelector<S> {
    open spec fn inv(&self) -> bool {
        self.wf()
    }

    /// Dispatching leaves the selection alone and acts on the registry as
    /// [`dispatch_post`] says: the batch reaches the selected sink whole
    /// and in order, or no sink at all.
    open spec fn post_emit(pre: Self, batch: Seq<InputEvent>, post: Self) -> bool {
        &&& post.active == pre.active
        &&& dispatch_post(pre.sinks@, pre.active_key(), batch, post.sinks@)
    }

    fn emit_events(&mut self, events: &Vec<InputEvent>) {
        let key = match &self.active {
            Some(k) => k.clone(),
            None => {
                return;
            },
        };
        let ghost kview = key@;
        let n = self.sinks.len();
        let mut i: usize = 0;
        while i < n
            invariant
                *self == *old(self),
                n == self.sinks@.len(),
                i <= n,
                key@ == kview,
                old(self).active_key() == Some(kview),
                old(self).wf(),
                forall|j: int| 0 <= j < i ==> old(self).sinks@[j].0@ != kview,
            decreases n - i,
        {
            let matched = {
                let p: &(String, S) = &self.sinks[i];
                p.0 == key
            };
            if matched {
                proof {
                    assert(self.sinks@[i as int].0@ == kview);
                    assert(has_key(self.sinks@, kview));
                    let ix = index_of_key::<S>(self.sinks@, kview);
                    assert(0 <= ix < self.sinks@.len() && self.sinks@[ix].0@ == kview);
                    if ix < i as int {
                        assert(self.sinks@[ix].0@ != self.sinks@[i as int].0@);
                    } else if ix > i as int {
                        assert(self.sinks@[i as int].0@ != self.sinks@[ix].0@);
                    }
                    assert(ix == i as int);
                }
                let ghost pre = old(self).sinks@;
                let ghost before = self.sinks@;
                let pair = self.sinks.remove(i);
                let ghost removed = self.sinks@;
                let (pk, mut s) = pair;
                s.emit_events(events);
                self.sinks.insert(i, (pk, s));
                proof {
                    let post = self.sinks@;
                    assert(before == pre);
                    assert(removed == before.remove(i as int));
                    assert(post == removed.insert(i as int, (pk, s)));
                    before.remove_ensures(i as int);
                    removed.insert_ensures(i as int, (pk, s));
                    assert(post.len() == pre.len());
                    assert forall|j: int| 0 <= j < pre.len() && j != i as int implies post[j]
                        == pre[j] by {
                        if j < i as int {
                            assert(post[j] == removed[j]);
                            assert(removed[j] == pre[j]);
                        } else {
                            assert(post[j] == removed[j - 1]);
                            assert(removed[j - 1] == pre[j]);
                        }
                    }
                    assert(post[i as int] == (pk, s));
                    assert(post[i as int].0 == pre[i as int].0);
                }
                return;
            }
            i = i + 1;
        }
        proof {
            assert(!has_key(old(self).sinks@, kview));
        }
    }
}

/// Batch atomicity: a batch dispatched while sink `a` is selected reaches
/// `a` in full and in order, and a subsequent re-selection — which only
/// replaces the active name — cannot take it back or reorder it.
pub proof fn lemma_batch_atomicity<S: Sink>(
    pre: SinkSelector<S>,
    batch: Seq<InputEvent>,
    mid: SinkSelector<S>,
    post: SinkSelector<S>,
    a: Seq<char>,
)
    requires
        pre.wf(),
        pre.active_key() == Some(a),
        pre.has_sink(a),
        SinkSelector::post_emit(pre, batch, mid),
        post.sinks@ == mid.sinks@,
    ensures
        S::post_emit(
            pre.sinks@[index_of_key(pre.sinks@, a)].1,
            batch,
            post.sinks@[index_of_key(pre.sinks@, a)].1,
        ),
        forall|j: int|
            0 <= j < pre.sinks@.len() && j != index_of_key(pre.sinks@, a) ==> post.sinks@[j]
                == pre.sinks@[j],
{
}

/// Drop semantics: dispatching on a selector that was never activated
/// changes nothing — no sink observes any output.
pub proof fn lemma_unselected_drop<S: Sink>(
    pre: SinkSelector<S>,
    batch: Seq<InputEvent>,
    post: SinkSelector<S>,
)
    requires
        pre.active_key() is None,
        SinkSelector::post_emit(pre, batch, post),
    ensures
        post.sinks@ == pre.sinks@,
        post.active is None,
{
}

} // verus!
