//! The per-style cache of fetched model bytes and their compilation outcome.
use vstd::prelude::*;
use crate::error::EngineError;
use crate::registry::{find_style, style_at, style_named, style_url, Style, STYLE_COUNT};

verus! {

/// What the cache holds for one style.
pub struct ModelCacheEntry {
    pub style: Style,
    pub raw_bytes: Vec<u8>,
    /// Whether the bytes compiled into a runnable model; when not, the style
    /// is served by its simulated transform.
    pub compiled: bool,
}

/// The state of one style's slot in the cache. Each fetch handed out is an
/// attempt with its own number, so that the callers waiting on it can learn
/// its outcome.
pub enum Slot {
    /// Nothing cached, and no fetch tried yet.
    Empty,
    /// Fetch attempt `attempt` was handed out and its outcome is awaited.
    Pending { attempt: u64 },
    /// Fetch attempt `attempt` failed; the next caller may try again.
    Failed { attempt: u64 },
    /// The model bytes are cached.
    Loaded(ModelCacheEntry),
}

/// What a caller must do next to have a style's model in the cache.
pub enum LoadStep {
    /// The model is cached: nothing to fetch.
    Ready,
    /// Fetch attempt `attempt`, handed to another caller, is under way: ask
    /// again with `poll_load` once it may have finished.
    Wait { attempt: u64 },
    /// The model must be fetched from `url`, then handed to `complete_load`
    /// together with `attempt`.
    Fetch { style: Style, url: String, attempt: u64 },
}

/// The number of the fetch attempt that follows the state `s`: attempts are
/// numbered from 1, wrapping around after the largest number.
pub open spec fn next_attempt(s: Slot) -> u64 {
    match s {
        Slot::Failed { attempt } => if attempt == u64::MAX {
            0
        } else {
            (attempt + 1) as u64
        },
        _ => 1,
    }
}

/// The cache of model entries, one slot per registered style.
pub struct ModelCache {
    slots: Vec<Slot>,
}

/// The entry held by a slot, if it is loaded.
pub open spec fn slot_entry(s: Slot) -> Option<ModelCacheEntry> {
    match s {
        Slot::Loaded(e) => Some(e),
        _ => None,
    }
}

/// Whether a slot is loaded, as a count.
pub open spec fn loaded_weight(s: Slot) -> nat {
    if s is Loaded {
        1
    } else {
        0
    }
}

/// Number of model bytes that a slot holds.
pub open spec fn byte_weight(s: Slot) -> nat {
    match s {
        Slot::Loaded(e) => e.raw_bytes@.len(),
        _ => 0,
    }
}

/// Number of loaded slots.
pub open spec fn count_loaded(s: Seq<Slot>) -> nat
    decreases s.len(),
{
    if s.len() == 0 {
        0
    } else {
        count_loaded(s.drop_last()) + loaded_weight(s.last())
    }
}

/// Total number of model bytes held in the loaded slots.
pub open spec fn count_bytes(s: Seq<Slot>) -> nat
    decreases s.len(),
{
    if s.len() == 0 {
        0
    } else {
        count_bytes(s.drop_last()) + byte_weight(s.last())
    }
}

proof fn lemma_count_update(s: Seq<Slot>, i: int, v: Slot)
    requires
        0 <= i < s.len(),
    ensures
        count_loaded(s.update(i, v)) + loaded_weight(s[i]) == count_loaded(s) + loaded_weight(v),
        count_bytes(s.update(i, v)) + byte_weight(s[i]) == count_bytes(s) + byte_weight(v),
    decreases s.len(),
{
    let u = s.update(i, v);
    if i == s.len() - 1 {
        assert(u.drop_last() =~= s.drop_last());
    } else {
        lemma_count_update(s.drop_last(), i, v);
        assert(u.drop_last() =~= s.drop_last().update(i, v));
    }
}

proof fn lemma_counts_empty(s: Seq<Slot>)
    requires
        forall|i: int| 0 <= i < s.len() ==> !(#[trigger] s[i] is Loaded),
    ensures
        count_loaded(s) == 0,
        count_bytes(s) == 0,
    decreases s.len(),
{
    if s.len() > 0 {
        lemma_counts_empty(s.drop_last());
    }
}

impl ModelCache {
    /// One slot per style, each loaded slot holding its own style's entry.
    pub closed spec fn wf(&self) -> bool {
        &&& self.slots@.len() == STYLE_COUNT
        &&& forall|i: int|
            0 <= i < STYLE_COUNT && (#[trigger] self.slots@[i]) is Loaded
                ==> self.slots@[i]->Loaded_0.style == style_at(i)
    }

    /// The slot of style `s`.
    pub closed spec fn slot(&self, s: Style) -> Slot {
        self.slots@[s.index_spec()]
    }

    /// The entry for style `s`, if one is cached.
    pub open spec fn entry(&self, s: Style) -> Option<ModelCacheEntry> {
        slot_entry(self.slot(s))
    }

    /// Whether a fetch for `s` was handed out and not yet completed.
    pub open spec fn pending(&self, s: Style) -> bool {
        self.slot(s) is Pending
    }

    /// Number of entries among the first `k` styles of the registry.
    pub open spec fn entry_count(&self, k: int) -> nat
        decreases k,
    {
        if k <= 0 {
            0
        } else {
            self.entry_count(k - 1) + if self.entry(style_at(k - 1)) is Some {
                1nat
            } else {
                0nat
            }
        }
    }

    /// Number of model bytes in the entries of the first `k` styles of the registry.
    pub open spec fn entry_bytes(&self, k: int) -> nat
        decreases k,
    {
        if k <= 0 {
            0
        } else {
            self.entry_bytes(k - 1) + match self.entry(style_at(k - 1)) {
                Some(e) => e.raw_bytes@.len(),
                None => 0nat,
            }
        }
    }

    /// Whether a compiled model is cached for `s`.
    pub open spec fn compiled_spec(&self, s: Style) -> bool {
        self.entry(s) is Some && self.entry(s)->0.compiled
    }

    /// Number of cached entries.
    pub closed spec fn loaded_spec(&self) -> nat {
        count_loaded(self.slots@)
    }

    /// Number of model bytes over all cached entries.
    pub closed spec fn bytes_spec(&self) -> nat {
        count_bytes(self.slots@)
    }

    proof fn lemma_prefix_counts(&self, k: int)
        requires
            self.wf(),
            0 <= k <= STYLE_COUNT,
        ensures
            count_loaded(self.slots@.take(k)) == self.entry_count(k),
            count_bytes(self.slots@.take(k)) == self.entry_bytes(k),
        decreases k,
    {
        if k > 0 {
            self.lemma_prefix_counts(k - 1);
            assert(self.slots@.take(k).drop_last() =~= self.slots@.take(k - 1));
            assert(style_at(k - 1).index_spec() == k - 1);
            assert(self.slots@.take(k).last() == self.slot(style_at(k - 1)));
        } else {
            assert(self.slots@.take(0).len() == 0);
        }
    }

    /// The counted entries are the styles that have an entry, and the counted
    /// bytes are the lengths of their model bytes.
    pub proof fn lemma_counts_are_entries(&self)
        requires
            self.wf(),
        ensures
            self.loaded_spec() == self.entry_count(STYLE_COUNT as int),
            self.bytes_spec() == self.entry_bytes(STYLE_COUNT as int),
    {
        self.lemma_prefix_counts(STYLE_COUNT as int);
        assert(self.slots@.take(STYLE_COUNT as int) =~= self.slots@);
    }

    /// With no entry cached, no entries and no bytes are counted.
    pub proof fn lemma_nothing_cached(&self)
        requires
            self.wf(),
            forall|s: Style| self.entry(s) is None,
        ensures
            self.loaded_spec() == 0,
            self.bytes_spec() == 0,
    {
        assert forall|i: int| 0 <= i < self.slots@.len() implies !(#[trigger] self.slots@[i] is Loaded) by {
            assert(self.entry(style_at(i)) is None);
            assert(style_at(i).index_spec() == i);
        }
        lemma_counts_empty(self.slots@);
    }

    /// An empty cache.
    pub fn new() -> (r: ModelCache)
        ensures
            r.wf(),
            forall|s: Style| r.slot(s) is Empty,
            forall|s: Style| r.entry(s) is None,
            r.loaded_spec() == 0,
            r.bytes_spec() == 0,
    {
        let mut slots: Vec<Slot> = Vec::new();
        let mut i: usize = 0;
        while i < STYLE_COUNT
            invariant
                i <= STYLE_COUNT,
                slots@.len() == i,
                forall|k: int| 0 <= k < i ==> #[trigger] slots@[k] is Empty,
            decreases STYLE_COUNT - i,
        {
            slots.push(Slot::Empty);
            i = i + 1;
        }
        proof {
            lemma_counts_empty(slots@);
        }
        ModelCache { slots }
    }

    /// Whether an entry is cached for `style`.
    pub fn is_loaded(&self, style: Style) -> (r: bool)
        requires
            self.wf(),
        ensures
            r == self.entry(style) is Some,
    {
        match &self.slots[style.index()] {
            Slot::Loaded(_) => true,
            _ => false,
        }
    }

    /// Whether a compiled model is cached for `style`.
    pub fn is_compiled(&self, style: Style) -> (r: bool)
        requires
            self.wf(),
        ensures
            r == self.compiled_spec(style),
    {
        match &self.slots[style.index()] {
            Slot::Loaded(e) => e.compiled,
            _ => false,
        }
    }

    /// The first step of making a style's model available. An unknown style
    /// is rejected and a cached one is ready; a style whose fetch is under way
    /// is to be waited for; otherwise a new fetch attempt is handed out and
    /// the style marked pending on it, so that at most one fetch per style is
    /// under way.
    pub fn ensure_loaded(&mut self, style_id: &str) -> (r: Result<LoadStep, EngineError>)
        requires
            old(self).wf(),
        ensures
            final(self).wf(),
            match r {
                Err(e) => e == EngineError::UnknownStyle && style_named(style_id@) is None
                    && forall|o: Style| final(self).slot(o) == old(self).slot(o),
                Ok(LoadStep::Ready) => style_named(style_id@) is Some && old(self).entry(
                    style_named(style_id@)->0,
                ) is Some && forall|o: Style| final(self).slot(o) == old(self).slot(o),
                Ok(LoadStep::Wait { attempt }) => style_named(style_id@) is Some && old(self).slot(
                    style_named(style_id@)->0,
                ) == (Slot::Pending { attempt }) && forall|o: Style|
                    final(self).slot(o) == old(self).slot(o),
                Ok(LoadStep::Fetch { style, url, attempt }) => {
                    &&& style_named(style_id@) == Some(style)
                    &&& (old(self).slot(style) is Empty || old(self).slot(style) is Failed)
                    &&& attempt == next_attempt(old(self).slot(style))
                    &&& final(self).slot(style) == (Slot::Pending { attempt })
                    &&& url@ == style_url(style)
                    &&& forall|o: Style| o != style ==> final(self).slot(o) == old(self).slot(o)
                },
            },
            final(self).loaded_spec() == old(self).loaded_spec(),
            final(self).bytes_spec() == old(self).bytes_spec(),
    {
        match find_style(style_id) {
            None => Err(EngineError::UnknownStyle),
            Some(style) => {
                let i = style.index();
                let attempt: u64 = match &self.slots[i] {
                    Slot::Loaded(_) => {
                        return Ok(LoadStep::Ready);
                    },
                    Slot::Pending { attempt } => {
                        return Ok(LoadStep::Wait { attempt: *attempt });
                    },
                    Slot::Failed { attempt } => if *attempt == u64::MAX {
                        0
                    } else {
                        *attempt + 1
                    },
                    Slot::Empty => 1,
                };
                proof {
                    lemma_count_update(self.slots@, i as int, Slot::Pending { attempt });
                }
                self.slots.set(i, Slot::Pending { attempt });
                proof {
                    assert forall|o: Style| o != style implies final(self).slot(o) == old(self).slot(o) by {
                        assert(o.index_spec() != style.index_spec());
                    }
                }
                Ok(LoadStep::Fetch { style, url: style.model_url(), attempt })
            },
        }
    }

    /// What a caller that waits on fetch attempt `attempt` learns: ready once
    /// the model is cached, to wait on while that attempt is still pending,
    /// and an acquisition error once that attempt is over without the model
    /// having been cached.
    pub fn poll_load(&self, style_id: &str, attempt: u64) -> (r: Result<LoadStep, EngineError>)
        requires
            self.wf(),
        ensures
            match r {
                Err(e) => (e == EngineError::UnknownStyle && style_named(style_id@) is None) || (e
                    == EngineError::AcquisitionError && style_named(style_id@) is Some && self.entry(
                    style_named(style_id@)->0,
                ) is None && self.slot(style_named(style_id@)->0) != (Slot::Pending { attempt })),
                Ok(LoadStep::Ready) => style_named(style_id@) is Some && self.entry(
                    style_named(style_id@)->0,
                ) is Some,
                Ok(LoadStep::Wait { attempt: a }) => style_named(style_id@) is Some && a == attempt
                    && self.slot(style_named(style_id@)->0) == (Slot::Pending { attempt }),
                Ok(LoadStep::Fetch { .. }) => false,
            },
    {
        match find_style(style_id) {
            None => Err(EngineError::UnknownStyle),
            Some(style) => match &self.slots[style.index()] {
                Slot::Loaded(_) => Ok(LoadStep::Ready),
                Slot::Pending { attempt: a } => {
                    if *a == attempt {
                        Ok(LoadStep::Wait { attempt })
                    } else {
                        Err(EngineError::AcquisitionError)
                    }
                },
                _ => Err(EngineError::AcquisitionError),
            },
        }
    }

    /// The last step of fetch attempt `attempt`. A style already cached is
    /// left as it is. Otherwise fetched bytes are cached with their
    /// compilation outcome, whatever it was; a failed fetch is an acquisition
    /// error, and when it ends the pending attempt it marks that attempt
    /// failed, so that its waiters learn of it and a later caller may retry.
    pub fn complete_load(&mut self, style: Style, attempt: u64, fetched: Option<Vec<u8>>, compiled:
        bool) -> (r: Result<(), EngineError>)
        requires
            old(self).wf(),
        ensures
            final(self).wf(),
            forall|o: Style| o != style ==> final(self).slot(o) == old(self).slot(o),
            old(self).entry(style) is Some ==> r is Ok && final(self).slot(style) == old(self).slot(
                style,
            ) && final(self).loaded_spec() == old(self).loaded_spec() && final(self).bytes_spec()
                == old(self).bytes_spec(),
            old(self).entry(style) is None && fetched is None ==> {
                &&& r == Err::<(), EngineError>(EngineError::AcquisitionError)
                &&& old(self).slot(style) == (Slot::Pending { attempt }) ==> final(self).slot(style)
                    == (Slot::Failed { attempt })
                &&& old(self).slot(style) != (Slot::Pending { attempt }) ==> final(self).slot(style)
                    == old(self).slot(style)
                &&& final(self).loaded_spec() == old(self).loaded_spec()
                &&& final(self).bytes_spec() == old(self).bytes_spec()
            },
            old(self).entry(style) is None && fetched is Some ==> {
                &&& r is Ok
                &&& final(self).entry(style) is Some
                &&& final(self).entry(style)->0.raw_bytes@ == fetched->0@
                &&& final(self).entry(style)->0.compiled == compiled
                &&& final(self).loaded_spec() == old(self).loaded_spec() + 1
                &&& final(self).bytes_spec() == old(self).bytes_spec() + fetched->0@.len()
            },
    {
        let i = style.index();
        let ends_attempt: bool = match &self.slots[i] {
            Slot::Loaded(_) => {
                return Ok(());
            },
            Slot::Pending { attempt: a } => *a == attempt,
            _ => false,
        };
        match fetched {
            None => {
                if ends_attempt {
                    proof {
                        lemma_count_update(self.slots@, i as int, Slot::Failed { attempt });
                    }
                    self.slots.set(i, Slot::Failed { attempt });
                    proof {
                        assert forall|o: Style| o != style implies final(self).slot(o) == old(self).slot(o) by {
                            assert(o.index_spec() != style.index_spec());
                        }
                    }
                }
                Err(EngineError::AcquisitionError)
            },
            Some(raw_bytes) => {
                let v = Slot::Loaded(ModelCacheEntry { style, raw_bytes, compiled });
                proof {
                    lemma_count_update(self.slots@, i as int, v);
                }
                self.slots.set(i, v);
                proof {
                    assert forall|o: Style| o != style implies final(self).slot(o) == old(self).slot(o) by {
                        assert(o.index_spec() != style.index_spec());
                    }
                }
                Ok(())
            },
        }
    }

    /// Number of cached entries.
    pub fn models_loaded(&self) -> (r: usize)
        requires
            self.wf(),
        ensures
            r == self.loaded_spec(),
    {
        let mut n: usize = 0;
        let mut i: usize = 0;
        while i < self.slots.len()
            invariant
                self.wf(),
                i <= self.slots@.len(),
                n == count_loaded(self.slots@.take(i as int)),
                n <= i,
            decreases self.slots@.len() - i,
        {
            proof {
                assert(self.slots@.take(i + 1).drop_last() =~= self.slots@.take(i as int));
            }
            match &self.slots[i] {
                Slot::Loaded(_) => {
                    n = n + 1;
                },
                _ => {},
            }
            i = i + 1;
        }
        assert(self.slots@.take(i as int) =~= self.slots@);
        n
    }

    /// Number of model bytes over all cached entries.
    pub fn cached_bytes(&self) -> (r: u128)
        requires
            self.wf(),
        ensures
            r == self.bytes_spec(),
    {
        let mut n: u128 = 0;
        let mut i: usize = 0;
        while i < self.slots.len()
            invariant
                self.wf(),
                i <= self.slots@.len(),
                n == count_bytes(self.slots@.take(i as int)),
                n <= i * 0x1_0000_0000_0000_0000,
            decreases self.slots@.len() - i,
        {
            proof {
                assert(self.slots@.take(i + 1).drop_last() =~= self.slots@.take(i as int));
            }
            match &self.slots[i] {
                Slot::Loaded(e) => {
                    let size: usize = e.raw_bytes.len();
                    proof {
                        let len = size as int;
                        assert(n + len <= (i + 1) * 0x1_0000_0000_0000_0000) by (nonlinear_arith)
                            requires n <= i * 0x1_0000_0000_0000_0000, 0 <= len < 0x1_0000_0000_0000_0000;
                    }
                    n = n + size as u128;
                },
                _ => {
                    assert(n <= (i + 1) * 0x1_0000_0000_0000_0000) by (nonlinear_arith)
                        requires n <= i * 0x1_0000_0000_0000_0000, i >= 0;
                },
            }
            i = i + 1;
        }
        assert(self.slots@.take(i as int) =~= self.slots@);
        n
    }
}

} // verus!
