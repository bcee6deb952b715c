//! The bookkeeping of a host worker: which callbacks are registered for
//! which stream keys, which keys a poll asks for, which callbacks a poll
//! result runs, and when the worker stops.
//!
//! The worker polls one host. Each registration pairs a stream key with the
//! token of the subscription that asked for it; the callback itself stays
//! with the caller, filed under the same pair.
use vstd::prelude::*;

use crate::text::{contains_str, str_eq, strings_view};

verus! {

/// One registered callback: the stream key it watches and its token.
#[derive(Debug, Clone)]
pub struct Registration {
    pub key: String,
    pub token: u128,
}

/// A registration as a plain pair of key text and token.
pub type RegView = (Seq<char>, u128);

pub open spec fn reg_view(r: Registration) -> RegView {
    (r.key@, r.token)
}

/// The pairs of a list of registrations, in order.
pub open spec fn regs_view(s: Seq<Registration>) -> Seq<RegView> {
    s.map_values(|r: Registration| reg_view(r))
}

/// Whether some registration holds `token`.
pub open spec fn has_token(s: Seq<RegView>, token: u128) -> bool {
    exists|i: int| 0 <= i < s.len() && (#[trigger] s[i]).1 == token
}

/// The registrations after adding `(key, token)`: unchanged when the pair
/// is already there (its callback is replaced), else the pair at the end.
pub open spec fn reg_add(s: Seq<RegView>, key: Seq<char>, token: u128) -> Seq<RegView> {
    if s.contains((key, token)) {
        s
    } else {
        s.push((key, token))
    }
}

/// The registrations that do not hold `token`, in their order.
pub open spec fn reg_remove(s: Seq<RegView>, token: u128) -> Seq<RegView>
    decreases s.len(),
{
    if s.len() == 0 {
        s
    } else {
        let rest = reg_remove(s.drop_last(), token);
        if s.last().1 == token {
            rest
        } else {
            rest.push(s.last())
        }
    }
}

/// The keys of the registrations that hold `token`, in their order.
pub open spec fn reg_removed_keys(s: Seq<RegView>, token: u128) -> Seq<Seq<char>>
    decreases s.len(),
{
    if s.len() == 0 {
        Seq::empty()
    } else {
        let rest = reg_removed_keys(s.drop_last(), token);
        if s.last().1 == token {
            rest.push(s.last().0)
        } else {
            rest
        }
    }
}

/// The registrations whose key is among `present`, in their order.
pub open spec fn reg_due(s: Seq<RegView>, present: Seq<Seq<char>>) -> Seq<RegView>
    decreases s.len(),
{
    if s.len() == 0 {
        s
    } else {
        let rest = reg_due(s.drop_last(), present);
        if present.contains(s.last().0) {
            rest.push(s.last())
        } else {
            rest
        }
    }
}

/// Whether some registration watches `key`.
pub open spec fn has_key(s: Seq<RegView>, key: Seq<char>) -> bool {
    exists|i: int| 0 <= i < s.len() && (#[trigger] s[i]).0 == key
}

/// The callbacks of one host worker.
pub struct CallbackRegistry {
    entries: Vec<Registration>,
}

impl CallbackRegistry {
    /// The registered pairs, in the order they were added.
    pub closed spec fn view(&self) -> Seq<RegView> {
        regs_view(self.entries@)
    }

    /// No pair is registered twice.
    pub open spec fn wf(&self) -> bool {
        self.view().no_duplicates()
    }

    /// A registry with nothing registered.
    pub fn new() -> (r: CallbackRegistry)
        ensures
            r.wf(),
            r.view() == Seq::<RegView>::empty(),
    {
        let r = CallbackRegistry { entries: Vec::new() };
        assert(r.view() =~= Seq::<RegView>::empty());
        r
    }

    /// Whether nothing is registered.
    pub fn is_empty(&self) -> (r: bool)
        ensures
            r == (self.view().len() == 0),
    {
        self.entries.len() == 0
    }

    /// The number of registrations.
    pub fn len(&self) -> (r: usize)
        ensures
            r == self.view().len(),
    {
        self.entries.len()
    }

    /// The registrations, in order.
    pub fn registrations(&self) -> (r: Vec<Registration>)
        ensures
            regs_view(r@) == self.view(),
    {
        let mut out: Vec<Registration> = Vec::new();
        let mut i: usize = 0;
        while i < self.entries.len()
            invariant
                i <= self.entries@.len(),
                regs_view(out@) =~= regs_view(self.entries@.take(i as int)),
            decreases self.entries@.len() - i,
        {
            let r = Registration { key: self.entries[i].key.clone(), token: self.entries[i].token };
            let ghost before = out@;
            out.push(r);
            assert(regs_view(out@) =~= regs_view(before).push(reg_view(self.entries@[i as int])));
            assert(self.entries@.take(i + 1) =~= self.entries@.take(i as int).push(self.entries@[i as int]));
            assert(regs_view(self.entries@.take(i + 1)) =~= regs_view(self.entries@.take(i as int)).push(reg_view(self.entries@[i as int])));
            i = i + 1;
        }
        assert(self.entries@.take(i as int) =~= self.entries@);
        out
    }

    /// Whether `(key, token)` is registered.
    pub fn contains(&self, key: &str, token: u128) -> (r: bool)
        ensures
            r == self.view().contains((key@, token)),
    {
        let mut i: usize = 0;
        while i < self.entries.len()
            invariant
                i <= self.entries@.len(),
                forall|j: int| 0 <= j < i ==> self.view()[j] != (key@, token),
            decreases self.entries@.len() - i,
        {
            assert(self.view()[i as int] == reg_view(self.entries@[i as int]));
            if self.entries[i].token == token && str_eq(self.entries[i].key.as_str(), key) {
                assert(self.view()[i as int] == (key@, token));
                return true;
            }
            i = i + 1;
        }
        false
    }

    /// Registers `(key, token)`; returns whether the pair is new (when it
    /// is not, the caller replaces the callback filed under it).
    pub fn add(&mut self, key: String, token: u128) -> (fresh: bool)
        requires
            old(self).wf(),
        ensures
            final(self).wf(),
            final(self).view() == reg_add(old(self).view(), key@, token),
            fresh == !old(self).view().contains((key@, token)),
    {
        if self.contains(key.as_str(), token) {
            false
        } else {
            let ghost before = self.entries@;
            let ghost k = key@;
            self.entries.push(Registration { key, token });
            assert(regs_view(self.entries@) =~= regs_view(before).push((k, token)));
            true
        }
    }

    /// Removes every registration that holds `token`; returns the keys of
    /// the removed registrations, in order.
    pub fn remove_token(&mut self, token: u128) -> (removed: Vec<String>)
        requires
            old(self).wf(),
        ensures
            final(self).wf(),
            final(self).view() == reg_remove(old(self).view(), token),
            strings_view(removed@) == reg_removed_keys(old(self).view(), token),
    {
        let ghost s = old(self).view();
        let mut kept: Vec<Registration> = Vec::new();
        let mut removed: Vec<String> = Vec::new();
        let mut i: usize = 0;
        while i < self.entries.len()
            invariant
                i <= self.entries@.len(),
                s == regs_view(self.entries@),
                regs_view(kept@) == reg_remove(s.take(i as int), token),
                strings_view(removed@) == reg_removed_keys(s.take(i as int), token),
            decreases self.entries@.len() - i,
        {
            let ghost prefix = s.take(i as int);
            assert(s.take(i + 1).drop_last() =~= prefix);
            assert(s.take(i + 1).last() == reg_view(self.entries@[i as int]));
            if self.entries[i].token == token {
                let ghost before = removed@;
                removed.push(self.entries[i].key.clone());
                assert(strings_view(removed@) =~= strings_view(before).push(self.entries@[i as int].key@));
            } else {
                let ghost before = kept@;
                kept.push(Registration { key: self.entries[i].key.clone(), token: self.entries[i].token });
                assert(regs_view(kept@) =~= regs_view(before).push(reg_view(self.entries@[i as int])));
            }
            i = i + 1;
        }
        assert(s.take(i as int) =~= s);
        self.entries = kept;
        proof {
            lemma_remove_subseq(s, token);
        }
        removed
    }

    /// The distinct keys that have a registration, each once, in the order
    /// of their first registration.
    pub fn keys(&self) -> (r: Vec<String>)
        ensures
            r@.map_values(|k: String| k@).no_duplicates(),
            forall|k: Seq<char>|
                r@.map_values(|k: String| k@).contains(k) <==> has_key(self.view(), k),
    {
        let mut out: Vec<String> = Vec::new();
        let mut i: usize = 0;
        while i < self.entries.len()
            invariant
                i <= self.entries@.len(),
                out@.map_values(|k: String| k@).no_duplicates(),
                forall|k: Seq<char>|
                    out@.map_values(|k: String| k@).contains(k) <==> has_key(
                        self.view().take(i as int),
                        k,
                    ),
            decreases self.entries@.len() - i,
        {
            let ghost outv = out@.map_values(|k: String| k@);
            let ghost key = self.entries@[i as int].key@;
            assert(self.view()[i as int] == reg_view(self.entries@[i as int]));
            let seen = contains_str(&out, self.entries[i].key.as_str());
            assert(outv == strings_view(out@));
            if !seen {
                out.push(self.entries[i].key.clone());
                assert(out@.map_values(|k: String| k@) =~= outv.push(key));
            }
            let ghost nv = out@.map_values(|k: String| k@);
            assert forall|k: Seq<char>| nv.contains(k) <==> has_key(self.view().take(i + 1), k) by {
                let t1 = self.view().take(i + 1);
                let t0 = self.view().take(i as int);
                assert(outv.contains(k) <==> has_key(t0, k));
                if nv.contains(k) {
                    if outv.contains(k) {
                        let w = choose|w: int| 0 <= w < t0.len() && t0[w].0 == k;
                        assert(t1[w] == t0[w]);
                    } else {
                        assert(t1[i as int].0 == key);
                        if k != key {
                            let w = choose|w: int| 0 <= w < nv.len() && nv[w] == k;
                            assert(nv =~= outv.push(key));
                            assert(outv[w] == k);
                        }
                    }
                }
                if has_key(t1, k) {
                    let w = choose|w: int| 0 <= w < t1.len() && t1[w].0 == k;
                    if w < i {
                        assert(t0[w] == t1[w]);
                        assert(has_key(t0, k));
                        assert(outv.contains(k));
                        if seen {
                            assert(nv == outv);
                        } else {
                            assert(nv =~= outv.push(key));
                            assert(nv[outv.index_of(k)] == k);
                        }
                    } else {
                        if seen {
                            let m = outv.index_of(key);
                            assert(nv[m] == k);
                        } else {
                            assert(nv =~= outv.push(key));
                            assert(nv[nv.len() - 1] == k);
                        }
                    }
                }
            }
            i = i + 1;
        }
        assert(self.view().take(i as int) =~= self.view());
        out
    }

    /// The registrations whose key has a status among `present`, in order:
    /// the callbacks a poll result runs.
    pub fn due(&self, present: &Vec<String>) -> (r: Vec<Registration>)
        ensures
            regs_view(r@) == reg_due(self.view(), present@.map_values(|k: String| k@)),
    {
        let ghost s = self.view();
        let ghost pv = present@.map_values(|k: String| k@);
        let mut out: Vec<Registration> = Vec::new();
        let mut i: usize = 0;
        while i < self.entries.len()
            invariant
                i <= self.entries@.len(),
                s == self.view(),
                pv == present@.map_values(|k: String| k@),
                regs_view(out@) == reg_due(s.take(i as int), pv),
            decreases self.entries@.len() - i,
        {
            assert(s.take(i + 1).drop_last() =~= s.take(i as int));
            assert(s.take(i + 1).last() == reg_view(self.entries@[i as int]));
            let found = contains_str(present, self.entries[i].key.as_str());
            assert(pv == strings_view(present@));
            if found {
                let ghost before = out@;
                out.push(Registration { key: self.entries[i].key.clone(), token: self.entries[i].token });
                assert(regs_view(out@) =~= regs_view(before).push(reg_view(self.entries@[i as int])));
            } else {
                assert(!pv.contains(self.entries@[i as int].key@));
            }
            i = i + 1;
        }
        assert(s.take(i as int) =~= s);
        out
    }
}

/// Removing a token keeps a subsequence: no pair appears that was not there,
/// and no duplicates appear.
pub proof fn lemma_remove_subseq(s: Seq<RegView>, token: u128)
    requires
        s.no_duplicates(),
    ensures
        reg_remove(s, token).no_duplicates(),
        forall|e: RegView|
            #![trigger reg_remove(s, token).contains(e)]
            #![trigger s.contains(e)]
            reg_remove(s, token).contains(e) <==> (s.contains(e) && e.1 != token),
    decreases s.len(),
{
    if s.len() > 0 {
        let d = s.drop_last();
        assert(d.no_duplicates()) by {
            assert forall|i: int, j: int| 0 <= i < d.len() && 0 <= j < d.len() && i != j implies d[i] != d[j] by {
                assert(d[i] == s[i] && d[j] == s[j]);
            }
        }
        lemma_remove_subseq(d, token);
        let rest = reg_remove(d, token);
        assert forall|e: RegView| s.contains(e) <==> (d.contains(e) || e == s.last()) by {
            if s.contains(e) {
                let w = s.index_of(e);
                if w < s.len() - 1 {
                    assert(d[w] == e);
                }
            }
            if d.contains(e) {
                let w = d.index_of(e);
                assert(s[w] == e);
            }
            if e == s.last() {
                assert(s[s.len() - 1] == e);
            }
        }
        if s.last().1 != token {
            assert(!d.contains(s.last())) by {
                if d.contains(s.last()) {
                    let w = d.index_of(s.last());
                    assert(s[w] == s[s.len() - 1]);
                }
            }
            assert(!rest.contains(s.last()));
            assert forall|e: RegView| rest.push(s.last()).contains(e) <==> (rest.contains(e) || e == s.last()) by {
                if rest.push(s.last()).contains(e) {
                    let w = rest.push(s.last()).index_of(e);
                    if w < rest.len() {
                        assert(rest[w] == e);
                    }
                }
                if rest.contains(e) {
                    let w = rest.index_of(e);
                    assert(rest.push(s.last())[w] == e);
                }
                if e == s.last() {
                    assert(rest.push(s.last())[rest.len() as int] == e);
                }
            }
            let p = rest.push(s.last());
            assert forall|i: int, j: int| 0 <= i < p.len() && 0 <= j < p.len() && i != j implies p[i] != p[j] by {
                if i < rest.len() && j < rest.len() {
                    assert(p[i] == rest[i] && p[j] == rest[j]);
                } else if i < rest.len() {
                    assert(rest.contains(p[i]));
                } else if j < rest.len() {
                    assert(rest.contains(p[j]));
                }
            }
        }
    }
}

} // verus!

verus! {

/// A message to a host worker: register a callback for a key under a
/// token, or drop every callback registered under a token.
#[derive(Debug)]
pub enum Command {
    AddKey(String, u128),
    RemoveCallback(u128),
}

/// Whether a worker keeps running or stops.
#[derive(Debug, Clone, Copy, PartialEq, Eq, Structural)]
pub enum WorkerStep {
    Continue,
    Close,
}

/// What handling a command did: whether the worker goes on, and the keys of
/// the registrations it dropped (their callbacks are to be dropped too).
pub struct CommandOutcome {
    pub step: WorkerStep,
    pub removed_keys: Vec<String>,
}

/// The number of failures a worker tolerates: the given number, or 3.
pub open spec fn error_budget(errors_until_close: Option<u32>) -> u32 {
    match errors_until_close {
        Some(n) => n,
        None => 3,
    }
}

/// The state of one host worker: its callbacks and how many more failures
/// (failed polls or failed callbacks) it tolerates.
pub struct WorkerState {
    registry: CallbackRegistry,
    remaining_errors: u32,
}

impl WorkerState {
    pub closed spec fn view(&self) -> Seq<RegView> {
        self.registry.view()
    }

    pub closed spec fn remaining(&self) -> u32 {
        self.remaining_errors
    }

    /// No callback is registered twice under the same key and token.
    pub open spec fn wf(&self) -> bool {
        self.view().no_duplicates()
    }

    /// A worker with no callbacks that tolerates `errors_until_close`
    /// failures (3 when not given). A budget of zero is refused: the worker
    /// would fail on its first error.
    pub fn new(errors_until_close: Option<u32>) -> (r: WorkerState)
        requires
            errors_until_close != Some(0u32),
        ensures
            r.wf(),
            r.view() == Seq::<RegView>::empty(),
            r.remaining() == error_budget(errors_until_close),
            r.remaining() > 0,
    {
        let remaining_errors = match errors_until_close {
            Some(n) => n,
            None => 3,
        };
        WorkerState { registry: CallbackRegistry::new(), remaining_errors }
    }

    /// The failures still tolerated.
    pub fn remaining_errors(&self) -> (r: u32)
        ensures
            r == self.remaining(),
    {
        self.remaining_errors
    }

    /// The registrations of this worker.
    pub fn registrations(&self) -> (r: Vec<Registration>)
        ensures
            regs_view(r@) == self.view(),
    {
        self.registry.registrations()
    }

    /// Handles a command. Adding never stops the worker; removing a token
    /// drops its registrations and stops the worker exactly when none are
    /// left.
    pub fn handle_command(&mut self, cmd: Command) -> (r: CommandOutcome)
        requires
            old(self).wf(),
        ensures
            final(self).wf(),
            final(self).remaining() == old(self).remaining(),
            match cmd {
                Command::AddKey(key, token) => {
                    &&& final(self).view() == reg_add(old(self).view(), key@, token)
                    &&& r.removed_keys@.len() == 0
                    &&& r.step == WorkerStep::Continue
                },
                Command::RemoveCallback(token) => {
                    &&& final(self).view() == reg_remove(old(self).view(), token)
                    &&& strings_view(r.removed_keys@) == reg_removed_keys(old(self).view(), token)
                    &&& (r.step == WorkerStep::Close) == (final(self).view().len() == 0)
                },
            },
    {
        match cmd {
            Command::AddKey(key, token) => {
                self.registry.add(key, token);
                CommandOutcome { step: WorkerStep::Continue, removed_keys: Vec::new() }
            },
            Command::RemoveCallback(token) => {
                let removed_keys = self.registry.remove_token(token);
                let step = if self.registry.is_empty() {
                    WorkerStep::Close
                } else {
                    WorkerStep::Continue
                };
                CommandOutcome { step, removed_keys }
            },
        }
    }

    /// The keys to ask the host about on a tick, or `None` when nothing is
    /// registered and the tick is skipped.
    pub fn keys_to_poll(&self) -> (r: Option<Vec<String>>)
        ensures
            r is None <==> self.view().len() == 0,
            r matches Some(keys) ==> {
                &&& strings_view(keys@).no_duplicates()
                &&& forall|k: Seq<char>| strings_view(keys@).contains(k) <==> has_key(self.view(), k)
            },
    {
        if self.registry.is_empty() {
            None
        } else {
            let keys = self.registry.keys();
            assert(keys@.map_values(|k: String| k@) == strings_view(keys@));
            Some(keys)
        }
    }

    /// The callbacks to run for a poll that returned a status for each key in
    /// `present`: every registration whose key is present, in order.
    pub fn callbacks_due(&self, present: &Vec<String>) -> (r: Vec<Registration>)
        ensures
            regs_view(r@) == reg_due(self.view(), strings_view(present@)),
            self.wf() ==> regs_view(r@).no_duplicates(),
            self.wf() ==> forall|e: RegView|
                #![trigger regs_view(r@).contains(e)]
                regs_view(r@).contains(e) <==> (self.view().contains(e) && strings_view(present@).contains(e.0)),
    {
        proof {
            if self.wf() {
                law_due_exact(self.view(), strings_view(present@));
            }
        }
        let r = self.registry.due(present);
        assert(present@.map_values(|k: String| k@) == strings_view(present@));
        r
    }

    /// Records a failure (a failed poll or a failed callback). The worker
    /// stops when its budget is used up.
    pub fn record_error(&mut self) -> (step: WorkerStep)
        requires
            old(self).remaining() > 0,
        ensures
            final(self).view() == old(self).view(),
            final(self).wf() == old(self).wf(),
            final(self).remaining() == old(self).remaining() - 1,
            (step == WorkerStep::Close) == (final(self).remaining() == 0),
    {
        self.remaining_errors = self.remaining_errors - 1;
        if self.remaining_errors == 0 {
            WorkerStep::Close
        } else {
            WorkerStep::Continue
        }
    }
}

/// Adding a callback under a token that no registration holds, then
/// removing that token, gives back the registrations there were.
pub proof fn law_add_then_remove_restores(s: Seq<RegView>, key: Seq<char>, token: u128)
    requires
        s.no_duplicates(),
        !has_token(s, token),
    ensures
        reg_remove(reg_add(s, key, token), token) == s,
{
    lemma_remove_absent(s, token);
    if !s.contains((key, token)) {
        let p = s.push((key, token));
        assert(p.drop_last() =~= s);
    } else {
        let w = s.index_of((key, token));
        assert(s[w].1 == token);
    }
}

proof fn lemma_remove_absent(s: Seq<RegView>, token: u128)
    requires
        !has_token(s, token),
    ensures
        reg_remove(s, token) == s,
    decreases s.len(),
{
    if s.len() > 0 {
        let d = s.drop_last();
        assert(!has_token(d, token)) by {
            if has_token(d, token) {
                let w = choose|w: int| 0 <= w < d.len() && (#[trigger] d[w]).1 == token;
                assert(s[w] == d[w]);
            }
        }
        lemma_remove_absent(d, token);
        assert(s[s.len() - 1].1 != token);
        assert(d.push(s.last()) =~= s);
    }
}

/// Removing a token leaves every registration under another token as it
/// was, and leaves none under the removed token.
pub proof fn law_remove_keeps_other_tokens(s: Seq<RegView>, token: u128)
    requires
        s.no_duplicates(),
    ensures
        forall|e: RegView| e.1 != token ==> (reg_remove(s, token).contains(e) <==> s.contains(e)),
        !has_token(reg_remove(s, token), token),
        reg_remove(s, token).no_duplicates(),
{
    lemma_remove_subseq(s, token);
    let r = reg_remove(s, token);
    if has_token(r, token) {
        let w = choose|w: int| 0 <= w < r.len() && (#[trigger] r[w]).1 == token;
        assert(r.contains(r[w]));
        let e = r[w];
        assert(reg_remove(s, token).contains(e) <==> (s.contains(e) && e.1 != token));
    }
}

/// Adding the same registration twice is the same as adding it once.
pub proof fn law_add_idempotent(s: Seq<RegView>, key: Seq<char>, token: u128)
    ensures
        reg_add(reg_add(s, key, token), key, token) == reg_add(s, key, token),
{
    if !s.contains((key, token)) {
        let p = s.push((key, token));
        assert(p[p.len() - 1] == (key, token));
        assert(p.contains((key, token)));
    }
}

/// A poll result runs exactly the callbacks registered for the keys it has
/// a status for, each once.
pub proof fn law_due_exact(s: Seq<RegView>, present: Seq<Seq<char>>)
    requires
        s.no_duplicates(),
    ensures
        forall|e: RegView| reg_due(s, present).contains(e) <==> (s.contains(e) && present.contains(e.0)),
        reg_due(s, present).no_duplicates(),
    decreases s.len(),
{
    if s.len() > 0 {
        let d = s.drop_last();
        assert(d.no_duplicates()) by {
            assert forall|i: int, j: int| 0 <= i < d.len() && 0 <= j < d.len() && i != j implies d[i] != d[j] by {
                assert(d[i] == s[i] && d[j] == s[j]);
            }
        }
        law_due_exact(d, present);
        let rest = reg_due(d, present);
        assert forall|e: RegView| s.contains(e) <==> (d.contains(e) || e == s.last()) by {
            if s.contains(e) {
                let w = s.index_of(e);
                if w < s.len() - 1 {
                    assert(d[w] == e);
                }
            }
            if d.contains(e) {
                let w = d.index_of(e);
                assert(s[w] == e);
            }
            if e == s.last() {
                assert(s[s.len() - 1] == e);
            }
        }
        assert(!d.contains(s.last())) by {
            if d.contains(s.last()) {
                let w = d.index_of(s.last());
                assert(s[w] == s[s.len() - 1]);
            }
        }
        if present.contains(s.last().0) {
            let p = rest.push(s.last());
            assert forall|e: RegView| p.contains(e) <==> (rest.contains(e) || e == s.last()) by {
                if p.contains(e) {
                    let w = p.index_of(e);
                    if w < rest.len() {
                        assert(rest[w] == e);
                    }
                }
                if rest.contains(e) {
                    let w = rest.index_of(e);
                    assert(p[w] == e);
                }
                if e == s.last() {
                    assert(p[rest.len() as int] == e);
                }
            }
            assert forall|i: int, j: int| 0 <= i < p.len() && 0 <= j < p.len() && i != j implies p[i] != p[j] by {
                if i < rest.len() && j < rest.len() {
                    assert(p[i] == rest[i] && p[j] == rest[j]);
                } else if i < rest.len() {
                    assert(rest.contains(p[i]));
                } else if j < rest.len() {
                    assert(rest.contains(p[j]));
                }
            }
        }
    }
}

/// The failures left after `k` failures with a budget of `budget`.
pub open spec fn remaining_after(budget: u32, k: nat) -> int {
    budget - k
}

/// A worker with a budget of `budget` failures keeps running through the
/// first `budget - 1` failures and stops at failure number `budget`.
pub proof fn law_closes_at_budget(budget: u32, k: nat)
    requires
        budget > 0,
        1 <= k <= budget,
    ensures
        (remaining_after(budget, k) == 0) <==> (k == budget),
        remaining_after(budget, (k - 1) as nat) > 0,
{
}

} // verus!
