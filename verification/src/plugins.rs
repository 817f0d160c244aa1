//! Provide a "unified" way of adding plugins to an assemble project

pub mod extensions;

use vstd::prelude::*;
use crate::project::ProjectError;
use crate::text::views;

verus! {

/// A plugin to apply to a target. All plugins must implement default.
pub trait Plugin<T>: Default {
    /// Apply the plugin
    fn apply_to(&self, target: &mut T) -> Result<(), ProjectError>;

    /// The id of the plugin. A plugin of a certain ID can only added once.
    fn plugin_id(&self) -> String;
}

/// An action that waits for a plugin to be applied.
pub trait PluginAction<T> {
    /// Performs the action on the target.
    fn execute(self, target: &mut T) -> Result<(), ProjectError>;
}

/// A struct representing an applied plugin
pub struct PluginApplied;

#[derive(Debug)]
pub enum PluginError {
    CouldNotCreatePlugin,
}

impl PluginError {
    /// The message of the error.
    pub fn to_string(&self) -> (r: String)
        ensures
            r@ == "Couldn't create the plugin"@,
    {
        "Couldn't create the plugin".to_owned()
    }
}

/// How many actions wait for the plugin `id`.
pub open spec fn pending_count(ids: Seq<Seq<char>>, id: Seq<char>) -> nat
    decreases ids.len(),
{
    if ids.len() == 0 {
        0
    } else {
        pending_count(ids.drop_last(), id) + if ids.last() == id { 1nat } else { 0nat }
    }
}

proof fn lemma_pending_push(ids: Seq<Seq<char>>, x: Seq<char>, id: Seq<char>)
    ensures
        pending_count(ids.push(x), id) == pending_count(ids, id) + if x == id { 1nat } else { 0nat },
{
    assert(ids.push(x).drop_last() =~= ids);
}

/// Facilities applying plugins and determining which plugins have been applied to a target,
/// with the actions of type `A` that wait for plugins.
pub struct PluginManager<T, A> {
    applied: Vec<String>,
    queued_ids: Vec<String>,
    queued_actions: Vec<A>,
    _target: core::marker::PhantomData<T>,
}

impl<T, A: PluginAction<T>> PluginManager<T, A> {
    /// The ids of the applied plugins, in the order they were applied.
    pub closed spec fn applied_ids(self) -> Seq<Seq<char>> {
        views(self.applied@)
    }

    /// The ids that the waiting actions wait for, in the order the actions were added.
    pub closed spec fn waiting_ids(self) -> Seq<Seq<char>> {
        views(self.queued_ids@)
    }

    /// The manager's queue holds one id per waiting action.
    pub closed spec fn wf(self) -> bool {
        self.queued_ids@.len() == self.queued_actions@.len()
    }

    pub fn new() -> (r: Self)
        ensures
            r.wf(),
            r.applied_ids().len() == 0,
            r.waiting_ids().len() == 0,
    {
        let r = Self { applied: Vec::new(), queued_ids: Vec::new(), queued_actions: Vec::new(), _target: core::marker::PhantomData };
        assert(r.applied_ids() =~= Seq::<Seq<char>>::empty());
        assert(r.waiting_ids() =~= Seq::<Seq<char>>::empty());
        r
    }

    /// Check if this manager has a known plugin
    pub fn has_plugin(&self, id: &str) -> (r: bool)
        ensures
            r == self.applied_ids().contains(id@),
    {
        let mut i: usize = 0;
        while i < self.applied.len()
            invariant
                i <= self.applied@.len(),
                forall|k: int| 0 <= k < i ==> #[trigger] self.applied@[k]@ != id@,
            decreases self.applied@.len() - i,
        {
            if crate::text::compare_text(self.applied[i].as_str(), id) == 0 {
                assert(self.applied_ids()[i as int] == id@);
                return true;
            }
            i = i + 1;
        }
        proof {
            if self.applied_ids().contains(id@) {
                let k = choose|k: int| 0 <= k < self.applied_ids().len() && self.applied_ids()[k] == id@;
                assert(self.applied@[k]@ == id@);
            }
        }
        false
    }

    /// Whether a plugin of the type `P` has been applied: whether the id of a default `P` is
    /// among the applied ids.
    pub fn has_plugin_ty<P: Plugin<T>>(&self) -> (r: bool)
        ensures
            exists|p: P, id: String| call_ensures(P::default, (), p)
                && call_ensures(P::plugin_id, (&p,), id)
                && r == self.applied_ids().contains(id@),
    {
        let plugin = P::default();
        let id = plugin.plugin_id();
        let r = self.has_plugin(id.as_str());
        assert(call_ensures(P::default, (), plugin) && call_ensures(P::plugin_id, (&plugin,), id));
        r
    }

    /// Runs, in the order they were added, the actions that wait for the plugin `id`, and
    /// removes them from the queue, also when one of them fails.
    fn run_waiting(&mut self, id: &str, target: &mut T) -> (r: Result<(), ProjectError>)
        requires
            old(self).wf(),
        ensures
            final(self).wf(),
            final(self).applied_ids() == old(self).applied_ids(),
            pending_count(final(self).waiting_ids(), id@) == 0,
            forall|other: Seq<char>| other != id@ ==> #[trigger] pending_count(final(self).waiting_ids(), other)
                == pending_count(old(self).waiting_ids(), other),
            pending_count(old(self).waiting_ids(), id@) == 0 ==> r is Ok && *final(target) == *old(target),
    {
        let mut ids: Vec<String> = Vec::new();
        let mut actions: Vec<A> = Vec::new();
        std::mem::swap(&mut ids, &mut self.queued_ids);
        std::mem::swap(&mut actions, &mut self.queued_actions);
        let ghost all = views(ids@);
        let mut run: Vec<A> = Vec::new();
        let ghost mut k: int = 0;
        assert(all.take(0) =~= Seq::<Seq<char>>::empty());
        assert(all.skip(0) =~= all);
        assert(views(self.queued_ids@) =~= Seq::<Seq<char>>::empty());
        while ids.len() > 0
            invariant
                ids@.len() == actions@.len(),
                0 <= k <= all.len(),
                views(ids@) == all.skip(k),
                self.queued_ids@.len() == self.queued_actions@.len(),
                self.applied@ == old(self).applied@,
                all == old(self).waiting_ids(),
                pending_count(views(self.queued_ids@), id@) == 0,
                forall|other: Seq<char>| other != id@ ==> #[trigger] pending_count(views(self.queued_ids@), other)
                    == pending_count(all.take(k), other),
                run@.len() == pending_count(all.take(k), id@),
            decreases ids@.len(),
        {
            let ghost before_ids = ids@;
            let this_id = ids.remove(0);
            let action = actions.remove(0);
            assert(views(before_ids)[0] == this_id@);
            assert(all.skip(k).len() == all.len() - k);
            assert(k < all.len());
            assert(all[k] == this_id@) by {
                assert(all.skip(k)[0] == all[k]);
            }
            assert(views(ids@) =~= all.skip(k + 1)) by {
                assert(ids@ =~= before_ids.subrange(1, before_ids.len() as int));
                assert(views(ids@) =~= views(before_ids).subrange(1, before_ids.len() as int));
                assert(all.skip(k).subrange(1, before_ids.len() as int) =~= all.skip(k + 1));
            }
            assert(all.take(k + 1) =~= all.take(k).push(this_id@));
            proof {
                assert forall|other: Seq<char>| #[trigger] pending_count(all.take(k + 1), other)
                    == pending_count(all.take(k), other) + if this_id@ == other { 1nat } else { 0nat } by {
                    lemma_pending_push(all.take(k), this_id@, other);
                }
            }
            if crate::text::compare_text(this_id.as_str(), id) == 0 {
                run.push(action);
            } else {
                let ghost kept_before = views(self.queued_ids@);
                self.queued_ids.push(this_id);
                self.queued_actions.push(action);
                assert(views(self.queued_ids@) =~= kept_before.push(self.queued_ids@.last()@));
                proof {
                    assert forall|other: Seq<char>| #[trigger] pending_count(views(self.queued_ids@), other)
                        == pending_count(kept_before, other) + if self.queued_ids@.last()@ == other { 1nat } else { 0nat } by {
                        lemma_pending_push(kept_before, self.queued_ids@.last()@, other);
                    }
                }
            }
            proof {
                k = k + 1;
            }
        }
        assert(all.take(k) =~= all) by {
            assert(all.skip(k).len() == 0);
        }
        let ghost none_waiting = run@.len() == 0;
        assert(none_waiting == (pending_count(old(self).waiting_ids(), id@) == 0));
        while run.len() > 0
            invariant
                none_waiting == (pending_count(old(self).waiting_ids(), id@) == 0),
                none_waiting ==> run@.len() == 0 && *target == *old(target),
                self.queued_ids@.len() == self.queued_actions@.len(),
                self.applied@ == old(self).applied@,
                pending_count(views(self.queued_ids@), id@) == 0,
                forall|other: Seq<char>| other != id@ ==> #[trigger] pending_count(views(self.queued_ids@), other)
                    == pending_count(old(self).waiting_ids(), other),
            decreases run@.len(),
        {
            let action = run.remove(0);
            match action.execute(target) {
                Ok(()) => {},
                Err(e) => {
                    return Err(e);
                },
            }
        }
        Ok(())
    }

    /// Applies this plugin if it hasn't been applied before, then runs the actions that wait
    /// for an applied plugin.
    pub fn apply<P: Plugin<T>>(&mut self, target: &mut T) -> (r: Result<(), ProjectError>)
        requires
            old(self).wf(),
        ensures
            final(self).wf(),
            r is Ok ==> exists|id: Seq<char>| #[trigger] final(self).applied_ids().contains(id)
                && final(self).applied_ids() == (if old(self).applied_ids().contains(id) {
                    old(self).applied_ids()
                } else {
                    old(self).applied_ids().push(id)
                }),
            r is Ok ==> forall|id: Seq<char>| #[trigger] final(self).applied_ids().contains(id)
                ==> pending_count(final(self).waiting_ids(), id) == 0,
            forall|id: Seq<char>| !final(self).applied_ids().contains(id)
                ==> #[trigger] pending_count(final(self).waiting_ids(), id) == pending_count(old(self).waiting_ids(), id),
            final(self).applied_ids() == old(self).applied_ids() || exists|id: Seq<char>|
                final(self).applied_ids() == #[trigger] old(self).applied_ids().push(id),
            exists|p: P, id: String| call_ensures(P::default, (), p)
                && call_ensures(P::plugin_id, (&p,), id)
                && (r is Ok ==> final(self).applied_ids() == (if old(self).applied_ids().contains(id@) {
                    old(self).applied_ids()
                } else {
                    old(self).applied_ids().push(id@)
                }))
                && (old(self).applied_ids().contains(id@) && old(self).waiting_ids().len() == 0 ==> r is Ok
                    && final(self).applied_ids() == old(self).applied_ids()
                    && *final(target) == *old(target))
                && (!old(self).applied_ids().contains(id@) ==> exists|t: &mut T, res: Result<(), ProjectError>| {
                    &&& *t == *old(target)
                    &&& call_ensures(P::apply_to, (&p, t), res)
                    &&& res is Err ==> r == res && *final(target) == *final(t)
                        && final(self).applied_ids() == old(self).applied_ids()
                    &&& res is Ok && old(self).waiting_ids().len() == 0 ==> r is Ok && *final(target) == *final(t)
                }),
    {
        let plugin = P::default();
        let id = plugin.plugin_id();
        let ghost pid = id@;
        let ghost gp = plugin;
        let ghost gid = id;
        assert(call_ensures(P::default, (), gp) && call_ensures(P::plugin_id, (&gp,), gid));
        let ghost quiet = old(self).waiting_ids().len() == 0;
        let ghost mut after_apply = *target;
        let ret = if self.has_plugin(id.as_str()) {
            Ok(())
        } else {
            let res = plugin.apply_to(target);
            proof {
                after_apply = *target;
            }
            assert(exists|t: &mut T| *t == *old(target) && call_ensures(P::apply_to, (&gp, t), res)
                && *final(t) == after_apply);
            match res {
                Ok(()) => {},
                Err(e) => {
                    return Err(e);
                },
            }
            assert(exists|t: &mut T, ok: Result<(), ProjectError>| *t == *old(target)
                && call_ensures(P::apply_to, (&gp, t), ok) && ok is Ok
                && *final(t) == after_apply);
            let ghost before = self.applied@;
            self.applied.push(id);
            assert(views(self.applied@) =~= views(before).push(pid));
            Ok(())
        };
        assert(self.applied_ids().contains(pid)) by {
            if old(self).applied_ids().contains(pid) {
                let k = choose|k: int| 0 <= k < old(self).applied_ids().len() && old(self).applied_ids()[k] == pid;
                assert(self.applied_ids()[k] == pid);
            } else {
                assert(self.applied_ids()[self.applied_ids().len() - 1] == pid);
            }
        }
        let ghost applied_now = self.applied_ids();
        let n = self.applied.len();
        let mut i: usize = 0;
        while i < n
            invariant
                n == self.applied@.len(),
                i <= n,
                self.wf(),
                self.applied_ids() == applied_now,
                call_ensures(P::default, (), gp) && call_ensures(P::plugin_id, (&gp,), gid),
                gid@ == pid,
                quiet == (old(self).waiting_ids().len() == 0),
                old(self).applied_ids().contains(pid) ==> after_apply == *old(target),
                !old(self).applied_ids().contains(pid) ==> exists|t: &mut T, ok: Result<(), ProjectError>|
                    *t == *old(target) && call_ensures(P::apply_to, (&gp, t), ok) && ok is Ok
                    && *final(t) == after_apply,
                quiet ==> (forall|x: Seq<char>| #[trigger] pending_count(self.waiting_ids(), x) == 0)
                    && *target == after_apply,
                applied_now == (if old(self).applied_ids().contains(pid) {
                    old(self).applied_ids()
                } else {
                    old(self).applied_ids().push(pid)
                }),
                applied_now.contains(pid),
                forall|k: int| 0 <= k < i ==> pending_count(self.waiting_ids(), #[trigger] applied_now[k]) == 0,
                forall|id: Seq<char>| !applied_now.contains(id)
                    ==> #[trigger] pending_count(self.waiting_ids(), id) == pending_count(old(self).waiting_ids(), id),
            decreases n - i,
        {
            let id = self.applied[i].clone();
            let ghost before = self.waiting_ids();
            let result = self.run_waiting(id.as_str(), target);
            assert(applied_now[i as int] == id@);
            assert forall|x: Seq<char>| !applied_now.contains(x)
                implies #[trigger] pending_count(self.waiting_ids(), x) == pending_count(old(self).waiting_ids(), x) by {
                assert(x != id@) by {
                    assert(applied_now[i as int] == id@);
                }
            }
            match result {
                Ok(()) => {},
                Err(e) => {
                    return Err(e);
                },
            }
            assert forall|k: int| 0 <= k < i + 1 implies pending_count(self.waiting_ids(), #[trigger] applied_now[k]) == 0 by {
                if applied_now[k] != id@ {
                    assert(pending_count(self.waiting_ids(), applied_now[k]) == pending_count(before, applied_now[k]));
                }
            }
            assert forall|x: Seq<char>| !applied_now.contains(x)
                implies #[trigger] pending_count(self.waiting_ids(), x) == pending_count(old(self).waiting_ids(), x) by {
                assert(x != id@) by {
                    assert(applied_now[i as int] == id@);
                }
            }
            i = i + 1;
        }
        proof {
            assert forall|id: Seq<char>| #[trigger] self.applied_ids().contains(id)
                implies pending_count(self.waiting_ids(), id) == 0 by {
                let k = choose|k: int| 0 <= k < applied_now.len() && applied_now[k] == id;
                assert(pending_count(self.waiting_ids(), applied_now[k]) == 0);
            }
        }
        ret
    }

    /// Performs `action` now if the plugin `id` has been applied, else when it is.
    pub fn with_plugin(&mut self, id: &str, target: &mut T, action: A) -> (r: Result<(), ProjectError>)
        requires
            old(self).wf(),
        ensures
            final(self).wf(),
            final(self).applied_ids() == old(self).applied_ids(),
            old(self).applied_ids().contains(id@) ==> final(self).waiting_ids() == old(self).waiting_ids(),
            !old(self).applied_ids().contains(id@) ==> r is Ok && final(self).waiting_ids() == old(
                self,
            ).waiting_ids().push(id@),
    {
        if self.has_plugin(id) {
            action.execute(target)
        } else {
            let ghost before = self.queued_ids@;
            self.queued_ids.push(id.to_owned());
            self.queued_actions.push(action);
            assert(views(self.queued_ids@) =~= views(before).push(id@));
            Ok(())
        }
    }
}

} // verus!
