//! The tasks requested of a build, in order, with the options decoder of each configured task.

use vstd::prelude::*;
use crate::identifier::{ProjectId, TaskId};
use crate::project::finder::{find_tasks_spec, project_part, ProjectTree, TaskFinder, TaskPath, TaskRegistry};
use crate::project::ProjectError;
use crate::text::views;

verus! {

/// The identifiers of a sequence of tasks.
pub open spec fn task_ids(s: Seq<TaskId>) -> Seq<Seq<Seq<char>>> {
    s.map_values(|t: TaskId| t@)
}

/// The decoder index last recorded for `key`.
pub open spec fn last_index(entries: Seq<(TaskId, usize)>, key: Seq<Seq<char>>) -> Option<usize>
    decreases entries.len(),
{
    if entries.len() == 0 {
        None
    } else if entries.last().0@ == key {
        Some(entries.last().1)
    } else {
        last_index(entries.drop_last(), key)
    }
}

/// The finalized tasks requests.
#[derive(Debug)]
pub struct TaskRequests<D> {
    task_to_weak_decoder: Vec<(TaskId, usize)>,
    weak_decoders: Vec<D>,
    tasks: Vec<TaskId>,
}

impl<D> TaskRequests<D> {
    /// Every recorded decoder index names a decoder.
    pub closed spec fn wf(self) -> bool {
        forall|i: int| 0 <= i < self.task_to_weak_decoder@.len()
            ==> #[trigger] self.task_to_weak_decoder@[i].1 < self.weak_decoders@.len()
    }

    /// The requested tasks, in order.
    pub closed spec fn tasks(self) -> Seq<Seq<Seq<char>>> {
        task_ids(self.tasks@)
    }

    /// The decoder recorded for the task `id`, if any.
    pub closed spec fn decoder_of(self, id: Seq<Seq<char>>) -> Option<D> {
        match last_index(self.task_to_weak_decoder@, id) {
            Some(i) => Some(self.weak_decoders@[i as int]),
            None => None,
        }
    }

    proof fn lemma_last_index_valid(self, key: Seq<Seq<char>>, entries: Seq<(TaskId, usize)>)
        requires
            forall|i: int| 0 <= i < entries.len() ==> #[trigger] entries[i].1 < self.weak_decoders@.len(),
        ensures
            last_index(entries, key) matches Some(i) ==> i < self.weak_decoders@.len(),
        decreases entries.len(),
    {
        if entries.len() > 0 && entries.last().0@ != key {
            assert forall|i: int| 0 <= i < entries.drop_last().len() implies #[trigger] entries.drop_last()[i].1
                < self.weak_decoders@.len() by {
                assert(entries.drop_last()[i] == entries[i]);
            }
            self.lemma_last_index_valid(key, entries.drop_last());
        }
    }

    /// Get the decoder for a given task id
    pub fn decoder(&self, id: &TaskId) -> (r: Option<D>)
        where
            D: Clone,
        requires
            self.wf(),
        ensures
            match self.decoder_of(id@) {
                Some(d) => (r matches Some(c) && cloned(d, c)),
                None => r is None,
            },
    {
        proof {
            self.lemma_last_index_valid(id@, self.task_to_weak_decoder@);
        }
        let mut k = self.task_to_weak_decoder.len();
        let ghost entries = self.task_to_weak_decoder@;
        assert(entries.take(k as int) =~= entries);
        while k > 0
            invariant
                self.wf(),
                k <= entries.len(),
                entries == self.task_to_weak_decoder@,
                last_index(entries.take(k as int), id@) == last_index(entries, id@),
            decreases k,
        {
            assert(entries.take(k as int).last() == entries[k - 1]);
            if self.task_to_weak_decoder[k - 1].0.id().same_as(id.id()) {
                let index = self.task_to_weak_decoder[k - 1].1;
                assert(self.task_to_weak_decoder@[k - 1].1 < self.weak_decoders@.len());
                return Some(self.weak_decoders[index].clone());
            }
            assert(entries.take(k as int).drop_last() =~= entries.take(k - 1));
            k = k - 1;
        }
        assert(entries.take(0) =~= Seq::<(TaskId, usize)>::empty());
        None
    }

    /// Tasks requests, in-order
    pub fn requested_tasks(&self) -> (r: &[TaskId])
        ensures
            task_ids(r@) == self.tasks(),
    {
        self.tasks.as_slice()
    }
}

/// Builds a [`TaskRequests`] by adding tasks in order.
pub struct TaskRequestsBuilder<D> {
    in_progress: TaskRequests<D>,
}

impl<D> TaskRequestsBuilder<D> {
    /// What has been built so far.
    pub closed spec fn built(self) -> TaskRequests<D> {
        self.in_progress
    }

    pub fn new() -> (r: Self)
        ensures
            r.built().wf(),
            r.built().tasks() == Seq::<Seq<Seq<char>>>::empty(),
            forall|id: Seq<Seq<char>>| #[trigger] r.built().decoder_of(id) is None,
    {
        let r = Self {
            in_progress: TaskRequests { task_to_weak_decoder: Vec::new(), weak_decoders: Vec::new(), tasks: Vec::new() },
        };
        assert(r.built().tasks() =~= Seq::<Seq<Seq<char>>>::empty());
        r
    }

    /// The requests built.
    pub fn finish(self) -> (r: TaskRequests<D>)
        ensures
            r == self.built(),
    {
        self.in_progress
    }

    /// Adds tasks that take no options.
    pub fn add_tasks(&mut self, tasks: Vec<TaskId>)
        requires
            old(self).built().wf(),
        ensures
            final(self).built().wf(),
            final(self).built().tasks() == old(self).built().tasks() + task_ids(tasks@),
            forall|id: Seq<Seq<char>>| #[trigger] final(self).built().decoder_of(id) == old(self).built().decoder_of(id),
    {
        let mut i: usize = 0;
        let ghost start = self.in_progress.tasks@;
        while i < tasks.len()
            invariant
                i <= tasks@.len(),
                task_ids(self.in_progress.tasks@) == task_ids(start) + task_ids(tasks@).take(i as int),
                self.in_progress.task_to_weak_decoder@ == old(self).in_progress.task_to_weak_decoder@,
                self.in_progress.weak_decoders@ == old(self).in_progress.weak_decoders@,
                start == old(self).in_progress.tasks@,
            decreases tasks@.len() - i,
        {
            let t = tasks[i].clone();
            let ghost before = self.in_progress.tasks@;
            self.in_progress.tasks.push(t);
            assert(task_ids(self.in_progress.tasks@) =~= task_ids(before).push(t@));
            assert(task_ids(tasks@).take(i + 1) =~= task_ids(tasks@).take(i as int).push(tasks@[i as int]@));
            i = i + 1;
        }
        assert(task_ids(tasks@).take(tasks@.len() as int) =~= task_ids(tasks@));
    }

    /// Adds tasks that share the options decoder `decoder`.
    pub fn add_configured_tasks(&mut self, tasks: Vec<TaskId>, decoder: D)
        requires
            old(self).built().wf(),
        ensures
            final(self).built().wf(),
            final(self).built().tasks() == old(self).built().tasks() + task_ids(tasks@),
            forall|id: Seq<Seq<char>>| #[trigger] final(self).built().decoder_of(id) == (
                if task_ids(tasks@).contains(id) { Some(decoder) } else { old(self).built().decoder_of(id) }),
    {
        let index = self.in_progress.weak_decoders.len();
        self.in_progress.weak_decoders.push(decoder);
        let ghost start = self.in_progress.tasks@;
        let ghost start_map = self.in_progress.task_to_weak_decoder@;
        let mut i: usize = 0;
        while i < tasks.len()
            invariant
                i <= tasks@.len(),
                index == old(self).in_progress.weak_decoders@.len(),
                self.in_progress.weak_decoders@ == old(self).in_progress.weak_decoders@.push(decoder),
                task_ids(self.in_progress.tasks@) == task_ids(start) + task_ids(tasks@).take(i as int),
                start == old(self).in_progress.tasks@,
                start_map == old(self).in_progress.task_to_weak_decoder@,
                forall|k: int| 0 <= k < self.in_progress.task_to_weak_decoder@.len()
                    ==> #[trigger] self.in_progress.task_to_weak_decoder@[k].1 < self.in_progress.weak_decoders@.len(),
                forall|id: Seq<Seq<char>>| #[trigger] last_index(self.in_progress.task_to_weak_decoder@, id) == (
                    if task_ids(tasks@).take(i as int).contains(id) { Some(index) } else { last_index(start_map, id) }),
            decreases tasks@.len() - i,
        {
            let t = tasks[i].clone();
            let ghost before = self.in_progress.tasks@;
            let ghost before_map = self.in_progress.task_to_weak_decoder@;
            self.in_progress.tasks.push(t.clone());
            self.in_progress.task_to_weak_decoder.push((t, index));
            assert(task_ids(self.in_progress.tasks@) =~= task_ids(before).push(tasks@[i as int]@));
            assert(task_ids(tasks@).take(i + 1) =~= task_ids(tasks@).take(i as int).push(tasks@[i as int]@));
            assert(self.in_progress.task_to_weak_decoder@.drop_last() =~= before_map);
            assert forall|id: Seq<Seq<char>>| #[trigger] last_index(self.in_progress.task_to_weak_decoder@, id) == (
                if task_ids(tasks@).take(i + 1).contains(id) { Some(index) } else { last_index(start_map, id) }) by {
                let pushed = self.in_progress.task_to_weak_decoder@;
                assert(pushed.last() == (t, index));
                assert(last_index(pushed, id) == if t@ == id { Some(index) } else { last_index(before_map, id) });
                if id == tasks@[i as int]@ {
                    assert(task_ids(tasks@).take(i + 1)[i as int] == id);
                } else {
                    assert(task_ids(tasks@).take(i + 1).contains(id) == task_ids(tasks@).take(i as int).contains(id)) by {
                        if task_ids(tasks@).take(i + 1).contains(id) {
                            let j = choose|j: int| 0 <= j < i + 1 && #[trigger] task_ids(tasks@).take(i + 1)[j] == id;
                            assert(task_ids(tasks@).take(i as int)[j] == id);
                        }
                        if task_ids(tasks@).take(i as int).contains(id) {
                            let j = choose|j: int| 0 <= j < i && #[trigger] task_ids(tasks@).take(i as int)[j] == id;
                            assert(task_ids(tasks@).take(i + 1)[j] == id);
                        }
                    }
                }
            }
            i = i + 1;
        }
        assert(task_ids(tasks@).take(tasks@.len() as int) =~= task_ids(tasks@));
        proof {
            assert forall|id: Seq<Seq<char>>| #[trigger] self.built().decoder_of(id) == (
                if task_ids(tasks@).contains(id) { Some(decoder) } else { old(self).built().decoder_of(id) }) by {
                if !task_ids(tasks@).contains(id) {
                    let li = last_index(start_map, id);
                    if li is Some {
                        old(self).in_progress.lemma_last_index_valid(id, start_map);
                        assert(self.in_progress.weak_decoders@[li.unwrap() as int]
                            == old(self).in_progress.weak_decoders@[li.unwrap() as int]);
                    }
                }
            }
        }
    }
}

/// Whether the request `path` fails: it names no project, or no task.
pub open spec fn request_fails(ids: Seq<Seq<Seq<char>>>, tasks: TaskRegistry, base: Seq<Seq<char>>, path: Seq<char>) -> bool {
    match find_tasks_spec(ids, tasks, base, path) {
        None => true,
        Some(found) => found.len() == 0,
    }
}

/// The position of the first request of `reqs` that fails, or the number of requests when
/// none does.
pub open spec fn first_failing(
    ids: Seq<Seq<Seq<char>>>,
    tasks: TaskRegistry,
    base: Seq<Seq<char>>,
    reqs: Seq<Seq<char>>,
) -> int
    decreases reqs.len(),
{
    if reqs.len() == 0 {
        0
    } else {
        let k = first_failing(ids, tasks, base, reqs.drop_last());
        if k < reqs.len() - 1 {
            k
        } else if request_fails(ids, tasks, base, reqs.last()) {
            reqs.len() - 1
        } else {
            reqs.len() as int
        }
    }
}

/// The tasks that the requests `reqs` name, in order.
pub open spec fn all_found(
    ids: Seq<Seq<Seq<char>>>,
    tasks: TaskRegistry,
    base: Seq<Seq<char>>,
    reqs: Seq<Seq<char>>,
) -> Seq<Seq<Seq<char>>>
    decreases reqs.len(),
{
    if reqs.len() == 0 {
        Seq::empty()
    } else {
        all_found(ids, tasks, base, reqs.drop_last()) + match find_tasks_spec(ids, tasks, base, reqs.last()) {
            Some(found) => found,
            None => Seq::empty(),
        }
    }
}

impl<D> TaskRequests<D> {
    /// Build a task requests object from the requests `args`, or from the project's default
    /// tasks `defaults` when there are none. Each request is a task path searched for from the
    /// project `project`; the tasks each names are requested in order. No task here declares
    /// options, so no request is taken as the value of an option.
    ///
    /// # Error
    /// The error of the first request that fails: `ProjectNotFound` when its project part
    /// names no project, `NoIdentifiersFound` with the request when it names no task.
    pub fn build(
        tree: &ProjectTree,
        tasks: &TaskRegistry,
        project: &ProjectId,
        defaults: &Vec<String>,
        args: &Vec<String>,
    ) -> (r: Result<TaskRequests<D>, ProjectError>)
        requires
            tree.wf(),
        ensures
            ({
                let reqs = if args@.len() == 0 { views(defaults@) } else { views(args@) };
                let k = first_failing(tree.ids(), *tasks, project@, reqs);
                &&& k == reqs.len() ==> (r matches Ok(t) && t.wf()
                    && t.tasks() == all_found(tree.ids(), *tasks, project@, reqs)
                    && forall|id: Seq<Seq<char>>| #[trigger] t.decoder_of(id) is None)
                &&& k < reqs.len() ==> match find_tasks_spec(tree.ids(), *tasks, project@, reqs[k]) {
                    None => r matches Err(ProjectError::ProjectNotFound(p)) && p@ == project_part(reqs[k]),
                    Some(_) => r matches Err(ProjectError::NoIdentifiersFound(s)) && s@ == reqs[k],
                }
            }),
    {
        let reqs = if args.len() == 0 { defaults } else { args };
        let ghost rs = views(reqs@);
        assert(rs == (if args@.len() == 0 { views(defaults@) } else { views(args@) }));
        let mut builder: TaskRequestsBuilder<D> = TaskRequestsBuilder::new();
        let finder = TaskFinder::new(project);
        let mut i: usize = 0;
        assert(rs.take(0) =~= Seq::<Seq<char>>::empty());
        while i < reqs.len()
            invariant
                tree.wf(),
                rs == views(reqs@),
                rs == (if args@.len() == 0 { views(defaults@) } else { views(args@) }),
                rs.len() == reqs@.len(),
                i <= reqs@.len(),
                finder.base() == project@,
                first_failing(tree.ids(), *tasks, project@, rs.take(i as int)) == i,
                builder.built().wf(),
                builder.built().tasks() == all_found(tree.ids(), *tasks, project@, rs.take(i as int)),
                forall|id: Seq<Seq<char>>| #[trigger] builder.built().decoder_of(id) is None,
            decreases reqs@.len() - i,
        {
            let ghost prefix = rs.take(i as int);
            assert(rs.take(i + 1).drop_last() =~= prefix);
            assert(rs.take(i + 1).last() == rs[i as int]);
            assert(rs[i as int] == reqs@[i as int]@);
            let path = TaskPath::new(reqs[i].as_str());
            match finder.find(tree, tasks, &path) {
                Err(e) => {
                    assert(find_tasks_spec(tree.ids(), *tasks, project@, rs[i as int]) is None);
                    proof {
                        lemma_first_failing_prefix(tree.ids(), *tasks, project@, rs, i as int);
                    }
                    assert(first_failing(tree.ids(), *tasks, project@, rs) == i);
                    return Err(e);
                },
                Ok(None) => {
                    proof {
                        lemma_first_failing_prefix(tree.ids(), *tasks, project@, rs, i as int);
                    }
                    assert(first_failing(tree.ids(), *tasks, project@, rs) == i);
                    let text = reqs[i].clone();
                    assert(text@ == rs[i as int]);
                    return Err(ProjectError::NoIdentifiersFound(text));
                },
                Ok(Some(ids)) => {
                    builder.add_tasks(ids);
                },
            }
            i = i + 1;
        }
        assert(rs.take(i as int) =~= rs);
        Ok(builder.finish())
    }
}

/// When the first `i` requests of `reqs` all succeed and request `i` fails, request `i` is
/// the first that fails.
proof fn lemma_first_failing_prefix(
    ids: Seq<Seq<Seq<char>>>,
    tasks: TaskRegistry,
    base: Seq<Seq<char>>,
    reqs: Seq<Seq<char>>,
    i: int,
)
    requires
        0 <= i < reqs.len(),
        first_failing(ids, tasks, base, reqs.take(i)) == i,
        request_fails(ids, tasks, base, reqs[i]),
    ensures
        first_failing(ids, tasks, base, reqs) == i,
    decreases reqs.len(),
{
    if reqs.len() == i + 1 {
        assert(reqs.drop_last() =~= reqs.take(i));
    } else {
        assert(reqs.drop_last().take(i) =~= reqs.take(i));
        lemma_first_failing_prefix(ids, tasks, base, reqs.drop_last(), i);
    }
}

} // verus!
