//! The task service's view of a task: the task with the shortest prefix that
//! names it and the hue of its project.
use vstd::prelude::*;

use crate::entities::task::Task;
use crate::repositories::task_prefix::{
    apply_writes, shortest_unique_prefix, with_ids, writes_well_kinded, NodeWrite, TaskPrefixRepository,
};
use crate::text::copy_string;
use vstd::utf8::is_ascii_chars;
use crate::text::string_eq;

verus! {

/// A task with what the task service adds to it.
#[derive(Clone, Debug)]
pub struct TaskWithMeta {
    pub task: Task,
    /// The shortest prefix of the task's id that names it alone.
    pub prefix: String,
    /// The hue of the task's project, when it has one.
    pub project_color_hue: Option<u32>,
}

/// Why the task service failed.
#[derive(Clone, Debug)]
pub enum TaskServiceError {
    /// A prefixed id matched several tasks, whose ids are given.
    RefError(Vec<String>),
    /// Any other failure, with its message.
    Default(String),
}

impl TaskServiceError {
    /// Wraps the message of another failure.
    pub fn from(message: String) -> (r: TaskServiceError)
        ensures
            r matches TaskServiceError::Default(m) && m@ == message@,
    {
        TaskServiceError::Default(message)
    }
}

/// A project and its hue.
#[derive(Clone, Debug)]
pub struct ProjectHue {
    pub project: String,
    pub hue: u32,
}

/// The hue of the first entry for `project`, if any.
pub open spec fn hue_of(colors: Seq<ProjectHue>, project: Seq<char>) -> Option<u32>
    decreases colors.len(),
{
    if colors.len() == 0 {
        None
    } else if colors[0].project@ == project {
        Some(colors[0].hue)
    } else {
        hue_of(colors.drop_first(), project)
    }
}

/// The hue of `project` in `colors`.
fn find_hue(colors: &Vec<ProjectHue>, project: &String) -> (r: Option<u32>)
    ensures
        r == hue_of(colors@, project@),
{
    let mut i: usize = 0;
    assert(colors@.skip(0) =~= colors@);
    while i < colors.len()
        invariant
            i <= colors@.len(),
            hue_of(colors@, project@) == hue_of(colors@.skip(i as int), project@),
        decreases colors@.len() - i,
    {
        proof {
            assert(colors@.skip(i as int).drop_first() =~= colors@.skip(i + 1int));
        }
        if string_eq(&colors[i].project, project) {
            return Some(colors[i].hue);
        }
        i = i + 1;
    }
    assert(colors@.skip(i as int).len() == 0);
    None
}

/// `m` is `task` with the prefix that `ids` give its id and the hue `hue`.
pub open spec fn with_meta(ids: Set<Seq<char>>, task: Task, hue: Option<u32>, m: TaskWithMeta) -> bool {
    &&& m.task == task
    &&& m.prefix@ == shortest_unique_prefix(ids, task.id@)
    &&& m.project_color_hue == hue
}

/// The hue that `colors` give a task's project: none for a task without one.
pub open spec fn project_hue(colors: Seq<ProjectHue>, task: Task) -> Option<u32> {
    match task.project {
        Some(p) => hue_of(colors, p@),
        None => None,
    }
}

/// Every task with a project has a hue for it.
pub open spec fn hues_cover(colors: Seq<ProjectHue>, tasks: Seq<Task>) -> bool {
    forall|i: int| 0 <= i < tasks.len() ==> ((#[trigger] tasks[i]).project matches Some(p) ==> hue_of(colors, p@) is Some)
}

/// The task service, with the prefix index of the task ids.
pub struct TaskServiceInner {
    pub task_prefix_repository: TaskPrefixRepository,
}

impl TaskServiceInner {
    /// `task` with its shortest unique prefix and the hue its project was
    /// given (`project_hue`, read only when the task has a project).
    pub fn task_with_meta(&self, task: Task, project_hue: Option<u32>) -> (r: TaskWithMeta)
        requires
            self.task_prefix_repository.wf(),
        ensures
            with_meta(
                self.task_prefix_repository.indexed_ids(),
                task,
                if task.project is Some { project_hue } else { None },
                r,
            ),
    {
        let prefix = self.task_prefix_repository.find_shortest_unique_prefix(task.id.as_str());
        let project_color_hue = match &task.project {
            Some(_) => project_hue,
            None => None,
        };
        TaskWithMeta { task, prefix, project_color_hue }
    }

    /// A task that was just started: its id joins the prefix index (the
    /// returned writes bring the index's store up to date), and the task is
    /// returned with its shortest unique prefix among the ids indexed now and
    /// the hue its project was given.
    pub fn start_new_task(&mut self, task: Task, project_hue: Option<u32>) -> (r: (TaskWithMeta, Vec<NodeWrite>))
        requires
            old(self).task_prefix_repository.wf(),
            is_ascii_chars(task.id@),
        ensures
            final(self).task_prefix_repository.wf(),
            final(self).task_prefix_repository.indexed_ids() == with_ids(
                old(self).task_prefix_repository.indexed_ids(),
                seq![task.id],
            ),
            writes_well_kinded(old(self).task_prefix_repository@, r.1@),
            apply_writes(old(self).task_prefix_repository@, r.1@) == final(self).task_prefix_repository@,
            with_meta(
                final(self).task_prefix_repository.indexed_ids(),
                task,
                if task.project is Some { project_hue } else { None },
                r.0,
            ),
    {
        let ids = vec![copy_string(&task.id)];
        proof {
            assert(ids@ =~= seq![task.id]);
        }
        let writes = self.task_prefix_repository.add_ids(ids.as_slice());
        let meta = self.task_with_meta(task, project_hue);
        (meta, writes)
    }

    /// Each task, in order, with its shortest unique prefix and the hue of
    /// its project among `colors`, which must hold one for every project.
    pub fn tasks_with_meta(&self, tasks: Vec<Task>, colors: &Vec<ProjectHue>) -> (r: Vec<TaskWithMeta>)
        requires
            self.task_prefix_repository.wf(),
            hues_cover(colors@, tasks@),
        ensures
            r@.len() == tasks@.len(),
            forall|i: int|
                0 <= i < tasks@.len() ==> with_meta(
                    self.task_prefix_repository.indexed_ids(),
                    tasks@[i],
                    project_hue(colors@, tasks@[i]),
                    #[trigger] r@[i],
                ),
    {
        let ghost all = tasks@;
        let ids = Ghost(self.task_prefix_repository.indexed_ids());
        let mut rest = tasks;
        let mut newest_first: Vec<TaskWithMeta> = Vec::new();
        while rest.len() > 0
            invariant
                self.task_prefix_repository.wf(),
                ids@ == self.task_prefix_repository.indexed_ids(),
                rest@ == all.take(rest@.len() as int),
                rest@.len() <= all.len(),
                newest_first@.len() == all.len() - rest@.len(),
                forall|i: int|
                    0 <= i < newest_first@.len() ==> with_meta(
                        ids@,
                        all[all.len() - 1 - i],
                        project_hue(colors@, all[all.len() - 1 - i]),
                        #[trigger] newest_first@[i],
                    ),
            decreases rest@.len(),
        {
            let task = rest.pop().unwrap();
            proof {
                assert(rest@ =~= all.take(rest@.len() as int)) by {
                    assert(all.take(rest@.len() + 1int).drop_last() =~= all.take(rest@.len() as int));
                }
            }
            let hue = match &task.project {
                Some(p) => find_hue(colors, p),
                None => None,
            };
            let m = self.task_with_meta(task, hue);
            newest_first.push(m);
        }
        let ghost built = newest_first@;
        let mut acc: Vec<TaskWithMeta> = Vec::new();
        while newest_first.len() > 0
            invariant
                built.len() == all.len(),
                newest_first@ == built.take(newest_first@.len() as int),
                newest_first@.len() <= built.len(),
                acc@.len() == built.len() - newest_first@.len(),
                forall|i: int|
                    0 <= i < built.len() ==> with_meta(
                        ids@,
                        all[all.len() - 1 - i],
                        project_hue(colors@, all[all.len() - 1 - i]),
                        #[trigger] built[i],
                    ),
                forall|i: int| 0 <= i < acc@.len() ==> #[trigger] acc@[i] == built[built.len() - 1 - i],
            decreases newest_first@.len(),
        {
            let m = newest_first.pop().unwrap();
            proof {
                assert(newest_first@ =~= built.take(newest_first@.len() as int)) by {
                    assert(built.take(newest_first@.len() + 1int).drop_last() =~= built.take(newest_first@.len() as int));
                }
            }
            acc.push(m);
        }
        proof {
            assert forall|i: int| 0 <= i < all.len() implies with_meta(
                ids@,
                all[i],
                project_hue(colors@, all[i]),
                #[trigger] acc@[i],
            ) by {
                let j = built.len() - 1 - i;
                assert(acc@[i] == built[j]);
                assert(all.len() - 1 - j == i);
            }
        }
        acc
    }
}

/// The hue that a task's project gets is the one recorded for that very
/// project, at its first record; a project with no record gets none.
pub proof fn law_hue_is_the_projects_own(colors: Seq<ProjectHue>, project: Seq<char>)
    ensures
        hue_of(colors, project) matches Some(h) ==> exists|i: int|
            0 <= i < colors.len() && colors[i].project@ == project && colors[i].hue == h && forall|j: int|
                0 <= j < i ==> #[trigger] colors[j].project@ != project,
        hue_of(colors, project) is None ==> forall|i: int|
            0 <= i < colors.len() ==> #[trigger] colors[i].project@ != project,
    decreases colors.len(),
{
    if colors.len() > 0 {
        let tail = colors.drop_first();
        law_hue_is_the_projects_own(tail, project);
        if colors[0].project@ == project {
            assert(forall|j: int| 0 <= j < 0 ==> #[trigger] colors[j].project@ != project);
        } else {
            if let Some(h) = hue_of(colors, project) {
                let i = choose|i: int|
                    0 <= i < tail.len() && tail[i].project@ == project && tail[i].hue == h && forall|j: int|
                        0 <= j < i ==> #[trigger] tail[j].project@ != project;
                assert(colors[i + 1] == tail[i]);
                assert forall|j: int| 0 <= j < i + 1 implies #[trigger] colors[j].project@ != project by {
                    if j > 0 {
                        assert(colors[j] == tail[j - 1]);
                    }
                }
            } else {
                assert forall|i: int| 0 <= i < colors.len() implies #[trigger] colors[i].project@ != project by {
                    if i > 0 {
                        assert(colors[i] == tail[i - 1]);
                    }
                }
            }
        }
    }
}

} // verus!
