//! Visitors of tasks. The planning visitor compiles tasks into planned tasks.

use vstd::prelude::*;
use vstd::string::StringExecFns;
use super::Ensure;
use super::PlanError;
use super::PlannedTask;
use super::PlannedTaskView;
use super::Task;
use super::path_parent;
use super::planned_task;
use super::shell_split;
use super::task_plannable;
use super::view_planned;

verus! {

/// A visitor of tasks, such as the one that compiles a task set into a plan.
pub trait TaskVisitor {
    /// What a visit yields.
    type Out;

    /// Visits the given task.
    fn visit_task(&mut self, task: &Task) -> Result<Self::Out, PlanError>
        requires
            task_plannable(task@),
    ;
}

/// A visitor that compiles each task it visits into a planned task and keeps
/// the planned tasks in the order of the visits.
#[derive(Debug)]
pub struct PlanningTaskVisitor<'a> {
    name: &'a str,
    plan: Vec<PlannedTask>,
}

/// The value of a [`PlanningTaskVisitor`].
pub struct PlanningTaskVisitorView {
    pub name: Seq<char>,
    pub plan: Seq<PlannedTaskView>,
}

impl<'a> View for PlanningTaskVisitor<'a> {
    type V = PlanningTaskVisitorView;

    closed spec fn view(&self) -> PlanningTaskVisitorView {
        PlanningTaskVisitorView { name: self.name@, plan: view_planned(self.plan@) }
    }
}

impl<'a> PlanningTaskVisitor<'a> {
    /// A visitor with no planned tasks yet.
    pub fn new(name: &'a str) -> (r: Self)
        ensures
            r@.name == name@,
            r@.plan.len() == 0,
    {
        let r = PlanningTaskVisitor { name, plan: Vec::new() };
        assert(r@.plan =~= Seq::<PlannedTaskView>::empty());
        r
    }

    /// The name of the task set being planned.
    pub fn name(&self) -> (r: &'a str)
        ensures
            r@ == self@.name,
    {
        self.name
    }

    /// The planned tasks so far.
    pub fn plan(&self) -> (r: &Vec<PlannedTask>)
        ensures
            view_planned(r@) == self@.plan,
    {
        &self.plan
    }
}

impl<'a> TaskVisitor for PlanningTaskVisitor<'a> {
    type Out = ();

    /// Compiles the task into a planned task and keeps it; on failure nothing
    /// is kept.
    fn visit_task(&mut self, task: &Task) -> (r: Result<(), PlanError>)
        ensures
            final(self)@.name == old(self)@.name,
            match planned_task(task@) {
                Ok(p) => r is Ok && final(self)@.plan == old(self)@.plan.push(p),
                Err(e) => r == Err::<(), PlanError>(e) && final(self)@.plan == old(self)@.plan,
            },
    {
        let ghost before = self@.plan;
        match task {
            Task::Command { name, command, .. } => {
                let mut final_command: Vec<String> = Vec::new();
                let words = match shell_split(command.as_str()) {
                    Ok(words) => words,
                    Err(_) => {
                        return Err(PlanError::CommandParse);
                    },
                };
                let mut i: usize = 0;
                while i < words.len()
                    invariant
                        i <= words@.len(),
                    decreases words.len() - i,
                {
                    final_command.push(crate::text::clone_string(&words[i]));
                    i = i + 1;
                }
                let planned = match PlannedTask::from_shell_command(name.as_str(), command.as_str(), task.hosts()) {
                    Ok(p) => p,
                    Err(e) => {
                        return Err(e);
                    },
                };
                let ghost p = planned@;
                self.plan.push(planned);
                assert(self@.plan =~= before.push(p));
            },
            Task::CreateDirectory { name, path, .. } => {
                let mut command: Vec<String> = Vec::new();
                command.push(String::from_str("mkdir"));
                command.push(crate::text::clone_string(path));
                let mut checks: Vec<Ensure> = Vec::new();
                checks.push(Ensure::DirectoryDoesntExist { path: crate::text::clone_string(path) });
                let planned = PlannedTask::new(crate::text::clone_string(name), command, checks, task.hosts());
                let ghost p = planned@;
                assert(p.command =~= seq!["mkdir"@, path@]);
                assert(p.checks =~= seq![super::EnsureView::DirectoryDoesntExist { path: path@ }]);
                self.plan.push(planned);
                assert(self@.plan =~= before.push(p));
            },
            Task::TouchFile { name, path, .. } => {
                let mut command: Vec<String> = Vec::new();
                command.push(String::from_str("touch"));
                command.push(crate::text::clone_string(path));
                let parent = match path_parent(path.as_str()) {
                    Some(p) => p,
                    None => {
                        assert(false);
                        String::new()
                    },
                };
                let mut checks: Vec<Ensure> = Vec::new();
                checks.push(Ensure::ExeExists { exe: String::from_str("touch") });
                checks.push(Ensure::DirectoryExists { path: parent });
                let planned = PlannedTask::new(crate::text::clone_string(name), command, checks, task.hosts());
                let ghost p = planned@;
                assert(p.command =~= seq!["touch"@, path@]);
                assert(p.checks =~= seq![
                    super::EnsureView::ExeExists { exe: "touch"@ },
                    super::EnsureView::DirectoryExists { path: super::path_parent_of(path@)->0 },
                ]);
                self.plan.push(planned);
                assert(self@.plan =~= before.push(p));
            },
        }
        Ok(())
    }
}

} // verus!
