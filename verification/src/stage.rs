//! A build stage: what the scripting layer hands to a runner.

use crate::task::CommandStr;
use vstd::prelude::*;

verus! {

/// A named list of commands, to be run in this order as one run.
#[derive(Debug)]
pub struct BuildStage {
    pub name: String,
    pub commands: Vec<CommandStr>,
}

/// A [`BuildStage`] as plain values.
pub struct BuildStageView {
    pub name: Seq<char>,
    pub commands: Seq<Seq<Seq<char>>>,
}

impl BuildStageView {
    /// Every command names a program.
    pub open spec fn wf(self) -> bool {
        forall|i: int| 0 <= i < self.commands.len() ==> (#[trigger] self.commands[i]).len() > 0
    }
}

impl View for BuildStage {
    type V = BuildStageView;

    open spec fn view(&self) -> BuildStageView {
        BuildStageView { name: self.name@, commands: self.commands.deep_view() }
    }
}

impl BuildStage {
    /// Whether the stage can be run: no command of it is empty.
    pub fn is_valid(&self) -> (valid: bool)
        ensures
            valid == self@.wf(),
    {
        let mut i: usize = 0;
        while i < self.commands.len()
            invariant
                i <= self.commands.len(),
                forall|j: int| 0 <= j < i ==> (#[trigger] self@.commands[j]).len() > 0,
            decreases self.commands.len() - i,
        {
            assert(self@.commands[i as int] == self.commands[i as int].deep_view());
            if self.commands[i].len() == 0 {
                return false;
            }
            i += 1;
        }
        true
    }
}

} // verus!
