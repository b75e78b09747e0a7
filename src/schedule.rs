use vstd::prelude::*;

use crate::game::{App, AppView, Plugins};

verus! {

/// The ordered gameplay phases of a frame.
#[derive(Clone, Copy, Debug, PartialEq, Eq, Hash, Structural)]
pub enum InGameSet {
    UserInput,
    EntityUpdates,
    CollisionDetection,
    DespawnEntities,
}

/// Orders the gameplay phases and runs them only while the game is `InGame`.
pub struct SchedulePlugin;

impl SchedulePlugin {
    pub fn build(&self, app: &mut App)
        requires
            old(app)@.wf(),
        ensures
            final(app)@ == (AppView { plugins: Plugins { schedule: true, ..old(app)@.plugins }, ..old(app)@ }),
            final(app)@.wf(),
    {
        app.plugins.schedule = true;
    }
}

} // verus!
