use vstd::prelude::*;

verus! {

/// The tasks that a request can name.
#[derive(Debug, Clone, Copy, PartialEq, Eq)]
pub enum Task {
    FeatureDesign,
    Formation,
}

/// The task named `id`, if there is one; an unknown name is rejected before
/// any model call.
pub fn task_for(id: &str) -> (r: Option<Task>)
    ensures
        r == if id@ == "FeatureDesign"@ {
            Some(Task::FeatureDesign)
        } else if id@ == "Formation"@ {
            Some(Task::Formation)
        } else {
            None::<Task>
        },
{
    let name = String::from_str(id);
    if name == String::from_str("FeatureDesign") {
        Some(Task::FeatureDesign)
    } else if name == String::from_str("Formation") {
        Some(Task::Formation)
    } else {
        None
    }
}

} // verus!
