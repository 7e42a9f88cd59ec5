//! Deployment of test runs.
use vstd::prelude::*;

verus! {

/// Identifies a run of a test.
#[derive(Clone, Copy, Debug, PartialEq, Eq, Structural)]
pub struct ViperRunId {
    pub id: u128,
}

/// Identifies a test.
#[derive(Clone, Copy, Debug, PartialEq, Eq, Structural)]
pub struct ViperTestId {
    pub id: u128,
}

/// A test together with one of its runs.
#[derive(Debug)]
pub struct ViperRunDeployment {
    pub run_id: ViperRunId,
    pub test_id: ViperTestId,
}

impl Clone for ViperRunDeployment {
    fn clone(&self) -> (res: Self)
        ensures
            res == *self,
    {
        ViperRunDeployment { run_id: self.run_id, test_id: self.test_id }
    }
}

/// A clone of a deployment is that of the same run of the same test.
pub proof fn clone_keeps_run_and_test(deployment: ViperRunDeployment, clone: ViperRunDeployment)
    requires
        call_ensures(ViperRunDeployment::clone, (&deployment,), clone),
    ensures
        clone.run_id.id == deployment.run_id.id,
        clone.test_id.id == deployment.test_id.id,
{
}

} // verus!
