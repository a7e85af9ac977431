//! The container commands that deployments run: their arguments after `docker`, and the
//! order in which an image rollout checks its business and runs them.

use vstd::prelude::*;

use crate::framework::state::State;

verus! {

/// The arguments that pull an image: `pull image`.
pub fn pull_image_args(image: &str) -> (args: Vec<String>)
    ensures
        args@.len() == 2,
        args@[0]@ == "pull"@,
        args@[1]@ == image@,
{
    let mut args: Vec<String> = Vec::new();
    args.push(String::from_str("pull"));
    args.push(String::from_str(image));
    args
}

/// The arguments that recreate a container of a compose file:
/// `compose -f file up -d container --force-recreate`.
pub fn compose_up_args(compose_file: &str, container_name: &str) -> (args: Vec<String>)
    ensures
        args@.len() == 7,
        args@[0]@ == "compose"@,
        args@[1]@ == "-f"@,
        args@[2]@ == compose_file@,
        args@[3]@ == "up"@,
        args@[4]@ == "-d"@,
        args@[5]@ == container_name@,
        args@[6]@ == "--force-recreate"@,
{
    let mut args: Vec<String> = Vec::new();
    args.push(String::from_str("compose"));
    args.push(String::from_str("-f"));
    args.push(String::from_str(compose_file));
    args.push(String::from_str("up"));
    args.push(String::from_str("-d"));
    args.push(String::from_str(container_name));
    args.push(String::from_str("--force-recreate"));
    args
}

/// The arguments that reload the configuration of Nginx in its container:
/// `exec container nginx -s reload`.
pub fn reload_args(container_name: &str) -> (args: Vec<String>)
    ensures
        args@.len() == 5,
        args@[0]@ == "exec"@,
        args@[1]@ == container_name@,
        args@[2]@ == "nginx"@,
        args@[3]@ == "-s"@,
        args@[4]@ == "reload"@,
{
    let mut args: Vec<String> = Vec::new();
    args.push(String::from_str("exec"));
    args.push(String::from_str(container_name));
    args.push(String::from_str("nginx"));
    args.push(String::from_str("-s"));
    args.push(String::from_str("reload"));
    args
}

/// Where an image rollout stands: it checks its business, pulls the image, checks its
/// business again, and recreates the container.
#[derive(Debug, Clone, Copy, PartialEq, Eq, Structural)]
pub enum RolloutStage {
    /// The business is checked before the image is pulled.
    BeforePull,
    /// The image is being pulled.
    Pulling,
    /// The business is checked before the container is recreated.
    BeforeComposeUp,
    /// The container is being recreated.
    ComposingUp,
    /// The rollout has ended.
    Done,
}

/// What an image rollout does next.
#[derive(Debug, PartialEq, Eq)]
pub enum RolloutAction {
    /// Check the business against the latest one of its id.
    CheckBusiness,
    /// Pull the image (`pull_image_args`).
    PullImage,
    /// Recreate the container (`compose_up_args`).
    ComposeUp,
    /// End the transaction with this state.
    Finish(State<()>),
}

/// The next stage and action after a check in `stage`: a success moves on to the
/// command, a retry or a stop ends the transaction with it.
pub open spec fn spec_rollout_checked(stage: RolloutStage, checked: State<()>) -> (RolloutStage, RolloutAction) {
    match checked {
        State::Success(_) => if stage == RolloutStage::BeforePull {
            (RolloutStage::Pulling, RolloutAction::PullImage)
        } else {
            (RolloutStage::ComposingUp, RolloutAction::ComposeUp)
        },
        State::Retry => (RolloutStage::Done, RolloutAction::Finish(State::Retry)),
        State::Stop => (RolloutStage::Done, RolloutAction::Finish(State::Stop)),
    }
}

/// The next stage and action after the command of `stage` ran: a failed command ends
/// the transaction with a retry; a pulled image is followed by a second check, and a
/// recreated container ends the transaction with a success.
pub open spec fn spec_rollout_ran(stage: RolloutStage, succeeded: bool) -> (RolloutStage, RolloutAction) {
    if !succeeded {
        (RolloutStage::Done, RolloutAction::Finish(State::Retry))
    } else if stage == RolloutStage::Pulling {
        (RolloutStage::BeforeComposeUp, RolloutAction::CheckBusiness)
    } else {
        (RolloutStage::Done, RolloutAction::Finish(State::Success(())))
    }
}

/// The decisions of one image rollout transaction (an update of the server or of a
/// website container).
pub struct Rollout {
    stage: RolloutStage,
}

impl View for Rollout {
    type V = RolloutStage;

    closed spec fn view(&self) -> RolloutStage {
        self.stage
    }
}

impl Rollout {
    /// A rollout that starts by checking its business.
    pub fn new() -> (r: Rollout)
        ensures
            r@ == RolloutStage::BeforePull,
    {
        Rollout { stage: RolloutStage::BeforePull }
    }

    /// Decides the next action after the business was checked.
    pub fn after_check(&mut self, checked: State<()>) -> (a: RolloutAction)
        requires
            old(self)@ == RolloutStage::BeforePull || old(self)@ == RolloutStage::BeforeComposeUp,
        ensures
            (final(self)@, a) == spec_rollout_checked(old(self)@, checked),
    {
        match checked {
            State::Success(_) => {
                if self.stage == RolloutStage::BeforePull {
                    self.stage = RolloutStage::Pulling;
                    RolloutAction::PullImage
                } else {
                    self.stage = RolloutStage::ComposingUp;
                    RolloutAction::ComposeUp
                }
            },
            State::Retry => {
                self.stage = RolloutStage::Done;
                RolloutAction::Finish(State::Retry)
            },
            State::Stop => {
                self.stage = RolloutStage::Done;
                RolloutAction::Finish(State::Stop)
            },
        }
    }

    /// Decides the next action after the command of the current stage ran.
    pub fn after_command(&mut self, succeeded: bool) -> (a: RolloutAction)
        requires
            old(self)@ == RolloutStage::Pulling || old(self)@ == RolloutStage::ComposingUp,
        ensures
            (final(self)@, a) == spec_rollout_ran(old(self)@, succeeded),
    {
        if !succeeded {
            self.stage = RolloutStage::Done;
            RolloutAction::Finish(State::Retry)
        } else if self.stage == RolloutStage::Pulling {
            self.stage = RolloutStage::BeforeComposeUp;
            RolloutAction::CheckBusiness
        } else {
            self.stage = RolloutStage::Done;
            RolloutAction::Finish(State::Success(()))
        }
    }
}

/// A rollout succeeds exactly when both checks and both commands succeed, in order;
/// in particular the container is recreated only after the image was pulled and the
/// business was checked twice.
pub proof fn lemma_rollout_success(first: State<()>, pulled: bool, second: State<()>, up: bool)
    ensures
        ({
            let (s1, a1) = spec_rollout_checked(RolloutStage::BeforePull, first);
            let (s2, a2) = spec_rollout_ran(s1, pulled);
            let (s3, a3) = spec_rollout_checked(s2, second);
            let (s4, a4) = spec_rollout_ran(s3, up);
            &&& a1 == RolloutAction::PullImage <==> first is Success
            &&& first is Success ==> (a2 == RolloutAction::CheckBusiness <==> pulled)
            &&& first is Success && pulled ==> (a3 == RolloutAction::ComposeUp <==> second is Success)
            &&& first is Success && pulled && second is Success ==> (a4 == RolloutAction::Finish(State::Success(())) <==> up)
        }),
{
}

} // verus!
