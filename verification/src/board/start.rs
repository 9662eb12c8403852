//! What a card can start: the agents it offers, and what each is called in the menu.

use vstd::prelude::*;

use crate::model::TaskView;
use crate::text::{lowercase_of, to_lowercase};

verus! {

/// What an agent is called in a menu: the agent's own label in small letters, or `no agent`
/// for the choice of none.
pub open spec fn agent_label_spec(label: Option<Seq<char>>) -> Seq<char> {
    match label {
        None => "no agent"@,
        Some(l) => lowercase_of(l),
    }
}

/// What an agent is called in a menu. `label` is the agent's own label, `None` for the choice
/// of no agent at all.
pub fn agent_label(label: Option<&str>) -> (shown: String)
    ensures
        shown@ == agent_label_spec(
            match label {
                Some(l) => Some(l@),
                None => None,
            },
        ),
{
    match label {
        None => String::from_str("no agent"),
        Some(l) => to_lowercase(l),
    }
}

/// An agent the review knows of: its label - `None` for the choice of no agent - and whether
/// this machine has it.
pub struct AgentOption {
    pub label: Option<String>,
    pub available: bool,
}

/// The agents this machine has, with the choice of none first: the available agents among
/// `options`, in their order, leaving out any that is the choice of none.
pub open spec fn available_spec(options: Seq<AgentOption>) -> Seq<Option<String>>
    decreases options.len(),
{
    if options.len() == 0 {
        seq![None]
    } else {
        let before = available_spec(options.drop_last());
        let last = options.last();
        if last.available && last.label is Some {
            before.push(last.label)
        } else {
            before
        }
    }
}

/// The agents this machine has, with "none" first for a task started without one.
pub fn available_agents(options: &Vec<AgentOption>) -> (agents: Vec<Option<String>>)
    ensures
        agents@ == available_spec(options@),
{
    let mut agents: Vec<Option<String>> = Vec::new();
    agents.push(None);
    let mut i: usize = 0;
    assert(agents@ =~= available_spec(options@.take(0)));
    while i < options.len()
        invariant
            i <= options.len(),
            agents@ == available_spec(options@.take(i as int)),
        decreases options.len() - i,
    {
        proof {
            assert(options@.take(i + 1).drop_last() =~= options@.take(i as int));
            assert(options@.take(i + 1).last() == options@[i as int]);
        }
        let option = &options[i];
        if option.available {
            match &option.label {
                Some(label) => agents.push(Some(label.clone())),
                None => {},
            }
        }
        i = i + 1;
    }
    assert(options@.take(options.len() as int) =~= options@);
    agents
}

/// What pressing an offer does.
#[derive(Debug, PartialEq)]
pub enum StartAction {
    OpenReview { repo_path: String, title: String },
    StartShell { task_id: String },
    PickFile { task_id: String },
    /// Start this agent - by its own label - in the task.
    StartAgent { task_id: String, agent: String },
    Explain { task_id: String },
    OpenAttachPicker { task_id: String, task_title: String },
}

/// One thing a task can start, as the menu and the list both show it.
#[derive(Debug)]
pub struct StartOffer {
    pub label: String,
    pub hover: Option<&'static str>,
    pub action: StartAction,
}

/// The agents among these that are agents: every one but the choice of none, in order.
pub open spec fn named_agents(agents: Seq<Option<String>>) -> Seq<String>
    decreases agents.len(),
{
    if agents.len() == 0 {
        Seq::empty()
    } else {
        let before = named_agents(agents.drop_last());
        match agents.last() {
            Some(label) => before.push(label),
            None => before,
        }
    }
}

/// Whether an offer reads and does this.
pub open spec fn offer_is(offer: StartOffer, label: Seq<char>, hover: Option<Seq<char>>, action: StartAction) -> bool {
    &&& offer.label@ == label
    &&& match hover {
        Some(h) => offer.hover matches Some(said) && said@ == h,
        None => offer.hover is None,
    }
    &&& offer.action == action
}

pub open spec fn review_hover() -> Seq<char> {
    "Open the review of this repo in a tab"@
}

pub open spec fn shell_hover() -> Seq<char> {
    "Open a shell in the task"@
}

pub open spec fn file_hover() -> Seq<char> {
    "Pick a file of the repo to put on this card, and open it"@
}

pub open spec fn explain_hover() -> Seq<char> {
    "Have the agent picked in the review write a short PDF about everything uncommitted in the repo and its submodules, and open it - in a shell of the task, which is where to watch it"@
}

pub open spec fn attach_hover() -> Seq<char> {
    "Pick a past session of one of the agents and put it on the task"@
}

/// What a task can start, in the order it is offered, in groups: a review of the repo, a
/// shell in the task and a file of the repo linked to the card; then an agent, one per kind
/// this machine has; then an explanation of the repo's changes; then a session one of those
/// agents already has. The last three are not offered when there are no agents, since a
/// session is an agent's and an explanation is written by one.
pub fn offers(agents: &Vec<Option<String>>, task: &TaskView) -> (groups: Vec<Vec<StartOffer>>)
    ensures
        ({
            let named = named_agents(agents@);
            &&& groups@.len() == if named.len() == 0 { 1int } else { 4int }
            &&& groups@[0]@.len() == 3
            &&& offer_is(groups@[0]@[0], "review"@, Some(review_hover()), StartAction::OpenReview {
                repo_path: task.repo_path,
                title: task.title,
            })
            &&& offer_is(groups@[0]@[1], "shell"@, Some(shell_hover()), StartAction::StartShell {
                task_id: task.id,
            })
            &&& offer_is(groups@[0]@[2], "file…"@, Some(file_hover()), StartAction::PickFile {
                task_id: task.id,
            })
            &&& named.len() > 0 ==> {
                &&& groups@[1]@.len() == named.len()
                &&& forall|k: int|
                    0 <= k < named.len() ==> offer_is(
                        #[trigger] groups@[1]@[k],
                        lowercase_of(named[k]@),
                        None,
                        StartAction::StartAgent { task_id: task.id, agent: named[k] },
                    )
                &&& groups@[2]@.len() == 1
                &&& offer_is(groups@[2]@[0], "explain"@, Some(explain_hover()), StartAction::Explain {
                    task_id: task.id,
                })
                &&& groups@[3]@.len() == 1
                &&& offer_is(groups@[3]@[0], "attach a session…"@, Some(attach_hover()),
                    StartAction::OpenAttachPicker { task_id: task.id, task_title: task.title })
            }
        }),
{
    let mut first: Vec<StartOffer> = Vec::new();
    first.push(StartOffer {
        label: String::from_str("review"),
        hover: Some("Open the review of this repo in a tab"),
        action: StartAction::OpenReview { repo_path: task.repo_path.clone(), title: task.title.clone() },
    });
    first.push(StartOffer {
        label: String::from_str("shell"),
        hover: Some("Open a shell in the task"),
        action: StartAction::StartShell { task_id: task.id.clone() },
    });
    first.push(StartOffer {
        label: String::from_str("file…"),
        hover: Some("Pick a file of the repo to put on this card, and open it"),
        action: StartAction::PickFile { task_id: task.id.clone() },
    });
    let mut groups: Vec<Vec<StartOffer>> = Vec::new();
    groups.push(first);

    let mut agent_offers: Vec<StartOffer> = Vec::new();
    let mut i: usize = 0;
    while i < agents.len()
        invariant
            i <= agents.len(),
            groups@.len() == 1,
            groups@[0]@.len() == 3,
            offer_is(groups@[0]@[0], "review"@, Some(review_hover()), StartAction::OpenReview {
                repo_path: task.repo_path,
                title: task.title,
            }),
            offer_is(groups@[0]@[1], "shell"@, Some(shell_hover()), StartAction::StartShell {
                task_id: task.id,
            }),
            offer_is(groups@[0]@[2], "file…"@, Some(file_hover()), StartAction::PickFile {
                task_id: task.id,
            }),
            agent_offers@.len() == named_agents(agents@.take(i as int)).len(),
            forall|k: int|
                0 <= k < agent_offers@.len() ==> offer_is(
                    #[trigger] agent_offers@[k],
                    lowercase_of(named_agents(agents@.take(i as int))[k]@),
                    None,
                    StartAction::StartAgent {
                        task_id: task.id,
                        agent: named_agents(agents@.take(i as int))[k],
                    },
                ),
        decreases agents.len() - i,
    {
        proof {
            assert(agents@.take(i + 1).drop_last() =~= agents@.take(i as int));
            assert(agents@.take(i + 1).last() == agents@[i as int]);
        }
        match &agents[i] {
            Some(label) => {
                agent_offers.push(StartOffer {
                    label: to_lowercase(label.as_str()),
                    hover: None,
                    action: StartAction::StartAgent { task_id: task.id.clone(), agent: label.clone() },
                });
            },
            None => {},
        }
        i = i + 1;
    }
    assert(agents@.take(agents.len() as int) =~= agents@);
    if agent_offers.len() == 0 {
        return groups;
    }
    groups.push(agent_offers);
    let mut explain: Vec<StartOffer> = Vec::new();
    explain.push(StartOffer {
        label: String::from_str("explain"),
        hover: Some("Have the agent picked in the review write a short PDF about everything uncommitted in the repo and its submodules, and open it - in a shell of the task, which is where to watch it"),
        action: StartAction::Explain { task_id: task.id.clone() },
    });
    groups.push(explain);
    let mut attach: Vec<StartOffer> = Vec::new();
    attach.push(StartOffer {
        label: String::from_str("attach a session…"),
        hover: Some("Pick a past session of one of the agents and put it on the task"),
        action: StartAction::OpenAttachPicker { task_id: task.id.clone(), task_title: task.title.clone() },
    });
    groups.push(attach);
    groups
}

} // verus!
