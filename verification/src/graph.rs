//! The process graphs a deployment declares, as far as the engine's admin rules read them, and the
//! index of what each node can be used for.

use vstd::prelude::*;

use crate::keyed;
use crate::keyed::TextMap;
use crate::text;

verus! {

/// What a boundary event waits for.
#[derive(Debug, Clone, Copy, PartialEq, Eq, Structural)]
pub enum BoundaryKind {
    Timer,
    Error,
    Message,
    Other,
}

/// The BPMN element a node is. Sub-processes hold a process of their own; loop wrappers hold the
/// activity they repeat.
#[derive(Debug)]
pub enum NodeKind {
    StartEvent,
    EndEvent,
    TerminateEndEvent,
    ErrorEvent,
    IntermediateThrowEvent,
    LinkCatchEvent,
    MessageCatchEvent,
    TimerCatchEvent,
    BoundaryEvent(BoundaryKind),
    ServiceTask,
    DataTask,
    ScriptTask,
    ManualTask,
    SendTask,
    BusinessRuleTask,
    UserTask,
    CallActivity,
    SubProcess(Box<ProcessDefinition>),
    TransactionSubProcess(Box<ProcessDefinition>),
    AdHocSubProcess(Box<ProcessDefinition>),
    EventSubProcess(Box<ProcessDefinition>),
    CancelEndEvent,
    ExclusiveGateway,
    InclusiveGateway,
    ParallelGateway,
    ComplexGateway,
    MultiInstance(Box<Node>),
    StandardLoop(Box<Node>),
}

/// One node of a process.
#[derive(Debug)]
pub struct Node {
    pub id: String,
    /// Whether a token parks here.
    pub wait_state: bool,
    pub kind: NodeKind,
}

/// One process: its nodes, the ids of those that carry a retry policy or a reply that continues the
/// flow, and its coverage paths.
#[derive(Debug)]
pub struct ProcessDefinition {
    pub id: String,
    pub nodes: Vec<Node>,
    pub retry_policies: Vec<String>,
    pub continue_replies: Vec<String>,
    /// The ids of the declared coverage paths.
    pub coverage_paths: Vec<String>,
}

/// One parsed BPMN document.
#[derive(Debug)]
pub struct ProcessModule {
    pub processes: Vec<ProcessDefinition>,
}

/// What one node can be used for: the capabilities that the resume paths ask of it.
#[derive(Debug, Clone, Copy, PartialEq, Eq)]
pub struct NodeShape {
    /// The BPMN construct, for the report.
    pub construct: &'static str,
    /// A parked message wait can be resumed here by a relay.
    pub relay_resumable: bool,
    /// An armed timer can fire here.
    pub timer_capable: bool,
    /// The node carries a retry policy.
    pub retryable_task: bool,
    /// The node carries a reply that continues the flow.
    pub continue_reply: bool,
    /// The node is a start event.
    pub start_event: bool,
}

/// The contents of a [`NodeShape`].
pub struct NodeShapeView {
    pub construct: Seq<char>,
    pub relay_resumable: bool,
    pub timer_capable: bool,
    pub retryable_task: bool,
    pub continue_reply: bool,
    pub start_event: bool,
}

impl View for NodeShape {
    type V = NodeShapeView;

    open spec fn view(&self) -> NodeShapeView {
        NodeShapeView {
            construct: self.construct@,
            relay_resumable: self.relay_resumable,
            timer_capable: self.timer_capable,
            retryable_task: self.retryable_task,
            continue_reply: self.continue_reply,
            start_event: self.start_event,
        }
    }
}

/// One process's node shapes, keyed by node id.
pub type ProcessNodeIndex = TextMap<NodeShape>;

/// The model of a [`ProcessNodeIndex`].
pub type Shapes = Seq<(Seq<char>, NodeShapeView)>;

/// The name that reports give a construct.
pub open spec fn construct_of(kind: NodeKind) -> Seq<char> {
    match kind {
        NodeKind::StartEvent => "startEvent"@,
        NodeKind::EndEvent => "endEvent"@,
        NodeKind::TerminateEndEvent => "terminateEndEvent"@,
        NodeKind::ErrorEvent => "errorEndEvent"@,
        NodeKind::IntermediateThrowEvent => "intermediateThrowEvent"@,
        NodeKind::LinkCatchEvent => "linkCatchEvent"@,
        NodeKind::MessageCatchEvent => "messageCatchEvent"@,
        NodeKind::TimerCatchEvent => "timerCatchEvent"@,
        NodeKind::BoundaryEvent(_) => "boundaryEvent"@,
        NodeKind::ServiceTask => "serviceTask"@,
        NodeKind::DataTask => "dataTask"@,
        NodeKind::ScriptTask => "scriptTask"@,
        NodeKind::ManualTask => "manualTask"@,
        NodeKind::SendTask => "sendTask"@,
        NodeKind::BusinessRuleTask => "businessRuleTask"@,
        NodeKind::UserTask => "userTask"@,
        NodeKind::CallActivity => "callActivity"@,
        NodeKind::SubProcess(_) => "subProcess"@,
        NodeKind::TransactionSubProcess(_) => "transaction"@,
        NodeKind::AdHocSubProcess(_) => "adHocSubProcess"@,
        NodeKind::EventSubProcess(_) => "eventSubProcess"@,
        NodeKind::CancelEndEvent => "cancelEndEvent"@,
        NodeKind::ExclusiveGateway => "exclusiveGateway"@,
        NodeKind::InclusiveGateway => "inclusiveGateway"@,
        NodeKind::ParallelGateway => "parallelGateway"@,
        NodeKind::ComplexGateway => "complexGateway"@,
        NodeKind::MultiInstance(_) => "multiInstance"@,
        NodeKind::StandardLoop(_) => "standardLoop"@,
    }
}

/// The capabilities of a node of `process`.
pub open spec fn shape(process: ProcessDefinition, node: Node) -> NodeShapeView {
    NodeShapeView {
        construct: construct_of(node.kind),
        relay_resumable: node.wait_state && !(node.kind is TimerCatchEvent),
        timer_capable: node.kind is TimerCatchEvent || node.kind == NodeKind::BoundaryEvent(
            BoundaryKind::Timer,
        ),
        retryable_task: text::texts(process.retry_policies@).contains(node.id@),
        continue_reply: text::texts(process.continue_replies@).contains(node.id@),
        start_event: node.kind is StartEvent,
    }
}

/// `out` with the first `n` nodes of `process` entered, each with the nodes of the sub-process it
/// holds or with the activity it repeats. Where an id occurs twice, the later entry stands.
pub open spec fn indexed(process: ProcessDefinition, n: nat, out: Shapes) -> Shapes
    decreases process, n,
{
    if n == 0 || n > process.nodes@.len() {
        out
    } else {
        let node = process.nodes@[n - 1];
        let entered = keyed::put(
            indexed(process, (n - 1) as nat, out),
            node.id@,
            shape(process, node),
        );
        match node.kind {
            NodeKind::SubProcess(inner) => indexed(*inner, inner.nodes@.len(), entered),
            NodeKind::TransactionSubProcess(inner) => indexed(*inner, inner.nodes@.len(), entered),
            NodeKind::AdHocSubProcess(inner) => indexed(*inner, inner.nodes@.len(), entered),
            NodeKind::EventSubProcess(inner) => indexed(*inner, inner.nodes@.len(), entered),
            NodeKind::MultiInstance(inner) => keyed::put(entered, inner.id@, shape(process, *inner)),
            NodeKind::StandardLoop(inner) => keyed::put(entered, inner.id@, shape(process, *inner)),
            _ => entered,
        }
    }
}

/// The node shapes of a whole process, sub-process bodies in the same map.
pub open spec fn shapes(process: ProcessDefinition) -> Shapes {
    indexed(process, process.nodes@.len(), Seq::empty())
}

/// The BPMN construct name reported to the operator.
pub fn construct_name(node: &Node) -> (r: &'static str)
    ensures
        r@ == construct_of(node.kind),
{
    match node.kind {
        NodeKind::StartEvent => "startEvent",
        NodeKind::EndEvent => "endEvent",
        NodeKind::TerminateEndEvent => "terminateEndEvent",
        NodeKind::ErrorEvent => "errorEndEvent",
        NodeKind::IntermediateThrowEvent => "intermediateThrowEvent",
        NodeKind::LinkCatchEvent => "linkCatchEvent",
        NodeKind::MessageCatchEvent => "messageCatchEvent",
        NodeKind::TimerCatchEvent => "timerCatchEvent",
        NodeKind::BoundaryEvent(_) => "boundaryEvent",
        NodeKind::ServiceTask => "serviceTask",
        NodeKind::DataTask => "dataTask",
        NodeKind::ScriptTask => "scriptTask",
        NodeKind::ManualTask => "manualTask",
        NodeKind::SendTask => "sendTask",
        NodeKind::BusinessRuleTask => "businessRuleTask",
        NodeKind::UserTask => "userTask",
        NodeKind::CallActivity => "callActivity",
        NodeKind::SubProcess(_) => "subProcess",
        NodeKind::TransactionSubProcess(_) => "transaction",
        NodeKind::AdHocSubProcess(_) => "adHocSubProcess",
        NodeKind::EventSubProcess(_) => "eventSubProcess",
        NodeKind::CancelEndEvent => "cancelEndEvent",
        NodeKind::ExclusiveGateway => "exclusiveGateway",
        NodeKind::InclusiveGateway => "inclusiveGateway",
        NodeKind::ParallelGateway => "parallelGateway",
        NodeKind::ComplexGateway => "complexGateway",
        NodeKind::MultiInstance(_) => "multiInstance",
        NodeKind::StandardLoop(_) => "standardLoop",
    }
}

/// Classify one node. A timer catch parks a token too, but a relay that arrives there has nothing
/// to correlate with, so it is not relay-resumable.
pub fn shape_of(process: &ProcessDefinition, node: &Node) -> (r: NodeShape)
    ensures
        r@ == shape(*process, *node),
{
    let timer_catch = matches!(node.kind, NodeKind::TimerCatchEvent);
    NodeShape {
        construct: construct_name(node),
        relay_resumable: node.wait_state && !timer_catch,
        timer_capable: timer_catch || matches!(
            node.kind,
            NodeKind::BoundaryEvent(BoundaryKind::Timer)
        ),
        retryable_task: text::contains(&process.retry_policies, &node.id),
        continue_reply: text::contains(&process.continue_replies, &node.id),
        start_event: matches!(node.kind, NodeKind::StartEvent),
    }
}

/// Enter one process's nodes. Sub-process bodies go into the same map: a wait frontier names a node
/// by its id alone, wherever it stands.
#[verifier::loop_isolation(false)]
pub fn index_process(process: &ProcessDefinition, out: &mut ProcessNodeIndex)
    ensures
        final(out)@ == indexed(*process, process.nodes@.len(), old(out)@),
    decreases process,
{
    let ghost start = out@;
    let mut i: usize = 0;
    while i < process.nodes.len()
        invariant
            i <= process.nodes.len(),
            out@ == indexed(*process, i as nat, start),
        decreases process.nodes.len() - i,
    {
        let node = &process.nodes[i];
        out.insert(node.id.clone(), shape_of(process, node));
        match &node.kind {
            NodeKind::SubProcess(inner) => index_process(inner, out),
            NodeKind::TransactionSubProcess(inner) => index_process(inner, out),
            NodeKind::AdHocSubProcess(inner) => index_process(inner, out),
            NodeKind::EventSubProcess(inner) => index_process(inner, out),
            NodeKind::MultiInstance(inner) => {
                out.insert(inner.id.clone(), shape_of(process, inner));
            },
            NodeKind::StandardLoop(inner) => {
                out.insert(inner.id.clone(), shape_of(process, inner));
            },
            _ => {},
        }
        i = i + 1;
    }
}

/// The processes of one document entered: process id to node shapes.
pub open spec fn with_processes(
    processes: Seq<ProcessDefinition>,
    out: Seq<(Seq<char>, Shapes)>,
) -> Seq<(Seq<char>, Shapes)>
    decreases processes.len(),
{
    if processes.len() == 0 {
        out
    } else {
        let p = processes.last();
        keyed::put(with_processes(processes.drop_last(), out), p.id@, shapes(p))
    }
}

/// The processes of every document entered, in the documents' order.
pub open spec fn with_modules(modules: Seq<ProcessModule>) -> Seq<(Seq<char>, Shapes)>
    decreases modules.len(),
{
    if modules.len() == 0 {
        Seq::empty()
    } else {
        with_processes(modules.last().processes@, with_modules(modules.drop_last()))
    }
}

/// A whole deployment's graph facts: process id to its node shapes.
pub struct DeploymentNodeIndex {
    processes: TextMap<ProcessNodeIndex>,
}

impl View for DeploymentNodeIndex {
    type V = Seq<(Seq<char>, Shapes)>;

    closed spec fn view(&self) -> Seq<(Seq<char>, Shapes)> {
        self.processes@
    }
}

impl Default for DeploymentNodeIndex {
    /// The index of a deployment without processes.
    fn default() -> (r: DeploymentNodeIndex)
        ensures
            r@ == Seq::<(Seq<char>, Shapes)>::empty(),
    {
        DeploymentNodeIndex { processes: TextMap::new() }
    }
}

impl DeploymentNodeIndex {
    /// Build the index from a deployment's parsed documents.
    pub fn of_modules(modules: &Vec<ProcessModule>) -> (r: DeploymentNodeIndex)
        ensures
            r@ == with_modules(modules@),
    {
        let mut processes: TextMap<ProcessNodeIndex> = TextMap::new();
        let mut i: usize = 0;
        while i < modules.len()
            invariant
                i <= modules.len(),
                processes@ == with_modules(modules@.take(i as int)),
            decreases modules.len() - i,
        {
            let declared = &modules[i].processes;
            let ghost start = processes@;
            let mut j: usize = 0;
            assert(declared@.take(0) =~= Seq::empty());
            while j < declared.len()
                invariant
                    j <= declared.len(),
                    processes@ == with_processes(declared@.take(j as int), start),
                decreases declared.len() - j,
            {
                let mut nodes: ProcessNodeIndex = TextMap::new();
                index_process(&declared[j], &mut nodes);
                processes.insert(declared[j].id.clone(), nodes);
                assert(declared@.take(j + 1).drop_last() =~= declared@.take(j as int));
                j = j + 1;
            }
            assert(declared@.take(declared.len() as int) =~= declared@);
            assert(modules@.take(i + 1).drop_last() =~= modules@.take(i as int));
            i = i + 1;
        }
        assert(modules@.take(modules.len() as int) =~= modules@);
        DeploymentNodeIndex { processes }
    }

    /// One process's node shapes, or `None` where the deployment does not declare that process.
    pub fn process(&self, process_id: &str) -> (r: Option<&ProcessNodeIndex>)
        ensures
            match r {
                Some(p) => keyed::lookup(self@, process_id@) == Some(p@),
                None => keyed::lookup(self@, process_id@) is None,
            },
    {
        self.processes.get(process_id)
    }

    /// The declared process ids, in their order.
    pub fn process_ids(&self) -> (r: Vec<String>)
        ensures
            text::texts(r@) == keyed::keys(self@),
    {
        let mut out: Vec<String> = Vec::new();
        let mut i: usize = 0;
        while i < self.processes.len()
            invariant
                i <= self@.len(),
                text::texts(out@) == keyed::keys(self@).take(i as int),
                self@ == self.processes@,
            decreases self@.len() - i,
        {
            let ghost prior = out@;
            out.push(self.processes.key_at(i).clone());
            assert(text::texts(out@) =~= text::texts(prior).push(self@[i as int].0));
            assert(keyed::keys(self@).take(i + 1) =~= keyed::keys(self@).take(i as int).push(
                self@[i as int].0,
            ));
            i = i + 1;
        }
        assert(keyed::keys(self@).take(self@.len() as int) =~= keyed::keys(self@));
        out
    }
}

} // verus!
