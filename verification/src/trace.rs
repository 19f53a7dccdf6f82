//! Traces: the steps that agents take, and what is learnt while they run.

pub mod execute;

use crate::agent::{
    agent_models, agent_position, fresh_agent, Agent, AgentDescriptor, AgentModel, AgentName,
};
use crate::error::Error;
use crate::io::{
    left_behind, taken_message, taken_model, wire, MessageResult, OpaqueMessage, StreamModel,
};
use crate::term::atoms::Variable;
use crate::term::dynamic_function::{TypeShape, Value, ValueModel};
use crate::term::{Term, TermModel};
use vstd::prelude::*;

verus! {

/// The kind of a handshake message, by its number on the wire.
#[derive(Clone, Copy, Debug, PartialEq, Eq, Structural, Hash)]
pub enum HandshakeType {
    HelloRequest,
    ClientHello,
    ServerHello,
    HelloVerifyRequest,
    NewSessionTicket,
    EndOfEarlyData,
    HelloRetryRequest,
    EncryptedExtensions,
    Certificate,
    ServerKeyExchange,
    CertificateRequest,
    ServerHelloDone,
    CertificateVerify,
    ClientKeyExchange,
    Finished,
    CertificateURL,
    CertificateStatus,
    KeyUpdate,
    MessageHash,
    Unknown(u8),
}

/// The handshake kind that a number stands for; a known kind wherever there is one.
pub open spec fn handshake_type_of(code: u8) -> HandshakeType {
    if code == 0x00 {
        HandshakeType::HelloRequest
    } else if code == 0x01 {
        HandshakeType::ClientHello
    } else if code == 0x02 {
        HandshakeType::ServerHello
    } else if code == 0x03 {
        HandshakeType::HelloVerifyRequest
    } else if code == 0x04 {
        HandshakeType::NewSessionTicket
    } else if code == 0x05 {
        HandshakeType::EndOfEarlyData
    } else if code == 0x06 {
        HandshakeType::HelloRetryRequest
    } else if code == 0x08 {
        HandshakeType::EncryptedExtensions
    } else if code == 0x0b {
        HandshakeType::Certificate
    } else if code == 0x0c {
        HandshakeType::ServerKeyExchange
    } else if code == 0x0d {
        HandshakeType::CertificateRequest
    } else if code == 0x0e {
        HandshakeType::ServerHelloDone
    } else if code == 0x0f {
        HandshakeType::CertificateVerify
    } else if code == 0x10 {
        HandshakeType::ClientKeyExchange
    } else if code == 0x14 {
        HandshakeType::Finished
    } else if code == 0x15 {
        HandshakeType::CertificateURL
    } else if code == 0x16 {
        HandshakeType::CertificateStatus
    } else if code == 0x18 {
        HandshakeType::KeyUpdate
    } else if code == 0xfe {
        HandshakeType::MessageHash
    } else {
        HandshakeType::Unknown(code)
    }
}

impl HandshakeType {
    /// The number of this kind on the wire.
    pub open spec fn code(self) -> u8 {
        match self {
            HandshakeType::HelloRequest => 0x00,
            HandshakeType::ClientHello => 0x01,
            HandshakeType::ServerHello => 0x02,
            HandshakeType::HelloVerifyRequest => 0x03,
            HandshakeType::NewSessionTicket => 0x04,
            HandshakeType::EndOfEarlyData => 0x05,
            HandshakeType::HelloRetryRequest => 0x06,
            HandshakeType::EncryptedExtensions => 0x08,
            HandshakeType::Certificate => 0x0b,
            HandshakeType::ServerKeyExchange => 0x0c,
            HandshakeType::CertificateRequest => 0x0d,
            HandshakeType::ServerHelloDone => 0x0e,
            HandshakeType::CertificateVerify => 0x0f,
            HandshakeType::ClientKeyExchange => 0x10,
            HandshakeType::Finished => 0x14,
            HandshakeType::CertificateURL => 0x15,
            HandshakeType::CertificateStatus => 0x16,
            HandshakeType::KeyUpdate => 0x18,
            HandshakeType::MessageHash => 0xfe,
            HandshakeType::Unknown(code) => code,
        }
    }

    pub fn get_u8(&self) -> (r: u8)
        ensures
            r == self.code(),
    {
        match self {
            HandshakeType::HelloRequest => 0x00,
            HandshakeType::ClientHello => 0x01,
            HandshakeType::ServerHello => 0x02,
            HandshakeType::HelloVerifyRequest => 0x03,
            HandshakeType::NewSessionTicket => 0x04,
            HandshakeType::EndOfEarlyData => 0x05,
            HandshakeType::HelloRetryRequest => 0x06,
            HandshakeType::EncryptedExtensions => 0x08,
            HandshakeType::Certificate => 0x0b,
            HandshakeType::ServerKeyExchange => 0x0c,
            HandshakeType::CertificateRequest => 0x0d,
            HandshakeType::ServerHelloDone => 0x0e,
            HandshakeType::CertificateVerify => 0x0f,
            HandshakeType::ClientKeyExchange => 0x10,
            HandshakeType::Finished => 0x14,
            HandshakeType::CertificateURL => 0x15,
            HandshakeType::CertificateStatus => 0x16,
            HandshakeType::KeyUpdate => 0x18,
            HandshakeType::MessageHash => 0xfe,
            HandshakeType::Unknown(code) => *code,
        }
    }

    pub fn from_u8(code: u8) -> (r: HandshakeType)
        ensures
            r == handshake_type_of(code),
            r.code() == code,
    {
        if code == 0x00 {
            HandshakeType::HelloRequest
        } else if code == 0x01 {
            HandshakeType::ClientHello
        } else if code == 0x02 {
            HandshakeType::ServerHello
        } else if code == 0x03 {
            HandshakeType::HelloVerifyRequest
        } else if code == 0x04 {
            HandshakeType::NewSessionTicket
        } else if code == 0x05 {
            HandshakeType::EndOfEarlyData
        } else if code == 0x06 {
            HandshakeType::HelloRetryRequest
        } else if code == 0x08 {
            HandshakeType::EncryptedExtensions
        } else if code == 0x0b {
            HandshakeType::Certificate
        } else if code == 0x0c {
            HandshakeType::ServerKeyExchange
        } else if code == 0x0d {
            HandshakeType::CertificateRequest
        } else if code == 0x0e {
            HandshakeType::ServerHelloDone
        } else if code == 0x0f {
            HandshakeType::CertificateVerify
        } else if code == 0x10 {
            HandshakeType::ClientKeyExchange
        } else if code == 0x14 {
            HandshakeType::Finished
        } else if code == 0x15 {
            HandshakeType::CertificateURL
        } else if code == 0x16 {
            HandshakeType::CertificateStatus
        } else if code == 0x18 {
            HandshakeType::KeyUpdate
        } else if code == 0xfe {
            HandshakeType::MessageHash
        } else {
            HandshakeType::Unknown(code)
        }
    }
}

/// The coarse kind of a record, by which knowledge is filed and looked up.
#[derive(Clone, Copy, Debug, PartialEq, Eq, Structural, Hash)]
pub enum TlsMessageType {
    ChangeCipherSpec,
    Alert,
    /// A handshake message; as a filter, `None` stands for any handshake kind.
    Handshake(Option<HandshakeType>),
    ApplicationData,
    Heartbeat,
}

/// Whether a message of kind `actual` passes the filter `wanted`.
///
/// No filter lets everything pass, a handshake filter without a kind lets
/// every handshake message pass, and any other filter asks for its own kind.
pub open spec fn message_type_matches(
    wanted: Option<TlsMessageType>,
    actual: Option<TlsMessageType>,
) -> bool {
    match wanted {
        None => true,
        Some(TlsMessageType::Handshake(None)) => actual matches Some(TlsMessageType::Handshake(_)),
        Some(kind) => actual == Some(kind),
    }
}

/// Decides [`message_type_matches`].
pub fn matches_message_type(wanted: &Option<TlsMessageType>, actual: &Option<TlsMessageType>) -> (r:
    bool)
    ensures
        r == message_type_matches(*wanted, *actual),
{
    match wanted {
        None => true,
        Some(TlsMessageType::Handshake(None)) => match actual {
            Some(TlsMessageType::Handshake(_)) => true,
            _ => false,
        },
        Some(kind) => match actual {
            Some(other) => *kind == *other,
            None => false,
        },
    }
}

/// Delivers the message that `recipe` evaluates to.
#[derive(Debug)]
pub struct InputAction {
    pub recipe: Term,
}

/// Collects what the agent has sent.
#[derive(Debug)]
pub struct OutputAction {}

/// What a step does.
#[derive(Debug)]
pub enum Action {
    Input(InputAction),
    Output(OutputAction),
}

/// What a step does, as plain mathematics.
pub enum ActionModel {
    Input(TermModel),
    Output,
}

impl View for Action {
    type V = ActionModel;

    open spec fn view(&self) -> ActionModel {
        match self {
            Action::Input(input) => ActionModel::Input(input.recipe@),
            Action::Output(_) => ActionModel::Output,
        }
    }
}

/// One step of a trace: an action of one agent.
#[derive(Debug)]
pub struct Step {
    pub agent: AgentName,
    pub action: Action,
}

/// A step as plain mathematics.
pub struct StepModel {
    pub agent: AgentName,
    pub action: ActionModel,
}

impl StepModel {
    /// Whether the recipe of the step, if it has one, is well-typed.
    pub open spec fn well_typed(self) -> bool {
        self.action matches ActionModel::Input(recipe) ==> recipe.well_typed()
    }
}

impl View for Step {
    type V = StepModel;

    open spec fn view(&self) -> StepModel {
        StepModel { agent: self.agent, action: self.action@ }
    }
}

/// The models of a sequence of steps.
pub open spec fn step_models(steps: Seq<Step>) -> Seq<StepModel> {
    Seq::new(steps.len(), |i: int| steps[i]@)
}

/// A trace: the agents to bring to life, and the steps they take in order.
#[derive(Debug)]
pub struct Trace {
    pub descriptors: Vec<AgentDescriptor>,
    pub steps: Vec<Step>,
}

/// A trace as plain mathematics.
pub struct TraceModel {
    pub descriptors: Seq<AgentDescriptor>,
    pub steps: Seq<StepModel>,
}

impl TraceModel {
    /// Whether every recipe of the trace is well-typed.
    pub open spec fn well_typed(self) -> bool {
        forall|i: int| 0 <= i < self.steps.len() ==> (#[trigger] self.steps[i]).well_typed()
    }
}

impl View for Trace {
    type V = TraceModel;

    open spec fn view(&self) -> TraceModel {
        TraceModel { descriptors: self.descriptors@, steps: step_models(self.steps@) }
    }
}

/// Whether every variable of `term` names one of `agents`.
pub open spec fn refers_within(term: TermModel, agents: Seq<AgentName>) -> bool
    decreases term,
{
    match term {
        TermModel::Variable(variable) => agents.contains(variable.agent),
        TermModel::Application(_, arguments) => forall|i: int|
            0 <= i < arguments.len() ==> refers_within(#[trigger] arguments[i], agents),
    }
}

/// The names of the agents that `descriptors` describe.
pub open spec fn described(descriptors: Seq<AgentDescriptor>) -> Seq<AgentName> {
    Seq::new(descriptors.len(), |i: int| descriptors[i].name)
}

impl TraceModel {
    /// Whether every variable of every recipe names an agent of the trace.
    pub open spec fn is_closed(self) -> bool {
        forall|i: int|
            0 <= i < self.steps.len() ==> ((
            #[trigger] self.steps[i]).action matches ActionModel::Input(recipe) ==> refers_within(
                recipe,
                described(self.descriptors),
            ))
    }
}

/// Whether every variable of `term` names one of `agents`.
pub fn names_only(term: &Term, agents: &Vec<AgentName>) -> (r: bool)
    ensures
        r == refers_within(term@, agents@),
    decreases term,
{
    match term {
        Term::Variable(variable) => {
            let mut i: usize = 0;
            while i < agents.len()
                invariant
                    i <= agents.len(),
                    term@ == TermModel::Variable(*variable),
                    forall|j: int| 0 <= j < i ==> agents[j] != variable.agent,
                decreases agents.len() - i,
            {
                if agents[i] == variable.agent {
                    return true;
                }
                i = i + 1;
            }
            false
        },
        Term::Application(function, arguments) => {
            proof {
                crate::term::lemma_models(arguments@);
            }
            let mut i: usize = 0;
            while i < arguments.len()
                invariant
                    i <= arguments.len(),
                    *term == Term::Application(*function, *arguments),
                    term@->Application_1.len() == arguments.len(),
                    forall|j: int|
                        0 <= j < arguments.len() ==> term@->Application_1[j] == arguments[j]@,
                    forall|j: int|
                        0 <= j < i ==> refers_within(#[trigger] term@->Application_1[j], agents@),
                decreases arguments.len() - i,
            {
                if !names_only(&arguments[i], agents) {
                    assert(!refers_within(term@->Application_1[i as int], agents@));
                    return false;
                }
                i = i + 1;
            }
            true
        },
    }
}

impl Trace {
    /// Whether every variable of every recipe names an agent of the trace.
    pub fn is_closed(&self) -> (r: bool)
        ensures
            r == self@.is_closed(),
    {
        let mut agents: Vec<AgentName> = Vec::new();
        let mut k: usize = 0;
        while k < self.descriptors.len()
            invariant
                k <= self.descriptors.len(),
                agents@ == described(self.descriptors@).take(k as int),
            decreases self.descriptors.len() - k,
        {
            agents.push(self.descriptors[k].name);
            k = k + 1;
        }
        let mut i: usize = 0;
        while i < self.steps.len()
            invariant
                i <= self.steps.len(),
                agents@ == described(self@.descriptors),
                forall|j: int|
                    0 <= j < i ==> ((
                    #[trigger] self@.steps[j]).action matches ActionModel::Input(recipe)
                        ==> refers_within(recipe, agents@)),
            decreases self.steps.len() - i,
        {
            assert(self@.steps[i as int] == self.steps[i as int]@);
            match &self.steps[i].action {
                Action::Input(input) => {
                    if !names_only(&input.recipe, &agents) {
                        return false;
                    }
                },
                Action::Output(_) => {},
            }
            i = i + 1;
        }
        true
    }

    /// Whether every recipe is well-typed.
    pub fn is_well_typed(&self) -> (r: bool)
        ensures
            r == self@.well_typed(),
    {
        let mut i: usize = 0;
        while i < self.steps.len()
            invariant
                i <= self.steps.len(),
                forall|j: int| 0 <= j < i ==> (#[trigger] self@.steps[j]).well_typed(),
            decreases self.steps.len() - i,
        {
            match &self.steps[i].action {
                Action::Input(input) => {
                    if !input.recipe.is_well_typed() {
                        assert(!self@.steps[i as int].well_typed());
                        return false;
                    }
                },
                Action::Output(_) => {},
            }
            i = i + 1;
        }
        true
    }
}

impl Clone for InputAction {
    fn clone(&self) -> (r: InputAction)
        ensures
            r.recipe@ == self.recipe@,
    {
        InputAction { recipe: self.recipe.clone() }
    }
}

impl Clone for Action {
    fn clone(&self) -> (r: Action)
        ensures
            r@ == self@,
    {
        match self {
            Action::Input(input) => Action::Input(input.clone()),
            Action::Output(_) => Action::Output(OutputAction {  }),
        }
    }
}

impl Clone for Step {
    fn clone(&self) -> (r: Step)
        ensures
            r@ == self@,
    {
        Step { agent: self.agent, action: self.action.clone() }
    }
}

impl Clone for Trace {
    fn clone(&self) -> (r: Trace)
        ensures
            r@ == self@,
    {
        let mut descriptors: Vec<AgentDescriptor> = Vec::new();
        let mut i: usize = 0;
        while i < self.descriptors.len()
            invariant
                i <= self.descriptors.len(),
                descriptors@ == self.descriptors@.take(i as int),
            decreases self.descriptors.len() - i,
        {
            descriptors.push(self.descriptors[i]);
            i = i + 1;
        }
        assert(self.descriptors@.take(self.descriptors.len() as int) =~= self.descriptors@);
        let mut steps: Vec<Step> = Vec::new();
        let mut j: usize = 0;
        while j < self.steps.len()
            invariant
                j <= self.steps.len(),
                steps.len() == j,
                forall|k: int| 0 <= k < j ==> (#[trigger] steps[k])@ == self.steps[k]@,
            decreases self.steps.len() - j,
        {
            steps.push(self.steps[j].clone());
            j = j + 1;
        }
        let r = Trace { descriptors, steps };
        assert(r@.steps =~= self@.steps);
        r
    }
}

/// The id of the type of messages that have been understood.
pub const MESSAGE: u64 = 1;

/// The id of the type of records as they travel.
pub const OPAQUE_MESSAGE: u64 = 2;

pub const MESSAGE_NAME: &'static str = "rustls::msgs::message::Message";

pub const OPAQUE_MESSAGE_NAME: &'static str = "rustls::msgs::message::OpaqueMessage";

/// Something that was learnt while a trace ran: a value, the agent that
/// produced it, and the kind of message it came in.
#[derive(Debug)]
pub struct Knowledge {
    pub agent_name: AgentName,
    pub tls_message_type: Option<TlsMessageType>,
    pub data: Value,
}

/// A [`Knowledge`] as plain mathematics.
pub struct KnowledgeModel {
    pub agent_name: AgentName,
    pub tls_message_type: Option<TlsMessageType>,
    pub data: ValueModel,
}

impl View for Knowledge {
    type V = KnowledgeModel;

    open spec fn view(&self) -> KnowledgeModel {
        KnowledgeModel {
            agent_name: self.agent_name,
            tls_message_type: self.tls_message_type,
            data: self.data@,
        }
    }
}

/// The models of a sequence of knowledge.
pub open spec fn knowledge_models(knowledge: Seq<Knowledge>) -> Seq<KnowledgeModel> {
    Seq::new(knowledge.len(), |i: int| knowledge[i]@)
}

impl KnowledgeModel {
    /// Whether this is a value that `variable` asks for: of its agent, of
    /// its type, and from a message that passes its filter.
    pub open spec fn answers(self, variable: Variable) -> bool {
        &&& self.agent_name == variable.agent
        &&& message_type_matches(variable.message_type, self.tls_message_type)
        &&& self.data.shape.id == variable.typ.id
    }
}

/// How many entries of `knowledge` answer `variable`.
pub open spec fn count_answers(knowledge: Seq<KnowledgeModel>, variable: Variable) -> nat
    decreases knowledge.len(),
{
    if knowledge.len() == 0 {
        0
    } else {
        count_answers(knowledge.drop_last(), variable) + if knowledge.last().answers(variable) {
            1nat
        } else {
            0nat
        }
    }
}

/// The value of the entry of `knowledge`, from `from` on, that answers
/// `variable` after `skip` earlier ones have done so.
pub open spec fn nth_answer(
    knowledge: Seq<KnowledgeModel>,
    variable: Variable,
    from: int,
    skip: nat,
) -> Option<ValueModel>
    decreases knowledge.len() - from,
{
    if from < 0 || from >= knowledge.len() {
        None
    } else if knowledge[from].answers(variable) {
        if skip == 0 {
            Some(knowledge[from].data)
        } else {
            nth_answer(knowledge, variable, from + 1, (skip - 1) as nat)
        }
    } else {
        nth_answer(knowledge, variable, from + 1, skip)
    }
}

/// The value that `variable` stands for: that of the entry which answers it
/// after `counter` earlier entries have done so.
pub open spec fn find_variable(knowledge: Seq<KnowledgeModel>, variable: Variable) -> Option<
    ValueModel,
> {
    nth_answer(knowledge, variable, 0, variable.counter as nat)
}

/// A later entry leaves the answers of the earlier ones as they are, and is
/// itself the next answer to every variable that it answers.
pub proof fn lemma_nth_answer_after_push(
    knowledge: Seq<KnowledgeModel>,
    entry: KnowledgeModel,
    variable: Variable,
    from: int,
    skip: nat,
)
    requires
        0 <= from <= knowledge.len(),
    ensures
        nth_answer(knowledge, variable, from, skip) matches Some(value) ==> nth_answer(
            knowledge.push(entry),
            variable,
            from,
            skip,
        ) == Some(value),
        nth_answer(knowledge, variable, from, skip) is None ==> nth_answer(
            knowledge.push(entry),
            variable,
            from,
            skip,
        ) == if entry.answers(variable) && skip == count_answers(knowledge.skip(from), variable) {
            Some(entry.data)
        } else {
            None
        },
        nth_answer(knowledge, variable, from, skip) is Some <==> skip < count_answers(
            knowledge.skip(from),
            variable,
        ),
    decreases knowledge.len() - from,
{
    let longer = knowledge.push(entry);
    let tail = knowledge.skip(from);
    if from < knowledge.len() {
        lemma_count_answers_front(tail, variable);
        assert(tail.skip(1) =~= knowledge.skip(from + 1));
        if knowledge[from].answers(variable) {
            if skip > 0 {
                lemma_nth_answer_after_push(knowledge, entry, variable, from + 1, (skip - 1) as nat);
            }
        } else {
            lemma_nth_answer_after_push(knowledge, entry, variable, from + 1, skip);
        }
    } else {
        assert(nth_answer(longer, variable, from + 1, skip) is None);
        if skip > 0 {
            assert(nth_answer(longer, variable, from + 1, (skip - 1) as nat) is None);
        }
    }
}

/// A value that answers a variable is of the variable's type.
pub proof fn lemma_answer_is_typed(
    knowledge: Seq<KnowledgeModel>,
    variable: Variable,
    from: int,
    skip: nat,
)
    requires
        0 <= from,
    ensures
        nth_answer(knowledge, variable, from, skip) matches Some(value) ==> value.shape.id
            == variable.typ.id,
    decreases knowledge.len() - from,
{
    if from < knowledge.len() {
        if knowledge[from].answers(variable) {
            if skip > 0 {
                lemma_answer_is_typed(knowledge, variable, from + 1, (skip - 1) as nat);
            }
        } else {
            lemma_answer_is_typed(knowledge, variable, from + 1, skip);
        }
    }
}

/// Counting from the front gives the same number as counting from the back.
pub proof fn lemma_count_answers_front(knowledge: Seq<KnowledgeModel>, variable: Variable)
    requires
        knowledge.len() > 0,
    ensures
        count_answers(knowledge, variable) == count_answers(knowledge.skip(1), variable)
            + if knowledge[0].answers(variable) {
            1nat
        } else {
            0nat
        },
    decreases knowledge.len(),
{
    if knowledge.len() == 1 {
        assert(knowledge.skip(1) =~= knowledge.drop_last());
    } else {
        lemma_count_answers_front(knowledge.drop_last(), variable);
        assert(knowledge.drop_last().skip(1) =~= knowledge.skip(1).drop_last());
    }
}

/// Knowledge ordering: the values that answer a variable's question are
/// numbered 0, 1, 2, ... without a gap, in the order in which they were
/// learnt. A counter finds a value exactly if it is below the number of answers.
pub proof fn lemma_knowledge_is_contiguous(knowledge: Seq<KnowledgeModel>, variable: Variable)
    ensures
        find_variable(knowledge, variable) is Some <==> variable.counter < count_answers(
            knowledge,
            variable,
        ),
{
    assert(knowledge.skip(0) =~= knowledge);
    if knowledge.len() > 0 {
        lemma_nth_answer_after_push(
            knowledge,
            knowledge[0],
            variable,
            0,
            variable.counter as nat,
        );
    }
}

/// Knowledge is only ever added to: what a variable stood for before an
/// entry was learnt it stands for afterwards, and the new entry gets the
/// next free number under every question that it answers.
pub proof fn lemma_knowledge_is_append_only(
    knowledge: Seq<KnowledgeModel>,
    entry: KnowledgeModel,
    variable: Variable,
)
    ensures
        find_variable(knowledge, variable) matches Some(value) ==> find_variable(
            knowledge.push(entry),
            variable,
        ) == Some(value),
        entry.answers(variable) && variable.counter == count_answers(knowledge, variable)
            ==> find_variable(knowledge.push(entry), variable) == Some(entry.data),
        count_answers(knowledge.push(entry), variable) == count_answers(knowledge, variable)
            + if entry.answers(variable) {
            1nat
        } else {
            0nat
        },
{
    assert(knowledge.skip(0) =~= knowledge);
    assert(knowledge.push(entry).drop_last() =~= knowledge);
    lemma_nth_answer_after_push(knowledge, entry, variable, 0, variable.counter as nat);
}

/// A claim that the native library made about its own state.
#[derive(Debug)]
pub struct Claim {
    pub kind: u16,
    pub data: Vec<u8>,
}

/// Collects the claims of all agents in the order in which they were made.
#[derive(Debug)]
pub struct VecClaimer {
    claims: Vec<(AgentName, Claim)>,
}

impl View for VecClaimer {
    type V = Seq<(AgentName, Claim)>;

    closed spec fn view(&self) -> Seq<(AgentName, Claim)> {
        self.claims@
    }
}

impl VecClaimer {
    pub fn new() -> (r: VecClaimer)
        ensures
            r@.len() == 0,
    {
        VecClaimer { claims: Vec::new() }
    }

    /// Takes note of a claim that `agent` made.
    pub fn claim(&mut self, agent: AgentName, claim: Claim)
        ensures
            final(self)@ == old(self)@.push((agent, claim)),
    {
        self.claims.push((agent, claim));
    }

    /// The number of claims made so far.
    pub fn len(&self) -> (r: usize)
        ensures
            r == self@.len(),
    {
        self.claims.len()
    }

    /// The claim at `index`, in the order in which claims were made.
    pub fn get(&self, index: usize) -> (r: Option<&(AgentName, Claim)>)
        ensures
            match r {
                Some(entry) => index < self@.len() && *entry == self@[index as int],
                None => index >= self@.len(),
            },
    {
        if index < self.claims.len() {
            Some(&self.claims[index])
        } else {
            None
        }
    }
}

/// What a running trace has at hand: what was learnt so far, the agents, and
/// the claims that their native libraries made.
#[derive(Debug)]
pub struct TraceContext {
    knowledge: Vec<Knowledge>,
    agents: Vec<Agent>,
    claimer: VecClaimer,
    message_shape: TypeShape,
    opaque_shape: TypeShape,
}

/// A [`TraceContext`] as plain mathematics.
pub struct ContextModel {
    pub knowledge: Seq<KnowledgeModel>,
    pub agents: Seq<AgentModel>,
    pub claims: Seq<(AgentName, Claim)>,
    /// The shape of the type of messages that have been understood.
    pub message_shape: TypeShape,
    /// The shape of the type of records as they travel.
    pub opaque_shape: TypeShape,
}

impl View for TraceContext {
    type V = ContextModel;

    closed spec fn view(&self) -> ContextModel {
        ContextModel {
            knowledge: knowledge_models(self.knowledge@),
            agents: agent_models(self.agents@),
            claims: self.claimer@,
            message_shape: self.message_shape,
            opaque_shape: self.opaque_shape,
        }
    }
}

impl ContextModel {
    /// The context with the stream of the agent at `index` exchanged.
    pub open spec fn with_stream(self, index: int, stream: StreamModel) -> ContextModel {
        ContextModel {
            agents: self.agents.update(
                index,
                AgentModel { stream, ..self.agents[index] },
            ),
            ..self
        }
    }

    /// The context with more knowledge behind what it has.
    pub open spec fn with_knowledge(self, learnt: Seq<KnowledgeModel>) -> ContextModel {
        ContextModel { knowledge: self.knowledge + learnt, ..self }
    }
}

impl TraceContext {
    /// A context that knows nothing and has no agents.
    pub fn new() -> (r: TraceContext)
        ensures
            r@.knowledge.len() == 0,
            r@.agents.len() == 0,
            r@.claims.len() == 0,
            r@.message_shape.id == MESSAGE,
            r@.message_shape.name@ == MESSAGE_NAME@,
            r@.opaque_shape.id == OPAQUE_MESSAGE,
            r@.opaque_shape.name@ == OPAQUE_MESSAGE_NAME@,
    {
        TraceContext {
            knowledge: Vec::new(),
            agents: Vec::new(),
            claimer: VecClaimer::new(),
            message_shape: TypeShape::new(MESSAGE, MESSAGE_NAME),
            opaque_shape: TypeShape::new(OPAQUE_MESSAGE, OPAQUE_MESSAGE_NAME),
        }
    }

    /// The shape of the type of messages that have been understood.
    pub fn message_shape(&self) -> (r: &TypeShape)
        ensures
            *r == self@.message_shape,
    {
        &self.message_shape
    }

    /// The shape of the type of records as they travel.
    pub fn opaque_shape(&self) -> (r: &TypeShape)
        ensures
            *r == self@.opaque_shape,
    {
        &self.opaque_shape
    }

    /// Adds an entry behind all that is known.
    pub fn add_knowledge(&mut self, knowledge: Knowledge)
        ensures
            final(self)@ == old(self)@.with_knowledge(seq![knowledge@]),
    {
        self.knowledge.push(knowledge);
        assert(self@.knowledge =~= old(self)@.knowledge + seq![knowledge@]);
    }

    /// The number of entries that are known.
    pub fn knowledge_len(&self) -> (r: usize)
        ensures
            r == self@.knowledge.len(),
    {
        self.knowledge.len()
    }

    /// The entry at `index`, in the order in which entries were learnt.
    pub fn knowledge_at(&self, index: usize) -> (r: Option<&Knowledge>)
        ensures
            match r {
                Some(entry) => index < self@.knowledge.len() && entry@
                    == self@.knowledge[index as int],
                None => index >= self@.knowledge.len(),
            },
    {
        if index < self.knowledge.len() {
            Some(&self.knowledge[index])
        } else {
            None
        }
    }

    /// The value that `variable` stands for, if it is known.
    pub fn find_variable(&self, variable: &Variable) -> (r: Option<&Value>)
        ensures
            match r {
                Some(value) => find_variable(self@.knowledge, *variable) == Some(value@),
                None => find_variable(self@.knowledge, *variable) is None,
            },
    {
        let mut skip: u16 = variable.counter;
        let mut i: usize = 0;
        while i < self.knowledge.len()
            invariant
                i <= self.knowledge.len(),
                nth_answer(self@.knowledge, *variable, i as int, skip as nat) == find_variable(
                    self@.knowledge,
                    *variable,
                ),
            decreases self.knowledge.len() - i,
        {
            let entry = &self.knowledge[i];
            if entry.agent_name == variable.agent && matches_message_type(
                &variable.message_type,
                &entry.tls_message_type,
            ) && entry.data.shape.id == variable.typ.id {
                if skip == 0 {
                    return Some(&entry.data);
                }
                skip = skip - 1;
            }
            i = i + 1;
        }
        None
    }

    /// Takes note of a claim that `agent` made.
    pub fn claim(&mut self, agent: AgentName, claim: Claim)
        ensures
            final(self)@ == (ContextModel {
                claims: old(self)@.claims.push((agent, claim)),
                ..old(self)@
            }),
    {
        self.claimer.claim(agent, claim);
    }

    /// Brings the agent that `descriptor` describes to life, behind those that are there.
    pub fn new_agent(&mut self, descriptor: &AgentDescriptor)
        ensures
            final(self)@ == (ContextModel {
                agents: old(self)@.agents.push(fresh_agent(*descriptor)),
                ..old(self)@
            }),
    {
        self.agents.push(Agent::new(descriptor));
        assert(self@.agents =~= old(self)@.agents.push(fresh_agent(*descriptor)));
    }

    /// The number of agents.
    pub fn agents_len(&self) -> (r: usize)
        ensures
            r == self@.agents.len(),
    {
        self.agents.len()
    }

    /// The index of the first agent called `name`.
    pub fn find_agent(&self, name: AgentName) -> (r: Result<usize, Error>)
        ensures
            match agent_position(self@.agents, name, 0) {
                Some(i) => r matches Ok(index) && index == i && i < self@.agents.len(),
                None => r == Err::<usize, Error>(Error::Agent(name)),
            },
    {
        let mut i: usize = 0;
        while i < self.agents.len()
            invariant
                i <= self.agents.len(),
                agent_position(self@.agents, name, i as int) == agent_position(
                    self@.agents,
                    name,
                    0,
                ),
            decreases self.agents.len() - i,
        {
            if self.agents[i].name == name {
                return Ok(i);
            }
            i = i + 1;
        }
        Err(Error::Agent(name))
    }

    /// Appends the bytes of `message` to the inbound channel of `agent`.
    pub fn add_to_inbound(&mut self, agent: AgentName, message: &OpaqueMessage) -> (r: Result<
        (),
        Error,
    >)
        ensures
            match agent_position(old(self)@.agents, agent, 0) {
                Some(i) => r == Ok::<(), Error>(()) && final(self)@ == old(self)@.with_stream(
                    i,
                    StreamModel {
                        inbound: old(self)@.agents[i].stream.inbound + wire(message@),
                        ..old(self)@.agents[i].stream
                    },
                ),
                None => r == Err::<(), Error>(Error::Agent(agent)) && final(self)@ == old(self)@,
            },
    {
        let index = self.find_agent(agent)?;
        self.agents[index].stream.add_to_inbound(message);
        proof {
            assert(self@.agents =~= old(self)@.with_stream(
                index as int,
                StreamModel {
                    inbound: old(self)@.agents[index as int].stream.inbound + wire(message@),
                    ..old(self)@.agents[index as int].stream
                },
            ).agents);
        }
        Ok(())
    }

    /// Takes the record at the head of the outbound channel of `agent`.
    pub fn take_message_from_outbound(&mut self, agent: AgentName) -> (r: Result<
        Option<MessageResult>,
        Error,
    >)
        ensures
            match agent_position(old(self)@.agents, agent, 0) {
                Some(i) => {
                    let stream = old(self)@.agents[i].stream;
                    &&& taken_model(r) == taken_message(stream.outbound)
                    &&& final(self)@ == old(self)@.with_stream(
                        i,
                        StreamModel { outbound: left_behind(stream.outbound), ..stream },
                    )
                },
                None => taken_model(r) == Err::<
                    Option<(Option<crate::io::MessageModel>, crate::io::RecordModel)>,
                    Error,
                >(Error::Agent(agent)) && final(self)@ == old(self)@,
            },
    {
        let index = match self.find_agent(agent) {
            Ok(index) => index,
            Err(error) => {
                return Err(error);
            },
        };
        let taken = self.agents[index].stream.take_message_from_outbound();
        proof {
            let stream = old(self)@.agents[index as int].stream;
            assert(self@.agents =~= old(self)@.with_stream(
                index as int,
                StreamModel { outbound: left_behind(stream.outbound), ..stream },
            ).agents);
        }
        taken
    }

    /// Takes all bytes out of the inbound channel of `agent`, for its
    /// protocol engine to read.
    pub fn take_inbound(&mut self, agent: AgentName) -> (r: Result<Vec<u8>, Error>)
        ensures
            match agent_position(old(self)@.agents, agent, 0) {
                Some(i) => {
                    let stream = old(self)@.agents[i].stream;
                    &&& r matches Ok(bytes) && bytes@ == stream.inbound
                    &&& final(self)@ == old(self)@.with_stream(
                        i,
                        StreamModel { inbound: Seq::empty(), ..stream },
                    )
                },
                None => r matches Err(Error::Agent(name)) && name == agent && final(self)@ == old(
                    self,
                )@,
            },
    {
        let index = match self.find_agent(agent) {
            Ok(index) => index,
            Err(error) => {
                return Err(error);
            },
        };
        let ghost stream = old(self)@.agents[index as int].stream;
        let bytes = self.agents[index].stream.take_inbound();
        proof {
            assert(self@.agents =~= old(self)@.with_stream(
                index as int,
                StreamModel { inbound: Seq::empty(), ..stream },
            ).agents);
        }
        Ok(bytes)
    }

    /// Appends what the protocol engine of `agent` has written to the
    /// agent's outbound channel.
    pub fn write_outbound(&mut self, agent: AgentName, bytes: &[u8]) -> (r: Result<(), Error>)
        ensures
            match agent_position(old(self)@.agents, agent, 0) {
                Some(i) => r == Ok::<(), Error>(()) && final(self)@ == old(self)@.with_stream(
                    i,
                    StreamModel {
                        outbound: old(self)@.agents[i].stream.outbound + bytes@,
                        ..old(self)@.agents[i].stream
                    },
                ),
                None => r == Err::<(), Error>(Error::Agent(agent)) && final(self)@ == old(self)@,
            },
    {
        let index = self.find_agent(agent)?;
        let written = self.agents[index].stream.write(bytes);
        proof {
            assert(self@.agents =~= old(self)@.with_stream(
                index as int,
                StreamModel {
                    outbound: old(self)@.agents[index as int].stream.outbound + bytes@,
                    ..old(self)@.agents[index as int].stream
                },
            ).agents);
        }
        Ok(())
    }
}

} // verus!
