//! Traces to begin with: a corpus for the fuzzing loop, and fixtures for tests.

use crate::agent::{AgentDescriptor, AgentName, TLSVersion};
use crate::term::atoms::{Function, Variable};
use crate::term::dynamic_function::{DynamicFunctionShape, ShapeModel};
use crate::term::{lemma_models, models, Term, TermModel};
use crate::tls::{
    fn_cipher_suite13, fn_decrypt_handshake, fn_encrypt_handshake, fn_get_server_key_share,
    fn_key_share_extension, fn_new_transcript, fn_seq_1, fn_seq_2, fn_seq_3,
    fn_supported_versions13_extension, fn_verify_data, FN_ENCRYPT_HANDSHAKE, SERVER_EXTENSIONS,
    fn_append_cipher_suite, fn_append_transcript, fn_application_data, fn_certificate,
    fn_change_cipher_spec, fn_cipher_suite12, fn_client_extensions_append,
    fn_client_extensions_new, fn_client_hello, fn_client_key_exchange, fn_compressions,
    fn_decode_ecdh_params, fn_ec_point_formats_extension, fn_empty_bytes_vec, fn_encrypt12,
    fn_finished, fn_new_cipher_suites, fn_new_pubkey12, fn_new_random, fn_new_session_id,
    fn_new_transcript12, fn_opaque_message, fn_protocol_version12,
    fn_renegotiation_info_extension, fn_secp384r1_support_group_extension, fn_seq_0,
    fn_server_hello, fn_server_hello_done, fn_server_key_exchange, fn_sign_transcript,
    fn_signature_algorithm_cert_extension, fn_signature_algorithm_extension,
    fn_signed_certificate_timestamp, type_shape, BYTES, FN_APPLICATION_DATA, FN_CERTIFICATE,
    FN_CHANGE_CIPHER_SPEC, FN_CLIENT_HELLO, FN_CLIENT_KEY_EXCHANGE, FN_ENCRYPT12,
    FN_OPAQUE_MESSAGE, FN_SERVER_HELLO, FN_SERVER_HELLO_DONE, FN_SERVER_KEY_EXCHANGE,
};
use crate::trace::{
    described, refers_within, Action, ActionModel, HandshakeType, InputAction, OutputAction,
    Step, StepModel, TlsMessageType, Trace,
};
use vstd::prelude::*;

verus! {

/// Whether `term` is well-typed, of the type with the id `typ`, and speaks
/// of no other agents than `agents`.
pub open spec fn sound(term: TermModel, typ: u64, agents: Seq<AgentName>) -> bool {
    &&& term.well_typed()
    &&& term.type_shape().id == typ
    &&& refers_within(term, agents)
}

/// Whether `arguments` are what `shape` asks for, all of them speaking of
/// no other agents than `agents`.
pub open spec fn sound_arguments(
    shape: ShapeModel,
    arguments: Seq<TermModel>,
    agents: Seq<AgentName>,
) -> bool {
    &&& arguments.len() == shape.argument_types.len()
    &&& forall|i: int|
        0 <= i < arguments.len() ==> sound(
            #[trigger] arguments[i],
            shape.argument_types[i].id,
            agents,
        )
}

/// Makes the symbols of a seed trace, each with an id of its own.
struct Builder {
    next_id: u32,
    agents: Ghost<Seq<AgentName>>,
}

impl Builder {
    fn new(agents: Ghost<Seq<AgentName>>) -> (r: Builder)
        ensures
            r.agents@ == agents@,
    {
        Builder { next_id: 0, agents }
    }

    /// The next id; every id is handed out once, until the largest one is reached.
    fn fresh(&mut self) -> (r: u32)
        ensures
            r == old(self).next_id,
            final(self).next_id == if old(self).next_id < u32::MAX {
                (old(self).next_id + 1) as u32
            } else {
                old(self).next_id
            },
            final(self).agents == old(self).agents,
    {
        let id = self.next_id;
        if self.next_id < u32::MAX {
            self.next_id = self.next_id + 1;
        }
        id
    }

    /// The application of the function described by `shape` to `arguments`.
    fn apply(&mut self, shape: DynamicFunctionShape, arguments: Vec<Term>) -> (r: Term)
        requires
            sound_arguments(shape@, models(arguments@), old(self).agents@),
        ensures
            final(self).agents == old(self).agents,
            sound(r@, shape@.return_type.id, old(self).agents@),
            r@.is_named(shape@.name),
    {
        let id = self.fresh();
        Term::Application(Function::new(id, id, shape), arguments)
    }

    fn constant(&mut self, shape: DynamicFunctionShape) -> (r: Term)
        requires
            shape@.argument_types.len() == 0,
        ensures
            final(self).agents == old(self).agents,
            sound(r@, shape@.return_type.id, old(self).agents@),
            r@.is_named(shape@.name),
    {
        let arguments: Vec<Term> = Vec::new();
        self.apply(shape, arguments)
    }

    fn apply1(&mut self, shape: DynamicFunctionShape, first: Term) -> (r: Term)
        requires
            shape@.argument_types.len() == 1,
            sound(first@, shape@.argument_types[0].id, old(self).agents@),
        ensures
            final(self).agents == old(self).agents,
            sound(r@, shape@.return_type.id, old(self).agents@),
            r@.is_named(shape@.name),
    {
        let mut arguments: Vec<Term> = Vec::new();
        arguments.push(first);
        proof {
            lemma_models(arguments@);
        }
        self.apply(shape, arguments)
    }

    fn apply2(&mut self, shape: DynamicFunctionShape, first: Term, second: Term) -> (r: Term)
        requires
            shape@.argument_types.len() == 2,
            sound(first@, shape@.argument_types[0].id, old(self).agents@),
            sound(second@, shape@.argument_types[1].id, old(self).agents@),
        ensures
            final(self).agents == old(self).agents,
            sound(r@, shape@.return_type.id, old(self).agents@),
            r@.is_named(shape@.name),
    {
        let mut arguments: Vec<Term> = Vec::new();
        arguments.push(first);
        arguments.push(second);
        proof {
            lemma_models(arguments@);
        }
        self.apply(shape, arguments)
    }

    fn apply3(&mut self, shape: DynamicFunctionShape, first: Term, second: Term, third: Term) -> (r:
        Term)
        requires
            shape@.argument_types.len() == 3,
            sound(first@, shape@.argument_types[0].id, old(self).agents@),
            sound(second@, shape@.argument_types[1].id, old(self).agents@),
            sound(third@, shape@.argument_types[2].id, old(self).agents@),
        ensures
            final(self).agents == old(self).agents,
            sound(r@, shape@.return_type.id, old(self).agents@),
            r@.is_named(shape@.name),
    {
        let mut arguments: Vec<Term> = Vec::new();
        arguments.push(first);
        arguments.push(second);
        arguments.push(third);
        proof {
            lemma_models(arguments@);
        }
        self.apply(shape, arguments)
    }

    fn apply4(
        &mut self,
        shape: DynamicFunctionShape,
        first: Term,
        second: Term,
        third: Term,
        fourth: Term,
    ) -> (r: Term)
        requires
            shape@.argument_types.len() == 4,
            sound(first@, shape@.argument_types[0].id, old(self).agents@),
            sound(second@, shape@.argument_types[1].id, old(self).agents@),
            sound(third@, shape@.argument_types[2].id, old(self).agents@),
            sound(fourth@, shape@.argument_types[3].id, old(self).agents@),
        ensures
            final(self).agents == old(self).agents,
            sound(r@, shape@.return_type.id, old(self).agents@),
            r@.is_named(shape@.name),
    {
        let mut arguments: Vec<Term> = Vec::new();
        arguments.push(first);
        arguments.push(second);
        arguments.push(third);
        arguments.push(fourth);
        proof {
            lemma_models(arguments@);
        }
        self.apply(shape, arguments)
    }

    /// The variable for the `counter`-th value of the type with the id `typ`
    /// that `agent` produces among the messages that pass `message_type`.
    fn variable(
        &mut self,
        typ: u64,
        agent: AgentName,
        message_type: Option<TlsMessageType>,
        counter: u16,
    ) -> (r: Term)
        requires
            old(self).agents@.contains(agent),
        ensures
            final(self).agents == old(self).agents,
            sound(r@, typ, old(self).agents@),
            r@ matches TermModel::Variable(variable) && variable.agent == agent
                && variable.message_type == message_type && variable.counter == counter,
    {
        let id = self.fresh();
        Term::Variable(Variable::new(id, id, type_shape(typ), agent, message_type, counter))
    }

    /// The application of the function described by `shape` to variables
    /// for the `counter`-th values of `agent`, one of each argument type,
    /// among the messages that pass `message_type`.
    fn forward(
        &mut self,
        shape: DynamicFunctionShape,
        agent: AgentName,
        message_type: Option<TlsMessageType>,
        counter: u16,
    ) -> (r: Term)
        requires
            old(self).agents@.contains(agent),
        ensures
            final(self).agents == old(self).agents,
            sound(r@, shape@.return_type.id, old(self).agents@),
            r@.is_named(shape@.name),
    {
        let mut arguments: Vec<Term> = Vec::new();
        let mut i: usize = 0;
        while i < shape.argument_types.len()
            invariant
                i <= shape.argument_types.len(),
                arguments.len() == i,
                self.agents == old(self).agents,
                self.agents@.contains(agent),
                forall|j: int|
                    0 <= j < i ==> sound(
                        (#[trigger] arguments[j])@,
                        shape@.argument_types[j].id,
                        self.agents@,
                    ),
            decreases shape.argument_types.len() - i,
        {
            let variable = self.variable(shape.argument_types[i].id, agent, message_type, counter);
            arguments.push(variable);
            i = i + 1;
        }
        proof {
            lemma_models(arguments@);
        }
        self.apply(shape, arguments)
    }
}

fn input(agent: AgentName, recipe: Term) -> (r: Step)
    ensures
        r@ == (StepModel { agent, action: ActionModel::Input(recipe@) }),
{
    Step { agent, action: Action::Input(InputAction { recipe }) }
}

fn output(agent: AgentName) -> (r: Step)
    ensures
        r@ == (StepModel { agent, action: ActionModel::Output }),
{
    Step { agent, action: Action::Output(OutputAction {  }) }
}

/// Whether the step at `index` is an input step of `agent` whose recipe is
/// an application of the function called `name`.
pub open spec fn delivers(steps: Seq<StepModel>, index: int, agent: AgentName, name: Seq<char>) -> bool {
    &&& 0 <= index < steps.len()
    &&& steps[index].agent == agent
    &&& steps[index].action matches ActionModel::Input(recipe) && recipe.is_named(name)
}

/// Whether the step at `index` is an output step of `agent`.
pub open spec fn collects(steps: Seq<StepModel>, index: int, agent: AgentName) -> bool {
    &&& 0 <= index < steps.len()
    &&& steps[index].agent == agent
    &&& steps[index].action is Output
}

/// The hello of a client that offers TLS 1.2.
fn client_hello12(builder: &mut Builder) -> (r: Term)
    ensures
        final(builder).agents == old(builder).agents,
        sound(r@, crate::trace::MESSAGE, old(builder).agents@),
        r@.is_named(FN_CLIENT_HELLO@),
{
    let version = builder.constant(fn_protocol_version12());
    let random = builder.constant(fn_new_random());
    let session_id = builder.constant(fn_new_session_id());
    let no_suites = builder.constant(fn_new_cipher_suites());
    // force TLS_ECDHE_RSA_WITH_AES_128_GCM_SHA256
    let suite = builder.constant(fn_cipher_suite12());
    let suites = builder.apply2(fn_append_cipher_suite(), no_suites, suite);
    let compressions = builder.constant(fn_compressions());
    let mut extensions = builder.constant(fn_client_extensions_new());
    let group = builder.constant(fn_secp384r1_support_group_extension());
    extensions = builder.apply2(fn_client_extensions_append(), extensions, group);
    let algorithm = builder.constant(fn_signature_algorithm_extension());
    extensions = builder.apply2(fn_client_extensions_append(), extensions, algorithm);
    let formats = builder.constant(fn_ec_point_formats_extension());
    extensions = builder.apply2(fn_client_extensions_append(), extensions, formats);
    let timestamp = builder.constant(fn_signed_certificate_timestamp());
    extensions = builder.apply2(fn_client_extensions_append(), extensions, timestamp);
    // enable renegotiation
    let no_bytes = builder.constant(fn_empty_bytes_vec());
    let renegotiation = builder.apply1(fn_renegotiation_info_extension(), no_bytes);
    extensions = builder.apply2(fn_client_extensions_append(), extensions, renegotiation);
    // add the signature algorithms of certificates
    let certificate_algorithm = builder.constant(fn_signature_algorithm_cert_extension());
    extensions = builder.apply2(fn_client_extensions_append(), extensions, certificate_algorithm);
    let shape = fn_client_hello();
    let mut arguments: Vec<Term> = Vec::new();
    arguments.push(version);
    arguments.push(random);
    arguments.push(session_id);
    arguments.push(suites);
    arguments.push(compressions);
    arguments.push(extensions);
    proof {
        lemma_models(arguments@);
    }
    builder.apply(shape, arguments)
}

/// The decoded key exchange parameters that the server has sent.
fn server_ecdh_params(builder: &mut Builder, server: AgentName) -> (r: Term)
    requires
        old(builder).agents@.contains(server),
    ensures
        final(builder).agents == old(builder).agents,
        sound(r@, crate::tls::ECDH_PARAMS, old(builder).agents@),
{
    let encoded = builder.variable(BYTES, server, Some(TlsMessageType::Handshake(None)), 0);
    builder.apply1(fn_decode_ecdh_params(), encoded)
}

/// A trace in which an attacker plays the client of a TLS 1.2 handshake
/// against the server `server`: it sends its hello, its key exchange, the
/// change of cipher and its encrypted finished message.
pub fn seed_client_attacker12(server: AgentName) -> (r: Trace)
    ensures
        r@.well_typed(),
        r@.is_closed(),
        r@.descriptors == seq![
            AgentDescriptor { name: server, tls_version: TLSVersion::V1_2, server: true },
        ],
        r@.steps.len() == 4,
        delivers(r@.steps, 0, server, FN_CLIENT_HELLO@),
        delivers(r@.steps, 1, server, FN_CLIENT_KEY_EXCHANGE@),
        delivers(r@.steps, 2, server, FN_CHANGE_CIPHER_SPEC@),
        delivers(r@.steps, 3, server, FN_ENCRYPT12@),
{
    let descriptors: Vec<AgentDescriptor> = vec![
        AgentDescriptor { name: server, tls_version: TLSVersion::V1_2, server: true },
    ];
    let ghost agents = described(descriptors@);
    assert(agents[0] == server);
    let mut builder = Builder::new(Ghost(agents));
    let builder = &mut builder;

    let client_hello = client_hello12(builder);

    // the transcript up to the key exchange of the client
    let mut transcript = builder.constant(fn_new_transcript12());
    let said = client_hello.clone();
    transcript = builder.apply2(fn_append_transcript(), transcript, said);
    let server_hello = builder.variable(
        crate::trace::MESSAGE,
        server,
        Some(TlsMessageType::Handshake(Some(HandshakeType::ServerHello))),
        0,
    );
    transcript = builder.apply2(fn_append_transcript(), transcript, server_hello);
    let certificate = builder.variable(
        crate::trace::MESSAGE,
        server,
        Some(TlsMessageType::Handshake(Some(HandshakeType::Certificate))),
        0,
    );
    transcript = builder.apply2(fn_append_transcript(), transcript, certificate);
    let server_key_exchange = builder.variable(
        crate::trace::MESSAGE,
        server,
        Some(TlsMessageType::Handshake(Some(HandshakeType::ServerKeyExchange))),
        0,
    );
    transcript = builder.apply2(fn_append_transcript(), transcript, server_key_exchange);
    let server_hello_done = builder.variable(
        crate::trace::MESSAGE,
        server,
        Some(TlsMessageType::Handshake(Some(HandshakeType::ServerHelloDone))),
        0,
    );
    transcript = builder.apply2(fn_append_transcript(), transcript, server_hello_done);

    let params = server_ecdh_params(builder, server);
    let public_key = builder.apply1(fn_new_pubkey12(), params);
    let client_key_exchange = builder.apply1(fn_client_key_exchange(), public_key);
    let exchanged = client_key_exchange.clone();
    transcript = builder.apply2(fn_append_transcript(), transcript, exchanged);

    let random = builder.variable(
        crate::tls::RANDOM,
        server,
        Some(TlsMessageType::Handshake(None)),
        0,
    );
    let params = server_ecdh_params(builder, server);
    let verify_data = builder.apply3(fn_sign_transcript(), random, params, transcript);
    let finished = builder.apply1(fn_finished(), verify_data);
    let random = builder.variable(
        crate::tls::RANDOM,
        server,
        Some(TlsMessageType::Handshake(None)),
        0,
    );
    let params = server_ecdh_params(builder, server);
    let sequence = builder.constant(fn_seq_0());
    let encrypted = builder.apply4(fn_encrypt12(), finished, random, params, sequence);
    let change_cipher_spec = builder.constant(fn_change_cipher_spec());

    let mut steps: Vec<Step> = Vec::new();
    steps.push(input(server, client_hello));
    steps.push(input(server, client_key_exchange));
    steps.push(input(server, change_cipher_spec));
    steps.push(input(server, encrypted));
    Trace { descriptors, steps }
}

/// The hello of a client that offers TLS 1.3.
fn client_hello13(builder: &mut Builder) -> (r: Term)
    ensures
        final(builder).agents == old(builder).agents,
        sound(r@, crate::trace::MESSAGE, old(builder).agents@),
        r@.is_named(FN_CLIENT_HELLO@),
{
    let version = builder.constant(fn_protocol_version12());
    let random = builder.constant(fn_new_random());
    let session_id = builder.constant(fn_new_session_id());
    let no_suites = builder.constant(fn_new_cipher_suites());
    let suite = builder.constant(fn_cipher_suite13());
    let suites = builder.apply2(fn_append_cipher_suite(), no_suites, suite);
    let compressions = builder.constant(fn_compressions());
    let mut extensions = builder.constant(fn_client_extensions_new());
    let group = builder.constant(fn_secp384r1_support_group_extension());
    extensions = builder.apply2(fn_client_extensions_append(), extensions, group);
    let algorithm = builder.constant(fn_signature_algorithm_extension());
    extensions = builder.apply2(fn_client_extensions_append(), extensions, algorithm);
    let key_share = builder.constant(fn_key_share_extension());
    extensions = builder.apply2(fn_client_extensions_append(), extensions, key_share);
    let versions = builder.constant(fn_supported_versions13_extension());
    extensions = builder.apply2(fn_client_extensions_append(), extensions, versions);
    let shape = fn_client_hello();
    let mut arguments: Vec<Term> = Vec::new();
    arguments.push(version);
    arguments.push(random);
    arguments.push(session_id);
    arguments.push(suites);
    arguments.push(compressions);
    arguments.push(extensions);
    proof {
        lemma_models(arguments@);
    }
    builder.apply(shape, arguments)
}

/// The key share that the server has sent in its hello.
fn server_key_share(builder: &mut Builder, server: AgentName) -> (r: Term)
    requires
        old(builder).agents@.contains(server),
    ensures
        final(builder).agents == old(builder).agents,
        sound(r@, crate::tls::OPTIONAL_BYTES, old(builder).agents@),
{
    let extensions = builder.variable(
        SERVER_EXTENSIONS,
        server,
        Some(TlsMessageType::Handshake(None)),
        0,
    );
    builder.apply1(fn_get_server_key_share(), extensions)
}

/// The handshake message in the `counter`-th encrypted record of the server.
fn decrypted(
    builder: &mut Builder,
    server: AgentName,
    counter: u16,
    hello_transcript: &Term,
    sequence: Term,
) -> (r: Term)
    requires
        old(builder).agents@.contains(server),
        sound(hello_transcript@, crate::tls::TRANSCRIPT, old(builder).agents@),
        sound(sequence@, crate::tls::U64, old(builder).agents@),
    ensures
        final(builder).agents == old(builder).agents,
        sound(r@, crate::trace::MESSAGE, old(builder).agents@),
{
    let record = builder.variable(
        crate::trace::MESSAGE,
        server,
        Some(TlsMessageType::ApplicationData),
        counter,
    );
    let key_share = server_key_share(builder, server);
    let transcript = hello_transcript.clone();
    builder.apply4(fn_decrypt_handshake(), record, transcript, key_share, sequence)
}

/// A trace in which an attacker plays the client of a TLS 1.3 handshake
/// against the server `server`: it sends its hello and, made from what the
/// server answers, its encrypted finished message.
pub fn seed_client_attacker(server: AgentName) -> (r: Trace)
    ensures
        r@.well_typed(),
        r@.is_closed(),
        r@.descriptors == seq![
            AgentDescriptor { name: server, tls_version: TLSVersion::V1_3, server: true },
        ],
        r@.steps.len() == 2,
        delivers(r@.steps, 0, server, FN_CLIENT_HELLO@),
        delivers(r@.steps, 1, server, FN_ENCRYPT_HANDSHAKE@),
{
    let descriptors: Vec<AgentDescriptor> = vec![
        AgentDescriptor { name: server, tls_version: TLSVersion::V1_3, server: true },
    ];
    let ghost agents = described(descriptors@);
    assert(agents[0] == server);
    let mut builder = Builder::new(Ghost(agents));
    let builder = &mut builder;

    let client_hello = client_hello13(builder);

    // the transcript up to the hello of the server, which is sent in the clear
    let mut hello_transcript = builder.constant(fn_new_transcript());
    let said = client_hello.clone();
    hello_transcript = builder.apply2(fn_append_transcript(), hello_transcript, said);
    let server_hello = builder.variable(
        crate::trace::MESSAGE,
        server,
        Some(TlsMessageType::Handshake(Some(HandshakeType::ServerHello))),
        0,
    );
    hello_transcript = builder.apply2(fn_append_transcript(), hello_transcript, server_hello);

    // encrypted extensions, certificate, its verification and the finished
    // message of the server, each decrypted and added to the transcript
    let mut transcript = hello_transcript.clone();
    let sequence = builder.constant(fn_seq_0());
    let extensions = decrypted(builder, server, 0, &hello_transcript, sequence);
    transcript = builder.apply2(fn_append_transcript(), transcript, extensions);
    let sequence = builder.constant(fn_seq_1());
    let certificate = decrypted(builder, server, 1, &hello_transcript, sequence);
    transcript = builder.apply2(fn_append_transcript(), transcript, certificate);
    let sequence = builder.constant(fn_seq_2());
    let verification = decrypted(builder, server, 2, &hello_transcript, sequence);
    transcript = builder.apply2(fn_append_transcript(), transcript, verification);
    let sequence = builder.constant(fn_seq_3());
    let server_finished = decrypted(builder, server, 3, &hello_transcript, sequence);
    transcript = builder.apply2(fn_append_transcript(), transcript, server_finished);

    let key_share = server_key_share(builder, server);
    let keys_transcript = hello_transcript.clone();
    let verify_data = builder.apply3(fn_verify_data(), transcript, keys_transcript, key_share);
    let finished = builder.apply1(fn_finished(), verify_data);
    let key_share = server_key_share(builder, server);
    let sequence = builder.constant(fn_seq_0());
    let encrypted = builder.apply4(
        fn_encrypt_handshake(),
        finished,
        hello_transcript,
        key_share,
        sequence,
    );

    let mut steps: Vec<Step> = Vec::new();
    steps.push(input(server, client_hello));
    steps.push(input(server, encrypted));
    Trace { descriptors, steps }
}

/// The two agents of a handshake: a client and a server that speak `version`.
fn pair(client: AgentName, server: AgentName, version: TLSVersion) -> (r: Vec<AgentDescriptor>)
    ensures
        r@ == seq![
            AgentDescriptor { name: client, tls_version: version, server: false },
            AgentDescriptor { name: server, tls_version: version, server: true },
        ],
{
    let mut descriptors: Vec<AgentDescriptor> = Vec::new();
    descriptors.push(AgentDescriptor { name: client, tls_version: version, server: false });
    descriptors.push(AgentDescriptor { name: server, tls_version: version, server: true });
    descriptors
}

/// A TLS 1.3 handshake between `client` and `server` in which every message
/// of the one is handed to the other as it was sent.
pub fn seed_successful(client: AgentName, server: AgentName) -> (r: Trace)
    ensures
        r@.well_typed(),
        r@.is_closed(),
        r@.descriptors == seq![
            AgentDescriptor { name: client, tls_version: TLSVersion::V1_3, server: false },
            AgentDescriptor { name: server, tls_version: TLSVersion::V1_3, server: true },
        ],
        r@.steps.len() == 14,
        collects(r@.steps, 0, client),
        delivers(r@.steps, 1, server, FN_CLIENT_HELLO@),
        collects(r@.steps, 2, server),
        delivers(r@.steps, 3, client, FN_SERVER_HELLO@),
        delivers(r@.steps, 4, client, FN_CHANGE_CIPHER_SPEC@),
        delivers(r@.steps, 5, client, FN_APPLICATION_DATA@),
        delivers(r@.steps, 6, client, FN_APPLICATION_DATA@),
        delivers(r@.steps, 7, client, FN_APPLICATION_DATA@),
        delivers(r@.steps, 8, client, FN_APPLICATION_DATA@),
        collects(r@.steps, 9, client),
        delivers(r@.steps, 10, server, FN_CHANGE_CIPHER_SPEC@),
        delivers(r@.steps, 11, server, FN_APPLICATION_DATA@),
        collects(r@.steps, 12, server),
        collects(r@.steps, 13, client),
{
    let descriptors = pair(client, server, TLSVersion::V1_3);
    let ghost agents = described(descriptors@);
    assert(agents[0] == client);
    assert(agents[1] == server);
    let mut builder = Builder::new(Ghost(agents));
    let builder = &mut builder;
    let handshake = Some(TlsMessageType::Handshake(None));
    let data = Some(TlsMessageType::ApplicationData);

    let mut steps: Vec<Step> = Vec::new();
    steps.push(output(client));
    // the hello of the client goes to the server
    let client_hello = builder.forward(fn_client_hello(), client, handshake, 0);
    steps.push(input(server, client_hello));
    steps.push(output(server));
    // the hello of the server goes to the client
    let server_hello = builder.forward(fn_server_hello(), server, handshake, 0);
    steps.push(input(client, server_hello));
    let change_cipher_spec = builder.constant(fn_change_cipher_spec());
    steps.push(input(client, change_cipher_spec));
    // encrypted extensions, certificate, its verification and the finished
    // message of the server go to the client
    let extensions = builder.forward(fn_application_data(), server, data, 0);
    steps.push(input(client, extensions));
    let certificate = builder.forward(fn_application_data(), server, data, 1);
    steps.push(input(client, certificate));
    let verification = builder.forward(fn_application_data(), server, data, 2);
    steps.push(input(client, verification));
    let finished = builder.forward(fn_application_data(), server, data, 3);
    steps.push(input(client, finished));
    steps.push(output(client));
    // the finished message of the client goes to the server
    let change_cipher_spec = builder.constant(fn_change_cipher_spec());
    steps.push(input(server, change_cipher_spec));
    let finished = builder.forward(fn_application_data(), client, data, 0);
    steps.push(input(server, finished));
    steps.push(output(server));
    steps.push(output(client));
    Trace { descriptors, steps }
}

/// A TLS 1.2 handshake between `client` and `server` in which every message
/// of the one is handed to the other as it was sent.
pub fn seed_successful12(client: AgentName, server: AgentName) -> (r: Trace)
    ensures
        r@.well_typed(),
        r@.is_closed(),
        r@.descriptors == seq![
            AgentDescriptor { name: client, tls_version: TLSVersion::V1_2, server: false },
            AgentDescriptor { name: server, tls_version: TLSVersion::V1_2, server: true },
        ],
        r@.steps.len() == 15,
        collects(r@.steps, 0, client),
        delivers(r@.steps, 1, server, FN_CLIENT_HELLO@),
        collects(r@.steps, 2, server),
        delivers(r@.steps, 3, client, FN_SERVER_HELLO@),
        delivers(r@.steps, 4, client, FN_CERTIFICATE@),
        delivers(r@.steps, 5, client, FN_SERVER_KEY_EXCHANGE@),
        delivers(r@.steps, 6, client, FN_SERVER_HELLO_DONE@),
        collects(r@.steps, 7, client),
        delivers(r@.steps, 8, server, FN_CLIENT_KEY_EXCHANGE@),
        delivers(r@.steps, 9, server, FN_CHANGE_CIPHER_SPEC@),
        delivers(r@.steps, 10, server, FN_OPAQUE_MESSAGE@),
        collects(r@.steps, 11, server),
        delivers(r@.steps, 12, client, FN_CHANGE_CIPHER_SPEC@),
        delivers(r@.steps, 13, client, FN_OPAQUE_MESSAGE@),
        collects(r@.steps, 14, client),
{
    let descriptors = pair(client, server, TLSVersion::V1_2);
    let ghost agents = described(descriptors@);
    assert(agents[0] == client);
    assert(agents[1] == server);
    let mut builder = Builder::new(Ghost(agents));
    let builder = &mut builder;
    let handshake = Some(TlsMessageType::Handshake(None));

    let mut steps: Vec<Step> = Vec::new();
    steps.push(output(client));
    // the hello of the client goes to the server
    let client_hello = builder.forward(fn_client_hello(), client, handshake, 0);
    steps.push(input(server, client_hello));
    steps.push(output(server));
    // hello, certificate and key exchange of the server go to the client
    let server_hello = builder.forward(fn_server_hello(), server, handshake, 0);
    steps.push(input(client, server_hello));
    let certificate = builder.forward(fn_certificate(), server, handshake, 0);
    steps.push(input(client, certificate));
    let server_key_exchange = builder.forward(fn_server_key_exchange(), server, handshake, 0);
    steps.push(input(client, server_key_exchange));
    let server_hello_done = builder.constant(fn_server_hello_done());
    steps.push(input(client, server_hello_done));
    steps.push(output(client));
    // key exchange, change of cipher and finished message of the client go
    // to the server; the finished message is encrypted and goes as the
    // fourth record that the client has sent
    let client_key_exchange = builder.forward(fn_client_key_exchange(), client, handshake, 0);
    steps.push(input(server, client_key_exchange));
    let change_cipher_spec = builder.constant(fn_change_cipher_spec());
    steps.push(input(server, change_cipher_spec));
    let finished = builder.forward(fn_opaque_message(), client, None, 3);
    steps.push(input(server, finished));
    steps.push(output(server));
    // change of cipher and finished message of the server go to the client;
    // the finished message is the sixth record that the server has sent
    let change_cipher_spec = builder.constant(fn_change_cipher_spec());
    steps.push(input(client, change_cipher_spec));
    let finished = builder.forward(fn_opaque_message(), server, None, 5);
    steps.push(input(client, finished));
    steps.push(output(client));
    Trace { descriptors, steps }
}

} // verus!
