//! The signature of the TLS function library: the types that its functions
//! work on and the shapes of the functions, by their names.
//!
//! The functions that need nothing but bytes are computed by
//! [`BaseFunctions`]; the others come with the TLS integration.

use crate::error::FnError;
use crate::io::{
    wire, Message, MessageModel, OpaqueMessage, RecordModel, ALERT, APPLICATION_DATA,
    CHANGE_CIPHER_SPEC,
};
use crate::term::atoms::{Function, FunctionModel};
use crate::term::dynamic_function::{
    DynamicFunctionShape, FunctionLibrary, ShapeModel, TypeShape, Value, ValueModel,
};
use crate::term::signature::{lemma_interning_is_stable, position_of, Signature};
use crate::trace::{MESSAGE, MESSAGE_NAME, OPAQUE_MESSAGE, OPAQUE_MESSAGE_NAME};
use vstd::prelude::*;
use vstd::string::StringExecFns;

verus! {

pub const BYTES: u64 = 3;

pub const U64: u64 = 4;

pub const PROTOCOL_VERSION: u64 = 5;

pub const RANDOM: u64 = 6;

pub const SESSION_ID: u64 = 7;

pub const CIPHER_SUITE: u64 = 8;

pub const CIPHER_SUITES: u64 = 9;

pub const COMPRESSION: u64 = 10;

pub const COMPRESSIONS: u64 = 11;

pub const CLIENT_EXTENSION: u64 = 12;

pub const CLIENT_EXTENSIONS: u64 = 13;

pub const SERVER_EXTENSION: u64 = 14;

pub const SERVER_EXTENSIONS: u64 = 15;

pub const TRANSCRIPT: u64 = 16;

pub const ECDH_PARAMS: u64 = 17;

pub const CERTIFICATE_PAYLOAD: u64 = 18;

pub const OPTIONAL_BYTES: u64 = 19;

pub const UNKNOWN_TYPE_NAME: &'static str = "unknown";

/// The name under which the type with the given id is shown.
pub open spec fn type_text(id: u64) -> &'static str {
    if id == MESSAGE {
        MESSAGE_NAME
    } else if id == OPAQUE_MESSAGE {
        OPAQUE_MESSAGE_NAME
    } else if id == BYTES {
        "alloc::vec::Vec<u8>"
    } else if id == U64 {
        "u64"
    } else if id == PROTOCOL_VERSION {
        "rustls::msgs::enums::ProtocolVersion"
    } else if id == RANDOM {
        "rustls::msgs::handshake::Random"
    } else if id == SESSION_ID {
        "rustls::msgs::handshake::SessionID"
    } else if id == CIPHER_SUITE {
        "rustls::msgs::enums::CipherSuite"
    } else if id == CIPHER_SUITES {
        "alloc::vec::Vec<rustls::msgs::enums::CipherSuite>"
    } else if id == COMPRESSION {
        "rustls::msgs::enums::Compression"
    } else if id == COMPRESSIONS {
        "alloc::vec::Vec<rustls::msgs::enums::Compression>"
    } else if id == CLIENT_EXTENSION {
        "rustls::msgs::handshake::ClientExtension"
    } else if id == CLIENT_EXTENSIONS {
        "alloc::vec::Vec<rustls::msgs::handshake::ClientExtension>"
    } else if id == SERVER_EXTENSION {
        "rustls::msgs::handshake::ServerExtension"
    } else if id == SERVER_EXTENSIONS {
        "alloc::vec::Vec<rustls::msgs::handshake::ServerExtension>"
    } else if id == TRANSCRIPT {
        "rustls::hash_hs::HandshakeHash"
    } else if id == ECDH_PARAMS {
        "rustls::msgs::handshake::ServerECDHParams"
    } else if id == CERTIFICATE_PAYLOAD {
        "alloc::vec::Vec<rustls::key::Certificate>"
    } else if id == OPTIONAL_BYTES {
        "core::option::Option<alloc::vec::Vec<u8>>"
    } else {
        UNKNOWN_TYPE_NAME
    }
}

/// The name under which the type with the given id is shown.
pub fn name_of_type(id: u64) -> (r: &'static str)
    ensures
        r == type_text(id),
{
    if id == MESSAGE {
        MESSAGE_NAME
    } else if id == OPAQUE_MESSAGE {
        OPAQUE_MESSAGE_NAME
    } else if id == BYTES {
        "alloc::vec::Vec<u8>"
    } else if id == U64 {
        "u64"
    } else if id == PROTOCOL_VERSION {
        "rustls::msgs::enums::ProtocolVersion"
    } else if id == RANDOM {
        "rustls::msgs::handshake::Random"
    } else if id == SESSION_ID {
        "rustls::msgs::handshake::SessionID"
    } else if id == CIPHER_SUITE {
        "rustls::msgs::enums::CipherSuite"
    } else if id == CIPHER_SUITES {
        "alloc::vec::Vec<rustls::msgs::enums::CipherSuite>"
    } else if id == COMPRESSION {
        "rustls::msgs::enums::Compression"
    } else if id == COMPRESSIONS {
        "alloc::vec::Vec<rustls::msgs::enums::Compression>"
    } else if id == CLIENT_EXTENSION {
        "rustls::msgs::handshake::ClientExtension"
    } else if id == CLIENT_EXTENSIONS {
        "alloc::vec::Vec<rustls::msgs::handshake::ClientExtension>"
    } else if id == SERVER_EXTENSION {
        "rustls::msgs::handshake::ServerExtension"
    } else if id == SERVER_EXTENSIONS {
        "alloc::vec::Vec<rustls::msgs::handshake::ServerExtension>"
    } else if id == TRANSCRIPT {
        "rustls::hash_hs::HandshakeHash"
    } else if id == ECDH_PARAMS {
        "rustls::msgs::handshake::ServerECDHParams"
    } else if id == CERTIFICATE_PAYLOAD {
        "alloc::vec::Vec<rustls::key::Certificate>"
    } else if id == OPTIONAL_BYTES {
        "core::option::Option<alloc::vec::Vec<u8>>"
    } else {
        UNKNOWN_TYPE_NAME
    }
}

/// The shape of the type with the given id.
pub fn type_shape(id: u64) -> (r: TypeShape)
    ensures
        r.id == id,
        r.name@ == type_text(id)@,
{
    TypeShape::new(id, name_of_type(id))
}

/// Whether `shape` is called `name`, takes arguments of the types with the
/// ids `arguments` and returns a value of the type with the id `result`.
pub open spec fn declares(shape: ShapeModel, name: Seq<char>, arguments: Seq<u64>, result: u64) -> bool {
    &&& shape.name == name
    &&& shape.argument_types.len() == arguments.len()
    &&& forall|i: int|
        0 <= i < arguments.len() ==> (#[trigger] shape.argument_types[i]).id == arguments[i]
    &&& shape.return_type.id == result
}

/// The shape of a function by its name and the ids of its types.
pub fn declare(name: &str, arguments: Vec<u64>, result: u64) -> (r: DynamicFunctionShape)
    ensures
        declares(r@, name@, arguments@, result),
{
    let mut argument_types: Vec<TypeShape> = Vec::new();
    let mut i: usize = 0;
    while i < arguments.len()
        invariant
            i <= arguments.len(),
            argument_types.len() == i,
            forall|j: int| 0 <= j < i ==> (#[trigger] argument_types[j]).id == arguments[j],
        decreases arguments.len() - i,
    {
        argument_types.push(type_shape(arguments[i]));
        i = i + 1;
    }
    DynamicFunctionShape::new(name, argument_types, type_shape(result))
}

pub const FN_EMPTY_BYTES_VEC: &'static str = "tlspuffin::tls::fn_constants::fn_empty_bytes_vec";

pub const FN_SEQ_0: &'static str = "tlspuffin::tls::fn_constants::fn_seq_0";

pub const FN_SEQ_1: &'static str = "tlspuffin::tls::fn_constants::fn_seq_1";

pub const FN_PROTOCOL_VERSION12: &'static str = "tlspuffin::tls::fn_fields::fn_protocol_version12";

pub const FN_PROTOCOL_VERSION13: &'static str = "tlspuffin::tls::fn_fields::fn_protocol_version13";

pub const FN_NEW_RANDOM: &'static str = "tlspuffin::tls::fn_fields::fn_new_random";

pub const FN_NEW_SESSION_ID: &'static str = "tlspuffin::tls::fn_fields::fn_new_session_id";

pub const FN_EMPTY_SESSION_ID: &'static str = "tlspuffin::tls::fn_fields::fn_empty_session_id";

pub const FN_NEW_CIPHER_SUITES: &'static str = "tlspuffin::tls::fn_fields::fn_new_cipher_suites";

pub const FN_APPEND_CIPHER_SUITE: &'static str = "tlspuffin::tls::fn_fields::fn_append_cipher_suite";

pub const FN_CIPHER_SUITE12: &'static str = "tlspuffin::tls::fn_fields::fn_cipher_suite12";

pub const FN_CIPHER_SUITE13: &'static str = "tlspuffin::tls::fn_fields::fn_cipher_suite13";

pub const FN_COMPRESSIONS: &'static str = "tlspuffin::tls::fn_fields::fn_compressions";

pub const FN_COMPRESSION: &'static str = "tlspuffin::tls::fn_fields::fn_compression";

pub const FN_CLIENT_EXTENSIONS_NEW: &'static str = "tlspuffin::tls::fn_extensions::fn_client_extensions_new";

pub const FN_CLIENT_EXTENSIONS_APPEND: &'static str = "tlspuffin::tls::fn_extensions::fn_client_extensions_append";

pub const FN_SERVER_EXTENSIONS_NEW: &'static str = "tlspuffin::tls::fn_extensions::fn_server_extensions_new";

pub const FN_SERVER_EXTENSIONS_APPEND: &'static str = "tlspuffin::tls::fn_extensions::fn_server_extensions_append";

pub const FN_SECP384R1_SUPPORT_GROUP_EXTENSION: &'static str = "tlspuffin::tls::fn_extensions::fn_secp384r1_support_group_extension";

pub const FN_SIGNATURE_ALGORITHM_EXTENSION: &'static str = "tlspuffin::tls::fn_extensions::fn_signature_algorithm_extension";

pub const FN_EC_POINT_FORMATS_EXTENSION: &'static str = "tlspuffin::tls::fn_extensions::fn_ec_point_formats_extension";

pub const FN_SIGNED_CERTIFICATE_TIMESTAMP: &'static str = "tlspuffin::tls::fn_extensions::fn_signed_certificate_timestamp";

pub const FN_RENEGOTIATION_INFO_EXTENSION: &'static str = "tlspuffin::tls::fn_extensions::fn_renegotiation_info_extension";

pub const FN_SIGNATURE_ALGORITHM_CERT_EXTENSION: &'static str = "tlspuffin::tls::fn_extensions::fn_signature_algorithm_cert_extension";

pub const FN_CLIENT_HELLO: &'static str = "tlspuffin::tls::fn_messages::fn_client_hello";

pub const FN_SERVER_HELLO: &'static str = "tlspuffin::tls::fn_messages::fn_server_hello";

pub const FN_CERTIFICATE: &'static str = "tlspuffin::tls::fn_messages::fn_certificate";

pub const FN_SERVER_KEY_EXCHANGE: &'static str = "tlspuffin::tls::fn_messages::fn_server_key_exchange";

pub const FN_SERVER_HELLO_DONE: &'static str = "tlspuffin::tls::fn_messages::fn_server_hello_done";

pub const FN_CLIENT_KEY_EXCHANGE: &'static str = "tlspuffin::tls::fn_messages::fn_client_key_exchange";

pub const FN_CHANGE_CIPHER_SPEC: &'static str = "tlspuffin::tls::fn_messages::fn_change_cipher_spec";

pub const FN_FINISHED: &'static str = "tlspuffin::tls::fn_messages::fn_finished";

pub const FN_APPLICATION_DATA: &'static str = "tlspuffin::tls::fn_messages::fn_application_data";

pub const FN_ALERT_CLOSE_NOTIFY: &'static str = "tlspuffin::tls::fn_messages::fn_alert_close_notify";

pub const FN_OPAQUE_MESSAGE: &'static str = "tlspuffin::tls::fn_messages::fn_opaque_message";

pub const FN_NEW_TRANSCRIPT12: &'static str = "tlspuffin::tls::fn_utils::fn_new_transcript12";

pub const FN_APPEND_TRANSCRIPT: &'static str = "tlspuffin::tls::fn_utils::fn_append_transcript";

pub const FN_DECODE_ECDH_PARAMS: &'static str = "tlspuffin::tls::fn_utils::fn_decode_ecdh_params";

pub const FN_NEW_PUBKEY12: &'static str = "tlspuffin::tls::fn_utils::fn_new_pubkey12";

pub const FN_SIGN_TRANSCRIPT: &'static str = "tlspuffin::tls::fn_utils::fn_sign_transcript";

pub const FN_ENCRYPT12: &'static str = "tlspuffin::tls::fn_utils::fn_encrypt12";

pub const FN_SEQ_2: &'static str = "tlspuffin::tls::fn_constants::fn_seq_2";

pub const FN_SEQ_3: &'static str = "tlspuffin::tls::fn_constants::fn_seq_3";

pub const FN_KEY_SHARE_EXTENSION: &'static str = "tlspuffin::tls::fn_extensions::fn_key_share_extension";

pub const FN_SUPPORTED_VERSIONS13_EXTENSION: &'static str = "tlspuffin::tls::fn_extensions::fn_supported_versions13_extension";

pub const FN_NEW_TRANSCRIPT: &'static str = "tlspuffin::tls::fn_utils::fn_new_transcript";

pub const FN_GET_SERVER_KEY_SHARE: &'static str = "tlspuffin::tls::fn_utils::fn_get_server_key_share";

pub const FN_DECRYPT_HANDSHAKE: &'static str = "tlspuffin::tls::fn_utils::fn_decrypt_handshake";

pub const FN_VERIFY_DATA: &'static str = "tlspuffin::tls::fn_utils::fn_verify_data";

pub const FN_ENCRYPT_HANDSHAKE: &'static str = "tlspuffin::tls::fn_utils::fn_encrypt_handshake";

pub fn fn_empty_bytes_vec() -> (r: DynamicFunctionShape)
    ensures
        declares(r@, FN_EMPTY_BYTES_VEC@, Seq::empty(), BYTES),
{
    let arguments: Vec<u64> = Vec::new();
    declare(FN_EMPTY_BYTES_VEC, arguments, BYTES)
}

pub fn fn_seq_0() -> (r: DynamicFunctionShape)
    ensures
        declares(r@, FN_SEQ_0@, Seq::empty(), U64),
{
    let arguments: Vec<u64> = Vec::new();
    declare(FN_SEQ_0, arguments, U64)
}

pub fn fn_seq_1() -> (r: DynamicFunctionShape)
    ensures
        declares(r@, FN_SEQ_1@, Seq::empty(), U64),
{
    let arguments: Vec<u64> = Vec::new();
    declare(FN_SEQ_1, arguments, U64)
}

pub fn fn_protocol_version12() -> (r: DynamicFunctionShape)
    ensures
        declares(r@, FN_PROTOCOL_VERSION12@, Seq::empty(), PROTOCOL_VERSION),
{
    let arguments: Vec<u64> = Vec::new();
    declare(FN_PROTOCOL_VERSION12, arguments, PROTOCOL_VERSION)
}

pub fn fn_protocol_version13() -> (r: DynamicFunctionShape)
    ensures
        declares(r@, FN_PROTOCOL_VERSION13@, Seq::empty(), PROTOCOL_VERSION),
{
    let arguments: Vec<u64> = Vec::new();
    declare(FN_PROTOCOL_VERSION13, arguments, PROTOCOL_VERSION)
}

pub fn fn_new_random() -> (r: DynamicFunctionShape)
    ensures
        declares(r@, FN_NEW_RANDOM@, Seq::empty(), RANDOM),
{
    let arguments: Vec<u64> = Vec::new();
    declare(FN_NEW_RANDOM, arguments, RANDOM)
}

pub fn fn_new_session_id() -> (r: DynamicFunctionShape)
    ensures
        declares(r@, FN_NEW_SESSION_ID@, Seq::empty(), SESSION_ID),
{
    let arguments: Vec<u64> = Vec::new();
    declare(FN_NEW_SESSION_ID, arguments, SESSION_ID)
}

pub fn fn_empty_session_id() -> (r: DynamicFunctionShape)
    ensures
        declares(r@, FN_EMPTY_SESSION_ID@, Seq::empty(), SESSION_ID),
{
    let arguments: Vec<u64> = Vec::new();
    declare(FN_EMPTY_SESSION_ID, arguments, SESSION_ID)
}

pub fn fn_new_cipher_suites() -> (r: DynamicFunctionShape)
    ensures
        declares(r@, FN_NEW_CIPHER_SUITES@, Seq::empty(), CIPHER_SUITES),
{
    let arguments: Vec<u64> = Vec::new();
    declare(FN_NEW_CIPHER_SUITES, arguments, CIPHER_SUITES)
}

pub fn fn_append_cipher_suite() -> (r: DynamicFunctionShape)
    ensures
        declares(r@, FN_APPEND_CIPHER_SUITE@, seq![CIPHER_SUITES, CIPHER_SUITE], CIPHER_SUITES),
{
    let arguments: Vec<u64> = vec![CIPHER_SUITES, CIPHER_SUITE];
    declare(FN_APPEND_CIPHER_SUITE, arguments, CIPHER_SUITES)
}

pub fn fn_cipher_suite12() -> (r: DynamicFunctionShape)
    ensures
        declares(r@, FN_CIPHER_SUITE12@, Seq::empty(), CIPHER_SUITE),
{
    let arguments: Vec<u64> = Vec::new();
    declare(FN_CIPHER_SUITE12, arguments, CIPHER_SUITE)
}

pub fn fn_cipher_suite13() -> (r: DynamicFunctionShape)
    ensures
        declares(r@, FN_CIPHER_SUITE13@, Seq::empty(), CIPHER_SUITE),
{
    let arguments: Vec<u64> = Vec::new();
    declare(FN_CIPHER_SUITE13, arguments, CIPHER_SUITE)
}

pub fn fn_compressions() -> (r: DynamicFunctionShape)
    ensures
        declares(r@, FN_COMPRESSIONS@, Seq::empty(), COMPRESSIONS),
{
    let arguments: Vec<u64> = Vec::new();
    declare(FN_COMPRESSIONS, arguments, COMPRESSIONS)
}

pub fn fn_compression() -> (r: DynamicFunctionShape)
    ensures
        declares(r@, FN_COMPRESSION@, Seq::empty(), COMPRESSION),
{
    let arguments: Vec<u64> = Vec::new();
    declare(FN_COMPRESSION, arguments, COMPRESSION)
}

pub fn fn_client_extensions_new() -> (r: DynamicFunctionShape)
    ensures
        declares(r@, FN_CLIENT_EXTENSIONS_NEW@, Seq::empty(), CLIENT_EXTENSIONS),
{
    let arguments: Vec<u64> = Vec::new();
    declare(FN_CLIENT_EXTENSIONS_NEW, arguments, CLIENT_EXTENSIONS)
}

pub fn fn_client_extensions_append() -> (r: DynamicFunctionShape)
    ensures
        declares(r@, FN_CLIENT_EXTENSIONS_APPEND@, seq![CLIENT_EXTENSIONS, CLIENT_EXTENSION], CLIENT_EXTENSIONS),
{
    let arguments: Vec<u64> = vec![CLIENT_EXTENSIONS, CLIENT_EXTENSION];
    declare(FN_CLIENT_EXTENSIONS_APPEND, arguments, CLIENT_EXTENSIONS)
}

pub fn fn_server_extensions_new() -> (r: DynamicFunctionShape)
    ensures
        declares(r@, FN_SERVER_EXTENSIONS_NEW@, Seq::empty(), SERVER_EXTENSIONS),
{
    let arguments: Vec<u64> = Vec::new();
    declare(FN_SERVER_EXTENSIONS_NEW, arguments, SERVER_EXTENSIONS)
}

pub fn fn_server_extensions_append() -> (r: DynamicFunctionShape)
    ensures
        declares(r@, FN_SERVER_EXTENSIONS_APPEND@, seq![SERVER_EXTENSIONS, SERVER_EXTENSION], SERVER_EXTENSIONS),
{
    let arguments: Vec<u64> = vec![SERVER_EXTENSIONS, SERVER_EXTENSION];
    declare(FN_SERVER_EXTENSIONS_APPEND, arguments, SERVER_EXTENSIONS)
}

pub fn fn_secp384r1_support_group_extension() -> (r: DynamicFunctionShape)
    ensures
        declares(r@, FN_SECP384R1_SUPPORT_GROUP_EXTENSION@, Seq::empty(), CLIENT_EXTENSION),
{
    let arguments: Vec<u64> = Vec::new();
    declare(FN_SECP384R1_SUPPORT_GROUP_EXTENSION, arguments, CLIENT_EXTENSION)
}

pub fn fn_signature_algorithm_extension() -> (r: DynamicFunctionShape)
    ensures
        declares(r@, FN_SIGNATURE_ALGORITHM_EXTENSION@, Seq::empty(), CLIENT_EXTENSION),
{
    let arguments: Vec<u64> = Vec::new();
    declare(FN_SIGNATURE_ALGORITHM_EXTENSION, arguments, CLIENT_EXTENSION)
}

pub fn fn_ec_point_formats_extension() -> (r: DynamicFunctionShape)
    ensures
        declares(r@, FN_EC_POINT_FORMATS_EXTENSION@, Seq::empty(), CLIENT_EXTENSION),
{
    let arguments: Vec<u64> = Vec::new();
    declare(FN_EC_POINT_FORMATS_EXTENSION, arguments, CLIENT_EXTENSION)
}

pub fn fn_signed_certificate_timestamp() -> (r: DynamicFunctionShape)
    ensures
        declares(r@, FN_SIGNED_CERTIFICATE_TIMESTAMP@, Seq::empty(), CLIENT_EXTENSION),
{
    let arguments: Vec<u64> = Vec::new();
    declare(FN_SIGNED_CERTIFICATE_TIMESTAMP, arguments, CLIENT_EXTENSION)
}

pub fn fn_renegotiation_info_extension() -> (r: DynamicFunctionShape)
    ensures
        declares(r@, FN_RENEGOTIATION_INFO_EXTENSION@, seq![BYTES], CLIENT_EXTENSION),
{
    let arguments: Vec<u64> = vec![BYTES];
    declare(FN_RENEGOTIATION_INFO_EXTENSION, arguments, CLIENT_EXTENSION)
}

pub fn fn_signature_algorithm_cert_extension() -> (r: DynamicFunctionShape)
    ensures
        declares(r@, FN_SIGNATURE_ALGORITHM_CERT_EXTENSION@, Seq::empty(), CLIENT_EXTENSION),
{
    let arguments: Vec<u64> = Vec::new();
    declare(FN_SIGNATURE_ALGORITHM_CERT_EXTENSION, arguments, CLIENT_EXTENSION)
}

pub fn fn_client_hello() -> (r: DynamicFunctionShape)
    ensures
        declares(r@, FN_CLIENT_HELLO@, seq![PROTOCOL_VERSION, RANDOM, SESSION_ID, CIPHER_SUITES, COMPRESSIONS, CLIENT_EXTENSIONS], MESSAGE),
{
    let arguments: Vec<u64> = vec![PROTOCOL_VERSION, RANDOM, SESSION_ID, CIPHER_SUITES, COMPRESSIONS, CLIENT_EXTENSIONS];
    declare(FN_CLIENT_HELLO, arguments, MESSAGE)
}

pub fn fn_server_hello() -> (r: DynamicFunctionShape)
    ensures
        declares(r@, FN_SERVER_HELLO@, seq![PROTOCOL_VERSION, RANDOM, SESSION_ID, CIPHER_SUITE, COMPRESSION, SERVER_EXTENSIONS], MESSAGE),
{
    let arguments: Vec<u64> = vec![PROTOCOL_VERSION, RANDOM, SESSION_ID, CIPHER_SUITE, COMPRESSION, SERVER_EXTENSIONS];
    declare(FN_SERVER_HELLO, arguments, MESSAGE)
}

pub fn fn_certificate() -> (r: DynamicFunctionShape)
    ensures
        declares(r@, FN_CERTIFICATE@, seq![CERTIFICATE_PAYLOAD], MESSAGE),
{
    let arguments: Vec<u64> = vec![CERTIFICATE_PAYLOAD];
    declare(FN_CERTIFICATE, arguments, MESSAGE)
}

pub fn fn_server_key_exchange() -> (r: DynamicFunctionShape)
    ensures
        declares(r@, FN_SERVER_KEY_EXCHANGE@, seq![BYTES], MESSAGE),
{
    let arguments: Vec<u64> = vec![BYTES];
    declare(FN_SERVER_KEY_EXCHANGE, arguments, MESSAGE)
}

pub fn fn_server_hello_done() -> (r: DynamicFunctionShape)
    ensures
        declares(r@, FN_SERVER_HELLO_DONE@, Seq::empty(), MESSAGE),
{
    let arguments: Vec<u64> = Vec::new();
    declare(FN_SERVER_HELLO_DONE, arguments, MESSAGE)
}

pub fn fn_client_key_exchange() -> (r: DynamicFunctionShape)
    ensures
        declares(r@, FN_CLIENT_KEY_EXCHANGE@, seq![BYTES], MESSAGE),
{
    let arguments: Vec<u64> = vec![BYTES];
    declare(FN_CLIENT_KEY_EXCHANGE, arguments, MESSAGE)
}

pub fn fn_change_cipher_spec() -> (r: DynamicFunctionShape)
    ensures
        declares(r@, FN_CHANGE_CIPHER_SPEC@, Seq::empty(), MESSAGE),
{
    let arguments: Vec<u64> = Vec::new();
    declare(FN_CHANGE_CIPHER_SPEC, arguments, MESSAGE)
}

pub fn fn_finished() -> (r: DynamicFunctionShape)
    ensures
        declares(r@, FN_FINISHED@, seq![BYTES], MESSAGE),
{
    let arguments: Vec<u64> = vec![BYTES];
    declare(FN_FINISHED, arguments, MESSAGE)
}

pub fn fn_application_data() -> (r: DynamicFunctionShape)
    ensures
        declares(r@, FN_APPLICATION_DATA@, seq![BYTES], MESSAGE),
{
    let arguments: Vec<u64> = vec![BYTES];
    declare(FN_APPLICATION_DATA, arguments, MESSAGE)
}

pub fn fn_alert_close_notify() -> (r: DynamicFunctionShape)
    ensures
        declares(r@, FN_ALERT_CLOSE_NOTIFY@, Seq::empty(), MESSAGE),
{
    let arguments: Vec<u64> = Vec::new();
    declare(FN_ALERT_CLOSE_NOTIFY, arguments, MESSAGE)
}

pub fn fn_opaque_message() -> (r: DynamicFunctionShape)
    ensures
        declares(r@, FN_OPAQUE_MESSAGE@, seq![OPAQUE_MESSAGE], OPAQUE_MESSAGE),
{
    let arguments: Vec<u64> = vec![OPAQUE_MESSAGE];
    declare(FN_OPAQUE_MESSAGE, arguments, OPAQUE_MESSAGE)
}

pub fn fn_new_transcript12() -> (r: DynamicFunctionShape)
    ensures
        declares(r@, FN_NEW_TRANSCRIPT12@, Seq::empty(), TRANSCRIPT),
{
    let arguments: Vec<u64> = Vec::new();
    declare(FN_NEW_TRANSCRIPT12, arguments, TRANSCRIPT)
}

pub fn fn_append_transcript() -> (r: DynamicFunctionShape)
    ensures
        declares(r@, FN_APPEND_TRANSCRIPT@, seq![TRANSCRIPT, MESSAGE], TRANSCRIPT),
{
    let arguments: Vec<u64> = vec![TRANSCRIPT, MESSAGE];
    declare(FN_APPEND_TRANSCRIPT, arguments, TRANSCRIPT)
}

pub fn fn_decode_ecdh_params() -> (r: DynamicFunctionShape)
    ensures
        declares(r@, FN_DECODE_ECDH_PARAMS@, seq![BYTES], ECDH_PARAMS),
{
    let arguments: Vec<u64> = vec![BYTES];
    declare(FN_DECODE_ECDH_PARAMS, arguments, ECDH_PARAMS)
}

pub fn fn_new_pubkey12() -> (r: DynamicFunctionShape)
    ensures
        declares(r@, FN_NEW_PUBKEY12@, seq![ECDH_PARAMS], BYTES),
{
    let arguments: Vec<u64> = vec![ECDH_PARAMS];
    declare(FN_NEW_PUBKEY12, arguments, BYTES)
}

pub fn fn_sign_transcript() -> (r: DynamicFunctionShape)
    ensures
        declares(r@, FN_SIGN_TRANSCRIPT@, seq![RANDOM, ECDH_PARAMS, TRANSCRIPT], BYTES),
{
    let arguments: Vec<u64> = vec![RANDOM, ECDH_PARAMS, TRANSCRIPT];
    declare(FN_SIGN_TRANSCRIPT, arguments, BYTES)
}

pub fn fn_encrypt12() -> (r: DynamicFunctionShape)
    ensures
        declares(r@, FN_ENCRYPT12@, seq![MESSAGE, RANDOM, ECDH_PARAMS, U64], OPAQUE_MESSAGE),
{
    let arguments: Vec<u64> = vec![MESSAGE, RANDOM, ECDH_PARAMS, U64];
    declare(FN_ENCRYPT12, arguments, OPAQUE_MESSAGE)
}

pub fn fn_seq_2() -> (r: DynamicFunctionShape)
    ensures
        declares(r@, FN_SEQ_2@, Seq::empty(), U64),
{
    let arguments: Vec<u64> = Vec::new();
    declare(FN_SEQ_2, arguments, U64)
}

pub fn fn_seq_3() -> (r: DynamicFunctionShape)
    ensures
        declares(r@, FN_SEQ_3@, Seq::empty(), U64),
{
    let arguments: Vec<u64> = Vec::new();
    declare(FN_SEQ_3, arguments, U64)
}

pub fn fn_key_share_extension() -> (r: DynamicFunctionShape)
    ensures
        declares(r@, FN_KEY_SHARE_EXTENSION@, Seq::empty(), CLIENT_EXTENSION),
{
    let arguments: Vec<u64> = Vec::new();
    declare(FN_KEY_SHARE_EXTENSION, arguments, CLIENT_EXTENSION)
}

pub fn fn_supported_versions13_extension() -> (r: DynamicFunctionShape)
    ensures
        declares(r@, FN_SUPPORTED_VERSIONS13_EXTENSION@, Seq::empty(), CLIENT_EXTENSION),
{
    let arguments: Vec<u64> = Vec::new();
    declare(FN_SUPPORTED_VERSIONS13_EXTENSION, arguments, CLIENT_EXTENSION)
}

pub fn fn_new_transcript() -> (r: DynamicFunctionShape)
    ensures
        declares(r@, FN_NEW_TRANSCRIPT@, Seq::empty(), TRANSCRIPT),
{
    let arguments: Vec<u64> = Vec::new();
    declare(FN_NEW_TRANSCRIPT, arguments, TRANSCRIPT)
}

pub fn fn_get_server_key_share() -> (r: DynamicFunctionShape)
    ensures
        declares(r@, FN_GET_SERVER_KEY_SHARE@, seq![SERVER_EXTENSIONS], OPTIONAL_BYTES),
{
    let arguments: Vec<u64> = vec![SERVER_EXTENSIONS];
    declare(FN_GET_SERVER_KEY_SHARE, arguments, OPTIONAL_BYTES)
}

pub fn fn_decrypt_handshake() -> (r: DynamicFunctionShape)
    ensures
        declares(r@, FN_DECRYPT_HANDSHAKE@, seq![MESSAGE, TRANSCRIPT, OPTIONAL_BYTES, U64], MESSAGE),
{
    let arguments: Vec<u64> = vec![MESSAGE, TRANSCRIPT, OPTIONAL_BYTES, U64];
    declare(FN_DECRYPT_HANDSHAKE, arguments, MESSAGE)
}

pub fn fn_verify_data() -> (r: DynamicFunctionShape)
    ensures
        declares(r@, FN_VERIFY_DATA@, seq![TRANSCRIPT, TRANSCRIPT, OPTIONAL_BYTES], BYTES),
{
    let arguments: Vec<u64> = vec![TRANSCRIPT, TRANSCRIPT, OPTIONAL_BYTES];
    declare(FN_VERIFY_DATA, arguments, BYTES)
}

pub fn fn_encrypt_handshake() -> (r: DynamicFunctionShape)
    ensures
        declares(r@, FN_ENCRYPT_HANDSHAKE@, seq![MESSAGE, TRANSCRIPT, OPTIONAL_BYTES, U64], OPAQUE_MESSAGE),
{
    let arguments: Vec<u64> = vec![MESSAGE, TRANSCRIPT, OPTIONAL_BYTES, U64];
    declare(FN_ENCRYPT_HANDSHAKE, arguments, OPAQUE_MESSAGE)
}

/// What the library declares of one function: its name and the ids of the
/// types of its arguments and of its result.
pub struct Declaration {
    pub name: Seq<char>,
    pub arguments: Seq<u64>,
    pub result: u64,
}

impl Declaration {
    /// Whether `shape` is what is declared.
    pub open spec fn holds_of(self, shape: ShapeModel) -> bool {
        declares(shape, self.name, self.arguments, self.result)
    }
}

/// All functions of the library, in a fixed order.
pub open spec fn catalogue() -> Seq<Declaration> {
    seq![
        Declaration { name: FN_EMPTY_BYTES_VEC@, arguments: Seq::empty(), result: BYTES },
        Declaration { name: FN_SEQ_0@, arguments: Seq::empty(), result: U64 },
        Declaration { name: FN_SEQ_1@, arguments: Seq::empty(), result: U64 },
        Declaration { name: FN_PROTOCOL_VERSION12@, arguments: Seq::empty(), result: PROTOCOL_VERSION },
        Declaration { name: FN_PROTOCOL_VERSION13@, arguments: Seq::empty(), result: PROTOCOL_VERSION },
        Declaration { name: FN_NEW_RANDOM@, arguments: Seq::empty(), result: RANDOM },
        Declaration { name: FN_NEW_SESSION_ID@, arguments: Seq::empty(), result: SESSION_ID },
        Declaration { name: FN_EMPTY_SESSION_ID@, arguments: Seq::empty(), result: SESSION_ID },
        Declaration { name: FN_NEW_CIPHER_SUITES@, arguments: Seq::empty(), result: CIPHER_SUITES },
        Declaration { name: FN_APPEND_CIPHER_SUITE@, arguments: seq![CIPHER_SUITES, CIPHER_SUITE], result: CIPHER_SUITES },
        Declaration { name: FN_CIPHER_SUITE12@, arguments: Seq::empty(), result: CIPHER_SUITE },
        Declaration { name: FN_CIPHER_SUITE13@, arguments: Seq::empty(), result: CIPHER_SUITE },
        Declaration { name: FN_COMPRESSIONS@, arguments: Seq::empty(), result: COMPRESSIONS },
        Declaration { name: FN_COMPRESSION@, arguments: Seq::empty(), result: COMPRESSION },
        Declaration { name: FN_CLIENT_EXTENSIONS_NEW@, arguments: Seq::empty(), result: CLIENT_EXTENSIONS },
        Declaration { name: FN_CLIENT_EXTENSIONS_APPEND@, arguments: seq![CLIENT_EXTENSIONS, CLIENT_EXTENSION], result: CLIENT_EXTENSIONS },
        Declaration { name: FN_SERVER_EXTENSIONS_NEW@, arguments: Seq::empty(), result: SERVER_EXTENSIONS },
        Declaration { name: FN_SERVER_EXTENSIONS_APPEND@, arguments: seq![SERVER_EXTENSIONS, SERVER_EXTENSION], result: SERVER_EXTENSIONS },
        Declaration { name: FN_SECP384R1_SUPPORT_GROUP_EXTENSION@, arguments: Seq::empty(), result: CLIENT_EXTENSION },
        Declaration { name: FN_SIGNATURE_ALGORITHM_EXTENSION@, arguments: Seq::empty(), result: CLIENT_EXTENSION },
        Declaration { name: FN_EC_POINT_FORMATS_EXTENSION@, arguments: Seq::empty(), result: CLIENT_EXTENSION },
        Declaration { name: FN_SIGNED_CERTIFICATE_TIMESTAMP@, arguments: Seq::empty(), result: CLIENT_EXTENSION },
        Declaration { name: FN_RENEGOTIATION_INFO_EXTENSION@, arguments: seq![BYTES], result: CLIENT_EXTENSION },
        Declaration { name: FN_SIGNATURE_ALGORITHM_CERT_EXTENSION@, arguments: Seq::empty(), result: CLIENT_EXTENSION },
        Declaration { name: FN_CLIENT_HELLO@, arguments: seq![PROTOCOL_VERSION, RANDOM, SESSION_ID, CIPHER_SUITES, COMPRESSIONS, CLIENT_EXTENSIONS], result: MESSAGE },
        Declaration { name: FN_SERVER_HELLO@, arguments: seq![PROTOCOL_VERSION, RANDOM, SESSION_ID, CIPHER_SUITE, COMPRESSION, SERVER_EXTENSIONS], result: MESSAGE },
        Declaration { name: FN_CERTIFICATE@, arguments: seq![CERTIFICATE_PAYLOAD], result: MESSAGE },
        Declaration { name: FN_SERVER_KEY_EXCHANGE@, arguments: seq![BYTES], result: MESSAGE },
        Declaration { name: FN_SERVER_HELLO_DONE@, arguments: Seq::empty(), result: MESSAGE },
        Declaration { name: FN_CLIENT_KEY_EXCHANGE@, arguments: seq![BYTES], result: MESSAGE },
        Declaration { name: FN_CHANGE_CIPHER_SPEC@, arguments: Seq::empty(), result: MESSAGE },
        Declaration { name: FN_FINISHED@, arguments: seq![BYTES], result: MESSAGE },
        Declaration { name: FN_APPLICATION_DATA@, arguments: seq![BYTES], result: MESSAGE },
        Declaration { name: FN_ALERT_CLOSE_NOTIFY@, arguments: Seq::empty(), result: MESSAGE },
        Declaration { name: FN_OPAQUE_MESSAGE@, arguments: seq![OPAQUE_MESSAGE], result: OPAQUE_MESSAGE },
        Declaration { name: FN_NEW_TRANSCRIPT12@, arguments: Seq::empty(), result: TRANSCRIPT },
        Declaration { name: FN_APPEND_TRANSCRIPT@, arguments: seq![TRANSCRIPT, MESSAGE], result: TRANSCRIPT },
        Declaration { name: FN_DECODE_ECDH_PARAMS@, arguments: seq![BYTES], result: ECDH_PARAMS },
        Declaration { name: FN_NEW_PUBKEY12@, arguments: seq![ECDH_PARAMS], result: BYTES },
        Declaration { name: FN_SIGN_TRANSCRIPT@, arguments: seq![RANDOM, ECDH_PARAMS, TRANSCRIPT], result: BYTES },
        Declaration { name: FN_ENCRYPT12@, arguments: seq![MESSAGE, RANDOM, ECDH_PARAMS, U64], result: OPAQUE_MESSAGE },
        Declaration { name: FN_SEQ_2@, arguments: Seq::empty(), result: U64 },
        Declaration { name: FN_SEQ_3@, arguments: Seq::empty(), result: U64 },
        Declaration { name: FN_KEY_SHARE_EXTENSION@, arguments: Seq::empty(), result: CLIENT_EXTENSION },
        Declaration { name: FN_SUPPORTED_VERSIONS13_EXTENSION@, arguments: Seq::empty(), result: CLIENT_EXTENSION },
        Declaration { name: FN_NEW_TRANSCRIPT@, arguments: Seq::empty(), result: TRANSCRIPT },
        Declaration { name: FN_GET_SERVER_KEY_SHARE@, arguments: seq![SERVER_EXTENSIONS], result: OPTIONAL_BYTES },
        Declaration { name: FN_DECRYPT_HANDSHAKE@, arguments: seq![MESSAGE, TRANSCRIPT, OPTIONAL_BYTES, U64], result: MESSAGE },
        Declaration { name: FN_VERIFY_DATA@, arguments: seq![TRANSCRIPT, TRANSCRIPT, OPTIONAL_BYTES], result: BYTES },
        Declaration { name: FN_ENCRYPT_HANDSHAKE@, arguments: seq![MESSAGE, TRANSCRIPT, OPTIONAL_BYTES, U64], result: OPAQUE_MESSAGE },
    ]
}

/// The shapes of all functions of the library, in the order of [`catalogue`].
pub fn all_shapes() -> (r: Vec<DynamicFunctionShape>)
    ensures
        r.len() == catalogue().len(),
        forall|i: int| 0 <= i < r.len() ==> catalogue()[i].holds_of(#[trigger] r[i]@),
{
    let mut shapes: Vec<DynamicFunctionShape> = Vec::new();
    shapes.push(fn_empty_bytes_vec());
    shapes.push(fn_seq_0());
    shapes.push(fn_seq_1());
    shapes.push(fn_protocol_version12());
    shapes.push(fn_protocol_version13());
    shapes.push(fn_new_random());
    shapes.push(fn_new_session_id());
    shapes.push(fn_empty_session_id());
    shapes.push(fn_new_cipher_suites());
    shapes.push(fn_append_cipher_suite());
    shapes.push(fn_cipher_suite12());
    shapes.push(fn_cipher_suite13());
    shapes.push(fn_compressions());
    shapes.push(fn_compression());
    shapes.push(fn_client_extensions_new());
    shapes.push(fn_client_extensions_append());
    shapes.push(fn_server_extensions_new());
    shapes.push(fn_server_extensions_append());
    shapes.push(fn_secp384r1_support_group_extension());
    shapes.push(fn_signature_algorithm_extension());
    shapes.push(fn_ec_point_formats_extension());
    shapes.push(fn_signed_certificate_timestamp());
    shapes.push(fn_renegotiation_info_extension());
    shapes.push(fn_signature_algorithm_cert_extension());
    shapes.push(fn_client_hello());
    shapes.push(fn_server_hello());
    shapes.push(fn_certificate());
    shapes.push(fn_server_key_exchange());
    shapes.push(fn_server_hello_done());
    shapes.push(fn_client_key_exchange());
    shapes.push(fn_change_cipher_spec());
    shapes.push(fn_finished());
    shapes.push(fn_application_data());
    shapes.push(fn_alert_close_notify());
    shapes.push(fn_opaque_message());
    shapes.push(fn_new_transcript12());
    shapes.push(fn_append_transcript());
    shapes.push(fn_decode_ecdh_params());
    shapes.push(fn_new_pubkey12());
    shapes.push(fn_sign_transcript());
    shapes.push(fn_encrypt12());
    shapes.push(fn_seq_2());
    shapes.push(fn_seq_3());
    shapes.push(fn_key_share_extension());
    shapes.push(fn_supported_versions13_extension());
    shapes.push(fn_new_transcript());
    shapes.push(fn_get_server_key_share());
    shapes.push(fn_decrypt_handshake());
    shapes.push(fn_verify_data());
    shapes.push(fn_encrypt_handshake());
    shapes
}

/// The models of a sequence of shapes.
pub open spec fn shape_models(shapes: Seq<DynamicFunctionShape>) -> Seq<ShapeModel> {
    Seq::new(shapes.len(), |i: int| shapes[i]@)
}

/// Whether `signature` holds the functions described by `shapes` and no
/// others: every symbol has one of the shapes, and every name among the
/// shapes has a symbol.
pub open spec fn holds_exactly(signature: Seq<FunctionModel>, shapes: Seq<ShapeModel>) -> bool {
    &&& forall|k: int|
        0 <= k < signature.len() ==> exists|i: int|
            0 <= i < shapes.len() && (#[trigger] signature[k]).shape == #[trigger] shapes[i]
    &&& forall|i: int|
        0 <= i < shapes.len() ==> position_of(signature, (#[trigger] shapes[i]).name) is Some
}

/// A signature in which the functions described by `shapes` are
/// registered in their order; of two shapes of one name the first counts.
pub fn signature_of(shapes: &Vec<DynamicFunctionShape>) -> (r: Signature)
    ensures
        holds_exactly(r@.functions, shape_models(shapes@)),
{
    let mut signature = Signature::new();
    let ghost all = shape_models(shapes@);
    let mut i: usize = 0;
    while i < shapes.len()
        invariant
            i <= shapes.len(),
            all == shape_models(shapes@),
            forall|k: int|
                0 <= k < signature@.functions.len() ==> exists|j: int|
                    0 <= j < all.len() && (#[trigger] signature@.functions[k]).shape
                        == #[trigger] all[j],
            forall|j: int|
                0 <= j < i ==> position_of(signature@.functions, (#[trigger] all[j]).name) is Some,
        decreases shapes.len() - i,
    {
        let ghost before = signature@.functions;
        let symbol = signature.new_function(&shapes[i]);
        proof {
            let after = signature@.functions;
            let shape = all[i as int];
            if position_of(before, shape.name) is None {
                assert forall|j: int| 0 <= j < i implies position_of(
                    after,
                    (#[trigger] all[j]).name,
                ) is Some by {
                    lemma_interning_is_stable(before, symbol@, all[j].name);
                }
            }
        }
        i = i + 1;
    }
    signature
}

/// A signature in which all functions of the library are registered, in
/// the order of [`catalogue`]: every symbol is one of the catalogue, and
/// every name of the catalogue has a symbol.
pub fn signature() -> (r: Signature)
    ensures
        forall|k: int|
            0 <= k < r@.functions.len() ==> exists|i: int|
                0 <= i < catalogue().len() && (#[trigger] catalogue()[i]).holds_of(
                    (#[trigger] r@.functions[k]).shape,
                ),
        forall|i: int|
            0 <= i < catalogue().len() ==> position_of(
                r@.functions,
                (#[trigger] catalogue()[i]).name,
            ) is Some,
{
    let shapes = all_shapes();
    let signature = signature_of(&shapes);
    proof {
        let all = shape_models(shapes@);
        assert forall|i: int| 0 <= i < catalogue().len() implies position_of(
            signature@.functions,
            (#[trigger] catalogue()[i]).name,
        ) is Some by {
            assert(all[i] == shapes[i]@);
        }
    }
    signature
}

pub const NOT_COMPUTED: &'static str = "the function is not computed by the base functions";

pub const TLS12: u16 = 0x0303;

/// What [`BaseFunctions`] computes for the function called `name`.
pub open spec fn base_result(function: FunctionModel, arguments: Seq<ValueModel>) -> Result<
    ValueModel,
    FnError,
> {
    let name = function.shape.name;
    let shape = function.shape.return_type;
    if name == FN_EMPTY_BYTES_VEC@ && arguments.len() == 0 {
        Ok(ValueModel { shape, data: Seq::empty() })
    } else if name == FN_SEQ_0@ && arguments.len() == 0 {
        Ok(ValueModel { shape, data: seq![0u8, 0u8, 0u8, 0u8, 0u8, 0u8, 0u8, 0u8] })
    } else if name == FN_SEQ_1@ && arguments.len() == 0 {
        Ok(ValueModel { shape, data: seq![0u8, 0u8, 0u8, 0u8, 0u8, 0u8, 0u8, 1u8] })
    } else if name == FN_SEQ_2@ && arguments.len() == 0 {
        Ok(ValueModel { shape, data: seq![0u8, 0u8, 0u8, 0u8, 0u8, 0u8, 0u8, 2u8] })
    } else if name == FN_SEQ_3@ && arguments.len() == 0 {
        Ok(ValueModel { shape, data: seq![0u8, 0u8, 0u8, 0u8, 0u8, 0u8, 0u8, 3u8] })
    } else if name == FN_CHANGE_CIPHER_SPEC@ && arguments.len() == 0 {
        Ok(
            ValueModel {
                shape,
                data: wire(
                    RecordModel { typ: CHANGE_CIPHER_SPEC, version: TLS12, payload: seq![1u8] },
                ),
            },
        )
    } else if name == FN_ALERT_CLOSE_NOTIFY@ && arguments.len() == 0 {
        Ok(
            ValueModel {
                shape,
                data: wire(RecordModel { typ: ALERT, version: TLS12, payload: seq![1u8, 0u8] }),
            },
        )
    } else if name == FN_APPLICATION_DATA@ && arguments.len() == 1 {
        Ok(
            ValueModel {
                shape,
                data: wire(
                    RecordModel {
                        typ: APPLICATION_DATA,
                        version: TLS12,
                        payload: arguments[0].data,
                    },
                ),
            },
        )
    } else if name == FN_OPAQUE_MESSAGE@ && arguments.len() == 1 {
        Ok(ValueModel { shape, data: arguments[0].data })
    } else {
        Err(FnError::Unknown(NOT_COMPUTED))
    }
}

/// The functions of the library that need nothing but bytes: the constants
/// of the record layer and the messages that are made of a payload alone.
/// Of a message they take note of nothing but the message itself.
#[derive(Clone, Copy, Debug)]
pub struct BaseFunctions {}

impl BaseFunctions {
    pub fn new() -> (r: BaseFunctions) {
        BaseFunctions {  }
    }
}

fn is_called(function: &Function, name: &str) -> (r: bool)
    ensures
        r == (function@.shape.name == name@),
{
    function.shape.name == String::from_str(name)
}

fn record_value(shape: &TypeShape, typ: u8, payload: Vec<u8>) -> (r: Value)
    ensures
        r@ == (ValueModel {
            shape: *shape,
            data: wire(RecordModel { typ, version: TLS12, payload: payload@ }),
        }),
{
    Value { shape: shape.clone(), data: OpaqueMessage::new(typ, TLS12, payload).encode() }
}

impl FunctionLibrary for BaseFunctions {
    open spec fn result(&self, function: FunctionModel, arguments: Seq<ValueModel>) -> Result<
        ValueModel,
        FnError,
    > {
        base_result(function, arguments)
    }

    open spec fn claims(&self, message: MessageModel) -> Seq<ValueModel> {
        Seq::empty()
    }

    proof fn result_is_typed(&self, function: FunctionModel, arguments: Seq<ValueModel>) {
    }

    fn call(&self, function: &Function, arguments: &Vec<Value>) -> (r: Result<Value, FnError>) {
        let shape = &function.shape.return_type;
        if is_called(function, FN_EMPTY_BYTES_VEC) && arguments.len() == 0 {
            Ok(Value { shape: shape.clone(), data: Vec::new() })
        } else if is_called(function, FN_SEQ_0) && arguments.len() == 0 {
            let data: Vec<u8> = vec![0u8, 0u8, 0u8, 0u8, 0u8, 0u8, 0u8, 0u8];
            Ok(Value { shape: shape.clone(), data })
        } else if is_called(function, FN_SEQ_1) && arguments.len() == 0 {
            let data: Vec<u8> = vec![0u8, 0u8, 0u8, 0u8, 0u8, 0u8, 0u8, 1u8];
            Ok(Value { shape: shape.clone(), data })
        } else if is_called(function, FN_SEQ_2) && arguments.len() == 0 {
            let data: Vec<u8> = vec![0u8, 0u8, 0u8, 0u8, 0u8, 0u8, 0u8, 2u8];
            Ok(Value { shape: shape.clone(), data })
        } else if is_called(function, FN_SEQ_3) && arguments.len() == 0 {
            let data: Vec<u8> = vec![0u8, 0u8, 0u8, 0u8, 0u8, 0u8, 0u8, 3u8];
            Ok(Value { shape: shape.clone(), data })
        } else if is_called(function, FN_CHANGE_CIPHER_SPEC) && arguments.len() == 0 {
            let payload: Vec<u8> = vec![1u8];
            assert(payload@ =~= seq![1u8]);
            Ok(record_value(shape, CHANGE_CIPHER_SPEC, payload))
        } else if is_called(function, FN_ALERT_CLOSE_NOTIFY) && arguments.len() == 0 {
            let payload: Vec<u8> = vec![1u8, 0u8];
            Ok(record_value(shape, ALERT, payload))
        } else if is_called(function, FN_APPLICATION_DATA) && arguments.len() == 1 {
            Ok(record_value(shape, APPLICATION_DATA, crate::io::clone_bytes(&arguments[0].data)))
        } else if is_called(function, FN_OPAQUE_MESSAGE) && arguments.len() == 1 {
            Ok(Value { shape: shape.clone(), data: crate::io::clone_bytes(&arguments[0].data) })
        } else {
            Err(FnError::Unknown(NOT_COMPUTED))
        }
    }

    fn extract_knowledge(&self, message: &Message) -> (r: Vec<Value>) {
        let claims: Vec<Value> = Vec::new();
        claims
    }
}

} // verus!
