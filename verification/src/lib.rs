pub mod abi;
pub mod aggregate;
pub mod aggregate_laws;
pub mod answer_laws;
pub mod attestation;
pub mod bytes;
pub mod call_laws;
pub mod certificate;
pub mod certificate_laws;
pub mod extern_p2p;
pub mod extern_proto;
pub mod externevm;
pub mod fetching;
pub mod fetching_laws;
pub mod http;
pub mod http_laws;
pub mod identity;
pub mod identity_laws;
pub mod json;
pub mod json_laws;
pub mod peer_laws;
pub mod primitives;
pub mod protocol_store;
pub mod record_laws;
pub mod records;
pub mod request_laws;
pub mod response;
pub mod response_laws;
pub mod rlp;
pub mod store_laws;
pub mod store_step_laws;
pub mod store_view;
pub mod table;
pub mod text;
pub mod text_laws;
pub mod url;
pub mod url_laws;
