//! The data definitions and rules that a SpacetimeDB host, its modules and its command line clients
//! share: versions of the interface between host and module, the types and tables of a module
//! definition, hexadecimal text, files of certificates and keys, and what to tell the user when a
//! request fails.

pub mod bsatn;
pub mod cert_error;
pub mod cli_args;
pub mod hex_pad;
pub mod limited_read;
pub mod module_def;
pub mod reducer;
pub mod request_error;
pub mod root_cert;
pub mod text;
pub mod type_def;
pub mod types;
pub mod typespace;
pub mod version;
pub mod zeroizing;

pub use cert_error::{ClientCertError, ClientKeyError, TrustCertError};
pub use cli_args::{
    client_cert, client_key, client_no_trust_system_root_store, client_trust_cert,
    client_trust_system_root_store, no_trust_system_root_store, trust_server_cert,
    trust_system_root_store,
};
pub use hex_pad::{from_hex_pad, from_hex_pad_array};
pub use module_def::{
    resolved_type_via_v9, MiscModuleExport, ModuleDefBuilder, RawModuleDef, RawModuleDefV8,
    TableDesc, TypeAlias,
};
pub use reducer::{ProductValue, ReducerDef};
pub use request_error::map_request_error;
pub use root_cert::{load_root_cert, MAX_CERT_BUNDLE_SIZE, MAX_KEY_FILE_SIZE};
pub use text::{new_string, set_string};
pub use types::{AlgebraicType, AlgebraicTypeRef, ProductType, ProductTypeElement, SumType};
pub use typespace::{Typespace, WithTypespace};
pub use version::{VersionTuple, MODULE_ABI_MAJOR_VERSION};
