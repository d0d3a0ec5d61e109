//! What a client is configured with for a handshake.

use vstd::prelude::*;
use crate::extensions::extension_data::max_fragment_length::MaxFragmentLength;
use crate::extensions::extension_data::pre_shared_key::PskIdentity;
use crate::extensions::extension_data::signature_algorithms::SignatureScheme;
use crate::extensions::extension_data::supported_groups::NamedGroup;

verus! {

/// The configuration of a client.
#[derive(Debug, Clone, Copy)]
pub struct TlsConfig<'a> {
    /// The host to ask for, where the server should know.
    pub server_name: Option<&'a str>,
    /// The identities of the pre-shared key to offer; none where no
    /// pre-shared key is in use.
    pub psk_identities: &'a [PskIdentity<'a>],
    /// The limit on record plaintext to ask for, where one is wanted.
    pub max_fragment_length: Option<MaxFragmentLength>,
    /// The signature schemes to accept, most preferred first.
    pub signature_schemes: &'a [SignatureScheme],
    /// The groups to accept for key exchange, most preferred first.
    pub named_groups: &'a [NamedGroup],
}

impl<'a> TlsConfig<'a> {
    /// A configuration that accepts the given signature schemes and groups,
    /// names no server, and offers no pre-shared key.
    pub fn new(signature_schemes: &'a [SignatureScheme], named_groups: &'a [NamedGroup]) -> (r:
        Self)
        ensures
            r.server_name is None,
            r.psk_identities@.len() == 0,
            r.max_fragment_length is None,
            r.signature_schemes == signature_schemes,
            r.named_groups == named_groups,
    {
        let none: &'a [PskIdentity<'a>] = &[];
        TlsConfig {
            server_name: None,
            psk_identities: none,
            max_fragment_length: None,
            signature_schemes,
            named_groups,
        }
    }

    /// The same configuration, asking for the host `server_name`.
    pub fn with_server_name(self, server_name: &'a str) -> (r: Self)
        ensures
            r == (TlsConfig { server_name: Some(server_name), ..self }),
    {
        TlsConfig { server_name: Some(server_name), ..self }
    }

    /// The same configuration, offering the pre-shared key with the
    /// identities `identities`.
    pub fn with_psk(self, identities: &'a [PskIdentity<'a>]) -> (r: Self)
        ensures
            r == (TlsConfig { psk_identities: identities, ..self }),
    {
        TlsConfig { psk_identities: identities, ..self }
    }

    /// The same configuration, asking for the limit `limit` on record
    /// plaintext.
    pub fn with_max_fragment_length(self, limit: MaxFragmentLength) -> (r: Self)
        ensures
            r == (TlsConfig { max_fragment_length: Some(limit), ..self }),
    {
        TlsConfig { max_fragment_length: Some(limit), ..self }
    }
}

} // verus!
