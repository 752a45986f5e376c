//! The merchant's credentials.

use vstd::prelude::*;

use crate::check_mac;
use crate::check_mac::compute_check_mac_value;
use crate::errors::IntegrationError;
use crate::params::ParamMap;
use crate::router::ConnectorSpecificConfig;

verus! {

/// A merchant's id and the two texts that its requests are signed with. It
/// cannot be printed, so that keys do not reach a log.
#[derive(Clone)]
pub struct EcpayAuthType {
    pub merchant_id: String,
    pub hash_key: String,
    pub hash_iv: String,
}

impl EcpayAuthType {
    /// These are the credentials that a configuration holds.
    pub open spec fn is_of(self, config: ConnectorSpecificConfig) -> bool {
        match config {
            ConnectorSpecificConfig::Ecpay { api_key, hash_key, hash_iv } => {
                &&& self.merchant_id@ == api_key@
                &&& self.hash_key@ == hash_key@
                &&& self.hash_iv@ == hash_iv@
            },
            ConnectorSpecificConfig::Other => false,
        }
    }

    /// The credentials that a connector's configuration holds.
    pub fn try_from(auth_type: &ConnectorSpecificConfig) -> (r: Result<
        EcpayAuthType,
        IntegrationError,
    >)
        ensures
            match *auth_type {
                ConnectorSpecificConfig::Ecpay { .. } => {
                    &&& r matches Ok(auth)
                    &&& auth.is_of(*auth_type)
                },
                ConnectorSpecificConfig::Other => r == Err::<EcpayAuthType, IntegrationError>(
                    IntegrationError::FailedToObtainAuthType,
                ),
            },
    {
        match auth_type {
            ConnectorSpecificConfig::Ecpay { api_key, hash_key, hash_iv } => Ok(
                EcpayAuthType {
                    merchant_id: api_key.clone(),
                    hash_key: hash_key.clone(),
                    hash_iv: hash_iv.clone(),
                },
            ),
            ConnectorSpecificConfig::Other => Err(IntegrationError::FailedToObtainAuthType),
        }
    }

    /// The check value of parameters under the merchant's credentials.
    pub(crate) fn sign(&self, params: &ParamMap) -> (r: Result<String, IntegrationError>)
        ensures
            r is Ok,
            r->Ok_0@ == check_mac::check_mac_value(params@, self.hash_key@, self.hash_iv@),
    {
        match compute_check_mac_value(params, self.hash_key.as_str(), self.hash_iv.as_str()) {
            Ok(check_mac_value) => Ok(check_mac_value),
            Err(_) => Err(IntegrationError::RequestEncodingFailed),
        }
    }
}

/// Credentials are the merchant id, the hash key and the hash IV of an ECPay
/// configuration, each in its own place; of no other configuration are there any.
pub proof fn lemma_credentials(
    config: &ConnectorSpecificConfig,
    r: Result<EcpayAuthType, IntegrationError>,
)
    requires
        call_ensures(EcpayAuthType::try_from, (config,), r),
    ensures
        match *config {
            ConnectorSpecificConfig::Ecpay { api_key, hash_key, hash_iv } => {
                &&& r matches Ok(auth)
                &&& auth.merchant_id@ == api_key@
                &&& auth.hash_key@ == hash_key@
                &&& auth.hash_iv@ == hash_iv@
            },
            ConnectorSpecificConfig::Other => {
                &&& r matches Err(error)
                &&& error is FailedToObtainAuthType
            },
        },
{
}

} // verus!
