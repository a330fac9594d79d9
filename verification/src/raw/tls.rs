use vstd::prelude::*;

verus! {

/// `native_tls::TlsConnector`, carried as it is: nothing is known of what it
/// holds.
#[verifier::external_type_specification]
#[verifier::external_body]
pub struct ExTlsConnector(native_tls::TlsConnector);

/// `Clone` of `native_tls::TlsConnector`; nothing is claimed of the copy.
pub assume_specification[ <native_tls::TlsConnector as Clone>::clone ](
    connector: &native_tls::TlsConnector,
) -> native_tls::TlsConnector;

/// `native_tls::TlsConnector::new`: a connector with the default settings of
/// the machine, or the text of the error that the TLS backend reports.
/// Nothing is claimed of either: both depend on the machine.
#[verifier::external_body]
pub(crate) fn new_tls_connector() -> Result<native_tls::TlsConnector, String> {
    match native_tls::TlsConnector::new() {
        Ok(connector) => Ok(connector),
        Err(e) => Err(e.to_string()),
    }
}

} // verus!
