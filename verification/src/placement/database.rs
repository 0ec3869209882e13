//! How the placement database is reached: its schema, its hosts and its certificates.

use crate::checks;
use crate::oci::address;
use crate::oci::address::IpAddress;
use crate::oci::error;
use crate::placement::error::{PlacementFailure, PlacementStoreError};
use crate::placement::model::{PlacementDatabaseTls, MAXIMUM_PEM_BYTES, SCHEMA_VERSION};
use crate::text;
use crate::text::{decimal_text, join2, join3};
use rustls::pki_types::pem::PemObject;
use vstd::prelude::*;

verus! {

/// A number in decimal digits, with its sign.
pub open spec fn signed_decimal(value: i32) -> Seq<char> {
    if value < 0 {
        "-"@ + text::decimal((0 - value) as nat)
    } else {
        text::decimal(value as nat)
    }
}

/// Writes a number in decimal digits, with its sign.
fn signed_text(value: i32) -> (r: String)
    ensures
        r@ == signed_decimal(value),
{
    let wide: i64 = value as i64;
    if wide < 0 {
        join2("-", decimal_text((0 - wide) as u64).as_str())
    } else {
        decimal_text(wide as u64)
    }
}

/// A schema that is not worked with.
pub open spec fn unsupported_schema(version: i32) -> PlacementFailure {
    PlacementFailure::Invalid(
        "placement database schema version "@ + signed_decimal(version) + " is not supported"@,
    )
}

/// Looks at the schema of the database.
pub fn check_schema(version: i32) -> (r: Result<(), PlacementStoreError>)
    ensures
        error::outcome(r) == checks::verdict(
            checks::when(version != SCHEMA_VERSION, unsupported_schema(version)),
        ),
{
    if version != SCHEMA_VERSION {
        return Err(
            PlacementStoreError::Invalid(
                join3(
                    "placement database schema version ",
                    signed_text(version).as_str(),
                    " is not supported",
                ),
            ),
        );
    }
    Ok(())
}

/// The versions to which a database of schema `version` is brought, in order.
pub open spec fn migrations(version: i32) -> Seq<i32> {
    Seq::new((SCHEMA_VERSION - version) as nat, |i: int| (version + 1 + i) as i32)
}

/// Plans how a database is brought to the schema that the store works with.
pub fn migration_steps(version: i32) -> (r: Result<Vec<i32>, PlacementStoreError>)
    ensures
        match r {
            Ok(steps) => 1 <= version <= SCHEMA_VERSION && steps@ == migrations(version),
            Err(error) => !(1 <= version <= SCHEMA_VERSION) && error@ == unsupported_schema(
                version,
            ),
        },
{
    if version < 1 || version > SCHEMA_VERSION {
        return match check_schema(version) {
            Ok(()) => Ok(Vec::new()),
            Err(error) => Err(error),
        };
    }
    let mut steps: Vec<i32> = Vec::new();
    let mut at: i32 = version;
    while at < SCHEMA_VERSION
        invariant
            1 <= version <= at <= SCHEMA_VERSION,
            steps@ =~= migrations(version).take(at - version),
        decreases SCHEMA_VERSION - at,
    {
        steps.push(at + 1);
        at = at + 1;
    }
    Ok(steps)
}

/// The last step brings the database to the schema that is worked with, and each step follows on
/// the one before.
pub proof fn law_migrations_lead_to_the_schema(version: i32)
    requires
        1 <= version < SCHEMA_VERSION,
    ensures
        migrations(version).len() > 0,
        migrations(version)[0] == version + 1,
        migrations(version).last() == SCHEMA_VERSION,
        forall|i: int|
            0 <= i < migrations(version).len() - 1 ==> #[trigger] migrations(version)[i] + 1
                == migrations(version)[i + 1],
{
}

/// The names of the hosts in a connection string. A host without a name is a Unix socket.
pub uninterp spec fn hosts_in(connection_string: Seq<char>) -> Result<
    Seq<Option<Seq<char>>>,
    Seq<char>,
>;

/// The names of hosts.
pub open spec fn host_names(hosts: Seq<Option<String>>) -> Seq<Option<Seq<char>>> {
    Seq::new(hosts.len(), |i: int| text::optional(hosts[i]))
}

/// Calls `tokio_postgres::Config::from_str`, whose hosts `Config::get_hosts` hands out: the name
/// of each one that is reached by TCP, none for a Unix socket. The hosts, or the reason in words,
/// are named `hosts_in`.
#[verifier::external_body]
fn parse_hosts(connection_string: &str) -> (r: Result<Vec<Option<String>>, String>)
    ensures
        match r {
            Ok(hosts) => hosts_in(connection_string@) == Ok::<
                Seq<Option<Seq<char>>>,
                Seq<char>,
            >(host_names(hosts@)),
            Err(reason) => hosts_in(connection_string@) == Err::<
                Seq<Option<Seq<char>>>,
                Seq<char>,
            >(reason@),
        },
{
    let parsed: Result<tokio_postgres::Config, _> = connection_string.parse();
    let config = parsed.map_err(|error| error.to_string())?;
    let name = |host: &tokio_postgres::config::Host| match host {
        tokio_postgres::config::Host::Tcp(name) => Some(name.clone()),
        tokio_postgres::config::Host::Unix(_) => None,
    };
    Ok(config.get_hosts().iter().map(name).collect())
}

/// The hosts that a connection string names.
pub fn database_hosts(connection_string: &str) -> (r: Result<
    Vec<Option<String>>,
    PlacementStoreError,
>)
    ensures
        match r {
            Ok(hosts) => hosts_in(connection_string@) == Ok::<
                Seq<Option<Seq<char>>>,
                Seq<char>,
            >(host_names(hosts@)),
            Err(error) => hosts_in(connection_string@) is Err && error@
                == PlacementFailure::Database(hosts_in(connection_string@)->Err_0),
        },
{
    match parse_hosts(connection_string) {
        Ok(hosts) => Ok(hosts),
        Err(reason) => Err(PlacementStoreError::Database(reason)),
    }
}

/// The addresses in a connection string, in words: where the database is reached in place of the
/// addresses of its hosts.
pub uninterp spec fn addresses_in(connection_string: Seq<char>) -> Result<
    Seq<Seq<char>>,
    Seq<char>,
>;

/// Calls `tokio_postgres::Config::from_str`, whose addresses `Config::get_hostaddrs` hands out,
/// each one written out. The addresses, or the reason in words, are named `addresses_in`.
#[verifier::external_body]
fn parse_addresses(connection_string: &str) -> (r: Result<Vec<String>, String>)
    ensures
        match r {
            Ok(addresses) => addresses_in(connection_string@) == Ok::<Seq<Seq<char>>, Seq<char>>(
                text::texts(addresses@),
            ),
            Err(reason) => addresses_in(connection_string@) == Err::<Seq<Seq<char>>, Seq<char>>(
                reason@,
            ),
        },
{
    let parsed: Result<tokio_postgres::Config, _> = connection_string.parse();
    let config = parsed.map_err(|error| error.to_string())?;
    Ok(config.get_hostaddrs().iter().map(|address| address.to_string()).collect())
}

/// The addresses that a connection string names.
pub fn database_addresses(connection_string: &str) -> (r: Result<
    Vec<String>,
    PlacementStoreError,
>)
    ensures
        match r {
            Ok(addresses) => addresses_in(connection_string@) == Ok::<Seq<Seq<char>>, Seq<char>>(
                text::texts(addresses@),
            ),
            Err(error) => addresses_in(connection_string@) is Err && error@
                == PlacementFailure::Database(addresses_in(connection_string@)->Err_0),
        },
{
    match parse_addresses(connection_string) {
        Ok(addresses) => Ok(addresses),
        Err(reason) => Err(PlacementStoreError::Database(reason)),
    }
}

/// An address that leads back to the machine itself.
pub open spec fn is_loopback(address: IpAddress) -> bool {
    match address {
        IpAddress::V4(value) => 0x7f00_0000 <= value <= 0x7fff_ffff,
        IpAddress::V6(value) => value == 1,
    }
}

/// A text writes an address that leads back to the machine itself.
pub open spec fn writes_loopback(value: Seq<char>) -> bool {
    match address::address_of(text::utf8(value)) {
        Some(address) => is_loopback(address),
        None => false,
    }
}

/// A host on the machine itself.
pub open spec fn is_local(host: Option<Seq<char>>) -> bool {
    match host {
        None => true,
        Some(name) => name == "localhost"@ || writes_loopback(name),
    }
}

/// A name of the machine itself.
pub fn loopback_address(host: &str) -> (r: bool)
    ensures
        r == writes_loopback(host@),
{
    match IpAddress::parse(host) {
        Some(IpAddress::V4(value)) => 0x7f00_0000 <= value && value <= 0x7fff_ffff,
        Some(IpAddress::V6(value)) => value == 1,
        None => false,
    }
}

/// All hosts are on the machine itself.
pub open spec fn all_local(hosts: Seq<Option<Seq<char>>>) -> bool {
    forall|i: int| 0 <= i < hosts.len() ==> is_local(#[trigger] hosts[i])
}

/// What is said of a database that is not on the machine itself.
pub open spec fn remote_failure() -> PlacementFailure {
    PlacementFailure::Invalid("insecure placement database must use loopback or a Unix socket"@)
}

/// Only hosts on the machine itself are talked to in the clear.
pub fn check_local_hosts(hosts: &Vec<Option<String>>) -> (r: Result<(), PlacementStoreError>)
    ensures
        error::outcome(r) == checks::verdict(
            checks::when(!all_local(host_names(hosts@)), remote_failure()),
        ),
{
    let ghost names = host_names(hosts@);
    let mut i: usize = 0;
    while i < hosts.len()
        invariant
            i <= hosts@.len(),
            names == host_names(hosts@),
            forall|j: int| 0 <= j < i ==> is_local(#[trigger] names[j]),
        decreases hosts@.len() - i,
    {
        proof {
            assert(names[i as int] == text::optional(hosts@[i as int]));
        }
        match &hosts[i] {
            Some(name) => {
                if !text::same(name.as_str(), "localhost") && !loopback_address(name.as_str()) {
                    proof {
                        assert(!is_local(names[i as int]));
                        assert(!all_local(names));
                    }
                    return Err(
                        PlacementStoreError::Invalid(
                            "insecure placement database must use loopback or a Unix socket".to_owned(),
                        ),
                    );
                }
            },
            None => {},
        }
        i += 1;
    }
    Ok(())
}

/// All addresses lead back to the machine itself.
pub open spec fn all_loopback(addresses: Seq<Seq<char>>) -> bool {
    forall|i: int| 0 <= i < addresses.len() ==> writes_loopback(#[trigger] addresses[i])
}

/// Only addresses of the machine itself are talked to in the clear.
pub fn check_local_addresses(addresses: &Vec<String>) -> (r: Result<(), PlacementStoreError>)
    ensures
        error::outcome(r) == checks::verdict(
            checks::when(!all_loopback(text::texts(addresses@)), remote_failure()),
        ),
{
    let ghost all = text::texts(addresses@);
    let mut i: usize = 0;
    while i < addresses.len()
        invariant
            i <= addresses@.len(),
            all == text::texts(addresses@),
            forall|j: int| 0 <= j < i ==> writes_loopback(#[trigger] all[j]),
        decreases addresses@.len() - i,
    {
        proof {
            assert(all[i as int] == addresses@[i as int]@);
        }
        if !loopback_address(addresses[i].as_str()) {
            proof {
                assert(!all_loopback(all));
            }
            return Err(
                PlacementStoreError::Invalid(
                    "insecure placement database must use loopback or a Unix socket".to_owned(),
                ),
            );
        }
        i += 1;
    }
    Ok(())
}

/// Why a database is not talked to in the clear: it cannot be made out where it is, or one of its
/// hosts or addresses is not on the machine itself.
pub open spec fn local_failure(connection_string: Seq<char>) -> Option<PlacementFailure> {
    match hosts_in(connection_string) {
        Err(reason) => Some(PlacementFailure::Database(reason)),
        Ok(hosts) => match addresses_in(connection_string) {
            Err(reason) => Some(PlacementFailure::Database(reason)),
            Ok(addresses) => checks::when(
                !all_local(hosts) || !all_loopback(addresses),
                remote_failure(),
            ),
        },
    }
}

/// Whether the database of a connection string may be talked to in the clear.
pub fn check_local_database(connection_string: &str) -> (r: Result<(), PlacementStoreError>)
    ensures
        error::outcome(r) == checks::verdict(local_failure(connection_string@)),
{
    let hosts = match database_hosts(connection_string) {
        Ok(hosts) => hosts,
        Err(error) => return Err(error),
    };
    let addresses = match database_addresses(connection_string) {
        Ok(addresses) => addresses,
        Err(error) => return Err(error),
    };
    match check_local_hosts(&hosts) {
        Ok(()) => check_local_addresses(&addresses),
        Err(error) => Err(error),
    }
}

/// A client shows a certificate and proves that it is its own, or does neither.
pub fn check_client_identity(tls: &PlacementDatabaseTls) -> (r: Result<(), PlacementStoreError>)
    ensures
        error::outcome(r) == checks::verdict(
            checks::when(
                tls.client_certificate is Some != tls.client_private_key is Some,
                PlacementFailure::Tls(
                    "client certificate and private key must be configured together"@,
                ),
            ),
        ),
{
    if tls.client_certificate.is_some() != tls.client_private_key.is_some() {
        return Err(
            PlacementStoreError::Tls(
                "client certificate and private key must be configured together".to_owned(),
            ),
        );
    }
    Ok(())
}

/// What the filesystem says of a PEM file.
#[derive(Clone, Copy, Debug, PartialEq, Eq, Structural)]
pub struct PemFile {
    pub is_file: bool,
    pub uid: u32,
    pub gid: u32,
    pub mode: u32,
}

/// Nobody but the process reads the file.
pub open spec fn is_private_to(file: PemFile, euid: u32) -> bool {
    file.uid == euid && file.mode & 0o077 == 0
}

/// The superuser hands the file to the group of the process.
pub open spec fn is_handed_to(file: PemFile, egid: u32) -> bool {
    file.uid == 0 && file.gid == egid && file.mode & 0o037 == 0 && file.mode & 0o040 != 0
}

/// Why a PEM file is not read.
pub open spec fn pem_file_failure(
    path: Seq<char>,
    private: bool,
    file: PemFile,
    euid: u32,
    egid: u32,
) -> Option<PlacementFailure> {
    checks::when(
        !file.is_file || (private && !is_private_to(file, euid) && !is_handed_to(file, egid)),
        PlacementFailure::Tls(
            "`"@ + path + "` must be a regular non-symlink"@ + if private {
                " owned by the process with mode 0600, or root-owned and process-group-readable with mode 0640 or stricter"@
            } else {
                ""@
            },
        ),
    )
}

/// Looks at an open PEM file.
pub fn check_pem_file(path: &str, private: bool, file: PemFile, euid: u32, egid: u32) -> (r: Result<
    (),
    PlacementStoreError,
>)
    ensures
        error::outcome(r) == checks::verdict(
            pem_file_failure(path@, private, file, euid, egid),
        ),
{
    let process_owned = file.uid == euid && file.mode & 0o077 == 0;
    let group_mounted = file.uid == 0 && file.gid == egid && file.mode & 0o037 == 0 && file.mode
        & 0o040 != 0;
    if !file.is_file || (private && !process_owned && !group_mounted) {
        let suffix = if private {
            " owned by the process with mode 0600, or root-owned and process-group-readable with mode 0640 or stricter"
        } else {
            ""
        };
        let subject = join3("`", path, "` must be a regular non-symlink");
        return Err(PlacementStoreError::Tls(join2(subject.as_str(), suffix)));
    }
    Ok(())
}

/// Looks at what was read of a PEM file.
pub fn check_pem_size(path: &str, length: u64) -> (r: Result<(), PlacementStoreError>)
    ensures
        error::outcome(r) == checks::verdict(
            checks::when(
                length == 0 || length > MAXIMUM_PEM_BYTES,
                PlacementFailure::Tls("`"@ + path@ + "` is empty or exceeds the PEM size limit"@),
            ),
        ),
{
    if length == 0 || length > MAXIMUM_PEM_BYTES {
        return Err(
            PlacementStoreError::Tls(
                join3("`", path, "` is empty or exceeds the PEM size limit"),
            ),
        );
    }
    Ok(())
}

/// The certificates in the text of a PEM file.
pub uninterp spec fn certificates_in(pem: Seq<u8>) -> Result<Seq<Seq<u8>>, Seq<char>>;

/// How many certificates can serve as authorities, and how many cannot.
pub uninterp spec fn authorities_among(certificates: Seq<Seq<u8>>) -> (usize, usize);

/// The bytes of certificates.
pub open spec fn encodings(certificates: Seq<Vec<u8>>) -> Seq<Seq<u8>> {
    Seq::new(certificates.len(), |i: int| certificates[i]@)
}

/// Calls `rustls::pki_types::CertificateDer::pem_slice_iter`. The encodings of the certificates,
/// or the first reason in words why one cannot be read, are named `certificates_in`.
#[verifier::external_body]
fn parse_certificates(pem: &[u8]) -> (r: Result<Vec<Vec<u8>>, String>)
    ensures
        match r {
            Ok(certificates) => certificates_in(pem@) == Ok::<Seq<Seq<u8>>, Seq<char>>(
                encodings(certificates@),
            ),
            Err(reason) => certificates_in(pem@) == Err::<Seq<Seq<u8>>, Seq<char>>(reason@),
        },
{
    rustls::pki_types::CertificateDer::pem_slice_iter(pem)
        .map(|item| item.map(|certificate| certificate.to_vec()).map_err(|error| error.to_string()))
        .collect()
}

/// Calls `rustls::RootCertStore::add_parsable_certificates` on an empty store. The two counts
/// that it returns are named `authorities_among`.
#[verifier::external_body]
fn count_authorities(certificates: &Vec<Vec<u8>>) -> (r: (usize, usize))
    ensures
        r == authorities_among(encodings(certificates@)),
{
    let encoded = certificates.iter().map(|bytes| {
        rustls::pki_types::CertificateDer::from(bytes.clone())
    });
    rustls::RootCertStore::empty().add_parsable_certificates(encoded)
}

/// Why authorities are not trusted that were counted.
pub open spec fn authorities_failure(counts: (usize, usize)) -> Option<PlacementFailure> {
    checks::when(
        counts.0 == 0 || counts.1 != 0,
        PlacementFailure::Tls("CA bundle is empty or contains an invalid certificate"@),
    )
}

/// Every certificate of a bundle is an authority, and there is one.
pub fn check_authorities(counts: (usize, usize)) -> (r: Result<(), PlacementStoreError>)
    ensures
        error::outcome(r) == checks::verdict(authorities_failure(counts)),
{
    if counts.0 == 0 || counts.1 != 0 {
        return Err(
            PlacementStoreError::Tls(
                "CA bundle is empty or contains an invalid certificate".to_owned(),
            ),
        );
    }
    Ok(())
}

/// Why the text of a PEM file names no authorities.
pub open spec fn bundle_failure(pem: Seq<u8>) -> Option<PlacementFailure> {
    match certificates_in(pem) {
        Err(reason) => Some(PlacementFailure::Tls("read CA certificate: "@ + reason)),
        Ok(certificates) => authorities_failure(authorities_among(certificates)),
    }
}

/// The authorities in the text of a PEM file.
pub fn read_authorities(pem: &[u8]) -> (r: Result<Vec<Vec<u8>>, PlacementStoreError>)
    ensures
        match r {
            Ok(certificates) => bundle_failure(pem@) is None && certificates_in(pem@) == Ok::<
                Seq<Seq<u8>>,
                Seq<char>,
            >(encodings(certificates@)),
            Err(error) => bundle_failure(pem@) == Some(error@),
        },
{
    match parse_certificates(pem) {
        Ok(certificates) => match check_authorities(count_authorities(&certificates)) {
            Ok(()) => Ok(certificates),
            Err(error) => Err(error),
        },
        Err(reason) => Err(
            PlacementStoreError::Tls(join2("read CA certificate: ", reason.as_str())),
        ),
    }
}

/// Why a client cannot show certificates.
pub open spec fn chain_failure(certificates: Result<Seq<Seq<u8>>, Seq<char>>) -> Option<
    PlacementFailure,
> {
    match certificates {
        Err(reason) => Some(PlacementFailure::Tls("read client certificate: "@ + reason)),
        Ok(certificates) => checks::when(
            certificates.len() == 0,
            PlacementFailure::Tls("client certificate bundle is empty"@),
        ),
    }
}

/// What certificates look like that were read or not.
pub open spec fn read_certificates(certificates: Result<Vec<Vec<u8>>, String>) -> Result<
    Seq<Seq<u8>>,
    Seq<char>,
> {
    match certificates {
        Ok(certificates) => Ok(encodings(certificates@)),
        Err(reason) => Err(reason@),
    }
}

/// A client shows at least one certificate.
pub fn check_chain(certificates: Result<Vec<Vec<u8>>, String>) -> (r: Result<
    Vec<Vec<u8>>,
    PlacementStoreError,
>)
    ensures
        match r {
            Ok(chain) => chain_failure(read_certificates(certificates)) is None && certificates
                == Ok::<Vec<Vec<u8>>, String>(chain),
            Err(error) => chain_failure(read_certificates(certificates)) == Some(error@),
        },
{
    match certificates {
        Ok(certificates) => {
            if certificates.len() == 0 {
                return Err(
                    PlacementStoreError::Tls("client certificate bundle is empty".to_owned()),
                );
            }
            Ok(certificates)
        },
        Err(reason) => Err(
            PlacementStoreError::Tls(join2("read client certificate: ", reason.as_str())),
        ),
    }
}

/// The certificates that a client shows, out of the text of a PEM file.
pub fn read_chain(pem: &[u8]) -> (r: Result<Vec<Vec<u8>>, PlacementStoreError>)
    ensures
        match r {
            Ok(chain) => chain_failure(certificates_in(pem@)) is None && certificates_in(pem@)
                == Ok::<Seq<Seq<u8>>, Seq<char>>(encodings(chain@)),
            Err(error) => chain_failure(certificates_in(pem@)) == Some(error@),
        },
{
    check_chain(parse_certificates(pem))
}

/// How a private key is encoded.
#[derive(Clone, Copy, Debug, PartialEq, Eq, Structural)]
pub enum KeyEncoding {
    Pkcs1,
    Sec1,
    Pkcs8,
    /// Some other encoding.
    Other,
}

/// The first private key in the text of a PEM file: its encoding and its bytes.
pub uninterp spec fn private_key_in(pem: Seq<u8>) -> Result<(KeyEncoding, Seq<u8>), Seq<char>>;

/// Calls `rustls::pki_types::PrivateKeyDer::from_pem_slice`. The kind of the key and the bytes that
/// `PrivateKeyDer::secret_der` yields, or the reason in words why there is none, are named
/// `private_key_in`.
#[verifier::external_body]
fn parse_private_key(pem: &[u8]) -> (r: Result<(KeyEncoding, Vec<u8>), String>)
    ensures
        match r {
            Ok(key) => private_key_in(pem@) == Ok::<(KeyEncoding, Seq<u8>), Seq<char>>(
                (key.0, key.1@),
            ),
            Err(reason) => private_key_in(pem@) == Err::<(KeyEncoding, Seq<u8>), Seq<char>>(
                reason@,
            ),
        },
{
    let parsed = rustls::pki_types::PrivateKeyDer::from_pem_slice(pem);
    let key = parsed.map_err(|error| error.to_string())?;
    let encoding = match &key {
        rustls::pki_types::PrivateKeyDer::Pkcs1(_) => KeyEncoding::Pkcs1,
        rustls::pki_types::PrivateKeyDer::Sec1(_) => KeyEncoding::Sec1,
        rustls::pki_types::PrivateKeyDer::Pkcs8(_) => KeyEncoding::Pkcs8,
        _ => KeyEncoding::Other,
    };
    Ok((encoding, key.secret_der().to_vec()))
}

/// The private key of a client, out of the text of a PEM file.
pub fn read_private_key(pem: &[u8]) -> (r: Result<(KeyEncoding, Vec<u8>), PlacementStoreError>)
    ensures
        match r {
            Ok(key) => private_key_in(pem@) == Ok::<(KeyEncoding, Seq<u8>), Seq<char>>(
                (key.0, key.1@),
            ),
            Err(error) => private_key_in(pem@) is Err && error@ == PlacementFailure::Tls(
                "read client private key: "@ + private_key_in(pem@)->Err_0,
            ),
        },
{
    match parse_private_key(pem) {
        Ok(key) => Ok(key),
        Err(reason) => Err(
            PlacementStoreError::Tls(join2("read client private key: ", reason.as_str())),
        ),
    }
}

/// A host is on the machine itself exactly where it is a socket, is named `localhost`, or is
/// written as an address in 127.0.0.0/8 or as `::1`.
pub proof fn law_local_hosts_are_on_the_machine(host: Option<Seq<char>>, value: u32, wide: u128)
    ensures
        host is None ==> is_local(host),
        host matches Some(name) ==> (is_local(host) <==> name == "localhost"@ || (
        address::address_of(text::utf8(name)) matches Some(IpAddress::V4(own)) && own / 16_777_216
            == 127) || address::address_of(text::utf8(name)) == Some(IpAddress::V6(1))),
        is_loopback(IpAddress::V4(value)) <==> value / 16_777_216 == 127,
        is_loopback(IpAddress::V6(wide)) <==> wide == 1,
{
}

/// A database is talked to in the clear exactly where its hosts and addresses can be made out, each
/// host is on the machine itself, and each address is a loopback one.
pub proof fn law_clear_connections_stay_on_the_machine(connection_string: Seq<char>)
    ensures
        local_failure(connection_string) is None <==> {
            &&& hosts_in(connection_string) matches Ok(hosts) && forall|i: int|
                0 <= i < hosts.len() ==> is_local(#[trigger] hosts[i])
            &&& addresses_in(connection_string) matches Ok(addresses) && forall|i: int|
                0 <= i < addresses.len() ==> is_local(Some(#[trigger] addresses[i]))
                    && address::address_of(text::utf8(addresses[i])) is Some
        },
{
    match addresses_in(connection_string) {
        Ok(addresses) => {
            assert forall|i: int| 0 <= i < addresses.len() implies (writes_loopback(
                #[trigger] addresses[i],
            ) <==> is_local(Some(addresses[i])) && address::address_of(text::utf8(addresses[i]))
                is Some) by {
                lemma_localhost_is_no_address();
            }
        },
        Err(_) => {},
    }
}

/// `localhost` writes no address.
proof fn lemma_localhost_is_no_address()
    ensures
        address::address_of(text::utf8("localhost"@)) is None,
{
    reveal_strlit("localhost");
    let chars = "localhost"@;
    assert(vstd::utf8::is_ascii_chars(chars));
    vstd::utf8::is_ascii_chars_encode_utf8(chars);
    let bytes = text::utf8(chars);
    assert(bytes.len() == 9);
    assert(bytes[0] == 108);
    text::lemma_find(bytes, 46);
    assert forall|j: int| 0 <= j < bytes.len() implies #[trigger] bytes[j] != 46 && bytes[j]
        != 58 by {
        assert(bytes[j] == chars[j] as u8);
    }
    text::lemma_find_at(bytes, 46, 9);
    text::lemma_find_at(bytes, 58, 9);
    assert(text::split(bytes, 46) =~= seq![bytes]);
    assert(text::split(bytes, 58) =~= seq![bytes]);
    assert(address::dotted(bytes) is None);
    assert forall|at: int| !address::gap_at(bytes, at) by {}
    assert(address::eight_groups(bytes) is None);
}

/// A PEM file is read exactly where it is a regular file and, if it holds a secret, either belongs
/// to the process and is open to no one else, or belongs to the superuser and is readable, and no
/// more than that, to the group of the process alone.
pub proof fn law_secrets_are_read_from_private_files(
    path: Seq<char>,
    private: bool,
    file: PemFile,
    euid: u32,
    egid: u32,
)
    ensures
        pem_file_failure(path, private, file, euid, egid) is None <==> {
            &&& file.is_file
            &&& private ==> {
                ||| file.uid == euid && file.mode % 64 == 0
                ||| file.uid == 0 && file.gid == egid && file.mode % 64 == 32
            }
        },
{
    let mode = file.mode;
    assert(mode & 0o077 == 0 <==> mode % 64 == 0) by (bit_vector);
    assert(mode & 0o037 == 0 && mode & 0o040 != 0 <==> mode % 64 == 32) by (bit_vector);
}

/// Authorities are trusted exactly where there is one and every certificate is one, and a client
/// shows certificates exactly where there is one.
pub proof fn law_certificates_are_complete(
    pem: Seq<u8>,
    certificates: Result<Seq<Seq<u8>>, Seq<char>>,
)
    ensures
        bundle_failure(pem) is None <==> (certificates_in(pem) matches Ok(found)
            && authorities_among(found).0 >= 1 && authorities_among(found).1 == 0),
        chain_failure(certificates) is None <==> (certificates matches Ok(found) && found.len()
            >= 1),
{
}

/// The schema that is worked with is the fifth, and databases are brought to it step by step.
pub proof fn law_the_schema_is_the_fifth(version: i32, i: int)
    requires
        1 <= version <= 5,
    ensures
        migrations(version).len() == 5 - version,
        0 <= i < migrations(version).len() ==> migrations(version)[i] == version + 1 + i,
{
}

/// A schema that is not supported is told with its number.
pub proof fn law_unsupported_schemas_are_told(version: i32)
    ensures
        version >= 0 ==> unsupported_schema(version) == PlacementFailure::Invalid(
            "placement database schema version "@ + text::decimal(version as nat)
                + " is not supported"@,
        ),
        version < 0 ==> unsupported_schema(version) == PlacementFailure::Invalid(
            "placement database schema version "@ + ("-"@ + text::decimal((0 - version) as nat))
                + " is not supported"@,
        ),
{
}

/// Each refusal of a certificate is of its kind.
pub proof fn law_refused_certificates_say_why(
    path: Seq<char>,
    file: PemFile,
    euid: u32,
    egid: u32,
    pem: Seq<u8>,
    certificates: Result<Seq<Seq<u8>>, Seq<char>>,
    counts: (usize, usize),
)
    ensures
        pem_file_failure(path, false, file, euid, egid) matches Some(failure) ==> failure
            == PlacementFailure::Tls("`"@ + path + "` must be a regular non-symlink"@),
        pem_file_failure(path, true, file, euid, egid) matches Some(failure) ==> failure
            == PlacementFailure::Tls(
            "`"@ + path + "` must be a regular non-symlink"@
                + " owned by the process with mode 0600, or root-owned and process-group-readable with mode 0640 or stricter"@,
        ),
        authorities_failure(counts) matches Some(failure) ==> failure == PlacementFailure::Tls(
            "CA bundle is empty or contains an invalid certificate"@,
        ),
        certificates_in(pem) matches Err(reason) ==> bundle_failure(pem) == Some(
            PlacementFailure::Tls("read CA certificate: "@ + reason),
        ),
        certificates matches Err(reason) ==> chain_failure(certificates) == Some(
            PlacementFailure::Tls("read client certificate: "@ + reason),
        ),
        certificates is Ok ==> (chain_failure(certificates) matches Some(failure) ==> failure
            == PlacementFailure::Tls("client certificate bundle is empty"@)),
        remote_failure() == PlacementFailure::Invalid(
            "insecure placement database must use loopback or a Unix socket"@,
        ),
{
    reveal_strlit("");
    let front = "`"@ + path + "` must be a regular non-symlink"@;
    assert(front + ""@ =~= front);
}

} // verus!
