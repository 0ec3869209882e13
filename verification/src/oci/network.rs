//! Default-deny networking: egress, DNS and ingress rules.

use crate::checks;
use crate::oci::address;
use crate::oci::address::{cidr_contains, validate_cidr, IpAddress};
use crate::oci::model::LockedService;
use crate::table::Table;
use crate::text;
use crate::text::{join3, Alphabet};
use vstd::prelude::*;

verus! {

/// The network that a topology may use.
#[derive(Clone, Debug, PartialEq, Eq)]
pub struct NetworkPolicy {
    pub profile: NetworkProfile,
    pub http_rules: Vec<HttpEgressRule>,
    pub tcp_rules: Vec<TcpEgressRule>,
    pub dns: DnsPolicy,
    pub limits: EgressLimits,
    pub ingress: Vec<IngressRule>,
}

#[derive(Clone, Copy, Debug, PartialEq, Eq, Structural)]
pub enum NetworkProfile {
    Disabled,
    HttpConnect,
    RestrictedTcp,
}

impl Default for NetworkProfile {
    fn default() -> (r: Self)
        ensures
            r == NetworkProfile::Disabled,
    {
        NetworkProfile::Disabled
    }
}

#[derive(Clone, Debug, PartialEq, Eq)]
pub struct HttpEgressRule {
    pub domains: Vec<String>,
    pub schemes: Vec<HttpScheme>,
    pub ports: Vec<u16>,
}

#[derive(Clone, Copy, Debug, PartialEq, Eq, PartialOrd, Ord, Structural)]
pub enum HttpScheme {
    Http,
    Https,
}

#[derive(Clone, Debug, PartialEq, Eq)]
pub struct TcpEgressRule {
    pub destination_cidr: String,
    pub ports: Vec<u16>,
}

#[derive(Clone, Copy, Debug, PartialEq, Eq, Structural)]
pub struct DnsPolicy {
    pub maximum_queries: u32,
    pub maximum_response_bytes: u32,
    pub maximum_total_bytes: u64,
}

impl DnsPolicy {
    pub open spec fn is_standard(self) -> bool {
        &&& self.maximum_queries == 256
        &&& self.maximum_response_bytes == 4096
        &&& self.maximum_total_bytes == 1024 * 1024
    }
}

impl Default for DnsPolicy {
    fn default() -> (r: Self)
        ensures
            r.is_standard(),
    {
        DnsPolicy {
            maximum_queries: 256,
            maximum_response_bytes: 4_096,
            maximum_total_bytes: 1024 * 1024,
        }
    }
}

#[derive(Clone, Copy, Debug, PartialEq, Eq, Structural)]
pub struct EgressLimits {
    pub maximum_connections: u32,
    pub maximum_bytes: u64,
    pub bandwidth_bytes_per_second: u64,
}

impl EgressLimits {
    pub open spec fn is_standard(self) -> bool {
        &&& self.maximum_connections == 32
        &&& self.maximum_bytes == 64 * 1024 * 1024
        &&& self.bandwidth_bytes_per_second == 8 * 1024 * 1024
    }
}

impl Default for EgressLimits {
    fn default() -> (r: Self)
        ensures
            r.is_standard(),
    {
        EgressLimits {
            maximum_connections: 32,
            maximum_bytes: 64 * 1024 * 1024,
            bandwidth_bytes_per_second: 8 * 1024 * 1024,
        }
    }
}

#[derive(Clone, Debug, PartialEq, Eq)]
pub struct IngressRule {
    pub service: String,
    pub container_port: u16,
}

impl NetworkPolicy {
    /// No egress, no ingress, the standard limits.
    pub open spec fn is_closed(self) -> bool {
        &&& self.profile is Disabled
        &&& self.http_rules@.len() == 0
        &&& self.tcp_rules@.len() == 0
        &&& self.ingress@.len() == 0
        &&& self.dns.is_standard()
        &&& self.limits.is_standard()
    }
}

impl Default for NetworkPolicy {
    fn default() -> (r: Self)
        ensures
            r.is_closed(),
    {
        NetworkPolicy {
            profile: NetworkProfile::Disabled,
            http_rules: Vec::new(),
            tcp_rules: Vec::new(),
            dns: DnsPolicy::default(),
            limits: EgressLimits::default(),
            ingress: Vec::new(),
        }
    }
}

/// A name without the dot that may end it.
pub open spec fn without_final_dot(bytes: Seq<u8>) -> Seq<u8> {
    if bytes.len() > 0 && bytes.last() == 46 {
        bytes.drop_last()
    } else {
        bytes
    }
}

/// A label of a domain name.
pub open spec fn is_label(bytes: Seq<u8>) -> bool {
    &&& 0 < bytes.len() <= 63
    &&& bytes[0] != 45
    &&& bytes.last() != 45
    &&& text::drawn_from(bytes, Alphabet::HostLabel)
}

/// A domain name in lower case.
pub open spec fn is_domain(bytes: Seq<u8>) -> bool {
    &&& 0 < bytes.len() <= 253
    &&& forall|i: int|
        0 <= i < text::split(bytes, 46).len() ==> is_label(#[trigger] text::split(bytes, 46)[i])
}

/// A pattern covers its own name, or with `*.` every name below it.
pub open spec fn pattern_covers(pattern: Seq<u8>, domain: Seq<u8>) -> bool {
    if pattern.len() >= 2 && pattern[0] == 42 && pattern[1] == 46 {
        text::finishes_with(domain, pattern.skip(1))
    } else {
        pattern == domain
    }
}

/// Some pattern of the rule covers `domain`.
pub open spec fn rule_covers(rule: HttpEgressRule, domain: Seq<u8>) -> bool {
    exists|i: int|
        0 <= i < rule.domains@.len() && pattern_covers(
            text::utf8(#[trigger] rule.domains@[i]@),
            domain,
        )
}

fn valid_label(bytes: &[u8]) -> (r: bool)
    ensures
        r == is_label(bytes@),
{
    bytes.len() > 0 && bytes.len() <= 63 && bytes[0] != 45 && bytes[bytes.len() - 1] != 45
        && text::bytes_drawn_from(bytes, Alphabet::HostLabel)
}

fn valid_domain(bytes: &[u8]) -> (r: bool)
    ensures
        r == is_domain(bytes@),
{
    if bytes.len() == 0 || bytes.len() > 253 {
        return false;
    }
    let labels = text::pieces(bytes, 46);
    let ghost all = text::slices(labels@);
    let mut i: usize = 0;
    while i < labels.len()
        invariant
            i <= labels.len(),
            0 < bytes@.len() <= 253,
            all == text::slices(labels@),
            all == text::split(bytes@, 46),
            forall|j: int| 0 <= j < i ==> is_label(#[trigger] all[j]),
        decreases labels.len() - i,
    {
        proof {
            assert(all[i as int] == labels@[i as int]@);
        }
        if !valid_label(labels[i]) {
            return false;
        }
        i += 1;
    }
    true
}

/// The domain name in `domain`, without a final dot.
pub fn canonical_domain(domain: &str) -> (r: Option<&str>)
    ensures
        r is Some <==> is_domain(without_final_dot(text::utf8(domain@))),
        r matches Some(name) ==> text::utf8(name@) == without_final_dot(text::utf8(domain@)),
{
    let bytes = domain.as_bytes();
    let length: usize = bytes.len();
    let name = if length > 0 && bytes[length - 1] == 46 {
        let halves = text::split_text(domain, length - 1);
        proof {
            assert(text::utf8(halves.0@) =~= text::utf8(domain@).drop_last());
        }
        halves.0
    } else {
        domain
    };
    if valid_domain(name.as_bytes()) {
        Some(name)
    } else {
        None
    }
}

/// Whether `pattern` covers `domain`.
pub fn domain_matches(pattern: &str, domain: &str) -> (r: bool)
    ensures
        r == pattern_covers(text::utf8(pattern@), text::utf8(domain@)),
{
    let bytes = pattern.as_bytes();
    if bytes.len() >= 2 && bytes[0] == 42 && bytes[1] == 46 {
        let suffix = vstd::slice::slice_subrange(bytes, 1, bytes.len());
        proof {
            assert(suffix@ =~= bytes@.skip(1));
        }
        text::bytes_finish_with(domain.as_bytes(), suffix)
    } else {
        text::same_bytes(bytes, domain.as_bytes())
    }
}

/// The name that a pattern is about.
pub open spec fn pattern_name(pattern: Seq<u8>) -> Seq<u8> {
    if pattern.len() >= 2 && pattern[0] == 42 && pattern[1] == 46 {
        pattern.skip(2)
    } else {
        pattern
    }
}

/// Patterns are about domain names, not about addresses.
pub open spec fn pattern_failure(pattern: Seq<char>) -> Option<Seq<char>> {
    let name = pattern_name(text::utf8(pattern));
    checks::when(
        !is_domain(name) || address::address_of(name) is Some,
        "domain pattern `"@ + pattern + "` is invalid"@,
    )
}

/// Accepts the patterns over domain names.
pub fn validate_domain_pattern(pattern: &str) -> (r: Result<(), String>)
    ensures
        match r {
            Ok(()) => pattern_failure(pattern@) is None,
            Err(reason) => pattern_failure(pattern@) == Some(reason@),
        },
{
    let bytes = pattern.as_bytes();
    let name = if bytes.len() >= 2 && bytes[0] == 42 && bytes[1] == 46 {
        let name = vstd::slice::slice_subrange(bytes, 2, bytes.len());
        proof {
            assert(name@ =~= bytes@.skip(2));
        }
        name
    } else {
        bytes
    };
    if !valid_domain(name) || IpAddress::parse_bytes(name).is_some() {
        return Err(join3("domain pattern `", pattern, "` is invalid"));
    }
    Ok(())
}

/// Some value occurs twice.
pub open spec fn repeats<T>(values: Seq<T>) -> bool {
    exists|i: int, j: int|
        0 <= i < j < values.len() && #[trigger] values[i] == #[trigger] values[j]
}

/// Whether a port occurs twice.
pub fn has_duplicates(values: &[u16]) -> (r: bool)
    ensures
        r == repeats(values@),
{
    let mut i: usize = 0;
    while i < values.len()
        invariant
            i <= values.len(),
            forall|a: int, b: int|
                0 <= a < b < i ==> #[trigger] values@[a] != #[trigger] values@[b],
        decreases values.len() - i,
    {
        let mut j: usize = 0;
        while j < i
            invariant
                j <= i < values.len(),
                forall|a: int, b: int|
                    0 <= a < b < i ==> #[trigger] values@[a] != #[trigger] values@[b],
                forall|a: int| 0 <= a < j ==> #[trigger] values@[a] != values@[i as int],
            decreases i - j,
        {
            if values[j] == values[i] {
                return true;
            }
            j += 1;
        }
        i += 1;
    }
    false
}

fn has_duplicate_schemes(values: &[HttpScheme]) -> (r: bool)
    ensures
        r == repeats(values@),
{
    let mut i: usize = 0;
    while i < values.len()
        invariant
            i <= values.len(),
            forall|a: int, b: int|
                0 <= a < b < i ==> #[trigger] values@[a] != #[trigger] values@[b],
        decreases values.len() - i,
    {
        let mut j: usize = 0;
        while j < i
            invariant
                j <= i < values.len(),
                forall|a: int, b: int|
                    0 <= a < b < i ==> #[trigger] values@[a] != #[trigger] values@[b],
                forall|a: int| 0 <= a < j ==> #[trigger] values@[a] != values@[i as int],
            decreases i - j,
        {
            if values[j] == values[i] {
                return true;
            }
            j += 1;
        }
        i += 1;
    }
    false
}

fn has_duplicate_texts(values: &[String]) -> (r: bool)
    ensures
        r == repeats(text::texts(values@)),
{
    let ghost all = text::texts(values@);
    let mut i: usize = 0;
    while i < values.len()
        invariant
            i <= values.len(),
            all == text::texts(values@),
            forall|a: int, b: int| 0 <= a < b < i ==> #[trigger] all[a] != #[trigger] all[b],
        decreases values.len() - i,
    {
        let mut j: usize = 0;
        while j < i
            invariant
                j <= i < values.len(),
                all == text::texts(values@),
                forall|a: int, b: int| 0 <= a < b < i ==> #[trigger] all[a] != #[trigger] all[b],
                forall|a: int| 0 <= a < j ==> #[trigger] all[a] != all[i as int],
            decreases i - j,
        {
            if text::same(values[j].as_str(), values[i].as_str()) {
                proof {
                    assert(all[j as int] == all[i as int]);
                }
                return true;
            }
            j += 1;
        }
        i += 1;
    }
    false
}

fn lists_port(ports: &[u16], port: u16) -> (r: bool)
    ensures
        r == ports@.contains(port),
{
    let mut i: usize = 0;
    while i < ports.len()
        invariant
            i <= ports.len(),
            forall|j: int| 0 <= j < i ==> #[trigger] ports@[j] != port,
        decreases ports.len() - i,
    {
        if ports[i] == port {
            return true;
        }
        i += 1;
    }
    false
}

fn lists_scheme(schemes: &[HttpScheme], scheme: HttpScheme) -> (r: bool)
    ensures
        r == schemes@.contains(scheme),
{
    let mut i: usize = 0;
    while i < schemes.len()
        invariant
            i <= schemes.len(),
            forall|j: int| 0 <= j < i ==> #[trigger] schemes@[j] != scheme,
        decreases schemes.len() - i,
    {
        if schemes[i] == scheme {
            return true;
        }
        i += 1;
    }
    false
}

/// Why an HTTP rule is refused.
pub open spec fn http_rule_failure(rule: HttpEgressRule) -> Option<Seq<char>> {
    checks::or(
        checks::when(
            !(0 < rule.domains@.len() <= 64) || !(0 < rule.schemes@.len() <= 2) || !(0
                < rule.ports@.len() <= 32) || rule.ports@.contains(0) || repeats(
                text::texts(rule.domains@),
            ) || repeats(rule.schemes@) || repeats(rule.ports@),
            "HTTP egress rule has invalid or repeated values"@,
        ),
        checks::first(
            Seq::new(rule.domains@.len(), |i: int| pattern_failure(rule.domains@[i]@)),
        ),
    )
}

fn validate_http_rule(rule: &HttpEgressRule) -> (r: Result<(), String>)
    ensures
        match r {
            Ok(()) => http_rule_failure(*rule) is None,
            Err(reason) => http_rule_failure(*rule) == Some(reason@),
        },
{
    if rule.domains.len() == 0 || rule.domains.len() > 64 || rule.schemes.len() == 0
        || rule.schemes.len() > 2 || rule.ports.len() == 0 || rule.ports.len() > 32 || lists_port(
        rule.ports.as_slice(),
        0,
    ) || has_duplicate_texts(rule.domains.as_slice()) || has_duplicate_schemes(
        rule.schemes.as_slice(),
    ) || has_duplicates(rule.ports.as_slice()) {
        return Err("HTTP egress rule has invalid or repeated values".to_owned());
    }
    let ghost failures = Seq::new(
        rule.domains@.len(),
        |i: int| pattern_failure(rule.domains@[i]@),
    );
    let mut i: usize = 0;
    while i < rule.domains.len()
        invariant
            i <= rule.domains.len(),
            failures == Seq::new(
                rule.domains@.len(),
                |i: int| pattern_failure(rule.domains@[i]@),
            ),
            forall|j: int| 0 <= j < i ==> #[trigger] failures[j] is None,
            http_rule_failure(*rule) == checks::first(failures),
        decreases rule.domains.len() - i,
    {
        match validate_domain_pattern(rule.domains[i].as_str()) {
            Ok(()) => {},
            Err(reason) => {
                proof {
                    checks::lemma_first_at(failures, i as int);
                }
                return Err(reason);
            },
        }
        i += 1;
    }
    proof {
        checks::lemma_first_none(failures);
    }
    Ok(())
}

pub open spec fn http_failures(rules: Seq<HttpEgressRule>) -> Seq<Option<Seq<char>>> {
    Seq::new(rules.len(), |i: int| http_rule_failure(rules[i]))
}

fn validate_http_rules(rules: &Vec<HttpEgressRule>) -> (r: Result<(), String>)
    ensures
        match r {
            Ok(()) => checks::first(http_failures(rules@)) is None,
            Err(reason) => checks::first(http_failures(rules@)) == Some(reason@),
        },
{
    let ghost failures = http_failures(rules@);
    let mut i: usize = 0;
    while i < rules.len()
        invariant
            i <= rules.len(),
            failures == http_failures(rules@),
            forall|j: int| 0 <= j < i ==> #[trigger] failures[j] is None,
        decreases rules.len() - i,
    {
        match validate_http_rule(&rules[i]) {
            Ok(()) => {},
            Err(reason) => {
                proof {
                    checks::lemma_first_at(failures, i as int);
                }
                return Err(reason);
            },
        }
        i += 1;
    }
    proof {
        checks::lemma_first_none(failures);
    }
    Ok(())
}

/// The network is too wide, or reaches into the network of the sandbox itself.
pub open spec fn reaches_infrastructure(cidr: Seq<u8>) -> bool {
    let (network, prefix) = address::cidr_parts(cidr)->0;
    ||| match network {
        IpAddress::V4(value) => prefix < 8 || 0x0a00_0000 <= value <= 0x0aff_ffff,
        IpAddress::V6(_) => prefix < 32,
    }
    ||| address::cidr_covers(cidr, IpAddress::V4(0x0a00_0001))
}

/// Why a TCP rule is refused.
#[verifier::opaque]
pub open spec fn tcp_rule_failure(rule: TcpEgressRule) -> Option<Seq<char>> {
    checks::or(
        address::cidr_failure(rule.destination_cidr@),
        checks::or(
            checks::when(
                reaches_infrastructure(text::utf8(rule.destination_cidr@)),
                "TCP destination CIDR is unrestricted or overlaps sandbox infrastructure"@,
            ),
            checks::when(
                !(0 < rule.ports@.len() <= 32) || rule.ports@.contains(0) || rule.ports@.contains(
                    53,
                ) || rule.ports@.contains(853) || repeats(rule.ports@),
                "TCP egress rule has invalid or repeated ports"@,
            ),
        ),
    )
}

fn validate_tcp_rule(rule: &TcpEgressRule) -> (r: Result<(), String>)
    ensures
        match r {
            Ok(()) => tcp_rule_failure(*rule) is None,
            Err(reason) => tcp_rule_failure(*rule) == Some(reason@),
        },
{
    proof {
        reveal(tcp_rule_failure);
    }
    let cidr = rule.destination_cidr.as_str();
    let (network, prefix) = match validate_cidr(cidr) {
        Ok(parts) => parts,
        Err(reason) => return Err(reason),
    };
    let wide = match network {
        IpAddress::V4(value) => prefix < 8 || (0x0a00_0000 <= value && value <= 0x0aff_ffff),
        IpAddress::V6(_) => prefix < 32,
    };
    let overlaps = match cidr_contains(cidr, IpAddress::V4(0x0a00_0001)) {
        Ok(inside) => inside,
        Err(_) => false,
    };
    if wide || overlaps {
        return Err(
            "TCP destination CIDR is unrestricted or overlaps sandbox infrastructure".to_owned(),
        );
    }
    let ports = rule.ports.as_slice();
    if ports.len() == 0 || ports.len() > 32 || lists_port(ports, 0) || lists_port(ports, 53)
        || lists_port(ports, 853) || has_duplicates(ports) {
        return Err("TCP egress rule has invalid or repeated ports".to_owned());
    }
    Ok(())
}

pub open spec fn tcp_failures(rules: Seq<TcpEgressRule>) -> Seq<Option<Seq<char>>> {
    Seq::new(rules.len(), |i: int| tcp_rule_failure(rules[i]))
}

fn validate_tcp_rules(rules: &Vec<TcpEgressRule>) -> (r: Result<(), String>)
    ensures
        match r {
            Ok(()) => checks::first(tcp_failures(rules@)) is None,
            Err(reason) => checks::first(tcp_failures(rules@)) == Some(reason@),
        },
{
    let ghost failures = tcp_failures(rules@);
    let mut i: usize = 0;
    while i < rules.len()
        invariant
            i <= rules.len(),
            failures == tcp_failures(rules@),
            forall|j: int| 0 <= j < i ==> #[trigger] failures[j] is None,
        decreases rules.len() - i,
    {
        match validate_tcp_rule(&rules[i]) {
            Ok(()) => {},
            Err(reason) => {
                proof {
                    checks::lemma_first_at(failures, i as int);
                }
                return Err(reason);
            },
        }
        i += 1;
    }
    proof {
        checks::lemma_first_none(failures);
    }
    Ok(())
}

/// Why ingress rule `i` is refused.
pub open spec fn ingress_failure(
    rules: Seq<IngressRule>,
    i: int,
    services: Map<Seq<char>, LockedService>,
) -> Option<Seq<char>> {
    checks::when(
        rules[i].container_port == 0 || !services.contains_key(rules[i].service@) || exists|j: int|
            0 <= j < i && (#[trigger] rules[j]).service@ == rules[i].service@
                && rules[j].container_port == rules[i].container_port,
        "ingress rule has an unknown service, invalid port, or duplicate"@,
    )
}

pub open spec fn ingress_failures(
    rules: Seq<IngressRule>,
    services: Map<Seq<char>, LockedService>,
) -> Seq<Option<Seq<char>>> {
    Seq::new(rules.len(), |i: int| ingress_failure(rules, i, services))
}

fn validate_ingress(rules: &Vec<IngressRule>, services: &Table<LockedService>) -> (r: Result<
    (),
    String,
>)
    ensures
        match r {
            Ok(()) => checks::first(ingress_failures(rules@, services@)) is None,
            Err(reason) => checks::first(ingress_failures(rules@, services@)) == Some(reason@),
        },
{
    let ghost failures = ingress_failures(rules@, services@);
    let mut i: usize = 0;
    while i < rules.len()
        invariant
            i <= rules.len(),
            failures == ingress_failures(rules@, services@),
            forall|j: int| 0 <= j < i ==> #[trigger] failures[j] is None,
        decreases rules.len() - i,
    {
        let mut repeated = false;
        let mut j: usize = 0;
        while j < i
            invariant
                j <= i < rules.len(),
                repeated == exists|k: int|
                    0 <= k < j && (#[trigger] rules@[k]).service@ == rules@[i as int].service@
                        && rules@[k].container_port == rules@[i as int].container_port,
            decreases i - j,
        {
            if rules[j].container_port == rules[i].container_port && text::same(
                rules[j].service.as_str(),
                rules[i].service.as_str(),
            ) {
                repeated = true;
                proof {
                    assert(rules@[j as int].service@ == rules@[i as int].service@);
                }
            }
            j += 1;
        }
        if rules[i].container_port == 0 || !services.contains(rules[i].service.as_str())
            || repeated {
            proof {
                checks::lemma_first_at(failures, i as int);
            }
            return Err(
                "ingress rule has an unknown service, invalid port, or duplicate".to_owned(),
            );
        }
        i += 1;
    }
    proof {
        checks::lemma_first_none(failures);
    }
    Ok(())
}

impl NetworkPolicy {
    /// The rules that the profile calls for, and no others.
    pub open spec fn profile_failure(self) -> Option<Seq<char>> {
        match self.profile {
            NetworkProfile::Disabled => checks::when(
                self.http_rules@.len() > 0 || self.tcp_rules@.len() > 0,
                "the none profile cannot contain egress rules"@,
            ),
            NetworkProfile::HttpConnect => checks::when(
                self.http_rules@.len() == 0 || self.tcp_rules@.len() > 0,
                "the http_connect profile requires HTTP rules and forbids TCP rules"@,
            ),
            NetworkProfile::RestrictedTcp => checks::when(
                self.tcp_rules@.len() == 0 || self.http_rules@.len() > 0,
                "the restricted_tcp profile requires TCP rules and forbids HTTP rules"@,
            ),
        }
    }

    /// The accepted bounds of DNS and of egress.
    pub open spec fn limits_accepted(self) -> bool {
        &&& 0 < self.dns.maximum_queries <= 65_536
        &&& 512 <= self.dns.maximum_response_bytes <= 65_535
        &&& self.dns.maximum_response_bytes <= self.dns.maximum_total_bytes <= 1024 * 1024 * 1024
        &&& 0 < self.limits.maximum_connections <= 4_096
        &&& 0 < self.limits.maximum_bytes <= 1024 * 1024 * 1024 * 1024
        &&& 0 < self.limits.bandwidth_bytes_per_second <= 10 * 1024 * 1024 * 1024
    }

    /// Why the policy is refused for a topology with `services`.
    pub open spec fn failure(self, services: Map<Seq<char>, LockedService>) -> Option<Seq<char>> {
        checks::or(
            checks::when(
                self.http_rules@.len() > 64 || self.tcp_rules@.len() > 64 || self.ingress@.len()
                    > 16,
                "network policy contains too many rules"@,
            ),
            checks::or(
                self.profile_failure(),
                checks::or(
                    checks::first(http_failures(self.http_rules@)),
                    checks::or(
                        checks::first(tcp_failures(self.tcp_rules@)),
                        checks::or(
                            checks::when(
                                !self.limits_accepted(),
                                "network limits are outside their accepted bounds"@,
                            ),
                            checks::first(ingress_failures(self.ingress@, services)),
                        ),
                    ),
                ),
            ),
        )
    }

    /// Accepts the policies that are consistent, bounded, and about `services`.
    pub fn validate(&self, services: &Table<LockedService>) -> (r: Result<(), String>)
        ensures
            match r {
                Ok(()) => self.failure(services@) is None,
                Err(reason) => self.failure(services@) == Some(reason@),
            },
    {
        if self.http_rules.len() > 64 || self.tcp_rules.len() > 64 || self.ingress.len() > 16 {
            return Err("network policy contains too many rules".to_owned());
        }
        match self.profile {
            NetworkProfile::Disabled => {
                if self.http_rules.len() > 0 || self.tcp_rules.len() > 0 {
                    return Err("the none profile cannot contain egress rules".to_owned());
                }
            },
            NetworkProfile::HttpConnect => {
                if self.http_rules.len() == 0 || self.tcp_rules.len() > 0 {
                    return Err(
                        "the http_connect profile requires HTTP rules and forbids TCP rules".to_owned(),
                    );
                }
            },
            NetworkProfile::RestrictedTcp => {
                if self.tcp_rules.len() == 0 || self.http_rules.len() > 0 {
                    return Err(
                        "the restricted_tcp profile requires TCP rules and forbids HTTP rules".to_owned(),
                    );
                }
            },
        }
        match validate_http_rules(&self.http_rules) {
            Ok(()) => {},
            Err(reason) => return Err(reason),
        }
        match validate_tcp_rules(&self.tcp_rules) {
            Ok(()) => {},
            Err(reason) => return Err(reason),
        }
        if self.dns.maximum_queries == 0 || self.dns.maximum_queries > 65_536
            || self.dns.maximum_response_bytes < 512 || self.dns.maximum_response_bytes > 65_535
            || self.dns.maximum_total_bytes < self.dns.maximum_response_bytes as u64
            || self.dns.maximum_total_bytes > 1024 * 1024 * 1024 || self.limits.maximum_connections
            == 0 || self.limits.maximum_connections > 4_096 || self.limits.maximum_bytes == 0
            || self.limits.maximum_bytes > 1024 * 1024 * 1024 * 1024
            || self.limits.bandwidth_bytes_per_second == 0 || self.limits.bandwidth_bytes_per_second
            > 10 * 1024 * 1024 * 1024 {
            return Err("network limits are outside their accepted bounds".to_owned());
        }
        validate_ingress(&self.ingress, services)
    }

    /// Some rule opens `port` of `domain` under `scheme`.
    pub open spec fn opens_http(self, domain: Seq<char>, scheme: HttpScheme, port: u16) -> bool {
        let name = without_final_dot(text::utf8(domain));
        &&& self.profile is HttpConnect
        &&& is_domain(name)
        &&& exists|i: int|
            0 <= i < self.http_rules@.len() && (#[trigger] self.http_rules@[i]).schemes@.contains(
                scheme,
            ) && self.http_rules@[i].ports@.contains(port) && rule_covers(
                self.http_rules@[i],
                name,
            )
    }

    /// Some HTTP rule is about `domain`.
    pub open spec fn resolves(self, domain: Seq<char>) -> bool {
        let name = without_final_dot(text::utf8(domain));
        &&& is_domain(name)
        &&& exists|i: int|
            0 <= i < self.http_rules@.len() && rule_covers(#[trigger] self.http_rules@[i], name)
    }

    /// Some TCP rule opens `port` of `destination`.
    pub open spec fn opens_tcp(self, destination: IpAddress, port: u16) -> bool {
        &&& self.profile is RestrictedTcp
        &&& exists|i: int|
            0 <= i < self.tcp_rules@.len() && (#[trigger] self.tcp_rules@[i]).ports@.contains(port)
                && address::cidr_covers(
                text::utf8(self.tcp_rules@[i].destination_cidr@),
                destination,
            )
    }

    /// Whether an HTTP request may leave the sandbox.
    pub fn permits_http(&self, domain: &str, scheme: HttpScheme, port: u16) -> (r: bool)
        ensures
            r == self.opens_http(domain@, scheme, port),
    {
        match self.profile {
            NetworkProfile::HttpConnect => {},
            _ => return false,
        }
        let name = match canonical_domain(domain) {
            Some(name) => name,
            None => return false,
        };
        let mut i: usize = 0;
        while i < self.http_rules.len()
            invariant
                i <= self.http_rules.len(),
                self.profile is HttpConnect,
                is_domain(text::utf8(name@)),
                text::utf8(name@) == without_final_dot(text::utf8(domain@)),
                forall|j: int|
                    0 <= j < i ==> !((#[trigger] self.http_rules@[j]).schemes@.contains(scheme)
                        && self.http_rules@[j].ports@.contains(port) && rule_covers(
                        self.http_rules@[j],
                        text::utf8(name@),
                    )),
            decreases self.http_rules.len() - i,
        {
            let rule = &self.http_rules[i];
            if lists_scheme(rule.schemes.as_slice(), scheme) && lists_port(
                rule.ports.as_slice(),
                port,
            ) && covered(rule, name) {
                return true;
            }
            i += 1;
        }
        false
    }

    /// Whether the sandbox may look up a name.
    pub fn permits_dns_name(&self, domain: &str) -> (r: bool)
        ensures
            r == self.resolves(domain@),
    {
        let name = match canonical_domain(domain) {
            Some(name) => name,
            None => return false,
        };
        let mut i: usize = 0;
        while i < self.http_rules.len()
            invariant
                i <= self.http_rules.len(),
                is_domain(text::utf8(name@)),
                text::utf8(name@) == without_final_dot(text::utf8(domain@)),
                forall|j: int|
                    0 <= j < i ==> !rule_covers(
                        #[trigger] self.http_rules@[j],
                        text::utf8(name@),
                    ),
            decreases self.http_rules.len() - i,
        {
            if covered(&self.http_rules[i], name) {
                return true;
            }
            i += 1;
        }
        false
    }

    /// Whether a TCP connection may leave the sandbox.
    pub fn permits_tcp(&self, destination: IpAddress, port: u16) -> (r: bool)
        ensures
            r == self.opens_tcp(destination, port),
    {
        match self.profile {
            NetworkProfile::RestrictedTcp => {},
            _ => return false,
        }
        let mut i: usize = 0;
        while i < self.tcp_rules.len()
            invariant
                i <= self.tcp_rules.len(),
                self.profile is RestrictedTcp,
                forall|j: int|
                    0 <= j < i ==> !((#[trigger] self.tcp_rules@[j]).ports@.contains(port)
                        && address::cidr_covers(
                        text::utf8(self.tcp_rules@[j].destination_cidr@),
                        destination,
                    )),
            decreases self.tcp_rules.len() - i,
        {
            let rule = &self.tcp_rules[i];
            if lists_port(rule.ports.as_slice(), port) {
                match cidr_contains(rule.destination_cidr.as_str(), destination) {
                    Ok(inside) => {
                        if inside {
                            return true;
                        }
                    },
                    Err(_) => {},
                }
            }
            i += 1;
        }
        false
    }
}

fn covered(rule: &HttpEgressRule, domain: &str) -> (r: bool)
    ensures
        r == rule_covers(*rule, text::utf8(domain@)),
{
    let mut i: usize = 0;
    while i < rule.domains.len()
        invariant
            i <= rule.domains.len(),
            forall|j: int|
                0 <= j < i ==> !pattern_covers(
                    text::utf8(#[trigger] rule.domains@[j]@),
                    text::utf8(domain@),
                ),
        decreases rule.domains.len() - i,
    {
        if domain_matches(rule.domains[i].as_str(), domain) {
            return true;
        }
        i += 1;
    }
    false
}

/// A policy without rules opens nothing.
pub proof fn law_no_rules_no_egress(
    policy: NetworkPolicy,
    domain: Seq<char>,
    scheme: HttpScheme,
    destination: IpAddress,
    port: u16,
)
    requires
        policy.http_rules@.len() == 0,
        policy.tcp_rules@.len() == 0,
    ensures
        !policy.opens_http(domain, scheme, port),
        !policy.resolves(domain),
        !policy.opens_tcp(destination, port),
{
}

/// An accepted policy never opens the sandbox network, which is 10.0.0.0/8, DNS ports or port zero
/// over TCP.
pub proof fn law_accepted_tcp_rules_spare_infrastructure(
    policy: NetworkPolicy,
    services: Map<Seq<char>, LockedService>,
    destination: IpAddress,
    port: u16,
)
    requires
        policy.failure(services) is None,
        policy.opens_tcp(destination, port),
    ensures
        !(destination matches IpAddress::V4(value) && 0x0a00_0000 <= value <= 0x0aff_ffff),
        port != 0,
        port != 53,
        port != 853,
{
    reveal(tcp_rule_failure);
    let failures = tcp_failures(policy.tcp_rules@);
    let i = choose|i: int|
        0 <= i < policy.tcp_rules@.len() && (#[trigger] policy.tcp_rules@[i]).ports@.contains(port)
            && address::cidr_covers(
            text::utf8(policy.tcp_rules@[i].destination_cidr@),
            destination,
        );
    checks::lemma_first_passes(failures, i);
    assert(failures[i] == tcp_rule_failure(policy.tcp_rules@[i]));
    let cidr = text::utf8(policy.tcp_rules@[i].destination_cidr@);
    let (network, prefix) = address::cidr_parts(cidr)->0;
    match destination {
        IpAddress::V4(value) => {
            let shift = (32 - prefix) as u32;
            assert(0x0a00_0000 <= value <= 0x0aff_ffff ==> 0x0a00_0000 <= value & (0xffff_ffffu32
                << shift) <= 0x0aff_ffff) by (bit_vector)
                requires
                    shift <= 24,
            ;
        },
        IpAddress::V6(_) => {},
    }
}

/// An HTTP request that is permitted is to a name that may be looked up.
pub proof fn law_reachable_names_resolve(
    policy: NetworkPolicy,
    domain: Seq<char>,
    scheme: HttpScheme,
    port: u16,
)
    requires
        policy.opens_http(domain, scheme, port),
    ensures
        policy.resolves(domain),
{
}

/// A wildcard covers whole labels below its name, never the name itself.
pub proof fn law_wildcard_covers_labels_below(pattern: Seq<u8>, domain: Seq<u8>)
    requires
        pattern.len() >= 2,
        pattern[0] == 42,
        pattern[1] == 46,
        pattern_covers(pattern, domain),
    ensures
        domain != pattern_name(pattern),
        domain.len() > pattern_name(pattern).len(),
        domain[domain.len() - pattern_name(pattern).len() - 1] == 46,
{
    let suffix = pattern.skip(1);
    assert(domain.subrange(domain.len() - suffix.len(), domain.len() as int)[0] == suffix[0]);
}

/// What is permitted over HTTP is opened by one rule in all respects: it lists the port and the
/// scheme, and one of its patterns is the name itself or `*` before a dot and what the name ends
/// with. Whatever one rule so opens is permitted.
pub proof fn law_http_egress_is_opened_by_one_rule(
    policy: NetworkPolicy,
    domain: Seq<char>,
    scheme: HttpScheme,
    port: u16,
)
    ensures
        policy.opens_http(domain, scheme, port) ==> policy.profile is HttpConnect && exists|
            i: int,
            j: int,
        |
            #![trigger policy.http_rules@[i].domains@[j]]
            {
                let rule = policy.http_rules@[i];
                let pattern = text::utf8(rule.domains@[j]@);
                let name = without_final_dot(text::utf8(domain));
                &&& 0 <= i < policy.http_rules@.len()
                &&& rule.ports@.contains(port)
                &&& rule.schemes@.contains(scheme)
                &&& 0 <= j < rule.domains@.len()
                &&& pattern == name || {
                    &&& 2 <= pattern.len() <= name.len() + 1
                    &&& pattern[0] == 42
                    &&& pattern[1] == 46
                    &&& pattern.skip(1) == name.skip(name.len() - (pattern.len() - 1))
                }
            },
        forall|i: int, j: int|
            #![trigger policy.http_rules@[i].domains@[j]]
            {
                let rule = policy.http_rules@[i];
                let pattern = text::utf8(rule.domains@[j]@);
                let name = without_final_dot(text::utf8(domain));
                &&& policy.profile is HttpConnect
                &&& is_domain(name)
                &&& 0 <= i < policy.http_rules@.len()
                &&& rule.ports@.contains(port)
                &&& rule.schemes@.contains(scheme)
                &&& 0 <= j < rule.domains@.len()
                &&& pattern == name || {
                    &&& 2 <= pattern.len() <= name.len() + 1
                    &&& pattern[0] == 42
                    &&& pattern[1] == 46
                    &&& pattern.skip(1) == name.skip(name.len() - (pattern.len() - 1))
                }
            } ==> policy.opens_http(domain, scheme, port),
        !(exists|i: int|
            0 <= i < policy.http_rules@.len() && (#[trigger] policy.http_rules@[i]).ports@.contains(
                port,
            )) ==> !policy.opens_http(domain, scheme, port),
{
    let name = without_final_dot(text::utf8(domain));
    if policy.opens_http(domain, scheme, port) {
        let i = choose|i: int|
            0 <= i < policy.http_rules@.len() && (#[trigger] policy.http_rules@[i]).schemes@.contains(
                scheme,
            ) && policy.http_rules@[i].ports@.contains(port) && rule_covers(
                policy.http_rules@[i],
                name,
            );
        let rule = policy.http_rules@[i];
        let j = choose|j: int|
            0 <= j < rule.domains@.len() && pattern_covers(
                text::utf8(#[trigger] rule.domains@[j]@),
                name,
            );
        let pattern = text::utf8(policy.http_rules@[i].domains@[j]@);
        if pattern != name {
            assert(name.skip(name.len() - (pattern.len() - 1)) =~= name.subrange(
                name.len() - (pattern.len() - 1),
                name.len() as int,
            ));
        }
    }
    assert forall|i: int, j: int|
        #![trigger policy.http_rules@[i].domains@[j]]
        {
            let rule = policy.http_rules@[i];
            let pattern = text::utf8(rule.domains@[j]@);
            &&& policy.profile is HttpConnect
            &&& is_domain(name)
            &&& 0 <= i < policy.http_rules@.len()
            &&& rule.ports@.contains(port)
            &&& rule.schemes@.contains(scheme)
            &&& 0 <= j < rule.domains@.len()
            &&& pattern == name || {
                &&& 2 <= pattern.len() <= name.len() + 1
                &&& pattern[0] == 42
                &&& pattern[1] == 46
                &&& pattern.skip(1) == name.skip(name.len() - (pattern.len() - 1))
            }
        } implies policy.opens_http(domain, scheme, port) by {
        let rule = policy.http_rules@[i];
        let pattern = text::utf8(rule.domains@[j]@);
        lemma_matching_covers(pattern, name);
        assert(rule_covers(rule, name));
    }
}

/// A pattern that is the name, or `*` before a dot and what the name ends with, covers the name.
proof fn lemma_matching_covers(pattern: Seq<u8>, name: Seq<u8>)
    requires
        is_domain(name),
        pattern == name || {
            &&& 2 <= pattern.len() <= name.len() + 1
            &&& pattern[0] == 42
            &&& pattern[1] == 46
            &&& pattern.skip(1) == name.skip(name.len() - (pattern.len() - 1))
        },
    ensures
        pattern_covers(pattern, name),
{
    if pattern.len() >= 2 && pattern[0] == 42 && pattern[1] == 46 {
        if pattern == name {
            lemma_no_domain_starts_with_a_star(name);
        }
        assert(name.skip(name.len() - (pattern.len() - 1)) =~= name.subrange(
            name.len() - (pattern.len() - 1),
            name.len() as int,
        ));
    }
}

/// Domain names hold no `*`.
proof fn lemma_no_domain_starts_with_a_star(name: Seq<u8>)
    requires
        is_domain(name),
    ensures
        name[0] != 42,
{
    text::lemma_find(name, 46);
    let at = text::find(name, 46);
    let first = text::split(name, 46)[0];
    assert(is_label(first));
    if name[0] == 42 {
        assert(first[0] == 42);
        assert(!Alphabet::HostLabel.admits(first[0]));
    }
}

/// A name may be looked up exactly where some rule has a pattern that covers it, whatever ports
/// and schemes the rule lists.
pub proof fn law_names_resolve_where_a_pattern_covers_them(
    policy: NetworkPolicy,
    domain: Seq<char>,
)
    ensures
        policy.resolves(domain) <==> {
            let name = without_final_dot(text::utf8(domain));
            &&& is_domain(name)
            &&& exists|i: int, j: int|
                #![trigger policy.http_rules@[i].domains@[j]]
                0 <= i < policy.http_rules@.len() && 0 <= j < policy.http_rules@[i].domains@.len()
                    && {
                    let pattern = text::utf8(policy.http_rules@[i].domains@[j]@);
                    pattern == name || {
                        &&& 2 <= pattern.len() <= name.len() + 1
                        &&& pattern[0] == 42
                        &&& pattern[1] == 46
                        &&& pattern.skip(1) == name.skip(name.len() - (pattern.len() - 1))
                    }
                }
        },
{
    let name = without_final_dot(text::utf8(domain));
    if policy.resolves(domain) {
        let i = choose|i: int|
            0 <= i < policy.http_rules@.len() && rule_covers(#[trigger] policy.http_rules@[i], name);
        let rule = policy.http_rules@[i];
        let j = choose|j: int|
            0 <= j < rule.domains@.len() && pattern_covers(
                text::utf8(#[trigger] rule.domains@[j]@),
                name,
            );
        let pattern = text::utf8(policy.http_rules@[i].domains@[j]@);
        if pattern != name {
            assert(name.skip(name.len() - (pattern.len() - 1)) =~= name.subrange(
                name.len() - (pattern.len() - 1),
                name.len() as int,
            ));
        }
    }
    if is_domain(name) && exists|i: int, j: int|
        #![trigger policy.http_rules@[i].domains@[j]]
        0 <= i < policy.http_rules@.len() && 0 <= j < policy.http_rules@[i].domains@.len() && {
            let pattern = text::utf8(policy.http_rules@[i].domains@[j]@);
            pattern == name || {
                &&& 2 <= pattern.len() <= name.len() + 1
                &&& pattern[0] == 42
                &&& pattern[1] == 46
                &&& pattern.skip(1) == name.skip(name.len() - (pattern.len() - 1))
            }
        } {
        let (i, j) = choose|i: int, j: int|
            #![trigger policy.http_rules@[i].domains@[j]]
            0 <= i < policy.http_rules@.len() && 0 <= j < policy.http_rules@[i].domains@.len() && {
                let pattern = text::utf8(policy.http_rules@[i].domains@[j]@);
                pattern == name || {
                    &&& 2 <= pattern.len() <= name.len() + 1
                    &&& pattern[0] == 42
                    &&& pattern[1] == 46
                    &&& pattern.skip(1) == name.skip(name.len() - (pattern.len() - 1))
                }
            };
        let rule = policy.http_rules@[i];
        lemma_matching_covers(text::utf8(rule.domains@[j]@), name);
        assert(rule_covers(rule, name));
    }
}

/// What is permitted over TCP is opened by one rule that lists the port and whose network is of
/// the family of the destination and agrees with it in all bits of the prefix. Whatever one rule
/// so opens is permitted.
pub proof fn law_tcp_egress_is_opened_by_one_rule(
    policy: NetworkPolicy,
    destination: IpAddress,
    port: u16,
)
    ensures
        policy.opens_tcp(destination, port) <==> policy.profile is RestrictedTcp && exists|i: int|
            0 <= i < policy.tcp_rules@.len() && (#[trigger] policy.tcp_rules@[i]).ports@.contains(
                port,
            ) && address::cidr_failure(policy.tcp_rules@[i].destination_cidr@) is None && {
                let (network, prefix) = address::cidr_parts(
                    text::utf8(policy.tcp_rules@[i].destination_cidr@),
                )->0;
                match (network, destination) {
                    (IpAddress::V4(own), IpAddress::V4(value)) => prefix == 0 || own >> ((32
                        - prefix) as u32) == value >> ((32 - prefix) as u32),
                    (IpAddress::V6(own), IpAddress::V6(value)) => prefix == 0 || own >> ((128
                        - prefix) as u32) == value >> ((128 - prefix) as u32),
                    _ => false,
                }
            },
{
    assert forall|i: int| 0 <= i < policy.tcp_rules@.len() implies (address::cidr_covers(
        text::utf8((#[trigger] policy.tcp_rules@[i]).destination_cidr@),
        destination,
    ) <==> address::cidr_failure(policy.tcp_rules@[i].destination_cidr@) is None && {
        let (network, prefix) = address::cidr_parts(
            text::utf8(policy.tcp_rules@[i].destination_cidr@),
        )->0;
        match (network, destination) {
            (IpAddress::V4(own), IpAddress::V4(value)) => prefix == 0 || own >> ((32
                - prefix) as u32) == value >> ((32 - prefix) as u32),
            (IpAddress::V6(own), IpAddress::V6(value)) => prefix == 0 || own >> ((128
                - prefix) as u32) == value >> ((128 - prefix) as u32),
            _ => false,
        }
    }) by {
        let cidr = text::utf8(policy.tcp_rules@[i].destination_cidr@);
        if address::canonical_cidr(cidr) {
            address::law_networks_hold_what_shares_their_prefix(cidr, destination);
        }
    }
}

/// Lower-case letters, digits, `-` and `.`, where no `.` and no `-` ends the name or stands beside a
/// `.`, and 64 bytes in a row hold a `.` among them.
pub open spec fn reads_as_labels(bytes: Seq<u8>) -> bool {
    &&& bytes.len() > 0
    &&& forall|i: int|
        0 <= i < bytes.len() ==> 97 <= (#[trigger] bytes[i]) <= 122 || 48 <= bytes[i] <= 57
            || bytes[i] == 45 || bytes[i] == 46
    &&& bytes[0] != 45
    &&& bytes[0] != 46
    &&& bytes.last() != 45
    &&& bytes.last() != 46
    &&& forall|i: int|
        0 <= i < bytes.len() - 1 ==> !(#[trigger] bytes[i] == 46 && (bytes[i + 1] == 46 || bytes[i
            + 1] == 45)) && !(bytes[i] == 45 && bytes[i + 1] == 46)
    &&& forall|i: int|
        0 <= i <= bytes.len() - 64 ==> #[trigger] text::has_byte(bytes.subrange(i, i + 64), 46)
}

/// A name whose first label is `bytes.take(at)` reads as labels exactly where that label is one and
/// the rest reads as labels.
proof fn lemma_first_label(bytes: Seq<u8>, at: int)
    requires
        0 <= at < bytes.len(),
        bytes[at] == 46,
        forall|j: int| 0 <= j < at ==> #[trigger] bytes[j] != 46,
    ensures
        reads_as_labels(bytes) <==> is_label(bytes.take(at)) && reads_as_labels(bytes.skip(at + 1)),
{
    let label = bytes.take(at);
    let rest = bytes.skip(at + 1);
    if reads_as_labels(bytes) {
        assert(bytes[0] == label[0]);
        assert(bytes[at - 1] != 45 || bytes[at] != 46);
        assert(label.last() == bytes[at - 1]);
        if at > 63 {
            let zero = 0int;
            assert(text::has_byte(bytes.subrange(zero, zero + 64), 46));
            let k = choose|k: int| 0 <= k < 64 && #[trigger] bytes.subrange(0, 64)[k] == 46;
            assert(bytes[k] == 46);
        }
        assert forall|i: int| 0 <= i < label.len() implies Alphabet::HostLabel.admits(
            #[trigger] label[i],
        ) by {
            assert(label[i] == bytes[i]);
        }
        assert(rest.len() > 0);
        assert(rest[0] == bytes[at + 1]);
        assert(rest.last() == bytes.last());
        assert forall|i: int| 0 <= i < rest.len() implies 97 <= (#[trigger] rest[i]) <= 122 || 48
            <= rest[i] <= 57 || rest[i] == 45 || rest[i] == 46 by {
            assert(rest[i] == bytes[at + 1 + i]);
        }
        assert forall|i: int| 0 <= i < rest.len() - 1 implies !(#[trigger] rest[i] == 46 && (rest[i
            + 1] == 46 || rest[i + 1] == 45)) && !(rest[i] == 45 && rest[i + 1] == 46) by {
            assert(rest[i] == bytes[at + 1 + i]);
            assert(rest[i + 1] == bytes[at + 1 + i + 1]);
        }
        assert forall|i: int| 0 <= i <= rest.len() - 64 implies #[trigger] text::has_byte(
            rest.subrange(i, i + 64),
            46,
        ) by {
            let from = at + 1 + i;
            assert(text::has_byte(bytes.subrange(from, from + 64), 46));
            assert(bytes.subrange(from, from + 64) =~= rest.subrange(i, i + 64));
        }
    }
    if is_label(label) && reads_as_labels(rest) {
        assert(bytes[0] == label[0]);
        assert(bytes.last() == rest.last());
        assert forall|i: int| 0 <= i < bytes.len() implies 97 <= (#[trigger] bytes[i]) <= 122 || 48
            <= bytes[i] <= 57 || bytes[i] == 45 || bytes[i] == 46 by {
            if i < at {
                assert(Alphabet::HostLabel.admits(label[i]));
            } else if i > at {
                assert(rest[i - at - 1] == bytes[i]);
            }
        }
        assert forall|i: int| 0 <= i < bytes.len() - 1 implies !(#[trigger] bytes[i] == 46 && (
        bytes[i + 1] == 46 || bytes[i + 1] == 45)) && !(bytes[i] == 45 && bytes[i + 1] == 46) by {
            if i < at {
                assert(i == at - 1 ==> bytes[i] == label.last());
                assert(i < at - 1 ==> bytes[i + 1] == label[i + 1]);
            } else if i == at {
                assert(bytes[i + 1] == rest[0]);
            } else {
                assert(rest[i - at - 1] == bytes[i]);
                assert(rest[i - at - 1 + 1] == bytes[i + 1]);
            }
        }
        assert forall|i: int| 0 <= i <= bytes.len() - 64 implies #[trigger] text::has_byte(
            bytes.subrange(i, i + 64),
            46,
        ) by {
            if i <= at {
                assert(bytes.subrange(i, i + 64)[at - i] == 46);
            } else {
                let from = i - at - 1;
                assert(text::has_byte(rest.subrange(from, from + 64), 46));
                assert(bytes.subrange(i, i + 64) =~= rest.subrange(from, from + 64));
            }
        }
    }
}

/// A name without a dot reads as labels exactly where it is one.
proof fn lemma_only_label(bytes: Seq<u8>)
    requires
        forall|j: int| 0 <= j < bytes.len() ==> #[trigger] bytes[j] != 46,
    ensures
        reads_as_labels(bytes) <==> is_label(bytes),
{
    if reads_as_labels(bytes) && bytes.len() > 63 {
        let zero = 0int;
        assert(text::has_byte(bytes.subrange(zero, zero + 64), 46));
        let k = choose|k: int| 0 <= k < 64 && #[trigger] bytes.subrange(0, 64)[k] == 46;
        assert(bytes[k] == 46);
    }
    if reads_as_labels(bytes) {
        assert forall|i: int| 0 <= i < bytes.len() implies Alphabet::HostLabel.admits(
            #[trigger] bytes[i],
        ) by {}
    }
    if is_label(bytes) {
        assert forall|i: int| 0 <= i < bytes.len() implies 97 <= (#[trigger] bytes[i]) <= 122 || 48
            <= bytes[i] <= 57 || bytes[i] == 45 || bytes[i] == 46 by {
            assert(Alphabet::HostLabel.admits(bytes[i]));
        }
    }
}

proof fn lemma_labels(bytes: Seq<u8>)
    ensures
        reads_as_labels(bytes) <==> forall|i: int|
            0 <= i < text::split(bytes, 46).len() ==> is_label(#[trigger] text::split(bytes, 46)[i]),
    decreases bytes.len(),
{
    text::lemma_find(bytes, 46);
    let at = text::find(bytes, 46);
    let all = text::split(bytes, 46);
    if at < bytes.len() {
        let rest = bytes.skip(at + 1);
        let later = text::split(rest, 46);
        lemma_first_label(bytes, at);
        lemma_labels(rest);
        assert(all == seq![bytes.take(at)] + later);
        assert(all[0] == bytes.take(at));
        assert(forall|i: int| 0 <= i < later.len() ==> #[trigger] later[i] == all[i + 1]);
        if is_label(bytes.take(at)) && reads_as_labels(rest) {
            assert forall|i: int| 0 <= i < all.len() implies is_label(#[trigger] all[i]) by {
                if i > 0 {
                    assert(all[i] == later[i - 1]);
                }
            }
        }
        if forall|i: int| 0 <= i < all.len() ==> is_label(#[trigger] all[i]) {
            assert(is_label(all[0]));
            assert forall|i: int| 0 <= i < later.len() implies is_label(#[trigger] later[i]) by {
                assert(is_label(all[i + 1]));
            }
        }
    } else {
        lemma_only_label(bytes);
        assert(all =~= seq![bytes]);
        assert(all[0] == bytes);
    }
}

/// A domain name is 1 to 253 bytes that read as labels.
pub proof fn law_domains_read_as_labels(bytes: Seq<u8>)
    ensures
        is_domain(bytes) <==> bytes.len() <= 253 && reads_as_labels(bytes),
{
    lemma_labels(bytes);
}

/// An HTTP rule is accepted exactly where it lists 1 to 64 patterns over domain names that are no
/// addresses, one or both schemes and 1 to 32 ports, none of them zero and nothing twice.
pub proof fn law_accepted_http_rules_are_bounded(rule: HttpEgressRule)
    ensures
        http_rule_failure(rule) is None <==> {
            &&& 1 <= rule.domains@.len() <= 64
            &&& 1 <= rule.schemes@.len() <= 2
            &&& 1 <= rule.ports@.len() <= 32
            &&& forall|i: int| 0 <= i < rule.ports@.len() ==> #[trigger] rule.ports@[i] != 0
            &&& forall|i: int, j: int|
                0 <= i < j < rule.ports@.len() ==> #[trigger] rule.ports@[i]
                    != #[trigger] rule.ports@[j]
            &&& forall|i: int, j: int|
                0 <= i < j < rule.schemes@.len() ==> #[trigger] rule.schemes@[i]
                    != #[trigger] rule.schemes@[j]
            &&& forall|i: int, j: int|
                0 <= i < j < rule.domains@.len() ==> (#[trigger] rule.domains@[i])@ != (
                #[trigger] rule.domains@[j])@
            &&& forall|i: int|
                0 <= i < rule.domains@.len() ==> {
                    let pattern = text::utf8((#[trigger] rule.domains@[i])@);
                    &&& pattern.len() >= 2 && pattern[0] == '*' as u8 && pattern[1] == '.' as u8
                        ==> is_domain(pattern.skip(2)) && address::address_of(pattern.skip(2))
                        is None
                    &&& !(pattern.len() >= 2 && pattern[0] == '*' as u8 && pattern[1] == '.' as u8)
                        ==> is_domain(pattern) && address::address_of(pattern) is None
                }
        },
{
    let failures = Seq::new(rule.domains@.len(), |i: int| pattern_failure(rule.domains@[i]@));
    checks::lemma_first(failures);
    let texts = text::texts(rule.domains@);
    assert(repeats(texts) <==> exists|i: int, j: int|
        0 <= i < j < rule.domains@.len() && (#[trigger] rule.domains@[i])@ == (
        #[trigger] rule.domains@[j])@) by {
        if repeats(texts) {
            let (i, j) = choose|i: int, j: int|
                0 <= i < j < texts.len() && #[trigger] texts[i] == #[trigger] texts[j];
            assert(rule.domains@[i]@ == rule.domains@[j]@);
        }
        if exists|i: int, j: int|
            0 <= i < j < rule.domains@.len() && (#[trigger] rule.domains@[i])@ == (
            #[trigger] rule.domains@[j])@ {
            let (i, j) = choose|i: int, j: int|
                0 <= i < j < rule.domains@.len() && (#[trigger] rule.domains@[i])@ == (
                #[trigger] rule.domains@[j])@;
            assert(texts[i] == texts[j]);
        }
    }
    if http_rule_failure(rule) is None {
        assert forall|i: int| 0 <= i < rule.domains@.len() implies {
            let pattern = text::utf8((#[trigger] rule.domains@[i])@);
            &&& pattern.len() >= 2 && pattern[0] == '*' as u8 && pattern[1] == '.' as u8
                ==> is_domain(pattern.skip(2)) && address::address_of(pattern.skip(2)) is None
            &&& !(pattern.len() >= 2 && pattern[0] == '*' as u8 && pattern[1] == '.' as u8)
                ==> is_domain(pattern) && address::address_of(pattern) is None
        } by {
            assert(failures[i] is None);
        }
    }
}

/// A TCP rule is accepted exactly where its network is canonical, not wider than 8 bits of a V4 or
/// 32 bits of a V6 address, and apart from 10.0.0.0/8, and it lists 1 to 32 ports, nothing twice and
/// neither zero nor a port of DNS.
pub proof fn law_accepted_tcp_rules_are_narrow(rule: TcpEgressRule)
    ensures
        tcp_rule_failure(rule) is None <==> {
            let (network, prefix) = address::cidr_parts(text::utf8(rule.destination_cidr@))->0;
            &&& address::cidr_failure(rule.destination_cidr@) is None
            &&& network matches IpAddress::V4(value) ==> prefix >= 8 && !(167_772_160 <= value
                <= 184_549_375)
            &&& network is V6 ==> prefix >= 32
            &&& 1 <= rule.ports@.len() <= 32
            &&& forall|i: int|
                0 <= i < rule.ports@.len() ==> #[trigger] rule.ports@[i] != 0 && rule.ports@[i]
                    != 53 && rule.ports@[i] != 853
            &&& forall|i: int, j: int|
                0 <= i < j < rule.ports@.len() ==> #[trigger] rule.ports@[i]
                    != #[trigger] rule.ports@[j]
        },
{
    reveal(tcp_rule_failure);
    let cidr = text::utf8(rule.destination_cidr@);
    if address::cidr_failure(rule.destination_cidr@) is None {
        let (network, prefix) = address::cidr_parts(cidr)->0;
        match network {
            IpAddress::V4(value) => {
                if prefix >= 8 && address::cidr_covers(cidr, IpAddress::V4(0x0a00_0001)) {
                    let shift = (32 - prefix) as u32;
                    assert(0x0a00_0001u32 & (0xffff_ffffu32 << shift) >= 0x0a00_0000
                        && 0x0a00_0001u32 & (0xffff_ffffu32 << shift) <= 0x0aff_ffff)
                        by (bit_vector)
                        requires
                            shift <= 24,
                    ;
                }
            },
            IpAddress::V6(_) => {},
        }
    }
    assert(rule.ports@.contains(0) ==> exists|i: int|
        0 <= i < rule.ports@.len() && #[trigger] rule.ports@[i] == 0);
}

/// A policy is accepted exactly where it has up to 64 rules for egress of a kind and 16 for ingress,
/// rules of the kind that its profile calls for and no others, rules that are all accepted, bounded
/// limits, and ingress to known services, nowhere twice and never at port zero.
pub proof fn law_accepted_policies_are_bounded(
    policy: NetworkPolicy,
    services: Map<Seq<char>, LockedService>,
)
    ensures
        policy.failure(services) is None <==> {
            let http = policy.http_rules@;
            let tcp = policy.tcp_rules@;
            let ingress = policy.ingress@;
            &&& http.len() <= 64
            &&& tcp.len() <= 64
            &&& ingress.len() <= 16
            &&& http.len() > 0 <==> policy.profile is HttpConnect
            &&& tcp.len() > 0 <==> policy.profile is RestrictedTcp
            &&& forall|i: int| 0 <= i < http.len() ==> http_rule_failure(#[trigger] http[i]) is None
            &&& forall|i: int| 0 <= i < tcp.len() ==> tcp_rule_failure(#[trigger] tcp[i]) is None
            &&& 1 <= policy.dns.maximum_queries <= 65_536
            &&& 512 <= policy.dns.maximum_response_bytes <= 65_535
            &&& policy.dns.maximum_response_bytes <= policy.dns.maximum_total_bytes
            &&& policy.dns.maximum_total_bytes <= 1_073_741_824
            &&& 1 <= policy.limits.maximum_connections <= 4_096
            &&& 1 <= policy.limits.maximum_bytes <= 1_099_511_627_776
            &&& 1 <= policy.limits.bandwidth_bytes_per_second <= 10_737_418_240
            &&& forall|i: int|
                0 <= i < ingress.len() ==> (#[trigger] ingress[i]).container_port != 0
                    && services.contains_key(ingress[i].service@)
            &&& forall|i: int, j: int|
                0 <= i < j < ingress.len() ==> (#[trigger] ingress[i]).service@ != (
                #[trigger] ingress[j]).service@ || ingress[i].container_port
                    != ingress[j].container_port
        },
{
    let http = http_failures(policy.http_rules@);
    let tcp = tcp_failures(policy.tcp_rules@);
    let ingress = ingress_failures(policy.ingress@, services);
    checks::lemma_first(http);
    checks::lemma_first(tcp);
    checks::lemma_first(ingress);
    if checks::first(http) is None {
        assert forall|i: int| 0 <= i < policy.http_rules@.len() implies http_rule_failure(
            #[trigger] policy.http_rules@[i],
        ) is None by {
            assert(http[i] is None);
        }
    }
    if checks::first(tcp) is None {
        assert forall|i: int| 0 <= i < policy.tcp_rules@.len() implies tcp_rule_failure(
            #[trigger] policy.tcp_rules@[i],
        ) is None by {
            assert(tcp[i] is None);
        }
    }
    if checks::first(ingress) is None {
        assert forall|i: int| 0 <= i < policy.ingress@.len() implies (
        #[trigger] policy.ingress@[i]).container_port != 0 && services.contains_key(
            policy.ingress@[i].service@,
        ) by {
            assert(ingress[i] is None);
        }
        assert forall|i: int, j: int| 0 <= i < j < policy.ingress@.len() implies (
        #[trigger] policy.ingress@[i]).service@ != (#[trigger] policy.ingress@[j]).service@
            || policy.ingress@[i].container_port != policy.ingress@[j].container_port by {
            assert(ingress[j] is None);
        }
    }
}

/// The policy that is used where none is given is closed and has the standard limits.
pub proof fn law_default_policies_are_closed(policy: NetworkPolicy)
    ensures
        policy.is_closed() <==> {
            &&& policy.profile is Disabled
            &&& policy.http_rules@.len() == 0
            &&& policy.tcp_rules@.len() == 0
            &&& policy.ingress@.len() == 0
            &&& policy.dns.maximum_queries == 256
            &&& policy.dns.maximum_response_bytes == 4_096
            &&& policy.dns.maximum_total_bytes == 1_048_576
            &&& policy.limits.maximum_connections == 32
            &&& policy.limits.maximum_bytes == 67_108_864
            &&& policy.limits.bandwidth_bytes_per_second == 8_388_608
        },
{
}

/// A dot at the end of a name does not count, and a second one does.
pub proof fn law_one_final_dot_does_not_count(name: Seq<u8>)
    ensures
        without_final_dot(name + seq![46u8]) == name,
        name.len() == 0 || name.last() != 46 ==> without_final_dot(name) == name,
{
    assert((name + seq![46u8]).drop_last() =~= name);
}

/// Each refusal of a policy is of its kind.
pub proof fn law_refused_policies_say_why(
    policy: NetworkPolicy,
    services: Map<Seq<char>, LockedService>,
)
    ensures
        policy.http_rules@.len() > 64 || policy.tcp_rules@.len() > 64 || policy.ingress@.len() > 16
            ==> policy.failure(services) == Some("network policy contains too many rules"@),
        policy.profile is Disabled ==> (policy.profile_failure() matches Some(failure) ==> failure
            == "the none profile cannot contain egress rules"@),
        policy.profile is HttpConnect ==> (policy.profile_failure() matches Some(failure)
            ==> failure == "the http_connect profile requires HTTP rules and forbids TCP rules"@),
        policy.profile is RestrictedTcp ==> (policy.profile_failure() matches Some(failure)
            ==> failure == "the restricted_tcp profile requires TCP rules and forbids HTTP rules"@),
        policy.http_rules@.len() <= 64 && policy.tcp_rules@.len() <= 64 && policy.ingress@.len()
            <= 16 && policy.profile_failure() is Some ==> policy.failure(services)
            == policy.profile_failure(),
{
}

} // verus!
