//! Whether a server's certificate covers a domain.

use crate::text::{
    ascii_lowered, chars_of, find_char, first_place, has_prefix, lemma_before,
    lemma_first_place_behind, lower_ascii, same_chars, starts_with, trim, trimmed,
};
use vstd::prelude::*;
use vstd::slice::slice_subrange;
use x509_parser::extensions::GeneralName;
use x509_parser::parse_x509_certificate;

verus! {

/// The form in which names are compared: without the white space around it and
/// with its ASCII capital letters in lower case.
pub open spec fn normalized(name: Seq<char>) -> Seq<char> {
    ascii_lowered(trimmed(name))
}

/// Whether a name in a certificate covers a domain. It is the domain itself, or
/// it is `*.` and what follows the first dot of the domain.
pub open spec fn name_covers(cert_name: Seq<char>, domain: Seq<char>) -> bool {
    let name = normalized(cert_name);
    let host = normalized(domain);
    let dot = first_place(host, '.');
    name == host || (has_prefix(name, "*."@) && dot < host.len() && host.skip(dot + 1) == name.skip(
        2,
    ))
}

fn normalize(name: &str) -> (r: Vec<char>)
    ensures
        r@ == normalized(name@),
{
    let chars = chars_of(name);
    lower_ascii(trim(chars.as_slice()))
}

/// Whether a name in a certificate covers a domain.
pub fn dns_name_matches(cert_name: &str, domain: &str) -> (r: bool)
    ensures
        r == name_covers(cert_name@, domain@),
{
    let name = normalize(cert_name);
    let host = normalize(domain);
    if same_chars(name.as_slice(), host.as_slice()) {
        return true;
    }
    if starts_with(name.as_slice(), "*.") {
        proof {
            reveal_strlit("*.");
        }
        let suffix = slice_subrange(name.as_slice(), 2, name.len());
        let dot = find_char(host.as_slice(), '.');
        if dot < host.len() {
            let rest = slice_subrange(host.as_slice(), dot + 1, host.len());
            assert(rest@ =~= host@.skip(dot + 1));
            assert(suffix@ =~= name@.skip(2));
            return same_chars(rest, suffix);
        }
    }
    false
}

/// A wildcard stands for one label: a name that begins with `*.` covers, besides
/// the domain of its own spelling, exactly the domains that put one label
/// without a dot in the place of the star.
pub proof fn law_a_wildcard_stands_for_one_label(cert_name: Seq<char>, domain: Seq<char>)
    requires
        has_prefix(normalized(cert_name), "*."@),
    ensures
        name_covers(cert_name, domain) <==> (normalized(cert_name) == normalized(domain)
            || exists|label: Seq<char>|
            !label.contains('.') && normalized(domain) == #[trigger] (label + seq!['.']
                + normalized(cert_name).skip(2))),
{
    let name = normalized(cert_name);
    let host = normalized(domain);
    let dot = first_place(host, '.');
    lemma_before(host, '.');
    if dot < host.len() && host.skip(dot + 1) == name.skip(2) {
        let label = host.take(dot);
        assert(host =~= label + seq!['.'] + name.skip(2));
    }
    if exists|label: Seq<char>|
        !label.contains('.') && host == #[trigger] (label + seq!['.'] + name.skip(2)) {
        let label = choose|label: Seq<char>|
            !label.contains('.') && host == #[trigger] (label + seq!['.'] + name.skip(2));
        lemma_first_place_behind(label, '.', name.skip(2));
        assert(host.skip(dot + 1) =~= name.skip(2));
    }
}

/// A moment: the nanoseconds since the Unix epoch, and whether it is written in the
/// longer of the two forms that certificates have for dates.
#[derive(Clone, Copy, Debug, PartialEq, Eq)]
pub struct Moment {
    pub nanos: i128,
    pub generalized: bool,
}

impl View for Moment {
    type V = (i128, bool);

    open spec fn view(&self) -> (i128, bool) {
        (self.nanos, self.generalized)
    }
}

/// Whether a moment is no later than another. Of two with the same time the one in
/// the shorter form comes first.
pub open spec fn no_later(a: (i128, bool), b: (i128, bool)) -> bool {
    a.0 < b.0 || (a.0 == b.0 && (a.1 ==> b.1))
}

impl Moment {
    /// Whether a moment is no later than another.
    pub fn is_no_later(&self, other: &Moment) -> (r: bool)
        ensures
            r == no_later(self@, other@),
    {
        self.nanos < other.nanos || (self.nanos == other.nanos && (!self.generalized
            || other.generalized))
    }
}

/// What a certificate says: from when to when it is valid, those of the subject's
/// alternative names that are DNS names, each of the others as `None`, and the
/// subject's common names, each that is no text as `None`.
#[derive(Debug)]
pub struct Certificate {
    pub not_before: Moment,
    pub not_after: Moment,
    pub alternative: Option<Vec<Option<String>>>,
    pub common: Vec<Option<String>>,
}

/// What a certificate says, as plain values.
pub type CertificateFields = (
    (i128, bool),
    (i128, bool),
    Option<Seq<Option<Seq<char>>>>,
    Seq<Option<Seq<char>>>,
);

/// What a row of names says.
pub open spec fn names(s: Seq<Option<String>>) -> Seq<Option<Seq<char>>> {
    s.map_values(
        |n: Option<String>|
            match n {
                Some(t) => Some(t@),
                None => None,
            },
    )
}

impl View for Certificate {
    type V = CertificateFields;

    open spec fn view(&self) -> CertificateFields {
        (
            self.not_before@,
            self.not_after@,
            match self.alternative {
                Some(list) => Some(names(list@)),
                None => None,
            },
            names(self.common@),
        )
    }
}

/// Names what the X.509 certificate at the front of a row of bytes says: from when
/// to when it is valid, its subject's alternative names, where there are any, and
/// its subject's common names.
pub uninterp spec fn certificate_in(der: Seq<u8>) -> Option<CertificateFields>;

/// Parses a certificate with `x509_parser::parse_x509_certificate` and copies its
/// `validity`, the general names of its `subject_alternative_name` and the texts of
/// its `iter_common_name`.
#[verifier::external_body]
fn read_certificate(der: &[u8]) -> (r: Option<Certificate>)
    ensures
        match r {
            Some(found) => certificate_in(der@) == Some(found@),
            None => certificate_in(der@) is None,
        },
{
    let (_, cert) = parse_x509_certificate(der).ok()?;
    let validity = cert.validity();
    let [not_before, not_after] = [validity.not_before, validity.not_after].map(
        |t| Moment { nanos: t.to_datetime().unix_timestamp_nanos(), generalized: t.is_generalizedtime() });
    let alternative = match cert.subject_alternative_name() {
        Ok(Some(san)) => Some(san.value.general_names.iter().map(|name| match name {
            GeneralName::DNSName(text) => Some(text.to_string()),
            _ => None,
        }).collect()),
        _ => None,
    };
    let common = cert.subject().iter_common_name().map(|cn| cn.as_str().ok().map(str::to_string));
    Some(Certificate { not_before, not_after, alternative, common: common.collect() })
}

/// Reads this machine's clock with `ASN1Time::now` of `x509_parser`. Nothing is
/// stated of what it says.
#[verifier::external_body]
pub(crate) fn current_moment() -> (r: Moment) {
    let now = x509_parser::time::ASN1Time::now();
    Moment { nanos: now.to_datetime().unix_timestamp_nanos(), generalized: now.is_generalizedtime() }
}

/// Whether one of a row of names covers a domain.
pub open spec fn one_covers(s: Seq<Option<Seq<char>>>, domain: Seq<char>) -> bool {
    exists|i: int|
        0 <= i < s.len() && (#[trigger] s[i] matches Some(name) && name_covers(name, domain))
}

/// Whether a certificate's names cover a domain: one of its alternative names or
/// one of its common names does.
pub open spec fn certificate_covers(cert: CertificateFields, domain: Seq<char>) -> bool {
    (cert.2 matches Some(list) && one_covers(list, domain)) || one_covers(cert.3, domain)
}

/// Whether a moment lies within a certificate's validity period, its two ends among
/// it.
pub open spec fn is_valid_at(cert: CertificateFields, now: (i128, bool)) -> bool {
    no_later(cert.0, now) && no_later(now, cert.1)
}

fn any_covers(list: &Vec<Option<String>>, domain: &str) -> (r: bool)
    ensures
        r == one_covers(names(list@), domain@),
{
    let mut i: usize = 0;
    while i < list.len()
        invariant
            i <= list@.len(),
            forall|j: int|
                0 <= j < i ==> !(#[trigger] names(list@)[j] matches Some(name) && name_covers(
                    name,
                    domain@,
                )),
        decreases list@.len() - i,
    {
        if let Some(name) = &list[i] {
            if dns_name_matches(name.as_str(), domain) {
                assert(names(list@)[i as int] == Some(name@));
                return true;
            }
        }
        i = i + 1;
    }
    false
}

/// Why a certificate does not vouch for a domain at a moment, in the order in which
/// it is asked: `None` where it does.
pub open spec fn certificate_fault(
    der: Seq<u8>,
    cert: Option<CertificateFields>,
    now: (i128, bool),
    domain: Seq<char>,
) -> Option<Seq<char>> {
    if der.len() == 0 {
        Some("empty certificate"@)
    } else {
        match cert {
            None => Some("certificate failed to parse as X.509 DER"@),
            Some(found) => if !is_valid_at(found, now) {
                Some("certificate outside its validity period"@)
            } else if !certificate_covers(found, domain) {
                Some("certificate does not cover domain '"@ + domain + "'"@)
            } else {
                None
            },
        }
    }
}

/// What a text says, where there is one.
pub open spec fn fault_text(r: Result<(), String>) -> Option<Seq<char>> {
    match r {
        Ok(_) => None,
        Err(e) => Some(e@),
    }
}

/// Whether a certificate vouches for a domain at a moment, given what was read of
/// it; `None` where it does not parse.
pub fn judge_certificate(
    cert_der: &[u8],
    found: Option<Certificate>,
    now: Moment,
    domain: &str,
) -> (r: Result<(), String>)
    ensures
        fault_text(r) == certificate_fault(
            cert_der@,
            match found {
                Some(cert) => Some(cert@),
                None => None,
            },
            now@,
            domain@,
        ),
{
    if cert_der.len() == 0 {
        return Err("empty certificate".to_owned());
    }
    match found {
        None => Err("certificate failed to parse as X.509 DER".to_owned()),
        Some(cert) => {
            if !(cert.not_before.is_no_later(&now) && now.is_no_later(&cert.not_after)) {
                return Err("certificate outside its validity period".to_owned());
            }
            let mut matched = match &cert.alternative {
                Some(list) => any_covers(list, domain),
                None => false,
            };
            if !matched {
                matched = any_covers(&cert.common, domain);
            }
            if matched {
                Ok(())
            } else {
                let mut text = "certificate does not cover domain '".to_owned();
                text.append(domain);
                text.append("'");
                Err(text)
            }
        },
    }
}

/// Whether a certificate vouches for a domain at a moment: it parses, the moment
/// lies within its validity period, and its names cover the domain.
pub fn validate_cert_at(cert_der: &[u8], domain: &str, now: Moment) -> (r: Result<(), String>)
    ensures
        fault_text(r) == certificate_fault(cert_der@, certificate_in(cert_der@), now@, domain@),
{
    let found = read_certificate(cert_der);
    judge_certificate(cert_der, found, now, domain)
}

/// Whether a certificate vouches for a domain now, by this machine's clock. Which
/// moment the clock gives is not stated.
pub fn validate_cert_for_domain(cert_der: &[u8], domain: &str) -> (r: Result<(), String>)
    ensures
        exists|now: (i128, bool)|
            fault_text(r) == #[trigger] certificate_fault(
                cert_der@,
                certificate_in(cert_der@),
                now,
                domain@,
            ),
{
    validate_cert_at(cert_der, domain, current_moment())
}

/// A certificate is valid in one stretch of time: at every moment between two at
/// which it vouches for a domain, it does so too.
pub proof fn law_a_certificate_is_valid_in_one_stretch(
    der: Seq<u8>,
    domain: Seq<char>,
    before: (i128, bool),
    between: (i128, bool),
    after: (i128, bool),
)
    requires
        no_later(before, between),
        no_later(between, after),
        certificate_fault(der, certificate_in(der), before, domain) is None,
        certificate_fault(der, certificate_in(der), after, domain) is None,
    ensures
        certificate_fault(der, certificate_in(der), between, domain) is None,
{
}

} // verus!
