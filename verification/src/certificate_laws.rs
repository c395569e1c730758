//! Which domains a name covers, and when a certificate vouches for one.

use crate::certificate::{
    certificate_fault, law_a_wildcard_stands_for_one_label, name_covers, no_later, normalized,
    CertificateFields,
};
use crate::text::{ascii_lowered, has_prefix, whitespace};
use crate::text_laws::{law_a_prefix_is_what_a_text_begins_with, law_trimming_takes_off_white_space};
use vstd::prelude::*;

verus! {

/// A name that does not begin with `*.` covers the domain of its own spelling and no
/// other: neither one that ends in it nor one that begins with it.
pub proof fn law_a_plain_name_covers_its_own_spelling_only(
    cert_name: Seq<char>,
    domain: Seq<char>,
)
    requires
        !has_prefix(normalized(cert_name), "*."@),
    ensures
        name_covers(cert_name, domain) <==> normalized(cert_name) == normalized(domain),
{
}

/// Whether a text is written as names are compared: it holds no white space and no
/// capital letter.
pub open spec fn is_normal(name: Seq<char>) -> bool {
    forall|i: int|
        0 <= i < name.len() ==> !whitespace(#[trigger] name[i]) && !(65 <= name[i] as int <= 90)
}

proof fn lemma_normal(name: Seq<char>)
    requires
        is_normal(name),
    ensures
        normalized(name) == name,
{
    if name.len() > 0 {
        assert(!whitespace(name[0]) && !whitespace(name[name.len() - 1]));
    }
    law_trimming_takes_off_white_space(seq![], name, seq![]);
    assert(seq![] + name + seq![] =~= name);
    assert(ascii_lowered(name) =~= name);
}

/// Of names in lower case without white space, one that does not begin with `*.`
/// covers exactly itself, and `*.` with a rest behind it covers, besides itself,
/// exactly that rest with one label and a dot in front of it.
pub proof fn law_names_in_lower_case_cover_themselves(
    cert_name: Seq<char>,
    rest: Seq<char>,
    domain: Seq<char>,
)
    requires
        is_normal(cert_name),
        is_normal(rest),
        is_normal(domain),
    ensures
        name_covers(domain, domain),
        !has_prefix(cert_name, "*."@) ==> (name_covers(cert_name, domain) <==> cert_name == domain),
        cert_name == "*."@ + rest ==> (name_covers(cert_name, domain) <==> cert_name == domain
            || exists|label: Seq<char>|
            !label.contains('.') && domain == #[trigger] (label + seq!['.'] + rest)),
{
    lemma_normal(cert_name);
    lemma_normal(domain);
    if cert_name == "*."@ + rest {
        reveal_strlit("*.");
        law_a_prefix_is_what_a_text_begins_with(cert_name, "*."@, rest);
        assert(cert_name.skip(2) =~= rest);
        law_a_wildcard_stands_for_one_label(cert_name, domain);
    }
}

/// White space around a name and around a domain does not matter.
pub proof fn law_white_space_around_names_does_not_matter(
    a: Seq<char>,
    cert_name: Seq<char>,
    b: Seq<char>,
    c: Seq<char>,
    domain: Seq<char>,
    d: Seq<char>,
)
    requires
        forall|i: int| 0 <= i < a.len() ==> whitespace(#[trigger] a[i]),
        forall|i: int| 0 <= i < b.len() ==> whitespace(#[trigger] b[i]),
        forall|i: int| 0 <= i < c.len() ==> whitespace(#[trigger] c[i]),
        forall|i: int| 0 <= i < d.len() ==> whitespace(#[trigger] d[i]),
        cert_name.len() > 0 ==> !whitespace(cert_name[0]) && !whitespace(cert_name.last()),
        domain.len() > 0 ==> !whitespace(domain[0]) && !whitespace(domain.last()),
    ensures
        name_covers(a + cert_name + b, c + domain + d) <==> name_covers(cert_name, domain),
{
    law_trimming_takes_off_white_space(a, cert_name, b);
    law_trimming_takes_off_white_space(seq![], cert_name, seq![]);
    assert(seq![] + cert_name + seq![] =~= cert_name);
    law_trimming_takes_off_white_space(c, domain, d);
    law_trimming_takes_off_white_space(seq![], domain, seq![]);
    assert(seq![] + domain + seq![] =~= domain);
}

/// Whether two texts are the same but for the case of their ASCII letters.
pub open spec fn same_but_for_case(a: Seq<char>, b: Seq<char>) -> bool {
    a.len() == b.len() && forall|i: int|
        #![trigger a[i], b[i]]
        0 <= i < a.len() ==> a[i] == b[i] || (65 <= a[i] as int <= 90 && b[i] as int == a[i] as int
            + 32) || (65 <= b[i] as int <= 90 && a[i] as int == b[i] as int + 32)
}

/// The case of ASCII letters does not matter, neither in a name nor in a domain.
pub proof fn law_case_does_not_matter_in_names(
    cert_name: Seq<char>,
    same_name: Seq<char>,
    domain: Seq<char>,
    same_domain: Seq<char>,
)
    requires
        forall|i: int| 0 <= i < cert_name.len() ==> !whitespace(#[trigger] cert_name[i]),
        forall|i: int| 0 <= i < domain.len() ==> !whitespace(#[trigger] domain[i]),
        same_but_for_case(cert_name, same_name),
        same_but_for_case(domain, same_domain),
    ensures
        name_covers(cert_name, domain) <==> name_covers(same_name, same_domain),
        name_covers(domain, same_domain),
{
    lemma_same_normal(cert_name, same_name);
    lemma_same_normal(domain, same_domain);
}

proof fn lemma_same_normal(a: Seq<char>, b: Seq<char>)
    requires
        forall|i: int| 0 <= i < a.len() ==> !whitespace(#[trigger] a[i]),
        same_but_for_case(a, b),
    ensures
        normalized(a) == normalized(b),
{
    assert forall|i: int| 0 <= i < b.len() implies !whitespace(#[trigger] b[i]) by {
        assert(!whitespace(a[i]));
    }
    if a.len() > 0 {
        assert(!whitespace(a[0]) && !whitespace(a[a.len() - 1]));
        assert(!whitespace(b[0]) && !whitespace(b[b.len() - 1]));
    }
    law_trimming_takes_off_white_space(seq![], a, seq![]);
    assert(seq![] + a + seq![] =~= a);
    law_trimming_takes_off_white_space(seq![], b, seq![]);
    assert(seq![] + b + seq![] =~= b);
    assert forall|i: int| 0 <= i < a.len() implies ascii_lowered(a)[i] == ascii_lowered(b)[i] by {
        assert(a[i] == b[i] || (65 <= a[i] as int <= 90 && b[i] as int == a[i] as int + 32) || (65
            <= b[i] as int <= 90 && a[i] as int == b[i] as int + 32));
    }
    assert(ascii_lowered(a) =~= ascii_lowered(b));
}

/// One moment is no later than another where its time is earlier, or the same and not
/// in the longer form against the shorter one.
pub proof fn law_moments_are_ordered_by_time_and_then_by_form(a: (i128, bool), b: (i128, bool))
    ensures
        a.0 < b.0 ==> no_later(a, b) && !no_later(b, a),
        a.0 == b.0 && a.1 == b.1 ==> no_later(a, b),
        a.0 == b.0 && !a.1 && b.1 ==> no_later(a, b) && !no_later(b, a),
{
}

/// A certificate vouches for a domain at a moment exactly where it has bytes that
/// parse, the moment is neither before its first nor behind its last, and one of its
/// alternative names or of its common names covers the domain.
pub proof fn law_a_certificate_vouches_in_its_time_for_its_names(
    der: Seq<u8>,
    cert: Option<CertificateFields>,
    now: (i128, bool),
    domain: Seq<char>,
)
    ensures
        certificate_fault(der, cert, now, domain) is None <==> der.len() > 0 && (
        cert matches Some(found) && no_later(found.0, now) && no_later(now, found.1) && ((
        found.2 matches Some(list) && exists|i: int|
            0 <= i < list.len() && (#[trigger] list[i] matches Some(name) && name_covers(
                name,
                domain,
            ))) || exists|i: int|
            0 <= i < found.3.len() && (#[trigger] found.3[i] matches Some(name) && name_covers(
                name,
                domain,
            )))),
{
}

/// What is said of a certificate that does not vouch names what failed first: that it
/// is empty, that it does not parse, the moment, or the domain.
pub proof fn law_a_refused_certificate_is_told_apart(
    der: Seq<u8>,
    cert: Option<CertificateFields>,
    now: (i128, bool),
    domain: Seq<char>,
)
    ensures
        der.len() == 0 ==> certificate_fault(der, cert, now, domain) == Some("empty certificate"@),
        der.len() > 0 && cert is None ==> certificate_fault(der, cert, now, domain) == Some(
            "certificate failed to parse as X.509 DER"@,
        ),
        der.len() > 0 ==> (cert matches Some(found) ==> (!no_later(found.0, now) || !no_later(
            now,
            found.1,
        ) ==> certificate_fault(der, cert, now, domain) == Some(
            "certificate outside its validity period"@,
        ))),
        der.len() > 0 ==> (cert matches Some(found) ==> (no_later(found.0, now) && no_later(
            now,
            found.1,
        ) && certificate_fault(der, cert, now, domain) is Some ==> certificate_fault(
            der,
            cert,
            now,
            domain,
        ) == Some("certificate does not cover domain '"@ + domain + "'"@))),
{
}

} // verus!
