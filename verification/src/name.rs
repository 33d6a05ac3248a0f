//! Domain names and the zones they fall under.

use vstd::prelude::*;
use trust_dns_resolver::Name;

verus! {

/// A domain name: the text it was written as, its labels from left to right
/// (the top-level label last), and whether it is fully qualified.
///
/// Zones are matched by the labels alone; the text is kept so that the name
/// can be written again exactly as it was read. A name that did not come
/// from text, such as one that was asked for over the wire, carries the text
/// it is shown as; only of a `well_formed` name is it known that its text is
/// read as its labels.
#[derive(Debug)]
pub struct DomainName {
    pub text: String,
    pub labels: Vec<Vec<u8>>,
    pub fqdn: bool,
}

/// What a `DomainName` stands for.
pub struct DomainNameView {
    pub text: Seq<char>,
    pub labels: Seq<Seq<u8>>,
    pub fqdn: bool,
}

/// The labels held by `v`, each as a sequence of bytes.
pub open spec fn label_views(v: Seq<Vec<u8>>) -> Seq<Seq<u8>> {
    Seq::new(v.len(), |i: int| v[i]@)
}

impl View for DomainName {
    type V = DomainNameView;

    open spec fn view(&self) -> DomainNameView {
        DomainNameView { text: self.text@, labels: label_views(self.labels@), fqdn: self.fqdn }
    }
}

/// What `trust_dns_resolver::Name::from_str_relaxed` makes of `text`: the
/// labels of the name and whether it is fully qualified, or `None` where it
/// refuses the text.
pub uninterp spec fn name_of_text(text: Seq<char>) -> Option<(Seq<Seq<u8>>, bool)>;

/// Calls `trust_dns_resolver::Name::from_str_relaxed` on `text`. The contract
/// claims only that the outcome is a function of the text: the labels and the
/// flag of the name that comes back are those that `name_of_text` names, and
/// an error comes back exactly where `name_of_text` is `None`.
#[verifier::external_body]
fn name_from_str_relaxed(text: &str) -> (r: Option<(Vec<Vec<u8>>, bool)>)
    ensures
        match r {
            Some((labels, fqdn)) => name_of_text(text@) == Some((label_views(labels@), fqdn)),
            None => name_of_text(text@) is None,
        },
{
    match Name::from_str_relaxed(text) {
        Ok(name) => Some((name.iter().map(|label| label.to_vec()).collect(), name.is_fqdn())),
        Err(_) => None,
    }
}

/// The lower-case form of the ASCII letter `b`; `b` itself for any other byte.
pub open spec fn lower(b: u8) -> u8 {
    if 0x41 <= b <= 0x5A {
        (b + 0x20) as u8
    } else {
        b
    }
}

/// Whether two labels are the same but for the case of their ASCII letters.
pub open spec fn same_label(a: Seq<u8>, b: Seq<u8>) -> bool {
    &&& a.len() == b.len()
    &&& forall|i: int| 0 <= i < a.len() ==> lower(#[trigger] a[i]) == lower(b[i])
}

/// Whether the name with the labels `zone` is the name with the labels
/// `name` or one of its ancestors: `name` ends with the labels of `zone`,
/// compared without regard to case.
pub open spec fn is_zone_of(zone: Seq<Seq<u8>>, name: Seq<Seq<u8>>) -> bool {
    &&& zone.len() <= name.len()
    &&& forall|i: int|
        0 <= i < zone.len() ==> same_label(#[trigger] zone[i], name[name.len() - zone.len() + i])
}

/// Every name is in its own zone.
pub proof fn lemma_zone_of_reflexive(name: Seq<Seq<u8>>)
    ensures
        is_zone_of(name, name),
{
}

/// A zone of a zone of a name is a zone of that name.
pub proof fn lemma_zone_of_transitive(a: Seq<Seq<u8>>, b: Seq<Seq<u8>>, c: Seq<Seq<u8>>)
    requires
        is_zone_of(a, b),
        is_zone_of(b, c),
    ensures
        is_zone_of(a, c),
{
    assert forall|i: int| 0 <= i < a.len() implies same_label(
        #[trigger] a[i],
        c[c.len() - a.len() + i],
    ) by {
        let j = b.len() - a.len() + i;
        assert(same_label(a[i], b[j]));
        assert(same_label(b[j], c[c.len() - b.len() + j]));
    }
}

/// A name with more labels than another is not a zone of it: a child is
/// never a zone of its parent.
pub proof fn lemma_zone_of_not_longer(zone: Seq<Seq<u8>>, name: Seq<Seq<u8>>)
    requires
        zone.len() > name.len(),
    ensures
        !is_zone_of(zone, name),
{
}

/// Tells whether two labels are the same but for the case of their letters.
fn labels_match(a: &Vec<u8>, b: &Vec<u8>) -> (r: bool)
    ensures
        r == same_label(a@, b@),
{
    if a.len() != b.len() {
        return false;
    }
    let mut i: usize = 0;
    while i < a.len()
        invariant
            i <= a@.len(),
            a@.len() == b@.len(),
            forall|j: int| 0 <= j < i ==> lower(#[trigger] a@[j]) == lower(b@[j]),
        decreases a@.len() - i,
    {
        let x: u8 = a[i];
        let y: u8 = b[i];
        let lx: u8 = if 0x41 <= x && x <= 0x5A {
            x + 0x20
        } else {
            x
        };
        let ly: u8 = if 0x41 <= y && y <= 0x5A {
            y + 0x20
        } else {
            y
        };
        if lx != ly {
            return false;
        }
        i += 1;
    }
    true
}

/// Copies a list of labels.
fn copy_labels(labels: &Vec<Vec<u8>>) -> (r: Vec<Vec<u8>>)
    ensures
        label_views(r@) == label_views(labels@),
{
    let mut out: Vec<Vec<u8>> = Vec::new();
    let mut i: usize = 0;
    while i < labels.len()
        invariant
            i <= labels@.len(),
            out@.len() == i,
            forall|j: int| 0 <= j < i ==> (#[trigger] out@[j])@ == labels@[j]@,
        decreases labels@.len() - i,
    {
        let src = &labels[i];
        let mut label: Vec<u8> = Vec::new();
        let mut k: usize = 0;
        while k < src.len()
            invariant
                k <= src@.len(),
                label@ == src@.take(k as int),
            decreases src@.len() - k,
        {
            label.push(src[k]);
            proof {
                assert(label@ =~= src@.take(k + 1));
            }
            k += 1;
        }
        proof {
            assert(src@.take(src@.len() as int) =~= src@);
        }
        out.push(label);
        i += 1;
    }
    proof {
        assert(label_views(out@) =~= label_views(labels@));
    }
    out
}

impl DomainName {
    /// Whether `text` is written as a name; `parse` succeeds exactly on such text.
    pub open spec fn is_name(text: Seq<char>) -> bool {
        name_of_text(text) is Some
    }

    /// The name that `text` is written for.
    pub open spec fn of_text(text: Seq<char>) -> DomainNameView
        recommends
            Self::is_name(text),
    {
        DomainNameView {
            text,
            labels: name_of_text(text)->Some_0.0,
            fqdn: name_of_text(text)->Some_0.1,
        }
    }

    /// Whether the labels and the flag of this name are those that its text
    /// is written for.
    pub open spec fn well_formed(&self) -> bool {
        Self::is_name(self@.text) && self@ == Self::of_text(self@.text)
    }

    /// Reads `text` as a domain name, in the relaxed way: a trailing dot is
    /// optional, and labels need not follow host-name rules.
    pub fn parse(text: &str) -> (r: Option<DomainName>)
        ensures
            r is Some <==> Self::is_name(text@),
            r matches Some(name) ==> name@ == Self::of_text(text@) && name.well_formed(),
    {
        match name_from_str_relaxed(text) {
            Some((labels, fqdn)) => Some(DomainName { text: text.to_owned(), labels, fqdn }),
            None => None,
        }
    }

    /// Whether this name is `name` or an ancestor of it.
    pub fn zone_of(&self, name: &DomainName) -> (r: bool)
        ensures
            r == is_zone_of(self@.labels, name@.labels),
    {
        let zn: usize = self.labels.len();
        let nn: usize = name.labels.len();
        if zn > nn {
            return false;
        }
        let offset: usize = nn - zn;
        let mut i: usize = 0;
        while i < zn
            invariant
                i <= zn,
                zn == self.labels@.len(),
                nn == name.labels@.len(),
                offset == nn - zn,
                forall|j: int|
                    0 <= j < i ==> same_label(
                        #[trigger] self@.labels[j],
                        name@.labels[name@.labels.len() - self@.labels.len() + j],
                    ),
            decreases zn - i,
        {
            if !labels_match(&self.labels[i], &name.labels[offset + i]) {
                proof {
                    assert(self@.labels[i as int] == self.labels@[i as int]@);
                    assert(name@.labels[name@.labels.len() - self@.labels.len() + i]
                        == name.labels@[offset + i]@);
                }
                return false;
            }
            i += 1;
        }
        true
    }
}

impl Clone for DomainName {
    fn clone(&self) -> (r: DomainName)
        ensures
            r@ == self@,
    {
        DomainName { text: self.text.clone(), labels: copy_labels(&self.labels), fqdn: self.fqdn }
    }
}

} // verus!
