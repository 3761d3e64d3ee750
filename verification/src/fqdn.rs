//! Fully-qualified domain names: an ordered sequence of labels (an
//! optional subdomain, a domain and a top-level domain), together with
//! the syntactic validity rules a question name must meet.

use vstd::prelude::*;
use crate::strutil::{spec_split, spec_join, views_of, split_char, join_char, push_char};

verus! {

/// A fully-qualified domain name, kept as its dot-separated parts.
#[derive(Debug, PartialEq)]
pub struct FQDN {
    pub subdomain: Option<String>,
    pub domain_name: String,
    pub tld: String,
}

/// Why a string could not be read as a fully-qualified domain name.
#[derive(Debug, Clone, Copy, PartialEq, Eq, Structural)]
pub enum FQDNParsingError {
    /// The string does not have two or three dot-separated parts.
    Missing,
}

/// The mathematical shape of a name: each part as its character
/// sequence.
#[verifier::ext_equal]
pub struct FqdnModel {
    pub subdomain: Option<Seq<char>>,
    pub domain_name: Seq<char>,
    pub tld: Seq<char>,
}

impl FqdnModel {
    /// The labels of the name in order, subdomain first when present.
    pub open spec fn labels(self) -> Seq<Seq<char>> {
        match self.subdomain {
            Some(s) => seq![s, self.domain_name, self.tld],
            None => seq![self.domain_name, self.tld],
        }
    }

    /// The dotted text form of the name.
    pub open spec fn text(self) -> Seq<char> {
        spec_join(self.labels(), '.')
    }
}

/// The name a list of two or three labels denotes.
pub open spec fn fqdn_from_labels(ls: Seq<Seq<char>>) -> FqdnModel
    recommends
        ls.len() == 2 || ls.len() == 3,
{
    if ls.len() == 3 {
        FqdnModel { subdomain: Some(ls[0]), domain_name: ls[1], tld: ls[2] }
    } else {
        FqdnModel { subdomain: None, domain_name: ls[0], tld: ls[1] }
    }
}

/// Listing the labels of a name and reading them back is the identity.
pub proof fn lemma_fqdn_own_labels(f: FqdnModel)
    ensures
        fqdn_from_labels(f.labels()) == f,
{
    match f.subdomain {
        Some(s) => {
            assert(fqdn_from_labels(f.labels()) =~= f);
        },
        None => {
            assert(fqdn_from_labels(f.labels()) =~= f);
        },
    }
}

impl Clone for FQDN {
    fn clone(&self) -> (r: FQDN)
        ensures
            r.model() == self.model(),
    {
        let r = FQDN {
            subdomain: match &self.subdomain {
                Some(s) => Some(s.clone()),
                None => None,
            },
            domain_name: self.domain_name.clone(),
            tld: self.tld.clone(),
        };
        proof {
            assert(r.model() =~= self.model());
        }
        r
    }
}

impl FQDN {
    /// The name as its mathematical shape.
    pub open spec fn model(&self) -> FqdnModel {
        FqdnModel {
            subdomain: match self.subdomain {
                Some(s) => Some(s@),
                None => None,
            },
            domain_name: self.domain_name@,
            tld: self.tld@,
        }
    }

    pub fn new() -> (r: FQDN)
        ensures
            r.model() == (FqdnModel {
                subdomain: None,
                domain_name: Seq::<char>::empty(),
                tld: Seq::<char>::empty(),
            }),
    {
        let r = FQDN { subdomain: None, domain_name: String::new(), tld: String::new() };
        proof {
            assert(r.model() =~= FqdnModel {
                subdomain: None,
                domain_name: Seq::<char>::empty(),
                tld: Seq::<char>::empty(),
            });
        }
        r
    }

    /// The number of characters in the parts of the name, dots not
    /// counted.
    pub fn len(&self) -> (r: usize)
        requires
            self.model().domain_name.len() + self.model().tld.len() + (match self.model()
                .subdomain {
                Some(s) => s.len(),
                None => 0nat,
            }) <= usize::MAX,
        ensures
            r == self.model().domain_name.len() + self.model().tld.len() + (match self.model()
                .subdomain {
                Some(s) => s.len(),
                None => 0nat,
            }),
    {
        match &self.subdomain {
            None => self.domain_name.as_str().unicode_len() + self.tld.as_str().unicode_len(),
            Some(sub) => self.domain_name.as_str().unicode_len() + sub.as_str().unicode_len()
                + self.tld.as_str().unicode_len(),
        }
    }

    /// The labels of the name in order, subdomain first when present.
    pub fn split(&self) -> (r: Vec<String>)
        ensures
            views_of(r@) == self.model().labels(),
    {
        let r = if self.subdomain.is_none() {
            vec![self.domain_name.clone(), self.tld.clone()]
        } else {
            let sub = match &self.subdomain {
                Some(s) => s.clone(),
                None => String::new(),
            };
            vec![sub, self.domain_name.clone(), self.tld.clone()]
        };
        proof {
            assert(views_of(r@) =~= self.model().labels());
        }
        r
    }

    /// The dotted text form of the name.
    pub fn to_string(&self) -> (r: String)
        ensures
            r@ == self.model().text(),
    {
        let parts = self.split();
        join_char(&parts, '.')
    }

    /// Read a name from its dotted text form: two dot-separated parts
    /// give a name without a subdomain, three give one with it, and any
    /// other shape is rejected.
    pub fn try_from(value: String) -> (r: Result<FQDN, FQDNParsingError>)
        ensures
            ({
                let parts = spec_split(value@, '.');
                &&& (parts.len() == 2 || parts.len() == 3) <==> r is Ok
                &&& r is Ok ==> r->Ok_0.model() == fqdn_from_labels(parts)
                &&& r is Err ==> r->Err_0 == FQDNParsingError::Missing
            }),
    {
        let splitted = split_char(&value, '.');
        if splitted.len() == 2 {
            let r = FQDN {
                subdomain: None,
                domain_name: splitted[0].clone(),
                tld: splitted[1].clone(),
            };
            proof {
                assert(r.model() =~= fqdn_from_labels(spec_split(value@, '.')));
            }
            Ok(r)
        } else if splitted.len() == 3 {
            let r = FQDN {
                subdomain: Some(splitted[0].clone()),
                domain_name: splitted[1].clone(),
                tld: splitted[2].clone(),
            };
            proof {
                assert(r.model() =~= fqdn_from_labels(spec_split(value@, '.')));
            }
            Ok(r)
        } else {
            Err(FQDNParsingError::Missing)
        }
    }
}


/// A name whose parts contain no dots and whose dotted text form is a
/// syntactically valid fully-qualified domain name can always be
/// carried on the wire: its labels are of valid width, and its whole
/// encoding — one length octet per label, the label bytes, and the
/// terminator — stays within the 255-octet bound, since the text form
/// is at most 253 characters.
pub proof fn lemma_valid_fqdn_fits_the_wire(f: FqdnModel)
    requires
        is_valid_fqdn(f.text()),
        forall|i: int, j: int|
            0 <= i < f.labels().len() && 0 <= j < f.labels()[i].len() ==> #[trigger] f.labels(
            )[i][j] != '.',
    ensures
        crate::name::name_wf(f.labels()),
{
    let labels = f.labels();
    let text = f.text();
    crate::strutil::lemma_split_join(labels, '.');
    assert(spec_split(text, '.') == labels);
    let n = labels.len() as int;
    assert forall|i: int| 0 <= i < n implies crate::name::label_wf(#[trigger] labels[i]) by {
        if i < n - 1 {
            assert(is_valid_label(labels[i]));
            assert forall|j: int| 0 <= j < labels[i].len() implies (#[trigger] labels[i][j]
                as u32) < 256 by {
                assert(is_label_char(labels[i][j]));
            }
        } else {
            assert(is_valid_tld(labels[i]));
            assert forall|j: int| 0 <= j < labels[i].len() implies (#[trigger] labels[i][j]
                as u32) < 256 by {
                assert(is_alpha_char(labels[i][j]));
            }
        }
    }
    crate::strutil::lemma_join_len(labels, '.');
    crate::name::lemma_name_bytes_len(labels);
    assert(crate::name::spec_name_bytes(labels).len() == text.len() + 2);
}

/// A character allowed inside a name label: a letter, a digit or a
/// hyphen.
pub open spec fn is_label_char(c: char) -> bool {
    ||| 'a' <= c <= 'z'
    ||| 'A' <= c <= 'Z'
    ||| '0' <= c <= '9'
    ||| c == '-'
}

/// A letter.
pub open spec fn is_alpha_char(c: char) -> bool {
    ||| 'a' <= c <= 'z'
    ||| 'A' <= c <= 'Z'
}

/// A valid inner label: one to sixty-three characters from the label
/// charset, neither starting nor ending with a hyphen.
pub open spec fn is_valid_label(l: Seq<char>) -> bool {
    &&& 1 <= l.len() <= 63
    &&& forall|j: int| 0 <= j < l.len() ==> is_label_char(#[trigger] l[j])
    &&& l[0] != '-'
    &&& l[l.len() - 1] != '-'
}

/// A valid top-level label: two to sixty-three letters.
pub open spec fn is_valid_tld(l: Seq<char>) -> bool {
    &&& 2 <= l.len() <= 63
    &&& forall|j: int| 0 <= j < l.len() ==> is_alpha_char(#[trigger] l[j])
}

/// A syntactically valid fully-qualified domain name: four to 253
/// characters in all, split on dots into at least one valid inner label
/// followed by a valid top-level label.
pub open spec fn is_valid_fqdn(s: Seq<char>) -> bool {
    &&& 4 <= s.len() <= 253
    &&& ({
        let parts = spec_split(s, '.');
        &&& parts.len() >= 2
        &&& forall|i: int| 0 <= i < parts.len() - 1 ==> is_valid_label(#[trigger] parts[i])
        &&& is_valid_tld(parts[parts.len() - 1])
    })
}

} // verus!
