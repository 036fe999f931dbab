//! The choice of a TLS certificate for the server name a client asks for:
//! certificates added by hand come first, then those of the configuration,
//! then those generated on demand for a wildcard name, which are kept up to
//! a bound. Certificates are named by the handle the caller keeps for them.
use vstd::prelude::*;

use crate::hack::{ascii_lower, lower_ascii};
use crate::ip::{format_ipv4, format_ipv6, ip_parse, ipv4_text, ipv6_text, parse_ip, IpValue};
use crate::table::{find_key, keys_unique, lemma_table_len, lemma_table_remove, table_insert, table_map};
use crate::text::{
    chars_eq, chars_of, lowercase, push_all, split_once, split_once_spec, string_of, to_lowercase, trim,
    trim_chars,
};

verus! {

/// The most certificates generated on demand that are kept.
pub const GENERATED_CAPACITY: usize = 8192;

/// How many generated certificates make room for a new one when the bound
/// is reached.
pub const GENERATED_EVICTION: usize = 100;

/// The certificates, by server name.
pub struct CertStore {
    predefined: Vec<(String, u64)>,
    defaults: Vec<(String, u64)>,
    generated: Vec<(String, u64)>,
    auto_create: bool,
}

/// What answers a server name.
#[derive(Debug, Clone, Copy, PartialEq, Eq, Structural)]
pub enum Resolution {
    /// A certificate that is stored.
    Found(u64),
    /// None is stored: one is to be generated for the wildcard name.
    Generate,
    /// None is stored and none is generated.
    NoCertificate,
}

/// The first of the three tables that has the name gives its certificate.
pub open spec fn lookup_in(
    predefined: Map<Seq<char>, u64>,
    defaults: Map<Seq<char>, u64>,
    generated: Map<Seq<char>, u64>,
    name: Seq<char>,
) -> Option<u64> {
    if predefined.contains_key(name) {
        Some(predefined[name])
    } else if defaults.contains_key(name) {
        Some(defaults[name])
    } else if generated.contains_key(name) {
        Some(generated[name])
    } else {
        None
    }
}

/// The wildcard name for a host: `*.` and the registrable domain, with
/// the subdomain's levels after its first kept in between.
pub open spec fn wildcard_text(root: Seq<char>, subdomain: Option<Seq<char>>) -> Seq<char> {
    match subdomain {
        Some(sub) => match split_once_spec(sub, '.') {
            Some((_first, rest)) => seq!['*', '.'] + rest + seq!['.'] + root,
            None => seq!['*', '.'] + root,
        },
        None => seq!['*', '.'] + root,
    }
}

/// The text of a parsed address, as `IpAddr`'s `Display` writes it.
pub open spec fn ip_value_text(v: IpValue) -> Seq<char> {
    match v {
        IpValue::V4(a) => ipv4_text(a),
        IpValue::V6(x) => ipv6_text(x),
    }
}

/// The name under which a configured domain's certificate is stored:
/// the domain trimmed and in ASCII lowercase; an IP address in its
/// canonical text; else the ASCII form that the domain parser gives,
/// lowercased, where it gives one. `None` for a blank domain.
pub open spec fn domain_key(domain: Seq<char>, parsed_ascii: Option<Seq<char>>) -> Option<Seq<char>> {
    let d = ascii_lower(trim(domain));
    match ip_parse(d) {
        Some(v) => Some(ip_value_text(v)),
        None => if d.len() == 0 {
            None
        } else {
            match parsed_ascii {
                Some(a) => Some(ascii_lower(a)),
                None => Some(d),
            }
        },
    }
}

/// The wildcard name for a host, from the parts that the domain parser
/// finds in it.
pub fn wildcard_name(root: &str, subdomain: Option<&str>) -> (r: String)
    ensures
        r@ == wildcard_text(root@, match subdomain {
            Some(s) => Some(s@),
            None => None,
        }),
{
    let mut t: Vec<char> = Vec::new();
    t.push('*');
    t.push('.');
    let rc = chars_of(root);
    if let Some(sub) = subdomain {
        let sc = chars_of(sub);
        if let Some((_first, rest)) = split_once(&sc, '.') {
            push_all(&mut t, &rest);
            t.push('.');
        }
    }
    push_all(&mut t, &rc);
    proof {
        match subdomain {
            Some(s) => match split_once_spec(s@, '.') {
                Some((_f, rest)) => {
                    assert(t@ =~= seq!['*', '.'] + rest + seq!['.'] + root@);
                },
                None => {
                    assert(t@ =~= seq!['*', '.'] + root@);
                },
            },
            None => {
                assert(t@ =~= seq!['*', '.'] + root@);
            },
        }
    }
    string_of(&t)
}

/// The name whose certificate stands in for a host that has none of its
/// own: where the domain parser splits the host into its registrable domain
/// and subdomain, the wildcard name over them; else the ASCII form the
/// parser gives of the whole name, where it gives one; else `ascii`.
pub fn wildcard_candidate(parts: Option<(&str, Option<&str>)>, plain_ascii: Option<&str>, ascii: &str) -> (r: String)
    ensures
        r@ == match parts {
            Some((root, sub)) => wildcard_text(root@, match sub {
                Some(x) => Some(x@),
                None => None,
            }),
            None => match plain_ascii {
                Some(a) => a@,
                None => ascii@,
            },
        },
{
    match parts {
        Some((root, sub)) => wildcard_name(root, sub),
        None => match plain_ascii {
            Some(a) => string_of(&chars_of(a)),
            None => string_of(&chars_of(ascii)),
        },
    }
}

/// The name under which a configured domain's certificate is stored;
/// `parsed_ascii` is the ASCII form of the domain where the domain parser
/// accepts it.
pub fn domain_store_key(domain: &str, parsed_ascii: Option<&str>) -> (r: Option<String>)
    ensures
        match r {
            Some(k) => domain_key(domain@, match parsed_ascii {
                Some(a) => Some(a@),
                None => None,
            }) == Some(k@),
            None => domain_key(domain@, match parsed_ascii {
                Some(a) => Some(a@),
                None => None,
            }) is None,
        },
{
    let dc = chars_of(domain);
    let t = trim_chars(&dc);
    let d = lower_ascii(&t);
    match parse_ip(&d) {
        Some(IpValue::V4(a)) => Some(string_of(&format_ipv4(a))),
        Some(IpValue::V6(x)) => Some(string_of(&format_ipv6(x))),
        None => {
            if d.len() == 0 {
                None
            } else {
                match parsed_ascii {
                    Some(a) => {
                        let ac = chars_of(a);
                        Some(string_of(&lower_ascii(&ac)))
                    },
                    None => Some(string_of(&d)),
                }
            }
        },
    }
}

/// The map with every name set to the handle, first to last.
pub open spec fn insert_all(m: Map<Seq<char>, u64>, names: Seq<Seq<char>>, h: u64) -> Map<Seq<char>, u64>
    decreases names.len(),
{
    if names.len() == 0 {
        m
    } else {
        insert_all(m, names.drop_last(), h).insert(names.last(), h)
    }
}

/// A key file and a certificate file are both given: neither is blank.
pub fn files_given(key_file: &str, cert_file: &str) -> (r: bool)
    ensures
        r == (trim(key_file@).len() > 0 && trim(cert_file@).len() > 0),
{
    let k = trim_chars(&chars_of(key_file));
    let c = trim_chars(&chars_of(cert_file));
    k.len() > 0 && c.len() > 0
}

impl CertStore {
    pub closed spec fn predefined_map(&self) -> Map<Seq<char>, u64> {
        table_map(self.predefined@)
    }

    pub closed spec fn defaults_map(&self) -> Map<Seq<char>, u64> {
        table_map(self.defaults@)
    }

    pub closed spec fn generated_map(&self) -> Map<Seq<char>, u64> {
        table_map(self.generated@)
    }

    pub closed spec fn generated_len(&self) -> nat {
        self.generated@.len()
    }

    pub closed spec fn auto_creates(&self) -> bool {
        self.auto_create
    }

    pub closed spec fn well_formed(&self) -> bool {
        &&& keys_unique(self.predefined@)
        &&& keys_unique(self.defaults@)
        &&& keys_unique(self.generated@)
        &&& self.generated@.len() <= GENERATED_CAPACITY
    }

    /// The certificate stored for a name.
    pub open spec fn lookup_spec(&self, name: Seq<char>) -> Option<u64> {
        lookup_in(self.predefined_map(), self.defaults_map(), self.generated_map(), name)
    }

    /// An empty store, which generates certificates on demand when
    /// `auto_create` is set.
    pub fn new(auto_create: bool) -> (r: CertStore)
        ensures
            r.well_formed(),
            r.predefined_map() == Map::<Seq<char>, u64>::empty(),
            r.defaults_map() == Map::<Seq<char>, u64>::empty(),
            r.generated_map() == Map::<Seq<char>, u64>::empty(),
            r.generated_len() == 0,
            r.auto_creates() == auto_create,
    {
        let r = CertStore {
            predefined: Vec::new(),
            defaults: Vec::new(),
            generated: Vec::new(),
            auto_create,
        };
        assert(table_map(r.predefined@) =~= Map::<Seq<char>, u64>::empty());
        assert(table_map(r.generated@) =~= Map::<Seq<char>, u64>::empty());
        r
    }

    /// The certificate stored for a name, looked up as given.
    pub fn lookup(&self, name: &[char]) -> (r: Option<u64>)
        requires
            self.well_formed(),
        ensures
            r == self.lookup_spec(name@),
    {
        if let Some(i) = find_key(&self.predefined, name) {
            return Some(self.predefined[i].1);
        }
        if let Some(i) = find_key(&self.defaults, name) {
            return Some(self.defaults[i].1);
        }
        if let Some(i) = find_key(&self.generated, name) {
            return Some(self.generated[i].1);
        }
        None
    }

    /// What answers a server name: the certificate stored for the name in
    /// lowercase, else for `ascii`, the ASCII form of that lowercase name,
    /// lowercased, where that differs, else
    /// for its wildcard name; where none is stored, one is generated if the
    /// store does so.
    pub fn resolve(&self, domain: &str, ascii: &str, wildcard: &str) -> (r: Resolution)
        requires
            self.well_formed(),
        ensures
            r == (if self.lookup_spec(lowercase(domain@)) is Some {
                Resolution::Found(self.lookup_spec(lowercase(domain@))->0)
            } else if ascii@ != lowercase(domain@) && self.lookup_spec(ascii@) is Some {
                Resolution::Found(self.lookup_spec(ascii@)->0)
            } else if self.lookup_spec(wildcard@) is Some {
                Resolution::Found(self.lookup_spec(wildcard@)->0)
            } else if self.auto_creates() {
                Resolution::Generate
            } else {
                Resolution::NoCertificate
            }),
    {
        let dc = chars_of(domain);
        let d = to_lowercase(&dc);
        if let Some(h) = self.lookup(&d) {
            return Resolution::Found(h);
        }
        let ac = chars_of(ascii);
        if !chars_eq(&ac, &d) {
            if let Some(h) = self.lookup(&ac) {
                return Resolution::Found(h);
            }
        }
        let wc = chars_of(wildcard);
        if let Some(h) = self.lookup(&wc) {
            return Resolution::Found(h);
        }
        if self.auto_create {
            Resolution::Generate
        } else {
            Resolution::NoCertificate
        }
    }

    /// Keeps a certificate generated for a wildcard name. Where the bound is
    /// reached, 100 of the kept certificates are dropped first to make room
    /// (which ones is not promised); the rest stay as they were.
    pub fn store_generated(&mut self, wildcard: &str, handle: u64)
        requires
            old(self).well_formed(),
        ensures
            final(self).well_formed(),
            final(self).predefined_map() == old(self).predefined_map(),
            final(self).defaults_map() == old(self).defaults_map(),
            final(self).auto_creates() == old(self).auto_creates(),
            final(self).generated_map().contains_key(wildcard@),
            final(self).generated_map()[wildcard@] == handle,
            old(self).generated_len() < GENERATED_CAPACITY ==> final(self).generated_map()
                == old(self).generated_map().insert(wildcard@, handle),
            old(self).generated_len() < GENERATED_CAPACITY ==> final(self).generated_len()
                == old(self).generated_len() + if old(self).generated_map().contains_key(wildcard@) {
                0nat
            } else {
                1nat
            },
            old(self).generated_len() >= GENERATED_CAPACITY ==> exists|kept: Map<Seq<char>, u64>|
                {
                    &&& kept.submap_of(old(self).generated_map())
                    &&& kept.dom().finite()
                    &&& kept.dom().len() == GENERATED_CAPACITY - GENERATED_EVICTION
                    &&& #[trigger] final(self).generated_map() == kept.insert(wildcard@, handle)
                    &&& final(self).generated_len() == (GENERATED_CAPACITY - GENERATED_EVICTION) + if kept.contains_key(
                        wildcard@,
                    ) {
                        0nat
                    } else {
                        1nat
                    }
                },
    {
        if self.generated.len() >= GENERATED_CAPACITY {
            let mut k: usize = 0;
            while k < GENERATED_EVICTION
                invariant
                    0 <= k <= GENERATED_EVICTION,
                    keys_unique(self.generated@),
                    self.generated@.len() + k == old(self).generated@.len(),
                    old(self).generated@.len() >= GENERATED_CAPACITY,
                    self.predefined == old(self).predefined,
                    self.defaults == old(self).defaults,
                    self.auto_create == old(self).auto_create,
                    forall|key: Seq<char>|
                        #[trigger] table_map(self.generated@).contains_key(key) ==> table_map(
                            old(self).generated@,
                        ).contains_key(key) && table_map(self.generated@)[key] == table_map(
                            old(self).generated@,
                        )[key],
                decreases GENERATED_EVICTION - k,
            {
                proof {
                    lemma_table_remove(self.generated@, 0);
                }
                self.generated.remove(0);
                k = k + 1;
            }
            proof {
                lemma_table_len(self.generated@);
                let kept = table_map(self.generated@);
                assert(kept.submap_of(table_map(old(self).generated@)));
            }
        }
        let ghost kept = table_map(self.generated@);
        let key = string_of(&chars_of(wildcard));
        table_insert(&mut self.generated, key, handle);
        proof {
            if old(self).generated@.len() >= GENERATED_CAPACITY {
                assert(self.generated_map() == kept.insert(wildcard@, handle));
            }
        }
    }

    /// A well-formed store keeps as many generated certificates as its map
    /// of generated certificates has names.
    pub proof fn lemma_generated_len(&self)
        requires
            self.well_formed(),
        ensures
            self.generated_map().dom().finite(),
            self.generated_len() == self.generated_map().dom().len(),
    {
        lemma_table_len(self.generated@);
    }

    /// Stores a certificate of the configuration under a name, in place of
    /// any earlier one.
    pub fn insert_default(&mut self, name: &str, handle: u64)
        requires
            old(self).well_formed(),
        ensures
            final(self).well_formed(),
            final(self).predefined_map() == old(self).predefined_map(),
            final(self).defaults_map() == old(self).defaults_map().insert(name@, handle),
            final(self).generated_map() == old(self).generated_map(),
            final(self).generated_len() == old(self).generated_len(),
            final(self).auto_creates() == old(self).auto_creates(),
    {
        let key = string_of(&chars_of(name));
        table_insert(&mut self.defaults, key, handle);
    }

    /// Stores a certificate of the configuration under the name of its
    /// domain, where there is one, and under each name that it is issued
    /// for.
    pub fn insert_configured(&mut self, domain_key: Option<&str>, sans: &Vec<String>, handle: u64)
        requires
            old(self).well_formed(),
        ensures
            final(self).well_formed(),
            final(self).predefined_map() == old(self).predefined_map(),
            final(self).defaults_map() == insert_all(
                match domain_key {
                    Some(k) => old(self).defaults_map().insert(k@, handle),
                    None => old(self).defaults_map(),
                },
                crate::table::string_views(sans@),
                handle,
            ),
            final(self).generated_map() == old(self).generated_map(),
            final(self).generated_len() == old(self).generated_len(),
            final(self).auto_creates() == old(self).auto_creates(),
    {
        if let Some(k) = domain_key {
            self.insert_default(k, handle);
        }
        let ghost start = self.defaults_map();
        let mut i: usize = 0;
        while i < sans.len()
            invariant
                0 <= i <= sans@.len(),
                self.well_formed(),
                self.predefined_map() == old(self).predefined_map(),
                self.generated_map() == old(self).generated_map(),
                self.generated_len() == old(self).generated_len(),
                self.auto_creates() == old(self).auto_creates(),
                self.defaults_map() == insert_all(start, crate::table::string_views(sans@).take(i as int), handle),
            decreases sans@.len() - i,
        {
            self.insert_default(sans[i].as_str(), handle);
            proof {
                let names = crate::table::string_views(sans@);
                assert(names.take(i + 1).drop_last() =~= names.take(i as int));
                assert(names.take(i + 1).last() == sans@[i as int]@);
            }
            i = i + 1;
        }
        assert(crate::table::string_views(sans@).take(sans@.len() as int) =~= crate::table::string_views(sans@));
    }

    /// Adds a certificate for a server name by hand, in place of any earlier
    /// one; `name` is the checked DNS name, which the store keeps in ASCII
    /// lowercase.
    pub fn add(&mut self, name: &str, handle: u64)
        requires
            old(self).well_formed(),
        ensures
            final(self).well_formed(),
            final(self).predefined_map() == old(self).predefined_map().insert(ascii_lower(name@), handle),
            final(self).defaults_map() == old(self).defaults_map(),
            final(self).generated_map() == old(self).generated_map(),
            final(self).generated_len() == old(self).generated_len(),
            final(self).auto_creates() == old(self).auto_creates(),
    {
        let nc = chars_of(name);
        let key = string_of(&lower_ascii(&nc));
        table_insert(&mut self.predefined, key, handle);
    }

    /// Takes out the certificate added by hand for a name, which is looked
    /// up in lowercase.
    pub fn remove_predefined(&mut self, name: &str)
        requires
            old(self).well_formed(),
        ensures
            final(self).well_formed(),
            final(self).predefined_map() == old(self).predefined_map().remove(lowercase(name@)),
            final(self).defaults_map() == old(self).defaults_map(),
            final(self).generated_map() == old(self).generated_map(),
            final(self).generated_len() == old(self).generated_len(),
            final(self).auto_creates() == old(self).auto_creates(),
    {
        let nc = to_lowercase(&chars_of(name));
        match find_key(&self.predefined, &nc) {
            Some(i) => {
                proof {
                    lemma_table_remove(self.predefined@, i as int);
                }
                self.predefined.remove(i);
            },
            None => {
                assert(old(self).predefined_map().remove(lowercase(name@)) =~= old(self).predefined_map());
            },
        }
    }
}

/// A certificate added by hand for a name answers that name, whatever the
/// configuration and the generated certificates hold.
pub proof fn lemma_predefined_first(
    predefined: Map<Seq<char>, u64>,
    defaults: Map<Seq<char>, u64>,
    generated: Map<Seq<char>, u64>,
    name: Seq<char>,
    handle: u64,
)
    ensures
        lookup_in(predefined.insert(name, handle), defaults, generated, name) == Some(handle),
{
}

} // verus!
