//! MaxMind GeoIP editions, their database names and download URLs, and
//! license keys.
use vstd::prelude::*;

use crate::error::{Error, ErrorType};
use crate::text::{chars_eq, chars_of, eq_str, push_all, split_char, split_on, string_of};

verus! {

/// The family of GeoIP databases.
#[derive(Debug, Clone, Copy, PartialEq, Eq, Structural)]
pub enum GeoEdition {
    GeoLite2,
    GeoIP2,
}

/// One GeoIP database with the license key to fetch it.
#[derive(Debug, Clone)]
pub enum GeoEditionType {
    GeoLite2ASN(GeoEdition, String),
    GeoLite2Country(GeoEdition, String),
    GeoLite2City(GeoEdition, String),
    GeoIP2ASN(GeoEdition, String),
    GeoIP2Country(GeoEdition, String),
    GeoIP2City(GeoEdition, String),
}

/// The edition a database was made for.
pub open spec fn type_edition(t: GeoEditionType) -> GeoEdition {
    match t {
        GeoEditionType::GeoLite2ASN(e, _) => e,
        GeoEditionType::GeoLite2Country(e, _) => e,
        GeoEditionType::GeoLite2City(e, _) => e,
        GeoEditionType::GeoIP2ASN(e, _) => e,
        GeoEditionType::GeoIP2Country(e, _) => e,
        GeoEditionType::GeoIP2City(e, _) => e,
    }
}

/// The license key of a database.
pub open spec fn type_key(t: GeoEditionType) -> Seq<char> {
    match t {
        GeoEditionType::GeoLite2ASN(_, l) => l@,
        GeoEditionType::GeoLite2Country(_, l) => l@,
        GeoEditionType::GeoLite2City(_, l) => l@,
        GeoEditionType::GeoIP2ASN(_, l) => l@,
        GeoEditionType::GeoIP2Country(_, l) => l@,
        GeoEditionType::GeoIP2City(_, l) => l@,
    }
}

/// The edition id of a database, as MaxMind names it.
pub open spec fn type_identity(t: GeoEditionType) -> Seq<char> {
    match t {
        GeoEditionType::GeoLite2ASN(_, _) => "GeoLite2-ASN"@,
        GeoEditionType::GeoLite2Country(_, _) => "GeoLite2-Country"@,
        GeoEditionType::GeoLite2City(_, _) => "GeoLite2-City"@,
        GeoEditionType::GeoIP2ASN(_, _) => "GeoIP2-ASN"@,
        GeoEditionType::GeoIP2Country(_, _) => "GeoIP2-Country"@,
        GeoEditionType::GeoIP2City(_, _) => "GeoIP2-City"@,
    }
}

/// The download URL of an edition id with a license key.
pub open spec fn download_url(identity: Seq<char>, key: Seq<char>) -> Seq<char> {
    "https://download.maxmind.com/app/geoip_download?edition_id="@ + identity + "&license_key="@
        + key + "&suffix=tar.gz"@
}

impl GeoEditionType {
    /// The edition the database was made for.
    pub fn edition(&self) -> (r: &GeoEdition)
        ensures
            *r == type_edition(*self),
    {
        match self {
            GeoEditionType::GeoLite2ASN(e, _) => e,
            GeoEditionType::GeoLite2Country(e, _) => e,
            GeoEditionType::GeoLite2City(e, _) => e,
            GeoEditionType::GeoIP2ASN(e, _) => e,
            GeoEditionType::GeoIP2Country(e, _) => e,
            GeoEditionType::GeoIP2City(e, _) => e,
        }
    }

    /// The license key of the database.
    pub fn license_key(&self) -> (r: String)
        ensures
            r@ == type_key(*self),
    {
        match self {
            GeoEditionType::GeoLite2ASN(_, l) => l.clone(),
            GeoEditionType::GeoLite2Country(_, l) => l.clone(),
            GeoEditionType::GeoLite2City(_, l) => l.clone(),
            GeoEditionType::GeoIP2ASN(_, l) => l.clone(),
            GeoEditionType::GeoIP2Country(_, l) => l.clone(),
            GeoEditionType::GeoIP2City(_, l) => l.clone(),
        }
    }

    /// The edition id, such as `GeoLite2-City`.
    pub fn identity(&self) -> (r: String)
        ensures
            r@ == type_identity(*self),
    {
        let s = match self {
            GeoEditionType::GeoLite2ASN(_, _) => "GeoLite2-ASN",
            GeoEditionType::GeoLite2Country(_, _) => "GeoLite2-Country",
            GeoEditionType::GeoLite2City(_, _) => "GeoLite2-City",
            GeoEditionType::GeoIP2ASN(_, _) => "GeoIP2-ASN",
            GeoEditionType::GeoIP2Country(_, _) => "GeoIP2-Country",
            GeoEditionType::GeoIP2City(_, _) => "GeoIP2-City",
        };
        let cs = chars_of(s);
        string_of(&cs)
    }

    /// The database file name: the edition id and `.mmdb`.
    pub fn file_name(&self) -> (r: String)
        ensures
            r@ == type_identity(*self) + ".mmdb"@,
    {
        let id = self.identity();
        let mut cs = chars_of(id.as_str());
        let ext = chars_of(".mmdb");
        push_all(&mut cs, &ext);
        string_of(&cs)
    }

    fn license_for(&self, license_key: &str, license_type: &str) -> (r: String)
        ensures
            r@ == download_url(license_type@, license_key@),
    {
        let mut cs = chars_of("https://download.maxmind.com/app/geoip_download?edition_id=");
        let t = chars_of(license_type);
        push_all(&mut cs, &t);
        let a = chars_of("&license_key=");
        push_all(&mut cs, &a);
        let k = chars_of(license_key);
        push_all(&mut cs, &k);
        let b = chars_of("&suffix=tar.gz");
        push_all(&mut cs, &b);
        string_of(&cs)
    }

    /// The URL to download the database with its license key.
    pub fn to_download_url(&self) -> (r: String)
        ensures
            r@ == download_url(type_identity(*self), type_key(*self)),
    {
        let key = self.license_key();
        let id = self.identity();
        self.license_for(key.as_str(), id.as_str())
    }

    fn duplicate(&self) -> (r: GeoEditionType)
        ensures
            type_edition(r) == type_edition(*self),
            type_key(r) == type_key(*self),
            type_identity(r) == type_identity(*self),
    {
        match self {
            GeoEditionType::GeoLite2ASN(e, l) => GeoEditionType::GeoLite2ASN(*e, l.clone()),
            GeoEditionType::GeoLite2Country(e, l) => GeoEditionType::GeoLite2Country(*e, l.clone()),
            GeoEditionType::GeoLite2City(e, l) => GeoEditionType::GeoLite2City(*e, l.clone()),
            GeoEditionType::GeoIP2ASN(e, l) => GeoEditionType::GeoIP2ASN(*e, l.clone()),
            GeoEditionType::GeoIP2Country(e, l) => GeoEditionType::GeoIP2Country(*e, l.clone()),
            GeoEditionType::GeoIP2City(e, l) => GeoEditionType::GeoIP2City(*e, l.clone()),
        }
    }
}

/// An ASCII letter or digit.
pub open spec fn is_ascii_alnum(c: char) -> bool {
    ||| 48 <= (c as u32) <= 57
    ||| 65 <= (c as u32) <= 90
    ||| 97 <= (c as u32) <= 122
}

/// Every character is an ASCII letter or digit.
pub open spec fn all_alnum(s: Seq<char>) -> bool {
    forall|i: int| 0 <= i < s.len() ==> is_ascii_alnum(#[trigger] s[i])
}

/// The shape of a MaxMind license key: forty characters in three parts
/// cut at `_`, a prefix of six ASCII letters or digits, a middle of ASCII
/// letters or digits, and the suffix `mmk`. (Such a key is all ASCII, so
/// its forty characters are forty bytes.)
pub open spec fn valid_license(s: Seq<char>) -> bool {
    let p = split_on(s, '_');
    &&& s.len() == 40
    &&& p.len() == 3
    &&& p[0].len() == 6
    &&& p[2] == "mmk"@
    &&& all_alnum(p[0])
    &&& all_alnum(p[1])
}

fn alnum_only(s: &[char]) -> (r: bool)
    ensures
        r == all_alnum(s@),
{
    let mut i: usize = 0;
    while i < s.len()
        invariant
            0 <= i <= s@.len(),
            forall|j: int| 0 <= j < i ==> is_ascii_alnum(#[trigger] s@[j]),
        decreases s@.len() - i,
    {
        let u = s[i] as u32;
        if !((48 <= u && u <= 57) || (65 <= u && u <= 90) || (97 <= u && u <= 122)) {
            assert(!is_ascii_alnum(s@[i as int]));
            return false;
        }
        i = i + 1;
    }
    true
}

/// A MaxMind license key and whether it has the right shape.
#[derive(Debug, Clone)]
pub struct MaxMindLicense {
    license_key: String,
    license_valid: bool,
}

impl View for MaxMindLicense {
    type V = Seq<char>;

    /// The key.
    closed spec fn view(&self) -> Seq<char> {
        self.license_key@
    }
}

impl MaxMindLicense {
    /// Whether the key has the right shape.
    pub closed spec fn valid(&self) -> bool {
        self.license_valid
    }

    /// A license with the given key; it is valid when the key has the right
    /// shape.
    pub fn new(license: &str) -> (r: MaxMindLicense)
        ensures
            r@ == license@,
            r.valid() == valid_license(license@),
    {
        let cs = chars_of(license);
        MaxMindLicense {
            license_key: string_of(&cs),
            license_valid: Self::validate_license_key(license),
        }
    }

    /// Whether the other license has the same key.
    pub fn license_match(&self, license: &MaxMindLicense) -> (r: bool)
        ensures
            r == (self@ == license@),
    {
        let a = chars_of(self.license_key.as_str());
        let b = chars_of(license.license_key.as_str());
        chars_eq(&a, &b)
    }

    /// Whether the key has the right shape.
    pub fn is_valid(&self) -> (r: bool)
        ensures
            r == self.valid(),
    {
        self.license_valid
    }

    /// Whether a key has the shape of a MaxMind license key.
    pub fn validate_license_key(license: &str) -> (r: bool)
        ensures
            r == valid_license(license@),
    {
        let cs = chars_of(license);
        if cs.len() != 40 {
            return false;
        }
        let p = split_char(&cs, '_');
        if p.len() != 3 {
            return false;
        }
        if p[0].len() != 6 || !eq_str(&p[2], "mmk") {
            return false;
        }
        alnum_only(&p[0]) && alnum_only(&p[1])
    }

    /// The key.
    pub fn license_key(&self) -> (r: &str)
        ensures
            r@ == self@,
    {
        self.license_key.as_str()
    }

    fn duplicate(&self) -> (r: MaxMindLicense)
        ensures
            r@ == self@,
            r.valid() == self.valid(),
    {
        MaxMindLicense { license_key: self.license_key.clone(), license_valid: self.license_valid }
    }
}

/// The three databases of an edition for one license.
#[derive(Debug, Clone)]
pub struct GeoEditionTypes {
    license: MaxMindLicense,
    edition: GeoEdition,
    asn: GeoEditionType,
    country: GeoEditionType,
    city: GeoEditionType,
}

impl GeoEditionTypes {
    /// The license.
    pub closed spec fn license_view(&self) -> MaxMindLicense {
        self.license
    }

    /// The edition.
    pub closed spec fn edition_view(&self) -> GeoEdition {
        self.edition
    }

    /// The ASN database.
    pub closed spec fn asn_view(&self) -> GeoEditionType {
        self.asn
    }

    /// The country database.
    pub closed spec fn country_view(&self) -> GeoEditionType {
        self.country
    }

    /// The city database.
    pub closed spec fn city_view(&self) -> GeoEditionType {
        self.city
    }

    /// The databases of an edition are those of its family, each with
    /// the license's key.
    pub open spec fn well_formed(&self) -> bool {
        &&& type_key(self.asn_view()) == self.license_view()@
        &&& type_key(self.country_view()) == self.license_view()@
        &&& type_key(self.city_view()) == self.license_view()@
        &&& type_edition(self.asn_view()) == self.edition_view()
        &&& type_edition(self.country_view()) == self.edition_view()
        &&& type_edition(self.city_view()) == self.edition_view()
        &&& type_identity(self.asn_view()) == if self.edition_view() == GeoEdition::GeoLite2 {
            "GeoLite2-ASN"@
        } else {
            "GeoIP2-ASN"@
        }
        &&& type_identity(self.country_view()) == if self.edition_view() == GeoEdition::GeoLite2 {
            "GeoLite2-Country"@
        } else {
            "GeoIP2-Country"@
        }
        &&& type_identity(self.city_view()) == if self.edition_view() == GeoEdition::GeoLite2 {
            "GeoLite2-City"@
        } else {
            "GeoIP2-City"@
        }
    }

    /// The databases of an edition for a license.
    pub fn new(edition: GeoEdition, license: &MaxMindLicense) -> (r: GeoEditionTypes)
        ensures
            r.well_formed(),
            r.edition_view() == edition,
            r.license_view()@ == license@,
            r.license_view().valid() == license.valid(),
    {
        let key = license.license_key.clone();
        let (asn, country, city) = match edition {
            GeoEdition::GeoLite2 => (
                GeoEditionType::GeoLite2ASN(edition, key.clone()),
                GeoEditionType::GeoLite2Country(edition, key.clone()),
                GeoEditionType::GeoLite2City(edition, key),
            ),
            GeoEdition::GeoIP2 => (
                GeoEditionType::GeoIP2ASN(edition, key.clone()),
                GeoEditionType::GeoIP2Country(edition, key.clone()),
                GeoEditionType::GeoIP2City(edition, key),
            ),
        };
        GeoEditionTypes { license: license.duplicate(), edition, asn, country, city }
    }

    /// The databases of the same edition for another license.
    pub fn with_license(&self, license: &MaxMindLicense) -> (r: GeoEditionTypes)
        ensures
            r.well_formed(),
            r.edition_view() == self.edition_view(),
            r.license_view()@ == license@,
            r.license_view().valid() == license.valid(),
    {
        Self::new(self.edition, license)
    }

    /// The license.
    pub fn get_license(&self) -> (r: &MaxMindLicense)
        ensures
            *r == self.license_view(),
    {
        &self.license
    }

    /// The edition.
    pub fn edition(&self) -> (r: &GeoEdition)
        ensures
            *r == self.edition_view(),
    {
        &self.edition
    }

    /// Whether the edition is GeoLite2.
    pub fn is_lite(&self) -> (r: bool)
        ensures
            r == (self.edition_view() == GeoEdition::GeoLite2),
    {
        match self.edition {
            GeoEdition::GeoLite2 => true,
            GeoEdition::GeoIP2 => false,
        }
    }

    /// The ASN database.
    pub fn get_asn(&self) -> (r: &GeoEditionType)
        ensures
            *r == self.asn_view(),
    {
        &self.asn
    }

    /// The country database.
    pub fn get_country(&self) -> (r: &GeoEditionType)
        ensures
            *r == self.country_view(),
    {
        &self.country
    }

    /// The city database.
    pub fn get_city(&self) -> (r: &GeoEditionType)
        ensures
            *r == self.city_view(),
    {
        &self.city
    }

    fn duplicate(&self) -> (r: GeoEditionTypes)
        requires
            self.well_formed(),
        ensures
            r.well_formed(),
            r.edition_view() == self.edition_view(),
            r.license_view()@ == self.license_view()@,
            r.license_view().valid() == self.license_view().valid(),
    {
        GeoEditionTypes {
            license: self.license.duplicate(),
            edition: self.edition,
            asn: self.asn.duplicate(),
            country: self.country.duplicate(),
            city: self.city.duplicate(),
        }
    }
}

impl GeoEdition {
    /// The databases of this edition for a license.
    pub fn edition_type_arc(&self, license: &MaxMindLicense) -> (r: GeoEditionTypes)
        ensures
            r.well_formed(),
            r.edition_view() == *self,
            r.license_view()@ == license@,
            r.license_view().valid() == license.valid(),
    {
        GeoEditionTypes::new(*self, license)
    }

    /// The databases of this edition for a license.
    pub fn edition_type_ref(&self, license: &MaxMindLicense) -> (r: GeoEditionTypes)
        ensures
            r.well_formed(),
            r.edition_view() == *self,
            r.license_view()@ == license@,
            r.license_view().valid() == license.valid(),
    {
        GeoEditionTypes::new(*self, license)
    }

    /// The databases of this edition for a license.
    pub fn edition_type(self, license: &MaxMindLicense) -> (r: GeoEditionTypes)
        ensures
            r.well_formed(),
            r.edition_view() == self,
            r.license_view()@ == license@,
            r.license_view().valid() == license.valid(),
    {
        GeoEditionTypes::new(self, license)
    }
}

/// Access to the license and edition of a GeoIP source.
pub trait GeoIP {
    fn get_license(&self) -> &MaxMindLicense;

    fn get_edition(&self) -> &GeoEdition;
}

/// The names of the three databases that a download gives.
#[derive(Debug, Clone)]
pub struct GeoIPDownload {
    pub asn: String,
    pub country: String,
    pub city: String,
}

/// The GeoIP databases in use and their license.
#[derive(Debug, Clone)]
pub struct Maxmind {
    pub edition_types: GeoEditionTypes,
}

impl GeoIP for Maxmind {
    fn get_license(&self) -> (r: &MaxMindLicense) {
        self.edition_types.get_license()
    }

    fn get_edition(&self) -> (r: &GeoEdition) {
        self.edition_types.edition()
    }
}

impl Maxmind {
    /// The databases of an edition for a license.
    pub fn new(license: &MaxMindLicense, edition: GeoEdition) -> (r: Maxmind)
        ensures
            r.edition_types.well_formed(),
            r.edition_types.edition_view() == edition,
            r.edition_types.license_view()@ == license@,
            r.edition_types.license_view().valid() == license.valid(),
    {
        Maxmind { edition_types: edition.edition_type(license) }
    }

    /// Switches to another license: an invalid one is refused with an
    /// `InvalidInput` error and changes nothing; a valid one with another
    /// key replaces the databases (same edition, new key) and gives back
    /// the ones it replaced; a valid one with the same key changes nothing
    /// and gives back the databases in use.
    pub fn set_license_key(&mut self, license: MaxMindLicense) -> (r: Result<GeoEditionTypes, Error>)
        requires
            old(self).edition_types.well_formed(),
        ensures
            final(self).edition_types.well_formed(),
            match r {
                Ok(t) => {
                    &&& license.valid()
                    &&& t.well_formed()
                    &&& t.edition_view() == old(self).edition_types.edition_view()
                    &&& t.license_view()@ == old(self).edition_types.license_view()@
                    &&& final(self).edition_types.edition_view()
                        == old(self).edition_types.edition_view()
                    &&& final(self).edition_types.license_view()@ == license@
                    &&& final(self).edition_types.license_view().valid()
                        == (if old(self).edition_types.license_view()@ == license@ {
                        old(self).edition_types.license_view().valid()
                    } else {
                        true
                    })
                },
                Err(e) => {
                    &&& !license.valid()
                    &&& e@ == (ErrorType::InvalidInput, "Invalid license key"@)
                    &&& final(self).edition_types == old(self).edition_types
                },
            },
    {
        if !license.is_valid() {
            return Err(Error::invalid_input("Invalid license key"));
        }
        if !self.edition_types.get_license().license_match(&license) {
            let old_types = self.edition_types.duplicate();
            self.edition_types = self.edition_types.with_license(&license);
            return Ok(old_types);
        }
        Ok(self.edition_types.duplicate())
    }

    /// The databases in use.
    pub fn get_edition_types(&self) -> (r: &GeoEditionTypes)
        ensures
            *r == self.edition_types,
    {
        &self.edition_types
    }
}

} // verus!
