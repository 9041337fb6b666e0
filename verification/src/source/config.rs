//! How a source presents itself on the network.

use vstd::prelude::*;
use vstd::string::StringExecFns;

verus! {

/// The service type that sources are advertised under.
pub const SERVICE_TYPE: &'static str = "_ndi._tcp.local.";

/// The key of the record that lists a source's groups.
pub const GROUPS_KEY: &'static str = "groups";

/// The group of a source that names none.
pub const DEFAULT_GROUP: &'static str = "public";

/// What the owner of a source chooses.
#[derive(Debug, PartialEq, Eq)]
pub struct Config {
    /// The base name of the source.
    pub name: String,
    /// The groups the source belongs to, if it names any.
    pub groups: Option<Vec<String>>,
}

/// Strings as mathematical values.
pub open spec fn spec_texts(strings: Seq<String>) -> Seq<Seq<char>> {
    strings.map_values(|s: String| s@)
}

/// `parts` in a row, with `separator` between neighbours.
pub open spec fn spec_join(parts: Seq<Seq<char>>, separator: Seq<char>) -> Seq<char>
    decreases parts.len(),
{
    if parts.len() == 0 {
        Seq::empty()
    } else if parts.len() == 1 {
        parts[0]
    } else {
        spec_join(parts.drop_last(), separator) + separator + parts.last()
    }
}

/// The groups record of a source: its groups, joined by commas; the
/// default group if it names none.
pub open spec fn spec_groups(groups: Option<Seq<Seq<char>>>) -> Seq<char> {
    match groups {
        Some(names) => spec_join(names, ","@),
        None => DEFAULT_GROUP@,
    }
}

/// The name of a source on the network: the host, then the base name in
/// brackets.
pub open spec fn spec_name(host: Seq<char>, base: Seq<char>) -> Seq<char> {
    host + " ("@ + base + ")"@
}

/// Joins `parts` with `separator` between neighbours.
pub fn join(parts: &Vec<String>, separator: &str) -> (joined: String)
    ensures
        joined@ == spec_join(spec_texts(parts@), separator@),
{
    let ghost texts = spec_texts(parts@);
    let mut joined = String::new();
    let mut i: usize = 0;
    while i < parts.len()
        invariant
            i <= parts@.len(),
            texts == spec_texts(parts@),
            joined@ == spec_join(texts.take(i as int), separator@),
        decreases parts@.len() - i,
    {
        assert(texts.take(i + 1).drop_last() =~= texts.take(i as int));
        assert(texts.take(i + 1).last() == parts@[i as int]@);
        if i == 0 {
            assert(joined@ =~= Seq::<char>::empty());
            assert(Seq::<char>::empty() + parts@[0]@ =~= parts@[0]@);
        } else {
            joined.append(separator);
        }
        joined.append(parts[i].as_str());
        i += 1;
    }
    assert(texts.take(i as int) =~= texts);
    joined
}

/// The name of a source on the network.
pub fn name(host: &str, base: &str) -> (full: String)
    ensures
        full@ == spec_name(host@, base@),
{
    let mut full = String::new();
    full.append(host);
    full.append(" (");
    full.append(base);
    full.append(")");
    assert(full@ =~= spec_name(host@, base@));
    full
}

impl Config {
    /// The groups as mathematical values.
    pub open spec fn spec_group_names(&self) -> Option<Seq<Seq<char>>> {
        match self.groups {
            Some(names) => Some(spec_texts(names@)),
            None => None,
        }
    }

    /// The groups record of the source.
    pub fn groups_txt(&self) -> (record: String)
        ensures
            record@ == spec_groups(self.spec_group_names()),
    {
        match &self.groups {
            Some(names) => join(names, ","),
            None => {
                let mut record = String::new();
                record.append(DEFAULT_GROUP);
                assert(record@ =~= DEFAULT_GROUP@);
                record
            },
        }
    }
}

/// What is announced of a source.
#[derive(Debug, PartialEq, Eq)]
pub struct Advertisement {
    /// The name of the source on the network.
    pub instance: String,
    /// The host the source runs on.
    pub host: String,
    /// The port the source listens on; zero until one is bound.
    pub port: u16,
    /// The groups record.
    pub groups: String,
}

#[verifier::ext_equal]
pub struct AdvertisementView {
    pub instance: Seq<char>,
    pub host: Seq<char>,
    pub port: u16,
    pub groups: Seq<char>,
}

impl View for Advertisement {
    type V = AdvertisementView;

    open spec fn view(&self) -> AdvertisementView {
        AdvertisementView {
            instance: self.instance@,
            host: self.host@,
            port: self.port,
            groups: self.groups@,
        }
    }
}

impl Clone for Advertisement {
    fn clone(&self) -> (copy: Self)
        ensures
            copy@ == self@,
    {
        Advertisement {
            instance: self.instance.clone(),
            host: self.host.clone(),
            port: self.port,
            groups: self.groups.clone(),
        }
    }
}

impl AdvertisementView {
    /// What a source made from `name` and `groups` on `host` announces
    /// before a port is bound.
    pub open spec fn of(name: Seq<char>, groups: Option<Seq<Seq<char>>>, host: Seq<char>)
        -> AdvertisementView {
        AdvertisementView {
            instance: spec_name(host, name),
            host,
            port: 0,
            groups: spec_groups(groups),
        }
    }
}

impl Advertisement {
    /// What a source with `config` on `host` announces before a port is
    /// bound.
    pub fn of(config: &Config, host: &str) -> (service: Advertisement)
        ensures
            service@ == AdvertisementView::of(config.name@, config.spec_group_names(), host@),
    {
        let mut owned = String::new();
        owned.append(host);
        assert(owned@ =~= host@);
        Advertisement {
            instance: name(host, config.name.as_str()),
            host: owned,
            port: 0,
            groups: config.groups_txt(),
        }
    }
}

} // verus!
