//! The configuration the pipeline runs under: the host version and the
//! allow-list of extensions to resolve, with their optional per-extension
//! overrides. Extension identities compare case-insensitively.

use vstd::prelude::*;

use crate::strutil::{lower_seq, str_eq, to_lowercase_str};

verus! {

/// One allow-list entry: an extension identity with its optional asset-URL
/// template and template context.
#[derive(Debug)]
pub struct Extension {
    pub publisher_name: String,
    pub extension_name: String,
    pub asset_url: Option<String>,
    pub system: Option<String>,
}

/// The configuration payload: host version text, an optional banner for
/// generated output, the allow-list, and a default template context.
#[derive(Debug)]
pub struct Config {
    pub vscode_version: String,
    pub autogen_warning: Option<String>,
    pub extensions: Vec<Extension>,
    pub system: Option<String>,
}

/// Does the entry name this identity? Identities are case-insensitive.
pub open spec fn entry_matches(e: Extension, publisher: Seq<char>, name: Seq<char>) -> bool {
    lower_seq(e.publisher_name@) == lower_seq(publisher) && lower_seq(e.extension_name@)
        == lower_seq(name)
}

/// The asset-URL template of the first entry naming the identity.
pub open spec fn spec_asset_url(
    es: Seq<Extension>,
    publisher: Seq<char>,
    name: Seq<char>,
) -> Option<Seq<char>>
    decreases es.len(),
{
    if es.len() == 0 {
        None
    } else if entry_matches(es.first(), publisher, name) {
        match es.first().asset_url {
            Some(u) => Some(u@),
            None => None,
        }
    } else {
        spec_asset_url(es.drop_first(), publisher, name)
    }
}

/// The template context of the first entry naming the identity.
pub open spec fn spec_system_ctx(
    es: Seq<Extension>,
    publisher: Seq<char>,
    name: Seq<char>,
) -> Option<Seq<char>>
    decreases es.len(),
{
    if es.len() == 0 {
        None
    } else if entry_matches(es.first(), publisher, name) {
        match es.first().system {
            Some(u) => Some(u@),
            None => None,
        }
    } else {
        spec_system_ctx(es.drop_first(), publisher, name)
    }
}

impl Config {
    /// Is the identity on the allow-list?
    pub fn contains(&self, publisher: &str, name: &str) -> (r: bool)
        ensures
            r == exists|i: int|
                0 <= i < self.extensions@.len() && entry_matches(
                    #[trigger] self.extensions@[i],
                    publisher@,
                    name@,
                ),
    {
        let lp = to_lowercase_str(publisher);
        let ln = to_lowercase_str(name);
        let n = self.extensions.len();
        let mut i: usize = 0;
        while i < n
            invariant
                n == self.extensions@.len(),
                0 <= i <= n,
                lp@ == lower_seq(publisher@),
                ln@ == lower_seq(name@),
                forall|j: int|
                    0 <= j < i ==> !entry_matches(#[trigger] self.extensions@[j], publisher@, name@),
            decreases n - i,
        {
            let ep = to_lowercase_str(self.extensions[i].publisher_name.as_str());
            let en = to_lowercase_str(self.extensions[i].extension_name.as_str());
            if str_eq(ep.as_str(), lp.as_str()) && str_eq(en.as_str(), ln.as_str()) {
                return true;
            }
            i += 1;
        }
        false
    }

    /// The configured asset-URL template for the identity, if any.
    pub fn get_asset_url(&self, publisher: &str, name: &str) -> (r: Option<String>)
        ensures
            match r {
                Some(u) => spec_asset_url(self.extensions@, publisher@, name@) == Some(u@),
                None => spec_asset_url(self.extensions@, publisher@, name@) is None,
            },
    {
        let lp = to_lowercase_str(publisher);
        let ln = to_lowercase_str(name);
        let n = self.extensions.len();
        let mut i: usize = 0;
        proof {
            assert(self.extensions@.skip(0) =~= self.extensions@);
        }
        while i < n
            invariant
                n == self.extensions@.len(),
                0 <= i <= n,
                lp@ == lower_seq(publisher@),
                ln@ == lower_seq(name@),
                spec_asset_url(self.extensions@, publisher@, name@) == spec_asset_url(
                    self.extensions@.skip(i as int),
                    publisher@,
                    name@,
                ),
            decreases n - i,
        {
            proof {
                assert(self.extensions@.skip(i as int).first() == self.extensions@[i as int]);
                assert(self.extensions@.skip(i as int).drop_first() =~= self.extensions@.skip(
                    i + 1,
                ));
            }
            let ep = to_lowercase_str(self.extensions[i].publisher_name.as_str());
            let en = to_lowercase_str(self.extensions[i].extension_name.as_str());
            if str_eq(ep.as_str(), lp.as_str()) && str_eq(en.as_str(), ln.as_str()) {
                return match &self.extensions[i].asset_url {
                    Some(u) => Some(u.clone()),
                    None => None,
                };
            }
            i += 1;
        }
        proof {
            assert(self.extensions@.skip(n as int) =~= Seq::<Extension>::empty());
        }
        None
    }

    /// The configured template context for the identity, if any.
    pub fn get_system_ctx(&self, publisher: &str, name: &str) -> (r: Option<String>)
        ensures
            match r {
                Some(u) => spec_system_ctx(self.extensions@, publisher@, name@) == Some(u@),
                None => spec_system_ctx(self.extensions@, publisher@, name@) is None,
            },
    {
        let lp = to_lowercase_str(publisher);
        let ln = to_lowercase_str(name);
        let n = self.extensions.len();
        let mut i: usize = 0;
        proof {
            assert(self.extensions@.skip(0) =~= self.extensions@);
        }
        while i < n
            invariant
                n == self.extensions@.len(),
                0 <= i <= n,
                lp@ == lower_seq(publisher@),
                ln@ == lower_seq(name@),
                spec_system_ctx(self.extensions@, publisher@, name@) == spec_system_ctx(
                    self.extensions@.skip(i as int),
                    publisher@,
                    name@,
                ),
            decreases n - i,
        {
            proof {
                assert(self.extensions@.skip(i as int).first() == self.extensions@[i as int]);
                assert(self.extensions@.skip(i as int).drop_first() =~= self.extensions@.skip(
                    i + 1,
                ));
            }
            let ep = to_lowercase_str(self.extensions[i].publisher_name.as_str());
            let en = to_lowercase_str(self.extensions[i].extension_name.as_str());
            if str_eq(ep.as_str(), lp.as_str()) && str_eq(en.as_str(), ln.as_str()) {
                return match &self.extensions[i].system {
                    Some(u) => Some(u.clone()),
                    None => None,
                };
            }
            i += 1;
        }
        proof {
            assert(self.extensions@.skip(n as int) =~= Seq::<Extension>::empty());
        }
        None
    }
}

} // verus!
