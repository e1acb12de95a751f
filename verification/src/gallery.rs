//! The raw gallery data model: what one paginated query result carries,
//! flattened to the plain values the resolution engine reads.

use vstd::prelude::*;

use crate::platform::{spec_platform_of, platform_of_str, TargetPlatform};
use crate::strutil::{lower_seq, str_eq, to_lowercase_str};
use crate::GalleryError;

verus! {

/// One key/value property attached to a published version.
#[derive(Debug)]
pub struct GalleryProperty {
    pub key: String,
    pub value: String,
}

/// One downloadable file attached to a published version.
#[derive(Debug)]
pub struct GalleryFile {
    pub asset_type: String,
    pub source: String,
}

/// One published version record of an extension: version string, optional
/// target-platform tag (absent means unscoped/universal), its properties
/// (among them the declared engine range) and its files.
#[derive(Debug)]
pub struct IRawGalleryExtensionVersion {
    pub version: String,
    pub target_platform: Option<String>,
    pub properties: Vec<GalleryProperty>,
    pub files: Vec<GalleryFile>,
}

/// The property key under which a version declares its engine range.
pub open spec fn engine_key() -> Seq<char> {
    "Microsoft.VisualStudio.Code.Engine"@
}

/// The declared engine range: the value of the first engine property.
pub open spec fn spec_engine(props: Seq<GalleryProperty>) -> Option<Seq<char>>
    decreases props.len(),
{
    if props.len() == 0 {
        None
    } else if props.first().key@ == engine_key() {
        Some(props.first().value@)
    } else {
        spec_engine(props.drop_first())
    }
}

/// Asset kinds the pipeline reads from a version's file list.
#[derive(Clone, Copy, PartialEq, Eq, Structural, Debug)]
pub enum AssetType {
    /// The installable package itself.
    Vsix,
}

/// The gallery's name for an asset kind.
pub open spec fn asset_type_chars(t: AssetType) -> Seq<char> {
    match t {
        AssetType::Vsix => "Microsoft.VisualStudio.Services.VSIXPackage"@,
    }
}

/// The source location of the first file of the given asset kind.
pub open spec fn spec_file_source(files: Seq<GalleryFile>, t: Seq<char>) -> Option<Seq<char>>
    decreases files.len(),
{
    if files.len() == 0 {
        None
    } else if files.first().asset_type@ == t {
        Some(files.first().source@)
    } else {
        spec_file_source(files.drop_first(), t)
    }
}

impl IRawGalleryExtensionVersion {
    /// The engine-compatibility range this version declares, if any.
    pub fn get_engine(&self) -> (r: Option<String>)
        ensures
            match r {
                Some(e) => spec_engine(self.properties@) == Some(e@),
                None => spec_engine(self.properties@) is None,
            },
    {
        let n = self.properties.len();
        let mut i: usize = 0;
        proof {
            assert(self.properties@.skip(0) =~= self.properties@);
        }
        while i < n
            invariant
                n == self.properties@.len(),
                0 <= i <= n,
                spec_engine(self.properties@) == spec_engine(self.properties@.skip(i as int)),
        decreases n - i,
        {
            proof {
                assert(self.properties@.skip(i as int).first() == self.properties@[i as int]);
                assert(self.properties@.skip(i as int).drop_first() =~= self.properties@.skip(
                    i + 1,
                ));
            }
            if str_eq(self.properties[i].key.as_str(), "Microsoft.VisualStudio.Code.Engine") {
                return Some(self.properties[i].value.clone());
            }
            i += 1;
        }
        proof {
            assert(self.properties@.skip(n as int) =~= Seq::<GalleryProperty>::empty());
        }
        None
    }

    /// The source location of this version's file of the given asset kind.
    pub fn get_file(&self, t: AssetType) -> (r: Option<String>)
        ensures
            match r {
                Some(src) => spec_file_source(self.files@, asset_type_chars(t)) == Some(src@),
                None => spec_file_source(self.files@, asset_type_chars(t)) is None,
            },
    {
        let key: &str = match t {
            AssetType::Vsix => "Microsoft.VisualStudio.Services.VSIXPackage",
        };
        let n = self.files.len();
        let mut i: usize = 0;
        proof {
            assert(self.files@.skip(0) =~= self.files@);
        }
        while i < n
            invariant
                n == self.files@.len(),
                0 <= i <= n,
                key@ == asset_type_chars(t),
                spec_file_source(self.files@, asset_type_chars(t)) == spec_file_source(
                    self.files@.skip(i as int),
                    asset_type_chars(t),
                ),
            decreases n - i,
        {
            proof {
                assert(self.files@.skip(i as int).first() == self.files@[i as int]);
                assert(self.files@.skip(i as int).drop_first() =~= self.files@.skip(i + 1));
            }
            if str_eq(self.files[i].asset_type.as_str(), key) {
                return Some(self.files[i].source.clone());
            }
            i += 1;
        }
        proof {
            assert(self.files@.skip(n as int) =~= Seq::<GalleryFile>::empty());
        }
        None
    }
}

/// The publisher half of an extension identity.
#[derive(Debug)]
pub struct IRawGalleryExtensionPublisher {
    pub publisher_name: String,
}

/// One extension as the gallery reports it: identity plus its published
/// version records.
#[derive(Debug)]
pub struct IRawGalleryExtension {
    pub extension_name: String,
    pub publisher: IRawGalleryExtensionPublisher,
    pub versions: Vec<IRawGalleryExtensionVersion>,
}

/// One named entry of a result's side-channel metadata bucket.
#[derive(Debug)]
pub struct MetaDataItem {
    pub name: String,
    pub count: u64,
}

/// One side-channel metadata bucket of a result page.
#[derive(Debug)]
pub struct ResultMetaData {
    pub metadata_type: String,
    pub metadata_items: Vec<MetaDataItem>,
}

/// The metadata bucket naming target platforms.
pub open spec fn target_platforms_key() -> Seq<char> {
    "TargetPlatforms"@
}

/// The first metadata bucket of the given type.
pub open spec fn spec_metadata_of(meta: Seq<ResultMetaData>, t: Seq<char>) -> Option<
    Seq<MetaDataItem>,
>
    decreases meta.len(),
{
    if meta.len() == 0 {
        None
    } else if meta.first().metadata_type@ == t {
        Some(meta.first().metadata_items@)
    } else {
        spec_metadata_of(meta.drop_first(), t)
    }
}

/// The platforms named by a metadata item list, unfiltered.
pub open spec fn spec_named_platforms(items: Seq<MetaDataItem>) -> Seq<TargetPlatform> {
    items.map_values(|it: MetaDataItem| spec_platform_of(it.name@))
}

/// One result page: extensions plus the side-channel metadata buckets.
#[derive(Debug)]
pub struct IRawGalleryExtensionsResult {
    pub extensions: Vec<IRawGalleryExtension>,
    pub result_metadata: Vec<ResultMetaData>,
}

/// The whole envelope a query answers with: zero or more result pages.
#[derive(Debug)]
pub struct IRawGalleryQueryResult {
    pub results: Vec<IRawGalleryExtensionsResult>,
}

/// The entry names this extension identity; identities are
/// case-insensitive.
pub open spec fn identity_matches(
    e: IRawGalleryExtension,
    publisher: Seq<char>,
    name: Seq<char>,
) -> bool {
    lower_seq(e.publisher.publisher_name@) == lower_seq(publisher) && lower_seq(e.extension_name@)
        == lower_seq(name)
}

/// The version lists of every entry naming the identity, in order: the
/// gallery may split one logical extension across several result entries.
pub open spec fn spec_merged_exts(
    exts: Seq<IRawGalleryExtension>,
    publisher: Seq<char>,
    name: Seq<char>,
) -> Seq<IRawGalleryExtensionVersion>
    decreases exts.len(),
{
    if exts.len() == 0 {
        Seq::empty()
    } else {
        (if identity_matches(exts.first(), publisher, name) {
            exts.first().versions@
        } else {
            Seq::<IRawGalleryExtensionVersion>::empty()
        }) + spec_merged_exts(exts.drop_first(), publisher, name)
    }
}

/// The merged version lists across all pages, in page order.
pub open spec fn spec_merged_pages(
    pages: Seq<IRawGalleryExtensionsResult>,
    publisher: Seq<char>,
    name: Seq<char>,
) -> Seq<IRawGalleryExtensionVersion>
    decreases pages.len(),
{
    if pages.len() == 0 {
        Seq::empty()
    } else {
        spec_merged_exts(pages.first().extensions@, publisher, name) + spec_merged_pages(
            pages.drop_first(),
            publisher,
            name,
        )
    }
}

/// Some entry names the identity.
pub open spec fn any_match_exts(
    exts: Seq<IRawGalleryExtension>,
    publisher: Seq<char>,
    name: Seq<char>,
) -> bool
    decreases exts.len(),
{
    if exts.len() == 0 {
        false
    } else {
        identity_matches(exts.first(), publisher, name) || any_match_exts(
            exts.drop_first(),
            publisher,
            name,
        )
    }
}

/// Some entry of some page names the identity.
pub open spec fn any_match_pages(
    pages: Seq<IRawGalleryExtensionsResult>,
    publisher: Seq<char>,
    name: Seq<char>,
) -> bool
    decreases pages.len(),
{
    if pages.len() == 0 {
        false
    } else {
        any_match_exts(pages.first().extensions@, publisher, name) || any_match_pages(
            pages.drop_first(),
            publisher,
            name,
        )
    }
}

/// Merges, across all fetched pages, the version lists of every entry
/// naming the requested identity — not just the first entry. Fails with
/// `NotFound` exactly when no page holds a matching entry.
pub fn merge_extension_versions(
    pages: Vec<IRawGalleryExtensionsResult>,
    publisher: &str,
    name: &str,
) -> (r: Result<Vec<IRawGalleryExtensionVersion>, GalleryError>)
    ensures
        match r {
            Ok(vs) => any_match_pages(pages@, publisher@, name@) && vs@ == spec_merged_pages(
                pages@,
                publisher@,
                name@,
            ),
            Err(e) => e == GalleryError::NotFound && !any_match_pages(pages@, publisher@, name@),
        },
{
    let lp = to_lowercase_str(publisher);
    let ln = to_lowercase_str(name);
    let mut rest = pages;
    let mut versions: Vec<IRawGalleryExtensionVersion> = Vec::new();
    let mut found = false;
    proof {
        assert(versions@ + spec_merged_pages(rest@, publisher@, name@) =~= spec_merged_pages(
            pages@,
            publisher@,
            name@,
        ));
    }
    while rest.len() > 0
        invariant
            lp@ == lower_seq(publisher@),
            ln@ == lower_seq(name@),
            versions@ + spec_merged_pages(rest@, publisher@, name@) == spec_merged_pages(
                pages@,
                publisher@,
                name@,
            ),
            any_match_pages(pages@, publisher@, name@) == (found || any_match_pages(
                rest@,
                publisher@,
                name@,
            )),
        decreases rest@.len(),
    {
        let ghost rest0 = rest@;
        let page = rest.remove(0);
        proof {
            assert(rest@ =~= rest0.drop_first());
            assert(page == rest0.first());
        }
        let mut exts = page.extensions;
        proof {
            assert(versions@ + (spec_merged_exts(exts@, publisher@, name@) + spec_merged_pages(
                rest@,
                publisher@,
                name@,
            )) =~= spec_merged_pages(pages@, publisher@, name@));
        }
        while exts.len() > 0
            invariant
                lp@ == lower_seq(publisher@),
                ln@ == lower_seq(name@),
                versions@ + (spec_merged_exts(exts@, publisher@, name@) + spec_merged_pages(
                    rest@,
                    publisher@,
                    name@,
                )) == spec_merged_pages(pages@, publisher@, name@),
                any_match_pages(pages@, publisher@, name@) == (found || any_match_exts(
                    exts@,
                    publisher@,
                    name@,
                ) || any_match_pages(rest@, publisher@, name@)),
            decreases exts@.len(),
        {
            let ghost exts0 = exts@;
            let mut ext = exts.remove(0);
            proof {
                assert(exts@ =~= exts0.drop_first());
                assert(ext == exts0.first());
            }
            let ep = to_lowercase_str(ext.publisher.publisher_name.as_str());
            let en = to_lowercase_str(ext.extension_name.as_str());
            if str_eq(ep.as_str(), lp.as_str()) && str_eq(en.as_str(), ln.as_str()) {
                found = true;
                let ghost vs0 = versions@;
                versions.append(&mut ext.versions);
                proof {
                    assert(versions@ + (spec_merged_exts(exts@, publisher@, name@)
                        + spec_merged_pages(rest@, publisher@, name@)) =~= vs0 + (spec_merged_exts(
                        exts0,
                        publisher@,
                        name@,
                    ) + spec_merged_pages(rest@, publisher@, name@)));
                }
            } else {
                proof {
                    assert(versions@ + (spec_merged_exts(exts@, publisher@, name@)
                        + spec_merged_pages(rest@, publisher@, name@)) =~= versions@ + (
                    spec_merged_exts(exts0, publisher@, name@) + spec_merged_pages(
                        rest@,
                        publisher@,
                        name@,
                    )));
                }
            }
        }
        proof {
            assert(spec_merged_exts(exts@, publisher@, name@) =~= Seq::<
                IRawGalleryExtensionVersion,
            >::empty());
            assert(versions@ + spec_merged_pages(rest@, publisher@, name@) =~= versions@ + (
            spec_merged_exts(exts@, publisher@, name@) + spec_merged_pages(
                rest@,
                publisher@,
                name@,
            )));
        }
    }
    proof {
        assert(spec_merged_pages(rest@, publisher@, name@) =~= Seq::<
            IRawGalleryExtensionVersion,
        >::empty());
        assert(versions@ =~= versions@ + spec_merged_pages(rest@, publisher@, name@));
    }
    if found {
        Ok(versions)
    } else {
        Err(GalleryError::NotFound)
    }
}

impl IRawGalleryExtensionsResult {
    /// The platforms named by this result's `TargetPlatforms` metadata
    /// bucket, in order; empty when the bucket is absent. Sentinel filtering
    /// is the discovery policy's business, not this accessor's.
    pub fn get_target_platform(&self) -> (r: Vec<TargetPlatform>)
        ensures
            r@ == match spec_metadata_of(self.result_metadata@, target_platforms_key()) {
                Some(items) => spec_named_platforms(items),
                None => Seq::<TargetPlatform>::empty(),
            },
    {
        let n = self.result_metadata.len();
        let mut i: usize = 0;
        proof {
            assert(self.result_metadata@.skip(0) =~= self.result_metadata@);
        }
        while i < n
            invariant
                n == self.result_metadata@.len(),
                0 <= i <= n,
                spec_metadata_of(self.result_metadata@, target_platforms_key())
                    == spec_metadata_of(
                    self.result_metadata@.skip(i as int),
                    target_platforms_key(),
                ),
            decreases n - i,
        {
            proof {
                assert(self.result_metadata@.skip(i as int).first() == self.result_metadata@[
                    i as int]);
                assert(self.result_metadata@.skip(i as int).drop_first()
                    =~= self.result_metadata@.skip(i + 1));
            }
            if str_eq(self.result_metadata[i].metadata_type.as_str(), "TargetPlatforms") {
                let items = &self.result_metadata[i].metadata_items;
                let mut out: Vec<TargetPlatform> = Vec::new();
                let mut j: usize = 0;
                while j < items.len()
                    invariant
                        0 <= j <= items@.len(),
                        out@ == spec_named_platforms(items@.take(j as int)),
                    decreases items@.len() - j,
                {
                    let p = platform_of_str(items[j].name.as_str());
                    out.push(p);
                    proof {
                        assert(items@.take(j + 1) =~= items@.take(j as int).push(items@[j as int]));
                        assert(spec_named_platforms(items@.take(j + 1)) =~= spec_named_platforms(
                            items@.take(j as int),
                        ).push(spec_platform_of(items@[j as int].name@)));
                    }
                    j += 1;
                }
                proof {
                    assert(items@.take(items@.len() as int) =~= items@);
                }
                return out;
            }
            i += 1;
        }
        proof {
            assert(self.result_metadata@.skip(n as int) =~= Seq::<ResultMetaData>::empty());
        }
        Vec::new()
    }
}

} // verus!
