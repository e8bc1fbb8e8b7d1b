//! Data model of the release pipeline: semantic versions, downloadable
//! assets, the platform-to-asset map and resolved game releases.
//!
//! The platform map is kept as a list of entries where a later entry for the
//! same platform shadows an earlier one; its mathematical view is the map in
//! which the last write wins.

use vstd::prelude::*;

use crate::text::str_eq;

verus! {

/// A parsed semantic version: `major.minor.patch`, with optional pre-release
/// and build-metadata parts kept as text.
#[derive(Debug)]
pub struct Version {
    pub major: u64,
    pub minor: u64,
    pub patch: u64,
    pub pre: String,
    pub build: String,
}

pub ghost struct VersionView {
    pub major: int,
    pub minor: int,
    pub patch: int,
    pub pre: Seq<char>,
    pub build: Seq<char>,
}

impl View for Version {
    type V = VersionView;

    open spec fn view(&self) -> VersionView {
        VersionView {
            major: self.major as int,
            minor: self.minor as int,
            patch: self.patch as int,
            pre: self.pre@,
            build: self.build@,
        }
    }
}

impl Version {
    /// The plain version `major.minor.patch` with no pre-release or build part.
    pub fn new(major: u64, minor: u64, patch: u64) -> (r: Version)
        ensures
            r@.major == major as int,
            r@.minor == minor as int,
            r@.patch == patch as int,
            r@.pre.len() == 0,
            r@.build.len() == 0,
    {
        Version { major, minor, patch, pre: String::new(), build: String::new() }
    }

    pub fn duplicate(&self) -> (r: Version)
        ensures
            r@ == self@,
    {
        Version {
            major: self.major,
            minor: self.minor,
            patch: self.patch,
            pre: self.pre.clone(),
            build: self.build.clone(),
        }
    }
}

/// One downloadable artifact of a release.
#[derive(Debug)]
pub struct Asset {
    pub size: i64,
    /// Source filename; used only to match the companion checksum file.
    pub name: String,
    /// Version of the release this asset came from.
    pub version: Version,
    pub download_url: String,
    /// Absent when checksum resolution failed at the transport level.
    pub sha256: Option<String>,
}

pub ghost struct AssetView {
    pub size: int,
    pub name: Seq<char>,
    pub version: VersionView,
    pub download_url: Seq<char>,
    pub sha256: Option<Seq<char>>,
}

impl View for Asset {
    type V = AssetView;

    open spec fn view(&self) -> AssetView {
        AssetView {
            size: self.size as int,
            name: self.name@,
            version: self.version@,
            download_url: self.download_url@,
            sha256: match self.sha256 {
                Some(ref s) => Some(s@),
                None => None,
            },
        }
    }
}

/// A release asset as the release host lists it: name, size and download
/// location, before any checksum resolution.
#[derive(Debug)]
pub struct AssetEntry {
    pub name: String,
    pub size: i64,
    pub download_url: String,
}

pub ghost struct AssetEntryView {
    pub name: Seq<char>,
    pub size: int,
    pub download_url: Seq<char>,
}

impl View for AssetEntry {
    type V = AssetEntryView;

    open spec fn view(&self) -> AssetEntryView {
        AssetEntryView { name: self.name@, size: self.size as int, download_url: self.download_url@ }
    }
}

/// A release as the release host lists it.
#[derive(Debug)]
pub struct ReleaseEntry {
    pub tag_name: String,
    pub prerelease: bool,
    pub assets: Vec<AssetEntry>,
}

pub ghost struct ReleaseEntryView {
    pub tag_name: Seq<char>,
    pub prerelease: bool,
    pub assets: Seq<AssetEntryView>,
}

impl View for ReleaseEntry {
    type V = ReleaseEntryView;

    open spec fn view(&self) -> ReleaseEntryView {
        ReleaseEntryView {
            tag_name: self.tag_name@,
            prerelease: self.prerelease,
            assets: self.assets@.map_values(|a: AssetEntry| a@),
        }
    }
}

impl Asset {
    pub fn duplicate(&self) -> (r: Asset)
        ensures
            r@ == self@,
    {
        Asset {
            size: self.size,
            name: self.name.clone(),
            version: self.version.duplicate(),
            download_url: self.download_url.clone(),
            sha256: match &self.sha256 {
                Some(s) => Some(s.clone()),
                None => None,
            },
        }
    }

    /// A fresh asset for a listing entry, with no checksum yet.
    pub fn with_version(asset: &AssetEntry, version: Version) -> (r: Asset)
        ensures
            r@.size == asset@.size,
            r@.name == asset@.name,
            r@.version == version@,
            r@.download_url == asset@.download_url,
            r@.sha256 is None,
    {
        Asset {
            size: asset.size,
            name: asset.name.clone(),
            version,
            download_url: asset.download_url.clone(),
            sha256: None,
        }
    }
}

/// The platform-to-asset map, last write per platform winning.
pub open spec fn map_of(entries: Seq<(String, Asset)>) -> Map<Seq<char>, AssetView>
    decreases entries.len(),
{
    if entries.len() == 0 {
        Map::empty()
    } else {
        map_of(entries.drop_last()).insert(entries.last().0@, entries.last().1@)
    }
}

/// Mapping from platform identifier to asset.
#[derive(Debug)]
pub struct Assets {
    pub entries: Vec<(String, Asset)>,
}

impl View for Assets {
    type V = Map<Seq<char>, AssetView>;

    open spec fn view(&self) -> Map<Seq<char>, AssetView> {
        map_of(self.entries@)
    }
}

proof fn lemma_map_of_skip(entries: Seq<(String, Asset)>, i: int, k: Seq<char>)
    requires
        0 <= i <= entries.len(),
        forall|j: int| i <= j < entries.len() ==> entries[j].0@ != k,
    ensures
        map_of(entries).contains_key(k) == map_of(entries.subrange(0, i)).contains_key(k),
        map_of(entries).contains_key(k) ==> map_of(entries)[k] == map_of(
            entries.subrange(0, i),
        )[k],
    decreases entries.len() - i,
{
    if i < entries.len() {
        let shorter = entries.subrange(0, entries.len() - 1);
        assert(entries.drop_last() =~= shorter);
        assert(entries.last().0@ != k);
        lemma_map_of_skip(shorter, i, k);
        assert(shorter.subrange(0, i) =~= entries.subrange(0, i));
    } else {
        assert(entries.subrange(0, i) =~= entries);
    }
}

proof fn lemma_map_of_without_key(
    entries: Seq<(String, Asset)>,
    kept: Seq<(String, Asset)>,
    k: Seq<char>,
    pred: spec_fn((String, Asset)) -> bool,
)
    requires
        forall|p: (String, Asset)| #[trigger] pred(p) == (p.0@ != k),
        kept == entries.filter(pred),
    ensures
        map_of(kept) == map_of(entries).remove(k),
    decreases entries.len(),
{
    reveal(Seq::filter);
    if entries.len() == 0 {
        assert(kept.len() == 0);
        assert(map_of(kept) =~= map_of(entries).remove(k));
    } else {
        let prefix = entries.drop_last();
        let last = entries.last();
        let kept_prefix = prefix.filter(pred);
        lemma_map_of_without_key(prefix, kept_prefix, k, pred);
        if last.0@ == k {
            assert(kept == kept_prefix);
            assert(map_of(entries).remove(k) =~= map_of(prefix).remove(k));
        } else {
            assert(kept == kept_prefix.push(last));
            assert(kept.drop_last() =~= kept_prefix);
            assert(map_of(kept) == map_of(kept_prefix).insert(last.0@, last.1@));
            assert(map_of(entries).remove(k) =~= map_of(prefix).remove(k).insert(
                last.0@,
                last.1@,
            ));
        }
    }
}

impl Assets {
    pub fn new() -> (r: Assets)
        ensures
            r@ == Map::<Seq<char>, AssetView>::empty(),
            r.entries@.len() == 0,
    {
        Assets { entries: Vec::new() }
    }

    /// Record `value` under `key`, shadowing any earlier entry for `key`.
    pub fn insert(&mut self, key: String, value: Asset)
        ensures
            final(self)@ == old(self)@.insert(key@, value@),
            final(self).entries@ == old(self).entries@.push((key, value)),
    {
        let ghost before = self.entries@;
        self.entries.push((key, value));
        proof {
            assert(self.entries@.drop_last() =~= before);
        }
    }

    pub fn contains_key(&self, key: &str) -> (r: bool)
        ensures
            r == self@.contains_key(key@),
    {
        let n = self.entries.len();
        let mut i: usize = n;
        while i > 0
            invariant
                0 <= i <= n,
                n == self.entries@.len(),
                forall|j: int| i <= j < n ==> self.entries@[j].0@ != key@,
            decreases i,
        {
            if str_eq(self.entries[i - 1].0.as_str(), key) {
                proof {
                    lemma_map_of_contains_at(self.entries@, i - 1);
                }
                return true;
            }
            i -= 1;
        }
        proof {
            lemma_map_of_skip(self.entries@, 0, key@);
            assert(self.entries@.subrange(0, 0) =~= Seq::<(String, Asset)>::empty());
        }
        false
    }

    /// The asset recorded for `key`, if any.
    pub fn get(&self, key: &str) -> (r: Option<&Asset>)
        ensures
            match r {
                Some(a) => self@.contains_key(key@) && a@ == self@[key@],
                None => !self@.contains_key(key@),
            },
    {
        let n = self.entries.len();
        let mut i: usize = n;
        while i > 0
            invariant
                0 <= i <= n,
                n == self.entries@.len(),
                forall|j: int| i <= j < n ==> self.entries@[j].0@ != key@,
            decreases i,
        {
            if str_eq(self.entries[i - 1].0.as_str(), key) {
                proof {
                    lemma_map_of_contains_at(self.entries@, i - 1);
                    lemma_map_of_skip(self.entries@, i as int, key@);
                    lemma_map_of_last_match(self.entries@.subrange(0, i as int));
                }
                return Some(&self.entries[i - 1].1);
            }
            i -= 1;
        }
        proof {
            lemma_map_of_skip(self.entries@, 0, key@);
            assert(self.entries@.subrange(0, 0) =~= Seq::<(String, Asset)>::empty());
        }
        None
    }

    /// Drop every entry recorded for `key`, returning the shadowing one.
    pub fn remove(&mut self, key: &str) -> (r: Option<Asset>)
        ensures
            final(self)@ == old(self)@.remove(key@),
            match r {
                Some(a) => old(self)@.contains_key(key@) && a@ == old(self)@[key@],
                None => !old(self)@.contains_key(key@),
            },
    {
        let ghost all = self.entries@;
        let ghost pred = |p: (String, Asset)| p.0@ != key@;
        let mut found: Option<Asset> = None;
        // `i` walks the shrinking vector, `j` the original sequence; the
        // entries before `i` are exactly the original prefix before `j`
        // with the matching entries dropped.
        let mut i: usize = 0;
        let ghost mut j: int = 0;
        while i < self.entries.len()
            invariant
                0 <= i <= self.entries@.len(),
                0 <= j <= all.len(),
                i <= j,
                self.entries@ =~= all.subrange(0, j).filter(pred) + all.subrange(j, all.len() as int),
                i as int == all.subrange(0, j).filter(pred).len(),
                pred == (|p: (String, Asset)| p.0@ != key@),
                match found {
                    Some(a) => map_of(all.subrange(0, j)).contains_key(key@) && a@ == map_of(
                        all.subrange(0, j),
                    )[key@],
                    None => !map_of(all.subrange(0, j)).contains_key(key@),
                },
            decreases all.len() - j,
        {
            let ghost prefix = all.subrange(0, j);
            let ghost e = all[j];
            proof {
                assert(self.entries@[i as int] == all.subrange(j, all.len() as int)[0]);
                assert(e == self.entries@[i as int]);
                assert(all.subrange(0, j + 1).drop_last() =~= prefix);
                reveal(Seq::filter);
            }
            let hit = str_eq(self.entries[i].0.as_str(), key);
            if hit {
                let pair = self.entries.remove(i);
                proof {
                    assert(pair == e);
                    assert(!pred(e));
                    assert(all.subrange(0, j + 1).filter(pred) =~= prefix.filter(pred));
                    assert(all.subrange(j + 1, all.len() as int) =~= all.subrange(
                        j,
                        all.len() as int,
                    ).drop_first());
                    assert((prefix.filter(pred) + all.subrange(j, all.len() as int)).remove(
                        i as int,
                    ) =~= prefix.filter(pred) + all.subrange(j + 1, all.len() as int));
                    assert(map_of(all.subrange(0, j + 1)) == map_of(prefix).insert(e.0@, e.1@));
                }
                found = Some(pair.1);
            } else {
                proof {
                    assert(pred(e));
                    assert(all.subrange(0, j + 1).filter(pred) =~= prefix.filter(pred).push(e));
                    assert(all.subrange(j + 1, all.len() as int) =~= all.subrange(
                        j,
                        all.len() as int,
                    ).drop_first());
                    assert(prefix.filter(pred) + all.subrange(j, all.len() as int) =~= prefix.filter(
                        pred,
                    ).push(e) + all.subrange(j + 1, all.len() as int));
                    assert(map_of(all.subrange(0, j + 1)) == map_of(prefix).insert(e.0@, e.1@));
                    assert(map_of(prefix).insert(e.0@, e.1@).contains_key(key@)
                        == map_of(prefix).contains_key(key@));
                }
                i += 1;
            }
            proof {
                j = j + 1;
            }
        }
        proof {
            assert(all.subrange(j, all.len() as int).len() == 0);
            assert(all.subrange(0, j) =~= all);
            assert(self.entries@ =~= all.filter(pred));
            lemma_map_of_without_key(all, self.entries@, key@, pred);
        }
        found
    }
}

proof fn lemma_map_of_contains_at(entries: Seq<(String, Asset)>, i: int)
    requires
        0 <= i < entries.len(),
    ensures
        map_of(entries).contains_key(entries[i].0@),
    decreases entries.len(),
{
    if i == entries.len() - 1 {
    } else {
        lemma_map_of_contains_at(entries.drop_last(), i);
        assert(entries.drop_last()[i] == entries[i]);
    }
}

proof fn lemma_map_of_last_match(entries: Seq<(String, Asset)>)
    requires
        entries.len() > 0,
    ensures
        map_of(entries).contains_key(entries.last().0@),
        map_of(entries)[entries.last().0@] == entries.last().1@,
{
}

/// A resolved game release: the newest version, its assets bundle (possibly
/// inherited from an older release) and the per-platform binaries.
#[derive(Debug)]
pub struct GameRelease {
    pub assets: Asset,
    pub assets_version: Version,
    pub binaries: Assets,
    pub version: Version,
}

pub ghost struct GameReleaseView {
    pub assets: AssetView,
    pub assets_version: VersionView,
    pub binaries: Map<Seq<char>, AssetView>,
    pub version: VersionView,
}

impl View for GameRelease {
    type V = GameReleaseView;

    open spec fn view(&self) -> GameReleaseView {
        GameReleaseView {
            assets: self.assets@,
            assets_version: self.assets_version@,
            binaries: self.binaries@,
            version: self.version@,
        }
    }
}

/// Response body of the version route: the resolved assets bundle plus the
/// binary and updater assets for one platform.
#[derive(Debug)]
pub struct GameVersion {
    pub assets: Asset,
    pub assets_version: String,
    pub binaries: Asset,
    pub updater: Asset,
    pub version: String,
}

/// An external repository, identified by owner and name.
#[derive(Debug)]
pub struct Repo {
    owner: String,
    repository: String,
}

impl Repo {
    pub closed spec fn spec_owner(&self) -> Seq<char> {
        self.owner@
    }

    pub closed spec fn spec_repository(&self) -> Seq<char> {
        self.repository@
    }

    pub fn new(owner: &str, repository: &str) -> (r: Repo)
        ensures
            r.spec_owner() == owner@,
            r.spec_repository() == repository@,
    {
        Repo { owner: owner.to_owned(), repository: repository.to_owned() }
    }

    pub fn owner(&self) -> (r: &str)
        ensures
            r@ == self.spec_owner(),
    {
        self.owner.as_str()
    }

    pub fn repository(&self) -> (r: &str)
        ensures
            r@ == self.spec_repository(),
    {
        self.repository.as_str()
    }
}

} // verus!
