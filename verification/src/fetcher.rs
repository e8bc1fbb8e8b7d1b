//! Resolution of game and updater releases from a plain release listing.
//!
//! The release host and the checksum endpoint are reached elsewhere; this
//! module takes the listing and the checksum responses as values and carries
//! out everything the service decides: platform derivation, checksum
//! verification, version filtering and the back-fill merge across releases.

use vstd::prelude::*;
use vstd::string::StrSliceExecFns;
use vstd::string::StringExecFns;

use crate::errors::InternalError;
use crate::game_data::{Asset, AssetEntry, Assets, AssetView, GameRelease, ReleaseEntry,
    Version, VersionView};
use crate::text::{ends_with, find_char, index_of_char, lemma_index_of_char_agrees,
    spec_ends_with, split_ws, str_eq, ws_tokens};

verus! {

/// What came back from one checksum endpoint: the response text, or a
/// transport failure, which is tolerated by leaving the checksum absent.
#[derive(Debug)]
pub enum ChecksumResponse {
    Body(String),
    TransportFailure,
}

/// What `semver::Version::parse` yields for a tag: major, minor and patch
/// numbers with the pre-release and build-metadata text, or nothing when the
/// tag is not a semantic version.
pub uninterp spec fn semver_of(tag: Seq<char>) -> Option<(u64, u64, u64, Seq<char>, Seq<char>)>;

/// The version view for a parse result.
pub open spec fn version_view_of(t: (u64, u64, u64, Seq<char>, Seq<char>)) -> VersionView {
    VersionView { major: t.0 as int, minor: t.1 as int, patch: t.2 as int, pre: t.3, build: t.4 }
}

/// Relies on semver's `Version::parse`: the parse result is a function of
/// the tag text alone, and its major, minor, patch, pre-release and build
/// parts are handed over unchanged.
#[verifier::external_body]
fn parse_version(tag: &str) -> (r: Option<Version>)
    ensures
        match semver_of(tag@) {
            Some(t) => (r matches Some(v) && v@ == version_view_of(t)),
            None => r is None,
        },
{
    match semver::Version::parse(tag) {
        Ok(v) => Some(Version {
            major: v.major,
            minor: v.minor,
            patch: v.patch,
            pre: v.pre.as_str().to_string(),
            build: v.build.as_str().to_string(),
        }),
        Err(_) => None,
    }
}

/// The platform identifier for an asset filename: everything before the
/// first dot, with a trailing `_releasedbg` marker stripped.
pub open spec fn platform_of(name: Seq<char>) -> Seq<char> {
    let base = match index_of_char(name, '.') {
        Some(i) => name.subrange(0, i),
        None => name,
    };
    if spec_ends_with(base, "_releasedbg"@) {
        base.subrange(0, base.len() - "_releasedbg"@.len())
    } else {
        base
    }
}

/// Derive the platform identifier from an asset filename.
pub fn remove_game_suffix(asset_name: &str) -> (r: &str)
    ensures
        r@ == platform_of(asset_name@),
{
    let base = match find_char(asset_name, '.') {
        Some(i) => {
            proof {
                lemma_index_of_char_agrees(asset_name@, '.', Some(i as int));
            }
            asset_name.substring_char(0, i)
        },
        None => {
            proof {
                lemma_index_of_char_agrees(asset_name@, '.', None);
            }
            asset_name
        },
    };
    let marker = "_releasedbg";
    if ends_with(base, marker) {
        base.substring_char(0, base.unicode_len() - marker.unicode_len())
    } else {
        base
    }
}

/// Whether a filename follows the companion checksum-file convention.
pub open spec fn is_checksum_name(name: Seq<char>) -> bool {
    spec_ends_with(name, ".sha256"@)
}

/// The outcome of parsing a checksum body for an asset named `name`: the
/// hash of a well-formed body naming the asset, `WrongChecksum` for a
/// two-token body naming anything else, and `InvalidSha256` with the token
/// count otherwise.
pub open spec fn spec_parse_checksum(name: Seq<char>, response: Seq<char>) -> Result<
    Seq<char>,
    InternalError,
> {
    let parts = ws_tokens(response);
    if parts.len() != 2 {
        Err(InternalError::InvalidSha256(parts.len() as usize))
    } else if parts[1].len() == 0 || parts[1][0] != '*' || parts[1].drop_first() != name {
        Err(InternalError::WrongChecksum)
    } else {
        Ok(parts[0])
    }
}

/// Parse a checksum body: exactly two whitespace-separated tokens, the
/// second the asset's own name behind a `*` marker; the first is the hash.
pub fn parse_checksum_response(asset_name: &str, response: &str) -> (r: Result<
    String,
    InternalError,
>)
    ensures
        match (r, spec_parse_checksum(asset_name@, response@)) {
            (Ok(h), Ok(hs)) => h@ == hs,
            (Err(e), Err(es)) => e == es,
            _ => false,
        },
{
    let parts = split_ws(response);
    proof {
        assert(parts@.map_values(|t: String| t@).len() == parts@.len());
    }
    if parts.len() != 2 {
        return Err(InternalError::InvalidSha256(parts.len()));
    }
    let ghost tokens = ws_tokens(response@);
    proof {
        assert(parts@[0]@ == tokens[0] && parts@[1]@ == tokens[1]);
    }
    let filename = &parts[1];
    let flen = filename.as_str().unicode_len();
    if flen == 0 {
        return Err(InternalError::WrongChecksum);
    }
    if filename.as_str().get_char(0) != '*' {
        return Err(InternalError::WrongChecksum);
    }
    let stripped = filename.as_str().substring_char(1, flen);
    proof {
        assert(stripped@ =~= tokens[1].drop_first());
    }
    if !str_eq(stripped, asset_name) {
        return Err(InternalError::WrongChecksum);
    }
    let sha = parts[0].clone();
    Ok(sha)
}

/// The response recorded for a download location; an address nobody fetched
/// counts as a transport failure, so its checksum stays absent.
pub open spec fn lookup_checksum(
    checks: Seq<(String, ChecksumResponse)>,
    url: Seq<char>,
) -> ChecksumResponse
    decreases checks.len(),
{
    if checks.len() == 0 {
        ChecksumResponse::TransportFailure
    } else if checks[0].0@ == url {
        checks[0].1
    } else {
        lookup_checksum(checks.drop_first(), url)
    }
}

/// Find the checksum response recorded for `url`.
fn lookup_checksum_response<'a>(
    checks: &'a Vec<(String, ChecksumResponse)>,
    url: &str,
) -> (r: &'a ChecksumResponse)
    ensures
        *r == lookup_checksum(checks@, url@),
{
    let n = checks.len();
    let mut i: usize = 0;
    proof {
        assert(checks@.skip(0) =~= checks@);
    }
    while i < n
        invariant
            0 <= i <= n,
            n == checks@.len(),
            lookup_checksum(checks@, url@) == lookup_checksum(
                checks@.skip(i as int),
                url@,
            ),
        decreases n - i,
    {
        proof {
            assert(checks@.skip(i as int)[0] == checks@[i as int]);
        }
        if str_eq(checks[i].0.as_str(), url) {
            return &checks[i].1;
        }
        proof {
            assert(checks@.skip(i as int).drop_first() =~= checks@.skip(i + 1));
        }
        i += 1;
    }
    proof {
        assert(checks@.skip(n as int).len() == 0);
    }
    &ChecksumResponse::TransportFailure
}

/// Whether a listed release takes part in resolution: not a pre-release,
/// and its tag parses as a semantic version.
pub open spec fn eligible_pred(r: ReleaseEntry) -> bool {
    !r.prerelease && semver_of(r.tag_name@) is Some
}

/// The eligible releases in listing order.
pub open spec fn eligible_filter(rs: Seq<ReleaseEntry>) -> Seq<ReleaseEntry> {
    rs.filter(|r: ReleaseEntry| eligible_pred(r))
}

/// The eligible releases, in listing order, each with its parsed version.
pub open spec fn eligible_releases(rs: Seq<ReleaseEntry>) -> Seq<(VersionView, ReleaseEntry)> {
    eligible_filter(rs).map_values(
        |r: ReleaseEntry| (version_view_of(semver_of(r.tag_name@)->Some_0), r),
    )
}

/// The asset recorded for a listing entry: its fields, the version of the
/// release it came from, and the checksum outcome.
pub open spec fn asset_view_for(a: AssetEntry, v: VersionView, sha: Option<Seq<char>>) -> AssetView {
    AssetView {
        size: a.size as int,
        name: a.name@,
        version: v,
        download_url: a.download_url@,
        sha256: sha,
    }
}

/// The checksum for one asset: absent on a transport failure, the parsed
/// hash on a well-formed body, and a fatal error otherwise.
pub open spec fn checksum_outcome(
    a: AssetEntry,
    checks: Seq<(String, ChecksumResponse)>,
) -> Result<Option<Seq<char>>, InternalError> {
    match lookup_checksum(checks, a.download_url@) {
        ChecksumResponse::TransportFailure => Ok(None),
        ChecksumResponse::Body(b) => match spec_parse_checksum(a.name@, b@) {
            Ok(h) => Ok(Some(h)),
            Err(e) => Err(e),
        },
    }
}

/// The assets of one release that resolution touches: not checksum files,
/// and only for platforms the map does not hold yet.
pub open spec fn selected_assets(
    assets: Seq<AssetEntry>,
    have: Map<Seq<char>, AssetView>,
) -> Seq<AssetEntry> {
    assets.filter(
        |a: AssetEntry| !is_checksum_name(a.name@) && !have.contains_key(platform_of(a.name@)),
    )
}

/// Record the selected assets of one release in order, stopping at the
/// first fatal checksum outcome.
pub open spec fn apply_assets(
    sel: Seq<AssetEntry>,
    v: VersionView,
    m: Map<Seq<char>, AssetView>,
    checks: Seq<(String, ChecksumResponse)>,
) -> Result<Map<Seq<char>, AssetView>, InternalError>
    decreases sel.len(),
{
    if sel.len() == 0 {
        Ok(m)
    } else {
        match checksum_outcome(sel[0], checks) {
            Err(e) => Err(e),
            Ok(sha) => apply_assets(
                sel.drop_first(),
                v,
                m.insert(platform_of(sel[0].name@), asset_view_for(sel[0], v, sha)),
                checks,
            ),
        }
    }
}

/// Walk the eligible releases newest first, back-filling platforms the
/// newer releases did not ship.
pub open spec fn merge_releases(
    rels: Seq<(VersionView, ReleaseEntry)>,
    m: Map<Seq<char>, AssetView>,
    checks: Seq<(String, ChecksumResponse)>,
) -> Result<Map<Seq<char>, AssetView>, InternalError>
    decreases rels.len(),
{
    if rels.len() == 0 {
        Ok(m)
    } else {
        match apply_assets(selected_assets(rels[0].1.assets@, m), rels[0].0, m, checks) {
            Err(e) => Err(e),
            Ok(m2) => merge_releases(rels.drop_first(), m2, checks),
        }
    }
}

/// The resolved game release for a listing: the newest eligible version,
/// the merged platform map less its `assets` bundle, and the bundle itself.
pub open spec fn spec_game_release(
    rs: Seq<ReleaseEntry>,
    checks: Seq<(String, ChecksumResponse)>,
) -> Result<crate::game_data::GameReleaseView, InternalError> {
    let el = eligible_releases(rs);
    if el.len() == 0 {
        Err(InternalError::NoReleaseFound)
    } else {
        match merge_releases(el, Map::empty(), checks) {
            Err(e) => Err(e),
            Ok(m) => if m.contains_key("assets"@) {
                Ok(crate::game_data::GameReleaseView {
                    assets: m["assets"@],
                    assets_version: m["assets"@].version,
                    binaries: m.remove("assets"@),
                    version: el[0].0,
                })
            } else {
                Err(InternalError::NoReleaseFound)
            },
        }
    }
}

/// The resolved updater release for the single latest listing entry.
pub open spec fn spec_updater_release(
    release: ReleaseEntry,
    checks: Seq<(String, ChecksumResponse)>,
) -> Result<Map<Seq<char>, AssetView>, InternalError> {
    match semver_of(release.tag_name@) {
        None => Err(InternalError::InvalidVersion),
        Some(t) => apply_assets(
            selected_assets(release.assets@, Map::empty()),
            version_view_of(t),
            Map::empty(),
            checks,
        ),
    }
}

/// Resolve one release's assets into `binaries`: select against the current
/// map, fetch each selected asset's recorded checksum outcome, and insert.
fn apply_release_assets(
    binaries: &mut Assets,
    entries: &Vec<AssetEntry>,
    version: &Version,
    checksums: &Vec<(String, ChecksumResponse)>,
) -> (r: Result<(), InternalError>)
    ensures
        match r {
            Ok(()) => apply_assets(
                selected_assets(entries@, old(binaries)@),
                version@,
                old(binaries)@,
                checksums@,
            ) == Ok::<Map<Seq<char>, AssetView>, InternalError>(final(binaries)@),
            Err(e) => apply_assets(
                selected_assets(entries@, old(binaries)@),
                version@,
                old(binaries)@,
                checksums@,
            ) == Err::<Map<Seq<char>, AssetView>, InternalError>(e),
        },
{
    let ghost m0 = binaries@;
    let ghost sel = selected_assets(entries@, m0);
    let n = entries.len();
    let mut sel_idx: Vec<usize> = Vec::new();
    let mut i: usize = 0;
    proof {
        assert(selected_assets(entries@.subrange(0, 0), m0) =~= Seq::<AssetEntry>::empty()) by {
            reveal(Seq::filter);
            assert(entries@.subrange(0, 0).len() == 0);
        }
    }
    while i < n
        invariant
            0 <= i <= n,
            n == entries@.len(),
            binaries@ == m0,
            m0 == old(binaries)@,
            sel == selected_assets(entries@, m0),
            sel_idx@.len() == selected_assets(entries@.subrange(0, i as int), m0).len(),
            forall|t: int|
                0 <= t < sel_idx@.len() ==> #[trigger] sel_idx@[t] < entries@.len()
                    && entries@[sel_idx@[t] as int] == selected_assets(
                    entries@.subrange(0, i as int),
                    m0,
                )[t],
        decreases n - i,
    {
        let a = &entries[i];
        let not_checksum = !ends_with(a.name.as_str(), ".sha256");
        let keep = not_checksum && !binaries.contains_key(remove_game_suffix(a.name.as_str()));
        proof {
            reveal(Seq::filter);
            assert(entries@.subrange(0, i + 1).drop_last() =~= entries@.subrange(0, i as int));
            assert(entries@.subrange(0, i + 1).last() == entries@[i as int]);
            assert(keep == (!is_checksum_name(entries@[i as int].name@) && !m0.contains_key(
                platform_of(entries@[i as int].name@),
            )));
            if keep {
                assert(selected_assets(entries@.subrange(0, i + 1), m0) == selected_assets(
                    entries@.subrange(0, i as int),
                    m0,
                ).push(entries@[i as int]));
            } else {
                assert(selected_assets(entries@.subrange(0, i + 1), m0) == selected_assets(
                    entries@.subrange(0, i as int),
                    m0,
                ));
            }
        }
        if keep {
            sel_idx.push(i);
        }
        i += 1;
    }
    proof {
        assert(entries@.subrange(0, n as int) =~= entries@);
        assert(sel.skip(0) =~= sel);
    }
    let count = sel_idx.len();
    let mut j: usize = 0;
    while j < count
        invariant
            0 <= j <= count,
            count == sel_idx@.len(),
            count == sel.len(),
            n == entries@.len(),
            m0 == old(binaries)@,
            sel == selected_assets(entries@, m0),
            forall|t: int|
                0 <= t < sel_idx@.len() ==> #[trigger] sel_idx@[t] < entries@.len()
                    && entries@[sel_idx@[t] as int] == sel[t],
            apply_assets(sel, version@, m0, checksums@) == apply_assets(
                sel.skip(j as int),
                version@,
                binaries@,
                checksums@,
            ),
        decreases count - j,
    {
        let idx = sel_idx[j];
        let a = &entries[idx];
        proof {
            assert(entries@[idx as int] == sel[j as int]);
            assert(sel.skip(j as int)[0] == sel[j as int]);
        }
        let platform = remove_game_suffix(a.name.as_str());
        let response = lookup_checksum_response(checksums, a.download_url.as_str());
        let sha: Option<String> = match response {
            ChecksumResponse::TransportFailure => None,
            ChecksumResponse::Body(b) => match parse_checksum_response(
                a.name.as_str(),
                b.as_str(),
            ) {
                Ok(h) => Some(h),
                Err(e) => {
                    proof {
                        assert(lookup_checksum(checksums@, sel[j as int].download_url@)
                            matches ChecksumResponse::Body(bb) && bb@ == b@);
                        assert(spec_parse_checksum(sel[j as int].name@, b@) matches Err(es) && es
                            == e);
                        assert(checksum_outcome(sel[j as int], checksums@) == Err::<
                            Option<Seq<char>>,
                            InternalError,
                        >(e));
                        assert(apply_assets(sel.skip(j as int), version@, binaries@, checksums@)
                            == Err::<Map<Seq<char>, AssetView>, InternalError>(e));
                        assert(apply_assets(sel, version@, m0, checksums@) == Err::<
                            Map<Seq<char>, AssetView>,
                            InternalError,
                        >(e));
                        assert(sel == selected_assets(entries@, old(binaries)@));
                        assert(m0 == old(binaries)@);
                    }
                    return Err(e);
                },
            },
        };
        let ghost sha_spec = match sha {
            Some(ref h) => Some(h@),
            None => None,
        };
        proof {
            assert(checksum_outcome(sel[j as int], checksums@) == Ok::<
                Option<Seq<char>>,
                InternalError,
            >(sha_spec));
        }
        let mut asset = Asset::with_version(a, version.duplicate());
        asset.sha256 = sha;
        let key = platform.to_owned();
        proof {
            assert(asset@ == asset_view_for(sel[j as int], version@, sha_spec));
            assert(key@ == platform_of(sel[j as int].name@));
        }
        binaries.insert(key, asset);
        proof {
            assert(sel.skip(j as int).drop_first() =~= sel.skip(j + 1));
        }
        j += 1;
    }
    proof {
        assert(sel.skip(count as int).len() == 0);
    }
    Ok(())
}

/// Resolve the latest game release from a release listing, newest first,
/// with the checksum responses recorded per download location.
pub fn get_latest_game_release(
    releases: &Vec<ReleaseEntry>,
    checksums: &Vec<(String, ChecksumResponse)>,
) -> (r: Result<GameRelease, InternalError>)
    ensures
        match (r, spec_game_release(releases@, checksums@)) {
            (Ok(g), Ok(v)) => g@.version == v.version && g@.assets == v.assets
                && g@.assets_version == v.assets_version && g@.binaries == v.binaries,
            (Err(e), Err(es)) => e == es,
            _ => false,
        },
{
    let ghost el = eligible_releases(releases@);
    let n = releases.len();
    let mut eligible: Vec<(Version, usize)> = Vec::new();
    let mut i: usize = 0;
    proof {
        assert(eligible_releases(releases@.subrange(0, 0)) =~= Seq::<
            (VersionView, ReleaseEntry),
        >::empty()) by {
            reveal(Seq::filter);
            assert(releases@.subrange(0, 0).filter(|r: ReleaseEntry| eligible_pred(r)) =~= Seq::<
                ReleaseEntry,
            >::empty());
        }
    }
    while i < n
        invariant
            0 <= i <= n,
            n == releases@.len(),
            eligible@.len() == eligible_releases(releases@.subrange(0, i as int)).len(),
            forall|t: int|
                0 <= t < eligible@.len() ==> {
                    &&& #[trigger] eligible@[t].1 < releases@.len()
                    &&& eligible@[t].0@ == eligible_releases(releases@.subrange(0, i as int))[t].0
                    &&& releases@[eligible@[t].1 as int] == eligible_releases(
                        releases@.subrange(0, i as int),
                    )[t].1
                },
        decreases n - i,
    {
        let rel = &releases[i];
        let ghost prefix = releases@.subrange(0, i as int);
        let ghost el_pre = eligible_releases(prefix);
        let ghost eg = eligible@;
        proof {
            lemma_eligible_push(prefix, releases@[i as int]);
            assert(releases@.subrange(0, i + 1) =~= prefix.push(releases@[i as int]));
            assert(eligible_releases(releases@.subrange(0, i + 1)) == eligible_releases(
                prefix.push(releases@[i as int]),
            ));
        }
        let ghost el_post = eligible_releases(releases@.subrange(0, i + 1));
        let mut pushed = false;
        if !rel.prerelease {
            match parse_version(rel.tag_name.as_str()) {
                Some(v) => {
                    proof {
                        assert(eligible_pred(releases@[i as int]));
                        assert(el_post == el_pre.push(
                            (
                                version_view_of(semver_of(releases@[i as int].tag_name@)->Some_0),
                                releases@[i as int],
                            ),
                        ));
                    }
                    eligible.push((v, i));
                    pushed = true;
                },
                None => {
                    proof {
                        assert(!eligible_pred(releases@[i as int]));
                    }
                },
            }
        }
        proof {
            if !pushed {
                assert(el_post == el_pre);
                assert(eligible@ == eg);
            }
            assert forall|t: int| 0 <= t < eligible@.len() implies {
                &&& #[trigger] eligible@[t].1 < releases@.len()
                &&& eligible@[t].0@ == el_post[t].0
                &&& releases@[eligible@[t].1 as int] == el_post[t].1
            } by {
                if t < eg.len() {
                    assert(eligible@[t] == eg[t]);
                    assert(eg[t].1 < releases@.len());
                    assert(el_post[t] == el_pre[t]);
                }
            }
        }
        i += 1;
    }
    proof {
        assert(releases@.subrange(0, n as int) =~= releases@);
        assert(eligible_releases(releases@.subrange(0, n as int)) == el);
        assert(eligible@.len() == el.len());
    }
    if eligible.len() == 0 {
        proof {
            assert(spec_game_release(releases@, checksums@) matches Err(es) && es
                == InternalError::NoReleaseFound);
        }
        return Err(InternalError::NoReleaseFound);
    }
    let count = eligible.len();
    let mut binaries = Assets::new();
    let mut k: usize = 0;
    proof {
        assert(el.skip(0) =~= el);
    }
    while k < count
        invariant
            0 <= k <= count,
            count == eligible@.len(),
            count == el.len(),
            el == eligible_releases(releases@),
            forall|t: int|
                0 <= t < eligible@.len() ==> {
                    &&& #[trigger] eligible@[t].1 < releases@.len()
                    &&& eligible@[t].0@ == el[t].0
                    &&& releases@[eligible@[t].1 as int] == el[t].1
                },
            merge_releases(el, Map::empty(), checksums@) == merge_releases(
                el.skip(k as int),
                binaries@,
                checksums@,
            ),
        decreases count - k,
    {
        let ridx = eligible[k].1;
        let release = &releases[ridx];
        let ghost m_before = binaries@;
        proof {
            assert(el.skip(k as int)[0] == el[k as int]);
            assert(*release == el[k as int].1);
            assert(eligible@[k as int].0@ == el[k as int].0);
        }
        match apply_release_assets(&mut binaries, &release.assets, &eligible[k].0, checksums) {
            Ok(()) => {},
            Err(e) => {
                proof {
                    assert(merge_releases(el.skip(k as int), m_before, checksums@) == Err::<
                        Map<Seq<char>, AssetView>,
                        InternalError,
                    >(e));
                    assert(merge_releases(el, Map::empty(), checksums@) == Err::<
                        Map<Seq<char>, AssetView>,
                        InternalError,
                    >(e));
                    assert(spec_game_release(releases@, checksums@) matches Err(es) && es == e);
                }
                return Err(e);
            },
        }
        proof {
            assert(el.skip(k as int).drop_first() =~= el.skip(k + 1));
            assert(merge_releases(el.skip(k as int), m_before, checksums@) == merge_releases(
                el.skip(k + 1),
                binaries@,
                checksums@,
            ));
        }
        k += 1;
    }
    proof {
        assert(el.skip(count as int).len() == 0);
        assert(merge_releases(el, Map::empty(), checksums@) == Ok::<
            Map<Seq<char>, AssetView>,
            InternalError,
        >(binaries@));
    }
    let ghost merged = binaries@;
    match binaries.remove("assets") {
        Some(assets_bundle) => {
            proof {
                assert(merged.contains_key("assets"@));
                assert(spec_game_release(releases@, checksums@) matches Ok(v) && {
                    &&& v.assets == merged["assets"@]
                    &&& v.assets_version == merged["assets"@].version
                    &&& v.binaries == merged.remove("assets"@)
                    &&& v.version == el[0].0
                });
                assert(assets_bundle@ == merged["assets"@]);
                assert(binaries@ == merged.remove("assets"@));
            }
            let version = eligible[0].0.duplicate();
            let assets_version = assets_bundle.version.duplicate();
            proof {
                assert(eligible@[0].1 < releases@.len());
                assert(version@ == el[0].0);
                assert(assets_version@ == merged["assets"@].version);
            }
            Ok(GameRelease { assets: assets_bundle, assets_version, binaries, version })
        },
        None => {
            proof {
                assert(!merged.contains_key("assets"@));
                assert(spec_game_release(releases@, checksums@) matches Err(es) && es
                    == InternalError::NoReleaseFound);
            }
            Err(InternalError::NoReleaseFound)
        },
    }
}

proof fn lemma_eligible_push(rs: Seq<ReleaseEntry>, r: ReleaseEntry)
    ensures
        eligible_releases(rs.push(r)) == if eligible_pred(r) {
            eligible_releases(rs).push((version_view_of(semver_of(r.tag_name@)->Some_0), r))
        } else {
            eligible_releases(rs)
        },
{
    reveal(Seq::filter);
    assert(rs.push(r).drop_last() =~= rs);
    if eligible_pred(r) {
        assert(eligible_filter(rs.push(r)) == eligible_filter(rs).push(r));
        assert(eligible_releases(rs.push(r)) =~= eligible_releases(rs).push(
            (version_view_of(semver_of(r.tag_name@)->Some_0), r),
        ));
    } else {
        assert(eligible_filter(rs.push(r)) == eligible_filter(rs));
    }
}

/// Resolve the updater release from the single latest listing entry.
pub fn get_latest_updater_release(
    release: &ReleaseEntry,
    checksums: &Vec<(String, ChecksumResponse)>,
) -> (r: Result<Assets, InternalError>)
    ensures
        match (r, spec_updater_release(*release, checksums@)) {
            (Ok(a), Ok(m)) => a@ == m,
            (Err(e), Err(es)) => e == es,
            _ => false,
        },
{
    let version = match parse_version(release.tag_name.as_str()) {
        Some(v) => v,
        None => {
            return Err(InternalError::InvalidVersion);
        },
    };
    let mut binaries = Assets::new();
    match apply_release_assets(&mut binaries, &release.assets, &version, checksums) {
        Ok(()) => Ok(binaries),
        Err(e) => Err(e),
    }
}

/// Whether some selected asset derives the platform `k`.
pub open spec fn sel_has_platform(sel: Seq<AssetEntry>, k: Seq<char>) -> bool {
    exists|i: int| 0 <= i < sel.len() && platform_of(sel[i].name@) == k
}

/// Whether the entry under `k` in `m` is one of the selected assets,
/// recorded with version `v` and its own checksum outcome.
pub open spec fn from_release_assets(
    m: Map<Seq<char>, AssetView>,
    k: Seq<char>,
    sel: Seq<AssetEntry>,
    v: VersionView,
    checks: Seq<(String, ChecksumResponse)>,
) -> bool {
    exists|i: int|
        0 <= i < sel.len() && platform_of(sel[i].name@) == k && m[k] == asset_view_for(
            sel[i],
            v,
            checksum_outcome(sel[i], checks)->Ok_0,
        )
}

/// Whether a listed release carries a non-checksum asset on the `assets`
/// pseudo-platform.
pub open spec fn lists_assets_bundle(rel: ReleaseEntry) -> bool {
    exists|j: int|
        0 <= j < rel.assets@.len() && !is_checksum_name(rel.assets@[j].name@) && platform_of(
            rel.assets@[j].name@,
        ) == "assets"@
}

/// Whether an eligible release can account for the entry `a` under
/// platform `k`: it lists a non-checksum asset deriving `k`, and `a`
/// carries the release's version.
pub open spec fn release_contributes(
    rel: (VersionView, ReleaseEntry),
    k: Seq<char>,
    a: AssetView,
) -> bool {
    a.version == rel.0 && exists|j: int|
        0 <= j < rel.1.assets@.len() && !is_checksum_name(rel.1.assets@[j].name@) && platform_of(
            rel.1.assets@[j].name@,
        ) == k
}

proof fn lemma_sel_has_platform_unfold(sel: Seq<AssetEntry>, k: Seq<char>)
    requires
        sel.len() > 0,
    ensures
        sel_has_platform(sel, k) <==> (platform_of(sel[0].name@) == k || sel_has_platform(
            sel.drop_first(),
            k,
        )),
{
    if sel_has_platform(sel, k) {
        let i = choose|i: int| 0 <= i < sel.len() && platform_of(sel[i].name@) == k;
        if i > 0 {
            assert(sel.drop_first()[i - 1] == sel[i]);
            assert(sel_has_platform(sel.drop_first(), k));
        }
    }
    if sel_has_platform(sel.drop_first(), k) {
        let i = choose|i: int|
            0 <= i < sel.drop_first().len() && platform_of(sel.drop_first()[i].name@) == k;
        assert(sel[i + 1] == sel.drop_first()[i]);
        assert(sel_has_platform(sel, k));
    }
    if platform_of(sel[0].name@) == k {
        assert(sel_has_platform(sel, k));
    }
}

/// The selected assets all pass the selection: no checksum files, no
/// platforms the map already holds; and each is one of the release's
/// listed assets.
proof fn lemma_selected_assets_facts(assets: Seq<AssetEntry>, have: Map<Seq<char>, AssetView>)
    ensures
        forall|i: int|
            0 <= i < selected_assets(assets, have).len() ==> {
                &&& !is_checksum_name(#[trigger] selected_assets(assets, have)[i].name@)
                &&& !have.contains_key(platform_of(selected_assets(assets, have)[i].name@))
                &&& exists|j: int|
                    0 <= j < assets.len() && assets[j] == selected_assets(assets, have)[i]
            },
    decreases assets.len(),
{
    reveal(Seq::filter);
    if assets.len() > 0 {
        let prefix = assets.drop_last();
        lemma_selected_assets_facts(prefix, have);
        let sel = selected_assets(assets, have);
        let sel_pre = selected_assets(prefix, have);
        assert forall|i: int| 0 <= i < sel.len() implies {
            &&& !is_checksum_name(#[trigger] sel[i].name@)
            &&& !have.contains_key(platform_of(sel[i].name@))
            &&& exists|j: int| 0 <= j < assets.len() && assets[j] == sel[i]
        } by {
            if i < sel_pre.len() {
                assert(sel[i] == sel_pre[i]);
                let j = choose|j: int| 0 <= j < prefix.len() && prefix[j] == sel_pre[i];
                assert(assets[j] == sel[i]);
            } else {
                assert(sel[i] == assets.last());
                assert(assets[assets.len() - 1] == sel[i]);
            }
        }
    }
}

/// What a successful `apply_assets` produces: the map gains exactly the
/// selected platforms; every entry either kept its old value or is one of
/// the selected assets under version `v`.
proof fn lemma_apply_assets_ok(
    sel: Seq<AssetEntry>,
    v: VersionView,
    m: Map<Seq<char>, AssetView>,
    checks: Seq<(String, ChecksumResponse)>,
)
    requires
        apply_assets(sel, v, m, checks) is Ok,
    ensures
        ({
            let m2 = apply_assets(sel, v, m, checks)->Ok_0;
            &&& forall|k: Seq<char>|
                #[trigger] m2.contains_key(k) <==> (m.contains_key(k) || sel_has_platform(sel, k))
            &&& forall|k: Seq<char>|
                #[trigger] m2.contains_key(k) ==> ((m.contains_key(k) && m2[k] == m[k])
                    || from_release_assets(m2, k, sel, v, checks))
        }),
    decreases sel.len(),
{
    let m2 = apply_assets(sel, v, m, checks)->Ok_0;
    if sel.len() == 0 {
        assert forall|k: Seq<char>| #[trigger] m2.contains_key(k) implies (m.contains_key(k)
            || sel_has_platform(sel, k)) by {}
        assert forall|k: Seq<char>|
            m.contains_key(k) || sel_has_platform(sel, k) implies #[trigger] m2.contains_key(
            k,
        ) by {
            if sel_has_platform(sel, k) {
                let i = choose|i: int| 0 <= i < sel.len() && platform_of(sel[i].name@) == k;
            }
        }
    } else {
        let p0 = platform_of(sel[0].name@);
        let sha0 = checksum_outcome(sel[0], checks)->Ok_0;
        let a0 = asset_view_for(sel[0], v, sha0);
        let m1 = m.insert(p0, a0);
        let rest = sel.drop_first();
        lemma_apply_assets_ok(rest, v, m1, checks);
        assert forall|k: Seq<char>| #[trigger] m2.contains_key(k) implies (m.contains_key(k)
            || sel_has_platform(sel, k)) by {
            lemma_sel_has_platform_unfold(sel, k);
        }
        assert forall|k: Seq<char>|
            m.contains_key(k) || sel_has_platform(sel, k) implies #[trigger] m2.contains_key(
            k,
        ) by {
            lemma_sel_has_platform_unfold(sel, k);
            if m.contains_key(k) || k == p0 {
                assert(m1.contains_key(k));
            }
        }
        assert forall|k: Seq<char>| #[trigger] m2.contains_key(k) implies ((m.contains_key(k)
            && m2[k] == m[k]) || from_release_assets(m2, k, sel, v, checks)) by {
            if m1.contains_key(k) && m2[k] == m1[k] {
                if k == p0 {
                    assert(m1[k] == a0);
                    assert(0 <= 0 < sel.len() && platform_of(sel[0].name@) == k && m2[k]
                        == asset_view_for(sel[0], v, checksum_outcome(sel[0], checks)->Ok_0));
                    assert(from_release_assets(m2, k, sel, v, checks));
                } else {
                    assert(m1[k] == m[k]);
                }
            } else {
                assert(from_release_assets(m2, k, rest, v, checks));
                let i = choose|i: int|
                    0 <= i < rest.len() && platform_of(rest[i].name@) == k && m2[k]
                        == asset_view_for(rest[i], v, checksum_outcome(rest[i], checks)->Ok_0);
                assert(sel[i + 1] == rest[i]);
                assert(0 <= i + 1 < sel.len() && platform_of(sel[i + 1].name@) == k && m2[k]
                    == asset_view_for(sel[i + 1], v, checksum_outcome(sel[i + 1], checks)->Ok_0));
                assert(from_release_assets(m2, k, sel, v, checks));
            }
        }
    }
}

/// What a successful merge produces: entries already in the map stay
/// untouched, and every other entry is accounted for by one of the
/// releases, under that release's version.
proof fn lemma_merge_ok(
    rels: Seq<(VersionView, ReleaseEntry)>,
    m: Map<Seq<char>, AssetView>,
    checks: Seq<(String, ChecksumResponse)>,
)
    requires
        merge_releases(rels, m, checks) is Ok,
    ensures
        ({
            let m2 = merge_releases(rels, m, checks)->Ok_0;
            &&& forall|k: Seq<char>|
                m.contains_key(k) ==> #[trigger] m2.contains_key(k) && m2[k] == m[k]
            &&& forall|k: Seq<char>|
                #[trigger] m2.contains_key(k) && !m.contains_key(k) ==> exists|i: int|
                    0 <= i < rels.len() && release_contributes(rels[i], k, m2[k])
        }),
    decreases rels.len(),
{
    let m2 = merge_releases(rels, m, checks)->Ok_0;
    if rels.len() == 0 {
    } else {
        let assets0 = rels[0].1.assets@;
        let sel0 = selected_assets(assets0, m);
        let ma = apply_assets(sel0, rels[0].0, m, checks)->Ok_0;
        lemma_apply_assets_ok(sel0, rels[0].0, m, checks);
        lemma_selected_assets_facts(assets0, m);
        let rest = rels.drop_first();
        lemma_merge_ok(rest, ma, checks);
        assert forall|k: Seq<char>| m.contains_key(k) implies #[trigger] m2.contains_key(k)
            && m2[k] == m[k] by {
            assert(!sel_has_platform(sel0, k)) by {
                if sel_has_platform(sel0, k) {
                    let i = choose|i: int| 0 <= i < sel0.len() && platform_of(sel0[i].name@) == k;
                    assert(!m.contains_key(platform_of(sel0[i].name@)));
                }
            }
            assert(ma.contains_key(k));
            assert(ma[k] == m[k]) by {
                if !(m.contains_key(k) && ma[k] == m[k]) {
                    assert(from_release_assets(ma, k, sel0, rels[0].0, checks));
                    let i = choose|i: int|
                        0 <= i < sel0.len() && platform_of(sel0[i].name@) == k && ma[k]
                            == asset_view_for(
                            sel0[i],
                            rels[0].0,
                            checksum_outcome(sel0[i], checks)->Ok_0,
                        );
                    assert(sel_has_platform(sel0, k));
                }
            }
        }
        assert forall|k: Seq<char>| #[trigger] m2.contains_key(k) && !m.contains_key(k) implies
            exists|i: int| 0 <= i < rels.len() && release_contributes(rels[i], k, m2[k]) by {
            if ma.contains_key(k) {
                assert(m2[k] == ma[k]);
                assert(from_release_assets(ma, k, sel0, rels[0].0, checks)) by {
                    assert(ma.contains_key(k));
                }
                let i = choose|i: int|
                    0 <= i < sel0.len() && platform_of(sel0[i].name@) == k && ma[k]
                        == asset_view_for(
                        sel0[i],
                        rels[0].0,
                        checksum_outcome(sel0[i], checks)->Ok_0,
                    );
                assert(!is_checksum_name(sel0[i].name@));
                let j = choose|j: int| 0 <= j < assets0.len() && assets0[j] == sel0[i];
                assert(0 <= j < rels[0].1.assets@.len() && !is_checksum_name(
                    rels[0].1.assets@[j].name@,
                ) && platform_of(rels[0].1.assets@[j].name@) == k);
                assert(release_contributes(rels[0], k, m2[k]));
            } else {
                let i = choose|i: int|
                    0 <= i < rest.len() && release_contributes(rest[i], k, m2[k]);
                assert(rels[i + 1] == rest[i]);
                assert(release_contributes(rels[i + 1], k, m2[k]));
            }
        }
    }
}

/// Merge idempotence: a history with exactly one eligible release resolves
/// entirely from that release. Its parsed version is the release version,
/// the assets bundle and every binary carry it too, and the binaries hold
/// exactly the platforms of the release's selected (non-checksum) assets,
/// less the `assets` bundle itself.
pub proof fn lemma_single_release_merge(
    rs: Seq<ReleaseEntry>,
    checks: Seq<(String, ChecksumResponse)>,
)
    requires
        eligible_releases(rs).len() == 1,
        spec_game_release(rs, checks) is Ok,
    ensures
        ({
            let el = eligible_releases(rs);
            let g = spec_game_release(rs, checks)->Ok_0;
            let sel = selected_assets(el[0].1.assets@, Map::empty());
            &&& g.version == el[0].0
            &&& g.assets.version == el[0].0
            &&& g.assets_version == el[0].0
            &&& forall|k: Seq<char>|
                #[trigger] g.binaries.contains_key(k) <==> (k != "assets"@ && sel_has_platform(
                    sel,
                    k,
                ))
            &&& forall|k: Seq<char>|
                #[trigger] g.binaries.contains_key(k) ==> from_release_assets(
                    g.binaries,
                    k,
                    sel,
                    el[0].0,
                    checks,
                )
        }),
{
    let el = eligible_releases(rs);
    let g = spec_game_release(rs, checks)->Ok_0;
    let sel = selected_assets(el[0].1.assets@, Map::empty());
    let empty = Map::<Seq<char>, AssetView>::empty();
    assert(merge_releases(el, empty, checks) is Ok);
    assert(apply_assets(sel, el[0].0, empty, checks) is Ok);
    let m = apply_assets(sel, el[0].0, empty, checks)->Ok_0;
    assert(el.drop_first().len() == 0);
    assert(merge_releases(el.drop_first(), m, checks) == Ok::<
        Map<Seq<char>, AssetView>,
        InternalError,
    >(m));
    lemma_apply_assets_ok(sel, el[0].0, empty, checks);
    assert(m.contains_key("assets"@));
    assert(g.binaries == m.remove("assets"@));
    assert(from_release_assets(m, "assets"@, sel, el[0].0, checks));
    assert(g.assets.version == el[0].0);
    assert forall|k: Seq<char>| #[trigger] g.binaries.contains_key(k) implies (k != "assets"@
        && sel_has_platform(sel, k)) by {}
    assert forall|k: Seq<char>| k != "assets"@ && sel_has_platform(sel, k) implies #[trigger] g
        .binaries.contains_key(k) by {
        assert(m.contains_key(k));
    }
    assert forall|k: Seq<char>| #[trigger] g.binaries.contains_key(k) implies from_release_assets(
        g.binaries,
        k,
        sel,
        el[0].0,
        checks,
    ) by {
        assert(m.contains_key(k));
        assert(from_release_assets(m, k, sel, el[0].0, checks));
        let i = choose|i: int|
            0 <= i < sel.len() && platform_of(sel[i].name@) == k && m[k] == asset_view_for(
                sel[i],
                el[0].0,
                checksum_outcome(sel[i], checks)->Ok_0,
            );
        assert(g.binaries[k] == m[k]);
        assert(0 <= i < sel.len() && platform_of(sel[i].name@) == k && g.binaries[k]
            == asset_view_for(sel[i], el[0].0, checksum_outcome(sel[i], checks)->Ok_0));
    }
}

/// Back-fill across two releases: the newest eligible release decides the
/// resolved version and contributes every platform it ships; platforms it
/// lacks, and the assets bundle when it lacks one, come from the older
/// release under the older version.
pub proof fn lemma_two_release_backfill(
    rs: Seq<ReleaseEntry>,
    checks: Seq<(String, ChecksumResponse)>,
)
    requires
        eligible_releases(rs).len() == 2,
        spec_game_release(rs, checks) is Ok,
    ensures
        ({
            let el = eligible_releases(rs);
            let g = spec_game_release(rs, checks)->Ok_0;
            let sel0 = selected_assets(el[0].1.assets@, Map::empty());
            let m1 = apply_assets(sel0, el[0].0, Map::empty(), checks)->Ok_0;
            &&& apply_assets(sel0, el[0].0, Map::empty(), checks) is Ok
            &&& g.version == el[0].0
            &&& forall|k: Seq<char>|
                #[trigger] m1.contains_key(k) ==> from_release_assets(m1, k, sel0, el[0].0, checks)
            &&& forall|k: Seq<char>|
                m1.contains_key(k) && k != "assets"@ ==> #[trigger] g.binaries.contains_key(k)
                    && g.binaries[k] == m1[k]
            &&& forall|k: Seq<char>|
                #[trigger] g.binaries.contains_key(k) && !m1.contains_key(k) ==> g.binaries[k]
                    .version == el[1].0
            &&& (m1.contains_key("assets"@) ==> g.assets_version == el[0].0)
            &&& (!m1.contains_key("assets"@) ==> g.assets_version == el[1].0)
        }),
{
    let el = eligible_releases(rs);
    let g = spec_game_release(rs, checks)->Ok_0;
    let empty = Map::<Seq<char>, AssetView>::empty();
    let sel0 = selected_assets(el[0].1.assets@, empty);
    assert(merge_releases(el, empty, checks) is Ok);
    assert(apply_assets(sel0, el[0].0, empty, checks) is Ok);
    let m1 = apply_assets(sel0, el[0].0, empty, checks)->Ok_0;
    let rest = el.drop_first();
    assert(rest[0] == el[1]);
    assert(merge_releases(rest, m1, checks) is Ok);
    let sel1 = selected_assets(el[1].1.assets@, m1);
    assert(apply_assets(sel1, el[1].0, m1, checks) is Ok);
    let m = apply_assets(sel1, el[1].0, m1, checks)->Ok_0;
    assert(rest.drop_first().len() == 0);
    assert(merge_releases(rest.drop_first(), m, checks) == Ok::<
        Map<Seq<char>, AssetView>,
        InternalError,
    >(m));
    assert(merge_releases(el, empty, checks) == Ok::<Map<Seq<char>, AssetView>, InternalError>(m));
    lemma_apply_assets_ok(sel0, el[0].0, empty, checks);
    lemma_apply_assets_ok(sel1, el[1].0, m1, checks);
    lemma_selected_assets_facts(el[1].1.assets@, m1);
    assert(m.contains_key("assets"@));
    assert(g.binaries == m.remove("assets"@));
    assert forall|k: Seq<char>| #[trigger] m1.contains_key(k) implies from_release_assets(
        m1,
        k,
        sel0,
        el[0].0,
        checks,
    ) by {}
    assert forall|k: Seq<char>| m1.contains_key(k) implies #[trigger] m.contains_key(k) && m[k]
        == m1[k] by {
        assert(!sel_has_platform(sel1, k)) by {
            if sel_has_platform(sel1, k) {
                let i = choose|i: int| 0 <= i < sel1.len() && platform_of(sel1[i].name@) == k;
                assert(!m1.contains_key(platform_of(sel1[i].name@)));
            }
        }
        assert(m.contains_key(k));
        if !(m1.contains_key(k) && m[k] == m1[k]) {
            assert(from_release_assets(m, k, sel1, el[1].0, checks));
            let i = choose|i: int|
                0 <= i < sel1.len() && platform_of(sel1[i].name@) == k && m[k] == asset_view_for(
                    sel1[i],
                    el[1].0,
                    checksum_outcome(sel1[i], checks)->Ok_0,
                );
            assert(sel_has_platform(sel1, k));
        }
    }
    assert forall|k: Seq<char>| #[trigger] g.binaries.contains_key(k) && !m1.contains_key(
        k,
    ) implies g.binaries[k].version == el[1].0 by {
        assert(m.contains_key(k));
        assert(from_release_assets(m, k, sel1, el[1].0, checks));
        let i = choose|i: int|
            0 <= i < sel1.len() && platform_of(sel1[i].name@) == k && m[k] == asset_view_for(
                sel1[i],
                el[1].0,
                checksum_outcome(sel1[i], checks)->Ok_0,
            );
        assert(g.binaries[k] == m[k]);
    }
    if m1.contains_key("assets"@) {
        assert(m["assets"@] == m1["assets"@]);
        assert(from_release_assets(m1, "assets"@, sel0, el[0].0, checks));
    } else {
        assert(m.contains_key("assets"@));
        assert((m1.contains_key("assets"@) && m["assets"@] == m1["assets"@])
            || from_release_assets(m, "assets"@, sel1, el[1].0, checks));
        assert(from_release_assets(m, "assets"@, sel1, el[1].0, checks));
        let i = choose|i: int|
            0 <= i < sel1.len() && platform_of(sel1[i].name@) == "assets"@ && m["assets"@]
                == asset_view_for(sel1[i], el[1].0, checksum_outcome(sel1[i], checks)->Ok_0);
        assert(m["assets"@].version == el[1].0);
    }
}

/// If no eligible release lists an `assets` bundle, and the checksum
/// responses stop no release early, resolution fails with `NoReleaseFound`:
/// there is nothing the merged map could have recorded under `assets`.
pub proof fn lemma_no_assets_no_release(
    rs: Seq<ReleaseEntry>,
    checks: Seq<(String, ChecksumResponse)>,
)
    requires
        forall|i: int|
            0 <= i < eligible_releases(rs).len() ==> !lists_assets_bundle(
                #[trigger] eligible_releases(rs)[i].1,
            ),
        merge_releases(eligible_releases(rs), Map::empty(), checks) is Ok,
    ensures
        spec_game_release(rs, checks) matches Err(e) && e == InternalError::NoReleaseFound,
{
    let el = eligible_releases(rs);
    let empty = Map::<Seq<char>, AssetView>::empty();
    if el.len() == 0 {
    } else {
        let m = merge_releases(el, empty, checks)->Ok_0;
        lemma_merge_ok(el, empty, checks);
        assert(!m.contains_key("assets"@)) by {
            if m.contains_key("assets"@) {
                let i = choose|i: int|
                    0 <= i < el.len() && release_contributes(el[i], "assets"@, m["assets"@]);
                assert(lists_assets_bundle(el[i].1));
            }
        }
    }
}

} // verus!
