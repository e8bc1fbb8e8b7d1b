//! Assembly of the version route's response: pick the updater and game
//! binaries for one platform out of the resolved releases.

use vstd::prelude::*;
use vstd::string::StrSliceExecFns;
use vstd::string::StringExecFns;

use crate::errors::{PlatformError, RouteError};
use crate::game_data::{Asset, Assets, GameRelease, GameVersion, Version, VersionView};
use crate::text::{dec_digits, u64_to_dec_string};

verus! {

/// The text of a version: `major.minor.patch`, a `-` pre-release part and a
/// `+` build part when present.
pub open spec fn version_string(v: VersionView) -> Seq<char> {
    dec_digits(v.major) + seq!['.'] + dec_digits(v.minor) + seq!['.'] + dec_digits(v.patch) + (
    if v.pre.len() > 0 {
        seq!['-'] + v.pre
    } else {
        Seq::empty()
    }) + (if v.build.len() > 0 {
        seq!['+'] + v.build
    } else {
        Seq::empty()
    })
}

/// Write a version as text.
pub fn version_to_string(v: &Version) -> (r: String)
    ensures
        r@ == version_string(v@),
{
    proof {
        reveal_strlit(".");
        reveal_strlit("-");
        reveal_strlit("+");
    }
    let mut s = u64_to_dec_string(v.major);
    s.append(".");
    let minor = u64_to_dec_string(v.minor);
    s.append(minor.as_str());
    s.append(".");
    let patch = u64_to_dec_string(v.patch);
    s.append(patch.as_str());
    if v.pre.as_str().unicode_len() > 0 {
        s.append("-");
        s.append(v.pre.as_str());
    } else {
        proof {
            assert(v@.pre.len() == 0);
        }
    }
    if v.build.as_str().unicode_len() > 0 {
        s.append("+");
        s.append(v.build.as_str());
    } else {
        proof {
            assert(v@.build.len() == 0);
        }
    }
    proof {
        assert(s@ =~= version_string(v@));
    }
    s
}

/// The updater map's key for a platform: the platform, an underscore, then
/// the configured updater filename.
pub open spec fn updater_key(platform: Seq<char>, updater_filename: Seq<char>) -> Seq<char> {
    platform + seq!['_'] + updater_filename
}

/// Assemble the version response for one platform: its updater asset under
/// `{platform}_{updater_filename}` and its game binary under the platform
/// itself; an unknown platform on either side is answered with a not-found
/// error.
pub fn build_game_version(
    game_release: &GameRelease,
    updater_release: &Assets,
    platform: &str,
    updater_filename: &str,
) -> (r: Result<GameVersion, RouteError>)
    ensures
        match r {
            Ok(gv) => {
                &&& updater_release@.contains_key(updater_key(platform@, updater_filename@))
                &&& game_release@.binaries.contains_key(platform@)
                &&& gv.assets@ == game_release@.assets
                &&& gv.assets_version@ == version_string(game_release@.assets_version)
                &&& gv.binaries@ == game_release@.binaries[platform@]
                &&& gv.updater@ == updater_release@[updater_key(platform@, updater_filename@)]
                &&& gv.version@ == version_string(game_release@.version)
            },
            Err(e) => {
                &&& e is NotFoundPlatform
                &&& !(updater_release@.contains_key(updater_key(platform@, updater_filename@))
                    && game_release@.binaries.contains_key(platform@))
            },
        },
{
    proof {
        reveal_strlit("_");
    }
    let mut key = platform.to_owned();
    key.append("_");
    key.append(updater_filename);
    proof {
        assert(key@ =~= updater_key(platform@, updater_filename@));
    }
    let updater = updater_release.get(key.as_str());
    let binary = game_release.binaries.get(platform);
    match (updater, binary) {
        (Some(updater), Some(binary)) => Ok(GameVersion {
            assets: game_release.assets.duplicate(),
            assets_version: version_to_string(&game_release.assets_version),
            binaries: binary.duplicate(),
            updater: updater.duplicate(),
            version: version_to_string(&game_release.version),
        }),
        _ => {
            let mut desc = "no updater or game binary release found for platform ".to_owned();
            desc.append(platform);
            Err(RouteError::NotFoundPlatform(PlatformError::new(desc)))
        },
    }
}

} // verus!
