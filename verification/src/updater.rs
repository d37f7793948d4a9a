//! When in-app updates can be offered. Sparkle itself is loaded only from the
//! signed app's embedded Frameworks directory, outside this library.
use vstd::prelude::*;
use crate::onboarding::{from_installer, spec_from_installer};
use crate::text::{ends_with, has_suffix};

verus! {

/// Why updates are refused before Sparkle is even looked for: the running
/// bundle is not an installed `.app` (or is the installer's copy), or the
/// bundle lacks the feed URL or the public signing key.
pub open spec fn spec_load_precondition(
    bundle_path: Seq<char>,
    has_feed_url: bool,
    has_public_key: bool,
) -> Result<(), Seq<char>> {
    if !has_suffix(bundle_path, ".app"@) || spec_from_installer(bundle_path) {
        Err("Install AppDock in Applications before checking for updates."@)
    } else if !has_feed_url || !has_public_key {
        Err(
            "This development build does not include updates. Install a published AppDock release."@,
        )
    } else {
        Ok(())
    }
}

/// Updates are offered exactly to an installed release: the bundle path ends
/// in `.app`, it is neither an installer nor a translocated copy, and both the
/// feed URL and the signing key are present. Installer and translocated
/// copies, and paths that are not bundles, are told to install first.
pub proof fn lemma_updates_only_for_installed_releases(
    bundle_path: Seq<char>,
    has_feed_url: bool,
    has_public_key: bool,
)
    ensures
        spec_load_precondition(bundle_path, has_feed_url, has_public_key) is Ok <==> (has_suffix(
            bundle_path,
            ".app"@,
        ) && !spec_from_installer(bundle_path) && has_feed_url && has_public_key),
        spec_from_installer(bundle_path) || !has_suffix(bundle_path, ".app"@) ==> spec_load_precondition(
            bundle_path,
            has_feed_url,
            has_public_key,
        ) == Err::<(), Seq<char>>("Install AppDock in Applications before checking for updates."@),
{
}

pub fn load_precondition(bundle_path: &str, has_feed_url: bool, has_public_key: bool) -> (r: Result<
    (),
    &'static str,
>)
    ensures
        match r {
            Ok(()) => spec_load_precondition(bundle_path@, has_feed_url, has_public_key) == Ok::<
                (),
                Seq<char>,
            >(()),
            Err(message) => spec_load_precondition(bundle_path@, has_feed_url, has_public_key)
                == Err::<(), Seq<char>>(message@),
        },
{
    if !ends_with(bundle_path, ".app") || from_installer(bundle_path) {
        return Err("Install AppDock in Applications before checking for updates.");
    }
    if !has_feed_url || !has_public_key {
        return Err(
            "This development build does not include updates. Install a published AppDock release.",
        );
    }
    Ok(())
}

} // verus!
