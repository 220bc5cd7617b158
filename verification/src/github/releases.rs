//! Releases: which one is wanted, and where its archives are.
use super::requests::{make_repository_url, repository_url, told_plainly};
use super::types::{AssetKind, GithubRelease, GithubReleaseAsset, Release, ReleaseAsset};
use crate::http_request::{
    client_error, is_client_error, validated_request, with_bearer, HttpRequest, Method,
    RedirectPolicy, RequestModel,
};
use crate::models::told;
use crate::outside::std_text::{from_utf8_lossy, lossy_text, quote, quoted_text};
use crate::outside::urls::{
    has_room, parse_url, parsed_url, push_path_segment, with_path_segment,
};
use crate::text::{begins, decimal, number_text, strip_prefix};
use vstd::prelude::*;
use vstd::string::*;
use vstd::utf8::*;

verus! {

/// A request for releases.
pub open spec fn release_request(url: Seq<char>, token: Option<Seq<char>>) -> RequestModel {
    with_bearer(
        RequestModel {
            method: Method::Get,
            uri: url,
            headers: Seq::empty(),
            body: Seq::empty(),
            redirect_policy: Some(RedirectPolicy::FollowAll),
        },
        token,
    )
}

/// A request for releases, before it is validated.
pub fn make_release_request(url: &str, token: Option<&str>) -> (result: HttpRequest)
    ensures
        result.deep_view() == release_request(url@, token.deep_view()),
        result.method == Method::Get,
        result.uri@ == url@,
        result.body@.len() == 0,
        result.redirect_policy == Some(RedirectPolicy::FollowAll),
        token is None ==> result.headers@.len() == 0,
        token matches Some(token) ==> result.headers.deep_view() == seq![
            ("Authorization"@, "Bearer "@ + token@),
        ],
{
    HttpRequest::new(Method::Get, url).follow_redirects(RedirectPolicy::FollowAll).bearer(token)
}

/// The request for a repository's releases, with a token if there is one, or what is
/// wrong with it.
pub fn latest_github_release(repo_name_with_owner: &str, token: Option<&str>) -> (result: Result<
    HttpRequest,
    String,
>)
    ensures
        told(result) == validated_request(
            release_request(
                repository_url(repo_name_with_owner@, "/releases"@),
                token.deep_view(),
            ),
        ),
        result matches Ok(request) ==> request.method == Method::Get && request.uri@
            == "https://api.github.com/repos/"@ + repo_name_with_owner@ + "/releases"@,
{
    let url = make_repository_url(repo_name_with_owner, "/releases");
    make_release_request(&url, token).validated()
}

/// The request for the release of a tag, with a token if there is one, or what is
/// wrong with it.
pub fn get_release_by_tag_name(repo_name_with_owner: &str, tag: &str, token: Option<&str>) -> (result:
    Result<HttpRequest, String>)
    ensures
        told(result) == validated_request(
            release_request(
                repository_url(repo_name_with_owner@, "/releases/tags/"@ + tag@),
                token.deep_view(),
            ),
        ),
        result matches Ok(request) ==> request.method == Method::Get && request.uri@
            == "https://api.github.com/repos/"@ + repo_name_with_owner@ + ("/releases/tags/"@
            + tag@),
{
    let mut rest = "/releases/tags/".to_owned();
    rest.append(tag);
    let url = make_repository_url(repo_name_with_owner, &rest);
    make_release_request(&url, token).validated()
}

/// Whether a release is the kind that is wanted.
pub open spec fn wanted(release: Release, require_assets: bool, pre_release: bool) -> bool {
    (require_assets ==> release.assets.len() > 0) && release.pre_release == pre_release
}

/// The first of `releases` that is the kind that is wanted.
pub open spec fn first_wanted(
    releases: Seq<Release>,
    require_assets: bool,
    pre_release: bool,
) -> Option<Release>
    decreases releases.len(),
{
    if releases.len() == 0 {
        None
    } else if wanted(releases[0], require_assets, pre_release) {
        Some(releases[0])
    } else {
        first_wanted(releases.drop_first(), require_assets, pre_release)
    }
}

/// `digest` without the name of its algorithm.
pub open spec fn bare_digest(digest: Seq<char>) -> Seq<char> {
    if begins(digest, "sha256:"@) {
        digest.skip("sha256:"@.len() as int)
    } else {
        digest
    }
}

/// `asset` with its digest bare.
pub open spec fn bare_asset(asset: ReleaseAsset) -> ReleaseAsset {
    ReleaseAsset {
        digest: match asset.digest {
            Some(digest) => Some(bare_digest(digest)),
            None => None,
        },
        ..asset
    }
}

/// `release` with the digests of its assets bare.
pub open spec fn bare_release(release: Release) -> Release {
    Release { assets: release.assets.map_values(|asset: ReleaseAsset| bare_asset(asset)), ..release }
}

/// The first of `releases` that is the kind that is wanted, with the digests of
/// its assets bare.
pub open spec fn latest(releases: Seq<Release>, require_assets: bool, pre_release: bool) -> Result<
    Release,
    Seq<char>,
> {
    match first_wanted(releases, require_assets, pre_release) {
        Some(release) => Ok(bare_release(release)),
        None => Err("finding a prerelease"@),
    }
}

/// The asset with its digest bare.
fn strip_digest(asset: GithubReleaseAsset) -> (result: GithubReleaseAsset)
    ensures
        result.deep_view() == bare_asset(asset.deep_view()),
        result.name@ == asset.name@,
        result.browser_download_url@ == asset.browser_download_url@,
        asset.digest is None ==> result.digest is None,
        asset.digest matches Some(digest) ==> result.digest.deep_view() == Some(
            if begins(digest@, "sha256:"@) {
                digest@.skip(7)
            } else {
                digest@
            },
        ),
{
    proof {
        reveal_strlit("sha256:");
        assert("sha256:"@.len() == 7);
    }
    let digest = match asset.digest {
        Some(digest) => match strip_prefix(&digest, "sha256:") {
            Some(stripped) => Some(stripped),
            None => Some(digest),
        },
        None => None,
    };
    GithubReleaseAsset { name: asset.name, browser_download_url: asset.browser_download_url, digest }
}

/// The release with the digests of its assets bare.
fn strip_digests(release: GithubRelease) -> (result: GithubRelease)
    ensures
        result.deep_view() == bare_release(release.deep_view()),
        result.tag_name@ == release.tag_name@,
        result.pre_release == release.pre_release,
        result.tarball_url@ == release.tarball_url@,
        result.zipball_url@ == release.zipball_url@,
        result.assets@.len() == release.assets@.len(),
{
    let ghost models = release.assets.deep_view();
    let ghost bare = models.map_values(|asset: ReleaseAsset| bare_asset(asset));
    let mut assets: Vec<GithubReleaseAsset> = Vec::new();
    for asset in iter: release.assets
        invariant
            iter.seq() == release.assets@,
            models == release.assets.deep_view(),
            bare == models.map_values(|asset: ReleaseAsset| bare_asset(asset)),
            assets.deep_view() == bare.take(iter.index() as int),
    {
        let ghost before = assets.deep_view();
        let ghost n = iter.index() as int;
        assert(models[n] == asset.deep_view());
        assets.push(strip_digest(asset));
        assert(assets.deep_view() == before.push(bare[n]));
    }
    assert(bare.take(bare.len() as int) == bare);
    GithubRelease {
        tag_name: release.tag_name,
        pre_release: release.pre_release,
        assets,
        tarball_url: release.tarball_url,
        zipball_url: release.zipball_url,
    }
}

/// The first release that is the kind that is wanted, with the digests of its
/// assets bare.
pub fn select_release(releases: Vec<GithubRelease>, require_assets: bool, pre_release: bool) -> (result:
    Result<GithubRelease, String>)
    ensures
        told(result) == latest(releases.deep_view(), require_assets, pre_release),
        result is Err <==> forall|i: int|
            0 <= i < releases@.len() ==> !((require_assets ==> (
            #[trigger] releases@[i]).assets@.len() > 0) && releases@[i].pre_release == pre_release),
        result matches Ok(release) ==> exists|i: int|
            0 <= i < releases@.len() && (require_assets ==> (
            #[trigger] releases@[i]).assets@.len() > 0) && releases@[i].pre_release == pre_release
                && release.tag_name@ == releases@[i].tag_name@ && release.pre_release
                == pre_release && release.tarball_url@ == releases@[i].tarball_url@
                && release.zipball_url@ == releases@[i].zipball_url@ && release.assets@.len()
                == releases@[i].assets@.len() && (forall|j: int|
                0 <= j < i ==> !((require_assets ==> (#[trigger] releases@[j]).assets@.len() > 0)
                    && releases@[j].pre_release == pre_release)),
        result matches Err(message) ==> message@ == "finding a prerelease"@,
{
    let ghost models = releases.deep_view();
    assert(models.skip(0) == models);
    for release in iter: releases
        invariant
            iter.seq() == releases@,
            models == releases.deep_view(),
            first_wanted(models, require_assets, pre_release) == first_wanted(
                models.skip(iter.index() as int),
                require_assets,
                pre_release,
            ),
            forall|j: int|
                0 <= j < iter.index() ==> !((require_assets ==> (
                #[trigger] releases@[j]).assets@.len() > 0) && releases@[j].pre_release
                    == pre_release),
    {
        assert(releases@[iter.index() as int] == release);
        let ghost rest = models.skip(iter.index() as int);
        assert(rest[0] == release.deep_view());
        assert(rest.drop_first() == models.skip(iter.index() + 1));
        if (!require_assets || release.assets.len() > 0) && release.pre_release == pre_release {
            return Ok(strip_digests(release));
        }
    }
    Err("finding a prerelease".to_owned())
}

/// What is said of an answer that blames the client, whose quoted text is
/// `response`.
pub open spec fn release_status_message(status: u16, response: Seq<char>) -> Seq<char> {
    "status error "@ + decimal(status as nat) + ", response: "@ + response
}

/// What is said of an answer that blames the client, whose quoted text is
/// `response`.
pub fn make_release_status_message(status: u16, response: &str) -> (result: String)
    ensures
        result@ == release_status_message(status, response@),
        result@ == "status error "@ + decimal(status as nat) + ", response: "@ + response@,
{
    let mut message = "status error ".to_owned();
    message.append(&number_text(status as u64));
    message.append(", response: ");
    message.append(response);
    message
}

/// What is made of an answer about releases, where `parsed` is what its body
/// says or why it says nothing, and `context` what is said of the latter.
pub open spec fn release_outcome<T>(
    status: u16,
    body: Seq<u8>,
    parsed: Result<T, Seq<char>>,
    context: Seq<char>,
) -> Result<T, Seq<char>> {
    if client_error(status) {
        Err(release_status_message(status, quoted_text(lossy_text(body))))
    } else {
        match parsed {
            Ok(value) => Ok(value),
            Err(problem) => Err(context + problem),
        }
    }
}

/// What is made of an answer about releases.
fn read_release_response<T>(
    status: u16,
    body: &Vec<u8>,
    parsed: Result<T, String>,
    context: &str,
) -> (result: Result<T, String>)
    ensures
        told_plainly(result) == release_outcome(status, body@, told_plainly(parsed), context@),
        result is Ok <==> !(400 <= status <= 499) && parsed is Ok,
        result matches Ok(value) ==> parsed == Ok::<_, String>(value),
        result matches Err(message) ==> message@ == if 400 <= status <= 499 {
            "status error "@ + decimal(status as nat) + ", response: "@ + quoted_text(
                lossy_text(body@),
            )
        } else {
            context@ + parsed->Err_0@
        },
{
    if is_client_error(status) {
        let text = from_utf8_lossy(body.as_slice());
        return Err(make_release_status_message(status, &quote(&text)));
    }
    match parsed {
        Ok(value) => Ok(value),
        Err(problem) => {
            let mut message = context.to_owned();
            message.append(&problem);
            Err(message)
        },
    }
}

/// The release that is wanted, from the answer to the request for all of them:
/// `parsed` is what its body says or why it says nothing.
pub fn read_latest_release(
    status: u16,
    body: &Vec<u8>,
    parsed: Result<Vec<GithubRelease>, String>,
    require_assets: bool,
    pre_release: bool,
) -> (result: Result<GithubRelease, String>)
    ensures
        told(result) == match release_outcome(
            status,
            body@,
            told(parsed),
            "error deserializing latest release: "@,
        ) {
            Ok(releases) => latest(releases, require_assets, pre_release),
            Err(message) => Err(message),
        },
        400 <= status <= 499 ==> (result matches Err(message) && message@ == "status error "@
            + decimal(status as nat) + ", response: "@ + quoted_text(lossy_text(body@))),
        !(400 <= status <= 499) ==> match parsed {
            Ok(releases) => told(result) == latest(
                releases.deep_view(),
                require_assets,
                pre_release,
            ),
            Err(problem) => result matches Err(message) && message@
                == "error deserializing latest release: "@ + problem@,
        },
{
    match read_release_response(status, body, parsed, "error deserializing latest release: ") {
        Ok(releases) => select_release(releases, require_assets, pre_release),
        Err(message) => Err(message),
    }
}

/// The release of a tag, from the answer to the request for it: `parsed` is what
/// its body says or why it says nothing.
pub fn read_tagged_release(
    status: u16,
    body: &Vec<u8>,
    parsed: Result<GithubRelease, String>,
) -> (result: Result<GithubRelease, String>)
    ensures
        told(result) == release_outcome(
            status,
            body@,
            told(parsed),
            "error deserializing GitHub release: "@,
        ),
        400 <= status <= 499 ==> (result matches Err(message) && message@ == "status error "@
            + decimal(status as nat) + ", response: "@ + quoted_text(lossy_text(body@))),
        !(400 <= status <= 499) ==> match parsed {
            Ok(release) => result == Ok::<_, String>(release),
            Err(problem) => result matches Err(message) && message@
                == "error deserializing GitHub release: "@ + problem@,
        },
{
    read_release_response(status, body, parsed, "error deserializing GitHub release: ")
}

/// A latest release is one of those listed, is the kind that is wanted, and all
/// that were listed before it are not.
pub proof fn lemma_first_wanted(
    releases: Seq<Release>,
    require_assets: bool,
    pre_release: bool,
)
    ensures
        match first_wanted(releases, require_assets, pre_release) {
            Some(release) => exists|i: int|
                0 <= i < releases.len() && #[trigger] releases[i] == release && wanted(
                    releases[i],
                    require_assets,
                    pre_release,
                ) && forall|j: int|
                    0 <= j < i ==> !wanted(#[trigger] releases[j], require_assets, pre_release),
            None => forall|j: int|
                0 <= j < releases.len() ==> !wanted(
                    #[trigger] releases[j],
                    require_assets,
                    pre_release,
                ),
        },
    decreases releases.len(),
{
    if releases.len() > 0 && !wanted(releases[0], require_assets, pre_release) {
        let rest = releases.drop_first();
        lemma_first_wanted(rest, require_assets, pre_release);
        match first_wanted(rest, require_assets, pre_release) {
            Some(release) => {
                let i = choose|i: int|
                    0 <= i < rest.len() && #[trigger] rest[i] == release && wanted(
                        rest[i],
                        require_assets,
                        pre_release,
                    ) && forall|j: int|
                        0 <= j < i ==> !wanted(#[trigger] rest[j], require_assets, pre_release);
                assert(releases[i + 1] == release);
                assert forall|j: int| 0 <= j < i + 1 implies !wanted(
                    #[trigger] releases[j],
                    require_assets,
                    pre_release,
                ) by {
                    if j > 0 {
                        assert(rest[j - 1] == releases[j]);
                    }
                }
            },
            None => {
                assert forall|j: int| 0 <= j < releases.len() implies !wanted(
                    #[trigger] releases[j],
                    require_assets,
                    pre_release,
                ) by {
                    if j > 0 {
                        assert(rest[j - 1] == releases[j]);
                    }
                }
            },
        }
    }
}

/// Where the archives of a repository's tags are.
pub open spec fn archive_base(repository: Seq<char>) -> Seq<char> {
    "https://github.com/"@ + repository + "/archive/refs/tags"@
}

/// What an archive of a tag is called.
pub open spec fn archive_name(tag: Seq<char>, kind: AssetKind) -> Seq<char> {
    tag + "."@ + match kind {
        AssetKind::TarGz => "tar.gz"@,
        AssetKind::TarBz2 => "tar.bz2"@,
        AssetKind::Gz => "gz"@,
        AssetKind::Zip => "zip"@,
    }
}

/// What an archive of a tag is called.
pub fn make_archive_name(tag: &str, kind: AssetKind) -> (result: String)
    ensures
        result@ == archive_name(tag@, kind),
        kind is TarGz ==> result@ == tag@ + "."@ + "tar.gz"@,
        kind is TarBz2 ==> result@ == tag@ + "."@ + "tar.bz2"@,
        kind is Gz ==> result@ == tag@ + "."@ + "gz"@,
        kind is Zip ==> result@ == tag@ + "."@ + "zip"@,
{
    let mut result = tag.to_owned();
    result.append(".");
    result.append(
        match kind {
            AssetKind::TarGz => "tar.gz",
            AssetKind::TarBz2 => "tar.bz2",
            AssetKind::Gz => "gz",
            AssetKind::Zip => "zip",
        },
    );
    result
}

/// Where the archives of a repository's tags are.
pub fn make_archive_base(repository: &str) -> (result: String)
    ensures
        result@ == archive_base(repository@),
        result@ == "https://github.com/"@ + repository@ + "/archive/refs/tags"@,
{
    let mut result = "https://github.com/".to_owned();
    result.append(repository);
    result.append("/archive/refs/tags");
    result
}

/// The URL of an archive, where `base` is the URL of all archives or what is said
/// of there being none, and `extended` the URL of all archives with the archive's
/// name behind it.
pub open spec fn archive_url(
    base: Result<Seq<char>, Seq<char>>,
    extended: Option<Seq<char>>,
) -> Result<Seq<char>, Seq<char>> {
    match (base, extended) {
        (Err(problem), _) => Err(problem),
        (Ok(_), None) => Err("cannot modify url path segments"@),
        (Ok(_), Some(url)) => Ok(url),
    }
}

/// The URL of the archive of a tag.
pub open spec fn asset_url(repository: Seq<char>, tag: Seq<char>, kind: AssetKind) -> Result<
    Seq<char>,
    Seq<char>,
> {
    match parsed_url(archive_base(repository)) {
        Err(problem) => archive_url(Err(problem), None),
        Ok(base) => archive_url(
            Ok(base),
            with_path_segment(archive_base(repository), archive_name(tag, kind)),
        ),
    }
}

/// Whether the URL of the archive is no longer than a URL can be.
pub open spec fn asset_url_fits(repository: Seq<char>, tag: Seq<char>, kind: AssetKind) -> bool {
    has_room(archive_base(repository), encode_utf8(archive_name(tag, kind)).len())
}

/// The URL of an archive, where `base` is the URL of all archives or what is said
/// of there being none, and `extended` the URL of all archives with the archive's
/// name behind it.
pub fn finish_asset_url(base: Result<String, String>, extended: Option<String>) -> (result: Result<
    String,
    String,
>)
    ensures
        told(result) == archive_url(told(base), extended.deep_view()),
        base matches Err(problem) ==> result == Err::<String, _>(problem),
        base is Ok ==> match extended {
            Some(url) => result == Ok::<_, String>(url),
            None => result matches Err(message) && message@ == "cannot modify url path segments"@,
        },
{
    match base {
        Err(problem) => Err(problem),
        Ok(_) => match extended {
            None => Err("cannot modify url path segments".to_owned()),
            Some(url) => Ok(url),
        },
    }
}

/// The URL of the archive of a tag. The tag is escaped, so that it stays one
/// segment of the path whatever it holds.
pub fn build_asset_url(repo_name_with_owner: &str, tag: &str, kind: AssetKind) -> (result: Result<
    String,
    String,
>)
    requires
        asset_url_fits(repo_name_with_owner@, tag@, kind),
    ensures
        told(result) == asset_url(repo_name_with_owner@, tag@, kind),
        parsed_url("https://github.com/"@ + repo_name_with_owner@ + "/archive/refs/tags"@) matches Err(
            problem,
        ) ==> (result matches Err(message) && message@ == problem),
        parsed_url("https://github.com/"@ + repo_name_with_owner@ + "/archive/refs/tags"@) is Ok
            ==> match with_path_segment(
            "https://github.com/"@ + repo_name_with_owner@ + "/archive/refs/tags"@,
            tag@ + "."@ + match kind {
                AssetKind::TarGz => "tar.gz"@,
                AssetKind::TarBz2 => "tar.bz2"@,
                AssetKind::Gz => "gz"@,
                AssetKind::Zip => "zip"@,
            },
        ) {
            Some(url) => result matches Ok(built) && built@ == url,
            None => result matches Err(message) && message@ == "cannot modify url path segments"@,
        },
{
    let archives = make_archive_base(repo_name_with_owner);
    match parse_url(&archives) {
        Err(problem) => finish_asset_url(Err(problem), None),
        Ok(base) => {
            let extended = push_path_segment(&archives, &make_archive_name(tag, kind));
            finish_asset_url(Ok(base), extended)
        },
    }
}

/// The URL of the archive of a tag, or `None` where it is longer than a URL can
/// be.
pub fn checked_build_asset_url(repo_name_with_owner: &str, tag: &str, kind: AssetKind) -> (result:
    Option<Result<String, String>>)
    ensures
        match result {
            Some(url) => asset_url_fits(repo_name_with_owner@, tag@, kind) && told(url)
                == asset_url(repo_name_with_owner@, tag@, kind),
            None => !asset_url_fits(repo_name_with_owner@, tag@, kind),
        },
{
    if let Ok(base) = parse_url(&make_archive_base(repo_name_with_owner)) {
        let name = make_archive_name(tag, kind);
        let base_length: u128 = base.as_str().as_bytes().len() as u128;
        let name_length: u128 = name.as_str().as_bytes().len() as u128;
        let long: u128 = base_length + 3 * name_length + 3;
        if long > 0xffff_ffff {
            return None;
        }
    }
    Some(build_asset_url(repo_name_with_owner, tag, kind))
}

/// The latest release is the first of those listed that is a prerelease or not as is
/// wanted and, where assets are required, has some. It keeps its name and URLs, and
/// each of its assets but for the name of the algorithm in front of its digest.
pub proof fn lemma_latest(releases: Seq<Release>, require_assets: bool, pre_release: bool)
    ensures
        latest(releases, require_assets, pre_release) is Err <==> forall|i: int|
            0 <= i < releases.len() ==> !((require_assets ==> (#[trigger] releases[i]).assets.len()
                > 0) && releases[i].pre_release == pre_release),
        latest(releases, require_assets, pre_release) matches Ok(release) ==> exists|i: int|
            0 <= i < releases.len() && (require_assets ==> (#[trigger] releases[i]).assets.len()
                > 0) && releases[i].pre_release == pre_release && release.tag_name
                == releases[i].tag_name && release.pre_release == pre_release
                && release.tarball_url == releases[i].tarball_url && release.zipball_url
                == releases[i].zipball_url && release.assets.len() == releases[i].assets.len() && (
            forall|j: int|
                0 <= j < i ==> !((require_assets ==> (#[trigger] releases[j]).assets.len() > 0)
                    && releases[j].pre_release == pre_release)) && (forall|k: int|
                0 <= k < release.assets.len() ==> {
                    &&& (#[trigger] release.assets[k]).name == releases[i].assets[k].name
                    &&& release.assets[k].browser_download_url
                        == releases[i].assets[k].browser_download_url
                    &&& match releases[i].assets[k].digest {
                        Some(digest) => release.assets[k].digest == Some(
                            if begins(digest, "sha256:"@) {
                                digest.skip(7)
                            } else {
                                digest
                            },
                        ),
                        None => release.assets[k].digest is None,
                    }
                }),
{
    reveal_strlit("sha256:");
    assert("sha256:"@.len() == 7);
    lemma_first_wanted(releases, require_assets, pre_release);
    match first_wanted(releases, require_assets, pre_release) {
        Some(release) => {
            let i = choose|i: int|
                0 <= i < releases.len() && #[trigger] releases[i] == release && wanted(
                    releases[i],
                    require_assets,
                    pre_release,
                ) && forall|j: int|
                    0 <= j < i ==> !wanted(#[trigger] releases[j], require_assets, pre_release);
            assert(wanted(releases[i], require_assets, pre_release));
            assert forall|j: int| 0 <= j < i implies !((require_assets ==> (
            #[trigger] releases[j]).assets.len() > 0) && releases[j].pre_release
                == pre_release) by {
                assert(!wanted(releases[j], require_assets, pre_release));
            }
        },
        None => {
            assert forall|i: int| 0 <= i < releases.len() implies !((require_assets ==> (
            #[trigger] releases[i]).assets.len() > 0) && releases[i].pre_release
                == pre_release) by {
                assert(!wanted(releases[i], require_assets, pre_release));
            }
        },
    }
}

/// The URL of an archive fits exactly if the URL of all archives, with three bytes for
/// each of the archive's name and three more, is no longer than a URL can be.
pub proof fn lemma_asset_url_fits(repository: Seq<char>, tag: Seq<char>, kind: AssetKind)
    ensures
        asset_url_fits(repository, tag, kind) <==> (parsed_url(
            "https://github.com/"@ + repository + "/archive/refs/tags"@,
        ) matches Ok(url) ==> encode_utf8(url).len() + 3 * encode_utf8(
            tag + "."@ + match kind {
                AssetKind::TarGz => "tar.gz"@,
                AssetKind::TarBz2 => "tar.bz2"@,
                AssetKind::Gz => "gz"@,
                AssetKind::Zip => "zip"@,
            },
        ).len() + 3 <= 0xffff_ffff),
{
}

} // verus!
